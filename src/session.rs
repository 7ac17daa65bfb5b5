//! The filter side of a session: which command may come in which state, and
//! whether the MTA waits for a reply to it.
use vstd::prelude::*;

verus! {

/// Command code `O`: option negotiation.
pub const CMD_OPTNEG: u8 = 79;

/// Command code `C`: connection information.
pub const CMD_CONNECT: u8 = 67;

/// Command code `H`: HELO/EHLO.
pub const CMD_HELO: u8 = 72;

/// Command code `M`: MAIL FROM.
pub const CMD_MAIL: u8 = 77;

/// Command code `R`: RCPT TO.
pub const CMD_RCPT: u8 = 82;

/// Command code `T`: DATA.
pub const CMD_DATA: u8 = 84;

/// Command code `L`: one header.
pub const CMD_HEADER: u8 = 76;

/// Command code `N`: end of headers.
pub const CMD_END_OF_HEADER: u8 = 78;

/// Command code `B`: a body chunk.
pub const CMD_BODY: u8 = 66;

/// Command code `E`: end of body.
pub const CMD_END_OF_BODY: u8 = 69;

/// Command code `Q`: quit.
pub const CMD_QUIT: u8 = 81;

/// Command code `K`: quit without confirmation.
pub const CMD_QUIT_NC: u8 = 75;

/// Command code `A`: abort the current message.
pub const CMD_ABORT: u8 = 65;

/// Command code `D`: macros for the next command.
pub const CMD_MACRO: u8 = 68;

/// Command code `U`: an unknown SMTP command.
pub const CMD_UNKNOWN: u8 = 85;

/// Protocol bit: no reply to headers.
pub const NO_REPLY_HEADER: u32 = 0x80;

/// Protocol bit: no reply to connection information.
pub const NO_REPLY_CONNECT: u32 = 0x1000;

/// Protocol bit: no reply to HELO.
pub const NO_REPLY_HELO: u32 = 0x2000;

/// Protocol bit: no reply to MAIL FROM.
pub const NO_REPLY_MAIL: u32 = 0x4000;

/// Protocol bit: no reply to RCPT TO.
pub const NO_REPLY_RCPT: u32 = 0x8000;

/// Protocol bit: no reply to DATA.
pub const NO_REPLY_DATA: u32 = 0x10000;

/// Protocol bit: no reply to unknown commands.
pub const NO_REPLY_UNKNOWN: u32 = 0x20000;

/// Protocol bit: no reply to the end of headers.
pub const NO_REPLY_END_OF_HEADER: u32 = 0x40000;

/// Protocol bit: no reply to body chunks.
pub const NO_REPLY_BODY: u32 = 0x80000;

/// Where a session stands, named after the last command taken.
#[derive(Debug, Clone, Copy, PartialEq, Eq, Structural)]
pub enum State {
    Initial,
    Negotiated,
    Connected,
    HeloSeen,
    MailFromSeen,
    RcptSeen,
    DataSeen,
    HeadersStreaming,
    EndOfHeaderSeen,
    BodyStreaming,
    EndOfBodySeen,
    Terminal,
}

/// Why an incoming command was refused.
#[derive(Debug, Clone, Copy, PartialEq, Eq, Structural)]
pub enum SessionError {
    /// The code is no command of the protocol.
    UnknownCode(u8),
    /// The command may not come in this state.
    ProtocolViolation { state: State, code: u8 },
}

/// `code` is the code of a command.
pub open spec fn is_command(code: u8) -> bool {
    code == CMD_OPTNEG || code == CMD_CONNECT || code == CMD_HELO || code == CMD_MAIL || code == CMD_RCPT
        || code == CMD_DATA || code == CMD_HEADER || code == CMD_END_OF_HEADER || code == CMD_BODY || code
        == CMD_END_OF_BODY || code == CMD_QUIT || code == CMD_QUIT_NC || code == CMD_ABORT || code
        == CMD_MACRO || code == CMD_UNKNOWN
}

/// The state after the command `code` in state `s`, where it is allowed there.
pub open spec fn transition(s: State, code: u8) -> Option<State> {
    match s {
        State::Initial => if code == CMD_OPTNEG {
            Some(State::Negotiated)
        } else {
            None
        },
        State::Terminal => None,
        _ => if code == CMD_QUIT || code == CMD_QUIT_NC {
            Some(State::Terminal)
        } else if code == CMD_MACRO {
            Some(s)
        } else {
            match s {
                State::Negotiated => if code == CMD_CONNECT {
                    Some(State::Connected)
                } else {
                    None
                },
                State::Connected => if code == CMD_HELO {
                    Some(State::HeloSeen)
                } else if code == CMD_UNKNOWN || code == CMD_ABORT {
                    Some(State::Connected)
                } else {
                    None
                },
                State::HeloSeen | State::EndOfBodySeen => if code == CMD_MAIL {
                    Some(State::MailFromSeen)
                } else if code == CMD_UNKNOWN || code == CMD_ABORT {
                    Some(State::HeloSeen)
                } else {
                    None
                },
                State::MailFromSeen => if code == CMD_RCPT {
                    Some(State::RcptSeen)
                } else if code == CMD_ABORT {
                    Some(State::HeloSeen)
                } else {
                    None
                },
                State::RcptSeen => if code == CMD_RCPT {
                    Some(State::RcptSeen)
                } else if code == CMD_DATA {
                    Some(State::DataSeen)
                } else if code == CMD_HEADER {
                    Some(State::HeadersStreaming)
                } else if code == CMD_ABORT {
                    Some(State::HeloSeen)
                } else {
                    None
                },
                State::DataSeen | State::HeadersStreaming => if code == CMD_HEADER {
                    Some(State::HeadersStreaming)
                } else if code == CMD_END_OF_HEADER {
                    Some(State::EndOfHeaderSeen)
                } else if code == CMD_ABORT {
                    Some(State::HeloSeen)
                } else {
                    None
                },
                State::EndOfHeaderSeen | State::BodyStreaming => if code == CMD_BODY {
                    Some(State::BodyStreaming)
                } else if code == CMD_END_OF_BODY {
                    Some(State::EndOfBodySeen)
                } else if code == CMD_ABORT {
                    Some(State::HeloSeen)
                } else {
                    None
                },
                _ => None,
            }
        },
    }
}

/// What the session makes of the command `code` in state `s`.
pub open spec fn stepped(s: State, code: u8) -> Result<State, SessionError> {
    match transition(s, code) {
        Some(next) => Ok(next),
        None => if is_command(code) {
            Err(SessionError::ProtocolViolation { state: s, code })
        } else {
            Err(SessionError::UnknownCode(code))
        },
    }
}

/// Whether the MTA waits for the filter's reply to the command `code`, under the
/// negotiated protocol bits `protocol`.
pub open spec fn awaits_reply(protocol: u32, code: u8) -> bool {
    if code == CMD_MACRO || code == CMD_ABORT || code == CMD_QUIT || code == CMD_QUIT_NC {
        false
    } else {
        let bit = no_reply_bit(code);
        bit == 0 || protocol & bit == 0
    }
}

/// The protocol bit by which the filter waives its reply to the command `code`;
/// zero where there is none.
pub open spec fn no_reply_bit(code: u8) -> u32 {
    if code == CMD_CONNECT {
        NO_REPLY_CONNECT
    } else if code == CMD_HELO {
        NO_REPLY_HELO
    } else if code == CMD_MAIL {
        NO_REPLY_MAIL
    } else if code == CMD_RCPT {
        NO_REPLY_RCPT
    } else if code == CMD_DATA {
        NO_REPLY_DATA
    } else if code == CMD_UNKNOWN {
        NO_REPLY_UNKNOWN
    } else if code == CMD_HEADER {
        NO_REPLY_HEADER
    } else if code == CMD_END_OF_HEADER {
        NO_REPLY_END_OF_HEADER
    } else if code == CMD_BODY {
        NO_REPLY_BODY
    } else {
        0
    }
}

impl State {
    /// Takes the command `code` in this state: the next state, or why the
    /// command is refused. No handler may run for a refused command.
    pub fn step(self, code: u8) -> (r: Result<State, SessionError>)
        ensures
            r == stepped(self, code),
    {
        let next = match self {
            State::Initial => if code == CMD_OPTNEG {
                Some(State::Negotiated)
            } else {
                None
            },
            State::Terminal => None,
            _ => if code == CMD_QUIT || code == CMD_QUIT_NC {
                Some(State::Terminal)
            } else if code == CMD_MACRO {
                Some(self)
            } else {
                match self {
                    State::Negotiated => if code == CMD_CONNECT {
                        Some(State::Connected)
                    } else {
                        None
                    },
                    State::Connected => if code == CMD_HELO {
                        Some(State::HeloSeen)
                    } else if code == CMD_UNKNOWN || code == CMD_ABORT {
                        Some(State::Connected)
                    } else {
                        None
                    },
                    State::HeloSeen | State::EndOfBodySeen => if code == CMD_MAIL {
                        Some(State::MailFromSeen)
                    } else if code == CMD_UNKNOWN || code == CMD_ABORT {
                        Some(State::HeloSeen)
                    } else {
                        None
                    },
                    State::MailFromSeen => if code == CMD_RCPT {
                        Some(State::RcptSeen)
                    } else if code == CMD_ABORT {
                        Some(State::HeloSeen)
                    } else {
                        None
                    },
                    State::RcptSeen => if code == CMD_RCPT {
                        Some(State::RcptSeen)
                    } else if code == CMD_DATA {
                        Some(State::DataSeen)
                    } else if code == CMD_HEADER {
                        Some(State::HeadersStreaming)
                    } else if code == CMD_ABORT {
                        Some(State::HeloSeen)
                    } else {
                        None
                    },
                    State::DataSeen | State::HeadersStreaming => if code == CMD_HEADER {
                        Some(State::HeadersStreaming)
                    } else if code == CMD_END_OF_HEADER {
                        Some(State::EndOfHeaderSeen)
                    } else if code == CMD_ABORT {
                        Some(State::HeloSeen)
                    } else {
                        None
                    },
                    State::EndOfHeaderSeen | State::BodyStreaming => if code == CMD_BODY {
                        Some(State::BodyStreaming)
                    } else if code == CMD_END_OF_BODY {
                        Some(State::EndOfBodySeen)
                    } else if code == CMD_ABORT {
                        Some(State::HeloSeen)
                    } else {
                        None
                    },
                    _ => None,
                }
            },
        };
        match next {
            Some(n) => Ok(n),
            None => if is_command_code(code) {
                Err(SessionError::ProtocolViolation { state: self, code })
            } else {
                Err(SessionError::UnknownCode(code))
            },
        }
    }
}

/// Whether `code` is the code of a command.
pub fn is_command_code(code: u8) -> (r: bool)
    ensures
        r == is_command(code),
{
    code == CMD_OPTNEG || code == CMD_CONNECT || code == CMD_HELO || code == CMD_MAIL || code == CMD_RCPT
        || code == CMD_DATA || code == CMD_HEADER || code == CMD_END_OF_HEADER || code == CMD_BODY || code
        == CMD_END_OF_BODY || code == CMD_QUIT || code == CMD_QUIT_NC || code == CMD_ABORT || code
        == CMD_MACRO || code == CMD_UNKNOWN
}

/// Whether the MTA waits for the filter's reply to the command `code`: never
/// for macros, abort and quit; for the others unless the negotiated protocol
/// bits waive it.
pub fn awaits_reply_to(protocol: u32, code: u8) -> (r: bool)
    ensures
        r == awaits_reply(protocol, code),
{
    if code == CMD_MACRO || code == CMD_ABORT || code == CMD_QUIT || code == CMD_QUIT_NC {
        return false;
    }
    let bit: u32 = if code == CMD_CONNECT {
        NO_REPLY_CONNECT
    } else if code == CMD_HELO {
        NO_REPLY_HELO
    } else if code == CMD_MAIL {
        NO_REPLY_MAIL
    } else if code == CMD_RCPT {
        NO_REPLY_RCPT
    } else if code == CMD_DATA {
        NO_REPLY_DATA
    } else if code == CMD_UNKNOWN {
        NO_REPLY_UNKNOWN
    } else if code == CMD_HEADER {
        NO_REPLY_HEADER
    } else if code == CMD_END_OF_HEADER {
        NO_REPLY_END_OF_HEADER
    } else if code == CMD_BODY {
        NO_REPLY_BODY
    } else {
        0
    };
    bit == 0 || protocol & bit == 0
}

/// A command that the table does not allow in a state is refused as a protocol
/// violation, so that no handler runs for it.
pub proof fn law_unlisted_command_is_violation(s: State, code: u8)
    requires
        is_command(code),
        transition(s, code) is None,
    ensures
        stepped(s, code) == Err::<State, SessionError>(SessionError::ProtocolViolation { state: s, code }),
{
}

/// Quit and quit-without-confirmation end every session that has negotiated
/// and not ended yet.
pub proof fn law_quit_ends_session(s: State, code: u8)
    requires
        s != State::Initial,
        s != State::Terminal,
        code == CMD_QUIT || code == CMD_QUIT_NC,
    ensures
        stepped(s, code) == Ok::<State, SessionError>(State::Terminal),
{
}

} // verus!
