//! Classification of CTAPHID command codes (the command byte of an
//! initialization report, without its top bit).

use vstd::prelude::*;

verus! {

pub const CMD_PING: u8 = 0x01;
pub const CMD_MSG: u8 = 0x03;
pub const CMD_LOCK: u8 = 0x04;
pub const CMD_INIT: u8 = 0x06;
pub const CMD_WINK: u8 = 0x08;
pub const CMD_CBOR: u8 = 0x10;
pub const CMD_CANCEL: u8 = 0x11;
pub const CMD_KEEPALIVE: u8 = 0x3B;
pub const CMD_ERROR: u8 = 0x3F;
pub const CMD_VENDOR_FIRST: u8 = 0x40;
pub const CMD_VENDOR_LAST: u8 = 0x7F;

/// A transport-level command.
#[derive(Clone, Copy, Debug, PartialEq, Eq, Structural)]
pub enum Command {
    Ping,
    Msg,
    Lock,
    Init,
    Wink,
    Cbor,
    Cancel,
    KeepAlive,
    Error,
    /// A code of the vendor range.
    Vendor(u8),
}

/// The command that a code stands for, if any.
pub open spec fn command_of(code: u8) -> Option<Command> {
    if code == CMD_PING {
        Some(Command::Ping)
    } else if code == CMD_MSG {
        Some(Command::Msg)
    } else if code == CMD_LOCK {
        Some(Command::Lock)
    } else if code == CMD_INIT {
        Some(Command::Init)
    } else if code == CMD_WINK {
        Some(Command::Wink)
    } else if code == CMD_CBOR {
        Some(Command::Cbor)
    } else if code == CMD_CANCEL {
        Some(Command::Cancel)
    } else if code == CMD_KEEPALIVE {
        Some(Command::KeepAlive)
    } else if code == CMD_ERROR {
        Some(Command::Error)
    } else if CMD_VENDOR_FIRST <= code <= CMD_VENDOR_LAST {
        Some(Command::Vendor(code))
    } else {
        None
    }
}

impl Command {
    /// A vendor command carries a code of the vendor range.
    pub open spec fn wf(self) -> bool {
        self is Vendor ==> CMD_VENDOR_FIRST <= self->Vendor_0 <= CMD_VENDOR_LAST
    }

    /// The code of a command.
    pub open spec fn code_spec(self) -> u8 {
        match self {
            Command::Ping => CMD_PING,
            Command::Msg => CMD_MSG,
            Command::Lock => CMD_LOCK,
            Command::Init => CMD_INIT,
            Command::Wink => CMD_WINK,
            Command::Cbor => CMD_CBOR,
            Command::Cancel => CMD_CANCEL,
            Command::KeepAlive => CMD_KEEPALIVE,
            Command::Error => CMD_ERROR,
            Command::Vendor(code) => code,
        }
    }

    /// The code of a command.
    pub fn code(&self) -> (r: u8)
        ensures
            r == self.code_spec(),
    {
        match self {
            Command::Ping => CMD_PING,
            Command::Msg => CMD_MSG,
            Command::Lock => CMD_LOCK,
            Command::Init => CMD_INIT,
            Command::Wink => CMD_WINK,
            Command::Cbor => CMD_CBOR,
            Command::Cancel => CMD_CANCEL,
            Command::KeepAlive => CMD_KEEPALIVE,
            Command::Error => CMD_ERROR,
            Command::Vendor(code) => *code,
        }
    }
}

/// Maps a command code to its command; `None` for a code that is neither
/// a fixed command nor in the vendor range.
pub fn classify(code: u8) -> (r: Option<Command>)
    ensures
        r == command_of(code),
        r is Some ==> r->0.wf(),
{
    if code == CMD_PING {
        Some(Command::Ping)
    } else if code == CMD_MSG {
        Some(Command::Msg)
    } else if code == CMD_LOCK {
        Some(Command::Lock)
    } else if code == CMD_INIT {
        Some(Command::Init)
    } else if code == CMD_WINK {
        Some(Command::Wink)
    } else if code == CMD_CBOR {
        Some(Command::Cbor)
    } else if code == CMD_CANCEL {
        Some(Command::Cancel)
    } else if code == CMD_KEEPALIVE {
        Some(Command::KeepAlive)
    } else if code == CMD_ERROR {
        Some(Command::Error)
    } else if CMD_VENDOR_FIRST <= code && code <= CMD_VENDOR_LAST {
        Some(Command::Vendor(code))
    } else {
        None
    }
}

/// Classifying the code of a command gives the command back, and a code
/// that classifies has the command's code.
pub proof fn lemma_classify_code(c: Command, code: u8)
    requires
        c.wf(),
    ensures
        command_of(c.code_spec()) == Some(c),
        command_of(code) is Some ==> command_of(code)->0.code_spec() == code,
{
}

} // verus!
