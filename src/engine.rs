//! The transport engine: feeds reports to the reassembler, classifies
//! complete messages, answers the transport commands itself and hands
//! CTAP2 requests to the authenticator, one at a time.

use vstd::prelude::*;
use ctap_types::authenticator::Request;
use ctap_types::ctap2::Error as AuthenticatorError;
use crate::channel::{BROADCAST_CHANNEL, ChannelTable, MAX_LOCK_SECONDS};
use crate::command::{
    CMD_CBOR,
    CMD_ERROR,
    CMD_INIT,
    CMD_KEEPALIVE,
    CMD_LOCK,
    CMD_PING,
    CMD_WINK,
    Command,
    classify,
    command_of,
};
use crate::framing::{
    EventModel,
    FramingError,
    Message,
    REPORT_SIZE,
    Reassembler,
    ReportEvent,
    channel_bytes,
    channel_of,
    channel_prefix,
    read_channel,
    step,
};
use crate::mapping::{CtapMappingError, lemma_parse_determined, parse_cbor, parsed_as, project_error, projected};

verus! {

/// Transport error: the command is not supported.
pub const ERR_INVALID_CMD: u8 = 0x01;
/// Transport error: a parameter is out of range.
pub const ERR_INVALID_PAR: u8 = 0x02;
/// Transport error: a length is wrong.
pub const ERR_INVALID_LEN: u8 = 0x03;
/// Transport error: a continuation report is out of sequence.
pub const ERR_INVALID_SEQ: u8 = 0x04;
/// Transport error: another channel is busy.
pub const ERR_CHANNEL_BUSY: u8 = 0x06;
/// Transport error: the channel was never allocated.
pub const ERR_INVALID_CHANNEL: u8 = 0x0B;
/// Length of the nonce of an INIT request.
pub const INIT_NONCE_SIZE: usize = 8;
/// CTAPHID protocol version reported by INIT.
pub const PROTOCOL_VERSION: u8 = 2;
/// Capability flags reported by INIT: WINK and CBOR, no MSG.
pub const CAPABILITIES: u8 = 0x0D;
/// Keepalive status: the authenticator is still processing.
pub const STATUS_PROCESSING: u8 = 1;

/// What the engine asks the USB side to do.
#[derive(Debug)]
pub enum Action {
    /// Nothing to send.
    Idle,
    /// Send a response with this command and payload on `channel`.
    Reply { channel: u32, command: u8, payload: Vec<u8> },
    /// Send a transport ERROR frame with this code on `channel`.
    Error { channel: u32, code: u8 },
    /// Send a CBOR response that holds only this status on `channel`.
    Status { channel: u32, error: AuthenticatorError },
    /// Hand the request to the authenticator; its answer is for `channel`.
    Dispatch { channel: u32, request: Request },
}

/// The transport error code of a framing error.
pub open spec fn framing_code(kind: FramingError) -> u8 {
    match kind {
        FramingError::InvalidLength => ERR_INVALID_LEN,
        FramingError::InvalidSeq => ERR_INVALID_SEQ,
        FramingError::ChannelBusy => ERR_CHANNEL_BUSY,
    }
}

/// The payload of the answer to INIT: the nonce, the channel id, the
/// protocol version, three version bytes and the capability flags.
pub open spec fn init_response(nonce: Seq<u8>, c: u32) -> Seq<u8> {
    nonce + channel_bytes(c) + seq![PROTOCOL_VERSION, 0u8, 0u8, 0u8, CAPABILITIES]
}

/// Whether a message decodes into a request.
pub open spec fn decodes(data: Seq<u8>) -> bool {
    exists|r: Result<Request, CtapMappingError>| parsed_as(data, r) && r is Ok
}

/// How the engine answers a complete message on `channel`: the channel
/// table before and after, and the action.
pub open spec fn answers(
    before: ChannelTable,
    channel: u32,
    command: u8,
    data: Seq<u8>,
    after: ChannelTable,
    action: Action,
) -> bool {
    match command_of(command) {
        Some(Command::Init) => if data.len() != INIT_NONCE_SIZE {
            after == before && action == (Action::Error { channel, code: ERR_INVALID_LEN })
        } else if channel == BROADCAST_CHANNEL {
            if before.next_id < BROADCAST_CHANNEL {
                &&& after == (ChannelTable { next_id: (before.next_id + 1) as u32, ..before })
                &&& action matches Action::Reply { channel: ch, command: cmd, payload }
                &&& ch == channel && cmd == CMD_INIT && payload@ == init_response(
                    data,
                    before.next_id,
                )
            } else {
                after == before && action == (Action::Error { channel, code: ERR_CHANNEL_BUSY })
            }
        } else {
            &&& after == before.end_spec(channel).0
            &&& action matches Action::Reply { channel: ch, command: cmd, payload }
            &&& ch == channel && cmd == CMD_INIT && payload@ == init_response(data, channel)
        },
        Some(Command::Ping) => {
            &&& after == before
            &&& action matches Action::Reply { channel: ch, command: cmd, payload }
            &&& ch == channel && cmd == CMD_PING && payload@ == data
        },
        Some(Command::Wink) => {
            &&& after == before
            &&& action matches Action::Reply { channel: ch, command: cmd, payload }
            &&& ch == channel && cmd == CMD_WINK && payload@.len() == 0
        },
        Some(Command::Cbor) => if !before.allocated(channel) {
            after == before && action == (Action::Error { channel, code: ERR_INVALID_CHANNEL })
        } else if before.dispatching is Some {
            after == before && action == (Action::Error { channel, code: ERR_CHANNEL_BUSY })
        } else if decodes(data) {
            &&& after == before.begin_spec(channel).0
            &&& action matches Action::Dispatch { channel: ch, request }
            &&& ch == channel && parsed_as(data, Ok(request))
        } else {
            &&& after == before
            &&& action matches Action::Status { channel: ch, error }
            &&& ch == channel
            &&& exists|e: CtapMappingError| parsed_as(data, Err(e)) && error == projected(e)
        },
        Some(Command::Lock) => if data.len() != 1 || data[0] > MAX_LOCK_SECONDS {
            after == before && action == (Action::Error { channel, code: ERR_INVALID_PAR })
        } else if !before.allocated(channel) {
            after == before && action == (Action::Error { channel, code: ERR_INVALID_CHANNEL })
        } else {
            &&& after == before.lock_spec(channel, data[0])
            &&& action matches Action::Reply { channel: ch, command: cmd, payload }
            &&& ch == channel && cmd == CMD_LOCK && payload@.len() == 0
        },
        Some(Command::Cancel) => if before.dispatching == Some(channel) {
            after == before.end_spec(channel).0 && action == (Action::Status {
                channel,
                error: AuthenticatorError::KeepaliveCancel,
            })
        } else {
            after == before && action == Action::Idle
        },
        _ => after == before && action == (Action::Error { channel, code: ERR_INVALID_CMD }),
    }
}

/// The CTAPHID transport: the reassembler and the channel table.
pub struct CtapHid {
    pub reassembler: Reassembler,
    pub channels: ChannelTable,
}

impl CtapHid {
    pub open spec fn wf(&self) -> bool {
        self.reassembler.wf() && self.channels.wf()
    }

    /// An idle transport with no channel allocated.
    pub fn new() -> (r: CtapHid)
        ensures
            r.wf(),
            r.reassembler@ is None,
            r.channels.next_id == 1,
            r.channels.dispatching is None,
    {
        CtapHid { reassembler: Reassembler::new(), channels: ChannelTable::new() }
    }

    /// Answers a complete message.
    pub fn handle_message(&mut self, m: Message) -> (action: Action)
        requires
            old(self).wf(),
        ensures
            final(self).wf(),
            final(self).reassembler == old(self).reassembler,
            answers(old(self).channels, m.channel, m.command, m.data@, final(self).channels, action),
    {
        let channel = m.channel;
        match classify(m.command) {
            Some(Command::Init) => {
                if m.data.len() != INIT_NONCE_SIZE {
                    return Action::Error { channel, code: ERR_INVALID_LEN };
                }
                let assigned = if channel == BROADCAST_CHANNEL {
                    match self.channels.allocate() {
                        Some(c) => c,
                        None => {
                            return Action::Error { channel, code: ERR_CHANNEL_BUSY };
                        },
                    }
                } else {
                    self.channels.end_dispatch(channel);
                    channel
                };
                let mut payload = m.data;
                let mut cid = channel_prefix(assigned);
                payload.append(&mut cid);
                payload.push(PROTOCOL_VERSION);
                payload.push(0u8);
                payload.push(0u8);
                payload.push(0u8);
                payload.push(CAPABILITIES);
                assert(payload@ =~= init_response(m.data@, assigned));
                Action::Reply { channel, command: CMD_INIT, payload }
            },
            Some(Command::Ping) => Action::Reply { channel, command: CMD_PING, payload: m.data },
            Some(Command::Wink) => Action::Reply { channel, command: CMD_WINK, payload: Vec::new() },
            Some(Command::Cbor) => {
                if !self.channels.is_allocated(channel) {
                    return Action::Error { channel, code: ERR_INVALID_CHANNEL };
                }
                if self.channels.dispatching.is_some() {
                    return Action::Error { channel, code: ERR_CHANNEL_BUSY };
                }
                match parse_cbor(m.data.as_slice()) {
                    Ok(request) => {
                        assert(parsed_as(m.data@, Ok(request)));
                        self.channels.begin_dispatch(channel);
                        Action::Dispatch { channel, request }
                    },
                    Err(e) => {
                        let ghost r: Result<Request, CtapMappingError> = Err(e);
                        assert forall|x: Result<Request, CtapMappingError>|
                            parsed_as(m.data@, x) implies x is Err by {
                            lemma_parse_determined(m.data@, r, x);
                        }
                        assert(parsed_as(m.data@, Err(e)));
                        Action::Status { channel, error: project_error(e) }
                    },
                }
            },
            Some(Command::Lock) => {
                if m.data.len() != 1 || m.data[0] > MAX_LOCK_SECONDS {
                    return Action::Error { channel, code: ERR_INVALID_PAR };
                }
                if !self.channels.is_allocated(channel) {
                    return Action::Error { channel, code: ERR_INVALID_CHANNEL };
                }
                self.channels.lock(channel, m.data[0]);
                Action::Reply { channel, command: CMD_LOCK, payload: Vec::new() }
            },
            Some(Command::Cancel) => {
                if self.channels.end_dispatch(channel) {
                    Action::Status { channel, error: AuthenticatorError::KeepaliveCancel }
                } else {
                    Action::Idle
                }
            },
            _ => Action::Error { channel, code: ERR_INVALID_CMD },
        }
    }

    /// Feeds one report from the host: a report shut out by another
    /// channel's lock is refused as busy, framing errors become ERROR
    /// frames, and a complete message is answered as `handle_message`
    /// answers it.
    pub fn on_report(&mut self, report: &[u8]) -> (action: Action)
        requires
            old(self).wf(),
            report@.len() == REPORT_SIZE,
        ensures
            final(self).wf(),
            old(self).channels.shut_out(channel_of(report@)) ==> action == (Action::Error {
                channel: channel_of(report@),
                code: ERR_CHANNEL_BUSY,
            }) && final(self).channels == old(self).channels && final(self).reassembler@ == old(
                self,
            ).reassembler@,
            !old(self).channels.shut_out(channel_of(report@)) ==> final(self).reassembler@ == step(
                old(self).reassembler@,
                report@,
            ).0,
            !old(self).channels.shut_out(channel_of(report@)) ==> match step(old(self).reassembler@, report@).1 {
                EventModel::Incomplete => action == Action::Idle && final(self).channels == old(
                    self,
                ).channels,
                EventModel::Failed { channel, kind } => action == (Action::Error {
                    channel,
                    code: framing_code(kind),
                }) && final(self).channels == old(self).channels,
                EventModel::Ready { channel, command, data } => answers(
                    old(self).channels,
                    channel,
                    command,
                    data,
                    final(self).channels,
                    action,
                ),
            },
    {
        let channel = read_channel(report);
        if self.channels.is_shut_out(channel) {
            return Action::Error { channel, code: ERR_CHANNEL_BUSY };
        }
        match self.reassembler.on_report(report) {
            ReportEvent::Incomplete => Action::Idle,
            ReportEvent::Error { channel, kind } => {
                let code = match kind {
                    FramingError::InvalidLength => ERR_INVALID_LEN,
                    FramingError::InvalidSeq => ERR_INVALID_SEQ,
                    FramingError::ChannelBusy => ERR_CHANNEL_BUSY,
                };
                Action::Error { channel, code }
            },
            ReportEvent::MessageReady(m) => self.handle_message(m),
        }
    }

    /// Takes the authenticator's answer for `channel`: it is sent as the
    /// CBOR response if `channel` is dispatching, and dropped otherwise.
    pub fn on_response(&mut self, channel: u32, payload: Vec<u8>) -> (action: Action)
        requires
            old(self).wf(),
        ensures
            final(self).wf(),
            final(self).reassembler == old(self).reassembler,
            final(self).channels == old(self).channels.end_spec(channel).0,
            old(self).channels.dispatching == Some(channel) ==> (action matches Action::Reply {
                channel: ch,
                command: cmd,
                payload: p,
            } && ch == channel && cmd == CMD_CBOR && p@ == payload@),
            old(self).channels.dispatching != Some(channel) ==> action == Action::Idle,
    {
        if self.channels.end_dispatch(channel) {
            Action::Reply { channel, command: CMD_CBOR, payload }
        } else {
            Action::Idle
        }
    }

    /// A scheduler tick: the lock runs down, and a keepalive goes to the
    /// channel being dispatched, if any.
    pub fn on_tick(&mut self) -> (action: Action)
        requires
            old(self).wf(),
        ensures
            final(self).wf(),
            final(self).reassembler == old(self).reassembler,
            final(self).channels == old(self).channels.tick_spec(),
            match old(self).channels.dispatching {
                Some(c) => action matches Action::Reply { channel: ch, command: cmd, payload }
                    && ch == c && cmd == CMD_KEEPALIVE && payload@ == seq![STATUS_PROCESSING],
                None => action == Action::Idle,
            },
    {
        self.channels.tick();
        match self.channels.dispatching {
            Some(c) => {
                let mut payload: Vec<u8> = Vec::new();
                payload.push(STATUS_PROCESSING);
                assert(payload@ =~= seq![STATUS_PROCESSING]);
                Action::Reply { channel: c, command: CMD_KEEPALIVE, payload }
            },
            None => Action::Idle,
        }
    }
}

/// While a channel is dispatching, no complete message (on any channel)
/// starts a second dispatch: the dispatching channel stays the only one.
pub proof fn lemma_one_dispatch_at_a_time(
    before: ChannelTable,
    channel: u32,
    command: u8,
    data: Seq<u8>,
    after: ChannelTable,
    action: Action,
)
    requires
        before.wf(),
        before.dispatching is Some,
        answers(before, channel, command, data, after, action),
    ensures
        !(action is Dispatch),
        after.dispatching is None || after.dispatching == before.dispatching,
{
}

} // verus!
