//! CTAPHID framing: reassembly of fixed-size HID reports into complete
//! messages, and fragmentation of a response into reports.
//!
//! An initialization report holds the channel id (4 bytes, big endian), the
//! command byte with its top bit set, the payload length (2 bytes, big
//! endian) and the first payload bytes. A continuation report holds the
//! channel id, a sequence number below 0x80 and further payload bytes.

use vstd::prelude::*;

verus! {

/// Size of every HID report.
pub const REPORT_SIZE: usize = 64;
/// Payload bytes carried by an initialization report.
pub const INIT_PAYLOAD: usize = 57;
/// Payload bytes carried by a continuation report.
pub const CONT_PAYLOAD: usize = 59;
/// Largest message: one initialization and 128 continuation reports.
pub const MAX_MESSAGE_SIZE: usize = 7609;
/// Bit that marks an initialization report in byte 4.
pub const INIT_FLAG: u8 = 0x80;

/// Framing failures, reported to the host on the channel named.
#[derive(Clone, Copy, Debug, PartialEq, Eq, Structural)]
pub enum FramingError {
    /// The declared message length exceeds the largest message.
    InvalidLength,
    /// A continuation report arrived out of sequence.
    InvalidSeq,
    /// Another channel is in the middle of a message.
    ChannelBusy,
}

/// A complete message reassembled from reports.
#[derive(Debug)]
pub struct Message {
    pub channel: u32,
    pub command: u8,
    pub data: Vec<u8>,
}

/// What the reassembler reports after one report.
#[derive(Debug)]
pub enum ReportEvent {
    /// More reports are needed (or the report was ignored).
    Incomplete,
    /// A message is complete.
    MessageReady(Message),
    /// The report was refused; an error goes back on `channel`.
    Error { channel: u32, kind: FramingError },
}

/// Mathematical form of a report event.
pub enum EventModel {
    Incomplete,
    Ready { channel: u32, command: u8, data: Seq<u8> },
    Failed { channel: u32, kind: FramingError },
}

impl ReportEvent {
    pub open spec fn view(&self) -> EventModel {
        match self {
            ReportEvent::Incomplete => EventModel::Incomplete,
            ReportEvent::MessageReady(m) => EventModel::Ready {
                channel: m.channel,
                command: m.command,
                data: m.data@,
            },
            ReportEvent::Error { channel, kind } => EventModel::Failed {
                channel: *channel,
                kind: *kind,
            },
        }
    }
}

/// A message in the middle of reassembly.
#[derive(Debug)]
pub struct Transaction {
    pub channel: u32,
    pub command: u8,
    pub declared: usize,
    pub buffer: Vec<u8>,
    pub next_seq: u8,
}

/// Mathematical form of a transaction.
pub struct TransactionModel {
    pub channel: u32,
    pub command: u8,
    pub declared: nat,
    pub buffer: Seq<u8>,
    pub next_seq: nat,
}

impl Transaction {
    pub open spec fn view(&self) -> TransactionModel {
        TransactionModel {
            channel: self.channel,
            command: self.command,
            declared: self.declared as nat,
            buffer: self.buffer@,
            next_seq: self.next_seq as nat,
        }
    }
}

/// A transaction that is partway through: every report so far was full,
/// and bytes are still missing.
pub open spec fn transaction_wf(t: TransactionModel) -> bool {
    &&& t.buffer.len() == INIT_PAYLOAD + CONT_PAYLOAD * t.next_seq
    &&& t.buffer.len() < t.declared
    &&& t.declared <= MAX_MESSAGE_SIZE
}

/// The channel id in the first four bytes of a report.
pub open spec fn channel_of(r: Seq<u8>) -> u32 {
    ((r[0] as u32) << 24u32) | ((r[1] as u32) << 16u32) | ((r[2] as u32) << 8u32) | (
    r[3] as u32)
}

/// The big-endian bytes of a channel id.
pub open spec fn channel_bytes(c: u32) -> Seq<u8> {
    seq![(c >> 24u32) as u8, (c >> 16u32) as u8, (c >> 8u32) as u8, c as u8]
}

pub open spec fn min(a: int, b: int) -> int {
    if a <= b {
        a
    } else {
        b
    }
}

/// The payload length declared by an initialization report.
pub open spec fn declared_of(r: Seq<u8>) -> nat {
    (r[5] as nat) * 256 + (r[6] as nat)
}

/// The reassembler's answer to one report of `REPORT_SIZE` bytes, from the
/// transaction in progress (if any): the next transaction and the event.
pub open spec fn step(state: Option<TransactionModel>, r: Seq<u8>) -> (
    Option<TransactionModel>,
    EventModel,
) {
    let channel = channel_of(r);
    if r[4] >= INIT_FLAG {
        let command = (r[4] - INIT_FLAG) as u8;
        let declared = declared_of(r);
        if state is Some && state->0.channel != channel {
            (state, EventModel::Failed { channel, kind: FramingError::ChannelBusy })
        } else if declared > MAX_MESSAGE_SIZE {
            (None, EventModel::Failed { channel, kind: FramingError::InvalidLength })
        } else {
            let n = min(declared as int, INIT_PAYLOAD as int);
            let data = r.subrange(7, 7 + n);
            if n == declared {
                (None, EventModel::Ready { channel, command, data })
            } else {
                (
                    Some(TransactionModel { channel, command, declared, buffer: data, next_seq: 0 }),
                    EventModel::Incomplete,
                )
            }
        }
    } else {
        match state {
            None => (state, EventModel::Incomplete),
            Some(t) => if t.channel != channel {
                (state, EventModel::Failed { channel, kind: FramingError::ChannelBusy })
            } else if r[4] as nat != t.next_seq {
                (None, EventModel::Failed { channel, kind: FramingError::InvalidSeq })
            } else {
                let n = min(t.declared - t.buffer.len(), CONT_PAYLOAD as int);
                let buffer = t.buffer + r.subrange(5, 5 + n);
                if buffer.len() == t.declared {
                    (None, EventModel::Ready { channel, command: t.command, data: buffer })
                } else {
                    (
                        Some(TransactionModel { buffer, next_seq: t.next_seq + 1, ..t }),
                        EventModel::Incomplete,
                    )
                }
            },
        }
    }
}

/// Reassembles messages from a stream of reports, one message at a time.
pub struct Reassembler {
    pub active: Option<Transaction>,
}

impl Reassembler {
    pub open spec fn view(&self) -> Option<TransactionModel> {
        match self.active {
            None => None,
            Some(t) => Some(t@),
        }
    }

    pub open spec fn wf(&self) -> bool {
        self.active is Some ==> transaction_wf(self.active->0@)
    }

    /// A reassembler with no message in progress.
    pub fn new() -> (r: Reassembler)
        ensures
            r.wf(),
            r@ is None,
    {
        Reassembler { active: None }
    }

    /// Whether a message is in progress, and on which channel.
    pub fn busy_channel(&self) -> (r: Option<u32>)
        ensures
            r == (match self@ {
                None => None,
                Some(t) => Some(t.channel),
            }),
    {
        match &self.active {
            None => None,
            Some(t) => Some(t.channel),
        }
    }

    /// Drops the message in progress on `channel`, if there is one.
    pub fn cancel(&mut self, channel: u32)
        requires
            old(self).wf(),
        ensures
            final(self).wf(),
            final(self)@ == (if old(self)@ is Some && old(self)@->0.channel == channel {
                None
            } else {
                old(self)@
            }),
    {
        let hit = match &self.active {
            Some(t) => t.channel == channel,
            None => false,
        };
        if hit {
            self.active = None;
        }
    }

    /// Feeds one report to the reassembler.
    pub fn on_report(&mut self, report: &[u8]) -> (ev: ReportEvent)
        requires
            old(self).wf(),
            report@.len() == REPORT_SIZE,
        ensures
            final(self).wf(),
            (final(self)@, ev@) == step(old(self)@, report@),
    {
        let channel = read_channel(report);
        let b4 = report[4];
        if b4 >= INIT_FLAG {
            let command = b4 - INIT_FLAG;
            let declared = (report[5] as usize) * 256 + (report[6] as usize);
            let busy_elsewhere = match &self.active {
                Some(t) => t.channel != channel,
                None => false,
            };
            if busy_elsewhere {
                return ReportEvent::Error { channel, kind: FramingError::ChannelBusy };
            }
            if declared > MAX_MESSAGE_SIZE {
                self.active = None;
                return ReportEvent::Error { channel, kind: FramingError::InvalidLength };
            }
            let n = if declared <= INIT_PAYLOAD {
                declared
            } else {
                INIT_PAYLOAD
            };
            let mut data: Vec<u8> = Vec::new();
            append_bytes(&mut data, report, 7, n);
            if n == declared {
                self.active = None;
                ReportEvent::MessageReady(Message { channel, command, data })
            } else {
                self.active = Some(
                    Transaction { channel, command, declared, buffer: data, next_seq: 0 },
                );
                ReportEvent::Incomplete
            }
        } else {
            let mut t = match self.active.take() {
                None => {
                    return ReportEvent::Incomplete;
                },
                Some(t) => t,
            };
            if t.channel != channel {
                self.active = Some(t);
                return ReportEvent::Error { channel, kind: FramingError::ChannelBusy };
            }
            if b4 != t.next_seq {
                return ReportEvent::Error { channel, kind: FramingError::InvalidSeq };
            }
            let remaining = t.declared - t.buffer.len();
            let n = if remaining <= CONT_PAYLOAD {
                remaining
            } else {
                CONT_PAYLOAD
            };
            append_bytes(&mut t.buffer, report, 5, n);
            if t.buffer.len() == t.declared {
                ReportEvent::MessageReady(
                    Message { channel, command: t.command, data: t.buffer },
                )
            } else {
                t.next_seq = t.next_seq + 1;
                self.active = Some(t);
                ReportEvent::Incomplete
            }
        }
    }
}


/// `n` zero bytes.
pub open spec fn zeros(n: nat) -> Seq<u8> {
    Seq::new(n, |i: int| 0u8)
}

/// A report's bytes: `s` followed by zeros up to `REPORT_SIZE`.
pub open spec fn padded(s: Seq<u8>) -> Seq<u8> {
    s + zeros((REPORT_SIZE - s.len()) as nat)
}

/// Where the payload of continuation report `k` starts.
pub open spec fn cont_start(k: nat) -> int {
    INIT_PAYLOAD + CONT_PAYLOAD * k
}

/// The initialization report that starts sending `payload`.
pub open spec fn init_report(c: u32, command: u8, payload: Seq<u8>) -> Seq<u8> {
    padded(
        channel_bytes(c) + seq![
            (command + INIT_FLAG) as u8,
            (payload.len() / 256) as u8,
            (payload.len() % 256) as u8,
        ] + payload.subrange(0, min(payload.len() as int, INIT_PAYLOAD as int)),
    )
}

/// Continuation report `k` of `payload`.
pub open spec fn cont_report(c: u32, k: nat, payload: Seq<u8>) -> Seq<u8> {
    padded(
        channel_bytes(c) + seq![k as u8] + payload.subrange(
            cont_start(k),
            min(payload.len() as int, cont_start(k) + CONT_PAYLOAD),
        ),
    )
}

/// How many reports carry a payload of `len` bytes.
pub open spec fn report_count(len: nat) -> nat {
    if len <= INIT_PAYLOAD {
        1
    } else {
        1 + ((len - INIT_PAYLOAD + CONT_PAYLOAD - 1) / (CONT_PAYLOAD as int)) as nat
    }
}

/// Report `i` of the reports that carry `payload`.
pub open spec fn report_at(c: u32, command: u8, payload: Seq<u8>, i: nat) -> Seq<u8> {
    if i == 0 {
        init_report(c, command, payload)
    } else {
        cont_report(c, (i - 1) as nat, payload)
    }
}

/// The reports that carry `payload` with `command` on channel `c`.
pub open spec fn fragments(c: u32, command: u8, payload: Seq<u8>) -> Seq<Seq<u8>> {
    Seq::new(report_count(payload.len()), |i: int| report_at(c, command, payload, i as nat))
}

/// Builds one report: `prefix`, then `payload[start..start + n]`, then zeros.
fn write_report(prefix: Vec<u8>, payload: &[u8], start: usize, n: usize) -> (r: Vec<u8>)
    requires
        prefix@.len() + n <= REPORT_SIZE,
        start + n <= payload@.len(),
    ensures
        r@ == padded(prefix@ + payload@.subrange(start as int, start + n)),
{
    let mut r = prefix;
    append_bytes(&mut r, payload, start, n);
    let ghost body = r@;
    while r.len() < REPORT_SIZE
        invariant
            body.len() <= r@.len() <= REPORT_SIZE,
            r@ == body + zeros((r@.len() - body.len()) as nat),
        decreases REPORT_SIZE - r@.len(),
    {
        r.push(0u8);
        assert(r@ =~= body + zeros((r@.len() - body.len()) as nat));
    }
    r
}

/// The channel id of `c` as the first bytes of a report.
pub fn channel_prefix(c: u32) -> (r: Vec<u8>)
    ensures
        r@ == channel_bytes(c),
{
    let mut r: Vec<u8> = Vec::new();
    r.push((c >> 24u32) as u8);
    r.push((c >> 16u32) as u8);
    r.push((c >> 8u32) as u8);
    r.push(c as u8);
    assert(r@ =~= channel_bytes(c));
    r
}

proof fn lemma_report_count(len: nat, k: nat)
    requires
        INIT_PAYLOAD < len,
        cont_start(k) < len <= cont_start(k) + CONT_PAYLOAD,
    ensures
        report_count(len) == k + 2,
{
    assert((len - INIT_PAYLOAD + CONT_PAYLOAD - 1) / (CONT_PAYLOAD as int) == k + 1)
        by (nonlinear_arith)
        requires
            57 + 59 * k < len <= 57 + 59 * k + 59,
    ;
}

/// Splits a response into reports: one initialization report, then
/// continuation reports numbered from 0, the last one padded with zeros.
pub fn fragment(channel: u32, command: u8, payload: &[u8]) -> (r: Vec<Vec<u8>>)
    requires
        payload@.len() <= MAX_MESSAGE_SIZE,
        command < INIT_FLAG,
    ensures
        r@.len() == fragments(channel, command, payload@).len(),
        forall|i: int|
            0 <= i < r@.len() ==> #[trigger] r@[i]@ == fragments(channel, command, payload@)[i],
{
    let len = payload.len();
    let ghost p = payload@;
    let mut out: Vec<Vec<u8>> = Vec::new();
    let mut head = channel_prefix(channel);
    head.push(command + INIT_FLAG);
    head.push((len / 256) as u8);
    head.push((len % 256) as u8);
    let first = if len <= INIT_PAYLOAD {
        len
    } else {
        INIT_PAYLOAD
    };
    let init = write_report(head, payload, 0, first);
    assert(init@ =~= init_report(channel, command, p));
    out.push(init);
    let mut offset: usize = INIT_PAYLOAD;
    let mut k: u8 = 0;
    while offset < len
        invariant
            len == p.len(),
            p == payload@,
            len <= MAX_MESSAGE_SIZE,
            command < INIT_FLAG,
            offset == cont_start(k as nat),
            k == 0 || cont_start((k - 1) as nat) + CONT_PAYLOAD < len,
            out@.len() == k + 1,
            forall|i: int|
                0 <= i < out@.len() ==> #[trigger] out@[i]@ == report_at(
                    channel,
                    command,
                    p,
                    i as nat,
                ),
        decreases len - offset,
    {
        assert(k < 128) by (nonlinear_arith)
            requires
                offset == 57 + 59 * (k as int),
                offset < len,
                len <= 7609,
        ;
        let rest = len - offset;
        let n = if rest <= CONT_PAYLOAD {
            rest
        } else {
            CONT_PAYLOAD
        };
        let mut head = channel_prefix(channel);
        head.push(k);
        let rep = write_report(head, payload, offset, n);
        assert(rep@ =~= cont_report(channel, k as nat, p));
        out.push(rep);
        offset = offset + n;
        if offset < len {
            k = k + 1;
        } else {
            proof {
                lemma_report_count(len as nat, k as nat);
            }
            assert(out@.len() == report_count(len as nat));
            assert forall|i: int| 0 <= i < out@.len() implies #[trigger] out@[i]@ == fragments(
                channel,
                command,
                p,
            )[i] by {}
            return out;
        }
    }
    assert(len <= INIT_PAYLOAD);
    out
}


/// The transaction after reports `reports`, fed one by one from `state`,
/// and the event of each report.
pub open spec fn run(state: Option<TransactionModel>, reports: Seq<Seq<u8>>) -> (
    Option<TransactionModel>,
    Seq<EventModel>,
)
    decreases reports.len(),
{
    if reports.len() == 0 {
        (state, Seq::empty())
    } else {
        let (next, ev) = step(state, reports[0]);
        let (last, evs) = run(next, reports.drop_first());
        (last, seq![ev] + evs)
    }
}

proof fn lemma_channel_round_trip(c: u32)
    ensures
        ((((c >> 24u32) as u8) as u32) << 24u32) | ((((c >> 16u32) as u8) as u32) << 16u32) | ((((c
            >> 8u32) as u8) as u32) << 8u32) | ((c as u8) as u32) == c,
{
    assert(((((c >> 24u32) as u8) as u32) << 24u32) | ((((c >> 16u32) as u8) as u32) << 16u32) | ((((c
        >> 8u32) as u8) as u32) << 8u32) | ((c as u8) as u32) == c) by (bit_vector);
}

/// What the reassembler holds after the initialization report and the
/// first `k` continuation reports of `payload`.
pub open spec fn partial(c: u32, command: u8, payload: Seq<u8>, k: nat) -> TransactionModel {
    TransactionModel {
        channel: c,
        command,
        declared: payload.len(),
        buffer: payload.subrange(0, cont_start(k)),
        next_seq: k,
    }
}

proof fn lemma_cont_step(c: u32, command: u8, payload: Seq<u8>, k: nat)
    requires
        payload.len() <= MAX_MESSAGE_SIZE,
        cont_start(k) < payload.len(),
    ensures
        ({
            let t = partial(c, command, payload, k);
            let r = cont_report(c, k, payload);
            let (next, ev) = step(Some(t), r);
            if cont_start(k) + CONT_PAYLOAD < payload.len() {
                next == Some(partial(c, command, payload, k + 1)) && ev == EventModel::Incomplete
            } else {
                next is None && ev == (EventModel::Ready { channel: c, command, data: payload })
            }
        }),
{
    assert(k < 128) by (nonlinear_arith)
        requires
            57 + 59 * k < payload.len(),
            payload.len() <= 7609,
    ;
    let r = cont_report(c, k, payload);
    let n = min(payload.len() - cont_start(k), CONT_PAYLOAD as int);
    lemma_channel_round_trip(c);
    assert(r.len() == REPORT_SIZE);
    assert(channel_of(r) == c);
    assert(r[4] == k as u8);
    assert(r.subrange(5, 5 + n) =~= payload.subrange(cont_start(k), cont_start(k) + n));
    assert(payload.subrange(0, cont_start(k)) + payload.subrange(cont_start(k), cont_start(k) + n)
        =~= payload.subrange(0, cont_start(k) + n));
    assert(payload.subrange(0, payload.len() as int) =~= payload);
}

proof fn lemma_run_conts(c: u32, command: u8, payload: Seq<u8>, k: nat)
    requires
        payload.len() <= MAX_MESSAGE_SIZE,
        command < INIT_FLAG,
        cont_start(k) < payload.len(),
    ensures
        ({
            let frags = fragments(c, command, payload);
            let (last, evs) = run(
                Some(partial(c, command, payload, k)),
                frags.subrange(k + 1 as int, frags.len() as int),
            );
            &&& frags.len() > k + 1
            &&& last is None
            &&& evs.len() == frags.len() - (k + 1)
            &&& evs.last() == (EventModel::Ready { channel: c, command, data: payload })
            &&& forall|i: int| 0 <= i < evs.len() - 1 ==> evs[i] == EventModel::Incomplete
        }),
    decreases payload.len() - cont_start(k),
{
    let frags = fragments(c, command, payload);
    let rest = frags.subrange(k + 1 as int, frags.len() as int);
    let t = partial(c, command, payload, k);
    lemma_cont_step(c, command, payload, k);
    if cont_start(k) + CONT_PAYLOAD < payload.len() {
        lemma_run_conts(c, command, payload, k + 1);
        assert(report_count(payload.len()) > k + 2) by {
            let x = payload.len() - 57 + 58;
            assert(x / 59 >= k + 2) by (nonlinear_arith)
                requires
                    x >= 59 * (k + 2),
            ;
        }
        assert(rest[0] == cont_report(c, k, payload));
        assert(rest.drop_first() =~= frags.subrange(k + 2 as int, frags.len() as int));
    } else {
        lemma_report_count(payload.len(), k);
        assert(rest.len() == 1);
        assert(rest[0] == cont_report(c, k, payload));
        assert(rest.drop_first() =~= Seq::<Seq<u8>>::empty());
    }
    let (next, ev) = step(Some(t), rest[0]);
    let (last, evs2) = run(next, rest.drop_first());
    assert(run(Some(t), rest) == (last, seq![ev] + evs2));
    let evs = seq![ev] + evs2;
    assert forall|i: int| 0 <= i < evs.len() - 1 implies evs[i] == EventModel::Incomplete by {
        if i > 0 {
            assert(evs[i] == evs2[i - 1]);
        }
    }
}

/// Feeding the reports of `fragment` to an idle reassembler gives back
/// exactly the payload, with its channel and command, on the last report,
/// and no event before it.
pub proof fn lemma_fragments_reassemble(c: u32, command: u8, payload: Seq<u8>)
    requires
        payload.len() <= MAX_MESSAGE_SIZE,
        command < INIT_FLAG,
    ensures
        ({
            let frags = fragments(c, command, payload);
            let (last, evs) = run(None, frags);
            &&& last is None
            &&& evs.len() == frags.len()
            &&& evs.last() == (EventModel::Ready { channel: c, command, data: payload })
            &&& forall|i: int| 0 <= i < evs.len() - 1 ==> evs[i] == EventModel::Incomplete
        }),
{
    let frags = fragments(c, command, payload);
    let r = init_report(c, command, payload);
    let len = payload.len();
    let n = min(len as int, INIT_PAYLOAD as int);
    lemma_channel_round_trip(c);
    assert(r.len() == REPORT_SIZE);
    assert(channel_of(r) == c);
    assert(declared_of(r) == len);
    assert(r.subrange(7, 7 + n) =~= payload.subrange(0, n));
    assert(frags[0] == r);
    if len <= INIT_PAYLOAD {
        assert(payload.subrange(0, n) =~= payload);
        assert(frags.drop_first() =~= Seq::<Seq<u8>>::empty());
    } else {
        lemma_run_conts(c, command, payload, 0);
        assert(frags.drop_first() =~= frags.subrange(1, frags.len() as int));
    }
    let (next, ev) = step(None, frags[0]);
    let (last, evs2) = run(next, frags.drop_first());
    assert(run(None, frags) == (last, seq![ev] + evs2));
    let evs = seq![ev] + evs2;
    assert forall|i: int| 0 <= i < evs.len() - 1 implies evs[i] == EventModel::Incomplete by {
        if i > 0 {
            assert(evs[i] == evs2[i - 1]);
        }
    }
}


/// A continuation report on the channel in progress whose sequence number
/// is not the expected one aborts the message with a sequencing error.
pub proof fn lemma_out_of_sequence_aborts(t: TransactionModel, r: Seq<u8>)
    requires
        r.len() == REPORT_SIZE,
        channel_of(r) == t.channel,
        r[4] < INIT_FLAG,
        r[4] as nat != t.next_seq,
    ensures
        step(Some(t), r) == (
            None::<TransactionModel>,
            EventModel::Failed { channel: t.channel, kind: FramingError::InvalidSeq },
        ),
{
}

/// With no message in progress, continuation reports are ignored: the
/// reassembler stays idle and reports no message.
pub proof fn lemma_orphan_continuations_ignored(reports: Seq<Seq<u8>>)
    requires
        forall|i: int| 0 <= i < reports.len() ==> (#[trigger] reports[i]).len() == REPORT_SIZE
            && reports[i][4] < INIT_FLAG,
    ensures
        run(None, reports).0 is None,
        run(None, reports).1.len() == reports.len(),
        forall|i: int|
            0 <= i < reports.len() ==> #[trigger] run(None, reports).1[i]
                == EventModel::Incomplete,
    decreases reports.len(),
{
    if reports.len() > 0 {
        let rest = reports.drop_first();
        assert forall|i: int| 0 <= i < rest.len() implies (#[trigger] rest[i]).len() == REPORT_SIZE
            && rest[i][4] < INIT_FLAG by {
            assert(rest[i] == reports[i + 1]);
        }
        lemma_orphan_continuations_ignored(rest);
        let evs = run(None, reports).1;
        assert forall|i: int| 0 <= i < reports.len() implies #[trigger] evs[i]
            == EventModel::Incomplete by {
            assert(reports[0][4] < INIT_FLAG);
            if i > 0 {
                assert(evs[i] == run(None, rest).1[i - 1]);
            }
        }
    }
}

/// Reads the channel id of a report.
pub fn read_channel(report: &[u8]) -> (c: u32)
    requires
        report@.len() >= 4,
    ensures
        c == channel_of(report@),
{
    ((report[0] as u32) << 24u32) | ((report[1] as u32) << 16u32) | ((report[2] as u32) << 8u32)
        | (report[3] as u32)
}

/// Appends `src[start..start + n]` to `dst`.
fn append_bytes(dst: &mut Vec<u8>, src: &[u8], start: usize, n: usize)
    requires
        start + n <= src@.len(),
    ensures
        final(dst)@ == old(dst)@ + src@.subrange(start as int, start + n),
{
    let ghost init = dst@;
    let len = src.len();
    let mut i: usize = 0;
    while i < n
        invariant
            i <= n,
            start + n <= len,
            len == src@.len(),
            dst@ == init + src@.subrange(start as int, start + i),
        decreases n - i,
    {
        dst.push(src[start + i]);
        i = i + 1;
        assert(dst@ =~= init + src@.subrange(start as int, start + i));
    }
}

} // verus!
