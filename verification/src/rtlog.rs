//! The realtime log: audio threads append records to a fixed ring of
//! slots without allocating, and a non-realtime drain later hands them, in
//! sequence order, to the regular logger.
//!
//! Here the ring and the session bookkeeping are plain state; the program
//! edge holds them behind its locks and atomics, runs the drain worker
//! thread, and emits the records a drain returns.
use vstd::prelude::*;
use vstd::utf8::{encode_utf8, is_char_boundary, valid_utf8};
use vstd::string::StringSliceAdditionalSpecFns;

verus! {

/// Records the ring holds.
pub open spec fn rt_log_capacity() -> nat {
    4096
}

/// Bytes of message a record keeps.
pub open spec fn rt_message_capacity() -> nat {
    256
}

/// Bytes of target a record keeps.
pub open spec fn rt_target_capacity() -> nat {
    96
}

/// The number of records the ring holds.
pub fn rt_log_capacity_value() -> (r: usize)
    ensures
        r == rt_log_capacity(),
{
    4096
}

/// The number of message bytes a record keeps.
pub fn rt_message_capacity_value() -> (r: usize)
    ensures
        r == rt_message_capacity(),
{
    256
}

/// The longest prefix of `value`'s UTF-8 bytes, at most `limit` long, that
/// ends on a character boundary.
pub open spec fn boundary_len(bytes: Seq<u8>, limit: nat) -> nat {
    if bytes.len() <= limit {
        bytes.len()
    } else {
        choose|k: nat|
            k <= limit && is_char_boundary(bytes, k as int) && forall|j: int|
                k < j <= limit ==> !is_char_boundary(bytes, j)
    }
}

/// The longest UTF-8 prefix of `value` that fits in `limit` bytes.
pub fn utf8_boundary_len(value: &str, limit: usize) -> (r: usize)
    ensures
        r <= limit,
        r <= value.spec_bytes().len(),
        is_char_boundary(value.spec_bytes(), r as int),
        value.spec_bytes().len() <= limit ==> r == value.spec_bytes().len(),
        value.spec_bytes().len() > limit ==> forall|j: int| r < j <= limit ==> !is_char_boundary(
            value.spec_bytes(),
            j,
        ),
{
    let all = value.as_bytes();
    let n = all.len();
    proof {
        vstd::utf8::encode_utf8_valid_utf8(value@);
    }
    if n <= limit {
        proof {
            vstd::utf8::is_char_boundary_start_end_of_seq(value.spec_bytes());
        }
        return n;
    }
    let mut count = limit;
    proof {
        vstd::utf8::is_char_boundary_start_end_of_seq(value.spec_bytes());
    }
    while count > 0 && !value.is_char_boundary(count)
        invariant
            is_char_boundary(value.spec_bytes(), 0),
            count <= limit < n,
            n == value.spec_bytes().len(),
            forall|j: int| count < j <= limit ==> !is_char_boundary(value.spec_bytes(), j),
        decreases count,
    {
        count -= 1;
    }
    count
}

/// A message of at most 256 bytes, cut at a character boundary.
pub struct FixedMessage {
    bytes: Vec<u8>,
}

impl FixedMessage {
    /// The bytes written so far.
    pub closed spec fn view_bytes(&self) -> Seq<u8> {
        self.bytes@
    }

    /// The message fits and holds whole characters.
    pub closed spec fn wf(&self) -> bool {
        self.bytes@.len() <= rt_message_capacity() && valid_utf8(self.bytes@)
    }

    /// An empty message.
    pub fn new() -> (r: FixedMessage)
        ensures
            r.wf(),
            r.view_bytes() == Seq::<u8>::empty(),
    {
        let r = FixedMessage { bytes: Vec::new() };
        proof {
            reveal_with_fuel(valid_utf8, 1);
        }
        r
    }

    /// Appends as much of `value` as fits, cut at a character boundary; it
    /// never fails.
    pub fn write_str(&mut self, value: &str) -> (r: Result<(), ()>)
        requires
            old(self).wf(),
        ensures
            r is Ok,
            final(self).wf(),
            final(self).view_bytes() == old(self).view_bytes() + value.spec_bytes().take(
                boundary_len(value.spec_bytes(), (rt_message_capacity() - old(self).view_bytes().len()) as nat)
                    as int,
            ),
    {
        let remaining = 256 - self.bytes.len();
        let count = utf8_boundary_len(value, remaining);
        let bytes = value.as_bytes();
        let ghost before = self.bytes@;
        let mut i: usize = 0;
        while i < count
            invariant
                i <= count <= bytes@.len(),
                bytes@ == value.spec_bytes(),
                self.bytes@ == before + bytes@.take(i as int),
            decreases count - i,
        {
            self.bytes.push(bytes[i]);
            assert(bytes@.take(i + 1) =~= bytes@.take(i as int).push(bytes@[i as int]));
            i += 1;
        }
        proof {
            let b = value.spec_bytes();
            let lim = (rt_message_capacity() - before.len()) as nat;
            if b.len() > lim {
                assert(count <= lim && is_char_boundary(b, count as int) && forall|j: int|
                    count < j <= lim ==> !is_char_boundary(b, j));
                let k = boundary_len(b, lim);
                assert(k <= lim && is_char_boundary(b, k as int) && forall|j: int|
                    k < j <= lim ==> !is_char_boundary(b, j));
                if (k as int) < (count as int) {
                    assert(!is_char_boundary(b, count as int));
                } else if (k as int) > (count as int) {
                    assert(!is_char_boundary(b, k as int));
                }
            }
            vstd::utf8::encode_utf8_valid_utf8(value@);
            lemma_valid_prefix_concat(before, b, count as int);
        }
        Ok(())
    }

    /// The bytes written so far.
    pub fn as_bytes(&self) -> (r: &[u8])
        ensures
            r@ == self.view_bytes(),
    {
        self.bytes.as_slice()
    }

    /// The number of bytes written so far.
    pub fn len(&self) -> (r: usize)
        ensures
            r == self.view_bytes().len(),
    {
        self.bytes.len()
    }
}

proof fn lemma_valid_prefix_concat(a: Seq<u8>, b: Seq<u8>, k: int)
    requires
        valid_utf8(a),
        valid_utf8(b),
        0 <= k <= b.len(),
        is_char_boundary(b, k),
    ensures
        valid_utf8(a + b.take(k)),
{
    vstd::utf8::valid_utf8_split(b, k);
    assert(b.subrange(0, k) =~= b.take(k));
    vstd::utf8::valid_utf8_concat(a, b.take(k));
}

/// Severity of a log record, as the `log` crate orders it.
#[derive(Debug, Clone, Copy, PartialEq, Eq, Structural)]
pub enum LogLevel {
    Error,
    Warn,
    Info,
    Debug,
    Trace,
}

pub open spec fn level_code(l: LogLevel) -> u8 {
    match l {
        LogLevel::Error => 1,
        LogLevel::Warn => 2,
        LogLevel::Info => 3,
        LogLevel::Debug => 4,
        LogLevel::Trace => 5,
    }
}

/// The byte a level is stored as in a slot.
pub fn level_to_u8(level: LogLevel) -> (r: u8)
    ensures
        r == level_code(level),
{
    match level {
        LogLevel::Error => 1,
        LogLevel::Warn => 2,
        LogLevel::Info => 3,
        LogLevel::Debug => 4,
        LogLevel::Trace => 5,
    }
}

/// The level a stored byte stands for; an unknown byte reads as debug.
pub open spec fn level_of_code(level: u8) -> LogLevel {
    if level == 1 {
        LogLevel::Error
    } else if level == 2 {
        LogLevel::Warn
    } else if level == 3 {
        LogLevel::Info
    } else if level == 5 {
        LogLevel::Trace
    } else {
        LogLevel::Debug
    }
}

/// Decodes a stored level byte.
pub fn u8_to_level(level: u8) -> (r: LogLevel)
    ensures
        r == level_of_code(level),
        1 <= level <= 5 ==> level_code(r) == level,
{
    match level {
        1 => LogLevel::Error,
        2 => LogLevel::Warn,
        3 => LogLevel::Info,
        5 => LogLevel::Trace,
        _ => LogLevel::Debug,
    }
}

/// A law of the level encoding: decoding a stored level gives it back.
pub proof fn lemma_level_round_trip(l: LogLevel)
    ensures
        1 <= level_code(l) <= 5,
        forall|r: LogLevel| level_code(r) == level_code(l) ==> r == l,
{
}

/// One slot of the ring. `sequence` is 0 while the slot is being written
/// and the record's sequence plus one once it is published.
#[derive(Debug, Clone)]
pub struct RtSlot {
    pub sequence: u64,
    pub level: u8,
    pub target: Vec<u8>,
    pub message: Vec<u8>,
}

/// A record handed out by a drain.
#[derive(Debug, Clone)]
pub struct RtLogRecord {
    pub sequence: u64,
    pub level: LogLevel,
    pub target: Vec<u8>,
    pub message: Vec<u8>,
}

/// What a drain found: the records to log, in sequence order, and the
/// counts for the `[rt] dropped=… skipped=…` warning when there is one.
#[derive(Debug, Clone)]
pub struct RtDrain {
    pub warning: Option<(u64, u64)>,
    pub records: Vec<RtLogRecord>,
}

/// The realtime log ring.
pub struct RtLog {
    next_sequence: u64,
    drain_sequence: u64,
    dropped: u64,
    slots: Vec<RtSlot>,
}

/// A well-formed ring has exactly `rt_log_capacity()` slots.
pub proof fn lemma_ring_size(log: &RtLog)
    requires
        log.wf(),
    ensures
        log.slots().len() == rt_log_capacity(),
{
}

/// The slot a sequence number goes to.
pub open spec fn slot_of(sequence: int) -> int {
    sequence % (rt_log_capacity() as int)
}

impl RtLog {
    /// The next sequence number a writer reserves.
    pub closed spec fn next(&self) -> u64 {
        self.next_sequence
    }

    /// The first sequence number not yet drained.
    pub closed spec fn drained(&self) -> u64 {
        self.drain_sequence
    }

    /// Records written over unread ones since the last drain.
    pub closed spec fn dropped_count(&self) -> u64 {
        self.dropped
    }

    /// The slots.
    pub closed spec fn slots(&self) -> Seq<RtSlot> {
        self.slots@
    }

    /// The ring has its fixed size and draining never runs ahead of writing.
    pub closed spec fn wf(&self) -> bool {
        &&& self.slots@.len() == rt_log_capacity()
        &&& self.drain_sequence <= self.next_sequence
    }

    /// Whether the record with this sequence number is published.
    pub open spec fn published(&self, sequence: int) -> bool {
        self.slots()[slot_of(sequence)].sequence == sequence + 1
    }

    /// An empty ring of `rt_log_capacity()` slots.
    pub fn new() -> (r: RtLog)
        ensures
            r.wf(),
            r.slots().len() == rt_log_capacity(),
            all_published(r),
            r.next() == 0,
            r.drained() == 0,
            r.dropped_count() == 0,
            forall|i: int| 0 <= i < rt_log_capacity() ==> (#[trigger] r.slots()[i]).sequence == 0,
    {
        let mut slots: Vec<RtSlot> = Vec::new();
        while slots.len() < 4096
            invariant
                slots@.len() <= 4096,
                forall|i: int| 0 <= i < slots@.len() ==> (#[trigger] slots@[i]).sequence == 0,
            decreases 4096 - slots.len(),
        {
            slots.push(RtSlot { sequence: 0, level: 4, target: Vec::new(), message: Vec::new() });
        }
        RtLog { next_sequence: 0, drain_sequence: 0, dropped: 0, slots }
    }

    /// Reserves the next sequence number. When the reserved record will
    /// overwrite one that was never drained, it counts as dropped.
    pub fn reserve(&mut self) -> (sequence: u64)
        requires
            old(self).wf(),
            old(self).next() < u64::MAX,
            old(self).dropped_count() < u64::MAX,
        ensures
            final(self).wf(),
            sequence == old(self).next(),
            final(self).next() == old(self).next() + 1,
            final(self).drained() == old(self).drained(),
            final(self).slots() == old(self).slots(),
            final(self).dropped_count() == old(self).dropped_count() + if old(self).next() - old(self).drained()
                >= rt_log_capacity() {
                1int
            } else {
                0int
            },
    {
        let sequence = self.next_sequence;
        self.next_sequence = sequence + 1;
        if sequence - self.drain_sequence >= 4096 {
            self.dropped = self.dropped + 1;
        }
        sequence
    }

    /// Publishes record `sequence` in its slot: the target and message are
    /// kept up to 96 and 256 bytes.
    pub fn publish(&mut self, sequence: u64, level: LogLevel, target: &[u8], message: &[u8])
        requires
            old(self).wf(),
            sequence < u64::MAX,
        ensures
            final(self).wf(),
            final(self).next() == old(self).next(),
            final(self).drained() == old(self).drained(),
            final(self).dropped_count() == old(self).dropped_count(),
            final(self).slots() == old(self).slots().update(
                slot_of(sequence as int),
                RtSlot {
                    sequence: (sequence + 1) as u64,
                    level: level_code(level),
                    target: final(self).slots()[slot_of(sequence as int)].target,
                    message: final(self).slots()[slot_of(sequence as int)].message,
                },
            ),
            final(self).slots()[slot_of(sequence as int)].target@ == target@.take(
                if target@.len() <= rt_target_capacity() { target@.len() as int } else { rt_target_capacity() as int },
            ),
            final(self).slots()[slot_of(sequence as int)].message@ == message@.take(
                if message@.len() <= rt_message_capacity() { message@.len() as int } else { rt_message_capacity() as int },
            ),
    {
        let index = (sequence % 4096) as usize;
        let t = copy_prefix(target, 96);
        let m = copy_prefix(message, 256);
        self.slots.set(index, RtSlot { sequence: sequence + 1, level: level_to_u8(level), target: t, message: m });
    }

    /// The first sequence number not yet drained.
    pub fn drain_sequence(&self) -> (r: u64)
        ensures
            r == self.drained(),
    {
        self.drain_sequence
    }

    /// The next sequence number a writer reserves.
    pub fn next_sequence(&self) -> (r: u64)
        ensures
            r == self.next(),
    {
        self.next_sequence
    }

    /// Reads record `sequence` if its slot holds it, published.
    pub fn read(&self, sequence: u64) -> (r: Option<RtLogRecord>)
        requires
            self.wf(),
            sequence < u64::MAX,
        ensures
            r is Some <==> self.published(sequence as int),
            r matches Some(rec) ==> {
                let s = self.slots()[slot_of(sequence as int)];
                &&& rec.sequence == sequence
                &&& rec.target@ == s.target@
                &&& rec.message@ == s.message@
                &&& rec.level == level_of_code(s.level)
            },
    {
        let slot = &self.slots[(sequence % 4096) as usize];
        if slot.sequence != sequence + 1 {
            return None;
        }
        Some(RtLogRecord {
            sequence,
            level: u8_to_level(slot.level),
            target: slot.target.clone(),
            message: slot.message.clone(),
        })
    }
}

fn copy_prefix(bytes: &[u8], limit: usize) -> (r: Vec<u8>)
    ensures
        r@ == bytes@.take(if bytes@.len() <= limit { bytes@.len() as int } else { limit as int }),
{
    let count = if bytes.len() <= limit { bytes.len() } else { limit };
    let mut out: Vec<u8> = Vec::new();
    let mut i: usize = 0;
    while i < count
        invariant
            i <= count <= bytes@.len(),
            out@ == bytes@.take(i as int),
        decreases count - i,
    {
        out.push(bytes[i]);
        assert(bytes@.take(i + 1) =~= bytes@.take(i as int).push(bytes@[i as int]));
        i += 1;
    }
    out
}

/// Where a drain starts: after the drained records, or at the oldest record
/// the ring still holds when writers lapped it.
pub open spec fn drain_start(next: u64, drained: u64) -> int {
    let retained = if next >= rt_log_capacity() { next - rt_log_capacity() } else { 0 };
    if drained >= retained {
        drained as int
    } else {
        retained
    }
}

/// The number of consecutive published records from `start` before `end`.
pub open spec fn published_run(log: RtLog, start: int, end: int) -> nat
    decreases end - start,
{
    if start >= end || !log.published(start) {
        0
    } else {
        1 + published_run(log, start + 1, end)
    }
}

/// Every record the ring can still hold is published: each of the newest
/// `rt_log_capacity()` sequence numbers below `next()`. This holds whenever
/// no write is in progress, since `write_rt_log` reserves and publishes in
/// one step.
pub open spec fn all_published(log: RtLog) -> bool {
    forall|s: int|
        0 <= s < log.next() && log.next() - rt_log_capacity() <= s ==> #[trigger] log.published(s)
}

/// A run over published records reaches the end.
proof fn lemma_run_of_published(log: RtLog, start: int, end: int)
    requires
        forall|s: int| start <= s < end ==> #[trigger] log.published(s),
    ensures
        start <= end ==> published_run(log, start, end) == end - start,
    decreases end - start,
{
    if start < end {
        assert(log.published(start));
        lemma_run_of_published(log, start + 1, end);
    }
}

/// When no write is in progress, a drain returns every record the ring
/// still holds that no earlier drain returned: the run from the drain start
/// reaches the last written record.
pub proof fn lemma_drain_reaches_last_write(log: RtLog)
    requires
        log.wf(),
        all_published(log),
    ensures
        drain_start(log.next(), log.drained()) <= log.next(),
        published_run(log, drain_start(log.next(), log.drained()), log.next() as int) == log.next()
            - drain_start(log.next(), log.drained()),
{
    let start = drain_start(log.next(), log.drained());
    assert forall|s: int| start <= s < log.next() implies #[trigger] log.published(s) by {
        assert(0 <= s && log.next() - rt_log_capacity() <= s);
    }
    lemma_run_of_published(log, start, log.next() as int);
}

/// Drains the ring once: the records from the drain start up to the first
/// unpublished one, in sequence order; a drain never skips a record that
/// is reserved but not yet published. The warning reports the records
/// counted as dropped and those lapped by writers since the last drain.
pub fn drain_rt_logs_once(log: &mut RtLog) -> (r: RtDrain)
    requires
        old(log).wf(),
        old(log).next() < u64::MAX,
    ensures
        final(log).wf(),
        final(log).next() == old(log).next(),
        final(log).slots() == old(log).slots(),
        final(log).dropped_count() == 0,
        final(log).drained() >= old(log).drained(),
        all_published(*old(log)) ==> all_published(*final(log)) && final(log).drained() == old(log).next()
            && r.records@.len() == old(log).next() - drain_start(old(log).next(), old(log).drained()),
        forall|k: int|
            0 <= k < r.records@.len() ==> old(log).drained() <= (#[trigger] r.records@[k]).sequence
                < final(log).drained(),
        ({
            let start = drain_start(old(log).next(), old(log).drained());
            let n = published_run(*old(log), start, old(log).next() as int);
            &&& final(log).drained() == start + n
            &&& r.records@.len() == n
            &&& forall|k: int|
                0 <= k < n ==> {
                    let rec = #[trigger] r.records@[k];
                    let s = old(log).slots()[slot_of(start + k)];
                    &&& rec.sequence == start + k
                    &&& rec.level == level_of_code(s.level)
                    &&& rec.message@ == s.message@
                    &&& rec.target@ == s.target@
                }
            &&& r.warning == if old(log).dropped_count() > 0 || start > old(log).drained() {
                Some((old(log).dropped_count(), (start - old(log).drained()) as u64))
            } else {
                None
            }
        }),
{
    let ghost original = *log;
    proof {
        if all_published(original) {
            lemma_drain_reaches_last_write(original);
        }
    }
    let total = log.next_sequence;
    let retained = if total >= 4096 { total - 4096 } else { 0 };
    let start = if log.drain_sequence >= retained { log.drain_sequence } else { retained };
    let previous = log.drain_sequence;
    let dropped = log.dropped;
    log.dropped = 0;
    let warning = if dropped > 0 || start > previous { Some((dropped, start - previous)) } else { None };
    let mut records: Vec<RtLogRecord> = Vec::new();
    let mut seq = start;
    while seq < total
        invariant
            log.wf(),
            original.slots() == log.slots(),
            original.next() == total,
            start <= seq <= total,
            total < u64::MAX,
            records@.len() == seq - start,
            forall|j: int| start <= j < seq ==> #[trigger] original.published(j),
            forall|k: int|
                0 <= k < records@.len() ==> {
                    let rec = #[trigger] records@[k];
                    let s = original.slots()[slot_of(start + k)];
                    &&& rec.sequence == start + k
                    &&& rec.level == level_of_code(s.level)
                    &&& rec.message@ == s.message@
                    &&& rec.target@ == s.target@
                },
            published_run(original, start as int, total as int) == (seq - start) + published_run(
                original,
                seq as int,
                total as int,
            ),
        ensures
            seq == total || !original.published(seq as int),
        decreases total - seq,
    {
        assert(original.published(seq as int) == log.published(seq as int));
        match log.read(seq) {
            Some(rec) => {
                records.push(rec);
                seq = seq + 1;
            },
            None => {
                break;
            },
        }
    }
    assert(published_run(original, seq as int, total as int) == 0);
    log.drain_sequence = seq;
    proof {
        if all_published(original) {
            assert forall|s: int| 0 <= s < log.next() && log.next() - rt_log_capacity() <= s implies #[trigger] log.published(
                s,
            ) by {
                assert(original.published(s));
            }
        }
    }
    RtDrain { warning, records }
}

/// No record is drained twice: the records of a drain lie between the drain
/// position before it and the one after it, so those of the next drain,
/// which starts from that later position, are all different records.
pub proof fn lemma_consecutive_drains_disjoint(
    first: Seq<RtLogRecord>,
    before: u64,
    between: u64,
    second: Seq<RtLogRecord>,
    after: u64,
)
    requires
        forall|k: int| 0 <= k < first.len() ==> before <= (#[trigger] first[k]).sequence < between,
        forall|k: int| 0 <= k < second.len() ==> between <= (#[trigger] second[k]).sequence < after,
    ensures
        forall|i: int, j: int|
            0 <= i < first.len() && 0 <= j < second.len() ==> (#[trigger] first[i]).sequence != (
            #[trigger] second[j]).sequence,
{
}

/// Writes one record: reserves its sequence number, then publishes the
/// target and the message cut to what a slot keeps.
pub fn write_rt_log(log: &mut RtLog, level: LogLevel, target: &str, message: &str)
    requires
        old(log).wf(),
        old(log).next() < u64::MAX - 1,
        old(log).dropped_count() < u64::MAX,
    ensures
        final(log).wf(),
        final(log).next() == old(log).next() + 1,
        final(log).drained() == old(log).drained(),
        final(log).published(old(log).next() as int),
        all_published(*old(log)) ==> all_published(*final(log)),
        final(log).slots().len() == rt_log_capacity(),
        forall|i: int|
            0 <= i < rt_log_capacity() && i != slot_of(old(log).next() as int) ==> #[trigger] final(log).slots()[i]
                == old(log).slots()[i],
        ({
            let s = final(log).slots()[slot_of(old(log).next() as int)];
            let t = target.spec_bytes();
            let m = message.spec_bytes();
            &&& s.level == level_code(level)
            &&& s.target@ == t.take(
                if t.len() <= rt_target_capacity() { t.len() as int } else { rt_target_capacity() as int },
            )
            &&& s.message@ == m.take(boundary_len(m, rt_message_capacity()) as int)
        }),
        final(log).dropped_count() == old(log).dropped_count() + if old(log).next() - old(log).drained()
            >= rt_log_capacity() {
            1int
        } else {
            0int
        },
{
    let sequence = log.reserve();
    let mut fixed = FixedMessage::new();
    let _ = fixed.write_str(message);
    let bytes = fixed.as_bytes();
    assert(bytes@.take(bytes@.len() as int) =~= bytes@);
    log.publish(sequence, level, target.as_bytes(), bytes);
    proof {
        lemma_ring_size(log);
        if all_published(*old(log)) {
            assert forall|s: int| 0 <= s < log.next() && log.next() - rt_log_capacity() <= s implies #[trigger] log.published(
                s,
            ) by {
                if s != sequence {
                    assert(slot_of(s) != slot_of(sequence as int));
                    assert(old(log).published(s));
                }
            }
        }
    }
}

/// How often the drain worker runs, in milliseconds.
#[derive(Debug, Clone, Copy, PartialEq, Eq, Structural)]
pub struct RtDrainConfig {
    interval_ms: u64,
}

impl RtDrainConfig {
    /// The interval, in milliseconds.
    pub closed spec fn interval(&self) -> u64 {
        self.interval_ms
    }

    /// Every 100 ms.
    pub fn default_config() -> (r: RtDrainConfig)
        ensures
            r.interval() == 100,
    {
        RtDrainConfig { interval_ms: 100 }
    }

    /// The same configuration with another interval.
    pub fn with_interval(self, interval_ms: u64) -> (r: RtDrainConfig)
        ensures
            r.interval() == interval_ms,
    {
        RtDrainConfig { interval_ms }
    }

    /// The interval, in milliseconds.
    pub fn interval_ms(&self) -> (r: u64)
        ensures
            r == self.interval(),
    {
        self.interval_ms
    }
}

/// What the program edge does after a session event.
#[derive(Debug, Clone, Copy, PartialEq, Eq, Structural)]
pub enum DrainWorkerAction {
    /// Nothing.
    Nothing,
    /// Start a drain worker with this configuration and report back with `worker_started`.
    StartWorker(RtDrainConfig),
    /// Stop the worker, wait for it, and drain once more.
    StopWorker,
    /// Drain once on this thread.
    DrainOnce,
}

/// The plugin sessions alive and whether a drain worker runs.
pub struct LogSession {
    session_count: usize,
    worker_running: bool,
}

impl LogSession {
    pub closed spec fn sessions(&self) -> nat {
        self.session_count as nat
    }

    pub closed spec fn worker(&self) -> bool {
        self.worker_running
    }

    /// No session and no worker.
    pub fn new() -> (r: LogSession)
        ensures
            r.sessions() == 0,
            !r.worker(),
    {
        LogSession { session_count: 0, worker_running: false }
    }

    /// The number of live sessions.
    pub fn session_count(&self) -> (r: usize)
        ensures
            r == self.sessions(),
    {
        self.session_count
    }

    /// Whether a drain worker runs.
    pub fn drain_worker_is_running(&self) -> (r: bool)
        ensures
            r == self.worker(),
    {
        self.worker_running
    }

    /// A session starts; with a drain configuration (debug builds, or
    /// `WRAC_RT_LOG` set) the worker is started unless it runs already.
    pub fn start(&mut self, drain: Option<RtDrainConfig>) -> (r: DrainWorkerAction)
        requires
            old(self).sessions() < usize::MAX,
        ensures
            final(self).sessions() == old(self).sessions() + 1,
            final(self).worker() == old(self).worker(),
            r == match drain {
                Some(c) => if old(self).worker() {
                    DrainWorkerAction::Nothing
                } else {
                    DrainWorkerAction::StartWorker(c)
                },
                None => DrainWorkerAction::Nothing,
            },
    {
        self.session_count = self.session_count + 1;
        match drain {
            Some(c) => init_rt_log_drain_once(self, c),
            None => DrainWorkerAction::Nothing,
        }
    }

    /// The worker asked for was started.
    pub fn worker_started(&mut self)
        ensures
            final(self).sessions() == old(self).sessions(),
            final(self).worker(),
    {
        self.worker_running = true;
    }

    /// A session ends: when it was the last one, the worker is stopped, or
    /// without a worker the log is drained once, so nothing is left behind
    /// before the plugin binary can be unloaded.
    pub fn release(&mut self) -> (r: DrainWorkerAction)
        ensures
            old(self).sessions() == 0 ==> *final(self) == *old(self) && r == DrainWorkerAction::Nothing,
            old(self).sessions() > 1 ==> final(self).sessions() == old(self).sessions() - 1 && final(self).worker()
                == old(self).worker() && r == DrainWorkerAction::Nothing,
            old(self).sessions() == 1 ==> final(self).sessions() == 0 && !final(self).worker() && r == if old(
                self,
            ).worker() {
                DrainWorkerAction::StopWorker
            } else {
                DrainWorkerAction::DrainOnce
            },
    {
        if self.session_count == 0 {
            return DrainWorkerAction::Nothing;
        }
        self.session_count = self.session_count - 1;
        if self.session_count != 0 {
            return DrainWorkerAction::Nothing;
        }
        if self.worker_running {
            self.worker_running = false;
            DrainWorkerAction::StopWorker
        } else {
            DrainWorkerAction::DrainOnce
        }
    }
}

/// Asks for the drain worker once per process: only when none runs.
pub fn init_rt_log_drain_once(state: &mut LogSession, config: RtDrainConfig) -> (r: DrainWorkerAction)
    ensures
        *final(state) == *old(state),
        r == if old(state).worker() {
            DrainWorkerAction::Nothing
        } else {
            DrainWorkerAction::StartWorker(config)
        },
{
    if state.worker_running {
        DrainWorkerAction::Nothing
    } else {
        DrainWorkerAction::StartWorker(config)
    }
}

} // verus!
