//! Rolling 32-day Pomodoro statistics.
//!
//! Storage is a circular buffer of `[DayStats; 32]` indexed by `head`, which
//! always points at the most-recently-touched slot. When a new day starts
//! `head` advances (mod 32) and overwrites whatever was previously in that
//! slot — which naturally evicts the oldest day, giving ~1 month of history
//! in 256 bytes.

use vstd::prelude::*;

use super::codec::{
    copy_prefix, from_le16_at, from_le32_at, le16, le32, lemma_le16_roundtrip,
    lemma_le32_roundtrip, push_u16, push_u32, read_u16, read_u32,
};
use super::nvs::{
    alternate_offset, alternate_spec, encode_slot, lemma_save_then_load, load_spec, padded_len,
    slot_bytes, slot_image, slots_apart, write_slot_spec, LoadedRecord, Record, StorageError,
    HEADER_LEN, MAX_PAYLOAD, STATS_OFFSET_A, STATS_OFFSET_B,
};
use super::settings::{PlannedWrite, StoreView};

verus! {

pub const MAX_STATS_DAYS: usize = 32;

/// 32 days of 8 bytes, then `head`, the "empty" flag and two padding bytes.
pub const ENCODED_LEN: usize = 260;

/// Date credited when no wall-clock date is known.
pub const UNDATED_DATE: u32 = 1;

#[derive(Clone, Copy, Debug, Default, PartialEq, Eq)]
pub struct DayStats {
    /// Calendar date as `YYYY * 10000 + MM * 100 + DD`. Zero means the slot
    /// has never been touched.
    pub date_yyyymmdd: u32,
    pub completed_pomodoros: u16,
    pub focus_minutes: u16,
}

/// An untouched day entry.
pub open spec fn zero_day() -> DayStats {
    DayStats { date_yyyymmdd: 0, completed_pomodoros: 0, focus_minutes: 0 }
}

/// A slot index of the ring, always inside it.
#[derive(Clone, Copy, Debug, PartialEq, Eq)]
struct RingIndex {
    value: u8,
}

impl RingIndex {
    #[verifier::type_invariant]
    spec fn inv(self) -> bool {
        self.value < MAX_STATS_DAYS
    }

    fn get(&self) -> (v: u8)
        ensures
            v == self.value,
            v < MAX_STATS_DAYS,
    {
        proof {
            use_type_invariant(self);
        }
        self.value
    }
}

#[derive(Clone, Debug, PartialEq, Eq)]
pub struct Stats {
    days: [DayStats; MAX_STATS_DAYS],
    /// Index of the most recent entry. Initially `0`; the first call to
    /// [`Stats::record_completed_work`] will populate `days[0]` directly.
    head: RingIndex,
    /// `true` until the first successful record — disambiguates "we just
    /// booted and `days[head]` is uninitialised" from "today is recorded at
    /// `head`".
    empty: bool,
}

/// Abstract value of [`Stats`].
pub struct StatsView {
    pub days: Seq<DayStats>,
    pub head: u8,
    pub empty: bool,
}

/// A statistics value the ring can hold: 32 days, head inside the ring.
pub open spec fn stats_wf(v: StatsView) -> bool {
    v.days.len() == MAX_STATS_DAYS && v.head < MAX_STATS_DAYS
}

/// `a + b`, saturating at `u16::MAX`.
pub open spec fn sat_add16(a: u16, b: u16) -> u16 {
    if a + b > u16::MAX {
        u16::MAX
    } else {
        (a + b) as u16
    }
}

/// The statistics after crediting one completed Pomodoro of `minutes` to
/// `date` (a zero date credits nothing).
pub open spec fn recorded(v: StatsView, date: u32, minutes: u16) -> StatsView {
    if date == 0 {
        v
    } else if v.empty {
        StatsView {
            days: v.days.update(
                0,
                DayStats { date_yyyymmdd: date, completed_pomodoros: 1, focus_minutes: minutes },
            ),
            head: 0,
            empty: false,
        }
    } else if v.days[v.head as int].date_yyyymmdd == date {
        let d = v.days[v.head as int];
        StatsView {
            days: v.days.update(
                v.head as int,
                DayStats {
                    date_yyyymmdd: date,
                    completed_pomodoros: sat_add16(d.completed_pomodoros, 1),
                    focus_minutes: sat_add16(d.focus_minutes, minutes),
                },
            ),
            head: v.head,
            empty: false,
        }
    } else {
        let next = ((v.head + 1) % (MAX_STATS_DAYS as int)) as u8;
        StatsView {
            days: v.days.update(
                next as int,
                DayStats { date_yyyymmdd: date, completed_pomodoros: 1, focus_minutes: minutes },
            ),
            head: next,
            empty: false,
        }
    }
}

/// The date `record_completed_work_best_effort` credits when given
/// `date`.
pub open spec fn best_effort_date(v: StatsView, date: Option<u32>) -> u32 {
    match date {
        Some(d) => d,
        None => if v.empty {
            UNDATED_DATE
        } else if v.days[v.head as int].date_yyyymmdd > UNDATED_DATE {
            v.days[v.head as int].date_yyyymmdd
        } else {
            UNDATED_DATE
        },
    }
}

/// The entry for the most recent day, or an untouched entry.
pub open spec fn current_spec(v: StatsView) -> DayStats {
    if v.empty {
        zero_day()
    } else {
        v.days[v.head as int]
    }
}

/// The entry for `today`: the head entry if it is dated `today`, else an
/// entry dated `today` with nothing in it (an untouched entry when nothing
/// was ever recorded or `today` is zero).
pub open spec fn today_spec(v: StatsView, today: u32) -> DayStats {
    if v.empty || today == 0 {
        zero_day()
    } else if v.days[v.head as int].date_yyyymmdd == today {
        v.days[v.head as int]
    } else {
        DayStats { date_yyyymmdd: today, completed_pomodoros: 0, focus_minutes: 0 }
    }
}

/// Entry `i` of `last_n(n)`: the last `min(n, 32)` entries of the ring in
/// calendar order (oldest first), then untouched entries.
pub open spec fn last_n_entry(v: StatsView, n: usize, i: int) -> DayStats {
    let take: int = if n < MAX_STATS_DAYS {
        n as int
    } else {
        MAX_STATS_DAYS as int
    };
    if v.empty || i >= take {
        zero_day()
    } else {
        v.days[(v.head - (take - 1 - i)) % (MAX_STATS_DAYS as int)]
    }
}

/// The eight payload bytes of one day.
pub open spec fn day_bytes(d: DayStats) -> Seq<u8> {
    le32(d.date_yyyymmdd) + le16(d.completed_pomodoros) + le16(d.focus_minutes)
}

/// The payload bytes of a run of days, in order.
pub open spec fn days_bytes(days: Seq<DayStats>) -> Seq<u8>
    decreases days.len(),
{
    if days.len() == 0 {
        Seq::empty()
    } else {
        days_bytes(days.drop_last()) + day_bytes(days.last())
    }
}

/// The 260 payload bytes that stand for `v`.
pub open spec fn stats_bytes(v: StatsView) -> Seq<u8> {
    days_bytes(v.days) + seq![v.head, if v.empty { 1u8 } else { 0u8 }, 0xFFu8, 0xFFu8]
}

/// The day stored at byte `at` of a statistics payload.
pub open spec fn day_at(p: Seq<u8>, at: int) -> DayStats {
    DayStats {
        date_yyyymmdd: from_le32_at(p, at),
        completed_pomodoros: from_le16_at(p, at + 4),
        focus_minutes: from_le16_at(p, at + 6),
    }
}

/// The statistics a payload stands for: 260 bytes whose head byte points
/// inside the ring.
pub open spec fn stats_from_bytes(p: Seq<u8>) -> Option<StatsView> {
    if p.len() != ENCODED_LEN || p[256] >= MAX_STATS_DAYS {
        None
    } else {
        Some(
            StatsView {
                days: Seq::new(MAX_STATS_DAYS as nat, |i: int| day_at(p, 8 * i)),
                head: p[256],
                empty: p[257] != 0,
            },
        )
    }
}

proof fn lemma_days_bytes(days: Seq<DayStats>)
    ensures
        days_bytes(days).len() == 8 * days.len(),
        forall|i: int|
            0 <= i < days.len() ==> #[trigger] days_bytes(days).subrange(8 * i, 8 * i + 8)
                == day_bytes(days[i]),
    decreases days.len(),
{
    if days.len() > 0 {
        let pre = days.drop_last();
        lemma_days_bytes(pre);
        let b = days_bytes(days);
        assert forall|i: int| 0 <= i < days.len() implies #[trigger] b.subrange(8 * i, 8 * i + 8)
            == day_bytes(days[i]) by {
            if i < days.len() - 1 {
                assert(b.subrange(8 * i, 8 * i + 8) =~= days_bytes(pre).subrange(8 * i, 8 * i + 8));
                assert(pre[i] == days[i]);
            } else {
                assert(b.subrange(8 * i, 8 * i + 8) =~= day_bytes(days.last()));
            }
        }
    }
}

proof fn lemma_day_roundtrip(d: DayStats, p: Seq<u8>, at: int)
    requires
        0 <= at,
        at + 8 <= p.len(),
        p.subrange(at, at + 8) == day_bytes(d),
    ensures
        day_at(p, at) == d,
{
    let b = day_bytes(d);
    assert(p[at] == b[0] && p[at + 1] == b[1] && p[at + 2] == b[2] && p[at + 3] == b[3]);
    assert(p[at + 4] == b[4] && p[at + 5] == b[5] && p[at + 6] == b[6] && p[at + 7] == b[7]);
    lemma_le32_roundtrip(d.date_yyyymmdd);
    lemma_le16_roundtrip(d.completed_pomodoros);
    lemma_le16_roundtrip(d.focus_minutes);
}

impl View for Stats {
    type V = StatsView;

    closed spec fn view(&self) -> StatsView {
        StatsView { days: self.days@, head: self.head.value, empty: self.empty }
    }
}

impl Stats {
    pub fn empty() -> (s: Self)
        ensures
            s@.days == Seq::new(MAX_STATS_DAYS as nat, |i: int| zero_day()),
            s@.head == 0,
            s@.empty,
            stats_wf(s@),
    {
        let s = Self {
            days: [DayStats { date_yyyymmdd: 0, completed_pomodoros: 0, focus_minutes: 0 };
                MAX_STATS_DAYS],
            head: RingIndex { value: 0 },
            empty: true,
        };
        assert(s@.days =~= Seq::new(MAX_STATS_DAYS as nat, |i: int| zero_day()));
        s
    }

    /// The statistics to run with after reading both flash slots: the
    /// freshest valid copy, or [`Stats::empty`], together with the
    /// bookkeeping for the next save.
    pub fn from_loaded(loaded: Option<LoadedRecord<Stats>>) -> (r: (Self, StatsStore))
        ensures
            stats_wf(r.0@),
            match loaded {
                Some(l) => {
                    &&& r.0@ == l.record@
                    &&& r.1@.seq == l.seq
                    &&& r.1@.last_offset == Some(l.from_offset)
                },
                None => {
                    &&& r.0@.days == Seq::new(MAX_STATS_DAYS as nat, |i: int| zero_day())
                    &&& r.0@.head == 0
                    &&& r.0@.empty
                    &&& r.1@.seq == 0
                    &&& r.1@.last_offset is None
                },
            },
    {
        match loaded {
            Some(LoadedRecord { record, seq, from_offset }) => {
                proof {
                    use_type_invariant(&record.head);
                }
                (record, StatsStore { seq, last_offset: Some(from_offset) })
            },
            None => (Self::empty(), StatsStore { seq: 0, last_offset: None }),
        }
    }

    /// Credit a completed Pomodoro to the given calendar date. Returns `true`
    /// if anything changed (i.e. the caller should persist).
    pub fn record_completed_work(&mut self, date_yyyymmdd: u32, focus_minutes: u16) -> (changed:
        bool)
        ensures
            changed == (final(self)@ != old(self)@),
            final(self)@ == recorded(old(self)@, date_yyyymmdd, focus_minutes),
            stats_wf(final(self)@),
    {
        proof {
            use_type_invariant(&self.head);
        }
        if date_yyyymmdd == 0 {
            return false;
        }
        // First record ever → take slot 0 directly.

        if self.empty {
            self.head = RingIndex { value: 0 };
            self.days[0] = DayStats {
                date_yyyymmdd,
                completed_pomodoros: 1,
                focus_minutes,
            };
            self.empty = false;
            return true;
        }
        let head = self.head.get() as usize;
        if self.days[head].date_yyyymmdd == date_yyyymmdd {
            // Same day → just bump the counts. Once both counts are
            // saturated nothing changes any more.
            let d = self.days[head];
            let bumped = DayStats {
                date_yyyymmdd,
                completed_pomodoros: d.completed_pomodoros.saturating_add(1),
                focus_minutes: d.focus_minutes.saturating_add(focus_minutes),
            };
            let changed = bumped.completed_pomodoros != d.completed_pomodoros
                || bumped.focus_minutes != d.focus_minutes;
            self.days[head] = bumped;
            proof {
                if !changed {
                    assert(self.days@ =~= old(self).days@);
                } else {
                    assert(self.days@[head as int] != old(self).days@[head as int]);
                }
            }
            return changed;
        } else {
            // New day → advance head, overwriting the oldest entry.
            let next = (self.head.get() + 1) % (MAX_STATS_DAYS as u8);
            self.head = RingIndex { value: next };
            self.days[next as usize] = DayStats {
                date_yyyymmdd,
                completed_pomodoros: 1,
                focus_minutes,
            };
        }
        true
    }

    /// Credit completed work to the best day we can identify right now.
    ///
    /// With a wall-clock date this is the real calendar day. Without a clock
    /// anchor, keep accumulating in the current head slot so offline devices
    /// still show and persist progress instead of dropping completions.
    pub fn record_completed_work_best_effort(
        &mut self,
        date_yyyymmdd: Option<u32>,
        focus_minutes: u16,
    ) -> (changed: bool)
        ensures
            changed == (final(self)@ != old(self)@),
            final(self)@ == recorded(
                old(self)@,
                best_effort_date(old(self)@, date_yyyymmdd),
                focus_minutes,
            ),
            stats_wf(final(self)@),
    {
        proof {
            use_type_invariant(&self.head);
        }
        let date = match date_yyyymmdd {
            Some(date) => date,
            None => if self.empty {
                UNDATED_DATE
            } else {
                let d = self.days[self.head.get() as usize].date_yyyymmdd;
                if d > UNDATED_DATE {
                    d
                } else {
                    UNDATED_DATE
                }
            },
        };
        self.record_completed_work(date, focus_minutes)
    }

    pub fn current(&self) -> (d: DayStats)
        ensures
            d == current_spec(self@),
    {
        proof {
            use_type_invariant(&self.head);
        }
        if self.empty {
            DayStats { date_yyyymmdd: 0, completed_pomodoros: 0, focus_minutes: 0 }
        } else {
            self.days[self.head.get() as usize]
        }
    }

    /// Today's count, or 0 if we haven't recorded anything for `today`.
    pub fn today(&self, today: u32) -> (d: DayStats)
        ensures
            d == today_spec(self@, today),
    {
        proof {
            use_type_invariant(&self.head);
        }
        if self.empty || today == 0 {
            return DayStats { date_yyyymmdd: 0, completed_pomodoros: 0, focus_minutes: 0 };
        }
        let entry = self.days[self.head.get() as usize];
        if entry.date_yyyymmdd == today {
            entry
        } else {
            DayStats { date_yyyymmdd: today, completed_pomodoros: 0, focus_minutes: 0 }
        }
    }

    /// The last `n` entries in calendar order (oldest first), padding with
    /// zero-day entries if the ring is not yet full.
    pub fn last_n(&self, n: usize) -> (out: [DayStats; MAX_STATS_DAYS])
        ensures
            forall|i: int| 0 <= i < MAX_STATS_DAYS ==> #[trigger] out@[i] == last_n_entry(self@, n, i),
    {
        proof {
            use_type_invariant(&self.head);
        }
        let mut out = [DayStats { date_yyyymmdd: 0, completed_pomodoros: 0, focus_minutes: 0 };
            MAX_STATS_DAYS];
        if self.empty {
            return out;
        }
        let take = if n < MAX_STATS_DAYS {
            n
        } else {
            MAX_STATS_DAYS
        };
        let head = self.head.get() as usize;
        let mut i: usize = 0;
        while i < take
            invariant
                take <= MAX_STATS_DAYS,
                take == (if n < MAX_STATS_DAYS { n } else { MAX_STATS_DAYS }),
                head == self@.head,
                head < MAX_STATS_DAYS,
                !self@.empty,
                self@.days.len() == MAX_STATS_DAYS,
                i <= take,
                forall|j: int| 0 <= j < i ==> #[trigger] out@[j] == last_n_entry(self@, n, j),
                forall|j: int| i <= j < MAX_STATS_DAYS ==> #[trigger] out@[j] == zero_day(),
            decreases take - i,
        {
            let from_end = take - 1 - i;
            // head − from_end (mod 32)
            let idx = if from_end <= head {
                head - from_end
            } else {
                head + MAX_STATS_DAYS - from_end
            };
            assert(idx == (head - from_end) % (MAX_STATS_DAYS as int));
            out[i] = self.days[idx];
            i = i + 1;
        }
        out
    }

    pub fn head(&self) -> (h: u8)
        ensures
            h == self@.head,
            h < MAX_STATS_DAYS,
    {
        proof {
            use_type_invariant(&self.head);
        }
        self.head.get()
    }

    pub fn is_empty(&self) -> (e: bool)
        ensures
            e == self@.empty,
    {
        self.empty
    }

    /// The whole ring, in slot order.
    pub fn days(&self) -> (d: &[DayStats; MAX_STATS_DAYS])
        ensures
            d@ == self@.days,
    {
        &self.days
    }
}

/// Bookkeeping for atomic A/B writes of the statistics.
pub struct StatsStore {
    seq: u64,
    last_offset: Option<u32>,
}

impl View for StatsStore {
    type V = StoreView;

    closed spec fn view(&self) -> StoreView {
        StoreView { seq: self.seq, last_offset: self.last_offset }
    }
}

impl StatsStore {
    /// What saving `stats` writes: the slot that was not used last, the next
    /// sequence number (wrapping), and the slot image.
    pub fn plan_save(&self, stats: &Stats, write_size: usize) -> (r: Result<PlannedWrite, StorageError>)
        requires
            padded_len(HEADER_LEN + ENCODED_LEN, write_size) <= MAX_PAYLOAD + HEADER_LEN,
        ensures
            r matches Ok(w) && w.offset == alternate_spec(
                STATS_OFFSET_A,
                STATS_OFFSET_B,
                self@.last_offset,
            ) && w.seq == self@.seq.wrapping_add(1) && w.bytes@ == slot_image::<Stats>(
                stats@,
                w.seq,
                write_size,
            ),
    {
        let next_seq = self.seq.wrapping_add(1);
        let target = alternate_offset(STATS_OFFSET_A, STATS_OFFSET_B, self.last_offset);
        proof {
            use_type_invariant(&stats.head);
            lemma_days_bytes(stats@.days);
        }
        match encode_slot(stats, next_seq, write_size) {
            Ok(bytes) => Ok(PlannedWrite { offset: target, seq: next_seq, bytes }),
            Err(e) => Err(e),
        }
    }

    /// Note that a planned write reached the flash.
    pub fn mark_written(&mut self, written: &PlannedWrite)
        ensures
            final(self)@.seq == written.seq,
            final(self)@.last_offset == Some(written.offset),
    {
        self.seq = written.seq;
        self.last_offset = Some(written.offset);
    }
}

impl Record for Stats {
    const MAGIC: [u8; 4] = [0x50, 0x4F, 0x53, 0x54];  // "POST"

    const VERSION: u8 = 1;

    const PAYLOAD_MAX: usize = ENCODED_LEN;

    open spec fn encoding(v: StatsView) -> Seq<u8> {
        stats_bytes(v)
    }

    open spec fn decoding(payload: Seq<u8>) -> Option<StatsView> {
        stats_from_bytes(payload)
    }

    open spec fn encodable(v: StatsView) -> bool {
        stats_wf(v)
    }

    proof fn lemma_payload_max_fits() {
    }

    proof fn lemma_decode_encode(v: StatsView) {
        let p = stats_bytes(v);
        lemma_days_bytes(v.days);
        assert(p.len() == ENCODED_LEN);
        let d = stats_from_bytes(p).unwrap();
        assert forall|i: int| 0 <= i < MAX_STATS_DAYS implies #[trigger] d.days[i] == v.days[i] by {
            assert(p.subrange(8 * i, 8 * i + 8) =~= days_bytes(v.days).subrange(8 * i, 8 * i + 8));
            lemma_day_roundtrip(v.days[i], p, 8 * i);
        }
        assert(d.days =~= v.days);
        assert(p[256] == v.head);
        assert(p[257] == (if v.empty { 1u8 } else { 0u8 }));
    }

    fn encode(&self, out: &mut [u8]) -> (n: usize) {
        proof {
            use_type_invariant(&self.head);
        }
        let mut bytes: Vec<u8> = Vec::new();
        let mut i: usize = 0;
        while i < MAX_STATS_DAYS
            invariant
                i <= MAX_STATS_DAYS,
                self@.days.len() == MAX_STATS_DAYS,
                bytes@ == days_bytes(self@.days.take(i as int)),
            decreases MAX_STATS_DAYS - i,
        {
            let day = self.days[i];
            push_u32(&mut bytes, day.date_yyyymmdd);
            push_u16(&mut bytes, day.completed_pomodoros);
            push_u16(&mut bytes, day.focus_minutes);
            proof {
                let t = self@.days.take(i + 1);
                assert(t.drop_last() =~= self@.days.take(i as int));
                assert(t.last() == day);
                assert(bytes@ =~= days_bytes(self@.days.take(i as int)) + day_bytes(day));
            }
            i = i + 1;
        }
        assert(self@.days.take(MAX_STATS_DAYS as int) =~= self@.days);
        // Pack the "empty" flag next to `head` so it survives reboots.
        bytes.push(self.head.get());
        bytes.push(if self.empty {
            1
        } else {
            0
        });
        bytes.push(0xFF);
        bytes.push(0xFF);
        assert(bytes@ =~= stats_bytes(self@));
        proof {
            lemma_days_bytes(self@.days);
        }
        copy_prefix(out, &bytes);
        ENCODED_LEN
    }

    fn decode(payload: &[u8]) -> (r: Option<Self>) {
        if payload.len() != ENCODED_LEN {
            return None;
        }
        let mut days = [DayStats { date_yyyymmdd: 0, completed_pomodoros: 0, focus_minutes: 0 };
            MAX_STATS_DAYS];
        let mut i: usize = 0;
        while i < MAX_STATS_DAYS
            invariant
                i <= MAX_STATS_DAYS,
                payload@.len() == ENCODED_LEN,
                forall|j: int| 0 <= j < i ==> #[trigger] days@[j] == day_at(payload@, 8 * j),
            decreases MAX_STATS_DAYS - i,
        {
            let base = i * 8;
            days[i] = DayStats {
                date_yyyymmdd: read_u32(payload, base),
                completed_pomodoros: read_u16(payload, base + 4),
                focus_minutes: read_u16(payload, base + 6),
            };
            i = i + 1;
        }
        let head = payload[256];
        if head as usize >= MAX_STATS_DAYS {
            return None;
        }
        let empty = payload[257] != 0;
        let s = Self { days, head: RingIndex { value: head }, empty };
        assert(s@.days =~= stats_from_bytes(payload@).unwrap().days);
        Some(s)
    }
}

// ---------------------------------------------------------------------------
// Laws
// ---------------------------------------------------------------------------

/// After crediting work to a nonzero date, asking for that date gives an
/// entry dated that day with at least one Pomodoro and at least the credited
/// minutes.
pub proof fn lemma_record_then_today(v: StatsView, date: u32, minutes: u16)
    requires
        stats_wf(v),
        date != 0,
    ensures
        today_spec(recorded(v, date, minutes), date).date_yyyymmdd == date,
        today_spec(recorded(v, date, minutes), date).completed_pomodoros >= 1,
        today_spec(recorded(v, date, minutes), date).focus_minutes >= minutes,
        current_spec(recorded(v, date, minutes)) == today_spec(recorded(v, date, minutes), date),
{
}

/// Crediting a new day only overwrites the slot after the head (the oldest
/// day of a full ring); the other 31 days are kept.
pub proof fn lemma_new_day_keeps_history(v: StatsView, date: u32, minutes: u16, i: int)
    requires
        stats_wf(v),
        date != 0,
        !v.empty,
        v.days[v.head as int].date_yyyymmdd != date,
        0 <= i < MAX_STATS_DAYS,
        i != (v.head + 1) % (MAX_STATS_DAYS as int),
    ensures
        recorded(v, date, minutes).days[i] == v.days[i],
        recorded(v, date, minutes).head == (v.head + 1) % (MAX_STATS_DAYS as int),
{
}

/// The newest of the last `n` entries is the current day.
pub proof fn lemma_last_n_ends_with_current(v: StatsView, n: usize)
    requires
        stats_wf(v),
        1 <= n <= MAX_STATS_DAYS,
    ensures
        last_n_entry(v, n, n - 1) == current_spec(v),
{
}

/// Recording keeps the ring well formed.
pub proof fn lemma_recorded_wf(v: StatsView, date: u32, minutes: u16)
    requires
        stats_wf(v),
    ensures
        stats_wf(recorded(v, date, minutes)),
{
}


/// The payload of a stats record is exactly `ENCODED_LEN` bytes long, and
/// so is the buffer `encode` needs.
pub proof fn lemma_stats_payload_len(v: StatsView)
    requires
        stats_wf(v),
    ensures
        <Stats as Record>::PAYLOAD_MAX == ENCODED_LEN,
        <Stats as Record>::VERSION == 1,
        <Stats as Record>::encoding(v).len() == ENCODED_LEN,
{
    lemma_days_bytes(v.days);
}


/// Loading the statistics from `flash` (giving `loaded`, and the store
/// bookkeeping `store` as [`Stats::from_loaded`] sets it up), then carrying
/// out the write [`StatsStore::plan_save`] plans for a well-formed `stats`:
/// loading again gives `stats` back, from the slot just written, and the
/// slot that was loaded from is left untouched. Fails only when the stored
/// sequence number is `u64::MAX`.
pub proof fn lemma_stats_save_then_load(
    flash: Seq<u8>,
    loaded: Option<LoadedRecord<StatsView>>,
    store: StoreView,
    stats: StatsView,
    write_size: usize,
)
    requires
        slots_apart(flash.len() as int, STATS_OFFSET_A, STATS_OFFSET_B),
        loaded == load_spec::<Stats>(flash, STATS_OFFSET_A, STATS_OFFSET_B),
        match loaded {
            Some(l) => store.seq == l.seq && store.last_offset == Some(l.from_offset),
            None => store.seq == 0 && store.last_offset is None,
        },
        store.seq < u64::MAX,
        stats_wf(stats),
        padded_len(HEADER_LEN + ENCODED_LEN, write_size) <= MAX_PAYLOAD + HEADER_LEN,
    ensures
        ({
            let target = alternate_spec(STATS_OFFSET_A, STATS_OFFSET_B, store.last_offset);
            let seq = store.seq.wrapping_add(1);
            let saved = write_slot_spec(flash, target, slot_image::<Stats>(stats, seq, write_size));
            &&& load_spec::<Stats>(saved, STATS_OFFSET_A, STATS_OFFSET_B) == Some(
                LoadedRecord { record: stats, seq, from_offset: target },
            )
            &&& loaded matches Some(l) ==> target != l.from_offset && slot_bytes(saved, l.from_offset)
                == slot_bytes(flash, l.from_offset)
        }),
{
    lemma_days_bytes(stats.days);
    assert(<Stats as Record>::MAGIC@[0] == 0x50u8);
    lemma_save_then_load::<Stats>(flash, STATS_OFFSET_A, STATS_OFFSET_B, stats, write_size);
}

} // verus!
