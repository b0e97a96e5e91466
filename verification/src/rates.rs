//! The network throughput estimator: bytes-per-second rates derived from two
//! timestamped cumulative-counter samples, and the per-interface history
//! table that carries the previous sample across calls.
//!
//! Policy for the degenerate cases, chosen deliberately and stated in the
//! contracts below:
//! - an interface seen for the first time reports a rate of `0` in both
//!   directions (no rate can be derived from a single sample);
//! - zero elapsed time between two samples yields a rate of `0` (no division
//!   by zero);
//! - a counter that moved backwards (reset or wraparound) yields a difference
//!   of `0`, hence a rate of `0`, instead of an underflowing subtraction.

use vstd::prelude::*;

verus! {

/// Difference `now - prev`, clamped to zero when the counter moved backwards.
pub open spec fn clamped_sub(now: u64, prev: u64) -> u64 {
    if now >= prev {
        (now - prev) as u64
    } else {
        0u64
    }
}

/// Bytes per second from a byte difference and an elapsed time in
/// milliseconds: `delta * 1000 / dt_ms`, rounded down, `0` when no time
/// elapsed, and saturated at `u64::MAX`.
pub open spec fn rate_per_sec(delta: u64, dt_ms: u64) -> u64 {
    if dt_ms == 0 {
        0u64
    } else if delta * 1000 / (dt_ms as int) > u64::MAX {
        u64::MAX
    } else {
        (delta * 1000 / (dt_ms as int)) as u64
    }
}

/// Executable counterpart of [`clamped_sub`].
pub fn counter_delta(now: u64, prev: u64) -> (r: u64)
    ensures
        r == clamped_sub(now, prev),
{
    if now >= prev {
        now - prev
    } else {
        0
    }
}

/// Executable counterpart of [`rate_per_sec`].
pub fn compute_rate(delta: u64, dt_ms: u64) -> (r: u64)
    ensures
        r == rate_per_sec(delta, dt_ms),
{
    if dt_ms == 0 {
        return 0;
    }
    let q: u128 = (delta as u128) * 1000 / (dt_ms as u128);
    if q > u64::MAX as u128 {
        u64::MAX
    } else {
        q as u64
    }
}

/// A recorded observation of one interface: monotonic timestamp in
/// milliseconds and the cumulative byte counters seen at that time.
#[derive(Clone, Copy)]
pub struct NetSample {
    pub t_ms: u64,
    pub rx: u64,
    pub tx: u64,
}

/// One history-table row: an interface name and its last recorded sample.
pub struct HistoryEntry {
    pub name: String,
    pub sample: NetSample,
}

/// The per-interface history table. Abstractly (its view) it is a map from
/// interface name to the last sample recorded for that name; every
/// observation overwrites the name's entry, and entries are never removed.
pub struct History {
    entries: Vec<HistoryEntry>,
}

/// The rates an observation reports, given the history `h` in force when it
/// happens: zero on first sight of the name, otherwise the clamped counter
/// differences over the clamped elapsed time.
pub open spec fn rates_from(
    h: Map<Seq<char>, NetSample>,
    name: Seq<char>,
    now_ms: u64,
    rx: u64,
    tx: u64,
) -> (u64, u64) {
    if h.contains_key(name) {
        let prev = h[name];
        let dt = clamped_sub(now_ms, prev.t_ms);
        (
            rate_per_sec(clamped_sub(rx, prev.rx), dt),
            rate_per_sec(clamped_sub(tx, prev.tx), dt),
        )
    } else {
        (0u64, 0u64)
    }
}

/// No two rows of the table carry the same interface name.
pub open spec fn unique_names(s: Seq<HistoryEntry>) -> bool {
    forall|i: int, j: int| 0 <= i < j < s.len() ==> s[i].name@ != s[j].name@
}

/// The association a row sequence denotes, later rows winning.
spec fn map_of(s: Seq<HistoryEntry>) -> Map<Seq<char>, NetSample>
    decreases s.len(),
{
    if s.len() == 0 {
        Map::empty()
    } else {
        map_of(s.drop_last()).insert(s.last().name@, s.last().sample)
    }
}

impl View for History {
    type V = Map<Seq<char>, NetSample>;

    closed spec fn view(&self) -> Map<Seq<char>, NetSample> {
        map_of(self.entries@)
    }
}

proof fn lemma_map_of_absent(s: Seq<HistoryEntry>, k: Seq<char>)
    requires
        forall|i: int| 0 <= i < s.len() ==> s[i].name@ != k,
    ensures
        !map_of(s).contains_key(k),
    decreases s.len(),
{
    if s.len() > 0 {
        assert(forall|i: int| 0 <= i < s.drop_last().len() ==> s.drop_last()[i] == s[i]);
        lemma_map_of_absent(s.drop_last(), k);
    }
}

proof fn lemma_map_of_found(s: Seq<HistoryEntry>, i: int)
    requires
        unique_names(s),
        0 <= i < s.len(),
    ensures
        map_of(s).contains_key(s[i].name@),
        map_of(s)[s[i].name@] == s[i].sample,
    decreases s.len(),
{
    if i < s.len() - 1 {
        assert(forall|a: int| 0 <= a < s.drop_last().len() ==> s.drop_last()[a] == s[a]);
        lemma_map_of_found(s.drop_last(), i);
        assert(s[i].name@ != s.last().name@);
    }
}

proof fn lemma_map_of_update(s: Seq<HistoryEntry>, i: int, e: HistoryEntry)
    requires
        unique_names(s),
        0 <= i < s.len(),
        e.name@ == s[i].name@,
    ensures
        map_of(s.update(i, e)) == map_of(s).insert(e.name@, e.sample),
    decreases s.len(),
{
    let t = s.update(i, e);
    if i == s.len() - 1 {
        assert(t.drop_last() =~= s.drop_last());
        assert(t.last() == e);
        assert(map_of(t) =~= map_of(s).insert(e.name@, e.sample));
    } else {
        assert(t.drop_last() =~= s.drop_last().update(i, e));
        assert(forall|a: int| 0 <= a < s.drop_last().len() ==> s.drop_last()[a] == s[a]);
        lemma_map_of_update(s.drop_last(), i, e);
        assert(t.last() == s.last());
        assert(s[i].name@ != s.last().name@);
        assert(map_of(t) =~= map_of(s).insert(e.name@, e.sample));
    }
}

impl History {
    /// Names in the underlying row sequence are unique, so a lookup is
    /// unambiguous.
    pub closed spec fn wf(&self) -> bool {
        unique_names(self.entries@)
    }

    /// A fresh, empty history: no interface has been observed yet.
    pub fn new() -> (h: History)
        ensures
            h.wf(),
            h@ == Map::<Seq<char>, NetSample>::empty(),
    {
        History { entries: Vec::new() }
    }

    /// Index of the row holding `name`, if any.
    fn find(&self, name: &String) -> (r: Option<usize>)
        ensures
            match r {
                Some(i) => i < self.entries@.len() && self.entries@[i as int].name@ == name@,
                None => forall|j: int|
                    0 <= j < self.entries@.len() ==> self.entries@[j].name@ != name@,
            },
    {
        let n = self.entries.len();
        let mut i: usize = 0;
        while i < n
            invariant
                i <= n,
                n == self.entries@.len(),
                forall|j: int| 0 <= j < i ==> self.entries@[j].name@ != name@,
            decreases n - i,
        {
            if self.entries[i].name == *name {
                return Some(i);
            }
            i += 1;
        }
        None
    }

    /// Record one observation of `name` and report its instantaneous rates.
    ///
    /// The reported rates are derived from the history as it stood before the
    /// call ([`rates_from`]); the entry for `name` is then unconditionally
    /// overwritten with the new sample, so a first sight (zero rates) seeds
    /// the next call.
    pub fn observe(&mut self, name: &String, now_ms: u64, rx: u64, tx: u64) -> (rates: (
        u64,
        u64,
    ))
        requires
            old(self).wf(),
        ensures
            final(self).wf(),
            final(self)@ == old(self)@.insert(name@, NetSample { t_ms: now_ms, rx, tx }),
            rates == rates_from(old(self)@, name@, now_ms, rx, tx),
    {
        let sample = NetSample { t_ms: now_ms, rx, tx };
        match self.find(name) {
            Some(i) => {
                let prev = self.entries[i].sample;
                proof {
                    lemma_map_of_found(self.entries@, i as int);
                }
                let ghost s0 = self.entries@;
                self.entries[i].sample = sample;
                proof {
                    let e = HistoryEntry { name: s0[i as int].name, sample };
                    assert(self.entries@ =~= s0.update(i as int, e));
                    lemma_map_of_update(s0, i as int, e);
                    assert(forall|a: int|
                        0 <= a < self.entries@.len() ==> self.entries@[a].name@ == s0[a].name@);
                }
                let dt = counter_delta(now_ms, prev.t_ms);
                (
                    compute_rate(counter_delta(rx, prev.rx), dt),
                    compute_rate(counter_delta(tx, prev.tx), dt),
                )
            },
            None => {
                proof {
                    lemma_map_of_absent(self.entries@, name@);
                }
                let ghost s0 = self.entries@;
                let entry = HistoryEntry { name: name.clone(), sample };
                self.entries.push(entry);
                proof {
                    assert(self.entries@.drop_last() =~= s0);
                    assert(forall|a: int| 0 <= a < s0.len() ==> self.entries@[a] == s0[a]);
                }
                (0, 0)
            },
        }
    }

    /// The sample currently recorded for `name`, if any. Read-only: lets a
    /// caller inspect the table without disturbing it.
    pub fn lookup(&self, name: &String) -> (r: Option<NetSample>)
        requires
            self.wf(),
        ensures
            match r {
                Some(s) => self@.contains_key(name@) && self@[name@] == s,
                None => !self@.contains_key(name@),
            },
    {
        match self.find(name) {
            Some(i) => {
                proof {
                    lemma_map_of_found(self.entries@, i as int);
                }
                Some(self.entries[i].sample)
            },
            None => {
                proof {
                    lemma_map_of_absent(self.entries@, name@);
                }
                None
            },
        }
    }
}

/// Cold start: an interface without a history entry reports zero rates in
/// both directions, and recording its sample creates its entry.
pub proof fn lemma_cold_start(
    h: Map<Seq<char>, NetSample>,
    name: Seq<char>,
    now_ms: u64,
    rx: u64,
    tx: u64,
)
    requires
        !h.contains_key(name),
    ensures
        rates_from(h, name, now_ms, rx, tx) == (0u64, 0u64),
        h.insert(name, NetSample { t_ms: now_ms, rx, tx }).contains_key(name),
        h.insert(name, NetSample { t_ms: now_ms, rx, tx })[name] == (NetSample {
            t_ms: now_ms,
            rx,
            tx,
        }),
{
}

/// Monotonic independence, recording form: recording a sample for one
/// interface never changes the rates computed for another.
pub proof fn lemma_rate_independence(
    h: Map<Seq<char>, NetSample>,
    other: Seq<char>,
    s: NetSample,
    name: Seq<char>,
    now_ms: u64,
    rx: u64,
    tx: u64,
)
    requires
        name != other,
    ensures
        rates_from(h.insert(other, s), name, now_ms, rx, tx) == rates_from(
            h,
            name,
            now_ms,
            rx,
            tx,
        ),
{
}

/// Monotonic independence, history form: the rates for an interface depend
/// only on that interface's own history entry, never on any other entry.
pub proof fn lemma_rate_depends_only_on_own_entry(
    h1: Map<Seq<char>, NetSample>,
    h2: Map<Seq<char>, NetSample>,
    name: Seq<char>,
    now_ms: u64,
    rx: u64,
    tx: u64,
)
    requires
        h1.contains_key(name) == h2.contains_key(name),
        h1.contains_key(name) ==> h1[name] == h2[name],
    ensures
        rates_from(h1, name, now_ms, rx, tx) == rates_from(h2, name, now_ms, rx, tx),
{
}

} // verus!
