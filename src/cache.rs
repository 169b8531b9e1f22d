use vstd::prelude::*;
use crate::request::{RequestView, SandboxRequest};

verus! {

/// How a sandboxed process ended.
#[derive(Copy, Clone, Debug, PartialEq, Eq)]
pub enum ExitState {
    Success,
    /// A non-zero exit code, or `None` when a signal ended the process.
    Failure { code: Option<i32> },
}

impl ExitState {
    pub fn success(&self) -> (r: bool)
        ensures
            r == (*self is Success),
    {
        match self {
            ExitState::Success => true,
            ExitState::Failure { .. } => false,
        }
    }
}

/// The result of one sandbox run as the cache keeps it: exit state and the
/// combined output bytes.
pub struct Outcome {
    pub status: ExitState,
    pub output: Vec<u8>,
}

impl View for Outcome {
    type V = (ExitState, Seq<u8>);

    open spec fn view(&self) -> (ExitState, Seq<u8>) {
        (self.status, self.output@)
    }
}

impl Outcome {
    pub fn duplicate(&self) -> (r: Outcome)
        ensures
            r@ == self@,
    {
        Outcome { status: self.status, output: self.output.clone() }
    }
}

/// One cache entry: a request's identity and its outcome.
pub type Entry = (RequestView, (ExitState, Seq<u8>));

pub open spec fn has_key(s: Seq<Entry>, k: RequestView) -> bool {
    exists|i: int| 0 <= i < s.len() && #[trigger] s[i].0 == k
}

pub open spec fn key_at(s: Seq<Entry>, k: RequestView) -> int {
    choose|i: int| 0 <= i < s.len() && #[trigger] s[i].0 == k
}

pub open spec fn keys_distinct(s: Seq<Entry>) -> bool {
    forall|i: int, j: int| 0 <= i < s.len() && 0 <= j < s.len() && #[trigger] s[i].0 == #[trigger] s[j].0 ==> i == j
}

/// The outcome stored under `k`, if any.
pub open spec fn cached(s: Seq<Entry>, k: RequestView) -> Option<(ExitState, Seq<u8>)> {
    if has_key(s, k) {
        Some(s[key_at(s, k)].1)
    } else {
        None
    }
}

/// The entries after a lookup of `k`: a hit becomes the most recently used.
pub open spec fn touched(s: Seq<Entry>, k: RequestView) -> Seq<Entry> {
    if has_key(s, k) {
        let i = key_at(s, k);
        s.remove(i).push(s[i])
    } else {
        s
    }
}

/// The entries after storing `v` under `k`: an old entry of `k` is replaced;
/// otherwise, at capacity, the least recently used entry leaves. The new
/// entry is the most recently used. A cache of capacity 0 keeps nothing.
pub open spec fn stored(s: Seq<Entry>, cap: nat, k: RequestView, v: (ExitState, Seq<u8>)) -> Seq<Entry> {
    if cap == 0 {
        s
    } else if has_key(s, k) {
        s.remove(key_at(s, k)).push((k, v))
    } else if s.len() < cap {
        s.push((k, v))
    } else {
        s.drop_first().push((k, v))
    }
}

/// The entries, least recently used first, fit the capacity, have distinct
/// keys, and hold successful outcomes only.
pub open spec fn model_wf(s: Seq<Entry>, cap: nat) -> bool {
    &&& s.len() <= cap
    &&& keys_distinct(s)
    &&& forall|i: int| 0 <= i < s.len() ==> (#[trigger] s[i]).1.0 is Success
}

/// A bounded map from requests to successful outcomes with least recently
/// used eviction.
pub struct ExecCache {
    entries: Vec<(SandboxRequest, Outcome)>,
    capacity: usize,
}

impl View for ExecCache {
    type V = Seq<Entry>;

    closed spec fn view(&self) -> Seq<Entry> {
        self.entries@.map_values(|e: (SandboxRequest, Outcome)| (e.0@, e.1@))
    }
}

proof fn lemma_cached_at(s: Seq<Entry>, i: int)
    requires
        keys_distinct(s),
        0 <= i < s.len(),
    ensures
        has_key(s, s[i].0),
        key_at(s, s[i].0) == i,
        cached(s, s[i].0) == Some(s[i].1),
{
    assert(s[i].0 == s[i].0);
}

proof fn lemma_remove_push(s: Seq<Entry>, cap: nat, i: int, e: Entry)
    requires
        model_wf(s, cap),
        0 <= i < s.len(),
        e.0 == s[i].0,
        e.1.0 is Success,
    ensures
        model_wf(s.remove(i).push(e), cap),
{
    let t = s.remove(i).push(e);
    assert forall|a: int, b: int| 0 <= a < t.len() && 0 <= b < t.len() && #[trigger] t[a].0 == #[trigger] t[b].0 implies a == b by {
        let ia = if a < i { a } else { a + 1 };
        let ib = if b < i { b } else { b + 1 };
        let ja = if a == t.len() - 1 { i } else { ia };
        let jb = if b == t.len() - 1 { i } else { ib };
        assert(t[a].0 == s[ja].0);
        assert(t[b].0 == s[jb].0);
    }
    assert forall|a: int| 0 <= a < t.len() implies (#[trigger] t[a]).1.0 is Success by {
        if a < t.len() - 1 {
            if a < i {
                assert(t[a] == s[a]);
            } else {
                assert(t[a] == s[a + 1]);
            }
        }
    }
}

proof fn lemma_push_fresh(s: Seq<Entry>, cap: nat, e: Entry)
    requires
        keys_distinct(s),
        forall|i: int| 0 <= i < s.len() ==> (#[trigger] s[i]).1.0 is Success,
        !has_key(s, e.0),
        e.1.0 is Success,
        s.len() < cap,
    ensures
        model_wf(s.push(e), cap),
{
    let t = s.push(e);
    assert forall|a: int, b: int| 0 <= a < t.len() && 0 <= b < t.len() && #[trigger] t[a].0 == #[trigger] t[b].0 implies a == b by {
        if a < s.len() && b == s.len() {
            assert(s[a].0 == e.0);
        }
        if b < s.len() && a == s.len() {
            assert(s[b].0 == e.0);
        }
    }
    assert forall|a: int| 0 <= a < t.len() implies (#[trigger] t[a]).1.0 is Success by {
        if a < s.len() {
            assert(t[a] == s[a]);
        }
    }
}

/// After a successful outcome is stored under a request in a cache that can
/// hold anything, looking that request up gives the stored outcome back, so
/// a repeated request needs no new run; storing leaves the cache well formed.
pub proof fn lemma_success_is_reused(s: Seq<Entry>, cap: nat, k: RequestView, v: (ExitState, Seq<u8>))
    requires
        model_wf(s, cap),
        cap > 0,
        v.0 is Success,
    ensures
        model_wf(stored(s, cap, k, v), cap),
        cached(stored(s, cap, k, v), k) == Some(v),
{
    let t = stored(s, cap, k, v);
    let e: Entry = (k, v);
    if has_key(s, k) {
        lemma_remove_push(s, cap, key_at(s, k), e);
    } else if s.len() < cap {
        lemma_push_fresh(s, cap, e);
    } else {
        let d = s.drop_first();
        lemma_drop_first(s, cap);
        if has_key(d, k) {
            let a = choose|a: int| 0 <= a < d.len() && #[trigger] d[a].0 == k;
            assert(s[a + 1].0 == k);
        }
        lemma_push_fresh(d, cap, e);
    }
    lemma_cached_at(t, t.len() - 1);
}

/// Storing a new request in a full cache evicts exactly the least recently
/// used entry: its request is no longer found, every other entry keeps its
/// outcome, and the new request is found.
pub proof fn lemma_evicts_least_recent(s: Seq<Entry>, cap: nat, k: RequestView, v: (ExitState, Seq<u8>))
    requires
        model_wf(s, cap),
        cap > 0,
        s.len() == cap,
        !has_key(s, k),
        v.0 is Success,
    ensures
        stored(s, cap, k, v).len() == cap,
        cached(stored(s, cap, k, v), s[0].0) is None,
        forall|i: int| 1 <= i < s.len() ==> cached(stored(s, cap, k, v), #[trigger] s[i].0) == Some(s[i].1),
        cached(stored(s, cap, k, v), k) == Some(v),
{
    let t = stored(s, cap, k, v);
    lemma_success_is_reused(s, cap, k, v);
    if has_key(t, s[0].0) {
        let a = choose|a: int| 0 <= a < t.len() && #[trigger] t[a].0 == s[0].0;
        if a < t.len() - 1 {
            assert(t[a] == s[a + 1]);
        }
    }
    assert forall|i: int| 1 <= i < s.len() implies cached(t, #[trigger] s[i].0) == Some(s[i].1) by {
        assert(t[i - 1] == s[i]);
        lemma_cached_at(t, i - 1);
    }
}

proof fn lemma_drop_first(s: Seq<Entry>, cap: nat)
    requires
        model_wf(s, cap),
        s.len() > 0,
    ensures
        keys_distinct(s.drop_first()),
        forall|i: int| 0 <= i < s.drop_first().len() ==> (#[trigger] s.drop_first()[i]).1.0 is Success,
        s.drop_first().len() < cap,
{
    let d = s.drop_first();
    assert forall|a: int, b: int| 0 <= a < d.len() && 0 <= b < d.len() && #[trigger] d[a].0 == #[trigger] d[b].0 implies a == b by {
        assert(d[a] == s[a + 1]);
        assert(d[b] == s[b + 1]);
    }
    assert forall|a: int| 0 <= a < d.len() implies (#[trigger] d[a]).1.0 is Success by {
        assert(d[a] == s[a + 1]);
    }
}

/// The entries after storing each entry of `es` in order.
pub open spec fn store_all(s: Seq<Entry>, cap: nat, es: Seq<Entry>) -> Seq<Entry>
    decreases es.len(),
{
    if es.len() == 0 {
        s
    } else {
        stored(store_all(s, cap, es.drop_last()), cap, es.last().0, es.last().1)
    }
}

proof fn lemma_store_all_fits(cap: nat, es: Seq<Entry>)
    requires
        model_wf(es, cap),
    ensures
        store_all(Seq::empty(), cap, es) == es,
    decreases es.len(),
{
    if es.len() > 0 {
        let d = es.drop_last();
        assert forall|a: int, b: int| 0 <= a < d.len() && 0 <= b < d.len() && #[trigger] d[a].0 == #[trigger] d[b].0 implies a == b by {
            assert(d[a] == es[a] && d[b] == es[b]);
        }
        assert forall|a: int| 0 <= a < d.len() implies (#[trigger] d[a]).1.0 is Success by {
            assert(d[a] == es[a]);
        }
        lemma_store_all_fits(cap, d);
        if has_key(d, es.last().0) {
            let a = choose|a: int| 0 <= a < d.len() && #[trigger] d[a].0 == es.last().0;
            assert(es[a].0 == es[es.len() - 1].0);
        }
        assert(d.push(es.last()) =~= es);
    }
}

/// Storing `cap + 1` successful outcomes under distinct requests, one after
/// the other, into an empty cache evicts exactly the first of them: it is no
/// longer found, and every later one is found with its outcome.
pub proof fn lemma_overfill_evicts_first(cap: nat, es: Seq<Entry>)
    requires
        cap > 0,
        es.len() == cap + 1,
        keys_distinct(es),
        forall|i: int| 0 <= i < es.len() ==> (#[trigger] es[i]).1.0 is Success,
    ensures
        cached(store_all(Seq::empty(), cap, es), es[0].0) is None,
        forall|i: int| 1 <= i < es.len() ==> cached(store_all(Seq::empty(), cap, es), #[trigger] es[i].0) == Some(es[i].1),
{
    let d = es.drop_last();
    assert forall|a: int, b: int| 0 <= a < d.len() && 0 <= b < d.len() && #[trigger] d[a].0 == #[trigger] d[b].0 implies a == b by {
        assert(d[a] == es[a] && d[b] == es[b]);
    }
    assert forall|a: int| 0 <= a < d.len() implies (#[trigger] d[a]).1.0 is Success by {
        assert(d[a] == es[a]);
    }
    lemma_store_all_fits(cap, d);
    let last = es.last();
    if has_key(d, last.0) {
        let a = choose|a: int| 0 <= a < d.len() && #[trigger] d[a].0 == last.0;
        assert(es[a].0 == es[es.len() - 1].0);
    }
    lemma_evicts_least_recent(d, cap, last.0, last.1);
    assert(d[0] == es[0]);
    assert forall|i: int| 1 <= i < es.len() implies cached(store_all(Seq::empty(), cap, es), #[trigger] es[i].0) == Some(es[i].1) by {
        if i < es.len() - 1 {
            assert(d[i] == es[i]);
        }
    }
}

/// A lookup that hits makes its entry the most recently used: when the
/// least recently used request of a full cache is looked up and then a new
/// request is stored, the entry that leaves is the second oldest, and the
/// looked-up request keeps its outcome.
pub proof fn lemma_hit_refreshes_recency(s: Seq<Entry>, cap: nat, k: RequestView, v: (ExitState, Seq<u8>))
    requires
        model_wf(s, cap),
        cap >= 2,
        s.len() == cap,
        !has_key(s, k),
        v.0 is Success,
    ensures
        cached(stored(touched(s, s[0].0), cap, k, v), s[0].0) == Some(s[0].1),
        cached(stored(touched(s, s[0].0), cap, k, v), s[1].0) is None,
        cached(stored(touched(s, s[0].0), cap, k, v), k) == Some(v),
{
    lemma_cached_at(s, 0);
    let t = touched(s, s[0].0);
    assert(t == s.remove(0).push(s[0]));
    lemma_remove_push(s, cap, 0, s[0]);
    if has_key(t, k) {
        let a = choose|a: int| 0 <= a < t.len() && #[trigger] t[a].0 == k;
        if a < t.len() - 1 {
            assert(t[a] == s[a + 1]);
        }
    }
    assert(t[0] == s[1]);
    assert(t[t.len() - 1] == s[0]);
    lemma_evicts_least_recent(t, cap, k, v);
}

impl ExecCache {
    pub closed spec fn capacity(&self) -> nat {
        self.capacity as nat
    }

    pub open spec fn wf(&self) -> bool {
        model_wf(self@, self.capacity())
    }

    /// An empty cache that holds at most `capacity` entries.
    pub fn new(capacity: usize) -> (r: ExecCache)
        ensures
            r.wf(),
            r@ == Seq::<Entry>::empty(),
            r.capacity() == capacity,
    {
        let r = ExecCache { entries: Vec::new(), capacity };
        assert(r@ =~= Seq::<Entry>::empty());
        r
    }

    /// The position of the entry for `req`.
    fn find(&self, req: &SandboxRequest) -> (r: Option<usize>)
        requires
            self.wf(),
        ensures
            match r {
                Some(i) => i < self@.len() && key_at(self@, req@) == i && has_key(self@, req@),
                None => !has_key(self@, req@),
            },
    {
        let mut i: usize = 0;
        while i < self.entries.len()
            invariant
                self.wf(),
                i <= self@.len(),
                self@.len() == self.entries@.len(),
                forall|j: int| 0 <= j < i ==> self@[j].0 != req@,
            decreases self.entries@.len() - i,
        {
            if self.entries[i].0.same_as(req) {
                proof {
                    assert(self@[i as int].0 == req@);
                    lemma_cached_at(self@, i as int);
                }
                return Some(i);
            }
            i = i + 1;
        }
        None
    }

    /// The outcome stored for `req`, if any; a hit becomes the most recently
    /// used entry.
    pub fn lookup(&mut self, req: &SandboxRequest) -> (r: Option<Outcome>)
        requires
            old(self).wf(),
        ensures
            final(self).wf(),
            final(self).capacity() == old(self).capacity(),
            final(self)@ == touched(old(self)@, req@),
            match r {
                Some(o) => cached(old(self)@, req@) == Some(o@),
                None => cached(old(self)@, req@) is None,
            },
    {
        match self.find(req) {
            Some(i) => {
                let ghost s = self@;
                let e = self.entries.remove(i);
                let o = e.1.duplicate();
                self.entries.push(e);
                proof {
                    lemma_cached_at(s, i as int);
                    assert(self@ =~= s.remove(i as int).push(s[i as int]));
                    lemma_remove_push(s, self.capacity(), i as int, s[i as int]);
                }
                Some(o)
            },
            None => None,
        }
    }

    /// Stores a successful outcome for `req`; a failed one is not kept.
    pub fn record(&mut self, req: SandboxRequest, outcome: Outcome)
        requires
            old(self).wf(),
        ensures
            final(self).wf(),
            final(self).capacity() == old(self).capacity(),
            final(self)@ == if outcome.status is Success {
                stored(old(self)@, old(self).capacity(), req@, outcome@)
            } else {
                old(self)@
            },
    {
        if !outcome.status.success() || self.capacity == 0 {
            return;
        }
        let ghost s = self@;
        let ghost e: Entry = (req@, outcome@);
        match self.find(&req) {
            Some(i) => {
                self.entries.remove(i);
                self.entries.push((req, outcome));
                proof {
                    assert(self@ =~= s.remove(i as int).push(e));
                    lemma_remove_push(s, self.capacity(), i as int, e);
                }
            },
            None => {
                if self.entries.len() >= self.capacity {
                    self.entries.remove(0);
                    proof {
                        assert(self@ =~= s.drop_first());
                        lemma_drop_first(s, self.capacity());
                        let d = s.drop_first();
                        if has_key(d, e.0) {
                            let a = choose|a: int| 0 <= a < d.len() && #[trigger] d[a].0 == e.0;
                            assert(s[a + 1].0 == e.0);
                        }
                    }
                }
                let ghost d = self@;
                self.entries.push((req, outcome));
                proof {
                    assert(self@ =~= d.push(e));
                    lemma_push_fresh(d, self.capacity(), e);
                }
            },
        }
    }
}

} // verus!
