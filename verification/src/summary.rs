//! Counters that describe one synchronization run.

use vstd::prelude::*;

verus! {

/// How the synchronization of one package ended.
#[derive(Debug, Clone, Copy, PartialEq, Eq, Structural)]
pub enum Outcome {
    /// It was fetched and written; `bytes` is the size of what was fetched.
    Good { bytes: usize },
    /// It failed.
    Bad,
}

/// Aggregate counters of one run: bytes transferred, items that were
/// synchronized, items that failed.
#[derive(Debug, Clone, Copy, PartialEq, Eq, Structural)]
pub struct Summary {
    pub total_bytes: usize,
    pub bad: u32,
    pub good: u32,
}

/// The counters as unbounded numbers.
pub struct Tally {
    pub total_bytes: int,
    pub bad: int,
    pub good: int,
}

impl Tally {
    /// The counters after one more outcome.
    pub open spec fn plus(self, o: Outcome) -> Tally {
        match o {
            Outcome::Good { bytes } => Tally {
                total_bytes: self.total_bytes + bytes,
                bad: self.bad,
                good: self.good + 1,
            },
            Outcome::Bad => Tally {
                total_bytes: self.total_bytes,
                bad: self.bad + 1,
                good: self.good,
            },
        }
    }

    /// The counters after the outcomes of `os`, taken from the front.
    pub open spec fn plus_all(self, os: Seq<Outcome>) -> Tally
        decreases os.len(),
    {
        if os.len() == 0 {
            self
        } else {
            self.plus_all(os.drop_last()).plus(os.last())
        }
    }

    /// The counters fit the machine's types.
    pub open spec fn fits(self) -> bool {
        self.total_bytes <= usize::MAX && self.bad <= u32::MAX && self.good <= u32::MAX
    }
}

impl View for Summary {
    type V = Tally;

    open spec fn view(&self) -> Tally {
        Tally { total_bytes: self.total_bytes as int, bad: self.bad as int, good: self.good as int }
    }
}

impl Summary {
    /// The summary of a run in which nothing was dispatched.
    pub fn zero() -> (s: Summary)
        ensures
            s@ == nothing(),
    {
        Summary { total_bytes: 0, bad: 0, good: 0 }
    }

    /// Counts one outcome: a good one adds its bytes and one to `good`, a
    /// bad one adds one to `bad`.
    pub fn record(&mut self, o: Outcome)
        requires
            old(self)@.plus(o).fits(),
        ensures
            final(self)@ == old(self)@.plus(o),
    {
        match o {
            Outcome::Good { bytes } => {
                self.good = self.good + 1;
                self.total_bytes = self.total_bytes + bytes;
            },
            Outcome::Bad => {
                self.bad = self.bad + 1;
            },
        }
    }

    /// Whether `o` can still be counted without a counter leaving its
    /// type's range.
    pub fn has_room(&self, o: Outcome) -> (r: bool)
        ensures
            r == self@.plus(o).fits(),
    {
        match o {
            Outcome::Good { bytes } => self.good < u32::MAX && bytes <= usize::MAX
                - self.total_bytes,
            Outcome::Bad => self.bad < u32::MAX,
        }
    }
}

/// The counters before anything is counted.
pub open spec fn nothing() -> Tally {
    Tally { total_bytes: 0, bad: 0, good: 0 }
}

/// The counters of a run never fall: those after the first `k` outcomes
/// are at most those after all.
proof fn lemma_plus_all_prefix(t: Tally, os: Seq<Outcome>, k: int)
    requires
        0 <= k <= os.len(),
    ensures
        t.plus_all(os.take(k)).total_bytes <= t.plus_all(os).total_bytes,
        t.plus_all(os.take(k)).good <= t.plus_all(os).good,
        t.plus_all(os.take(k)).bad <= t.plus_all(os).bad,
    decreases os.len(),
{
    if k == os.len() {
        assert(os.take(k) =~= os);
    } else {
        assert(os.take(k) =~= os.drop_last().take(k));
        lemma_plus_all_prefix(t, os.drop_last(), k);
    }
}

/// The summary of a run with the outcomes given, each counted once; none
/// where a counter would leave its type's range.
pub fn tally(outcomes: &Vec<Outcome>) -> (s: Option<Summary>)
    ensures
        s is Some == nothing().plus_all(outcomes@).fits(),
        s is Some ==> s->0@ == nothing().plus_all(outcomes@),
{
    let mut acc: Summary = Summary::zero();
    let mut i: usize = 0;
    proof {
        assert(outcomes@.take(0) =~= Seq::<Outcome>::empty());
    }
    while i < outcomes.len()
        invariant
            i <= outcomes.len(),
            acc@ == nothing().plus_all(outcomes@.take(i as int)),
        decreases outcomes.len() - i,
    {
        proof {
            let next = outcomes@.take(i + 1);
            assert(next.drop_last() =~= outcomes@.take(i as int));
            assert(next.last() == outcomes@[i as int]);
            lemma_plus_all_prefix(nothing(), outcomes@, i + 1);
        }
        if !acc.has_room(outcomes[i]) {
            return None;
        }
        acc.record(outcomes[i]);
        i = i + 1;
    }
    proof {
        assert(outcomes@.take(outcomes.len() as int) =~= outcomes@);
    }
    Some(acc)
}

/// The order in which two outcomes are counted does not matter.
pub proof fn lemma_plus_commutes(t: Tally, a: Outcome, b: Outcome)
    ensures
        t.plus(a).plus(b) == t.plus(b).plus(a),
{
}

/// Exchanging two neighbouring outcomes of a run leaves its counters as
/// they are; so they depend on the outcomes alone, not on the order in
/// which the packages finish.
pub proof fn lemma_plus_all_swap(t: Tally, os: Seq<Outcome>, i: int)
    requires
        0 <= i,
        i + 1 < os.len(),
    ensures
        t.plus_all(os.update(i, os[i + 1]).update(i + 1, os[i])) == t.plus_all(os),
    decreases os.len(),
{
    let sw = os.update(i, os[i + 1]).update(i + 1, os[i]);
    assert(t.plus_all(sw) == t.plus_all(sw.drop_last()).plus(sw.last()));
    assert(t.plus_all(os) == t.plus_all(os.drop_last()).plus(os.last()));
    if i + 2 == os.len() {
        let base = os.drop_last().drop_last();
        let s1 = sw.drop_last();
        let o1 = os.drop_last();
        assert(s1.drop_last() =~= base);
        assert(sw.last() == os[i]);
        assert(s1.last() == os[i + 1]);
        assert(o1.last() == os[i]);
        assert(t.plus_all(s1) == t.plus_all(s1.drop_last()).plus(s1.last()));
        assert(t.plus_all(o1) == t.plus_all(o1.drop_last()).plus(o1.last()));
        lemma_plus_commutes(t.plus_all(base), os[i], os[i + 1]);
    } else {
        lemma_plus_all_swap(t, os.drop_last(), i);
        assert(sw.drop_last() =~= os.drop_last().update(i, os[i + 1]).update(i + 1, os[i]));
        assert(sw.last() == os.last());
    }
}

/// Every outcome of a run is counted once, as good or as bad.
pub proof fn lemma_plus_all_counts(t: Tally, os: Seq<Outcome>)
    ensures
        t.plus_all(os).good + t.plus_all(os).bad == t.good + t.bad + os.len(),
        t.plus_all(os).good >= t.good,
        t.plus_all(os).bad >= t.bad,
        t.plus_all(os).total_bytes >= t.total_bytes,
    decreases os.len(),
{
    if os.len() > 0 {
        lemma_plus_all_counts(t, os.drop_last());
    }
}

/// A run of two tasks that both end well counts two good, none bad, and
/// the sum of the two sizes; the counters take it where that sum fits.
pub proof fn lemma_two_good(a: usize, b: usize)
    ensures
        nothing().plus_all(seq![Outcome::Good { bytes: a }, Outcome::Good { bytes: b }]) == (
        Tally { total_bytes: a + b, bad: 0, good: 2 }),
        nothing().plus_all(seq![Outcome::Good { bytes: a }, Outcome::Good { bytes: b }]).fits()
            == (a + b <= usize::MAX),
{
    let os = seq![Outcome::Good { bytes: a }, Outcome::Good { bytes: b }];
    let o1 = os.drop_last();
    assert(os.last() == Outcome::Good { bytes: b });
    assert(o1.last() == Outcome::Good { bytes: a });
    assert(o1.drop_last().len() == 0);
    assert(nothing().plus_all(o1.drop_last()) == nothing());
    assert(nothing().plus_all(o1) == nothing().plus_all(o1.drop_last()).plus(o1.last()));
    assert(nothing().plus_all(os) == nothing().plus_all(o1).plus(os.last()));
}

} // verus!
