//! The registry of fingerprints already confirmed matched. Recording a
//! fingerprint succeeds at most once per value: a successful insert is the
//! sole gate for persisting a match.

use vstd::prelude::*;

verus! {

/// The fingerprints of `v`, as character sequences, in insertion order.
pub open spec fn entry_views(v: Seq<String>) -> Seq<Seq<char>> {
    v.map_values(|s: String| s@)
}

/// A set of fingerprint strings already confirmed matched. No removal
/// operation exists: a value, once recorded, stays for the whole run.
pub struct MatchRegistry {
    entries: Vec<String>,
}

impl View for MatchRegistry {
    type V = Seq<Seq<char>>;

    closed spec fn view(&self) -> Seq<Seq<char>> {
        entry_views(self.entries@)
    }
}

/// The abstract effect of one insert: a value not yet recorded is appended
/// and reported new; a recorded value leaves the registry unchanged.
pub open spec fn spec_insert(s: Seq<Seq<char>>, f: Seq<char>) -> (Seq<Seq<char>>, bool) {
    if s.contains(f) {
        (s, false)
    } else {
        (s.push(f), true)
    }
}

impl MatchRegistry {
    /// No fingerprint is recorded twice.
    pub open spec fn wf(&self) -> bool {
        self@.no_duplicates()
    }

    /// An empty registry.
    pub fn new() -> (r: MatchRegistry)
        ensures
            r.wf(),
            r@ == Seq::<Seq<char>>::empty(),
    {
        let r = MatchRegistry { entries: Vec::new() };
        proof {
            assert(r@ =~= Seq::<Seq<char>>::empty());
        }
        r
    }

    /// Whether `fingerprint` has already been recorded.
    pub fn contains(&self, fingerprint: &String) -> (r: bool)
        ensures
            r == self@.contains(fingerprint@),
    {
        let mut k: usize = 0;
        while k < self.entries.len()
            invariant
                k <= self.entries@.len(),
                forall|t: int| 0 <= t < k ==> (#[trigger] self.entries@[t])@ != fingerprint@,
            decreases self.entries@.len() - k,
        {
            let e: &String = &self.entries[k];
            if *e == *fingerprint {
                proof {
                    assert(self@[k as int] == fingerprint@);
                }
                return true;
            }
            k += 1;
        }
        proof {
            assert(forall|t: int| 0 <= t < self@.len() ==> self@[t] != fingerprint@);
        }
        false
    }

    /// Records `fingerprint`; returns true exactly when this is the first
    /// insertion of that value.
    pub fn insert(&mut self, fingerprint: String) -> (r: bool)
        requires
            old(self).wf(),
        ensures
            final(self).wf(),
            (final(self)@, r) == spec_insert(old(self)@, fingerprint@),
    {
        if self.contains(&fingerprint) {
            false
        } else {
            let ghost pre = self@;
            self.entries.push(fingerprint);
            proof {
                assert(self@ =~= pre.push(fingerprint@));
                assert forall|a: int, b: int| 0 <= a < b < self@.len() implies self@[a]
                    != self@[b] by {
                    if b < pre.len() {
                        assert(pre[a] != pre[b]);
                    } else {
                        assert(!pre.contains(self@[b]));
                    }
                }
            }
            true
        }
    }

    /// How many distinct fingerprints have been recorded.
    pub fn len(&self) -> (r: usize)
        ensures
            r == self@.len(),
    {
        self.entries.len()
    }
}

/// The results of `n` successive inserts of the same fingerprint.
pub open spec fn insert_results(s: Seq<Seq<char>>, f: Seq<char>, n: nat) -> Seq<bool>
    decreases n,
{
    if n == 0 {
        Seq::empty()
    } else {
        seq![spec_insert(s, f).1] + insert_results(spec_insert(s, f).0, f, (n - 1) as nat)
    }
}

/// `n` successive inserts give `n` results.
pub proof fn lemma_insert_results_len(s: Seq<Seq<char>>, f: Seq<char>, n: nat)
    ensures
        insert_results(s, f, n).len() == n,
    decreases n,
{
    if n > 0 {
        lemma_insert_results_len(spec_insert(s, f).0, f, (n - 1) as nat);
    }
}

/// Once a fingerprint is recorded, every further insert of it reports false.
pub proof fn lemma_insert_never_again(s: Seq<Seq<char>>, f: Seq<char>, n: nat)
    requires
        s.contains(f),
    ensures
        forall|k: int| 0 <= k < n ==> !insert_results(s, f, n)[k],
    decreases n,
{
    if n > 0 {
        let rest = insert_results(s, f, (n - 1) as nat);
        lemma_insert_results_len(s, f, (n - 1) as nat);
        assert(insert_results(s, f, n) =~= seq![false] + rest);
        lemma_insert_never_again(s, f, (n - 1) as nat);
        assert forall|k: int| 0 <= k < n implies !insert_results(s, f, n)[k] by {
            if k > 0 {
                assert(insert_results(s, f, n)[k] == rest[k - 1]);
            }
        }
    }
}

/// However many times one fingerprint value is inserted, exactly one insert
/// reports it as new: the first one, when the value was not yet recorded.
pub proof fn lemma_insert_exactly_once(s: Seq<Seq<char>>, f: Seq<char>, n: nat)
    requires
        !s.contains(f),
        n >= 1,
    ensures
        forall|k: int| 0 <= k < n ==> insert_results(s, f, n)[k] == (k == 0),
    decreases n,
{
    let s1 = spec_insert(s, f).0;
    assert(s1 == s.push(f));
    assert(s1[s.len() as int] == f);
    assert(s1.contains(f));
    lemma_insert_never_again(s1, f, (n - 1) as nat);
    let rest = insert_results(s1, f, (n - 1) as nat);
    lemma_insert_results_len(s1, f, (n - 1) as nat);
    assert(insert_results(s, f, n) =~= seq![true] + rest);
    assert forall|k: int| 0 <= k < n implies insert_results(s, f, n)[k] == (k == 0) by {
        if k > 0 {
            assert(insert_results(s, f, n)[k] == rest[k - 1]);
            assert(!rest[k - 1]);
        }
    }
}

} // verus!
