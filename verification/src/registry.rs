//! The shared set of claimed participant display names.
//!
//! The registry is the single source of truth for name uniqueness among
//! active chat sessions. The caller serializes access (one short-held
//! exclusive lock around each call); each operation here is an atomic
//! check-and-insert or removal on the set of claimed names.

use vstd::prelude::*;

verus! {

/// The set of names recorded in `names`, as character sequences.
pub open spec fn name_set(names: Seq<String>) -> Set<Seq<char>> {
    Set::new(|n: Seq<char>| exists|i: int| 0 <= i < names.len() && names[i]@ == n)
}

/// Whether one `try_claim(n)` step succeeds against the claimed set `s`.
pub open spec fn claim_succeeds(s: Set<Seq<char>>, n: Seq<char>) -> bool {
    !s.contains(n)
}

/// The claimed set after one `try_claim(n)` step against `s`.
pub open spec fn after_claim(s: Set<Seq<char>>, n: Seq<char>) -> Set<Seq<char>> {
    if claim_succeeds(s, n) {
        s.insert(n)
    } else {
        s
    }
}

/// The claimed set after one `release(n)` step against `s`.
pub open spec fn after_release(s: Set<Seq<char>>, n: Seq<char>) -> Set<Seq<char>> {
    s.remove(n)
}

/// Shared, mutually-exclusive set of claimed display names.
pub struct ParticipantRegistry {
    names: Vec<String>,
}

impl View for ParticipantRegistry {
    type V = Set<Seq<char>>;

    closed spec fn view(&self) -> Set<Seq<char>> {
        name_set(self.names@)
    }
}

impl ParticipantRegistry {
    /// No name is recorded twice.
    pub closed spec fn wf(&self) -> bool {
        forall|i: int, j: int|
            0 <= i < j < self.names@.len() ==> self.names@[i]@ != self.names@[j]@
    }

    /// An empty registry: no name is claimed.
    pub fn new() -> (r: ParticipantRegistry)
        ensures
            r.wf(),
            r@ == Set::<Seq<char>>::empty(),
    {
        let r = ParticipantRegistry { names: Vec::new() };
        proof {
            assert(r@ =~= Set::<Seq<char>>::empty());
        }
        r
    }

    /// Index of `name` among the recorded names, if present.
    fn position_of(&self, name: &String) -> (r: Option<usize>)
        ensures
            match r {
                Some(i) => i < self.names@.len() && self.names@[i as int]@ == name@,
                None => !self@.contains(name@),
            },
    {
        let n = self.names.len();
        let mut i: usize = 0;
        while i < n
            invariant
                n == self.names@.len(),
                i <= n,
                forall|j: int| 0 <= j < i ==> self.names@[j]@ != name@,
            decreases n - i,
        {
            if self.names[i] == *name {
                return Some(i);
            }
            i += 1;
        }
        None
    }

    /// Whether `name` is currently claimed.
    pub fn is_claimed(&self, name: &String) -> (claimed: bool)
        ensures
            claimed == self@.contains(name@),
    {
        match self.position_of(name) {
            Some(i) => {
                proof {
                    assert(self@.contains(name@)) by {
                        assert(self.names@[i as int]@ == name@);
                    }
                }
                true
            },
            None => false,
        }
    }

    /// Atomic check-and-insert: claim `name` if it is free. Returns `true`
    /// and records the claim when no active session holds `name`, and
    /// `false`, leaving the set unchanged, when it is already taken.
    pub fn try_claim(&mut self, name: String) -> (claimed: bool)
        requires
            old(self).wf(),
        ensures
            final(self).wf(),
            claimed == claim_succeeds(old(self)@, name@),
            final(self)@ == after_claim(old(self)@, name@),
    {
        match self.position_of(&name) {
            Some(i) => {
                proof {
                    assert(self@.contains(name@)) by {
                        assert(self.names@[i as int]@ == name@);
                    }
                }
                false
            },
            None => {
                let ghost pre = self.names@;
                self.names.push(name);
                proof {
                    assert(name_set(pre.push(name)) =~= name_set(pre).insert(name@)) by {
                        assert forall|n: Seq<char>|
                            name_set(pre.push(name)).contains(n)
                                <==> name_set(pre).insert(name@).contains(n) by {
                            if name_set(pre.push(name)).contains(n) {
                                let i = choose|i: int|
                                    0 <= i < pre.push(name).len() && pre.push(name)[i]@ == n;
                                if i < pre.len() {
                                    assert(pre[i]@ == n);
                                    assert(name_set(pre).contains(n));
                                } else {
                                    assert(n == name@);
                                }
                            }
                            if name_set(pre).insert(name@).contains(n) {
                                if n == name@ {
                                    assert(pre.push(name)[pre.len() as int]@ == n);
                                    assert(name_set(pre.push(name)).contains(n));
                                } else {
                                    let i = choose|i: int| 0 <= i < pre.len() && pre[i]@ == n;
                                    assert(pre.push(name)[i]@ == n);
                                    assert(name_set(pre.push(name)).contains(n));
                                }
                            }
                        }
                    }
                }
                true
            },
        }
    }

    /// Remove the claim on `name`. Idempotent: releasing an unclaimed name
    /// leaves the set unchanged.
    pub fn release(&mut self, name: &String)
        requires
            old(self).wf(),
        ensures
            final(self).wf(),
            final(self)@ == after_release(old(self)@, name@),
    {
        match self.position_of(name) {
            Some(i) => {
                let ghost pre = self.names@;
                let _removed = self.names.remove(i);
                proof {
                    let post = self.names@;
                    assert(post == pre.remove(i as int));
                    assert forall|k: int| 0 <= k < post.len() implies #[trigger] post[k]
                        == if k < i { pre[k] } else { pre[k + 1] } by {}
                    assert(name_set(post) =~= name_set(pre).remove(name@)) by {
                        assert forall|n: Seq<char>|
                            name_set(post).contains(n)
                                <==> name_set(pre).remove(name@).contains(n) by {
                            if name_set(post).contains(n) {
                                let k = choose|k: int| 0 <= k < post.len() && post[k]@ == n;
                                let k0 = if k < i { k } else { k + 1 };
                                assert(pre[k0]@ == n);
                                assert(name_set(pre).contains(n));
                                // the removed entry is the only occurrence of `name`
                                assert(k0 != i);
                                assert(pre[i as int]@ == name@);
                                assert(n != name@);
                            }
                            if name_set(pre).remove(name@).contains(n) {
                                let k0 = choose|k0: int| 0 <= k0 < pre.len() && pre[k0]@ == n;
                                assert(n != name@);
                                assert(k0 != i);
                                let k = if k0 < i { k0 } else { k0 - 1 };
                                assert(post[k]@ == n);
                                assert(name_set(post).contains(n));
                            }
                        }
                    }
                }
            },
            None => {
                proof {
                    assert(final(self)@ =~= after_release(old(self)@, name@));
                }
            },
        }
    }
}

/// Number of successful claims among `k` consecutive `try_claim(n)` steps
/// starting from the claimed set `s`, with no intervening release.
pub open spec fn claim_successes(s: Set<Seq<char>>, n: Seq<char>, k: nat) -> nat
    decreases k,
{
    if k == 0 {
        0
    } else {
        (if claim_succeeds(s, n) {
            1nat
        } else {
            0nat
        }) + claim_successes(after_claim(s, n), n, (k - 1) as nat)
    }
}

/// Law: while `n` is held, no `try_claim(n)` succeeds.
pub proof fn lemma_no_claim_while_held(s: Set<Seq<char>>, n: Seq<char>, k: nat)
    requires
        s.contains(n),
    ensures
        claim_successes(s, n, k) == 0,
    decreases k,
{
    if k > 0 {
        lemma_no_claim_while_held(after_claim(s, n), n, (k - 1) as nat);
    }
}

/// Law: of any sequence of `try_claim(n)` steps for one free name `n`,
/// exactly one succeeds — the first — and every later one observes `false`.
pub proof fn lemma_exactly_one_claim(s: Set<Seq<char>>, n: Seq<char>, k: nat)
    requires
        !s.contains(n),
        k >= 1,
    ensures
        claim_successes(s, n, k) == 1,
{
    lemma_no_claim_while_held(after_claim(s, n), n, (k - 1) as nat);
}

/// Law: after a `release(n)`, a subsequent `try_claim(n)` succeeds.
pub proof fn lemma_claim_after_release(s: Set<Seq<char>>, n: Seq<char>)
    ensures
        claim_succeeds(after_release(s, n), n),
{
}

} // verus!
