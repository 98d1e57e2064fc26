//! Per-domain mutual exclusion for issuance runs. The manager keeps the set
//! of domains with an issuance in flight; an attempt to start a second run
//! for a held domain is refused with a busy answer rather than queued.
//! Different domains are fully independent. The surrounding application
//! guards a `DomainLocks` value with its own mutex; every state change goes
//! through the contracts here.

use vstd::prelude::*;
use vstd::string::StringExecFns;

verus! {

/// The set of domains whose issuance is in flight.
pub struct DomainLocks {
    busy: Vec<String>,
}

impl DomainLocks {
    /// The names currently held.
    pub closed spec fn held(&self) -> Set<Seq<char>> {
        Set::new(|x: Seq<char>| exists|i: int| 0 <= i < self.busy@.len() && self.busy@[i]@ == x)
    }

    /// Internally each held name appears once.
    pub closed spec fn wf(&self) -> bool {
        forall|i: int, j: int|
            0 <= i < j < self.busy@.len() ==> self.busy@[i]@ != self.busy@[j]@
    }

    /// An empty lock table: no domain is held.
    pub fn new() -> (r: DomainLocks)
        ensures
            r.wf(),
            r.held() == Set::<Seq<char>>::empty(),
    {
        let r = DomainLocks { busy: Vec::new() };
        proof {
            assert(r.held() =~= Set::<Seq<char>>::empty());
        }
        r
    }

    /// The index of `name` among the held names, if held.
    fn find(&self, name: &String) -> (r: Option<usize>)
        ensures
            r is Some <==> self.held().contains(name@),
            r matches Some(i) ==> i < self.busy@.len() && self.busy@[i as int]@ == name@,
    {
        let mut i: usize = 0;
        while i < self.busy.len()
            invariant
                0 <= i <= self.busy.len(),
                forall|j: int| 0 <= j < i as int ==> self.busy@[j]@ != name@,
            decreases self.busy.len() - i,
        {
            if self.busy[i] == *name {
                return Some(i);
            }
            i = i + 1;
        }
        proof {
            assert(!self.held().contains(name@));
        }
        None
    }

    /// Tries to start an issuance run for `name`. Succeeds, marking the
    /// domain held, exactly when no run for that domain is in flight;
    /// otherwise refuses and changes nothing, so two runs for one domain
    /// can never be live at once.
    pub fn try_acquire(&mut self, name: &str) -> (r: bool)
        requires
            old(self).wf(),
        ensures
            final(self).wf(),
            r == !old(self).held().contains(name@),
            r ==> final(self).held() == old(self).held().insert(name@),
            !r ==> *final(self) == *old(self),
    {
        let owned = String::from_str(name);
        match self.find(&owned) {
            Some(_) => false,
            None => {
                let ghost old_busy = self.busy@;
                self.busy.push(owned);
                proof {
                    assert(self.busy@ =~= old_busy.push(owned));
                    assert forall|x: Seq<char>| #[trigger] self.held().contains(x) implies (old(
                        self,
                    ).held().contains(x) || x == name@) by {
                        let i = choose|i: int|
                            0 <= i < self.busy@.len() && self.busy@[i]@ == x;
                        if i < old_busy.len() {
                            assert(old_busy[i]@ == x);
                        }
                    }
                    assert forall|x: Seq<char>|
                        old(self).held().contains(x) implies #[trigger] self.held().contains(
                        x,
                    ) by {
                        let i = choose|i: int| 0 <= i < old_busy.len() && old_busy[i]@ == x;
                        assert(self.busy@[i]@ == x);
                    }
                    assert(self.busy@[old_busy.len() as int]@ == name@);
                    assert(self.held().contains(name@));
                    assert(self.held() =~= old(self).held().insert(name@));
                }
                true
            },
        }
    }

    /// Ends the issuance run for `name`: the domain is no longer held.
    pub fn release(&mut self, name: &str)
        requires
            old(self).wf(),
        ensures
            final(self).wf(),
            final(self).held() == old(self).held().remove(name@),
    {
        let owned = String::from_str(name);
        match self.find(&owned) {
            None => {
                proof {
                    assert(self.held() =~= old(self).held().remove(name@));
                }
            },
            Some(i) => {
                let ghost old_busy = self.busy@;
                self.busy.remove(i);
                proof {
                    assert(self.busy@ =~= old_busy.subrange(0, i as int) + old_busy.subrange(
                        i as int + 1,
                        old_busy.len() as int,
                    ));
                    assert forall|k: int, l: int|
                        0 <= k < l < self.busy@.len() implies self.busy@[k]@ != self.busy@[l]@ by {
                        let ko: int = if k < i as int {
                            k
                        } else {
                            k + 1
                        };
                        let lo: int = if l < i as int {
                            l
                        } else {
                            l + 1
                        };
                        assert(self.busy@[k]@ == old_busy[ko]@);
                        assert(self.busy@[l]@ == old_busy[lo]@);
                    }
                    assert forall|x: Seq<char>| #[trigger] self.held().contains(x) implies (old(
                        self,
                    ).held().contains(x) && x != name@) by {
                        let k = choose|k: int|
                            0 <= k < self.busy@.len() && self.busy@[k]@ == x;
                        let ko: int = if k < i as int {
                            k
                        } else {
                            k + 1
                        };
                        assert(old_busy[ko]@ == x);
                        assert(old_busy[i as int]@ == name@);
                    }
                    assert forall|x: Seq<char>|
                        old(self).held().contains(x) && x != name@ implies #[trigger] self.held()
                            .contains(x) by {
                        let ko = choose|ko: int| 0 <= ko < old_busy.len() && old_busy[ko]@ == x;
                        if ko < i as int {
                            assert(self.busy@[ko]@ == x);
                        } else {
                            assert(ko != i as int);
                            assert(self.busy@[ko - 1]@ == x);
                        }
                    }
                    assert(self.held() =~= old(self).held().remove(name@));
                }
            },
        }
    }
}

/// Once an issuance run for a domain has been granted, a second request for
/// the same domain is refused until the first releases it: granting adds the
/// name to the held set, and `try_acquire` grants only names outside it.
pub proof fn lemma_per_domain_exclusion(held: Set<Seq<char>>, name: Seq<char>)
    requires
        !held.contains(name),
    ensures
        held.insert(name).contains(name),
{
}

} // verus!
