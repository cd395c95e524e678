//! The request-deduplication guard: remembers recently seen request
//! identifiers and rejects a repeat within the time window.
//!
//! The caller supplies the clock reading; the guard itself is a pure data
//! structure, so everything it decides is verified for every clock value.

use vstd::prelude::*;

verus! {

/// One remembered request identifier and when it was seen.
pub struct GuardEntry {
    pub id: String,
    pub seen_at: i64,
}

/// Ghost model of one guard entry.
#[verifier::ext_equal]
pub ghost struct GuardEntryModel {
    pub id: Seq<char>,
    pub seen_at: int,
}

impl View for GuardEntry {
    type V = GuardEntryModel;

    open spec fn view(&self) -> GuardEntryModel {
        GuardEntryModel { id: self.id@, seen_at: self.seen_at as int }
    }
}

/// What the guard answers for one request identifier.
#[derive(Debug, PartialEq, Eq, Structural)]
pub enum GuardOutcome {
    /// The identifier was already seen within the window.
    Duplicate,
    /// The identifier was fresh and is now registered.
    Accepted,
}

/// The models of a sequence of guard entries.
pub open spec fn views_of_entries(v: Seq<GuardEntry>) -> Seq<GuardEntryModel> {
    v.map_values(|e: GuardEntry| e@)
}

/// The entries still alive after a cutoff instant: those seen after it, in
/// their original order.
pub open spec fn live_entries(es: Seq<GuardEntryModel>, cutoff: int) -> Seq<GuardEntryModel>
    decreases es.len(),
{
    if es.len() == 0 {
        Seq::<GuardEntryModel>::empty()
    } else if es.last().seen_at > cutoff {
        live_entries(es.drop_last(), cutoff).push(es.last())
    } else {
        live_entries(es.drop_last(), cutoff)
    }
}

/// Whether an identifier is among the live entries.
pub open spec fn id_is_live(es: Seq<GuardEntryModel>, cutoff: int, id: Seq<char>) -> bool {
    exists|i: int|
        0 <= i < live_entries(es, cutoff).len() && (#[trigger] live_entries(es, cutoff)[i]).id
            == id
}

/// The request-deduplication guard.
pub struct RequestGuard {
    pub entries: Vec<GuardEntry>,
}

impl RequestGuard {
    /// A guard with nothing remembered yet.
    pub fn new() -> (g: RequestGuard)
        ensures
            views_of_entries(g.entries@) == Seq::<GuardEntryModel>::empty(),
    {
        let g = RequestGuard { entries: Vec::new() };
        proof {
            assert(views_of_entries(g.entries@) =~= Seq::<GuardEntryModel>::empty());
        }
        g
    }

    /// Checks a request identifier against the window and registers it when
    /// it is fresh. Entries older than `now - ttl` are dropped either way;
    /// the answer is `Duplicate` exactly when the identifier is still alive.
    pub fn check_and_register(&mut self, id: String, now: i64, ttl: i64) -> (r: GuardOutcome)
        requires
            0 <= ttl,
            i64::MIN + ttl <= now,
        ensures
            ({
                let cutoff = now - ttl;
                let live = live_entries(views_of_entries(old(self).entries@), cutoff);
                &&& (r == GuardOutcome::Duplicate <==> id_is_live(
                    views_of_entries(old(self).entries@),
                    cutoff,
                    id@,
                ))
                &&& (r == GuardOutcome::Duplicate ==> views_of_entries(final(self).entries@)
                    == live)
                &&& (r == GuardOutcome::Accepted ==> views_of_entries(final(self).entries@)
                    == live.push(GuardEntryModel { id: id@, seen_at: now as int }))
            }),
    {
        let cutoff: i64 = now - ttl;
        let ghost pre = views_of_entries(self.entries@);
        let n = self.entries.len();
        let mut kept: Vec<GuardEntry> = Vec::new();
        proof {
            assert(pre.take(0) =~= Seq::<GuardEntryModel>::empty());
            assert(views_of_entries(kept@) =~= live_entries(pre.take(0), cutoff as int));
        }
        let mut i: usize = 0;
        while i < n
            invariant
                n == self.entries@.len(),
                pre == views_of_entries(self.entries@),
                i <= n,
                views_of_entries(kept@) == live_entries(pre.take(i as int), cutoff as int),
            decreases n - i,
        {
            proof {
                assert(pre[i as int] == self.entries@[i as int]@);
                assert(pre.take(i + 1).drop_last() =~= pre.take(i as int));
                assert(pre.take(i + 1).last() == pre[i as int]);
            }
            let e = &self.entries[i];
            if e.seen_at > cutoff {
                let copy = GuardEntry { id: e.id.clone(), seen_at: e.seen_at };
                proof {
                    assert(copy@ == pre[i as int]);
                }
                kept.push(copy);
                proof {
                    assert(views_of_entries(kept@) =~= live_entries(
                        pre.take(i + 1),
                        cutoff as int,
                    ));
                }
            }
            i += 1;
        }
        proof {
            assert(pre.take(n as int) =~= pre);
        }
        let ghost live = live_entries(pre, cutoff as int);
        let m = kept.len();
        let mut j: usize = 0;
        let mut found = false;
        while j < m
            invariant
                m == kept@.len(),
                pre == views_of_entries(old(self).entries@),
                cutoff as int == now - ttl,
                live == live_entries(pre, cutoff as int),
                live == views_of_entries(kept@),
                j <= m,
                !found,
                forall|k: int| 0 <= k < j ==> (#[trigger] live[k]).id != id@,
            decreases m - j,
        {
            proof {
                assert(live[j as int] == kept@[j as int]@);
            }
            if kept[j].id == id {
                proof {
                    assert(live[j as int].id == id@);
                    assert(id_is_live(pre, cutoff as int, id@));
                }
                self.entries = kept;
                proof {
                    assert(views_of_entries(self.entries@) == live);
                    assert(cutoff as int == now - ttl);
                }
                return GuardOutcome::Duplicate;
            }
            j += 1;
        }
        proof {
            assert(forall|k: int| 0 <= k < live.len() ==> (#[trigger] live[k]).id != id@);
        }
        let fresh = GuardEntry { id: id, seen_at: now };
        kept.push(fresh);
        proof {
            assert(views_of_entries(kept@) =~= live.push(
                GuardEntryModel { id: fresh.id@, seen_at: now as int },
            ));
        }
        self.entries = kept;
        GuardOutcome::Accepted
    }
}

} // verus!
