//! Line-item aggregation: collapsing expense lines into one summary per
//! unique participant name, and the reimbursement ledger bookkeeping.
//!
//! The model keeps summaries in first-appearance order; the final sort fixes
//! the presentation order, so any stable order works here. A `paid_by`
//! reference may name a participant that only appears later in the input (or
//! never appears as an owner); such a payer gets a summary of its own the
//! moment the reference is seen.

use vstd::prelude::*;
use crate::models::{
    LineModel, Person, PersonSummary, SummaryModel, empty_summary, line_spend, line_total,
    lines_valid, views_of_people, views_of_summaries, LINE_LIMIT,
};
use crate::sums::{
    all_bounded, lemma_aggregate_bounded, lemma_line_spend_bound, lemma_summary_field_caps,
};

verus! {

/// Index of the first summary carrying `name`, or `-1` when there is none.
pub open spec fn find_summary(ss: Seq<SummaryModel>, name: Seq<char>) -> int
    decreases ss.len(),
{
    if ss.len() == 0 {
        -1
    } else if ss[0].name == name {
        0
    } else {
        let r = find_summary(ss.drop_first(), name);
        if r < 0 {
            -1
        } else {
            r + 1
        }
    }
}

/// What [`find_summary`] returns: the first index with the name, or `-1`.
pub proof fn lemma_find_summary(ss: Seq<SummaryModel>, name: Seq<char>)
    ensures
        find_summary(ss, name) == -1 || 0 <= find_summary(ss, name) < ss.len(),
        find_summary(ss, name) == -1 ==> forall|i: int|
            0 <= i < ss.len() ==> (#[trigger] ss[i]).name != name,
        find_summary(ss, name) >= 0 ==> ss[find_summary(ss, name)].name == name,
        find_summary(ss, name) >= 0 ==> forall|i: int|
            0 <= i < find_summary(ss, name) ==> (#[trigger] ss[i]).name != name,
    decreases ss.len(),
{
    if ss.len() == 0 {
    } else if ss[0].name == name {
    } else {
        lemma_find_summary(ss.drop_first(), name);
        assert(forall|i: int|
            1 <= i < ss.len() ==> #[trigger] ss[i] == ss.drop_first()[i - 1]);
    }
}

/// The summaries extended, if needed, with a fresh summary for `name`.
pub open spec fn ensure_summary(ss: Seq<SummaryModel>, name: Seq<char>) -> Seq<SummaryModel> {
    if find_summary(ss, name) >= 0 {
        ss
    } else {
        ss.push(empty_summary(name))
    }
}

/// The index of `name` after [`ensure_summary`].
pub open spec fn summary_slot(ss: Seq<SummaryModel>, name: Seq<char>) -> int {
    if find_summary(ss, name) >= 0 {
        find_summary(ss, name)
    } else {
        ss.len() as int
    }
}

/// After [`ensure_summary`], the slot of `name` is in range, carries `name`,
/// and is what [`find_summary`] reports.
pub proof fn lemma_ensure_summary(ss: Seq<SummaryModel>, name: Seq<char>)
    ensures
        ({
            let ss1 = ensure_summary(ss, name);
            let i = summary_slot(ss, name);
            &&& 0 <= i < ss1.len()
            &&& ss1[i].name == name
            &&& i == find_summary(ss1, name)
            &&& ss1.len() == if find_summary(ss, name) >= 0 {
                ss.len() as int
            } else {
                ss.len() + 1int
            }
            &&& forall|j: int| 0 <= j < ss.len() ==> ss1[j] == ss[j]
        }),
{
    lemma_find_summary(ss, name);
    if find_summary(ss, name) < 0 {
        let ss1 = ss.push(empty_summary(name));
        lemma_find_first(ss1, name, ss.len() as int);
    }
}

/// If `name` first occurs at index `k`, then [`find_summary`] returns `k`.
pub proof fn lemma_find_first(ss: Seq<SummaryModel>, name: Seq<char>, k: int)
    requires
        0 <= k < ss.len(),
        ss[k].name == name,
        forall|i: int| 0 <= i < k ==> (#[trigger] ss[i]).name != name,
    ensures
        find_summary(ss, name) == k,
    decreases ss.len(),
{
    if k == 0 {
    } else {
        assert(forall|i: int|
            1 <= i < ss.len() ==> #[trigger] ss[i] == ss.drop_first()[i - 1]);
        lemma_find_first(ss.drop_first(), name, k - 1);
    }
}

/// The sticky flags and the sponsorship accumulation of one line.
pub open spec fn apply_flags(s: SummaryModel, l: LineModel) -> SummaryModel {
    SummaryModel {
        sponsor_amount: s.sponsor_amount + l.sponsor_amount,
        is_sponsor: s.is_sponsor || l.is_sponsor,
        is_receiver: s.is_receiver || l.is_receiver,
        ..s
    }
}

/// The expense accumulation of one line on its owner's summary.
pub open spec fn apply_expense(s: SummaryModel, l: LineModel) -> SummaryModel {
    match l.paid_by {
        Option::None => SummaryModel {
            amount_spent: s.amount_spent + line_spend(l),
            tip: s.tip + l.tip,
            ..s
        },
        Option::Some(payer) => if payer == l.name {
            SummaryModel {
                delegated_self: s.delegated_self + line_total(l),
                amount_spent: s.amount_spent + line_spend(l),
                tip: s.tip + l.tip,
                ..s
            }
        } else {
            SummaryModel {
                will_receive_from_others: s.will_receive_from_others + line_total(l),
                ..s
            }
        },
    }
}

/// The complete effect of one line on its owner's summary.
pub open spec fn owner_update(s: SummaryModel, l: LineModel) -> SummaryModel {
    apply_expense(apply_flags(s, l), l)
}

/// The effect of one reimbursable line on the designated payer's summary.
pub open spec fn payer_update(s: SummaryModel, amount: int) -> SummaryModel {
    SummaryModel { owes_to_others: s.owes_to_others + amount, ..s }
}

/// One step of aggregation: fold one line into the summaries.
pub open spec fn apply_line(ss: Seq<SummaryModel>, l: LineModel) -> Seq<SummaryModel> {
    let ss1 = ensure_summary(ss, l.name);
    let i = summary_slot(ss, l.name);
    let ss2 = ss1.update(i, owner_update(ss1[i], l));
    match l.paid_by {
        Option::None => ss2,
        Option::Some(payer) => if payer == l.name {
            ss2
        } else {
            let ss3 = ensure_summary(ss2, payer);
            let j = summary_slot(ss2, payer);
            ss3.update(j, payer_update(ss3[j], line_total(l)))
        },
    }
}

/// The aggregation of a whole input: one summary per unique name, in order
/// of first appearance.
pub open spec fn aggregate(lines: Seq<LineModel>) -> Seq<SummaryModel>
    decreases lines.len(),
{
    if lines.len() == 0 {
        Seq::<SummaryModel>::empty()
    } else {
        apply_line(aggregate(lines.drop_last()), lines.last())
    }
}

/// No two summaries carry the same name.
pub open spec fn names_distinct(ss: Seq<SummaryModel>) -> bool {
    forall|i: int, j: int|
        0 <= i < j < ss.len() ==> (#[trigger] ss[i]).name != (#[trigger] ss[j]).name
}

/// One aggregation step keeps names distinct and never renames a summary.
pub proof fn lemma_apply_line_distinct(ss: Seq<SummaryModel>, l: LineModel)
    requires
        names_distinct(ss),
    ensures
        names_distinct(apply_line(ss, l)),
        ss.len() <= apply_line(ss, l).len(),
    decreases 0int,
{
    lemma_ensure_distinct(ss, l.name);
    let ss1 = ensure_summary(ss, l.name);
    let i = summary_slot(ss, l.name);
    lemma_ensure_summary(ss, l.name);
    let ss2 = ss1.update(i, owner_update(ss1[i], l));
    assert(names_distinct(ss2));
    match l.paid_by {
        Option::None => {},
        Option::Some(payer) => if payer == l.name {
        } else {
            lemma_ensure_distinct(ss2, payer);
            lemma_ensure_summary(ss2, payer);
        },
    }
}

/// Extending with a fresh name keeps names distinct.
pub proof fn lemma_ensure_distinct(ss: Seq<SummaryModel>, name: Seq<char>)
    requires
        names_distinct(ss),
    ensures
        names_distinct(ensure_summary(ss, name)),
{
    lemma_find_summary(ss, name);
}

/// The aggregation of any input has pairwise distinct names.
pub proof fn lemma_aggregate_distinct(lines: Seq<LineModel>)
    ensures
        names_distinct(aggregate(lines)),
    decreases lines.len(),
{
    if lines.len() == 0 {
    } else {
        lemma_aggregate_distinct(lines.drop_last());
        lemma_apply_line_distinct(aggregate(lines.drop_last()), lines.last());
    }
}

/// A name takes part in the input: as a line's owner, or as the designated
/// payer of a reimbursable line.
pub open spec fn name_appears(lines: Seq<LineModel>, name: Seq<char>) -> bool {
    exists|i: int|
        0 <= i < lines.len() && ((#[trigger] lines[i]).name == name || lines[i].paid_by
            == Option::Some(name))
}

/// One aggregation step keeps every existing name in place and only ever
/// adds the line's owner and its designated payer.
pub proof fn lemma_apply_line_names(ss: Seq<SummaryModel>, l: LineModel)
    ensures
        ss.len() <= apply_line(ss, l).len(),
        forall|j: int|
            0 <= j < ss.len() ==> (#[trigger] apply_line(ss, l)[j]).name == ss[j].name,
        forall|k: int|
            ss.len() <= k < apply_line(ss, l).len() ==> ((#[trigger] apply_line(ss, l)[k]).name
                == l.name || l.paid_by == Option::Some(apply_line(ss, l)[k].name)),
        exists|k: int|
            0 <= k < apply_line(ss, l).len() && (#[trigger] apply_line(ss, l)[k]).name == l.name,
        forall|py: Seq<char>|
            l.paid_by == Option::Some(py) ==> exists|k: int|
                0 <= k < apply_line(ss, l).len() && (#[trigger] apply_line(ss, l)[k]).name == py,
{
    let ss1 = ensure_summary(ss, l.name);
    let i = summary_slot(ss, l.name);
    lemma_ensure_summary(ss, l.name);
    let ss2 = ss1.update(i, owner_update(ss1[i], l));
    assert(ss2[i].name == l.name);
    assert(forall|j: int| 0 <= j < ss.len() ==> (#[trigger] ss2[j]).name == ss[j].name);
    match l.paid_by {
        Option::None => {},
        Option::Some(payer) => if payer == l.name {
        } else {
            let ss3 = ensure_summary(ss2, payer);
            let j = summary_slot(ss2, payer);
            lemma_ensure_summary(ss2, payer);
            let fin = ss3.update(j, payer_update(ss3[j], line_total(l)));
            assert(fin[j].name == payer);
            assert(forall|k: int| 0 <= k < ss2.len() && k != j ==> fin[k] == ss2[k]);
            assert(fin[i].name == l.name);
        },
    }
}

/// The aggregation holds exactly the names that take part in the input: one
/// summary for every owner or payer named by some line, and nothing else.
pub proof fn lemma_aggregate_names(lines: Seq<LineModel>)
    ensures
        forall|k: int|
            0 <= k < aggregate(lines).len() ==> name_appears(
                lines,
                (#[trigger] aggregate(lines)[k]).name,
            ),
        forall|name: Seq<char>|
            #[trigger] name_appears(lines, name) ==> exists|k: int|
                0 <= k < aggregate(lines).len() && (#[trigger] aggregate(lines)[k]).name == name,
    decreases lines.len(),
{
    if lines.len() == 0 {
    } else {
        let pre = lines.drop_last();
        let l = lines.last();
        let ss = aggregate(pre);
        let fin = aggregate(lines);
        lemma_aggregate_names(pre);
        lemma_apply_line_names(ss, l);
        assert(forall|i: int| 0 <= i < pre.len() ==> pre[i] == #[trigger] lines[i]);
        assert(l == lines[lines.len() - 1]);
        assert forall|k: int| 0 <= k < fin.len() implies name_appears(
            lines,
            (#[trigger] fin[k]).name,
        ) by {
            if k < ss.len() {
                assert(fin[k].name == ss[k].name);
                assert(name_appears(pre, ss[k].name));
                let w = choose|i: int|
                    0 <= i < pre.len() && ((#[trigger] pre[i]).name == ss[k].name || pre[i].paid_by
                        == Option::Some(ss[k].name));
                assert(lines[w].name == fin[k].name || lines[w].paid_by == Option::Some(
                    fin[k].name,
                ));
            } else {
                assert(fin[k].name == l.name || l.paid_by == Option::Some(fin[k].name));
                assert(lines[lines.len() - 1].name == fin[k].name || lines[lines.len()
                    - 1].paid_by == Option::Some(fin[k].name));
            }
        }
        assert forall|name: Seq<char>| #[trigger] name_appears(lines, name) implies exists|k: int|
            0 <= k < fin.len() && (#[trigger] fin[k]).name == name by {
            let w = choose|i: int|
                0 <= i < lines.len() && ((#[trigger] lines[i]).name == name || lines[i].paid_by
                    == Option::Some(name));
            if w < lines.len() - 1 {
                assert(name_appears(pre, name));
                let k = choose|k: int| 0 <= k < ss.len() && (#[trigger] ss[k]).name == name;
                assert(fin[k].name == name);
            } else {
                if l.name == name {
                    let k = choose|k: int|
                        0 <= k < fin.len() && (#[trigger] fin[k]).name == l.name;
                    assert(fin[k].name == name);
                } else {
                    assert(l.paid_by == Option::Some(name));
                    let k = choose|k: int|
                        0 <= k < fin.len() && (#[trigger] fin[k]).name == name;
                    assert(fin[k].name == name);
                }
            }
        }
    }
}

/// One aggregation step grows the summaries by at most two entries.
pub proof fn lemma_apply_line_len(ss: Seq<SummaryModel>, l: LineModel)
    ensures
        apply_line(ss, l).len() <= ss.len() + 2,
        ss.len() <= apply_line(ss, l).len(),
{
    lemma_ensure_summary(ss, l.name);
    let ss1 = ensure_summary(ss, l.name);
    let i = summary_slot(ss, l.name);
    let ss2 = ss1.update(i, owner_update(ss1[i], l));
    match l.paid_by {
        Option::None => {},
        Option::Some(payer) => if payer == l.name {
        } else {
            lemma_ensure_summary(ss2, payer);
        },
    }
}

/// The aggregation has at most two summaries per input line.
pub proof fn lemma_aggregate_len(lines: Seq<LineModel>)
    ensures
        aggregate(lines).len() <= 2 * lines.len(),
    decreases lines.len(),
{
    if lines.len() == 0 {
    } else {
        lemma_aggregate_len(lines.drop_last());
        lemma_apply_line_len(aggregate(lines.drop_last()), lines.last());
    }
}

/// Finds the summary carrying `name`, creating a fresh one at the end when
/// there is none yet, and returns its index.
fn find_or_create(summaries: &mut Vec<PersonSummary>, name: &String) -> (i: usize)
    ensures
        views_of_summaries(final(summaries)@) == ensure_summary(
            views_of_summaries(old(summaries)@),
            name@,
        ),
        i as int == summary_slot(views_of_summaries(old(summaries)@), name@),
        i < final(summaries)@.len(),
        final(summaries)@.len() <= old(summaries)@.len() + 1,
{
    let ghost pre = views_of_summaries(old(summaries)@);
    let n = summaries.len();
    let mut k: usize = 0;
    while k < n
        invariant
            summaries@ == old(summaries)@,
            n == summaries@.len(),
            pre == views_of_summaries(summaries@),
            k <= n,
            forall|j: int| 0 <= j < k ==> (#[trigger] pre[j]).name != name@,
        decreases n - k,
    {
        proof {
            assert(pre[k as int] == summaries@[k as int]@);
        }
        if summaries[k].name == *name {
            proof {
                lemma_find_first(pre, name@, k as int);
            }
            return k;
        }
        k += 1;
    }
    proof {
        lemma_find_summary(pre, name@);
        if find_summary(pre, name@) >= 0 {
            assert(pre[find_summary(pre, name@)].name == name@);
            assert(false);
        }
    }
    let fresh = PersonSummary {
        name: name.clone(),
        amount_spent: 0,
        tip: 0,
        sponsor_amount: 0,
        is_sponsor: false,
        is_receiver: false,
        will_receive_from_others: 0,
        owes_to_others: 0,
        delegated_self: 0,
    };
    summaries.push(fresh);
    proof {
        assert(views_of_summaries(summaries@) =~= pre.push(empty_summary(name@)));
    }
    n
}

/// Folds one expense line into the summaries, performing exactly one
/// aggregation step of the model.
#[verifier::rlimit(100)]
fn fold_line(summaries: &mut Vec<PersonSummary>, p: &Person, Ghost(n_seen): Ghost<int>)
    requires
        crate::sums::all_bounded(views_of_summaries(old(summaries)@), n_seen),
        0 <= n_seen < LINE_LIMIT,
        crate::models::line_valid(p@),
    ensures
        views_of_summaries(final(summaries)@) == apply_line(
            views_of_summaries(old(summaries)@),
            p@,
        ),
{
    let ghost pre = views_of_summaries(old(summaries)@);
    let ghost l = p@;
    proof {
        lemma_line_spend_bound(l);
    }
    let spend: i128 = p.amount_spent * (p.quantity as i128);
    let total: i128 = spend + p.tip;
    proof {
        assert(spend == line_spend(l));
        assert(total == line_total(l));
    }
    let oi = find_or_create(summaries, &p.name);
    let ghost ss1 = ensure_summary(pre, l.name);
    let ghost oslot = summary_slot(pre, l.name);
    proof {
        lemma_ensure_summary(pre, l.name);
        assert(oi as int == oslot);
        if oslot < pre.len() {
            assert(ss1[oslot] == pre[oslot]);
            assert(crate::sums::summary_bounded(ss1[oslot], n_seen));
        } else {
            assert(ss1[oslot] == empty_summary(l.name));
            crate::sums::lemma_bounded_mono(ss1[oslot], 0, n_seen);
        }
        lemma_summary_field_caps(ss1[oslot], n_seen);
    }
    let mut e = summaries.remove(oi);
    proof {
        assert(e@ == ss1[oslot]);
    }
    e.sponsor_amount = e.sponsor_amount + p.sponsor_amount;
    if p.is_sponsor {
        e.is_sponsor = true;
    }
    if p.is_receiver {
        e.is_receiver = true;
    }
    proof {
        assert(e@ =~= apply_flags(ss1[oslot], l));
    }
    let ghost flagged = apply_flags(ss1[oslot], l);
    let mut payer_name: Option<&String> = Option::None;
    match &p.paid_by {
        Option::None => {
            e.amount_spent = e.amount_spent + spend;
            e.tip = e.tip + p.tip;
            proof {
                assert(l.paid_by is None);
                assert(e@ =~= apply_expense(flagged, l));
            }
        },
        Option::Some(py) => {
            if *py == p.name {
                e.delegated_self = e.delegated_self + total;
                e.amount_spent = e.amount_spent + spend;
                e.tip = e.tip + p.tip;
                proof {
                    assert(p.paid_by is Some);
                    assert(*py == p.paid_by->Some_0);
                    assert(py@ == l.name);
                    assert(l.paid_by == Option::Some(py@));
                    assert(e@ =~= apply_expense(flagged, l));
                }
            } else {
                e.will_receive_from_others = e.will_receive_from_others + total;
                payer_name = Option::Some(py);
                proof {
                    assert(p.paid_by is Some);
                    assert(*py == p.paid_by->Some_0);
                    assert(py@ != l.name);
                    assert(l.paid_by == Option::Some(py@));
                    assert(e@ =~= apply_expense(flagged, l));
                }
            }
        },
    }
    proof {
        assert(e@ == owner_update(ss1[oslot], l));
    }
    summaries.insert(oi, e);
    let ghost ss2 = ss1.update(oslot, owner_update(ss1[oslot], l));
    proof {
        assert(views_of_summaries(summaries@) =~= ss2);
    }
    match payer_name {
        Option::None => {
            proof {
                assert(views_of_summaries(summaries@) == apply_line(pre, l));
            }
        },
        Option::Some(py) => {
            let pj = find_or_create(summaries, py);
            let ghost ss3 = ensure_summary(ss2, py@);
            let ghost pslot = summary_slot(ss2, py@);
            proof {
                lemma_ensure_summary(ss2, py@);
                assert(pj as int == pslot);
                assert(ss3[pslot].name == py@);
                if pslot < ss2.len() {
                    assert(ss3[pslot] == ss2[pslot]);
                    assert(pslot != oslot);
                    assert(ss2[pslot] == ss1[pslot]);
                    if pslot < pre.len() {
                        assert(ss1[pslot] == pre[pslot]);
                        assert(crate::sums::summary_bounded(ss3[pslot], n_seen));
                    } else {
                        assert(ss1[pslot] == empty_summary(l.name));
                        crate::sums::lemma_bounded_mono(ss3[pslot], 0, n_seen);
                    }
                } else {
                    assert(ss3[pslot] == empty_summary(py@));
                    crate::sums::lemma_bounded_mono(ss3[pslot], 0, n_seen);
                }
                lemma_summary_field_caps(ss3[pslot], n_seen);
            }
            let mut pe = summaries.remove(pj);
            proof {
                assert(pe@ == ss3[pslot]);
            }
            pe.owes_to_others = pe.owes_to_others + total;
            proof {
                assert(pe@ =~= payer_update(ss3[pslot], line_total(l)));
            }
            summaries.insert(pj, pe);
            proof {
                assert(views_of_summaries(summaries@) =~= ss3.update(
                    pslot,
                    payer_update(ss3[pslot], line_total(l)),
                ));
                assert(views_of_summaries(summaries@) == apply_line(pre, l));
            }
        },
    }
}

/// Aggregates the expense lines: one summary per unique name, in order of
/// first appearance, with the reimbursement ledger filled in.
pub fn aggregate_people(people: &Vec<Person>) -> (summaries: Vec<PersonSummary>)
    requires
        people@.len() <= LINE_LIMIT,
        lines_valid(views_of_people(people@)),
    ensures
        views_of_summaries(summaries@) == aggregate(views_of_people(people@)),
{
    let ghost lines = views_of_people(people@);
    let mut summaries: Vec<PersonSummary> = Vec::new();
    let n = people.len();
    proof {
        assert(lines.take(0) =~= Seq::<LineModel>::empty());
        assert(views_of_summaries(summaries@) =~= aggregate(lines.take(0)));
    }
    let mut idx: usize = 0;
    while idx < n
        invariant
            n == people@.len(),
            lines == views_of_people(people@),
            lines.len() == n,
            n <= LINE_LIMIT,
            lines_valid(lines),
            idx <= n,
            views_of_summaries(summaries@) == aggregate(lines.take(idx as int)),
        decreases n - idx,
    {
        let ghost pre = views_of_summaries(summaries@);
        let ghost l = lines[idx as int];
        proof {
            assert(l == people@[idx as int]@);
            assert(forall|j: int|
                0 <= j < idx ==> #[trigger] lines.take(idx as int)[j] == lines[j]);
            assert(lines_valid(lines.take(idx as int)));
            lemma_aggregate_bounded(lines.take(idx as int));
        }
        let p = &people[idx];
        fold_line(&mut summaries, p, Ghost(idx as int));
        proof {
            assert(lines.take(idx + 1).drop_last() =~= lines.take(idx as int));
            assert(lines.take(idx + 1).last() == l);
            assert(aggregate(lines.take(idx + 1)) == apply_line(pre, l));
        }
        idx += 1;
    }
    proof {
        assert(lines.take(n as int) =~= lines);
    }
    summaries
}

} // verus!