//! Sums over summaries and over expense lines, and the conservation laws
//! connecting them: aggregation neither creates nor destroys money, it only
//! regroups it by participant name.

use vstd::prelude::*;
use crate::models::{
    AMOUNT_LIMIT, LineModel, SummaryModel, empty_summary, line_spend, line_total, line_valid,
};
use crate::aggregate::{
    aggregate, apply_line, ensure_summary, find_summary, lemma_ensure_summary, owner_update,
    payer_update, summary_slot,
};

verus! {

/// Largest magnitude one line can add to a summary's `amount_spent`.
pub const SPEND_STEP: i128 = AMOUNT_LIMIT * 10_000;

/// Largest magnitude one line can add to a reimbursement counter.
pub const TOTAL_STEP: i128 = SPEND_STEP + AMOUNT_LIMIT;

/// Sum of `f` over a sequence of summaries.
pub open spec fn sum_of(ss: Seq<SummaryModel>, f: spec_fn(SummaryModel) -> int) -> int
    decreases ss.len(),
{
    if ss.len() == 0 {
        0
    } else {
        sum_of(ss.drop_last(), f) + f(ss.last())
    }
}

/// Sum of `f` over a sequence of expense lines.
pub open spec fn sum_lines(ls: Seq<LineModel>, f: spec_fn(LineModel) -> int) -> int
    decreases ls.len(),
{
    if ls.len() == 0 {
        0
    } else {
        sum_lines(ls.drop_last(), f) + f(ls.last())
    }
}

/// Selects a summary's shared base spend.
pub open spec fn spent_field() -> spec_fn(SummaryModel) -> int {
    |s: SummaryModel| s.amount_spent
}

/// Selects a summary's shared explicit tip.
pub open spec fn tip_field() -> spec_fn(SummaryModel) -> int {
    |s: SummaryModel| s.tip
}

/// Selects a summary's sponsorship contribution.
pub open spec fn sponsor_field() -> spec_fn(SummaryModel) -> int {
    |s: SummaryModel| s.sponsor_amount
}

/// Selects a summary's receivable reimbursements.
pub open spec fn receive_field() -> spec_fn(SummaryModel) -> int {
    |s: SummaryModel| s.will_receive_from_others
}

/// Selects a summary's payable reimbursements.
pub open spec fn owes_field() -> spec_fn(SummaryModel) -> int {
    |s: SummaryModel| s.owes_to_others
}

/// Selects a summary's private (self-paid) amount.
pub open spec fn delegated_field() -> spec_fn(SummaryModel) -> int {
    |s: SummaryModel| s.delegated_self
}

/// Whether a line is a reimbursable expense: paid by a different participant.
pub open spec fn is_reimbursable(l: LineModel) -> bool {
    match l.paid_by {
        Option::Some(p) => p != l.name,
        Option::None => false,
    }
}

/// Whether a line is a private expense: paid by its own owner.
pub open spec fn is_private(l: LineModel) -> bool {
    match l.paid_by {
        Option::Some(p) => p == l.name,
        Option::None => false,
    }
}

/// A line's contribution to the shared base spend.
pub open spec fn shared_spend_of() -> spec_fn(LineModel) -> int {
    |l: LineModel| if is_reimbursable(l) {
        0
    } else {
        line_spend(l)
    }
}

/// A line's contribution to the shared explicit tip.
pub open spec fn shared_tip_of() -> spec_fn(LineModel) -> int {
    |l: LineModel| if is_reimbursable(l) {
        0
    } else {
        l.tip
    }
}

/// A line's sponsorship contribution.
pub open spec fn sponsor_of() -> spec_fn(LineModel) -> int {
    |l: LineModel| l.sponsor_amount
}

/// A line's contribution to the reimbursement ledger (both sides).
pub open spec fn reimbursed_of() -> spec_fn(LineModel) -> int {
    |l: LineModel| if is_reimbursable(l) {
        line_total(l)
    } else {
        0
    }
}

/// A line's contribution to the private (self-paid) pool.
pub open spec fn private_of() -> spec_fn(LineModel) -> int {
    |l: LineModel| if is_private(l) {
        line_total(l)
    } else {
        0
    }
}

/// Appending one summary adds its field to the sum.
pub proof fn lemma_sum_push(ss: Seq<SummaryModel>, x: SummaryModel, f: spec_fn(SummaryModel) -> int)
    ensures
        sum_of(ss.push(x), f) == sum_of(ss, f) + f(x),
{
    assert(ss.push(x).drop_last() =~= ss);
}

/// Replacing one summary shifts the sum by the difference at that index.
pub proof fn lemma_sum_update(
    ss: Seq<SummaryModel>,
    i: int,
    x: SummaryModel,
    f: spec_fn(SummaryModel) -> int,
)
    requires
        0 <= i < ss.len(),
    ensures
        sum_of(ss.update(i, x), f) == sum_of(ss, f) - f(ss[i]) + f(x),
    decreases ss.len(),
{
    if i == ss.len() - 1 {
        assert(ss.update(i, x).drop_last() =~= ss.drop_last());
        assert(ss.update(i, x).last() == x);
    } else {
        assert(ss.update(i, x).drop_last() =~= ss.drop_last().update(i, x));
        assert(ss.update(i, x).last() == ss.last());
        lemma_sum_update(ss.drop_last(), i, x, f);
    }
}

/// Extending with a fresh (all-zero) summary never changes a field sum.
pub proof fn lemma_sum_ensure(
    ss: Seq<SummaryModel>,
    name: Seq<char>,
    f: spec_fn(SummaryModel) -> int,
)
    requires
        f(empty_summary(name)) == 0,
    ensures
        sum_of(ensure_summary(ss, name), f) == sum_of(ss, f),
{
    if find_summary(ss, name) >= 0 {
    } else {
        lemma_sum_push(ss, empty_summary(name), f);
    }
}

/// One aggregation step adds exactly one line's contribution to each sum.
pub proof fn lemma_apply_line_sums(ss: Seq<SummaryModel>, l: LineModel)
    ensures
        sum_of(apply_line(ss, l), spent_field()) == sum_of(ss, spent_field())
            + shared_spend_of()(l),
        sum_of(apply_line(ss, l), tip_field()) == sum_of(ss, tip_field()) + shared_tip_of()(l),
        sum_of(apply_line(ss, l), sponsor_field()) == sum_of(ss, sponsor_field())
            + sponsor_of()(l),
        sum_of(apply_line(ss, l), receive_field()) == sum_of(ss, receive_field())
            + reimbursed_of()(l),
        sum_of(apply_line(ss, l), owes_field()) == sum_of(ss, owes_field())
            + reimbursed_of()(l),
        sum_of(apply_line(ss, l), delegated_field()) == sum_of(ss, delegated_field())
            + private_of()(l),
{
    let ss1 = ensure_summary(ss, l.name);
    let i = summary_slot(ss, l.name);
    lemma_ensure_summary(ss, l.name);
    let upd = owner_update(ss1[i], l);
    let ss2 = ss1.update(i, upd);
    lemma_each_sum_ensure(ss, l.name);
    lemma_sum_update(ss1, i, upd, spent_field());
    lemma_sum_update(ss1, i, upd, tip_field());
    lemma_sum_update(ss1, i, upd, sponsor_field());
    lemma_sum_update(ss1, i, upd, receive_field());
    lemma_sum_update(ss1, i, upd, owes_field());
    lemma_sum_update(ss1, i, upd, delegated_field());
    match l.paid_by {
        Option::None => {},
        Option::Some(payer) => if payer == l.name {
        } else {
            let ss3 = ensure_summary(ss2, payer);
            let j = summary_slot(ss2, payer);
            lemma_ensure_summary(ss2, payer);
            let upd2 = payer_update(ss3[j], line_total(l));
            lemma_each_sum_ensure(ss2, payer);
            lemma_sum_update(ss3, j, upd2, spent_field());
            lemma_sum_update(ss3, j, upd2, tip_field());
            lemma_sum_update(ss3, j, upd2, sponsor_field());
            lemma_sum_update(ss3, j, upd2, receive_field());
            lemma_sum_update(ss3, j, upd2, owes_field());
            lemma_sum_update(ss3, j, upd2, delegated_field());
        },
    }
}

/// [`lemma_sum_ensure`] for every field at once.
pub proof fn lemma_each_sum_ensure(ss: Seq<SummaryModel>, name: Seq<char>)
    ensures
        sum_of(ensure_summary(ss, name), spent_field()) == sum_of(ss, spent_field()),
        sum_of(ensure_summary(ss, name), tip_field()) == sum_of(ss, tip_field()),
        sum_of(ensure_summary(ss, name), sponsor_field()) == sum_of(ss, sponsor_field()),
        sum_of(ensure_summary(ss, name), receive_field()) == sum_of(ss, receive_field()),
        sum_of(ensure_summary(ss, name), owes_field()) == sum_of(ss, owes_field()),
        sum_of(ensure_summary(ss, name), delegated_field()) == sum_of(ss, delegated_field()),
{
    lemma_sum_ensure(ss, name, spent_field());
    lemma_sum_ensure(ss, name, tip_field());
    lemma_sum_ensure(ss, name, sponsor_field());
    lemma_sum_ensure(ss, name, receive_field());
    lemma_sum_ensure(ss, name, owes_field());
    lemma_sum_ensure(ss, name, delegated_field());
}

/// Conservation: each aggregated sum equals the matching sum over the input
/// lines. In particular the receivable and the payable side of the
/// reimbursement ledger are both the sum of the reimbursable line totals.
pub proof fn lemma_aggregate_sums(lines: Seq<LineModel>)
    ensures
        sum_of(aggregate(lines), spent_field()) == sum_lines(lines, shared_spend_of()),
        sum_of(aggregate(lines), tip_field()) == sum_lines(lines, shared_tip_of()),
        sum_of(aggregate(lines), sponsor_field()) == sum_lines(lines, sponsor_of()),
        sum_of(aggregate(lines), receive_field()) == sum_lines(lines, reimbursed_of()),
        sum_of(aggregate(lines), owes_field()) == sum_lines(lines, reimbursed_of()),
        sum_of(aggregate(lines), delegated_field()) == sum_lines(lines, private_of()),
    decreases lines.len(),
{
    if lines.len() == 0 {
    } else {
        lemma_aggregate_sums(lines.drop_last());
        lemma_apply_line_sums(aggregate(lines.drop_last()), lines.last());
    }
}

/// A pointwise bound on `f` gives a linear bound on its sum over lines.
pub proof fn lemma_sum_lines_bound(
    ls: Seq<LineModel>,
    f: spec_fn(LineModel) -> int,
    step: int,
)
    requires
        0 <= step,
        forall|i: int| 0 <= i < ls.len() ==> -step <= #[trigger] f(ls[i]) <= step,
    ensures
        -(ls.len() * step) <= sum_lines(ls, f) <= ls.len() * step,
    decreases ls.len(),
{
    if ls.len() == 0 {
    } else {
        lemma_sum_lines_bound(ls.drop_last(), f, step);
        assert(ls.last() == ls[ls.len() - 1]);
        assert((ls.len() - 1) * step + step == ls.len() * step) by (nonlinear_arith);
    }
}

/// Bounds on one summary after `n` lines have been folded in.
pub open spec fn summary_bounded(s: SummaryModel, n: int) -> bool {
    &&& -(n * SPEND_STEP) <= s.amount_spent <= n * SPEND_STEP
    &&& -(n * AMOUNT_LIMIT) <= s.tip <= n * AMOUNT_LIMIT
    &&& -(n * AMOUNT_LIMIT) <= s.sponsor_amount <= n * AMOUNT_LIMIT
    &&& -(n * TOTAL_STEP) <= s.will_receive_from_others <= n * TOTAL_STEP
    &&& -(n * TOTAL_STEP) <= s.owes_to_others <= n * TOTAL_STEP
    &&& -(n * TOTAL_STEP) <= s.delegated_self <= n * TOTAL_STEP
}

/// Bounds on every summary of a sequence.
pub open spec fn all_bounded(ss: Seq<SummaryModel>, n: int) -> bool {
    forall|i: int| 0 <= i < ss.len() ==> summary_bounded(#[trigger] ss[i], n)
}

/// Distribution facts for the step bounds: folding in one more line moves
/// each bound up by exactly one step.
pub proof fn lemma_step_dist(n: int)
    ensures
        n * SPEND_STEP + SPEND_STEP == (n + 1) * SPEND_STEP,
        n * AMOUNT_LIMIT + AMOUNT_LIMIT == (n + 1) * AMOUNT_LIMIT,
        n * TOTAL_STEP + TOTAL_STEP == (n + 1) * TOTAL_STEP,
{
    assert(n * SPEND_STEP + SPEND_STEP == (n + 1) * SPEND_STEP) by (nonlinear_arith);
    assert(n * AMOUNT_LIMIT + AMOUNT_LIMIT == (n + 1) * AMOUNT_LIMIT) by (nonlinear_arith);
    assert(n * TOTAL_STEP + TOTAL_STEP == (n + 1) * TOTAL_STEP) by (nonlinear_arith);
}

/// A bound for `n` lines is also a bound for `m >= n` lines.
pub proof fn lemma_bounded_mono(s: SummaryModel, n: int, m: int)
    requires
        summary_bounded(s, n),
        0 <= n <= m,
    ensures
        summary_bounded(s, m),
{
    assert(n * SPEND_STEP <= m * SPEND_STEP) by (nonlinear_arith)
        requires
            n <= m,
            SPEND_STEP > 0,
    ;
    assert(n * AMOUNT_LIMIT <= m * AMOUNT_LIMIT) by (nonlinear_arith)
        requires
            n <= m,
            AMOUNT_LIMIT > 0,
    ;
    assert(n * TOTAL_STEP <= m * TOTAL_STEP) by (nonlinear_arith)
        requires
            n <= m,
            TOTAL_STEP > 0,
    ;
}

/// One aggregation step of a bounded line keeps every summary bounded, with
/// the line count stepped up by one.
pub proof fn lemma_apply_line_bounded(ss: Seq<SummaryModel>, l: LineModel, n: int)
    requires
        all_bounded(ss, n),
        line_valid(l),
        0 <= n,
    ensures
        all_bounded(apply_line(ss, l), n + 1),
{
    lemma_line_spend_bound(l);
    let ss1 = ensure_summary(ss, l.name);
    let i = summary_slot(ss, l.name);
    lemma_ensure_summary(ss, l.name);
    assert forall|k: int| 0 <= k < ss1.len() implies summary_bounded(#[trigger] ss1[k], n) by {
        if k < ss.len() {
            assert(ss1[k] == ss[k]);
        } else {
            assert(ss1[k] == empty_summary(l.name));
            lemma_bounded_mono(ss1[k], 0, n);
        }
    }
    let upd = owner_update(ss1[i], l);
    let ss2 = ss1.update(i, upd);
    assert(summary_bounded(ss1[i], n));
    lemma_step_dist(n);
    assert(summary_bounded(upd, n + 1));
    assert forall|k: int| 0 <= k < ss2.len() implies summary_bounded(#[trigger] ss2[k], n + 1) by {
        if k != i {
            lemma_bounded_mono(ss2[k], n, n + 1);
        }
    }
    match l.paid_by {
        Option::None => {},
        Option::Some(payer) => if payer == l.name {
        } else {
            let ss3 = ensure_summary(ss2, payer);
            let j = summary_slot(ss2, payer);
            lemma_ensure_summary(ss2, payer);
            assert forall|k: int| 0 <= k < ss3.len() implies summary_bounded(
                #[trigger] ss3[k],
                n + 1,
            ) by {
                if k < ss2.len() {
                    assert(ss3[k] == ss2[k]);
                } else {
                    assert(ss3[k] == empty_summary(payer));
                    lemma_bounded_mono(ss3[k], 0, n + 1);
                }
            }
            // The payer's slot is not the owner's: the two carry different
            // names, so the payer's summary is still at the old bound.
            assert(ss3[j].name == payer);
            assert(upd.name == l.name);
            if j < ss2.len() {
                assert(ss3[j] == ss2[j]);
                assert(j != i);
                assert(ss2[j] == ss1[j]);
                assert(summary_bounded(ss3[j], n));
            } else {
                assert(ss3[j] == empty_summary(payer));
                lemma_bounded_mono(ss3[j], 0, n);
            }
            let upd2 = payer_update(ss3[j], line_total(l));
            assert(summary_bounded(upd2, n + 1));
        },
    }
}

/// A numeric cap on every field of a summary bounded by at most
/// [`crate::models::LINE_LIMIT`] lines: comfortably inside `i128`.
pub const FIELD_CAP: i128 = 200_000_000_000_000_000_000;

/// The step bounds scaled by the line limit stay below [`FIELD_CAP`].
pub proof fn lemma_summary_field_caps(s: SummaryModel, n: int)
    requires
        summary_bounded(s, n),
        0 <= n <= 10_000,
    ensures
        -FIELD_CAP <= s.amount_spent <= FIELD_CAP,
        -FIELD_CAP <= s.tip <= FIELD_CAP,
        -FIELD_CAP <= s.sponsor_amount <= FIELD_CAP,
        -FIELD_CAP <= s.will_receive_from_others <= FIELD_CAP,
        -FIELD_CAP <= s.owes_to_others <= FIELD_CAP,
        -FIELD_CAP <= s.delegated_self <= FIELD_CAP,
{
    assert(n * SPEND_STEP <= FIELD_CAP && -FIELD_CAP <= -(n * SPEND_STEP)) by (nonlinear_arith)
        requires
            0 <= n <= 10_000,
            SPEND_STEP == AMOUNT_LIMIT * 10_000,
            AMOUNT_LIMIT == 1_000_000_000_000,
            FIELD_CAP == 200_000_000_000_000_000_000,
    ;
    assert(n * AMOUNT_LIMIT <= FIELD_CAP && -FIELD_CAP <= -(n * AMOUNT_LIMIT))
        by (nonlinear_arith)
        requires
            0 <= n <= 10_000,
            AMOUNT_LIMIT == 1_000_000_000_000,
            FIELD_CAP == 200_000_000_000_000_000_000,
    ;
    assert(n * TOTAL_STEP <= FIELD_CAP && -FIELD_CAP <= -(n * TOTAL_STEP)) by (nonlinear_arith)
        requires
            0 <= n <= 10_000,
            TOTAL_STEP == AMOUNT_LIMIT * 10_000 + AMOUNT_LIMIT,
            AMOUNT_LIMIT == 1_000_000_000_000,
            FIELD_CAP == 200_000_000_000_000_000_000,
    ;
}

/// Every summary of the aggregation of bounded lines is bounded by the line
/// count.
pub proof fn lemma_aggregate_bounded(lines: Seq<LineModel>)
    requires
        forall|i: int| 0 <= i < lines.len() ==> line_valid(#[trigger] lines[i]),
    ensures
        all_bounded(aggregate(lines), lines.len() as int),
    decreases lines.len(),
{
    if lines.len() == 0 {
    } else {
        lemma_aggregate_bounded(lines.drop_last());
        assert(forall|i: int|
            0 <= i < lines.len() - 1 ==> lines.drop_last()[i] == #[trigger] lines[i]);
        lemma_apply_line_bounded(
            aggregate(lines.drop_last()),
            lines.last(),
            lines.len() - 1,
        );
    }
}

/// The effective spend of a bounded line is bounded by [`SPEND_STEP`].
pub proof fn lemma_line_spend_bound(l: LineModel)
    requires
        line_valid(l),
    ensures
        -SPEND_STEP <= line_spend(l) <= SPEND_STEP,
        -TOTAL_STEP <= line_total(l) <= TOTAL_STEP,
{
    assert(-SPEND_STEP <= l.amount_spent * l.quantity <= SPEND_STEP) by (nonlinear_arith)
        requires
            -AMOUNT_LIMIT <= l.amount_spent <= AMOUNT_LIMIT,
            0 <= l.quantity <= 10_000,
            SPEND_STEP == AMOUNT_LIMIT * 10_000,
    ;
}

/// Cap on the aggregated base spend of one participant, and on the total.
pub const SPENT_CAP: i128 = 100_000_000_000_000_000_000;

/// Cap on aggregated explicit tips and sponsorship amounts.
pub const MONEY_SUM_CAP: i128 = 10_000_000_000_000_000;

/// Cap on the reimbursement and private-expense counters, and their totals.
pub const LEDGER_CAP: i128 = 100_010_000_000_000_000_000;

/// Precise caps on each field of a summary bounded by at most the line
/// limit.
pub proof fn lemma_entry_caps(s: SummaryModel, n: int)
    requires
        summary_bounded(s, n),
        0 <= n <= 10_000,
    ensures
        -SPENT_CAP <= s.amount_spent <= SPENT_CAP,
        -MONEY_SUM_CAP <= s.tip <= MONEY_SUM_CAP,
        -MONEY_SUM_CAP <= s.sponsor_amount <= MONEY_SUM_CAP,
        -LEDGER_CAP <= s.will_receive_from_others <= LEDGER_CAP,
        -LEDGER_CAP <= s.owes_to_others <= LEDGER_CAP,
        -LEDGER_CAP <= s.delegated_self <= LEDGER_CAP,
{
    assert(n * SPEND_STEP <= SPENT_CAP && -SPENT_CAP <= -(n * SPEND_STEP)) by (nonlinear_arith)
        requires
            0 <= n <= 10_000,
            SPEND_STEP == AMOUNT_LIMIT * 10_000,
            AMOUNT_LIMIT == 1_000_000_000_000,
            SPENT_CAP == 100_000_000_000_000_000_000,
    ;
    assert(n * AMOUNT_LIMIT <= MONEY_SUM_CAP && -MONEY_SUM_CAP <= -(n * AMOUNT_LIMIT))
        by (nonlinear_arith)
        requires
            0 <= n <= 10_000,
            AMOUNT_LIMIT == 1_000_000_000_000,
            MONEY_SUM_CAP == 10_000_000_000_000_000,
    ;
    assert(n * TOTAL_STEP <= LEDGER_CAP && -LEDGER_CAP <= -(n * TOTAL_STEP)) by (nonlinear_arith)
        requires
            0 <= n <= 10_000,
            TOTAL_STEP == AMOUNT_LIMIT * 10_000 + AMOUNT_LIMIT,
            AMOUNT_LIMIT == 1_000_000_000_000,
            LEDGER_CAP == 100_010_000_000_000_000_000,
    ;
}

/// A pointwise bound on `f` gives a linear bound on its sum over summaries.
pub proof fn lemma_sum_of_bound(
    ss: Seq<SummaryModel>,
    f: spec_fn(SummaryModel) -> int,
    cap: int,
)
    requires
        0 <= cap,
        forall|i: int| 0 <= i < ss.len() ==> -cap <= #[trigger] f(ss[i]) <= cap,
    ensures
        -(ss.len() * cap) <= sum_of(ss, f) <= ss.len() * cap,
    decreases ss.len(),
{
    if ss.len() == 0 {
    } else {
        lemma_sum_of_bound(ss.drop_last(), f, cap);
        assert(ss.last() == ss[ss.len() - 1]);
        assert((ss.len() - 1) * cap + cap == ss.len() * cap) by (nonlinear_arith);
    }
}

/// Caps on the four totals the engine reads off the aggregation, by
/// conservation from the input lines.
pub proof fn lemma_totals_caps(lines: Seq<LineModel>)
    requires
        lines.len() <= 10_000,
        forall|i: int| 0 <= i < lines.len() ==> line_valid(#[trigger] lines[i]),
    ensures
        -SPENT_CAP <= sum_of(aggregate(lines), spent_field()) <= SPENT_CAP,
        -MONEY_SUM_CAP <= sum_of(aggregate(lines), tip_field()) <= MONEY_SUM_CAP,
        -MONEY_SUM_CAP <= sum_of(aggregate(lines), sponsor_field()) <= MONEY_SUM_CAP,
        -LEDGER_CAP <= sum_of(aggregate(lines), delegated_field()) <= LEDGER_CAP,
{
    lemma_aggregate_sums(lines);
    assert forall|i: int| 0 <= i < lines.len() implies -SPEND_STEP <= #[trigger] shared_spend_of()(
        lines[i],
    ) <= SPEND_STEP by {
        lemma_line_spend_bound(lines[i]);
    }
    assert forall|i: int| 0 <= i < lines.len() implies -AMOUNT_LIMIT <= #[trigger] shared_tip_of()(
        lines[i],
    ) <= AMOUNT_LIMIT by {
        lemma_line_spend_bound(lines[i]);
    }
    assert forall|i: int| 0 <= i < lines.len() implies -AMOUNT_LIMIT <= #[trigger] sponsor_of()(
        lines[i],
    ) <= AMOUNT_LIMIT by {}
    assert forall|i: int| 0 <= i < lines.len() implies -TOTAL_STEP <= #[trigger] private_of()(
        lines[i],
    ) <= TOTAL_STEP by {
        lemma_line_spend_bound(lines[i]);
    }
    lemma_sum_lines_bound(lines, shared_spend_of(), SPEND_STEP as int);
    lemma_sum_lines_bound(lines, shared_tip_of(), AMOUNT_LIMIT as int);
    lemma_sum_lines_bound(lines, sponsor_of(), AMOUNT_LIMIT as int);
    lemma_sum_lines_bound(lines, private_of(), TOTAL_STEP as int);
    crate::arith::lemma_mul_mono(lines.len() as int, 10_000, SPEND_STEP as int);
    crate::arith::lemma_mul_mono(lines.len() as int, 10_000, AMOUNT_LIMIT as int);
    crate::arith::lemma_mul_mono(lines.len() as int, 10_000, TOTAL_STEP as int);
    assert(10_000 * SPEND_STEP == SPENT_CAP) by (nonlinear_arith)
        requires
            SPEND_STEP == AMOUNT_LIMIT * 10_000,
            AMOUNT_LIMIT == 1_000_000_000_000,
            SPENT_CAP == 100_000_000_000_000_000_000,
    ;
    assert(10_000 * AMOUNT_LIMIT == MONEY_SUM_CAP) by (nonlinear_arith)
        requires
            AMOUNT_LIMIT == 1_000_000_000_000,
            MONEY_SUM_CAP == 10_000_000_000_000_000,
    ;
    assert(10_000 * TOTAL_STEP == LEDGER_CAP) by (nonlinear_arith)
        requires
            TOTAL_STEP == AMOUNT_LIMIT * 10_000 + AMOUNT_LIMIT,
            AMOUNT_LIMIT == 1_000_000_000_000,
            LEDGER_CAP == 100_010_000_000_000_000_000,
    ;
}

} // verus!
