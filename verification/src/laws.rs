//! The ledger laws of the engine: the reimbursement ledger balances, the
//! sponsorship cap, the uniform share, determinism, and the zero-sum
//! property of the settled balances.

use vstd::prelude::*;
use crate::models::{
    request_valid, LineModel, RequestModel, ResponseModel, SettlementModel, SummaryModel,
};
use crate::aggregate::aggregate;
use crate::sums::{
    delegated_field, lemma_aggregate_sums, owes_field, receive_field, spent_field, sponsor_field,
    sum_of, tip_field,
};
use crate::settle::{
    effective_sponsored, global_tip_part, is_participant, participant_count, per_person_share_of,
    raw_settlements, response_model, settle_summary, share_pool, spent_with_tip, sponsor_cost_of,
};

verus! {

/// The receivable and the payable side of the reimbursement ledger always
/// balance: every reimbursable line registers exactly one receivable and one
/// matching payable.
pub proof fn lemma_reimbursement_ledger_balances(lines: Seq<LineModel>)
    ensures
        sum_of(aggregate(lines), receive_field()) == sum_of(aggregate(lines), owes_field()),
{
    lemma_aggregate_sums(lines);
}

/// Sponsorship never exceeds total spend: the effective total sponsorship in
/// a response is the raw total capped at the total spend with tip.
pub proof fn lemma_sponsorship_capped(r: RequestModel)
    ensures
        ({
            let ss = aggregate(r.people);
            let tswt = spent_with_tip(
                sum_of(ss, spent_field()),
                sum_of(ss, tip_field()),
                r.tip_percentage,
            );
            &&& response_model(r).total_sponsored <= tswt
            &&& response_model(r).total_sponsored <= sum_of(ss, sponsor_field())
        }),
{
}

/// The engine is a pure function of its input: the response model leaves
/// nothing open, so re-running it on an identical request yields an
/// identical response.
pub proof fn lemma_engine_deterministic(r: RequestModel, out1: ResponseModel, out2: ResponseModel)
    requires
        out1 == response_model(r),
        out2 == response_model(r),
    ensures
        out1 == out2,
{
}

/// Sum of `f` over a ledger of settlements.
pub open spec fn sum_settlements(st: Seq<SettlementModel>, f: spec_fn(SettlementModel) -> int) -> int
    decreases st.len(),
{
    if st.len() == 0 {
        0
    } else {
        sum_settlements(st.drop_last(), f) + f(st.last())
    }
}

/// Selects a settlement's net balance.
pub open spec fn balance_of() -> spec_fn(SettlementModel) -> int {
    |t: SettlementModel| t.balance
}

/// Selects a settlement's effective sponsorship cost.
pub open spec fn sponsor_cost_part() -> spec_fn(SettlementModel) -> int {
    |t: SettlementModel| t.sponsor_cost
}

/// Taking one settlement out takes exactly its part out of the sum.
pub proof fn lemma_sum_settlements_remove(
    st: Seq<SettlementModel>,
    i: int,
    f: spec_fn(SettlementModel) -> int,
)
    requires
        0 <= i < st.len(),
    ensures
        sum_settlements(st, f) == sum_settlements(st.remove(i), f) + f(st[i]),
    decreases st.len(),
{
    if i == st.len() - 1 {
        assert(st.remove(i) =~= st.drop_last());
    } else {
        assert(st.remove(i).drop_last() =~= st.drop_last().remove(i));
        assert(st.remove(i).last() == st.last());
        lemma_sum_settlements_remove(st.drop_last(), i, f);
    }
}

/// Reordering a ledger never changes a sum over it.
pub proof fn lemma_sum_settlements_permutation(
    x: Seq<SettlementModel>,
    y: Seq<SettlementModel>,
    f: spec_fn(SettlementModel) -> int,
)
    requires
        x.to_multiset() == y.to_multiset(),
    ensures
        sum_settlements(x, f) == sum_settlements(y, f),
    decreases x.len(),
{
    broadcast use vstd::seq_lib::group_to_multiset_ensures;
    broadcast use vstd::multiset::group_multiset_axioms;

    if x.len() == 0 {
        assert(y.to_multiset().len() == 0);
        assert(y.len() == 0);
    } else {
        let e = x.last();
        assert(x.contains(e));
        assert(x.to_multiset().count(e) > 0);
        assert(y.to_multiset().count(e) > 0);
        assert(y.contains(e));
        let j = choose|j: int| 0 <= j < y.len() && y[j] == e;
        lemma_sum_settlements_remove(y, j, f);
        assert(x.remove(x.len() - 1) =~= x.drop_last());
        assert(x.drop_last().to_multiset() =~= x.to_multiset().remove(e));
        assert(y.remove(j).to_multiset() =~= y.to_multiset().remove(e));
        lemma_sum_settlements_permutation(x.drop_last(), y.remove(j), f);
    }
}

/// Selects one participant's part of the global tip.
pub open spec fn gtip_of(p: int) -> spec_fn(SummaryModel) -> int {
    |s: SummaryModel| global_tip_part(s.amount_spent, p)
}

/// Selects one participant's effective sponsorship cost.
pub open spec fn spc_of(ts: int, tswt: int) -> spec_fn(SummaryModel) -> int {
    |s: SummaryModel| sponsor_cost_of(s, ts, tswt)
}

/// Selects one participant's part of the even split.
pub open spec fn shc_of(per: int, include_sponsor: bool) -> spec_fn(SummaryModel) -> int {
    |s: SummaryModel| if is_participant(s, include_sponsor) {
        per
    } else {
        0
    }
}

/// The sum of the settled balances, decomposed into the sums of their
/// components over the summaries.
pub proof fn lemma_sum_balances_decompose(
    ss: Seq<SummaryModel>,
    ts: int,
    tswt: int,
    per: int,
    include_sponsor: bool,
    p: int,
)
    ensures
        sum_settlements(raw_settlements(ss, ts, tswt, per, include_sponsor, p), balance_of())
            == sum_of(ss, spent_field()) + sum_of(ss, tip_field()) + sum_of(ss, gtip_of(p))
            + sum_of(ss, receive_field()) - sum_of(ss, spc_of(ts, tswt)) - sum_of(
            ss,
            shc_of(per, include_sponsor),
        ) - sum_of(ss, delegated_field()) - sum_of(ss, owes_field()),
    decreases ss.len(),
{
    let raw = raw_settlements(ss, ts, tswt, per, include_sponsor, p);
    if ss.len() == 0 {
        assert(raw.len() == 0);
    } else {
        assert(raw.drop_last() =~= raw_settlements(
            ss.drop_last(),
            ts,
            tswt,
            per,
            include_sponsor,
            p,
        ));
        assert(raw.last() == settle_summary(ss.last(), ts, tswt, per, include_sponsor, p));
        lemma_sum_balances_decompose(ss.drop_last(), ts, tswt, per, include_sponsor, p);
    }
}

/// Two pointwise-equal selectors have equal sums.
pub proof fn lemma_sum_of_congruent(
    ss: Seq<SummaryModel>,
    f: spec_fn(SummaryModel) -> int,
    g: spec_fn(SummaryModel) -> int,
)
    requires
        forall|i: int| 0 <= i < ss.len() ==> #[trigger] f(ss[i]) == g(ss[i]),
    ensures
        sum_of(ss, f) == sum_of(ss, g),
    decreases ss.len(),
{
    if ss.len() == 0 {
    } else {
        assert(ss.last() == ss[ss.len() - 1]);
        lemma_sum_of_congruent(ss.drop_last(), f, g);
    }
}

/// The even split hands out exactly the share times the participant count.
pub proof fn lemma_share_total(ss: Seq<SummaryModel>, per: int, include_sponsor: bool)
    ensures
        sum_of(ss, shc_of(per, include_sponsor)) == participant_count(ss, include_sponsor) * per,
    decreases ss.len(),
{
    if ss.len() == 0 {
        assert(0 * per == 0) by (nonlinear_arith);
    } else {
        lemma_share_total(ss.drop_last(), per, include_sponsor);
        let c = participant_count(ss.drop_last(), include_sponsor);
        if is_participant(ss.last(), include_sponsor) {
            assert((c + 1) * per == c * per + per) by (nonlinear_arith);
        }
    }
}

/// The participant count lies between zero and the number of summaries.
pub proof fn lemma_participant_count_bounds(ss: Seq<SummaryModel>, include_sponsor: bool)
    ensures
        0 <= participant_count(ss, include_sponsor) <= ss.len(),
    decreases ss.len(),
{
    if ss.len() == 0 {
    } else {
        lemma_participant_count_bounds(ss.drop_last(), include_sponsor);
    }
}

/// The selector `f` scaled by a constant factor.
pub open spec fn scaled_by(f: spec_fn(SummaryModel) -> int, c: int) -> spec_fn(SummaryModel) -> int {
    |s: SummaryModel| f(s) * c
}

/// The selector `f` floor-divided by a constant divisor.
pub open spec fn floored_by(f: spec_fn(SummaryModel) -> int, c: int) -> spec_fn(
    SummaryModel,
) -> int {
    |s: SummaryModel| f(s) / c
}

/// Scaling every summand scales the sum.
pub proof fn lemma_sum_scaled(ss: Seq<SummaryModel>, f: spec_fn(SummaryModel) -> int, c: int)
    ensures
        sum_of(ss, scaled_by(f, c)) == sum_of(ss, f) * c,
    decreases ss.len(),
{
    if ss.len() == 0 {
        assert(0 * c == 0) by (nonlinear_arith);
    } else {
        lemma_sum_scaled(ss.drop_last(), f, c);
        let x = sum_of(ss.drop_last(), f);
        let y = f(ss.last());
        assert((x + y) * c == x * c + y * c) by (nonlinear_arith);
    }
}

/// Summing the floors loses at most one divisor-remainder per summand: the
/// floored sum sits at most `ss.len()` below the floor of the sum, and
/// never above it.
pub proof fn lemma_floor_sum(ss: Seq<SummaryModel>, f: spec_fn(SummaryModel) -> int, c: int)
    requires
        1 <= c,
    ensures
        0 <= sum_of(ss, f) / c - sum_of(ss, floored_by(f, c)) <= ss.len(),
    decreases ss.len(),
{
    if ss.len() == 0 {
        assert(0int / c == 0) by {
            vstd::arithmetic::div_mod::lemma_fundamental_div_mod_converse(0, c, 0, 0);
            assert(0 * c + 0 == 0) by (nonlinear_arith);
        }
    } else {
        lemma_floor_sum(ss.drop_last(), f, c);
        let x = sum_of(ss.drop_last(), f);
        let y = f(ss.last());
        vstd::arithmetic::div_mod::lemma_fundamental_div_mod(x, c);
        vstd::arithmetic::div_mod::lemma_fundamental_div_mod(y, c);
        let qx = x / c;
        let rx = x % c;
        let qy = y / c;
        let ry = y % c;
        if rx + ry < c {
            assert(x + y == (qx + qy) * c + (rx + ry)) by (nonlinear_arith)
                requires
                    x == c * qx + rx,
                    y == c * qy + ry,
            ;
            vstd::arithmetic::div_mod::lemma_fundamental_div_mod_converse(
                x + y,
                c,
                qx + qy,
                rx + ry,
            );
        } else {
            assert(x + y == (qx + qy + 1) * c + (rx + ry - c)) by (nonlinear_arith)
                requires
                    x == c * qx + rx,
                    y == c * qy + ry,
            ;
            vstd::arithmetic::div_mod::lemma_fundamental_div_mod_converse(
                x + y,
                c,
                qx + qy + 1,
                rx + ry - c,
            );
        }
    }
}

/// No sponsorship money is attributed to a participant that is not marked a
/// sponsor.
pub open spec fn sponsor_flags_consistent(ss: Seq<SummaryModel>) -> bool {
    forall|i: int|
        0 <= i < ss.len() ==> ((#[trigger] ss[i]).sponsor_amount != 0 ==> ss[i].is_sponsor)
}

/// The global tip distributes exactly: the per-participant tip parts add up
/// to the tip contained in the total spend with tip. Holds in particular
/// whenever the percentage is zero.
pub open spec fn tip_distributes_exactly(ss: Seq<SummaryModel>, p: int) -> bool {
    sum_of(ss, gtip_of(p)) == spent_with_tip(
        sum_of(ss, spent_field()),
        sum_of(ss, tip_field()),
        p,
    ) - sum_of(ss, spent_field()) - sum_of(ss, tip_field())
}

/// The pool splits exactly among the participants: no sub-cent remainder,
/// and nothing left to split when nobody participates.
pub open spec fn share_divides_exactly(pool: int, n: int) -> bool {
    if n > 0 {
        pool % n == 0
    } else {
        pool == 0
    }
}

/// The zero-sum law: the settled balances add up to exactly zero whenever no
/// flat fund is taken out, sponsorship is not oversubscribed, sponsorship
/// money only comes from marked sponsors, the global tip and the even share
/// distribute without sub-cent remainders, and the pool is not clamped at
/// zero. On other inputs money deliberately enters or leaves the ledger (a
/// fund is outside cash; a clamped pool forgives a deficit) or sub-cent
/// remainders stay with the group, so exact zero cannot hold there.
/// [`lemma_zero_sum_band`] bounds the deviation within the one-cent band
/// without any divisibility hypothesis.
pub proof fn lemma_zero_sum(r: RequestModel)
    requires
        r.fund_amount == 0,
        ({
            let ss = aggregate(r.people);
            let base = sum_of(ss, spent_field());
            let tips = sum_of(ss, tip_field());
            let ts = sum_of(ss, sponsor_field());
            let del = sum_of(ss, delegated_field());
            let tswt = spent_with_tip(base, tips, r.tip_percentage);
            let pool = share_pool(tswt, effective_sponsored(ts, tswt), r.fund_amount, del);
            &&& ts <= tswt
            &&& sponsor_flags_consistent(ss)
            &&& tip_distributes_exactly(ss, r.tip_percentage)
            &&& share_divides_exactly(pool, participant_count(ss, r.include_sponsor))
            &&& tswt - ts - r.fund_amount - del >= 0
        }),
    ensures
        sum_settlements(response_model(r).settlements, balance_of()) == 0,
{
    let ss = aggregate(r.people);
    let p = r.tip_percentage;
    let inc = r.include_sponsor;
    let base = sum_of(ss, spent_field());
    let tips = sum_of(ss, tip_field());
    let ts = sum_of(ss, sponsor_field());
    let del = sum_of(ss, delegated_field());
    let tswt = spent_with_tip(base, tips, p);
    let eff = effective_sponsored(ts, tswt);
    let pool = share_pool(tswt, eff, 0, del);
    let n = participant_count(ss, inc);
    let per = per_person_share_of(pool, n);
    let raw = raw_settlements(ss, ts, tswt, per, inc, p);
    crate::order::lemma_settle_order_total();
    raw.lemma_sort_by_ensures(crate::order::settle_order());
    lemma_sum_settlements_permutation(response_model(r).settlements, raw, balance_of());
    lemma_sum_balances_decompose(ss, ts, tswt, per, inc, p);
    lemma_reimbursement_ledger_balances(r.people);
    assert forall|i: int| 0 <= i < ss.len() implies #[trigger] spc_of(ts, tswt)(ss[i])
        == sponsor_field()(ss[i]) by {
        assert(ss[i].sponsor_amount != 0 ==> ss[i].is_sponsor);
    }
    lemma_sum_of_congruent(ss, spc_of(ts, tswt), sponsor_field());
    lemma_share_total(ss, per, inc);
    if n > 0 {
        vstd::arithmetic::div_mod::lemma_fundamental_div_mod(pool, n);
        assert(n * per == pool);
    } else {
        assert(per == 0);
        assert(n * per == 0) by (nonlinear_arith)
            requires
                per == 0,
        ;
    }
    assert(sum_settlements(raw, balance_of()) == 0);
}

/// The zero-sum law with the global tip switched off: the common case, with
/// the tip condition discharged once and for all.
pub proof fn lemma_zero_sum_flat(r: RequestModel)
    requires
        r.fund_amount == 0,
        r.tip_percentage == 0,
        ({
            let ss = aggregate(r.people);
            let base = sum_of(ss, spent_field());
            let tips = sum_of(ss, tip_field());
            let ts = sum_of(ss, sponsor_field());
            let del = sum_of(ss, delegated_field());
            let pool = base + tips - ts - del;
            &&& ts <= base + tips
            &&& sponsor_flags_consistent(ss)
            &&& share_divides_exactly(pool, participant_count(ss, r.include_sponsor))
            &&& pool >= 0
        }),
    ensures
        sum_settlements(response_model(r).settlements, balance_of()) == 0,
{
    let ss = aggregate(r.people);
    let base = sum_of(ss, spent_field());
    let tips = sum_of(ss, tip_field());
    assert(base * (10_000 + 0) == base * 10_000) by (nonlinear_arith);
    vstd::arithmetic::div_mod::lemma_fundamental_div_mod_converse(base * 10_000, 10_000, base, 0);
    assert(spent_with_tip(base, tips, 0) == base + tips);
    assert forall|i: int| 0 <= i < ss.len() implies #[trigger] gtip_of(0)(ss[i]) == 0 by {}
    crate::sums::lemma_sum_of_bound(ss, gtip_of(0), 0);
    assert(ss.len() * 0 == 0) by (nonlinear_arith);
    assert(tip_distributes_exactly(ss, 0));
    lemma_zero_sum(r);
}

/// One settlement per unique participant name: the response has exactly one
/// entry for every name that takes part in the input (as owner or payer),
/// and no two entries share a name.
pub proof fn lemma_one_settlement_per_name(r: RequestModel)
    ensures
        ({
            let st = response_model(r).settlements;
            &&& st.len() == aggregate(r.people).len()
            &&& forall|i: int, j: int|
                0 <= i < j < st.len() ==> (#[trigger] st[i]).name != (#[trigger] st[j]).name
            &&& forall|i: int|
                0 <= i < st.len() ==> crate::aggregate::name_appears(
                    r.people,
                    (#[trigger] st[i]).name,
                )
            &&& forall|name: Seq<char>|
                #[trigger] crate::aggregate::name_appears(r.people, name) ==> exists|i: int|
                    0 <= i < st.len() && (#[trigger] st[i]).name == name
        }),
{
    broadcast use vstd::seq_lib::group_to_multiset_ensures;
    broadcast use vstd::multiset::group_multiset_axioms;

    let ss = aggregate(r.people);
    let p = r.tip_percentage;
    let inc = r.include_sponsor;
    let base = sum_of(ss, spent_field());
    let tips = sum_of(ss, tip_field());
    let ts = sum_of(ss, sponsor_field());
    let del = sum_of(ss, delegated_field());
    let tswt = spent_with_tip(base, tips, p);
    let eff = effective_sponsored(ts, tswt);
    let pool = share_pool(tswt, eff, r.fund_amount, del);
    let n = participant_count(ss, inc);
    let per = per_person_share_of(pool, n);
    let raw = raw_settlements(ss, ts, tswt, per, inc, p);
    let st = response_model(r).settlements;
    crate::order::lemma_settle_order_total();
    raw.lemma_sort_by_ensures(crate::order::settle_order());
    assert(st.to_multiset() =~= raw.to_multiset());
    assert(st.len() == st.to_multiset().len());
    assert(raw.len() == raw.to_multiset().len());
    crate::aggregate::lemma_aggregate_distinct(r.people);
    crate::aggregate::lemma_aggregate_names(r.people);
    assert(forall|k: int| 0 <= k < raw.len() ==> (#[trigger] raw[k]).name == ss[k].name);
    // Every settlement of the sorted ledger is a settlement of the raw one.
    assert forall|i: int| #![trigger st[i]] 0 <= i < st.len() implies exists|k: int|
        0 <= k < raw.len() && #[trigger] raw[k] == st[i] by {
        assert(st.to_multiset().contains(st[i]));
        assert(raw.to_multiset().contains(st[i]));
        assert(raw.contains(st[i]));
    }
    assert forall|i: int| 0 <= i < st.len() implies crate::aggregate::name_appears(
        r.people,
        (#[trigger] st[i]).name,
    ) by {
        let k = choose|k: int| 0 <= k < raw.len() && #[trigger] raw[k] == st[i];
        assert(crate::aggregate::name_appears(r.people, ss[k].name));
    }
    assert forall|name: Seq<char>|
        #[trigger] crate::aggregate::name_appears(r.people, name) implies exists|i: int|
        0 <= i < st.len() && (#[trigger] st[i]).name == name by {
        let k = choose|k: int| 0 <= k < ss.len() && (#[trigger] ss[k]).name == name;
        assert(raw[k].name == name);
        assert(raw.contains(raw[k]));
        assert(raw.to_multiset().contains(raw[k]));
        assert(st.to_multiset().contains(raw[k]));
        assert(st.contains(raw[k]));
        let i = choose|i: int| 0 <= i < st.len() && st[i] == raw[k];
        assert(st[i].name == name);
    }
    // No two raw settlements are equal: their names already differ.
    assert(raw.no_duplicates()) by {
        assert forall|i: int, j: int|
            0 <= i < raw.len() && 0 <= j < raw.len() && i != j implies raw[i] != raw[j] by {
            assert(raw[i].name == ss[i].name && raw[j].name == ss[j].name);
        }
    }
    raw.lemma_multiset_has_no_duplicates();
    st.lemma_multiset_has_no_duplicates_conv();
    assert forall|i: int, j: int|
        0 <= i < j < st.len() implies (#[trigger] st[i]).name != (#[trigger] st[j]).name by {
        if st[i].name == st[j].name {
            let ki = choose|k: int| 0 <= k < raw.len() && #[trigger] raw[k] == st[i];
            let kj = choose|k: int| 0 <= k < raw.len() && #[trigger] raw[k] == st[j];
            assert(st[i] != st[j]);
            assert(ki != kj);
            assert(ss[ki].name != ss[kj].name);
        }
    }
}

/// The rounding loss of distributing the global tip: the per-participant
/// tip parts fall short of the tip inside the total by at most one subunit
/// per summary, and never exceed it.
pub proof fn lemma_tip_noise(ss: Seq<SummaryModel>, p: int)
    requires
        0 <= p,
    ensures
        ({
            let base = sum_of(ss, spent_field());
            let tips = sum_of(ss, tip_field());
            0 <= (spent_with_tip(base, tips, p) - base - tips) - sum_of(ss, gtip_of(p))
                <= ss.len()
        }),
{
    let base = sum_of(ss, spent_field());
    let tips = sum_of(ss, tip_field());
    if p == 0 {
        assert forall|i: int| 0 <= i < ss.len() implies -0 <= #[trigger] gtip_of(0)(ss[i])
            <= 0 by {}
        crate::sums::lemma_sum_of_bound(ss, gtip_of(0), 0);
        assert(ss.len() * 0 == 0) by (nonlinear_arith);
        assert(base * (10_000 + 0) == base * 10_000) by (nonlinear_arith);
        vstd::arithmetic::div_mod::lemma_fundamental_div_mod_converse(
            base * 10_000,
            10_000,
            base,
            0,
        );
    } else {
        assert forall|i: int| 0 <= i < ss.len() implies #[trigger] gtip_of(p)(ss[i])
            == floored_by(scaled_by(spent_field(), p), 10_000)(ss[i]) by {}
        lemma_sum_of_congruent(ss, gtip_of(p), floored_by(scaled_by(spent_field(), p), 10_000));
        lemma_sum_scaled(ss, spent_field(), p);
        lemma_floor_sum(ss, scaled_by(spent_field(), p), 10_000);
        // The tip inside the total is the floor of the scaled base spend.
        let x = base * p;
        vstd::arithmetic::div_mod::lemma_fundamental_div_mod(x, 10_000);
        assert(base * (10_000 + p) == 10_000 * (base + x / 10_000) + x % 10_000)
            by (nonlinear_arith)
            requires
                x == base * p,
                x == 10_000 * (x / 10_000) + x % 10_000,
        ;
        vstd::arithmetic::div_mod::lemma_fundamental_div_mod_converse(
            base * (10_000 + p),
            10_000,
            base + x / 10_000,
            x % 10_000,
        );
    }
}

/// How much sponsorship money the settlements collect: exactly the raw
/// total when the cap is inactive, and at most one subunit per summary
/// below the capped total when sponsorship is oversubscribed.
pub proof fn lemma_sponsor_collection(ss: Seq<SummaryModel>, tswt: int)
    requires
        sponsor_flags_consistent(ss),
    ensures
        ({
            let ts = sum_of(ss, sponsor_field());
            let collected = sum_of(ss, spc_of(ts, tswt));
            &&& (ts <= tswt ==> collected == ts)
            &&& (ts > tswt && ts > 0 ==> 0 <= tswt - collected <= ss.len())
        }),
{
    let ts = sum_of(ss, sponsor_field());
    if ts <= tswt {
        assert forall|i: int| 0 <= i < ss.len() implies #[trigger] spc_of(ts, tswt)(ss[i])
            == sponsor_field()(ss[i]) by {
            assert(ss[i].sponsor_amount != 0 ==> ss[i].is_sponsor);
        }
        lemma_sum_of_congruent(ss, spc_of(ts, tswt), sponsor_field());
    } else if ts > 0 {
        assert forall|i: int| 0 <= i < ss.len() implies #[trigger] spc_of(ts, tswt)(ss[i])
            == floored_by(scaled_by(sponsor_field(), tswt), ts)(ss[i]) by {
            assert(ss[i].sponsor_amount != 0 ==> ss[i].is_sponsor);
            if !ss[i].is_sponsor {
                assert(ss[i].sponsor_amount * tswt == 0) by (nonlinear_arith)
                    requires
                        ss[i].sponsor_amount == 0,
                ;
                assert(0 * ts + 0 == 0) by (nonlinear_arith);
                vstd::arithmetic::div_mod::lemma_fundamental_div_mod_converse(0, ts, 0, 0);
            }
        }
        lemma_sum_of_congruent(ss, spc_of(ts, tswt), floored_by(scaled_by(sponsor_field(), tswt), ts));
        lemma_sum_scaled(ss, sponsor_field(), tswt);
        lemma_floor_sum(ss, scaled_by(sponsor_field(), tswt), ts);
        assert(ts * tswt == tswt * ts + 0) by (nonlinear_arith);
        vstd::arithmetic::div_mod::lemma_fundamental_div_mod_converse(ts * tswt, ts, tswt, 0);
    }
}

/// The even split is uniform: every settlement's share cost is either the
/// per-person share or zero, and when sponsors are included in the split it
/// is the per-person share for everyone.
pub proof fn lemma_share_uniform(r: RequestModel)
    ensures
        ({
            let m = response_model(r);
            &&& forall|i: int|
                0 <= i < m.settlements.len() ==> ((#[trigger] m.settlements[i]).share_cost
                    == m.per_person_share || m.settlements[i].share_cost == 0)
            &&& r.include_sponsor ==> forall|i: int|
                0 <= i < m.settlements.len() ==> (#[trigger] m.settlements[i]).share_cost
                    == m.per_person_share
        }),
{
    broadcast use vstd::seq_lib::group_to_multiset_ensures;
    broadcast use vstd::multiset::group_multiset_axioms;

    let ss = aggregate(r.people);
    let p = r.tip_percentage;
    let inc = r.include_sponsor;
    let base = sum_of(ss, spent_field());
    let tips = sum_of(ss, tip_field());
    let ts = sum_of(ss, sponsor_field());
    let del = sum_of(ss, delegated_field());
    let tswt = spent_with_tip(base, tips, p);
    let eff = effective_sponsored(ts, tswt);
    let pool = share_pool(tswt, eff, r.fund_amount, del);
    let n = participant_count(ss, inc);
    let per = per_person_share_of(pool, n);
    let raw = raw_settlements(ss, ts, tswt, per, inc, p);
    let st = response_model(r).settlements;
    crate::order::lemma_settle_order_total();
    raw.lemma_sort_by_ensures(crate::order::settle_order());
    assert(st.to_multiset() =~= raw.to_multiset());
    assert forall|i: int| #![trigger st[i]] 0 <= i < st.len() implies ((st[i].share_cost == per
        || st[i].share_cost == 0) && (inc ==> st[i].share_cost == per)) by {
        assert(st.to_multiset().contains(st[i]));
        assert(raw.to_multiset().contains(st[i]));
        assert(raw.contains(st[i]));
        let k = choose|k: int| 0 <= k < raw.len() && #[trigger] raw[k] == st[i];
        assert(raw[k] == settle_summary(ss[k], ts, tswt, per, inc, p));
    }
}

/// The settlements' sponsorship costs, summed, equal the sum of the
/// per-summary sponsorship costs.
pub proof fn lemma_sponsor_cost_decompose(
    ss: Seq<SummaryModel>,
    ts: int,
    tswt: int,
    per: int,
    include_sponsor: bool,
    p: int,
)
    ensures
        sum_settlements(
            raw_settlements(ss, ts, tswt, per, include_sponsor, p),
            sponsor_cost_part(),
        ) == sum_of(ss, spc_of(ts, tswt)),
    decreases ss.len(),
{
    let raw = raw_settlements(ss, ts, tswt, per, include_sponsor, p);
    if ss.len() == 0 {
        assert(raw.len() == 0);
    } else {
        assert(raw.drop_last() =~= raw_settlements(
            ss.drop_last(),
            ts,
            tswt,
            per,
            include_sponsor,
            p,
        ));
        assert(raw.last() == settle_summary(ss.last(), ts, tswt, per, include_sponsor, p));
        lemma_sponsor_cost_decompose(ss.drop_last(), ts, tswt, per, include_sponsor, p);
    }
}

/// The zero-sum band: the settled balances sum to strictly within one cent
/// of the flat fund — and so, without a fund, of zero — for every request
/// in bounds: the sub-cent money representation keeps all division
/// rounding far inside the band. The remaining hypotheses exclude exactly
/// the inputs on which money deliberately leaves the ledger even in exact
/// arithmetic: sponsorship money on lines not marked as sponsoring is
/// charged to nobody; an oversubscribed non-positive sponsorship total
/// zeroes the scaling ratio and discards the cap; a pool clamped at zero
/// forgives a deficit; and a positive pool with no participating party is
/// collected from nobody.
pub proof fn lemma_zero_sum_band(r: RequestModel)
    requires
        request_valid(r),
        ({
            let ss = aggregate(r.people);
            let base = sum_of(ss, spent_field());
            let tips = sum_of(ss, tip_field());
            let ts = sum_of(ss, sponsor_field());
            let del = sum_of(ss, delegated_field());
            let tswt = spent_with_tip(base, tips, r.tip_percentage);
            let pool = share_pool(tswt, effective_sponsored(ts, tswt), r.fund_amount, del);
            &&& sponsor_flags_consistent(ss)
            &&& (ts > tswt ==> ts > 0)
            &&& tswt - effective_sponsored(ts, tswt) - r.fund_amount - del >= 0
            &&& (participant_count(ss, r.include_sponsor) > 0 || pool == 0)
        }),
    ensures
        -crate::models::CENT < sum_settlements(response_model(r).settlements, balance_of())
            - r.fund_amount < crate::models::CENT,
{
    let ss = aggregate(r.people);
    let p = r.tip_percentage;
    let inc = r.include_sponsor;
    let base = sum_of(ss, spent_field());
    let tips = sum_of(ss, tip_field());
    let ts = sum_of(ss, sponsor_field());
    let del = sum_of(ss, delegated_field());
    let tswt = spent_with_tip(base, tips, p);
    let eff = effective_sponsored(ts, tswt);
    let pool = share_pool(tswt, eff, r.fund_amount, del);
    let n = participant_count(ss, inc);
    let per = per_person_share_of(pool, n);
    let raw = raw_settlements(ss, ts, tswt, per, inc, p);
    crate::order::lemma_settle_order_total();
    raw.lemma_sort_by_ensures(crate::order::settle_order());
    lemma_sum_settlements_permutation(response_model(r).settlements, raw, balance_of());
    lemma_sum_balances_decompose(ss, ts, tswt, per, inc, p);
    lemma_reimbursement_ledger_balances(r.people);
    lemma_tip_noise(ss, p);
    lemma_sponsor_collection(ss, tswt);
    lemma_share_total(ss, per, inc);
    lemma_participant_count_bounds(ss, inc);
    crate::aggregate::lemma_aggregate_len(r.people);
    // Each rounding term is below one subunit per summary; the ledger has
    // at most two summaries per input line.
    assert(ss.len() <= 20_000);
    if n > 0 {
        vstd::arithmetic::div_mod::lemma_fundamental_div_mod(pool, n);
        vstd::arithmetic::div_mod::lemma_mod_pos_bound(pool, n);
        assert(0 <= pool - n * per < n);
    } else {
        assert(pool == 0);
        assert(per == 0);
        assert(n * per == 0) by (nonlinear_arith)
            requires
                per == 0,
        ;
    }
    assert(-crate::models::CENT < sum_settlements(raw, balance_of()) - r.fund_amount
        < crate::models::CENT);
}

/// The sponsorship cap collects: the sponsor costs in the response fall
/// short of the effective total sponsorship by strictly less than one
/// cent, and never exceed it. With the cap inactive the collection is
/// exact.
pub proof fn lemma_sponsor_costs_collected(r: RequestModel)
    requires
        request_valid(r),
        sponsor_flags_consistent(aggregate(r.people)),
        ({
            let ss = aggregate(r.people);
            let ts = sum_of(ss, sponsor_field());
            let tswt = spent_with_tip(
                sum_of(ss, spent_field()),
                sum_of(ss, tip_field()),
                r.tip_percentage,
            );
            ts > tswt ==> ts > 0
        }),
    ensures
        ({
            let m = response_model(r);
            let collected = sum_settlements(m.settlements, sponsor_cost_part());
            &&& 0 <= m.total_sponsored - collected < crate::models::CENT
            &&& (sum_of(aggregate(r.people), sponsor_field()) <= spent_with_tip(
                sum_of(aggregate(r.people), spent_field()),
                sum_of(aggregate(r.people), tip_field()),
                r.tip_percentage,
            ) ==> m.total_sponsored == collected)
        }),
{
    let ss = aggregate(r.people);
    let p = r.tip_percentage;
    let inc = r.include_sponsor;
    let base = sum_of(ss, spent_field());
    let tips = sum_of(ss, tip_field());
    let ts = sum_of(ss, sponsor_field());
    let del = sum_of(ss, delegated_field());
    let tswt = spent_with_tip(base, tips, p);
    let eff = effective_sponsored(ts, tswt);
    let pool = share_pool(tswt, eff, r.fund_amount, del);
    let n = participant_count(ss, inc);
    let per = per_person_share_of(pool, n);
    let raw = raw_settlements(ss, ts, tswt, per, inc, p);
    crate::order::lemma_settle_order_total();
    raw.lemma_sort_by_ensures(crate::order::settle_order());
    lemma_sum_settlements_permutation(response_model(r).settlements, raw, sponsor_cost_part());
    lemma_sponsor_cost_decompose(ss, ts, tswt, per, inc, p);
    lemma_sponsor_collection(ss, tswt);
    crate::aggregate::lemma_aggregate_len(r.people);
    assert(ss.len() <= 20_000);
}

} // verus!
