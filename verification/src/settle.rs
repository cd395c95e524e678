//! The arithmetic stages of the pipeline: the global tip, the sponsorship
//! cap, the even share, and each participant's classified net balance.
//!
//! Divisions round toward negative infinity; every divisor is positive. The
//! classification band is one cent on either side of zero.

use vstd::prelude::*;
use crate::models::{CENT, RequestModel, ResponseModel, SettlementModel, SummaryModel};
use crate::aggregate::aggregate;
use crate::sums::{delegated_field, spent_field, sponsor_field, sum_of, tip_field};
use crate::order::settle_order;

verus! {

/// Total spend with the global tip applied to base spend only: explicit tips
/// are never compounded by the percentage. The percentage is in hundredths
/// of a percent, so the multiplier is `(10_000 + p) / 10_000`.
pub open spec fn spent_with_tip(base: int, tips: int, p: int) -> int {
    (base * (10_000 + p)) / 10_000 + tips
}

/// One participant's part of the global tip: applied only when the
/// percentage is positive.
pub open spec fn global_tip_part(spent: int, p: int) -> int {
    if p > 0 {
        (spent * p) / 10_000
    } else {
        0
    }
}

/// Sponsorship can never exceed total spend: the effective total is capped.
pub open spec fn effective_sponsored(ts: int, tswt: int) -> int {
    if ts > tswt {
        tswt
    } else {
        ts
    }
}

/// One participant's effective sponsorship contribution. When the cap is
/// active every sponsor is scaled down by the same ratio; a non-positive
/// oversubscribed total contributes nothing.
pub open spec fn sponsor_cost_of(s: SummaryModel, ts: int, tswt: int) -> int {
    if !s.is_sponsor {
        0
    } else if ts > tswt {
        if ts > 0 {
            (s.sponsor_amount * tswt) / ts
        } else {
            0
        }
    } else {
        s.sponsor_amount
    }
}

/// Negative residuals are clamped: nobody is paid out of the shared pool.
pub open spec fn clamp_pool(x: int) -> int {
    if x < 0 {
        0
    } else {
        x
    }
}

/// The residual amount to split evenly, after the sponsorship, the fund and
/// the private expenses are taken out.
pub open spec fn share_pool(tswt: int, eff: int, fund: int, delegated: int) -> int {
    clamp_pool(tswt - eff - fund - delegated)
}

/// Whether a participant takes part in the even split.
pub open spec fn is_participant(s: SummaryModel, include_sponsor: bool) -> bool {
    include_sponsor || !s.is_sponsor
}

/// How many summaries take part in the even split.
pub open spec fn participant_count(ss: Seq<SummaryModel>, include_sponsor: bool) -> int
    decreases ss.len(),
{
    if ss.len() == 0 {
        0
    } else {
        participant_count(ss.drop_last(), include_sponsor) + if is_participant(
            ss.last(),
            include_sponsor,
        ) {
            1int
        } else {
            0int
        }
    }
}

/// The identical share of each participating party.
pub open spec fn per_person_share_of(pool: int, n: int) -> int {
    if n > 0 {
        pool / n
    } else {
        0
    }
}

/// The classification label of a net balance: more than one cent in either
/// direction decides, anything inside the band is settled.
pub open spec fn kind_label(balance: int) -> Seq<char> {
    if balance > CENT {
        "receive"@
    } else if balance < -CENT {
        "pay"@
    } else {
        "settled"@
    }
}

/// One participant's settlement: tip share, sponsorship cost, even share,
/// net balance and its classification.
pub open spec fn settle_summary(
    s: SummaryModel,
    ts: int,
    tswt: int,
    per: int,
    include_sponsor: bool,
    p: int,
) -> SettlementModel {
    let tip_paid = s.tip + global_tip_part(s.amount_spent, p);
    let sponsor_cost = sponsor_cost_of(s, ts, tswt);
    let share_cost = if is_participant(s, include_sponsor) {
        per
    } else {
        0
    };
    let total_cost = sponsor_cost + share_cost + s.delegated_self + s.owes_to_others;
    let balance = s.amount_spent + tip_paid + s.will_receive_from_others - total_cost;
    SettlementModel {
        name: s.name,
        amount_spent: s.amount_spent,
        tip_paid: tip_paid,
        sponsor_cost: sponsor_cost,
        share_cost: share_cost,
        balance: balance,
        settlement_type: kind_label(balance),
        is_receiver: s.is_receiver,
    }
}

/// The settlements of all summaries, in aggregation order.
pub open spec fn raw_settlements(
    ss: Seq<SummaryModel>,
    ts: int,
    tswt: int,
    per: int,
    include_sponsor: bool,
    p: int,
) -> Seq<SettlementModel> {
    ss.map_values(|s: SummaryModel| settle_summary(s, ts, tswt, per, include_sponsor, p))
}

/// Extending the summaries by one extends their settlements by one.
pub proof fn lemma_raw_settlements_step(
    ss: Seq<SummaryModel>,
    i: int,
    ts: int,
    tswt: int,
    per: int,
    include_sponsor: bool,
    p: int,
)
    requires
        0 <= i < ss.len(),
    ensures
        raw_settlements(ss.take(i + 1), ts, tswt, per, include_sponsor, p) == raw_settlements(
            ss.take(i),
            ts,
            tswt,
            per,
            include_sponsor,
            p,
        ).push(settle_summary(ss[i], ts, tswt, per, include_sponsor, p)),
{
    let lhs = raw_settlements(ss.take(i + 1), ts, tswt, per, include_sponsor, p);
    let rhs = raw_settlements(ss.take(i), ts, tswt, per, include_sponsor, p).push(
        settle_summary(ss[i], ts, tswt, per, include_sponsor, p),
    );
    assert(lhs.len() == rhs.len());
    assert forall|j: int| 0 <= j < lhs.len() implies lhs[j] == rhs[j] by {
        assert(ss.take(i + 1)[j] == ss[j]);
        if j < i {
            assert(ss.take(i)[j] == ss[j]);
        }
    }
    assert(lhs =~= rhs);
}

/// The complete model of the engine: what `calculate_split_internal` returns
/// for a request, down to the order of the settlements.
pub open spec fn response_model(r: RequestModel) -> ResponseModel {
    let ss = aggregate(r.people);
    let base = sum_of(ss, spent_field());
    let tips = sum_of(ss, tip_field());
    let ts = sum_of(ss, sponsor_field());
    let del = sum_of(ss, delegated_field());
    let tswt = spent_with_tip(base, tips, r.tip_percentage);
    let eff = effective_sponsored(ts, tswt);
    let pool = share_pool(tswt, eff, r.fund_amount, del);
    let n = participant_count(ss, r.include_sponsor);
    let per = per_person_share_of(pool, n);
    ResponseModel {
        total_spent: base + tips,
        total_sponsored: eff,
        fund_amount: r.fund_amount,
        total_tip: tswt - (base + tips),
        amount_to_share: pool,
        num_participants: n,
        per_person_share: per,
        settlements: raw_settlements(ss, ts, tswt, per, r.include_sponsor, r.tip_percentage)
            .sort_by(settle_order()),
    }
}

} // verus!
