//! The settlement engine: a single pure pass from an expense request to the
//! reconciled, sorted ledger of balances.

use vstd::prelude::*;
use crate::models::{
    CalculateRequest, CalculateResponse, PersonSummary, Settlement, request_valid,
    views_of_people, views_of_settlements, views_of_summaries, CENT, LINE_LIMIT,
};
use crate::aggregate::{aggregate, aggregate_people, lemma_aggregate_len};
use crate::sums::{
    all_bounded, delegated_field, lemma_aggregate_bounded, lemma_entry_caps, lemma_totals_caps,
    spent_field, sponsor_field, sum_of, summary_bounded, tip_field, LEDGER_CAP, MONEY_SUM_CAP,
    SPENT_CAP,
};
use crate::settle::{
    global_tip_part, kind_label, participant_count, per_person_share_of, raw_settlements,
    response_model, settle_summary, spent_with_tip,
};
use crate::arith::{div_floor, lemma_div_scaled, lemma_mul_mono};
use crate::order::sort_settlements;

verus! {

/// Cap on the magnitude of the total spend with tip.
pub const TSWT_CAP: i128 = 2_000_000_000_000_000_000_000;

/// Cap on the magnitude of the shared pool and of each share.
pub const POOL_CAP: i128 = 6_000_000_000_000_000_000_000;

/// Reads the four totals off the aggregated summaries in one pass.
fn compute_totals(summaries: &Vec<PersonSummary>, Ghost(nl): Ghost<int>) -> (t: (
    i128,
    i128,
    i128,
    i128,
))
    requires
        all_bounded(views_of_summaries(summaries@), nl),
        0 <= nl <= LINE_LIMIT,
        summaries@.len() <= 2 * LINE_LIMIT,
    ensures
        t.0 == sum_of(views_of_summaries(summaries@), spent_field()),
        t.1 == sum_of(views_of_summaries(summaries@), tip_field()),
        t.2 == sum_of(views_of_summaries(summaries@), sponsor_field()),
        t.3 == sum_of(views_of_summaries(summaries@), delegated_field()),
{
    let ghost ss = views_of_summaries(summaries@);
    let m = summaries.len();
    let mut base: i128 = 0;
    let mut tips: i128 = 0;
    let mut ts: i128 = 0;
    let mut del: i128 = 0;
    proof {
        assert(ss.take(0) =~= Seq::<crate::models::SummaryModel>::empty());
    }
    let mut i: usize = 0;
    while i < m
        invariant
            m == summaries@.len(),
            m <= 2 * LINE_LIMIT,
            ss == views_of_summaries(summaries@),
            all_bounded(ss, nl),
            0 <= nl <= LINE_LIMIT,
            i <= m,
            base == sum_of(ss.take(i as int), spent_field()),
            tips == sum_of(ss.take(i as int), tip_field()),
            ts == sum_of(ss.take(i as int), sponsor_field()),
            del == sum_of(ss.take(i as int), delegated_field()),
            -(i as int * LEDGER_CAP) <= base <= i as int * LEDGER_CAP,
            -(i as int * LEDGER_CAP) <= tips <= i as int * LEDGER_CAP,
            -(i as int * LEDGER_CAP) <= ts <= i as int * LEDGER_CAP,
            -(i as int * LEDGER_CAP) <= del <= i as int * LEDGER_CAP,
        decreases m - i,
    {
        proof {
            assert(ss[i as int] == summaries@[i as int]@);
            assert(summary_bounded(ss[i as int], nl));
            lemma_entry_caps(ss[i as int], nl);
            lemma_mul_mono(i as int, 20_000, LEDGER_CAP as int);
            assert(20_000 * LEDGER_CAP == 2_000_200_000_000_000_000_000_000) by (nonlinear_arith)
                requires
                    LEDGER_CAP == 100_010_000_000_000_000_000,
            ;
            assert((i as int + 1) * LEDGER_CAP == i as int * LEDGER_CAP + LEDGER_CAP)
                by (nonlinear_arith);
            assert(ss.take(i + 1).drop_last() =~= ss.take(i as int));
            assert(ss.take(i + 1).last() == ss[i as int]);
        }
        let s = &summaries[i];
        base = base + s.amount_spent;
        tips = tips + s.tip;
        ts = ts + s.sponsor_amount;
        del = del + s.delegated_self;
        i += 1;
    }
    proof {
        assert(ss.take(m as int) =~= ss);
    }
    (base, tips, ts, del)
}

/// Counts the summaries that take part in the even split.
fn count_participants(summaries: &Vec<PersonSummary>, include_sponsor: bool) -> (n: usize)
    ensures
        n as int == participant_count(views_of_summaries(summaries@), include_sponsor),
        n <= summaries@.len(),
{
    let ghost ss = views_of_summaries(summaries@);
    let m = summaries.len();
    let mut count: usize = 0;
    proof {
        assert(ss.take(0) =~= Seq::<crate::models::SummaryModel>::empty());
    }
    let mut i: usize = 0;
    while i < m
        invariant
            m == summaries@.len(),
            ss == views_of_summaries(summaries@),
            i <= m,
            count as int == participant_count(ss.take(i as int), include_sponsor),
            count <= i,
        decreases m - i,
    {
        proof {
            assert(ss[i as int] == summaries@[i as int]@);
            assert(ss.take(i + 1).drop_last() =~= ss.take(i as int));
            assert(ss.take(i + 1).last() == ss[i as int]);
        }
        if include_sponsor || !summaries[i].is_sponsor {
            count += 1;
        }
        i += 1;
    }
    proof {
        assert(ss.take(m as int) =~= ss);
    }
    count
}

/// Builds one participant's settlement from the shared stage outputs.
fn build_settlement(
    s: &PersonSummary,
    ts: i128,
    tswt: i128,
    per: i128,
    include_sponsor: bool,
    p: i128,
    Ghost(nl): Ghost<int>,
) -> (r: Settlement)
    requires
        summary_bounded(s@, nl),
        0 <= nl <= LINE_LIMIT,
        -MONEY_SUM_CAP <= ts <= MONEY_SUM_CAP,
        -TSWT_CAP <= tswt <= TSWT_CAP,
        -POOL_CAP <= per <= POOL_CAP,
        0 <= p <= 100_000,
    ensures
        r@ == settle_summary(s@, ts as int, tswt as int, per as int, include_sponsor, p as int),
{
    proof {
        lemma_entry_caps(s@, nl);
    }
    let g: i128 = if p > 0 {
        proof {
            assert(-(SPENT_CAP * 100_000) <= s.amount_spent * p <= SPENT_CAP * 100_000)
                by (nonlinear_arith)
                requires
                    -SPENT_CAP <= s.amount_spent <= SPENT_CAP,
                    0 <= p <= 100_000,
                    SPENT_CAP > 0,
            ;
            assert(SPENT_CAP * 100_000 == 10 * SPENT_CAP * 10_000) by (nonlinear_arith);
        }
        let prod: i128 = s.amount_spent * p;
        proof {
            lemma_div_scaled(prod as int, 10_000, 10 * SPENT_CAP as int);
        }
        div_floor(prod, 10_000)
    } else {
        0
    };
    proof {
        assert(g == global_tip_part(s@.amount_spent, p as int));
        assert(-(10 * SPENT_CAP) <= g <= 10 * SPENT_CAP);
    }
    let tip_paid: i128 = s.tip + g;
    let spc: i128 = if s.is_sponsor {
        if ts > tswt {
            if ts > 0 {
                proof {
                    assert(-(MONEY_SUM_CAP * TSWT_CAP) <= s.sponsor_amount * tswt <= MONEY_SUM_CAP
                        * TSWT_CAP) by (nonlinear_arith)
                        requires
                            -MONEY_SUM_CAP <= s.sponsor_amount <= MONEY_SUM_CAP,
                            -TSWT_CAP <= tswt <= TSWT_CAP,
                            MONEY_SUM_CAP > 0,
                            TSWT_CAP > 0,
                    ;
                }
                let prod2: i128 = s.sponsor_amount * tswt;
                proof {
                    assert(-((MONEY_SUM_CAP * TSWT_CAP) * ts) <= prod2 <= (MONEY_SUM_CAP
                        * TSWT_CAP) * ts) by (nonlinear_arith)
                        requires
                            -(MONEY_SUM_CAP * TSWT_CAP) <= prod2 <= MONEY_SUM_CAP * TSWT_CAP,
                            ts >= 1,
                            MONEY_SUM_CAP * TSWT_CAP > 0,
                    ;
                    lemma_div_scaled(prod2 as int, ts as int, (MONEY_SUM_CAP * TSWT_CAP) as int);
                }
                div_floor(prod2, ts)
            } else {
                0
            }
        } else {
            s.sponsor_amount
        }
    } else {
        0
    };
    let shc: i128 = if include_sponsor || !s.is_sponsor {
        per
    } else {
        0
    };
    let cost: i128 = spc + shc + s.delegated_self + s.owes_to_others;
    let bal: i128 = s.amount_spent + tip_paid + s.will_receive_from_others - cost;
    let settlement_type: String = if bal > CENT {
        "receive".to_owned()
    } else if bal < -CENT {
        "pay".to_owned()
    } else {
        "settled".to_owned()
    };
    proof {
        assert(settlement_type@ == kind_label(bal as int));
    }
    let r = Settlement {
        name: s.name.clone(),
        amount_spent: s.amount_spent,
        tip_paid: tip_paid,
        sponsor_cost: spc,
        share_cost: shc,
        balance: bal,
        settlement_type: settlement_type,
        is_receiver: s.is_receiver,
    };
    proof {
        assert(r@ =~= settle_summary(
            s@,
            ts as int,
            tswt as int,
            per as int,
            include_sponsor,
            p as int,
        ));
    }
    r
}

/// The settlement engine. For any request within the stated bounds it
/// returns exactly the response of [`response_model`]: the aggregation, the
/// tip, sponsorship and share arithmetic, the classified balances, and the
/// final sort are all pinned down to the subunit.
pub fn calculate_split_internal(request: CalculateRequest) -> (response: CalculateResponse)
    requires
        request_valid(request@),
    ensures
        response@ == response_model(request@),
{
    let ghost req = request@;
    let include_sponsor = request.include_sponsor;
    let fund_amount = request.fund_amount;
    let tip_percentage = request.tip_percentage;
    let people = request.people;
    let ghost lines = req.people;
    proof {
        assert(lines == views_of_people(people@));
    }
    let summaries = aggregate_people(&people);
    let ghost ss = views_of_summaries(summaries@);
    proof {
        assert(ss == aggregate(lines));
        lemma_aggregate_bounded(lines);
        lemma_aggregate_len(lines);
        lemma_totals_caps(lines);
    }
    let totals = compute_totals(&summaries, Ghost(lines.len() as int));
    let base = totals.0;
    let tips = totals.1;
    let ts = totals.2;
    let del = totals.3;
    proof {
        assert(-(SPENT_CAP * 110_000) <= base * (10_000 + tip_percentage) <= SPENT_CAP
            * 110_000) by (nonlinear_arith)
            requires
                -SPENT_CAP <= base <= SPENT_CAP,
                10_000 <= 10_000 + tip_percentage <= 110_000,
                SPENT_CAP > 0,
        ;
        assert(SPENT_CAP * 110_000 == (11 * SPENT_CAP) * 10_000) by (nonlinear_arith);
    }
    let prod: i128 = base * (10_000 + tip_percentage);
    proof {
        lemma_div_scaled(prod as int, 10_000, 11 * SPENT_CAP as int);
    }
    let tswt: i128 = div_floor(prod, 10_000) + tips;
    proof {
        assert(tswt == spent_with_tip(base as int, tips as int, tip_percentage as int));
        assert(-TSWT_CAP <= tswt <= TSWT_CAP);
    }
    let eff: i128 = if ts > tswt {
        tswt
    } else {
        ts
    };
    let pool_raw: i128 = tswt - eff - fund_amount - del;
    let pool: i128 = if pool_raw < 0 {
        0
    } else {
        pool_raw
    };
    proof {
        assert(0 <= pool <= POOL_CAP);
    }
    let nparts = count_participants(&summaries, include_sponsor);
    let per: i128 = if nparts > 0 {
        proof {
            assert(POOL_CAP * 1 <= POOL_CAP * (nparts as int)) by (nonlinear_arith)
                requires
                    nparts >= 1,
                    POOL_CAP > 0,
            ;
            lemma_div_scaled(pool as int, nparts as int, POOL_CAP as int);
        }
        div_floor(pool, nparts as i128)
    } else {
        0
    };
    proof {
        assert(per == per_person_share_of(pool as int, nparts as int));
        assert(-POOL_CAP <= per <= POOL_CAP);
    }
    let m = summaries.len();
    let mut raw: Vec<Settlement> = Vec::new();
    proof {
        assert(ss.take(0) =~= Seq::<crate::models::SummaryModel>::empty());
        assert(views_of_settlements(raw@) =~= raw_settlements(
            ss.take(0),
            ts as int,
            tswt as int,
            per as int,
            include_sponsor,
            tip_percentage as int,
        ));
    }
    let mut i: usize = 0;
    while i < m
        invariant
            m == summaries@.len(),
            ss == views_of_summaries(summaries@),
            all_bounded(ss, lines.len() as int),
            lines.len() <= LINE_LIMIT,
            i <= m,
            -MONEY_SUM_CAP <= ts <= MONEY_SUM_CAP,
            -TSWT_CAP <= tswt <= TSWT_CAP,
            -POOL_CAP <= per <= POOL_CAP,
            0 <= tip_percentage <= 100_000,
            views_of_settlements(raw@) == raw_settlements(
                ss.take(i as int),
                ts as int,
                tswt as int,
                per as int,
                include_sponsor,
                tip_percentage as int,
            ),
        decreases m - i,
    {
        proof {
            assert(ss[i as int] == summaries@[i as int]@);
            assert(summary_bounded(ss[i as int], lines.len() as int));
        }
        let st = build_settlement(
            &summaries[i],
            ts,
            tswt,
            per,
            include_sponsor,
            tip_percentage,
            Ghost(lines.len() as int),
        );
        raw.push(st);
        proof {
            crate::settle::lemma_raw_settlements_step(
                ss,
                i as int,
                ts as int,
                tswt as int,
                per as int,
                include_sponsor,
                tip_percentage as int,
            );
            assert(views_of_settlements(raw@) =~= raw_settlements(
                ss.take(i as int),
                ts as int,
                tswt as int,
                per as int,
                include_sponsor,
                tip_percentage as int,
            ).push(st@));
        }
        i += 1;
    }
    proof {
        assert(ss.take(m as int) =~= ss);
    }
    let settlements = sort_settlements(raw);
    let response = CalculateResponse {
        total_spent: base + tips,
        total_sponsored: eff,
        fund_amount: fund_amount,
        total_tip: tswt - (base + tips),
        amount_to_share: pool,
        num_participants: nparts,
        per_person_share: per,
        settlements: settlements,
    };
    proof {
        assert(response@ =~= response_model(req));
    }
    response
}

} // verus!
