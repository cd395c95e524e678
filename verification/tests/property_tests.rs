//! The stated properties of the engine on concrete ledgers: the zero-sum
//! invariant, the sponsorship cap, duplicate-name aggregation, the sorted
//! presentation order and idempotence.

use split_bills::engine::calculate_split_internal;
use split_bills::models::{CalculateRequest, CalculateResponse, Person, CENT, PERCENT, UNIT};

fn money(x: i128) -> i128 {
    x * UNIT
}

fn line(id: u64, name: &str, amount: i128, tip: i128, paid_by: Option<&str>) -> Person {
    Person {
        id,
        name: name.to_string(),
        description: String::new(),
        amount_spent: amount,
        quantity: 1,
        tip,
        is_sponsor: false,
        sponsor_amount: 0,
        is_receiver: false,
        paid_by: paid_by.map(|s| s.to_string()),
    }
}

fn sample_request() -> CalculateRequest {
    let mut sponsor = line(1, "Daria", money(80), money(8), None);
    sponsor.is_sponsor = true;
    sponsor.sponsor_amount = money(30);
    CalculateRequest {
        people: vec![
            sponsor,
            line(2, "Emil", money(120), 0, None),
            line(3, "Farid", money(40), 0, Some("Emil")),
            line(4, "Gwen", money(25), 0, Some("Gwen")),
            line(5, "Emil", 0, 0, None),
        ],
        include_sponsor: true,
        restrict_sponsor_to_spent: None,
        fund_amount: 0,
        tip_percentage: 0,
    }
}

fn assert_same_response(a: &CalculateResponse, b: &CalculateResponse) {
    assert_eq!(a.total_spent, b.total_spent);
    assert_eq!(a.total_sponsored, b.total_sponsored);
    assert_eq!(a.fund_amount, b.fund_amount);
    assert_eq!(a.total_tip, b.total_tip);
    assert_eq!(a.amount_to_share, b.amount_to_share);
    assert_eq!(a.num_participants, b.num_participants);
    assert_eq!(a.per_person_share, b.per_person_share);
    assert_eq!(a.settlements.len(), b.settlements.len());
    for (x, y) in a.settlements.iter().zip(b.settlements.iter()) {
        assert_eq!(x.name, y.name);
        assert_eq!(x.amount_spent, y.amount_spent);
        assert_eq!(x.tip_paid, y.tip_paid);
        assert_eq!(x.sponsor_cost, y.sponsor_cost);
        assert_eq!(x.share_cost, y.share_cost);
        assert_eq!(x.balance, y.balance);
        assert_eq!(x.settlement_type, y.settlement_type);
        assert_eq!(x.is_receiver, y.is_receiver);
    }
}

#[test]
fn zero_sum_on_mixed_ledger() {
    let response = calculate_split_internal(sample_request());
    let total: i128 = response.settlements.iter().map(|s| s.balance).sum();
    assert!(total.abs() < CENT, "expected a balanced ledger, got {}", total);
}

#[test]
fn sponsorship_cap_holds_when_oversubscribed() {
    let mut sponsor = line(1, "Hana", money(100), 0, None);
    sponsor.is_sponsor = true;
    sponsor.sponsor_amount = money(100);
    let request = CalculateRequest {
        people: vec![sponsor, line(2, "Ivo", money(50), 0, None)],
        include_sponsor: true,
        restrict_sponsor_to_spent: None,
        fund_amount: 0,
        tip_percentage: 0,
    };
    let response = calculate_split_internal(request);
    // Total spend is 150; the 100 sponsorship fits under it and the
    // remaining 50 is split among everyone.
    assert_eq!(response.total_sponsored, money(100));
    assert_eq!(response.amount_to_share, money(50));
    assert_eq!(response.per_person_share, money(25));

    // Oversubscribed: sponsorship 300 against a spend of 150 is capped.
    let mut sponsor = line(1, "Hana", money(100), 0, None);
    sponsor.is_sponsor = true;
    sponsor.sponsor_amount = money(300);
    let request = CalculateRequest {
        people: vec![sponsor, line(2, "Ivo", money(50), 0, None)],
        include_sponsor: true,
        restrict_sponsor_to_spent: None,
        fund_amount: 0,
        tip_percentage: 0,
    };
    let response = calculate_split_internal(request);
    assert_eq!(response.total_sponsored, money(150));
    assert_eq!(response.amount_to_share, money(0));
    // The sponsor's effective cost is scaled by the same cap:
    // 300 * 150 / 300 = 150.
    let hana = response.settlements.iter().find(|s| s.name == "Hana").unwrap();
    assert_eq!(hana.sponsor_cost, money(150));
}

#[test]
fn excluded_sponsor_pays_no_share() {
    let mut sponsor = line(1, "Jude", money(0), 0, None);
    sponsor.is_sponsor = true;
    sponsor.sponsor_amount = money(40);
    let request = CalculateRequest {
        people: vec![sponsor, line(2, "Kim", money(100), 0, None), line(3, "Lou", 0, 0, None)],
        include_sponsor: false,
        restrict_sponsor_to_spent: None,
        fund_amount: 0,
        tip_percentage: 0,
    };
    let response = calculate_split_internal(request);
    // 100 spent, 40 sponsored: 60 split between the two non-sponsors.
    assert_eq!(response.amount_to_share, money(60));
    assert_eq!(response.num_participants, 2);
    assert_eq!(response.per_person_share, money(30));
    let jude = response.settlements.iter().find(|s| s.name == "Jude").unwrap();
    assert_eq!(jude.share_cost, money(0));
    let kim = response.settlements.iter().find(|s| s.name == "Kim").unwrap();
    assert_eq!(kim.share_cost, money(30));
}

#[test]
fn global_tip_rounds_down_to_the_subunit() {
    // 33 subunits at 10%: the exact tip of 3.3 subunits rounds down to 3,
    // both in the total and in the payer's own tip share; amounts this far
    // below a cent all classify as settled.
    let request = CalculateRequest {
        people: vec![line(1, "Ann", 33, 0, None), line(2, "Ben", 0, 0, None)],
        include_sponsor: false,
        restrict_sponsor_to_spent: None,
        fund_amount: 0,
        tip_percentage: 10 * PERCENT,
    };
    let response = calculate_split_internal(request);
    assert_eq!(response.total_spent, 33);
    assert_eq!(response.total_tip, 3);
    assert_eq!(response.amount_to_share, 36);
    assert_eq!(response.per_person_share, 18);
    let ann = response.settlements.iter().find(|s| s.name == "Ann").unwrap();
    assert_eq!(ann.tip_paid, 3);
    assert_eq!(ann.balance, 18);
    assert_eq!(ann.settlement_type, "settled");
    let ben = response.settlements.iter().find(|s| s.name == "Ben").unwrap();
    assert_eq!(ben.balance, -18);
    assert_eq!(ben.settlement_type, "settled");
}

#[test]
fn fractional_tip_percentage_is_exact() {
    // 2.5% of 200.00 is exactly 5.00: the percentage carries two decimal
    // places of its own.
    let request = CalculateRequest {
        people: vec![line(1, "Eve", money(200), 0, None), line(2, "Fay", 0, 0, None)],
        include_sponsor: false,
        restrict_sponsor_to_spent: None,
        fund_amount: 0,
        tip_percentage: 2 * PERCENT + 50,
    };
    let response = calculate_split_internal(request);
    assert_eq!(response.total_spent, money(200));
    assert_eq!(response.total_tip, money(5));
    assert_eq!(response.per_person_share, money(205) / 2);
}

#[test]
fn balances_sum_to_the_fund() {
    // A flat fund is outside cash: the ledger's net sum equals it exactly
    // here, and stays within a cent of it in general.
    let request = CalculateRequest {
        people: vec![line(1, "Gil", money(100), 0, None), line(2, "Hal", 0, 0, None)],
        include_sponsor: false,
        restrict_sponsor_to_spent: None,
        fund_amount: money(20),
        tip_percentage: 0,
    };
    let response = calculate_split_internal(request);
    let total: i128 = response.settlements.iter().map(|s| s.balance).sum();
    assert_eq!(total, money(20));
    assert!((total - money(20)).abs() < CENT);
}

#[test]
fn capped_sponsor_costs_collect_within_a_cent() {
    // Two one-subunit sponsors against a capped spend of one subunit: each
    // scaled cost rounds down to nothing, so the collection falls short of
    // the cap — but only by a single subunit, far inside the cent band.
    let mut s1 = line(1, "Ute", 0, 0, None);
    s1.is_sponsor = true;
    s1.sponsor_amount = 1;
    let mut s2 = line(2, "Vera", 0, 0, None);
    s2.is_sponsor = true;
    s2.sponsor_amount = 1;
    let request = CalculateRequest {
        people: vec![s1, s2, line(3, "Wim", 1, 0, None)],
        include_sponsor: true,
        restrict_sponsor_to_spent: None,
        fund_amount: 0,
        tip_percentage: 0,
    };
    let response = calculate_split_internal(request);
    assert_eq!(response.total_sponsored, 1);
    let collected: i128 = response.settlements.iter().map(|s| s.sponsor_cost).sum();
    assert_eq!(collected, 0);
    assert!(response.total_sponsored - collected < CENT);
}

#[test]
fn settlements_sorted_payers_first() {
    let request = CalculateRequest {
        people: vec![
            line(1, "Mara", money(90), 0, None),
            line(2, "Nils", money(30), 0, None),
            line(3, "Odin", money(0), 0, None),
        ],
        include_sponsor: false,
        restrict_sponsor_to_spent: None,
        fund_amount: 0,
        tip_percentage: 0,
    };
    let response = calculate_split_internal(request);
    // Shares of 40 each: Odin owes 40, Nils owes 10, Mara receives 50.
    assert_eq!(response.settlements[0].name, "Odin");
    assert_eq!(response.settlements[1].name, "Nils");
    assert_eq!(response.settlements[2].name, "Mara");
    for pair in response.settlements.windows(2) {
        assert!(pair[0].balance <= pair[1].balance);
    }
}

#[test]
fn equal_balances_ordered_by_name() {
    let request = CalculateRequest {
        people: vec![
            line(1, "Rex", money(50), 0, None),
            line(2, "Pia", money(50), 0, None),
            line(3, "Quin", money(50), 0, None),
        ],
        include_sponsor: false,
        restrict_sponsor_to_spent: None,
        fund_amount: 0,
        tip_percentage: 0,
    };
    let response = calculate_split_internal(request);
    // Everyone is settled, so the tie is broken by name.
    assert_eq!(response.settlements[0].name, "Pia");
    assert_eq!(response.settlements[1].name, "Quin");
    assert_eq!(response.settlements[2].name, "Rex");
}

#[test]
fn rerun_yields_identical_response() {
    let first = calculate_split_internal(sample_request());
    let second = calculate_split_internal(sample_request());
    assert_same_response(&first, &second);
}

#[test]
fn forward_reference_to_later_payer() {
    // The payer of the first line only appears as an owner later on.
    let request = CalculateRequest {
        people: vec![
            line(1, "Sol", money(60), 0, Some("Tam")),
            line(2, "Tam", money(30), 0, None),
        ],
        include_sponsor: false,
        restrict_sponsor_to_spent: None,
        fund_amount: 0,
        tip_percentage: 0,
    };
    let response = calculate_split_internal(request);
    assert_eq!(response.settlements.len(), 2);
    let sol = response.settlements.iter().find(|s| s.name == "Sol").unwrap();
    let tam = response.settlements.iter().find(|s| s.name == "Tam").unwrap();
    // Shared pool is Tam's 30, split 15 each; Tam also owes Sol 60.
    assert_eq!(sol.balance, money(60) - money(15));
    assert_eq!(tam.balance, money(30) - money(15) - money(60));
    let total: i128 = response.settlements.iter().map(|s| s.balance).sum();
    assert_eq!(total, 0);
}

#[test]
fn payer_only_participant_gets_a_settlement() {
    // A name that never owns a line still settles what it owes.
    let request = CalculateRequest {
        people: vec![line(1, "Uma", money(75), 0, Some("Vik"))],
        include_sponsor: false,
        restrict_sponsor_to_spent: None,
        fund_amount: 0,
        tip_percentage: 0,
    };
    let response = calculate_split_internal(request);
    assert_eq!(response.settlements.len(), 2);
    let vik = response.settlements.iter().find(|s| s.name == "Vik").unwrap();
    assert_eq!(vik.balance, -money(75));
    assert_eq!(vik.settlement_type, "pay");
}

#[test]
fn one_cent_band_is_settled() {
    // A balance of exactly one cent in either direction stays settled.
    let request = CalculateRequest {
        people: vec![
            line(1, "Wes", 2 * CENT, 0, None),
            line(2, "Xia", 0, 0, None),
        ],
        include_sponsor: false,
        restrict_sponsor_to_spent: None,
        fund_amount: 0,
        tip_percentage: 0,
    };
    let response = calculate_split_internal(request);
    // Each share is one cent: Wes is up one cent, Xia down one cent.
    let wes = response.settlements.iter().find(|s| s.name == "Wes").unwrap();
    let xia = response.settlements.iter().find(|s| s.name == "Xia").unwrap();
    assert_eq!(wes.balance, CENT);
    assert_eq!(wes.settlement_type, "settled");
    assert_eq!(xia.balance, -CENT);
    assert_eq!(xia.settlement_type, "settled");
}

#[test]
fn indivisible_pool_stays_within_band() {
    // Five cents among three participants: the share rounds down, the two
    // lost subunits stay with the group, and the ledger still sums to far
    // within a cent.
    let request = CalculateRequest {
        people: vec![
            line(1, "Ada", 5 * CENT, 0, None),
            line(2, "Bo", 0, 0, None),
            line(3, "Cy", 0, 0, None),
        ],
        include_sponsor: false,
        restrict_sponsor_to_spent: None,
        fund_amount: 0,
        tip_percentage: 0,
    };
    let response = calculate_split_internal(request);
    let share = 5 * CENT / 3;
    assert_eq!(response.per_person_share, share);
    let ada = response.settlements.iter().find(|s| s.name == "Ada").unwrap();
    assert_eq!(ada.balance, 5 * CENT - share);
    assert_eq!(ada.settlement_type, "receive");
    let bo = response.settlements.iter().find(|s| s.name == "Bo").unwrap();
    assert_eq!(bo.balance, -share);
    assert_eq!(bo.settlement_type, "pay");
    let total: i128 = response.settlements.iter().map(|s| s.balance).sum();
    assert_eq!(total, 5 * CENT % 3);
    assert!(total.abs() < CENT);
}

#[test]
fn negative_amount_reduces_the_pool() {
    // Negative amounts are accepted and simply subtract.
    let request = CalculateRequest {
        people: vec![
            line(1, "Yan", money(100), 0, None),
            line(2, "Yan", -money(40), 0, None),
            line(3, "Zoe", 0, 0, None),
        ],
        include_sponsor: false,
        restrict_sponsor_to_spent: None,
        fund_amount: 0,
        tip_percentage: 0,
    };
    let response = calculate_split_internal(request);
    assert_eq!(response.total_spent, money(60));
    assert_eq!(response.per_person_share, money(30));
    let yan = response.settlements.iter().find(|s| s.name == "Yan").unwrap();
    assert_eq!(yan.balance, money(30));
}
