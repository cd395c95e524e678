//! The settlement engine on concrete ledgers. Money is fixed-point with
//! eight decimal places: `money(100)` is 100.00 in the group's currency,
//! and the 0.01 classification band of the interface is `CENT` subunits.

use split_bills::engine::calculate_split_internal;
use split_bills::models::{CalculateRequest, Person, CENT, PERCENT, UNIT};

fn money(x: i128) -> i128 {
    x * UNIT
}

fn percent(x: i128) -> i128 {
    x * PERCENT
}

fn create_person(
    id: u64,
    name: &str,
    amount_spent: i128,
    quantity: u32,
    tip: i128,
    paid_by: Option<String>,
) -> Person {
    Person {
        id,
        name: name.to_string(),
        description: String::new(),
        amount_spent,
        quantity,
        tip,
        is_sponsor: false,
        sponsor_amount: 0,
        is_receiver: false,
        paid_by,
    }
}

#[test]
fn test_simple_equal_split() {
    let people = vec![
        create_person(1, "Alice", money(100), 1, money(10), None),
        create_person(2, "Bob", money(0), 1, money(0), None),
    ];

    let request = CalculateRequest {
        people,
        include_sponsor: false,
        restrict_sponsor_to_spent: Some(true),
        fund_amount: 0,
        tip_percentage: 0,
    };

    let response = calculate_split_internal(request);

    assert_eq!(response.total_spent, money(110));
    assert_eq!(response.num_participants, 2);
    assert_eq!(response.per_person_share, money(55));

    let alice = response.settlements.iter().find(|s| s.name == "Alice").unwrap();
    let bob = response.settlements.iter().find(|s| s.name == "Bob").unwrap();

    assert_eq!(alice.balance, money(55));
    assert_eq!(alice.settlement_type, "receive");
    assert_eq!(bob.balance, -money(55));
    assert_eq!(bob.settlement_type, "pay");
}

#[test]
fn test_reimbursement_paid_by_other() {
    let people = vec![
        create_person(1, "Son", money(1000), 1, money(0), Some("Tuan".to_string())),
        create_person(2, "Tuan", money(0), 1, money(0), None),
    ];

    let request = CalculateRequest {
        people,
        include_sponsor: false,
        restrict_sponsor_to_spent: Some(true),
        fund_amount: 0,
        tip_percentage: 0,
    };

    let response = calculate_split_internal(request);

    assert_eq!(response.amount_to_share, money(0));
    assert_eq!(response.per_person_share, money(0));

    let son = response.settlements.iter().find(|s| s.name == "Son").unwrap();
    let tuan = response.settlements.iter().find(|s| s.name == "Tuan").unwrap();

    assert_eq!(son.balance, money(1000));
    assert_eq!(son.settlement_type, "receive");
    assert_eq!(tuan.balance, -money(1000));
    assert_eq!(tuan.settlement_type, "pay");
}

#[test]
fn test_private_expense_paid_by_self() {
    let people = vec![
        create_person(1, "Son", money(1000), 1, money(0), Some("Son".to_string())),
        create_person(2, "Bob", money(500), 1, money(0), None),
    ];

    let request = CalculateRequest {
        people,
        include_sponsor: false,
        restrict_sponsor_to_spent: Some(true),
        fund_amount: 0,
        tip_percentage: 0,
    };

    let response = calculate_split_internal(request);

    assert_eq!(response.amount_to_share, money(500));
    assert_eq!(response.per_person_share, money(250));

    let son = response.settlements.iter().find(|s| s.name == "Son").unwrap();
    let bob = response.settlements.iter().find(|s| s.name == "Bob").unwrap();

    assert_eq!(son.balance, -money(250));
    assert_eq!(son.settlement_type, "pay");
    assert_eq!(bob.balance, money(250));
    assert_eq!(bob.settlement_type, "receive");
}

#[test]
fn test_complex_scenario_multiple_reimbursements() {
    let people = vec![
        create_person(1, "Son", money(990), 1, money(99), Some("Tuan".to_string())),
        create_person(2, "Son", money(990), 1, money(99), Some("Doffy".to_string())),
        create_person(3, "Son", money(500), 1, money(50), Some("Doffy".to_string())),
        create_person(4, "Son", money(990), 2, money(99), Some("Dac".to_string())),
        create_person(5, "Son", money(500), 1, money(50), Some("Tuan".to_string())),
        create_person(6, "Dac", money(0), 1, money(0), None),
        create_person(7, "Doffy", money(0), 1, money(0), None),
        create_person(8, "Tuan", money(0), 1, money(0), None),
    ];

    let request = CalculateRequest {
        people,
        include_sponsor: false,
        restrict_sponsor_to_spent: Some(true),
        fund_amount: 0,
        tip_percentage: 0,
    };

    let response = calculate_split_internal(request);

    assert_eq!(response.amount_to_share, money(0));

    let son = response.settlements.iter().find(|s| s.name == "Son").unwrap();
    let dac = response.settlements.iter().find(|s| s.name == "Dac").unwrap();
    let doffy = response.settlements.iter().find(|s| s.name == "Doffy").unwrap();
    let tuan = response.settlements.iter().find(|s| s.name == "Tuan").unwrap();

    let tuan_owes = money(1089) + money(550);
    let doffy_owes = money(1089) + money(550);
    let dac_owes = money(2079);

    assert_eq!(son.balance, tuan_owes + doffy_owes + dac_owes);
    assert_eq!(son.settlement_type, "receive");

    assert_eq!(tuan.balance, -tuan_owes);
    assert_eq!(tuan.settlement_type, "pay");
    assert_eq!(doffy.balance, -doffy_owes);
    assert_eq!(doffy.settlement_type, "pay");
    assert_eq!(dac.balance, -dac_owes);
    assert_eq!(dac.settlement_type, "pay");

    let total_balance: i128 = response.settlements.iter().map(|s| s.balance).sum();
    assert!(
        total_balance.abs() < CENT,
        "Total balance should be near zero, got {}",
        total_balance
    );
}

#[test]
fn test_quantity_multiplier() {
    let people = vec![
        create_person(1, "Alice", money(100), 2, money(10), None),
        create_person(2, "Bob", money(0), 1, money(0), None),
    ];

    let request = CalculateRequest {
        people,
        include_sponsor: false,
        restrict_sponsor_to_spent: Some(true),
        fund_amount: 0,
        tip_percentage: 0,
    };

    let response = calculate_split_internal(request);

    assert_eq!(response.total_spent, money(210));
    assert_eq!(response.per_person_share, money(105));
}

#[test]
fn test_mixed_reimbursement_and_shared() {
    let people = vec![
        create_person(1, "Alice", money(100), 1, money(0), None),
        create_person(2, "Bob", money(50), 1, money(0), Some("Charlie".to_string())),
        create_person(3, "Charlie", money(0), 1, money(0), None),
    ];

    let request = CalculateRequest {
        people,
        include_sponsor: false,
        restrict_sponsor_to_spent: Some(true),
        fund_amount: 0,
        tip_percentage: 0,
    };

    let response = calculate_split_internal(request);

    assert_eq!(response.amount_to_share, money(100));
    assert_eq!(response.per_person_share, money(100) / 3);

    let alice = response.settlements.iter().find(|s| s.name == "Alice").unwrap();
    let bob = response.settlements.iter().find(|s| s.name == "Bob").unwrap();
    let charlie = response.settlements.iter().find(|s| s.name == "Charlie").unwrap();

    let share = money(100) / 3;

    assert!((alice.balance - (money(100) - share)).abs() < CENT);
    assert!((bob.balance - (money(50) - share)).abs() < CENT);
    assert!((charlie.balance - (-money(50) - share)).abs() < CENT);
}

#[test]
fn test_global_tip_percentage() {
    let people = vec![
        create_person(1, "Alice", money(100), 1, money(0), None),
        create_person(2, "Bob", money(0), 1, money(0), None),
    ];

    let request = CalculateRequest {
        people,
        include_sponsor: false,
        restrict_sponsor_to_spent: Some(true),
        fund_amount: 0,
        tip_percentage: percent(10),
    };

    let response = calculate_split_internal(request);

    assert_eq!(response.total_spent, money(100));
    assert!((response.total_tip - money(10)).abs() < CENT);
    assert!((response.per_person_share - money(55)).abs() < CENT);
}

#[test]
fn test_sponsor_expense() {
    let mut alice = create_person(1, "Alice", money(100), 1, money(0), None);
    alice.is_sponsor = true;
    alice.sponsor_amount = money(100);

    let people = vec![
        alice,
        create_person(2, "Bob", money(50), 1, money(0), None),
        create_person(3, "Charlie", money(0), 1, money(0), None),
    ];

    let request = CalculateRequest {
        people,
        include_sponsor: true,
        restrict_sponsor_to_spent: Some(true),
        fund_amount: 0,
        tip_percentage: 0,
    };

    let response = calculate_split_internal(request);

    assert_eq!(response.total_sponsored, money(100));
    assert_eq!(response.amount_to_share, money(50));

    let alice = response.settlements.iter().find(|s| s.name == "Alice").unwrap();
    assert!(alice.sponsor_cost > 0);
}

#[test]
fn test_fund_amount() {
    let people = vec![
        create_person(1, "Alice", money(100), 1, money(0), None),
        create_person(2, "Bob", money(0), 1, money(0), None),
    ];

    let request = CalculateRequest {
        people,
        include_sponsor: false,
        restrict_sponsor_to_spent: Some(true),
        fund_amount: money(20),
        tip_percentage: 0,
    };

    let response = calculate_split_internal(request);

    assert_eq!(response.fund_amount, money(20));
    assert_eq!(response.amount_to_share, money(80));
    assert_eq!(response.per_person_share, money(40));

    let alice = response.settlements.iter().find(|s| s.name == "Alice").unwrap();
    let bob = response.settlements.iter().find(|s| s.name == "Bob").unwrap();

    assert_eq!(alice.balance, money(60));
    assert_eq!(bob.balance, -money(40));
}

#[test]
fn test_empty_people_list() {
    let request = CalculateRequest {
        people: vec![],
        include_sponsor: false,
        restrict_sponsor_to_spent: Some(true),
        fund_amount: 0,
        tip_percentage: 0,
    };

    let response = calculate_split_internal(request);

    assert_eq!(response.total_spent, money(0));
    assert_eq!(response.num_participants, 0);
    assert_eq!(response.settlements.len(), 0);
}

#[test]
fn test_single_person() {
    let people = vec![create_person(1, "Alice", money(100), 1, money(10), None)];

    let request = CalculateRequest {
        people,
        include_sponsor: false,
        restrict_sponsor_to_spent: Some(true),
        fund_amount: 0,
        tip_percentage: 0,
    };

    let response = calculate_split_internal(request);

    assert_eq!(response.total_spent, money(110));
    assert_eq!(response.num_participants, 1);
    assert_eq!(response.per_person_share, money(110));

    let alice = response.settlements.iter().find(|s| s.name == "Alice").unwrap();
    assert_eq!(alice.balance, money(0));
    assert_eq!(alice.settlement_type, "settled");
}

#[test]
fn test_receiver_flag() {
    let mut alice = create_person(1, "Alice", money(100), 1, money(0), None);
    alice.is_receiver = true;

    let people = vec![alice, create_person(2, "Bob", money(0), 1, money(0), None)];

    let request = CalculateRequest {
        people,
        include_sponsor: false,
        restrict_sponsor_to_spent: Some(true),
        fund_amount: 0,
        tip_percentage: 0,
    };

    let response = calculate_split_internal(request);

    let alice = response.settlements.iter().find(|s| s.name == "Alice").unwrap();
    assert!(alice.is_receiver);
}

#[test]
fn test_large_quantity() {
    let people = vec![
        create_person(1, "Alice", money(10), 100, money(5), None),
        create_person(2, "Bob", money(0), 1, money(0), None),
    ];

    let request = CalculateRequest {
        people,
        include_sponsor: false,
        restrict_sponsor_to_spent: Some(true),
        fund_amount: 0,
        tip_percentage: 0,
    };

    let response = calculate_split_internal(request);

    assert_eq!(response.total_spent, money(1005));
    assert_eq!(response.per_person_share, money(1005) / 2);
}

#[test]
fn test_all_private_expenses() {
    let people = vec![
        create_person(1, "Alice", money(100), 1, money(0), Some("Alice".to_string())),
        create_person(2, "Bob", money(50), 1, money(0), Some("Bob".to_string())),
        create_person(3, "Charlie", money(75), 1, money(0), Some("Charlie".to_string())),
    ];

    let request = CalculateRequest {
        people,
        include_sponsor: false,
        restrict_sponsor_to_spent: Some(true),
        fund_amount: 0,
        tip_percentage: 0,
    };

    let response = calculate_split_internal(request);

    assert_eq!(response.amount_to_share, money(0));
    assert_eq!(response.per_person_share, money(0));

    for settlement in &response.settlements {
        assert_eq!(settlement.balance, money(0));
        assert_eq!(settlement.settlement_type, "settled");
    }
}

#[test]
fn test_duplicate_names() {
    let people = vec![
        create_person(1, "Alice", money(100), 1, money(10), None),
        create_person(2, "Alice", money(50), 1, money(5), None),
        create_person(3, "Bob", money(0), 1, money(0), None),
    ];

    let request = CalculateRequest {
        people,
        include_sponsor: false,
        restrict_sponsor_to_spent: Some(true),
        fund_amount: 0,
        tip_percentage: 0,
    };

    let response = calculate_split_internal(request);

    assert_eq!(response.settlements.len(), 2);

    let alice = response.settlements.iter().find(|s| s.name == "Alice").unwrap();
    assert_eq!(alice.amount_spent, money(150));
    assert_eq!(alice.tip_paid, money(15));
}

#[test]
fn test_zero_amounts() {
    let people = vec![
        create_person(1, "Alice", money(0), 1, money(0), None),
        create_person(2, "Bob", money(0), 1, money(0), None),
    ];

    let request = CalculateRequest {
        people,
        include_sponsor: false,
        restrict_sponsor_to_spent: Some(true),
        fund_amount: 0,
        tip_percentage: 0,
    };

    let response = calculate_split_internal(request);

    assert_eq!(response.total_spent, money(0));
    assert_eq!(response.amount_to_share, money(0));

    for settlement in &response.settlements {
        assert_eq!(settlement.balance, money(0));
        assert_eq!(settlement.settlement_type, "settled");
    }
}

#[test]
fn test_high_tip_percentage() {
    let people = vec![
        create_person(1, "Alice", money(100), 1, money(0), None),
        create_person(2, "Bob", money(100), 1, money(0), None),
    ];

    let request = CalculateRequest {
        people,
        include_sponsor: false,
        restrict_sponsor_to_spent: Some(true),
        fund_amount: 0,
        tip_percentage: percent(25),
    };

    let response = calculate_split_internal(request);

    assert_eq!(response.total_spent, money(200));
    assert!((response.total_tip - money(50)).abs() < CENT);
    assert!((response.per_person_share - money(125)).abs() < CENT);
}

#[test]
fn test_reimbursement_with_tip() {
    let people = vec![
        create_person(1, "Alice", money(100), 1, money(20), Some("Bob".to_string())),
        create_person(2, "Bob", money(0), 1, money(0), None),
    ];

    let request = CalculateRequest {
        people,
        include_sponsor: false,
        restrict_sponsor_to_spent: Some(true),
        fund_amount: 0,
        tip_percentage: 0,
    };

    let response = calculate_split_internal(request);

    assert_eq!(response.amount_to_share, money(0));

    let alice = response.settlements.iter().find(|s| s.name == "Alice").unwrap();
    let bob = response.settlements.iter().find(|s| s.name == "Bob").unwrap();

    assert_eq!(alice.balance, money(120));
    assert_eq!(bob.balance, -money(120));
}

#[test]
fn test_simple_split() {
    let request = CalculateRequest {
        people: vec![
            Person {
                id: 1,
                name: "Alice".to_string(),
                description: "Dinner".to_string(),
                amount_spent: money(100),
                quantity: 1,
                tip: 0,
                is_sponsor: false,
                sponsor_amount: 0,
                is_receiver: false,
                paid_by: None,
            },
            Person {
                id: 2,
                name: "Bob".to_string(),
                description: "".to_string(),
                amount_spent: money(0),
                quantity: 1,
                tip: 0,
                is_sponsor: false,
                sponsor_amount: 0,
                is_receiver: false,
                paid_by: None,
            },
        ],
        include_sponsor: true,
        restrict_sponsor_to_spent: Some(true),
        fund_amount: 0,
        tip_percentage: 0,
    };

    let response = calculate_split_internal(request);

    assert_eq!(response.total_spent, money(100));
    assert_eq!(response.per_person_share, money(50));
    assert_eq!(response.settlements.len(), 2);
}
