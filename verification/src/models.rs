//! Data types of the settlement engine and their mathematical models.
//!
//! Money is a fixed-point integer with eight decimal places: [`UNIT`]
//! subunits make one currency unit, and [`CENT`] subunits make one cent,
//! the classification band of the settlement rules. The fine grain is the
//! point of the representation: a division can lose at most one subunit per
//! participant, so all the rounding in a maximal request stays several
//! orders of magnitude inside the one-cent band. The global tip percentage
//! is likewise a fixed-point integer, in hundredths of a percent
//! ([`PERCENT`] per whole percent). Each executable type has a ghost model
//! (its view) over `int` and `Seq<char>`, and every contract in the crate
//! speaks about those models.

use vstd::prelude::*;

verus! {

/// Subunits in one currency unit: money has eight decimal places.
pub const UNIT: i128 = 100_000_000;

/// Subunits in one hundredth of a currency unit: the classification band.
pub const CENT: i128 = 1_000_000;

/// Tip-percentage steps in one percent: percentages have two decimal
/// places.
pub const PERCENT: i128 = 100;

/// Largest magnitude accepted for a single line's `amount_spent`, `tip` or
/// `sponsor_amount`, in subunits (ten thousand currency units). Together
/// with the other limits it keeps every intermediate engine value far
/// inside the `i128` range.
pub const AMOUNT_LIMIT: i128 = 1_000_000_000_000;

/// Largest accepted `quantity` multiplier on one line.
pub const QUANTITY_LIMIT: u32 = 10_000;

/// Largest accepted number of expense lines in one request.
pub const LINE_LIMIT: usize = 10_000;

/// Largest accepted global tip percentage, in hundredths of a percent.
pub const TIP_PERCENT_LIMIT: i128 = 100_000;

/// Largest magnitude accepted for the flat fund amount, in subunits.
pub const FUND_LIMIT: i128 = 1_000_000_000_000_000_000;

/// Default quantity multiplier for an expense line that does not name one.
pub fn default_quantity() -> (q: u32)
    ensures
        q == 1,
{
    1
}

/// One expense line item: a single contribution, not a whole person. The same
/// participant name may appear on any number of lines.
pub struct Person {
    /// Opaque identifier; never used in the arithmetic.
    pub id: u64,
    /// Participant identity key; grouping is by exact match.
    pub name: String,
    /// Free-form description; never used in the arithmetic.
    pub description: String,
    /// Unit price of this line, in money subunits; may be zero or negative.
    pub amount_spent: i128,
    /// Multiplier for `amount_spent`; the effective spend is the product.
    pub quantity: u32,
    /// Explicit tip attached to this line, in subunits; never multiplied.
    pub tip: i128,
    /// Marks this participant as a sponsor (sticky across lines).
    pub is_sponsor: bool,
    /// Flat sponsorship contribution of this line, in subunits.
    pub sponsor_amount: i128,
    /// Display-only flag propagated to the output (sticky across lines).
    pub is_receiver: bool,
    /// `None`: normal shared expense. `Some(name)` equal to `name`: private
    /// expense. `Some(other)`: the named payer owes this line's owner.
    pub paid_by: Option<String>,
}

/// Ghost model of one expense line.
#[verifier::ext_equal]
pub ghost struct LineModel {
    pub name: Seq<char>,
    pub amount_spent: int,
    pub quantity: int,
    pub tip: int,
    pub is_sponsor: bool,
    pub sponsor_amount: int,
    pub is_receiver: bool,
    pub paid_by: Option<Seq<char>>,
}

impl View for Person {
    type V = LineModel;

    open spec fn view(&self) -> LineModel {
        LineModel {
            name: self.name@,
            amount_spent: self.amount_spent as int,
            quantity: self.quantity as int,
            tip: self.tip as int,
            is_sponsor: self.is_sponsor,
            sponsor_amount: self.sponsor_amount as int,
            is_receiver: self.is_receiver,
            paid_by: match self.paid_by {
                Option::Some(p) => Option::Some(p@),
                Option::None => Option::None,
            },
        }
    }
}

/// The effective spend of one line: unit price times quantity.
pub open spec fn line_spend(l: LineModel) -> int {
    l.amount_spent * l.quantity
}

/// The effective spend of one line plus its explicit tip.
pub open spec fn line_total(l: LineModel) -> int {
    line_spend(l) + l.tip
}

/// Bounds on one line that keep the engine's arithmetic inside `i128`.
pub open spec fn line_valid(l: LineModel) -> bool {
    &&& -AMOUNT_LIMIT <= l.amount_spent <= AMOUNT_LIMIT
    &&& 0 <= l.quantity <= QUANTITY_LIMIT
    &&& -AMOUNT_LIMIT <= l.tip <= AMOUNT_LIMIT
    &&& -AMOUNT_LIMIT <= l.sponsor_amount <= AMOUNT_LIMIT
}

/// Aggregated per-participant summary: one per unique name.
pub struct PersonSummary {
    pub name: String,
    /// Accumulated effective spend counted toward the shared pool, in subunits.
    pub amount_spent: i128,
    /// Accumulated explicit tips counted toward the shared pool, in subunits.
    pub tip: i128,
    /// Accumulated flat sponsorship contributions, in subunits.
    pub sponsor_amount: i128,
    pub is_sponsor: bool,
    pub is_receiver: bool,
    /// Amount this participant will be reimbursed by others, in subunits.
    pub will_receive_from_others: i128,
    /// Amount this participant owes as reimbursements to others, in subunits.
    pub owes_to_others: i128,
    /// Amount of private (self-paid) expenses, in subunits.
    pub delegated_self: i128,
}

/// Ghost model of one participant summary.
#[verifier::ext_equal]
pub ghost struct SummaryModel {
    pub name: Seq<char>,
    pub amount_spent: int,
    pub tip: int,
    pub sponsor_amount: int,
    pub is_sponsor: bool,
    pub is_receiver: bool,
    pub will_receive_from_others: int,
    pub owes_to_others: int,
    pub delegated_self: int,
}

impl View for PersonSummary {
    type V = SummaryModel;

    open spec fn view(&self) -> SummaryModel {
        SummaryModel {
            name: self.name@,
            amount_spent: self.amount_spent as int,
            tip: self.tip as int,
            sponsor_amount: self.sponsor_amount as int,
            is_sponsor: self.is_sponsor,
            is_receiver: self.is_receiver,
            will_receive_from_others: self.will_receive_from_others as int,
            owes_to_others: self.owes_to_others as int,
            delegated_self: self.delegated_self as int,
        }
    }
}

/// A fresh summary for a participant that has not been seen yet.
pub open spec fn empty_summary(name: Seq<char>) -> SummaryModel {
    SummaryModel {
        name: name,
        amount_spent: 0,
        tip: 0,
        sponsor_amount: 0,
        is_sponsor: false,
        is_receiver: false,
        will_receive_from_others: 0,
        owes_to_others: 0,
        delegated_self: 0,
    }
}

/// Input contract of the engine.
pub struct CalculateRequest {
    pub people: Vec<Person>,
    /// Whether sponsors also take part in the even split.
    pub include_sponsor: bool,
    /// Accepted for compatibility; the cap on sponsorship is always applied.
    pub restrict_sponsor_to_spent: Option<bool>,
    /// Flat cash pool subtracted before splitting, in subunits.
    pub fund_amount: i128,
    /// Global tip percentage applied to base spend only, in hundredths of a
    /// percent.
    pub tip_percentage: i128,
}

/// Ghost model of an engine request.
#[verifier::ext_equal]
pub ghost struct RequestModel {
    pub people: Seq<LineModel>,
    pub include_sponsor: bool,
    pub restrict_sponsor_to_spent: Option<bool>,
    pub fund_amount: int,
    pub tip_percentage: int,
}

/// The models of a sequence of expense lines.
pub open spec fn views_of_people(v: Seq<Person>) -> Seq<LineModel> {
    v.map_values(|p: Person| p@)
}

/// The models of a sequence of participant summaries.
pub open spec fn views_of_summaries(v: Seq<PersonSummary>) -> Seq<SummaryModel> {
    v.map_values(|s: PersonSummary| s@)
}

/// The models of a sequence of settlements.
pub open spec fn views_of_settlements(v: Seq<Settlement>) -> Seq<SettlementModel> {
    v.map_values(|s: Settlement| s@)
}

impl View for CalculateRequest {
    type V = RequestModel;

    open spec fn view(&self) -> RequestModel {
        RequestModel {
            people: views_of_people(self.people@),
            include_sponsor: self.include_sponsor,
            restrict_sponsor_to_spent: self.restrict_sponsor_to_spent,
            fund_amount: self.fund_amount as int,
            tip_percentage: self.tip_percentage as int,
        }
    }
}

/// Bounds on every line of a sequence.
pub open spec fn lines_valid(ls: Seq<LineModel>) -> bool {
    forall|i: int| 0 <= i < ls.len() ==> line_valid(#[trigger] ls[i])
}

/// Bounds under which the engine is proved exact and free of overflow.
pub open spec fn request_valid(r: RequestModel) -> bool {
    &&& r.people.len() <= LINE_LIMIT
    &&& lines_valid(r.people)
    &&& 0 <= r.tip_percentage <= TIP_PERCENT_LIMIT
    &&& -FUND_LIMIT <= r.fund_amount <= FUND_LIMIT
}

impl CalculateRequest {
    /// Runtime check of the bounds stated by [`request_valid`]; boundary code
    /// calls this before handing a request to the engine.
    pub fn is_valid(&self) -> (ok: bool)
        ensures
            ok == request_valid(self@),
    {
        if self.people.len() > LINE_LIMIT {
            return false;
        }
        if !(0 <= self.tip_percentage && self.tip_percentage <= TIP_PERCENT_LIMIT) {
            return false;
        }
        if !(-FUND_LIMIT <= self.fund_amount && self.fund_amount <= FUND_LIMIT) {
            return false;
        }
        let n = self.people.len();
        for i in 0..n
            invariant
                n == self.people.len(),
                forall|j: int| 0 <= j < i ==> line_valid(#[trigger] self.people@[j]@),
        {
            let p = &self.people[i];
            let ok = -AMOUNT_LIMIT <= p.amount_spent && p.amount_spent <= AMOUNT_LIMIT
                && p.quantity <= QUANTITY_LIMIT && -AMOUNT_LIMIT <= p.tip
                && p.tip <= AMOUNT_LIMIT && -AMOUNT_LIMIT <= p.sponsor_amount
                && p.sponsor_amount <= AMOUNT_LIMIT;
            if !ok {
                proof {
                    assert(self@.people[i as int] == self.people@[i as int]@);
                    assert(!line_valid(self@.people[i as int]));
                }
                return false;
            }
        }
        proof {
            assert(forall|j: int|
                0 <= j < self@.people.len() ==> self@.people[j] == self.people@[j]@);
        }
        true
    }
}

/// One participant's final settlement.
pub struct Settlement {
    pub name: String,
    /// Aggregated effective spend counted toward the shared pool, in
    /// subunits.
    pub amount_spent: i128,
    /// Explicit tips plus this participant's part of the global tip, in
    /// subunits.
    pub tip_paid: i128,
    /// This participant's effective sponsorship contribution, in subunits.
    pub sponsor_cost: i128,
    /// This participant's part of the even split, in subunits.
    pub share_cost: i128,
    /// Net balance, in subunits: positive means money is owed to them.
    pub balance: i128,
    /// `"receive"`, `"pay"` or `"settled"`.
    pub settlement_type: String,
    pub is_receiver: bool,
}

/// Ghost model of one settlement.
#[verifier::ext_equal]
pub ghost struct SettlementModel {
    pub name: Seq<char>,
    pub amount_spent: int,
    pub tip_paid: int,
    pub sponsor_cost: int,
    pub share_cost: int,
    pub balance: int,
    pub settlement_type: Seq<char>,
    pub is_receiver: bool,
}

impl View for Settlement {
    type V = SettlementModel;

    open spec fn view(&self) -> SettlementModel {
        SettlementModel {
            name: self.name@,
            amount_spent: self.amount_spent as int,
            tip_paid: self.tip_paid as int,
            sponsor_cost: self.sponsor_cost as int,
            share_cost: self.share_cost as int,
            balance: self.balance as int,
            settlement_type: self.settlement_type@,
            is_receiver: self.is_receiver,
        }
    }
}

/// Output contract of the engine.
pub struct CalculateResponse {
    /// Base spend plus explicit tips, in subunits; excludes the global tip.
    pub total_spent: i128,
    /// Effective (post-cap) total sponsorship, in subunits.
    pub total_sponsored: i128,
    /// The fund amount echoed back, in subunits.
    pub fund_amount: i128,
    /// The global tip derived from the percentage, in subunits.
    pub total_tip: i128,
    /// Residual amount split evenly across participating parties, in
    /// subunits.
    pub amount_to_share: i128,
    pub num_participants: usize,
    /// The identical share of every participating party, in subunits.
    pub per_person_share: i128,
    /// One settlement per unique name, sorted by balance then name.
    pub settlements: Vec<Settlement>,
}

/// Ghost model of an engine response.
#[verifier::ext_equal]
pub ghost struct ResponseModel {
    pub total_spent: int,
    pub total_sponsored: int,
    pub fund_amount: int,
    pub total_tip: int,
    pub amount_to_share: int,
    pub num_participants: int,
    pub per_person_share: int,
    pub settlements: Seq<SettlementModel>,
}

impl View for CalculateResponse {
    type V = ResponseModel;

    open spec fn view(&self) -> ResponseModel {
        ResponseModel {
            total_spent: self.total_spent as int,
            total_sponsored: self.total_sponsored as int,
            fund_amount: self.fund_amount as int,
            total_tip: self.total_tip as int,
            amount_to_share: self.amount_to_share as int,
            num_participants: self.num_participants as int,
            per_person_share: self.per_person_share as int,
            settlements: views_of_settlements(self.settlements@),
        }
    }
}

} // verus!
