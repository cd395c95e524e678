//! The presentation order of settlements: ascending by balance, ties broken
//! by name, so payers come first and receivers last.
//!
//! The order used by the model is total: after balance and name it keeps
//! comparing the remaining fields, so that any two settlement models are
//! comparable and equal models are the only ties. Settlements produced by the
//! engine have pairwise distinct names, so for them the order is simply
//! (balance, name).

use vstd::prelude::*;
use vstd::relations::sorted_by;
use vstd::multiset::Multiset;
use vstd::seq_lib::lemma_sorted_unique;
use crate::models::{Settlement, SettlementModel, views_of_settlements};
use vstd::string::StrSliceExecFns;

verus! {

/// Lexicographic order on text: by code point, shorter prefixes first.
pub open spec fn text_le(a: Seq<char>, b: Seq<char>) -> bool
    decreases a.len(),
{
    if a.len() == 0 {
        true
    } else if b.len() == 0 {
        false
    } else if a[0] == b[0] {
        text_le(a.drop_first(), b.drop_first())
    } else {
        a[0] < b[0]
    }
}

/// [`text_le`] holds in at least one direction.
pub proof fn lemma_text_le_total(a: Seq<char>, b: Seq<char>)
    ensures
        text_le(a, b) || text_le(b, a),
    decreases a.len(),
{
    if a.len() == 0 || b.len() == 0 {
    } else if a[0] == b[0] {
        lemma_text_le_total(a.drop_first(), b.drop_first());
    }
}

/// [`text_le`] in both directions only on equal text.
pub proof fn lemma_text_le_antisymmetric(a: Seq<char>, b: Seq<char>)
    requires
        text_le(a, b),
        text_le(b, a),
    ensures
        a == b,
    decreases a.len(),
{
    if a.len() == 0 {
        assert(b.len() == 0);
        assert(a =~= b);
    } else {
        assert(a[0] == b[0]);
        lemma_text_le_antisymmetric(a.drop_first(), b.drop_first());
        assert(a =~= seq![a[0]] + a.drop_first());
        assert(b =~= seq![b[0]] + b.drop_first());
    }
}

/// [`text_le`] is transitive.
pub proof fn lemma_text_le_transitive(a: Seq<char>, b: Seq<char>, c: Seq<char>)
    requires
        text_le(a, b),
        text_le(b, c),
    ensures
        text_le(a, c),
    decreases a.len(),
{
    if a.len() == 0 || b.len() == 0 || c.len() == 0 {
    } else if a[0] == b[0] && b[0] == c[0] {
        lemma_text_le_transitive(a.drop_first(), b.drop_first(), c.drop_first());
    }
}

/// The total presentation order on settlement models: balance, then name,
/// then every remaining field.
pub open spec fn settle_le(a: SettlementModel, b: SettlementModel) -> bool {
    if a.balance != b.balance {
        a.balance < b.balance
    } else if a.name != b.name {
        text_le(a.name, b.name)
    } else if a.amount_spent != b.amount_spent {
        a.amount_spent < b.amount_spent
    } else if a.tip_paid != b.tip_paid {
        a.tip_paid < b.tip_paid
    } else if a.sponsor_cost != b.sponsor_cost {
        a.sponsor_cost < b.sponsor_cost
    } else if a.share_cost != b.share_cost {
        a.share_cost < b.share_cost
    } else if a.settlement_type != b.settlement_type {
        text_le(a.settlement_type, b.settlement_type)
    } else {
        !a.is_receiver || b.is_receiver
    }
}

/// The function value of [`settle_le`], shared by every contract that speaks
/// about the order.
pub open spec fn settle_order() -> spec_fn(SettlementModel, SettlementModel) -> bool {
    |a: SettlementModel, b: SettlementModel| settle_le(a, b)
}

/// [`settle_le`] is a total ordering in the sense of `vstd::relations`.
pub proof fn lemma_settle_order_total()
    ensures
        vstd::relations::total_ordering(settle_order()),
{
    let r = settle_order();
    assert forall|a: SettlementModel| #[trigger] r(a, a) by {
        lemma_text_le_total(a.name, a.name);
    }
    assert forall|a: SettlementModel, b: SettlementModel| #[trigger] r(a, b) && #[trigger] r(
        b,
        a,
    ) implies a == b by {
        if a.name != b.name {
            lemma_text_le_antisymmetric(a.name, b.name);
        }
        if a.settlement_type != b.settlement_type {
            lemma_text_le_antisymmetric(a.settlement_type, b.settlement_type);
        }
        assert(a =~= b);
    }
    assert forall|a: SettlementModel, b: SettlementModel, c: SettlementModel| #[trigger] r(a, b)
        && #[trigger] r(b, c) implies r(a, c) by {
        lemma_settle_le_transitive(a, b, c);
    }
    assert forall|a: SettlementModel, b: SettlementModel| !(#[trigger] r(a, b)) implies r(b, a) by {
        lemma_settle_le_connected(a, b);
    }
}

/// Every [`text_le`] fact about three texts that a lexicographic case split
/// can need: totality, antisymmetry and transitivity on each pair.
pub proof fn lemma_text_trio(x: Seq<char>, y: Seq<char>, z: Seq<char>)
    ensures
        text_le(x, y) || text_le(y, x),
        text_le(y, z) || text_le(z, y),
        text_le(x, z) || text_le(z, x),
        text_le(x, y) && text_le(y, x) ==> x == y,
        text_le(y, z) && text_le(z, y) ==> y == z,
        text_le(x, z) && text_le(z, x) ==> x == z,
        text_le(x, y) && text_le(y, z) ==> text_le(x, z),
        text_le(z, y) && text_le(y, x) ==> text_le(z, x),
{
    lemma_text_le_total(x, y);
    lemma_text_le_total(y, z);
    lemma_text_le_total(x, z);
    if text_le(x, y) && text_le(y, x) {
        lemma_text_le_antisymmetric(x, y);
    }
    if text_le(y, z) && text_le(z, y) {
        lemma_text_le_antisymmetric(y, z);
    }
    if text_le(x, z) && text_le(z, x) {
        lemma_text_le_antisymmetric(x, z);
    }
    if text_le(x, y) && text_le(y, z) {
        lemma_text_le_transitive(x, y, z);
    }
    if text_le(z, y) && text_le(y, x) {
        lemma_text_le_transitive(z, y, x);
    }
}

/// [`settle_le`] is transitive.
pub proof fn lemma_settle_le_transitive(a: SettlementModel, b: SettlementModel, c: SettlementModel)
    requires
        settle_le(a, b),
        settle_le(b, c),
    ensures
        settle_le(a, c),
{
    lemma_text_trio(a.name, b.name, c.name);
    lemma_text_trio(a.settlement_type, b.settlement_type, c.settlement_type);
}

/// Any two settlement models are comparable.
pub proof fn lemma_settle_le_connected(a: SettlementModel, b: SettlementModel)
    ensures
        settle_le(a, b) || settle_le(b, a),
{
    lemma_text_le_total(a.name, b.name);
    lemma_text_le_total(a.settlement_type, b.settlement_type);
}

/// Decides [`text_le`] on two strings.
pub fn text_le_exec(a: &str, b: &str) -> (r: bool)
    ensures
        r == text_le(a@, b@),
{
    let alen = a.unicode_len();
    let blen = b.unicode_len();
    let mut i: usize = 0;
    proof {
        assert(a@.skip(0) =~= a@);
        assert(b@.skip(0) =~= b@);
    }
    loop
        invariant
            i <= alen,
            i <= blen,
            alen == a@.len(),
            blen == b@.len(),
            text_le(a@, b@) == text_le(a@.skip(i as int), b@.skip(i as int)),
        decreases alen - i,
    {
        if i >= alen {
            proof {
                assert(a@.skip(i as int).len() == 0);
            }
            return true;
        }
        if i >= blen {
            proof {
                assert(b@.skip(i as int).len() == 0);
                assert(a@.skip(i as int).len() > 0);
            }
            return false;
        }
        let ca = a.get_char(i);
        let cb = b.get_char(i);
        proof {
            assert(a@.skip(i as int)[0] == a@[i as int]);
            assert(b@.skip(i as int)[0] == b@[i as int]);
            assert(a@.skip(i as int).drop_first() =~= a@.skip(i + 1));
            assert(b@.skip(i as int).drop_first() =~= b@.skip(i + 1));
        }
        if ca == cb {
            i += 1;
        } else {
            return ca < cb;
        }
    }
}

/// Decides equality of the character content of two strings.
pub fn text_eq_exec(a: &str, b: &str) -> (r: bool)
    ensures
        r == (a@ == b@),
{
    let alen = a.unicode_len();
    let blen = b.unicode_len();
    if alen != blen {
        return false;
    }
    let mut i: usize = 0;
    while i < alen
        invariant
            alen == a@.len(),
            alen == b@.len(),
            i <= alen,
            forall|j: int| 0 <= j < i ==> a@[j] == b@[j],
        decreases alen - i,
    {
        if a.get_char(i) != b.get_char(i) {
            return false;
        }
        i += 1;
    }
    proof {
        assert(a@ =~= b@);
    }
    true
}

/// Decides [`settle_le`] on two settlements.
pub fn settle_le_exec(a: &Settlement, b: &Settlement) -> (r: bool)
    ensures
        r == settle_le(a@, b@),
{
    if a.balance != b.balance {
        return a.balance < b.balance;
    }
    if !(a.name == b.name) {
        return text_le_exec(a.name.as_str(), b.name.as_str());
    }
    if a.amount_spent != b.amount_spent {
        return a.amount_spent < b.amount_spent;
    }
    if a.tip_paid != b.tip_paid {
        return a.tip_paid < b.tip_paid;
    }
    if a.sponsor_cost != b.sponsor_cost {
        return a.sponsor_cost < b.sponsor_cost;
    }
    if a.share_cost != b.share_cost {
        return a.share_cost < b.share_cost;
    }
    if !(a.settlement_type == b.settlement_type) {
        return text_le_exec(a.settlement_type.as_str(), b.settlement_type.as_str());
    }
    !a.is_receiver || b.is_receiver
}

/// Sorts settlements into the presentation order by repeatedly extracting
/// the least remaining settlement.
pub fn sort_settlements(v: Vec<Settlement>) -> (r: Vec<Settlement>)
    ensures
        views_of_settlements(r@) == views_of_settlements(v@).sort_by(settle_order()),
{
    broadcast use vstd::seq_lib::group_to_multiset_ensures;
    broadcast use vstd::multiset::group_multiset_axioms;

    let ghost orig = views_of_settlements(v@);
    let mut rest = v;
    let mut out: Vec<Settlement> = Vec::new();
    proof {
        assert(views_of_settlements(out@) =~= Seq::<SettlementModel>::empty());
        assert(views_of_settlements(out@).to_multiset().add(
            views_of_settlements(rest@).to_multiset(),
        ) =~= orig.to_multiset());
    }
    while rest.len() > 0
        invariant
            views_of_settlements(out@).to_multiset().add(
                views_of_settlements(rest@).to_multiset(),
            ) =~= orig.to_multiset(),
            sorted_by(views_of_settlements(out@), settle_order()),
            forall|i: int, j: int|
                0 <= i < out@.len() && 0 <= j < rest@.len() ==> settle_le(
                    #[trigger] views_of_settlements(out@)[i],
                    #[trigger] views_of_settlements(rest@)[j],
                ),
        decreases rest@.len(),
    {
        let ghost outv = views_of_settlements(out@);
        let ghost restv = views_of_settlements(rest@);
        let n = rest.len();
        let mut m: usize = 0;
        let mut j: usize = 1;
        while j < n
            invariant
                n == rest@.len(),
                m < j <= n,
                restv == views_of_settlements(rest@),
                forall|k: int| 0 <= k < j ==> settle_le(restv[m as int], #[trigger] restv[k]),
            decreases n - j,
        {
            proof {
                assert(rest@[m as int]@ == restv[m as int]);
                assert(rest@[j as int]@ == restv[j as int]);
            }
            if settle_le_exec(&rest[j], &rest[m]) {
                proof {
                    assert forall|k: int| 0 <= k < j + 1 implies settle_le(
                        restv[j as int],
                        #[trigger] restv[k],
                    ) by {
                        if k < j {
                            lemma_settle_le_transitive(restv[j as int], restv[m as int], restv[k]);
                        } else {
                            lemma_settle_le_connected(restv[j as int], restv[j as int]);
                        }
                    }
                }
                m = j;
            } else {
                proof {
                    lemma_settle_le_connected(restv[m as int], restv[j as int]);
                }
            }
            j += 1;
        }
        proof {
            lemma_settle_le_connected(restv[m as int], restv[m as int]);
            assert(forall|k: int| 0 <= k < n ==> settle_le(restv[m as int], #[trigger] restv[k]));
        }
        let x = rest.remove(m);
        out.push(x);
        proof {
            broadcast use vstd::seq_lib::group_to_multiset_ensures;
            broadcast use vstd::multiset::group_multiset_axioms;

            assert(x@ == restv[m as int]);
            assert(views_of_settlements(rest@) =~= restv.remove(m as int));
            assert(views_of_settlements(out@) =~= outv.push(x@));
            assert(restv.remove(m as int).to_multiset() =~= restv.to_multiset().remove(x@));
            assert(outv.push(x@).to_multiset() =~= outv.to_multiset().insert(x@));
            assert(views_of_settlements(out@).to_multiset().add(
                views_of_settlements(rest@).to_multiset(),
            ) =~= orig.to_multiset());
            assert forall|i: int, j2: int|
                0 <= i < j2 < outv.push(x@).len() implies settle_le(
                    outv.push(x@)[i],
                    outv.push(x@)[j2],
                ) by {
                assert(outv.push(x@)[i] == outv[i]);
                if j2 < outv.len() {
                    assert(outv.push(x@)[j2] == outv[j2]);
                    assert(settle_order()(outv[i], outv[j2]));
                } else {
                    assert(outv.push(x@)[j2] == x@);
                    assert(settle_le(outv[i], restv[m as int]));
                }
            }
            assert(sorted_by(outv.push(x@), settle_order()));
            assert forall|i: int, j2: int|
                0 <= i < out@.len() && 0 <= j2 < rest@.len() implies settle_le(
                    #[trigger] views_of_settlements(out@)[i],
                    #[trigger] views_of_settlements(rest@)[j2],
                ) by {
                    let b = views_of_settlements(rest@)[j2];
                    if j2 < m {
                        assert(b == restv[j2]);
                    } else {
                        assert(b == restv[j2 + 1]);
                    }
                    if i < outv.len() {
                        assert(views_of_settlements(out@)[i] == outv[i]);
                    } else {
                        assert(views_of_settlements(out@)[i] == x@);
                    }
                }
        }
    }
    proof {
        broadcast use vstd::seq_lib::group_to_multiset_ensures;
        broadcast use vstd::multiset::group_multiset_axioms;

        assert(views_of_settlements(rest@).to_multiset() =~= Multiset::<SettlementModel>::empty());
        assert(views_of_settlements(out@).to_multiset() =~= orig.to_multiset());
        lemma_settle_order_total();
        orig.lemma_sort_by_ensures(settle_order());
        lemma_sorted_unique(views_of_settlements(out@), orig.sort_by(settle_order()), settle_order());
        assert(views_of_settlements(out@) =~= orig.sort_by(settle_order()));
    }
    out
}

} // verus!
