//! Shapes exchanged with the collaborators around the engine: the receipt
//! extraction provider, the outbound mail sender and the page template.
//!
//! The collaborators themselves (network, provider prompts, delivery) live
//! outside the library; these types carry their data as plain values, with
//! money in fixed-point subunits like everywhere else in the crate.

use vstd::prelude::*;

verus! {

/// One line item read off a receipt.
pub struct ReceiptItem {
    pub name: String,
    /// Price of this item, in money subunits.
    pub amount: i128,
    pub quantity: u32,
}

/// A whole receipt read from text or from an image.
pub struct ReceiptData {
    pub description: String,
    /// Receipt total, in subunits.
    pub amount: i128,
    /// Tip, in subunits, when the receipt shows one.
    pub tip: Option<i128>,
    /// Date in `YYYY-MM-DD` form, when the receipt shows one.
    pub date: Option<String>,
    pub items: Vec<ReceiptItem>,
}

/// One expense parsed out of a free-form description.
pub struct AiExpense {
    pub name: String,
    pub description: String,
    /// Amount spent, in subunits.
    pub amount_spent: i128,
    pub quantity: u32,
    /// Tip, in subunits.
    pub tip: i128,
    pub is_sponsor: bool,
    /// Sponsorship contribution, in subunits.
    pub sponsor_amount: i128,
}

/// A parsed expense description: the expenses and, when one was mentioned,
/// the shared fund.
pub struct AiSplitResponse {
    pub expenses: Vec<AiExpense>,
    /// Fund amount, in subunits, when the text mentions one.
    pub fund_amount: Option<i128>,
}

/// Request shape for the text extraction endpoints.
pub struct AiTextRequest {
    pub text: String,
}

/// Request shape for sending a settlement summary by mail.
pub struct SendEmailRequest {
    pub to: Vec<String>,
    pub subject: String,
    pub html_content: String,
    pub cc: Option<Vec<String>>,
    pub bcc: Option<Vec<String>>,
}

/// The data handed to the index page template.
pub struct IndexTemplate {
    pub base_url: String,
}

} // verus!
