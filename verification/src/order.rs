//! The steps of an order and how it ends.
//!
//! An order is decided in three steps, with the outside world acting in
//! between. First it is validated against the records: the decision is to
//! reject it, or to charge an amount. Then the caller charges the gateway
//! and hands the answer back: a failed charge ends the order with the
//! records untouched, a successful one is entered in the records. Last the
//! caller writes the records to disk where they were changed, hands back
//! whether that worked, and gets the order's outcome and the page that
//! tells the customer of it.
//!
//! The caller holds the lock of the store from the first step to the last,
//! so that the records that a charge was decided on are the records that it
//! is entered in. The second step validates again all the same, and asks
//! for a refund where the records refuse by then what was charged.

use vstd::prelude::*;
use crate::pages::Templates;
use crate::util::{error, notice, thanks, GatewayError, PaymentType};

verus! {

/// Why an order was rejected.
#[derive(Clone, Copy, Debug, PartialEq, Eq)]
pub enum Reason {
    /// The order names a key that the store does not hold.
    UnknownTarget,
    /// The item has a count and none is left.
    SoldOut,
    /// The amount, or the total that it would bring about, does not fit in
    /// 64 bits of cents.
    AmountOutOfRange,
    /// The charge succeeded and was entered in the records, but the records
    /// could not be written to disk.
    PersistenceFailed,
}

/// How an order ended.
#[derive(Clone, Debug, PartialEq, Eq)]
pub enum Outcome {
    /// Charged and recorded, with the gateway's transaction identifier.
    Success(String),
    /// Not carried out.
    Rejected(Reason),
    /// The gateway failed the charge.
    GatewayFailed(GatewayError),
}

/// What to charge for an order that passed its checks.
#[derive(Clone, Debug, PartialEq, Eq)]
pub struct Charge {
    /// The amount in cents.
    pub amount: u64,
    pub payment_type: PaymentType,
    /// What the charge is for.
    pub description: String,
}

/// The first step's decision.
#[derive(Clone, Debug, PartialEq, Eq)]
pub enum Decision {
    /// The order ends here. The gateway is not called.
    Reject(Reason),
    /// Call the gateway for this charge.
    Charge(Charge),
}

/// The second step's result.
#[derive(Clone, Debug, PartialEq, Eq)]
pub enum Settlement {
    /// The charge failed. The order ends here, with the records as they
    /// were.
    Done(Outcome),
    /// The charge with this transaction identifier was entered in the
    /// records: write them to disk.
    Commit(String),
    /// The charge with this transaction identifier succeeded, but the
    /// records refuse the order by now, for the reason given. Nothing was
    /// entered: the charge is to be refunded. This cannot happen to a
    /// caller that holds the lock of the store from the first step on.
    Refund(String, Reason),
}

/// The page that tells the customer how an order ended.
#[derive(Clone, Copy, Debug, PartialEq, Eq)]
pub enum Page {
    Thanks,
    Error,
}

/// What the outside world answers to one order: the gateway to the charge,
/// and the disk to the writing of the records.
pub struct Replies {
    pub charged: Result<String, GatewayError>,
    pub flushed: bool,
}

/// How an order ends that changes no records, given the gateway's answer.
pub open spec fn charge_outcome(charged: Result<String, GatewayError>) -> Outcome {
    match charged {
        Ok(id) => Outcome::Success(id),
        Err(e) => Outcome::GatewayFailed(e),
    }
}

/// The page for an order that ended in `outcome`: thanks for a success, the
/// error page for anything else.
pub open spec fn page_of(outcome: Outcome) -> Page {
    if outcome is Success {
        Page::Thanks
    } else {
        Page::Error
    }
}

/// How an order ends for the customer, given the second step's result and
/// whether the records were written. An order whose charge was entered
/// succeeds if the records were written, and is reported as rejected if
/// they were not, though the charge stands.
pub open spec fn conclusion(settlement: Settlement, flushed: bool) -> Outcome {
    match settlement {
        Settlement::Done(outcome) => outcome,
        Settlement::Commit(id) => if flushed {
            Outcome::Success(id)
        } else {
            Outcome::Rejected(Reason::PersistenceFailed)
        },
        Settlement::Refund(_, reason) => Outcome::Rejected(reason),
    }
}

/// The page that tells the customer how the order ended.
pub fn page(outcome: &Outcome) -> (p: Page)
    ensures
        p == page_of(*outcome),
{
    match outcome {
        Outcome::Success(_) => Page::Thanks,
        _ => Page::Error,
    }
}

/// Whether the records were changed and are to be written before the order
/// is concluded.
pub fn needs_flush(settlement: &Settlement) -> (b: bool)
    ensures
        b == (*settlement is Commit),
{
    match settlement {
        Settlement::Commit(_) => true,
        _ => false,
    }
}

/// The last step: how the order ends, given whether the records were
/// written. `flushed` counts only where they had to be.
pub fn conclude(settlement: Settlement, flushed: bool) -> (outcome: Outcome)
    ensures
        outcome == conclusion(settlement, flushed),
{
    match settlement {
        Settlement::Done(outcome) => outcome,
        Settlement::Commit(id) => {
            if flushed {
                Outcome::Success(id)
            } else {
                Outcome::Rejected(Reason::PersistenceFailed)
            }
        },
        Settlement::Refund(_, reason) => Outcome::Rejected(reason),
    }
}

/// The end of an order that changes no records.
pub fn settle_charge(charged: Result<String, GatewayError>) -> (outcome: Outcome)
    ensures
        outcome == charge_outcome(charged),
{
    match charged {
        Ok(id) => Outcome::Success(id),
        Err(e) => Outcome::GatewayFailed(e),
    }
}

/// The text of the page that tells the customer how an order of this kind
/// ended.
pub fn respond(templates: &Templates, payment_type: PaymentType, outcome: &Outcome) -> (text:
    String)
    ensures
        text@ == (match page_of(*outcome) {
            Page::Thanks => notice(templates.thanks@, payment_type),
            Page::Error => notice(templates.error@, payment_type),
        }),
{
    match page(outcome) {
        Page::Thanks => thanks(templates, payment_type),
        Page::Error => error(templates, payment_type),
    }
}

} // verus!
