//! Reaction dispatch: what to do with a detected transition. The core
//! builds the notification text and drives the bounded purchase retry; the
//! caller performs the notification, the purchase request and the waits,
//! and no failure of either ever propagates back into the poll loop.
use vstd::prelude::*;
use vstd::string::*;

use crate::model::Transition;

verus! {

/// How one dispatched transition ended. A failed reaction is still
/// *delivered*: the loop proceeds either way.
#[derive(Clone, Copy, Debug, PartialEq, Eq, Structural)]
pub enum ReactionResult {
    Delivered,
    DeliveredWithFailure,
}

/// The bounded retry policy of the purchase hand-off, separate from the
/// polling retry policy: up to `max_attempts` immediate attempts with a
/// fixed `retry_delay_ms` spacing. Both are configuration, not constants.
pub struct PurchasePolicy {
    pub max_attempts: u32,
    pub retry_delay_ms: u64,
}

/// What the purchase executor must do after an attempt.
#[derive(Clone, Copy, Debug, PartialEq, Eq, Structural)]
pub enum PurchaseStep {
    /// The attempt succeeded: stop.
    Done,
    /// Wait this many milliseconds, then try again.
    RetryAfterMs(u64),
    /// The attempt failed and the budget is spent: give up on this
    /// transition (the loop still proceeds).
    GiveUp,
}

/// Decide what follows a purchase attempt: success stops, failure retries
/// after the configured spacing until the attempt budget is spent.
pub fn next_purchase_step(policy: &PurchasePolicy, attempts_made: u32, succeeded: bool) -> (r:
    PurchaseStep)
    requires
        1 <= attempts_made,
    ensures
        r == (if succeeded {
            PurchaseStep::Done
        } else if attempts_made < policy.max_attempts {
            PurchaseStep::RetryAfterMs(policy.retry_delay_ms)
        } else {
            PurchaseStep::GiveUp
        }),
{
    if succeeded {
        PurchaseStep::Done
    } else if attempts_made < policy.max_attempts {
        PurchaseStep::RetryAfterMs(policy.retry_delay_ms)
    } else {
        PurchaseStep::GiveUp
    }
}

/// The notification body for a changed SKU.
pub fn sku_change_message(sku: &str) -> (r: String)
    ensures
        r@ == "SKU change detected! New SKU: "@ + sku@,
{
    let mut r = String::from_str("SKU change detected! New SKU: ");
    r.append(sku);
    r
}

/// The announcement for a product that became orderable: the SKU and the
/// discovered purchase URL.
pub fn transition_message(t: &Transition) -> (r: String)
    ensures
        r@ == "Found available product: "@ + t.fe_sku@ + " at "@ + t.product_url@,
{
    let mut r = String::from_str("Found available product: ");
    r.append(t.fe_sku.as_str());
    r.append(" at ");
    r.append(t.product_url.as_str());
    r
}

} // verus!
