//! Data model: product records, availability snapshots, poll outcomes and
//! detected transitions.
use vstd::prelude::*;

verus! {

/// Ghost view of one product record: every field as a character sequence.
#[verifier::ext_equal]
pub struct ProductV {
    pub is_active: Seq<char>,
    pub product_url: Seq<char>,
    pub price: Seq<char>,
    pub fe_sku: Seq<char>,
    pub locale: Seq<char>,
}

/// One product entry of an inventory response: the SKU identifies the
/// product, and a non-empty `product_url` is the primary availability signal.
pub struct FeProductInfo {
    pub is_active: String,
    pub product_url: String,
    pub price: String,
    pub fe_sku: String,
    pub locale: String,
}

impl View for FeProductInfo {
    type V = ProductV;

    open spec fn view(&self) -> ProductV {
        ProductV {
            is_active: self.is_active@,
            product_url: self.product_url@,
            price: self.price@,
            fe_sku: self.fe_sku@,
            locale: self.locale@,
        }
    }
}

impl Clone for FeProductInfo {
    fn clone(&self) -> (res: Self)
        ensures
            res@ == self@,
    {
        FeProductInfo {
            is_active: self.is_active.clone(),
            product_url: self.product_url.clone(),
            price: self.price.clone(),
            fe_sku: self.fe_sku.clone(),
            locale: self.locale.clone(),
        }
    }
}

/// Ghost view of a snapshot: the server's success flag and the records in
/// their order of appearance.
#[verifier::ext_equal]
pub struct SnapshotV {
    pub success: bool,
    pub list: Seq<ProductV>,
}

impl SnapshotV {
    /// SKUs are unique within one snapshot.
    pub open spec fn wf(self) -> bool {
        forall|i: int, j: int|
            0 <= i < j < self.list.len() ==> self.list[i].fe_sku != self.list[j].fe_sku
    }
}

/// A parsed inventory response: the last-known structured view of the
/// monitored products ("snapshot"). Replaced, never mutated, after each
/// successful poll.
pub struct FeInventoryResponse {
    pub success: bool,
    pub list_map: Vec<FeProductInfo>,
}

impl View for FeInventoryResponse {
    type V = SnapshotV;

    open spec fn view(&self) -> SnapshotV {
        SnapshotV { success: self.success, list: self.list_map@.map_values(|p: FeProductInfo| p@) }
    }
}

impl Clone for FeInventoryResponse {
    fn clone(&self) -> (res: Self)
        ensures
            res@ == self@,
    {
        let mut list: Vec<FeProductInfo> = Vec::new();
        let mut i: usize = 0;
        while i < self.list_map.len()
            invariant
                i <= self.list_map.len(),
                list@.len() == i as int,
                forall|k: int| 0 <= k < i as int ==> list@[k]@ == self.list_map@[k]@,
            decreases self.list_map.len() - i,
        {
            list.push(self.list_map[i].clone());
            i = i + 1;
        }
        let res = FeInventoryResponse { success: self.success, list_map: list };
        proof {
            assert(res@.list =~= self@.list);
        }
        res
    }
}

/// A distinguishable transport failure of one fetch attempt.
#[derive(Clone, Copy, Debug, PartialEq, Eq, Structural)]
pub enum TransportErrorKind {
    Network,
    Timeout,
    HttpStatus(u16),
}

/// The result of one polling attempt.
pub enum PollOutcome {
    /// A well-formed response was received and parsed.
    Success(FeInventoryResponse),
    /// A well-formed response reported failure (or could not be parsed):
    /// terminal for the cycle, never retried within it.
    Unsuccessful,
    /// A transport failure: retryable.
    TransportError(TransportErrorKind),
}

impl PollOutcome {
    /// Transport errors are the only retryable outcomes.
    pub open spec fn is_retryable(&self) -> bool {
        self is TransportError
    }
}

/// A malformed payload: reported, never a panic.
#[derive(Clone, Copy, Debug, PartialEq, Eq, Structural)]
pub struct ParseError;

/// Ghost view of a detected transition.
#[verifier::ext_equal]
pub struct TransitionV {
    pub fe_sku: Seq<char>,
    pub previous_state: Seq<char>,
    pub new_state: Seq<char>,
    pub product_url: Seq<char>,
}

/// A detected change of one product's orderability between two snapshots:
/// constructed by the comparator, consumed by the reaction dispatcher.
pub struct Transition {
    /// The SKU of the product that changed.
    pub fe_sku: String,
    /// Its activation state in the previous snapshot (empty if it was absent).
    pub previous_state: String,
    /// Its activation state in the current snapshot.
    pub new_state: String,
    /// The discovered purchase URL.
    pub product_url: String,
}

impl View for Transition {
    type V = TransitionV;

    open spec fn view(&self) -> TransitionV {
        TransitionV {
            fe_sku: self.fe_sku@,
            previous_state: self.previous_state@,
            new_state: self.new_state@,
            product_url: self.product_url@,
        }
    }
}

} // verus!
