//! Request-plumbing data types kept at the library's edge: the JSON body
//! extractor's carrier and its size limit, the transaction middleware
//! marker, refund results handed back by the payment client, and the
//! request data gathered for logging.

use vstd::prelude::*;

verus! {

/// The default JSON body size limit: 256 KiB.
pub const LIMIT_DEFAULT: usize = 262144;

/// A deserialized JSON request body.
pub struct Json<T>(pub T);

impl<T> Json<T> {
    /// Unwraps the carried value.
    pub fn into_inner(self) -> (r: T)
        ensures
            r == self.0,
    {
        self.0
    }
}

/// Configuration of the JSON body extractor.
pub struct JsonConfig {
    pub limit: usize,
}

impl JsonConfig {
    /// Sets the maximum accepted body size, returning the configuration
    /// for further chaining.
    pub fn limit(&mut self, limit: usize) -> (r: &mut JsonConfig)
        ensures
            (*r).limit == limit,
            *final(self) == *final(r),
    {
        self.limit = limit;
        self
    }
}

impl Default for JsonConfig {
    /// The default body size limit.
    fn default() -> (r: JsonConfig)
        ensures
            r.limit == LIMIT_DEFAULT,
    {
        JsonConfig { limit: LIMIT_DEFAULT }
    }
}

/// Marker installing per-request database transaction handling.
pub struct DatabaseTransaction {}

impl DatabaseTransaction {
    /// The marker itself; the surrounding server wires it up.
    pub fn new() -> DatabaseTransaction {
        DatabaseTransaction {  }
    }
}

/// The outcome of a refund call against the payment gateway: the refund
/// id and the raw response document it was read from.
pub struct RefundResult {
    pub id: String,
    pub raw_data: String,
}

impl RefundResult {
    /// The raw response document, as received.
    pub fn to_json(&self) -> (r: String)
        ensures
            r@ == self.raw_data@,
    {
        self.raw_data.clone()
    }
}

/// What is logged about a request at the start and end of its lifecycle.
pub struct RequestLogData {
    /// The authenticated user's id, if one was presented.
    pub user: Option<u128>,
    pub ip_address: Option<String>,
    pub method: String,
    pub user_agent: Option<String>,
    pub uri: String,
}

/// A request to publish a marketplace listing.
pub struct CreateListingRequest {
    pub title: String,
    pub items: Vec<AddListingItemRequest>,
    pub asking_price_in_cents: i64,
}

/// One ticket batch inside a listing request.
pub struct AddListingItemRequest {
    pub ticket_type_id: u128,
    pub quantity: u32,
}

} // verus!
