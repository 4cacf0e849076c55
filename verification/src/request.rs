//! The lookup that is sent to the geocoding service for one address.

use vstd::prelude::*;

verus! {

/// The endpoint every lookup goes to.
pub const GEOCODE_ENDPOINT: &'static str = "https://maps.googleapis.com/maps/api/geocode/json";

/// Name of the query parameter that carries the credential.
pub const KEY_PARAMETER: &'static str = "key";

/// Name of the query parameter that carries the address.
pub const ADDRESS_PARAMETER: &'static str = "address";

/// One lookup, as a value of pure mathematics.
pub struct RequestView {
    pub endpoint: Seq<char>,
    pub query: Seq<(Seq<char>, Seq<char>)>,
}

/// One lookup: the endpoint and the query parameters, by name and value, in
/// the order in which they are sent. The values are not encoded yet.
#[derive(Debug)]
pub struct GeocodeRequest {
    pub endpoint: String,
    pub query: Vec<(String, String)>,
}

impl View for GeocodeRequest {
    type V = RequestView;

    open spec fn view(&self) -> RequestView {
        RequestView { endpoint: self.endpoint@, query: self.query.deep_view() }
    }
}

impl DeepView for GeocodeRequest {
    type V = RequestView;

    open spec fn deep_view(&self) -> RequestView {
        self.view()
    }
}

/// The lookup for `address` under `credential`: the fixed endpoint, then the
/// credential and the address as they are, without trimming.
pub open spec fn request_for(credential: Seq<char>, address: Seq<char>) -> RequestView {
    RequestView {
        endpoint: GEOCODE_ENDPOINT@,
        query: seq![(KEY_PARAMETER@, credential), (ADDRESS_PARAMETER@, address)],
    }
}

/// Builds the lookup for one address.
pub fn geocode_request(credential: &str, address: &str) -> (request: GeocodeRequest)
    ensures
        request@ == request_for(credential@, address@),
{
    let mut query: Vec<(String, String)> = Vec::new();
    query.push((KEY_PARAMETER.to_owned(), credential.to_owned()));
    query.push((ADDRESS_PARAMETER.to_owned(), address.to_owned()));
    let request = GeocodeRequest { endpoint: GEOCODE_ENDPOINT.to_owned(), query };
    assert(request@.query =~= request_for(credential@, address@).query);
    request
}

} // verus!
