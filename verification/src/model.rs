//! The records of a geocoding answer and their mathematical views.

use vstd::prelude::*;

verus! {

/// One administrative-area label, as a value of pure mathematics.
pub struct ComponentView {
    pub long_name: Seq<char>,
    pub short_name: Seq<char>,
    pub types: Seq<Seq<char>>,
}

/// One candidate match, as a value of pure mathematics.
pub struct ResultView {
    pub address_components: Seq<ComponentView>,
    pub formatted_address: Seq<char>,
}

/// One answer of the geocoding service, as a value of pure mathematics.
pub struct ResponseView {
    pub status: Seq<char>,
    pub results: Seq<ResultView>,
}

/// One administrative-area label attached to a candidate match.
///
/// `types` holds the type tags in the order the service gave them; a
/// component may carry several tags at once.
#[derive(Debug)]
pub struct AddressComponent {
    pub long_name: String,
    pub short_name: String,
    pub types: Vec<String>,
}

/// One candidate match for an address.
#[derive(Debug)]
pub struct AddressResult {
    pub address_components: Vec<AddressComponent>,
    pub formatted_address: String,
}

/// One answer of the geocoding service for one address.
///
/// Only the status `"OK"` marks a usable answer, and only the first element
/// of `results` is ever consulted.
#[derive(Debug)]
pub struct GeoDataAddress {
    pub status: String,
    pub results: Vec<AddressResult>,
}

impl View for AddressComponent {
    type V = ComponentView;

    open spec fn view(&self) -> ComponentView {
        ComponentView {
            long_name: self.long_name@,
            short_name: self.short_name@,
            types: self.types.deep_view(),
        }
    }
}

impl DeepView for AddressComponent {
    type V = ComponentView;

    open spec fn deep_view(&self) -> ComponentView {
        self.view()
    }
}

impl View for AddressResult {
    type V = ResultView;

    open spec fn view(&self) -> ResultView {
        ResultView {
            address_components: self.address_components.deep_view(),
            formatted_address: self.formatted_address@,
        }
    }
}

impl DeepView for AddressResult {
    type V = ResultView;

    open spec fn deep_view(&self) -> ResultView {
        self.view()
    }
}

impl View for GeoDataAddress {
    type V = ResponseView;

    open spec fn view(&self) -> ResponseView {
        ResponseView { status: self.status@, results: self.results.deep_view() }
    }
}

impl DeepView for GeoDataAddress {
    type V = ResponseView;

    open spec fn deep_view(&self) -> ResponseView {
        self.view()
    }
}

} // verus!
