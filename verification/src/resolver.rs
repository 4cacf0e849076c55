//! Picking one township name out of a geocoding answer.
//!
//! The components of the first candidate match are read in the order the
//! service gave them. The first one that carries a locality tag or one of the
//! two administrative-area tags gives the township; a later component never
//! overrides it.

use crate::model::{AddressComponent, ComponentView, GeoDataAddress, ResponseView};
use crate::text::same_text;
use vstd::prelude::*;

verus! {

/// The only status that marks a usable answer.
pub const STATUS_OK: &'static str = "OK";

/// Tag of a named city or town.
pub const LOCALITY: &'static str = "locality";

/// Tag of an intermediate administrative area.
pub const ADMINISTRATIVE_AREA_LEVEL_3: &'static str = "administrative_area_level_3";

/// Tag of a broad administrative area.
pub const ADMINISTRATIVE_AREA_LEVEL_2: &'static str = "administrative_area_level_2";

/// The one township name that is rewritten.
pub const SPRINGFIELD: &'static str = "Springfield";

/// What `SPRINGFIELD` is rewritten to.
pub const SPRINGFIELD_CITY: &'static str = "Springfield City";

/// A resolved address: the formatted address and the township name.
pub type ResolvedTownship = (String, String);

/// The mathematical value of a resolved address.
pub type ResolvedView = (Seq<char>, Seq<char>);

/// Whether `tag` is among the type tags of `component`.
pub open spec fn carries_tag(component: ComponentView, tag: Seq<char>) -> bool {
    component.types.contains(tag)
}

/// Whether `component` carries one of the three tags that name a township.
pub open spec fn names_township(component: ComponentView) -> bool {
    ||| carries_tag(component, LOCALITY@)
    ||| carries_tag(component, ADMINISTRATIVE_AREA_LEVEL_3@)
    ||| carries_tag(component, ADMINISTRATIVE_AREA_LEVEL_2@)
}

/// Whether the component at `index` names a township and none before it does.
pub open spec fn is_selected(components: Seq<ComponentView>, index: int) -> bool {
    &&& 0 <= index < components.len()
    &&& names_township(components[index])
    &&& forall|j: int| 0 <= j < index ==> !names_township(#[trigger] components[j])
}

/// The long name of the first component that names a township, or the empty
/// text where no component does.
pub open spec fn selected_township(components: Seq<ComponentView>) -> Seq<char> {
    if exists|i: int| is_selected(components, i) {
        components[choose|i: int| is_selected(components, i)].long_name
    } else {
        Seq::empty()
    }
}

/// The township name as it is given out: `"Springfield"` becomes
/// `"Springfield City"`, every other name stays as it is.
pub open spec fn disambiguate(name: Seq<char>) -> Seq<char> {
    if name == SPRINGFIELD@ {
        SPRINGFIELD_CITY@
    } else {
        name
    }
}

/// What an answer resolves to: nothing unless the status is `"OK"` and there
/// is a first candidate; else that candidate's formatted address with the
/// township selected from its components.
pub open spec fn resolve(response: ResponseView) -> Option<ResolvedView> {
    if response.status != STATUS_OK@ || response.results.len() == 0 {
        None
    } else {
        Some(
            (
                response.results[0].formatted_address,
                disambiguate(selected_township(response.results[0].address_components)),
            ),
        )
    }
}

/// At most one index is selected.
pub proof fn lemma_selected_is_unique(components: Seq<ComponentView>, i: int, j: int)
    requires
        is_selected(components, i),
        is_selected(components, j),
    ensures
        i == j,
{
}

/// The selected township is the long name of the first component that names
/// one.
pub proof fn lemma_selected_township_at(components: Seq<ComponentView>, index: int)
    requires
        is_selected(components, index),
    ensures
        selected_township(components) == components[index].long_name,
{
    let chosen = choose|i: int| is_selected(components, i);
    lemma_selected_is_unique(components, chosen, index);
}

/// Where no component names a township, the selected township is empty.
pub proof fn lemma_selected_township_none(components: Seq<ComponentView>)
    requires
        forall|j: int| 0 <= j < components.len() ==> !names_township(#[trigger] components[j]),
    ensures
        selected_township(components) == Seq::<char>::empty(),
{
}

/// An answer whose status is not `"OK"` resolves to nothing, whatever else it
/// holds.
pub proof fn lemma_unusable_status_is_unresolved(response: ResponseView)
    requires
        response.status != STATUS_OK@,
    ensures
        resolve(response) is None,
{
}

/// An answer without a candidate resolves to nothing, also where its status
/// is `"OK"`.
pub proof fn lemma_no_candidate_is_unresolved(response: ResponseView)
    requires
        response.results.len() == 0,
    ensures
        resolve(response) is None,
{
}

/// An answer with status `"OK"` and a candidate always resolves, and its
/// formatted address is that of the first candidate.
pub proof fn lemma_usable_answer_resolves(response: ResponseView)
    requires
        response.status == STATUS_OK@,
        response.results.len() > 0,
    ensures
        resolve(response) matches Some(row) && row.0
            == response.results[0].formatted_address,
{
}

/// Where the first component that names a township carries the locality tag,
/// its long name is selected, whatever tags the other components carry.
pub proof fn lemma_first_locality_is_selected(response: ResponseView, index: int)
    requires
        response.status == STATUS_OK@,
        response.results.len() > 0,
        0 <= index < response.results[0].address_components.len(),
        carries_tag(response.results[0].address_components[index], LOCALITY@),
        forall|j: int|
            0 <= j < index ==> !names_township(
                #[trigger] response.results[0].address_components[j],
            ),
    ensures
        selected_township(response.results[0].address_components)
            == response.results[0].address_components[index].long_name,
        resolve(response) == Some(
            (
                response.results[0].formatted_address,
                disambiguate(response.results[0].address_components[index].long_name),
            ),
        ),
{
    lemma_selected_township_at(response.results[0].address_components, index);
}

/// Where no component carries the locality tag, the first component with the
/// level-3 tag is selected, whatever level-2 components follow it. A level-2
/// component before it would be selected in its place, so there is to be
/// none.
pub proof fn lemma_level_3_is_selected_without_locality(response: ResponseView, index: int)
    requires
        response.status == STATUS_OK@,
        response.results.len() > 0,
        forall|j: int|
            0 <= j < response.results[0].address_components.len() ==> !carries_tag(
                #[trigger] response.results[0].address_components[j],
                LOCALITY@,
            ),
        0 <= index < response.results[0].address_components.len(),
        carries_tag(response.results[0].address_components[index], ADMINISTRATIVE_AREA_LEVEL_3@),
        forall|j: int|
            0 <= j < index ==> !carries_tag(
                #[trigger] response.results[0].address_components[j],
                ADMINISTRATIVE_AREA_LEVEL_3@,
            ),
        forall|j: int|
            0 <= j < index ==> !carries_tag(
                #[trigger] response.results[0].address_components[j],
                ADMINISTRATIVE_AREA_LEVEL_2@,
            ),
    ensures
        is_selected(response.results[0].address_components, index),
        selected_township(response.results[0].address_components)
            == response.results[0].address_components[index].long_name,
        resolve(response) == Some(
            (
                response.results[0].formatted_address,
                disambiguate(response.results[0].address_components[index].long_name),
            ),
        ),
{
    lemma_selected_township_at(response.results[0].address_components, index);
}

/// A selected township of exactly `"Springfield"` is given out as
/// `"Springfield City"`; every other selected township is given out
/// unchanged.
pub proof fn lemma_only_springfield_is_rewritten(response: ResponseView)
    requires
        response.status == STATUS_OK@,
        response.results.len() > 0,
    ensures
        selected_township(response.results[0].address_components) == SPRINGFIELD@ ==> resolve(
            response,
        ) == Some((response.results[0].formatted_address, SPRINGFIELD_CITY@)),
        selected_township(response.results[0].address_components) != SPRINGFIELD@ ==> resolve(
            response,
        ) == Some(
            (
                response.results[0].formatted_address,
                selected_township(response.results[0].address_components),
            ),
        ),
{
}

/// Whether `tag` is among the type tags of `component`.
pub fn has_tag(component: &AddressComponent, tag: &str) -> (found: bool)
    ensures
        found == carries_tag(component@, tag@),
{
    let mut i: usize = 0;
    while i < component.types.len()
        invariant
            i <= component.types.len(),
            forall|j: int| 0 <= j < i ==> #[trigger] component@.types[j] != tag@,
        decreases component.types.len() - i,
    {
        if same_text(component.types[i].as_str(), tag) {
            assert(component@.types[i as int] == tag@);
            return true;
        }
        i += 1;
    }
    false
}

/// Whether `component` carries a locality tag or one of the two
/// administrative-area tags. The tags are tried in that order.
pub fn is_township_component(component: &AddressComponent) -> (named: bool)
    ensures
        named == names_township(component@),
{
    has_tag(component, LOCALITY) || has_tag(component, ADMINISTRATIVE_AREA_LEVEL_3) || has_tag(
        component,
        ADMINISTRATIVE_AREA_LEVEL_2,
    )
}

/// Selects the township out of the components of one candidate match: the
/// long name of the first component that names a township, the empty string
/// where none does.
pub fn select_township(components: &Vec<AddressComponent>) -> (township: String)
    ensures
        township@ == selected_township(components.deep_view()),
        forall|k: int|
            is_selected(components.deep_view(), k) ==> township@
                == #[trigger] components.deep_view()[k].long_name,
        (forall|j: int|
            0 <= j < components.len() ==> !names_township(#[trigger] components.deep_view()[j]))
            ==> township@.len() == 0,
{
    let ghost views = components.deep_view();
    let mut i: usize = 0;
    while i < components.len()
        invariant
            i <= components.len(),
            views == components.deep_view(),
            forall|j: int| 0 <= j < i ==> !names_township(#[trigger] views[j]),
        decreases components.len() - i,
    {
        if is_township_component(&components[i]) {
            proof {
                lemma_selected_township_at(views, i as int);
                assert forall|k: int| is_selected(views, k) implies components[i as int]@.long_name
                    == #[trigger] views[k].long_name by {
                    lemma_selected_is_unique(views, k, i as int);
                }
            }
            return components[i].long_name.clone();
        }
        i += 1;
    }
    String::new()
}

/// Rewrites the township name `"Springfield"` to `"Springfield City"`; any
/// other name, one that only contains `"Springfield"` too, comes back as it
/// is.
pub fn disambiguate_township(name: String) -> (township: String)
    ensures
        township@ == disambiguate(name@),
        name@ == SPRINGFIELD@ ==> township@ == SPRINGFIELD_CITY@,
        name@ != SPRINGFIELD@ ==> township@ == name@,
{
    if same_text(name.as_str(), SPRINGFIELD) {
        SPRINGFIELD_CITY.to_owned()
    } else {
        name
    }
}

/// Resolves one answer of the geocoding service.
///
/// Gives `None` where the status is not `"OK"` or the answer holds no
/// candidate. Else gives the first candidate's formatted address, and beside
/// it the township selected from that candidate's components and
/// disambiguated. Where no component names a township the township is the
/// empty string; that is still `Some`.
pub fn get_township(result: GeoDataAddress) -> (resolved: Option<ResolvedTownship>)
    ensures
        resolved.deep_view() == resolve(result@),
        result@.status != STATUS_OK@ ==> resolved is None,
        result@.results.len() == 0 ==> resolved is None,
        result@.status == STATUS_OK@ && result@.results.len() > 0 ==> resolved is Some,
{
    if !same_text(result.status.as_str(), STATUS_OK) {
        return None;
    }
    if result.results.len() == 0 {
        return None;
    }
    let first = &result.results[0];
    let township = disambiguate_township(select_township(&first.address_components));
    Some((first.formatted_address.clone(), township))
}

} // verus!
