use township::model::{AddressComponent, AddressResult, GeoDataAddress};
use township::resolver::{
    disambiguate_township, get_township, has_tag, is_township_component, select_township,
};

fn component(long_name: &str, types: &[&str]) -> AddressComponent {
    AddressComponent {
        long_name: long_name.to_string(),
        short_name: long_name.chars().take(2).collect(),
        types: types.iter().map(|tag| tag.to_string()).collect(),
    }
}

fn candidate(formatted_address: &str, components: Vec<AddressComponent>) -> AddressResult {
    AddressResult {
        address_components: components,
        formatted_address: formatted_address.to_string(),
    }
}

fn answer(status: &str, results: Vec<AddressResult>) -> GeoDataAddress {
    GeoDataAddress { status: status.to_string(), results }
}

fn resolved(formatted_address: &str, township: &str) -> Option<(String, String)> {
    Some((formatted_address.to_string(), township.to_string()))
}

#[test]
fn locality_component_gives_the_township() {
    let response = answer(
        "OK",
        vec![candidate(
            "1600 Amphitheatre Parkway, Mountain View, CA, USA",
            vec![
                component("1600", &["street_number"]),
                component("Amphitheatre Parkway", &["route"]),
                component("Mountain View", &["locality", "political"]),
                component("Santa Clara County", &["administrative_area_level_2", "political"]),
                component("California", &["administrative_area_level_1", "political"]),
            ],
        )],
    );
    assert_eq!(
        get_township(response),
        resolved("1600 Amphitheatre Parkway, Mountain View, CA, USA", "Mountain View")
    );
}

#[test]
fn level_2_alone_gives_the_county() {
    let response = answer(
        "OK",
        vec![candidate(
            "Example County, USA",
            vec![
                component("Example County", &["administrative_area_level_2"]),
                component("United States", &["country", "political"]),
            ],
        )],
    );
    assert_eq!(get_township(response), resolved("Example County, USA", "Example County"));
}

#[test]
fn zero_results_status_is_unresolved() {
    assert_eq!(get_township(answer("ZERO_RESULTS", vec![])), None);
}

#[test]
fn springfield_becomes_springfield_city() {
    let response = answer(
        "OK",
        vec![candidate(
            "123 Fake Addr Rd, Springfield, OH, USA",
            vec![component("Springfield", &["locality", "political"])],
        )],
    );
    assert_eq!(
        get_township(response),
        resolved("123 Fake Addr Rd, Springfield, OH, USA", "Springfield City")
    );
}

#[test]
fn springfield_from_a_fallback_tag_is_rewritten_too() {
    let response = answer(
        "OK",
        vec![candidate("X", vec![component("Springfield", &["administrative_area_level_3"])])],
    );
    assert_eq!(get_township(response), resolved("X", "Springfield City"));
}

#[test]
fn springfieldville_is_not_rewritten() {
    let response =
        answer("OK", vec![candidate("X", vec![component("Springfieldville", &["locality"])])]);
    assert_eq!(get_township(response), resolved("X", "Springfieldville"));
}

#[test]
fn north_springfield_is_not_rewritten() {
    let response =
        answer("OK", vec![candidate("X", vec![component("North Springfield", &["locality"])])]);
    assert_eq!(get_township(response), resolved("X", "North Springfield"));
}

#[test]
fn springfield_city_stays_as_it_is() {
    let response =
        answer("OK", vec![candidate("X", vec![component("Springfield City", &["locality"])])]);
    assert_eq!(get_township(response), resolved("X", "Springfield City"));
}

#[test]
fn lower_case_springfield_is_not_rewritten() {
    assert_eq!(disambiguate_township("springfield".to_string()), "springfield");
    assert_eq!(disambiguate_township("Springfield ".to_string()), "Springfield ");
    assert_eq!(disambiguate_township("Springfiel".to_string()), "Springfiel");
}

#[test]
fn disambiguate_rewrites_the_exact_name_only() {
    assert_eq!(disambiguate_township("Springfield".to_string()), "Springfield City");
    assert_eq!(disambiguate_township("Mountain View".to_string()), "Mountain View");
    assert_eq!(disambiguate_township(String::new()), "");
}

#[test]
fn status_other_than_ok_is_unresolved_whatever_the_results() {
    for status in ["ZERO_RESULTS", "OVER_QUERY_LIMIT", "REQUEST_DENIED", "INVALID_REQUEST", ""] {
        let response = answer(
            status,
            vec![candidate("Somewhere", vec![component("Mountain View", &["locality"])])],
        );
        assert_eq!(get_township(response), None, "status {:?}", status);
    }
}

#[test]
fn status_is_compared_exactly() {
    for status in ["ok", "Ok", "OK ", " OK", "OKAY", "O"] {
        let response = answer(
            status,
            vec![candidate("Somewhere", vec![component("Mountain View", &["locality"])])],
        );
        assert_eq!(get_township(response), None, "status {:?}", status);
    }
}

#[test]
fn ok_status_without_results_is_unresolved() {
    assert_eq!(get_township(answer("OK", vec![])), None);
}

#[test]
fn first_matching_locality_wins_over_later_components() {
    let response = answer(
        "OK",
        vec![candidate(
            "A",
            vec![
                component("12", &["street_number"]),
                component("Rivertown", &["locality", "political"]),
                component("Lake Township", &["administrative_area_level_3"]),
                component("Pine County", &["administrative_area_level_2"]),
                component("Other Town", &["locality"]),
            ],
        )],
    );
    assert_eq!(get_township(response), resolved("A", "Rivertown"));
}

#[test]
fn level_3_wins_over_a_later_level_2() {
    let response = answer(
        "OK",
        vec![candidate(
            "A",
            vec![
                component("Main Street", &["route"]),
                component("Lake Township", &["administrative_area_level_3", "political"]),
                component("Pine County", &["administrative_area_level_2", "political"]),
            ],
        )],
    );
    assert_eq!(get_township(response), resolved("A", "Lake Township"));
}

#[test]
fn an_earlier_level_2_is_not_overridden_by_a_later_level_3() {
    let response = answer(
        "OK",
        vec![candidate(
            "A",
            vec![
                component("Pine County", &["administrative_area_level_2"]),
                component("Lake Township", &["administrative_area_level_3"]),
            ],
        )],
    );
    assert_eq!(get_township(response), resolved("A", "Pine County"));
}

#[test]
fn an_earlier_fallback_is_not_overridden_by_a_later_locality() {
    let response = answer(
        "OK",
        vec![candidate(
            "A",
            vec![
                component("Lake Township", &["administrative_area_level_3"]),
                component("Rivertown", &["locality"]),
            ],
        )],
    );
    assert_eq!(get_township(response), resolved("A", "Lake Township"));
}

#[test]
fn no_matching_component_gives_an_empty_township() {
    let response = answer(
        "OK",
        vec![candidate(
            "Nowhere",
            vec![
                component("California", &["administrative_area_level_1", "political"]),
                component("United States", &["country"]),
            ],
        )],
    );
    assert_eq!(get_township(response), resolved("Nowhere", ""));
}

#[test]
fn no_component_at_all_gives_an_empty_township() {
    let response = answer("OK", vec![candidate("Nowhere", vec![])]);
    assert_eq!(get_township(response), resolved("Nowhere", ""));
}

#[test]
fn only_the_first_result_is_consulted() {
    let response = answer(
        "OK",
        vec![
            candidate("First", vec![component("Pine County", &["administrative_area_level_2"])]),
            candidate("Second", vec![component("Rivertown", &["locality"])]),
        ],
    );
    assert_eq!(get_township(response), resolved("First", "Pine County"));
}

#[test]
fn first_result_without_match_does_not_fall_back_to_the_second() {
    let response = answer(
        "OK",
        vec![
            candidate("First", vec![component("12", &["street_number"])]),
            candidate("Second", vec![component("Rivertown", &["locality"])]),
        ],
    );
    assert_eq!(get_township(response), resolved("First", ""));
}

#[test]
fn long_name_is_given_not_short_name() {
    let response = answer(
        "OK",
        vec![candidate(
            "A",
            vec![AddressComponent {
                long_name: "Mountain View".to_string(),
                short_name: "MTV".to_string(),
                types: vec!["locality".to_string()],
            }],
        )],
    );
    assert_eq!(get_township(response), resolved("A", "Mountain View"));
}

#[test]
fn tags_are_compared_exactly() {
    let response = answer(
        "OK",
        vec![candidate(
            "A",
            vec![
                component("One", &["Locality"]),
                component("Two", &["sublocality"]),
                component("Three", &["administrative_area_level_1"]),
                component("Four", &["administrative_area_level_22"]),
                component("Five", &["locality "]),
                component("Six", &["administrative_area_level_2"]),
            ],
        )],
    );
    assert_eq!(get_township(response), resolved("A", "Six"));
}

#[test]
fn has_tag_finds_a_tag_at_any_place() {
    let mixed = component("X", &["political", "locality", "colloquial_area"]);
    assert!(has_tag(&mixed, "political"));
    assert!(has_tag(&mixed, "locality"));
    assert!(has_tag(&mixed, "colloquial_area"));
    assert!(!has_tag(&mixed, "administrative_area_level_2"));
    assert!(!has_tag(&mixed, "local"));
    assert!(!has_tag(&component("X", &[]), "locality"));
}

#[test]
fn township_component_carries_one_of_the_three_tags() {
    assert!(is_township_component(&component("X", &["locality"])));
    assert!(is_township_component(&component("X", &["political", "administrative_area_level_3"])));
    assert!(is_township_component(&component("X", &["administrative_area_level_2", "political"])));
    assert!(!is_township_component(&component("X", &["administrative_area_level_1"])));
    assert!(!is_township_component(&component("X", &["political", "country"])));
    assert!(!is_township_component(&component("X", &[])));
}

#[test]
fn select_township_takes_the_first_that_names_one() {
    let components = vec![
        component("Main Street", &["route"]),
        component("Pine County", &["administrative_area_level_2"]),
        component("Rivertown", &["locality"]),
    ];
    assert_eq!(select_township(&components), "Pine County");
    assert_eq!(select_township(&vec![component("Main Street", &["route"])]), "");
    assert_eq!(select_township(&Vec::new()), "");
}

#[test]
fn select_township_does_not_rewrite_springfield() {
    let components = vec![component("Springfield", &["locality"])];
    assert_eq!(select_township(&components), "Springfield");
}

#[test]
fn formatted_address_is_given_unchanged() {
    let formatted = "  Stra\u{df}e 1,\t80331 M\u{fc}nchen, Deutschland ";
    let response =
        answer("OK", vec![candidate(formatted, vec![component("M\u{fc}nchen", &["locality"])])]);
    assert_eq!(get_township(response), resolved(formatted, "M\u{fc}nchen"));
}
