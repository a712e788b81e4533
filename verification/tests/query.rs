use locc::query::{get_query_string, reverse_geocode_url, search_url};

#[test]
fn joins_no_pairs_to_the_empty_string() {
    assert_eq!(get_query_string(vec![]), "");
}

#[test]
fn joins_one_pair_without_separator() {
    assert_eq!(get_query_string(vec![("format", "json")]), "format=json");
}

#[test]
fn joins_pairs_with_ampersands() {
    let params = vec![("format", "json"), ("lon", "9.18"), ("lat", "48.77")];
    assert_eq!(get_query_string(params), "format=json&lon=9.18&lat=48.77");
}

#[test]
fn keeps_empty_keys_and_values() {
    assert_eq!(get_query_string(vec![("a", ""), ("", "b")]), "a=&=b");
}

#[test]
fn builds_the_reverse_geocoding_url() {
    assert_eq!(
        reverse_geocode_url("9.177789688110352", "48.776781529534965"),
        "http://nominatim.openstreetmap.org/reverse?format=json&lon=9.177789688110352&lat=48.776781529534965"
    );
}

#[test]
fn builds_the_search_url() {
    assert_eq!(
        search_url("Stuttgart"),
        "http://nominatim.openstreetmap.org/search?format=jsonv2&q=Stuttgart&limit=1"
    );
}
