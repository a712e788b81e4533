use locc::geocode::{first_location, GeoError, Location, Place};

fn loc(lon: &str, lat: &str) -> Location {
    Location {
        lat: lat.to_string(),
        lon: lon.to_string(),
    }
}

#[test]
fn picks_the_first_result() {
    let results = vec![loc("9.18", "48.77"), loc("2.35", "48.85")];
    match first_location(results) {
        Ok(first) => {
            assert_eq!(first.lon, "9.18");
            assert_eq!(first.lat, "48.77");
        }
        Err(_) => panic!("a non-empty answer must yield a location"),
    }
}

#[test]
fn reports_when_nothing_was_found() {
    match first_location(vec![]) {
        Ok(_) => panic!("an empty answer must not yield a location"),
        Err(e) => {
            assert!(matches!(e, GeoError::NotFound));
            assert_eq!(e.message(), "No result found");
        }
    }
}

#[test]
fn prints_a_location_as_lon_comma_lat() {
    let l = loc("9.177789688110352", "48.776781529534965");
    assert_eq!(l.display_string(), "9.177789688110352,48.776781529534965");
}

#[test]
fn prints_a_place_as_its_display_name() {
    let p = Place {
        display_name: "Stuttgart, Baden-Wuerttemberg, Germany".to_string(),
    };
    assert_eq!(p.display_string(), "Stuttgart, Baden-Wuerttemberg, Germany");
}
