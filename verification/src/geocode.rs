//! The data the geocoding service exchanges with this program, and the
//! selection of a result from its answer.
//!
//! The service answers a search with a list of candidate locations, best
//! first, and a reverse lookup with a place. The coordinates arrive as
//! text and are kept as text here; turning them into numbers, like the
//! HTTP call itself, is the surrounding application's business.

use vstd::prelude::*;

verus! {

/// A coordinate pair as the geocoding service sends it: longitude and
/// latitude, each a decimal numeral in text form.
pub struct Location {
    pub lat: String,
    pub lon: String,
}

/// A named place as the geocoding service sends it.
pub struct Place {
    pub display_name: String,
}

/// What can go wrong with a geocoding answer once it has been read:
/// the search matched nothing.
pub enum GeoError {
    NotFound,
}

impl Location {
    /// The form a location is printed in: `lon,lat`.
    pub fn display_string(&self) -> (r: String)
        ensures
            r@ == self.lon@ + seq![','] + self.lat@,
    {
        proof {
            reveal_strlit(",");
        }
        let mut s = self.lon.clone();
        s.append(",");
        s.append(self.lat.as_str());
        s
    }
}

impl Place {
    /// The form a place is printed in: its display name.
    pub fn display_string(&self) -> (r: String)
        ensures
            r@ == self.display_name@,
    {
        self.display_name.clone()
    }
}

impl GeoError {
    /// The message reported for this failure.
    pub fn message(&self) -> (r: String)
        ensures
            r@ == "No result found"@,
    {
        String::from_str("No result found")
    }
}

/// Picks the service's best hit: the first location of the answer, or
/// `NotFound` for an empty answer.
pub fn first_location(results: Vec<Location>) -> (r: Result<Location, GeoError>)
    ensures
        results@.len() == 0 ==> (r matches Err(e) && e == (GeoError::NotFound)),
        results@.len() > 0 ==> (r matches Ok(l) && l == results@[0]),
{
    let mut results = results;
    if results.len() == 0 {
        Err(GeoError::NotFound)
    } else {
        Ok(results.remove(0))
    }
}

} // verus!
