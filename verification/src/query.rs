//! Query strings and URLs for the geocoding service.
//!
//! A request to the service is an HTTP GET whose query string joins
//! `key=value` pairs with `&`. Building that string, and the two request
//! URLs, is plain work on characters and is stated exactly here; sending
//! the request is the surrounding application's business.

use vstd::prelude::*;

verus! {

/// One `key=value` pair.
pub open spec fn pair_string(p: (Seq<char>, Seq<char>)) -> Seq<char> {
    p.0 + seq!['='] + p.1
}

/// The pairs joined with `&`: empty for no pairs, and each further pair
/// appended after a separator.
pub open spec fn query_string_of(params: Seq<(Seq<char>, Seq<char>)>) -> Seq<char>
    decreases params.len(),
{
    if params.len() == 0 {
        Seq::empty()
    } else if params.len() == 1 {
        pair_string(params[0])
    } else {
        query_string_of(params.drop_last()) + seq!['&'] + pair_string(params.last())
    }
}

/// The views of a parameter list's keys and values.
pub open spec fn params_view(params: Seq<(&str, &str)>) -> Seq<(Seq<char>, Seq<char>)> {
    params.map_values(|p: (&str, &str)| (p.0@, p.1@))
}

/// Joins the given `key=value` pairs with `&`.
pub fn get_query_string(params: Vec<(&str, &str)>) -> (r: String)
    ensures
        r@ == query_string_of(params_view(params@)),
{
    let ghost pv = params_view(params@);
    let mut out = String::new();
    proof {
        reveal_strlit("&");
        reveal_strlit("=");
        assert(pv.take(0) =~= Seq::<(Seq<char>, Seq<char>)>::empty());
    }
    let n = params.len();
    let mut i: usize = 0;
    while i < n
        invariant
            0 <= i <= n == params@.len(),
            pv == params_view(params@),
            out@ == query_string_of(pv.take(i as int)),
        decreases n - i,
    {
        if i > 0 {
            out.append("&");
        }
        let (k, v) = params[i];
        out.append(k);
        out.append("=");
        out.append(v);
        proof {
            reveal_strlit("&");
            reveal_strlit("=");
            assert(pv[i as int] == (params@[i as int].0@, params@[i as int].1@));
            let t = pv.take(i + 1);
            assert(t.drop_last() =~= pv.take(i as int));
            assert(t.last() == pv[i as int]);
            if i == 0 {
                assert(t.len() == 1);
                assert(out@ =~= pair_string(t[0]));
            } else {
                assert(out@ =~= query_string_of(pv.take(i as int)) + seq!['&'] + pair_string(
                    t.last(),
                ));
            }
        }
        i += 1;
    }
    proof {
        assert(pv.take(n as int) =~= pv);
    }
    out
}

/// The URL that reverse-geocodes a coordinate pair to a place name.
pub fn reverse_geocode_url(lon: &str, lat: &str) -> (r: String)
    ensures
        r@ == "http://nominatim.openstreetmap.org/reverse?"@ + query_string_of(
            seq![("format"@, "json"@), ("lon"@, lon@), ("lat"@, lat@)],
        ),
{
    let mut params: Vec<(&str, &str)> = Vec::new();
    params.push(("format", "json"));
    params.push(("lon", lon));
    params.push(("lat", lat));
    let ghost pv = params@;
    let q = get_query_string(params);
    let mut url = String::from_str("http://nominatim.openstreetmap.org/reverse?");
    url.append(q.as_str());
    proof {
        assert(params_view(pv) =~= seq![("format"@, "json"@), ("lon"@, lon@), ("lat"@, lat@)]);
    }
    url
}

/// The URL that searches for a place name, asking for the best single hit.
pub fn search_url(place_name: &str) -> (r: String)
    ensures
        r@ == "http://nominatim.openstreetmap.org/search?"@ + query_string_of(
            seq![("format"@, "jsonv2"@), ("q"@, place_name@), ("limit"@, "1"@)],
        ),
{
    let mut params: Vec<(&str, &str)> = Vec::new();
    params.push(("format", "jsonv2"));
    params.push(("q", place_name));
    params.push(("limit", "1"));
    let ghost pv = params@;
    let q = get_query_string(params);
    let mut url = String::from_str("http://nominatim.openstreetmap.org/search?");
    url.append(q.as_str());
    proof {
        assert(params_view(pv) =~= seq![
            ("format"@, "jsonv2"@),
            ("q"@, place_name@),
            ("limit"@, "1"@),
        ]);
    }
    url
}

} // verus!
