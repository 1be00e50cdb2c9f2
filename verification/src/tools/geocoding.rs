//! Finding the coordinates of an address through the Google Maps Geocoding API.
use vstd::prelude::*;
use crate::json::{Json, JsonV, owned};
use crate::text::{url_encode, url_encoded};
use crate::tools::{required_str_arg, result_view, str_arg, string_arg_schema, string_arg_schema_json};
use crate::tools::search::str_or;

verus! {

#[derive(Debug, PartialEq)]
pub struct GeocodingTool;

/// What a geocoding response comes to.
#[derive(Debug, PartialEq)]
pub enum GeocodeOutcome {
    /// The API reported an error; the message for it.
    Failed(String),
    /// The first result: its address and the values of its latitude and longitude.
    Located { address: String, lat: Json, lng: Json },
    /// No result.
    NotFound,
}

pub enum GeocodeOutcomeV {
    Failed(Seq<char>),
    Located { address: Seq<char>, lat: JsonV, lng: JsonV },
    NotFound,
}

impl GeocodeOutcome {
    pub open spec fn view_of(self) -> GeocodeOutcomeV {
        match self {
            GeocodeOutcome::Failed(m) => GeocodeOutcomeV::Failed(m@),
            GeocodeOutcome::Located { address, lat, lng } => GeocodeOutcomeV::Located {
                address: address@,
                lat: lat.deep(),
                lng: lng.deep(),
            },
            GeocodeOutcome::NotFound => GeocodeOutcomeV::NotFound,
        }
    }
}

/// The status of a response where it is a string other than "OK".
pub open spec fn failed_status(resp: JsonV) -> Option<Seq<char>> {
    match resp.field("status"@).str_value() {
        Some(st) => if st != "OK"@ {
            Some(st)
        } else {
            None
        },
        None => None,
    }
}

/// The geometry of the first result, where there is a first result.
pub open spec fn first_geometry(resp: JsonV) -> Option<JsonV> {
    match resp.field("results"@).array_value() {
        Some(rs) => if rs.len() > 0 {
            Some(rs[0].field("geometry"@))
        } else {
            None
        },
        None => None,
    }
}

/// Where reading a response would fail: the geometry of the first result is
/// an object without a location, or the location is an object without a
/// latitude or a longitude.
pub open spec fn geocode_unreadable(resp: JsonV) -> bool {
    &&& failed_status(resp) is None
    &&& match first_geometry(resp) {
        Some(g) => g.is_object() && match g.lookup("location"@) {
            None => true,
            Some(loc) => loc.is_object() && (loc.lookup("lat"@) is None || loc.lookup("lng"@) is None),
        },
        None => false,
    }
}

/// What a response comes to: a status other than "OK" is an error (with the
/// API's error message where it gives one); otherwise the first result, where
/// its geometry holds a location object, gives the formatted address (or the
/// address asked for) and the location's latitude and longitude.
pub open spec fn geocode_outcome(resp: JsonV, address: Seq<char>) -> GeocodeOutcomeV {
    match failed_status(resp) {
        Some(st) => match resp.field("error_message"@).str_value() {
            Some(m) => GeocodeOutcomeV::Failed("Google Maps API error: "@ + st + " - "@ + m),
            None => GeocodeOutcomeV::Failed("Google Maps API error: "@ + st),
        },
        None => match first_geometry(resp) {
            Some(g) => if g.is_object() && g.field("location"@).is_object() {
                let loc = g.field("location"@);
                let first = resp.field("results"@).item(0);
                GeocodeOutcomeV::Located {
                    address: str_or(first.field("formatted_address"@), address),
                    lat: loc.field("lat"@),
                    lng: loc.field("lng"@),
                }
            } else {
                GeocodeOutcomeV::NotFound
            },
            None => GeocodeOutcomeV::NotFound,
        },
    }
}

fn failed_status_exec(response: &Json) -> (r: Option<&str>)
    ensures
        match r {
            Some(s) => failed_status(response.deep()) == Some(s@),
            None => failed_status(response.deep()) is None,
        },
{
    match response.get("status") {
        Some(v) => match v.as_str() {
            Some(st) => {
                let ok = owned("OK");
                if owned(st) != ok {
                    Some(st)
                } else {
                    None
                }
            },
            None => None,
        },
        None => None,
    }
}

fn first_result(response: &Json) -> (r: Option<&Json>)
    ensures
        match r {
            Some(f) => first_geometry(response.deep()) == Some(f.deep().field("geometry"@))
                && response.deep().field("results"@).item(0) == f.deep(),
            None => first_geometry(response.deep()) is None,
        },
{
    match response.get("results") {
        Some(rs) => match rs.as_array() {
            Some(v) => {
                proof {
                    crate::json::lemma_deep_seq(v@);
                }
                if v.len() > 0 {
                    Some(&v[0])
                } else {
                    None
                }
            },
            None => None,
        },
        None => None,
    }
}

impl GeocodingTool {
    pub fn name(&self) -> (r: &'static str)
        ensures
            r@ == "geocoding"@,
    {
        "geocoding"
    }

    pub fn description(&self) -> (r: &'static str)
        ensures
            r@ == "Find the latitude and longitude of a location using the Google Maps Geocoding API."@,
    {
        "Find the latitude and longitude of a location using the Google Maps Geocoding API."
    }

    pub fn input_schema(&self) -> (r: Json)
        ensures
            r.deep() == string_arg_schema("address"@, "The address or location to look up."@),
    {
        string_arg_schema_json("address", "The address or location to look up.")
    }

    /// The address to look up.
    pub fn address(&self, args: &Json) -> (r: Result<String, String>)
        ensures
            result_view(r) == str_arg(args.deep(), "address"@, "Missing 'address' argument"@),
    {
        required_str_arg(args, "address", "Missing 'address' argument")
    }

    /// The environment variable that holds the API key.
    pub fn api_key_variable(&self) -> (r: &'static str)
        ensures
            r@ == "GOOGLE_MAPS_API_KEY"@,
    {
        "GOOGLE_MAPS_API_KEY"
    }

    /// The error when the API key is not set.
    pub fn missing_api_key(&self) -> (r: String)
        ensures
            r@ == "GOOGLE_MAPS_API_KEY environment variable not set"@,
    {
        owned("GOOGLE_MAPS_API_KEY environment variable not set")
    }

    /// The address of the lookup of `address` with the key `key`.
    pub fn url(&self, address: &str, key: &str) -> (r: String)
        ensures
            r@ == "https://maps.googleapis.com/maps/api/geocode/json?address="@ + url_encoded(address@)
                + "&key="@ + key@,
    {
        let mut r = owned("https://maps.googleapis.com/maps/api/geocode/json?address=");
        let a = url_encode(address);
        r.append(a.as_str());
        r.append("&key=");
        r.append(key);
        r
    }

    /// The error for a response whose status is no success; the status as shown.
    pub fn http_error(&self, status: &str) -> (r: String)
        ensures
            r@ == "Google Maps API error: "@ + status@,
    {
        let mut r = owned("Google Maps API error: ");
        r.append(status);
        r
    }

    /// Whether reading `response` would fail (see `geocode_unreadable`).
    pub fn unreadable(&self, response: &Json) -> (r: bool)
        ensures
            r == geocode_unreadable(response.deep()),
    {
        if failed_status_exec(response).is_some() {
            return false;
        }
        match first_result(response) {
            Some(first) => match first.get("geometry") {
                Some(g) => {
                    if !g.is_object() {
                        return false;
                    }
                    match g.get("location") {
                        None => true,
                        Some(loc) => loc.is_object() && (loc.get("lat").is_none() || loc.get(
                            "lng",
                        ).is_none()),
                    }
                },
                None => false,
            },
            None => false,
        }
    }

    /// What a response comes to (see `geocode_outcome`).
    pub fn interpret(&self, response: &Json, address: &str) -> (r: GeocodeOutcome)
        requires
            !geocode_unreadable(response.deep()),
        ensures
            r.view_of() == geocode_outcome(response.deep(), address@),
    {
        match failed_status_exec(response) {
            Some(st) => {
                let mut m = owned("Google Maps API error: ");
                m.append(st);
                match response.get("error_message") {
                    Some(v) => match v.as_str() {
                        Some(em) => {
                            m.append(" - ");
                            m.append(em);
                            return GeocodeOutcome::Failed(m);
                        },
                        None => {},
                    },
                    None => {},
                }
                return GeocodeOutcome::Failed(m);
            },
            None => {},
        }
        match first_result(response) {
            Some(first) => match first.get("geometry") {
                Some(g) => {
                    if !g.is_object() {
                        return GeocodeOutcome::NotFound;
                    }
                    match g.get("location") {
                        Some(loc) => {
                            if !loc.is_object() {
                                return GeocodeOutcome::NotFound;
                            }
                            let lat = match loc.get("lat") {
                                Some(v) => v.duplicate(),
                                None => Json::Null,
                            };
                            let lng = match loc.get("lng") {
                                Some(v) => v.duplicate(),
                                None => Json::Null,
                            };
                            let addr = match first.get("formatted_address") {
                                Some(v) => match v.as_str() {
                                    Some(s) => owned(s),
                                    None => owned(address),
                                },
                                None => owned(address),
                            };
                            GeocodeOutcome::Located { address: addr, lat, lng }
                        },
                        None => GeocodeOutcome::NotFound,
                    }
                },
                None => GeocodeOutcome::NotFound,
            },
            None => GeocodeOutcome::NotFound,
        }
    }

    /// The answer for a located address; the coordinates as shown.
    pub fn report(&self, address: &str, lat: &str, lng: &str) -> (r: String)
        ensures
            r@ == "Location: "@ + address@ + "\nLatitude: "@ + lat@ + "\nLongitude: "@ + lng@,
    {
        let mut r = owned("Location: ");
        r.append(address);
        r.append("\nLatitude: ");
        r.append(lat);
        r.append("\nLongitude: ");
        r.append(lng);
        r
    }

    /// The answer when nothing was found.
    pub fn not_found(&self) -> (r: String)
        ensures
            r@ == "No results found."@,
    {
        owned("No results found.")
    }
}


/// Where a response reports no error and its first result has a location
/// object, the outcome is located at that location's latitude and
/// longitude, with the result's formatted address where it is a string, and
/// the address asked for only where it is not.
pub proof fn lemma_located_address(resp: JsonV, address: Seq<char>)
    requires
        failed_status(resp) is None,
        resp.field("results"@).item(0).field("geometry"@).field("location"@).is_object(),
    ensures
        ({
            let first = resp.field("results"@).item(0);
            let loc = first.field("geometry"@).field("location"@);
            &&& geocode_outcome(resp, address) matches GeocodeOutcomeV::Located { address: a, lat, lng }
            &&& lat == loc.field("lat"@)
            &&& lng == loc.field("lng"@)
            &&& first.field("formatted_address"@).str_value() matches Some(f) ==> a == f
            &&& first.field("formatted_address"@).str_value() is None ==> a == address
        }),
{
    let first = resp.field("results"@).item(0);
    assert(first.field("geometry"@).is_object());
    assert(resp.field("results"@) is Array);
}

} // verus!
