//! Finding the weather stations nearest to a point, with the data columns
//! each of them offers.
use vstd::prelude::*;
use crate::json::{Json, JsonV, owned};
use crate::models::{object2, object3};

verus! {

#[derive(Debug, PartialEq)]
pub struct StationLookupTool {
    db_path: String,
    data_dir: String,
    climate_db_path: String,
}

/// The schema of a required number argument.
pub open spec fn number_arg(description: Seq<char>) -> JsonV {
    JsonV::Object(seq![("type"@, JsonV::Str("number"@)), ("description"@, JsonV::Str(description))])
}

/// The schema of the arguments: a latitude and a longitude, both required.
pub open spec fn lookup_schema() -> JsonV {
    JsonV::Object(
        seq![
            ("type"@, JsonV::Str("object"@)),
            (
                "properties"@,
                JsonV::Object(
                    seq![
                        ("lat"@, number_arg("Latitude of the location."@)),
                        ("lon"@, number_arg("Longitude of the location."@)),
                    ],
                ),
            ),
            ("required"@, JsonV::Array(seq![JsonV::Str("lat"@), JsonV::Str("lon"@)])),
        ],
    )
}

impl StationLookupTool {
    pub closed spec fn db_path_view(self) -> Seq<char> {
        self.db_path@
    }

    pub closed spec fn data_dir_view(self) -> Seq<char> {
        self.data_dir@
    }

    pub closed spec fn climate_db_path_view(self) -> Seq<char> {
        self.climate_db_path@
    }

    /// A tool on the station database at `db_path`, loading station files
    /// from `data_dir` into the climate database at `climate_db_path`.
    pub fn new(db_path: &str, data_dir: &str, climate_db_path: &str) -> (r: StationLookupTool)
        ensures
            r.db_path_view() == db_path@,
            r.data_dir_view() == data_dir@,
            r.climate_db_path_view() == climate_db_path@,
    {
        StationLookupTool {
            db_path: owned(db_path),
            data_dir: owned(data_dir),
            climate_db_path: owned(climate_db_path),
        }
    }

    pub fn db_path(&self) -> (r: &String)
        ensures
            r@ == self.db_path_view(),
    {
        &self.db_path
    }

    pub fn data_dir(&self) -> (r: &String)
        ensures
            r@ == self.data_dir_view(),
    {
        &self.data_dir
    }

    pub fn climate_db_path(&self) -> (r: &String)
        ensures
            r@ == self.climate_db_path_view(),
    {
        &self.climate_db_path
    }

    pub fn name(&self) -> (r: &'static str)
        ensures
            r@ == "station_lookup"@,
    {
        "station_lookup"
    }

    pub fn description(&self) -> (r: &'static str)
        ensures
            r@
                == "Look up the 3 weather stations closest to a given latitude and longitude, including their available data columns."@,
    {
        "Look up the 3 weather stations closest to a given latitude and longitude, including their available data columns."
    }

    pub fn input_schema(&self) -> (r: Json)
        ensures
            r.deep() == lookup_schema(),
    {
        let lat = object2("type", Json::string("number"), "description", Json::string("Latitude of the location."));
        let lon = object2("type", Json::string("number"), "description", Json::string("Longitude of the location."));
        let props = object2("lat", lat, "lon", lon);
        let mut req: Vec<Json> = Vec::new();
        req.push(Json::string("lat"));
        req.push(Json::string("lon"));
        proof {
            crate::json::lemma_deep_seq_ext(req@, seq![JsonV::Str("lat"@), JsonV::Str("lon"@)]);
        }
        object3("type", Json::string("object"), "properties", props, "required", Json::Array(req))
    }

    /// The statement that loads the spatial extension.
    pub fn spatial_extension_sql(&self) -> (r: &'static str)
        ensures
            r@ == "LOAD spatial;"@,
    {
        "LOAD spatial;"
    }

    /// The query for the three stations nearest to a point; its parameters
    /// are the longitude and the latitude.
    pub fn nearest_stations_sql(&self) -> (r: &'static str)
        ensures
            r@
                == "SELECT id, name, lat, lon, elev, ST_Distance_Sphere(geom, ST_Point(?, ?)) as distance FROM ghcnd_stations ORDER BY distance ASC LIMIT 3"@,
    {
        "SELECT id, name, lat, lon, elev, ST_Distance_Sphere(geom, ST_Point(?, ?)) as distance FROM ghcnd_stations ORDER BY distance ASC LIMIT 3"
    }

    /// The query for the columns of a station's table.
    pub fn table_info_sql(&self, station_id: &str) -> (r: String)
        ensures
            r@ == "PRAGMA table_info('"@ + station_id@ + "')"@,
    {
        let mut r = owned("PRAGMA table_info('");
        r.append(station_id);
        r.append("')");
        r
    }
}

} // verus!
