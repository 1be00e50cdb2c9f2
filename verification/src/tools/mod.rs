//! The tools the agent offers: what each tells the model of itself, how it
//! reads its arguments, and what it makes of what it finds.
pub mod calculator;
pub mod climate_data;
pub mod command;
pub mod geocoding;
pub mod search;
pub mod sql;
pub mod station_data;
pub mod station_lookup;

use vstd::prelude::*;
use crate::json::{Json, JsonV, owned};
use crate::models::{object2, object3};

verus! {

/// The schema of arguments that are one required string.
pub open spec fn string_arg_schema(arg: Seq<char>, description: Seq<char>) -> JsonV {
    JsonV::Object(
        seq![
            ("type"@, JsonV::Str("object"@)),
            (
                "properties"@,
                JsonV::Object(
                    seq![
                        (
                            arg,
                            JsonV::Object(
                                seq![
                                    ("type"@, JsonV::Str("string"@)),
                                    ("description"@, JsonV::Str(description)),
                                ],
                            ),
                        ),
                    ],
                ),
            ),
            ("required"@, JsonV::Array(seq![JsonV::Str(arg)])),
        ],
    )
}

/// The schema of arguments that are one required string (see `string_arg_schema`).
pub fn string_arg_schema_json(arg: &str, description: &str) -> (r: Json)
    ensures
        r.deep() == string_arg_schema(arg@, description@),
{
    let prop = object2("type", Json::string("string"), "description", Json::string(description));
    let mut ps: Vec<(String, Json)> = Vec::new();
    let ghost pv = prop.deep();
    ps.push((owned(arg), prop));
    proof {
        crate::json::lemma_deep_entries_ext(ps@, seq![(arg@, pv)]);
    }
    let mut req: Vec<Json> = Vec::new();
    req.push(Json::string(arg));
    proof {
        crate::json::lemma_deep_seq_ext(req@, seq![JsonV::Str(arg@)]);
    }
    object3("type", Json::string("object"), "properties", Json::Object(ps), "required", Json::Array(req))
}

/// How the language model is told of a tool.
pub fn tool_spec(name: &str, description: &str, parameters: Json) -> (r: crate::agent::ToolSpec)
    ensures
        r.view_of() == (crate::agent::ToolSpecV {
            name: name@,
            description: description@,
            parameters: parameters.deep(),
        }),
{
    crate::agent::ToolSpec { name: owned(name), description: owned(description), parameters }
}

/// The string argument `key`: `args[key]` where it is a string, and the
/// error `missing` where it is not (or is absent).
pub open spec fn str_arg(args: JsonV, key: Seq<char>, missing: Seq<char>) -> Result<Seq<char>, Seq<char>> {
    match args.field(key).str_value() {
        Some(s) => Ok(s),
        None => Err(missing),
    }
}

pub open spec fn result_view(r: Result<String, String>) -> Result<Seq<char>, Seq<char>> {
    match r {
        Ok(s) => Ok(s@),
        Err(e) => Err(e@),
    }
}

/// Reads the string argument `key` (see `str_arg`).
pub fn required_str_arg(args: &Json, key: &str, missing: &str) -> (r: Result<String, String>)
    ensures
        result_view(r) == str_arg(args.deep(), key@, missing@),
{
    match args.get(key) {
        Some(v) => match v.as_str() {
            Some(s) => Ok(owned(s)),
            None => Err(owned(missing)),
        },
        None => Err(owned(missing)),
    }
}

} // verus!
