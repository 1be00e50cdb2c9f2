use vibagent::json::{Json, JsonNumber};
use vibagent::tools::calculator::{Arithmetic, ArithmeticOp, CalculatorTool, split_arithmetic};
use vibagent::tools::climate_data::ClimateDataTool;
use vibagent::tools::command::{RunCommand, trim_text};
use vibagent::tools::geocoding::{GeocodeOutcome, GeocodingTool};
use vibagent::tools::search::WebSearchTool;
use vibagent::tools::station_data::{LoadAction, LoadEvent, ensure_station_data_loaded};
use vibagent::tools::station_lookup::StationLookupTool;

fn s(x: &str) -> Json {
    Json::Str(x.to_string())
}

fn obj(entries: Vec<(&str, Json)>) -> Json {
    Json::Object(entries.into_iter().map(|(k, v)| (k.to_string(), v)).collect())
}

fn num(text: &str, as_u64: Option<u64>) -> Json {
    Json::Number(JsonNumber { text: text.to_string(), as_u64 })
}

#[test]
fn test_extract_station_ids() {
    let tool = ClimateDataTool::new("", "");
    let sql = "SELECT * FROM WA003475270 JOIN USW00094728 ON date";
    let ids = tool.extract_station_ids(sql).unwrap();
    assert!(ids.contains(&"WA003475270".to_string()));
    assert!(ids.contains(&"USW00094728".to_string()));
}

#[test]
fn test_geocoding_tool_metadata() {
    let tool = GeocodingTool;
    assert_eq!(tool.name(), "geocoding");
    assert!(tool.description().contains("Google Maps Geocoding API"));

    let schema = tool.input_schema();
    assert_eq!(schema.get("type").and_then(|v| v.as_str()), Some("object"));
    assert!(schema.get("properties").and_then(|p| p.get("address")).map(|a| a.is_object()).unwrap_or(false));
}

#[test]
fn test_web_search_tool_instantiation() {
    let tool = WebSearchTool;
    assert_eq!(tool.name(), "web_search");
    assert!(tool.description().contains("Brave Search"));
}

#[test]
fn station_ids_are_distinct_and_include_subqueries() {
    let tool = ClimateDataTool::new("", "");
    let ids = tool
        .extract_station_ids("SELECT * FROM A1 JOIN (SELECT * FROM B2 JOIN A1 ON x) t ON y, C3")
        .unwrap();
    assert_eq!(ids, vec!["A1".to_string(), "B2".to_string(), "C3".to_string()]);
}

#[test]
fn station_ids_of_unparsable_sql_is_the_parse_error() {
    let tool = ClimateDataTool::new("", "");
    let err = tool.extract_station_ids("SELEC * FROM X").unwrap_err();
    assert!(err.starts_with("sql parser error"));
}

#[test]
fn station_ids_of_non_query_is_empty() {
    let tool = ClimateDataTool::new("", "");
    let ids = tool.extract_station_ids("DROP TABLE X").unwrap();
    assert!(ids.is_empty());
}

#[test]
fn climate_database_in_memory_when_path_empty() {
    assert!(ClimateDataTool::new("", "d").database().is_none());
    let t = ClimateDataTool::new("data/climate.db", "d");
    assert_eq!(t.database().map(|p| p.as_str()), Some("data/climate.db"));
    assert_eq!(t.data_dir(), "d");
}

#[test]
fn climate_rows_get_column_names_or_numbers() {
    let tool = ClimateDataTool::new("", "");
    let rows = vec![vec![s("a"), num("1", Some(1)), Json::Null]];
    let names = vec!["STATION".to_string(), "PRCP".to_string()];
    let out = tool.assemble_rows(&rows, &names);
    let expected = Json::Array(vec![obj(vec![("STATION", s("a")), ("PRCP", num("1", Some(1))), ("column_2", Json::Null)])]);
    assert_eq!(out, expected);
}

#[test]
fn climate_query_argument() {
    let tool = ClimateDataTool::new("", "");
    assert_eq!(tool.query(&obj(vec![("query", s("SELECT 1"))])), Ok("SELECT 1".to_string()));
    assert_eq!(tool.query(&obj(vec![])), Err("Missing query argument".to_string()));
}

#[test]
fn calculator_splits_at_first_operator_by_precedence() {
    match split_arithmetic("12 * 3 + 4") {
        Arithmetic::Binary { op, left, right } => {
            assert_eq!(op, ArithmeticOp::Add);
            assert_eq!(left, "12*3");
            assert_eq!(right, "4");
        }
        _ => panic!("expected a binary form"),
    }
    match split_arithmetic("10 / 2") {
        Arithmetic::Binary { op, left, right } => {
            assert_eq!(op, ArithmeticOp::Divide);
            assert_eq!((left.as_str(), right.as_str()), ("10", "2"));
        }
        _ => panic!("expected a binary form"),
    }
    match split_arithmetic("-5") {
        Arithmetic::Binary { op, left, right } => {
            assert_eq!(op, ArithmeticOp::Subtract);
            assert_eq!((left.as_str(), right.as_str()), ("", "5"));
        }
        _ => panic!("expected a binary form"),
    }
    assert_eq!(split_arithmetic(" 4 2 "), Arithmetic::Single("42".to_string()));
}

#[test]
fn calculator_messages() {
    let tool = CalculatorTool;
    assert_eq!(tool.name(), "calculator");
    assert_eq!(tool.expression(&obj(vec![("expression", s("1+1"))])), Ok("1+1".to_string()));
    assert_eq!(tool.expression(&obj(vec![("expression", num("2", Some(2)))])), Err("Missing 'expression' argument".to_string()));
    assert_eq!(tool.division_by_zero(), "Division by zero");
    assert_eq!(tool.parse_failure("x", "invalid float literal"), "Failed to parse expression x: invalid float literal");
}

#[test]
fn command_permission_needs_y_after_trim_and_lowercase() {
    let tool = RunCommand;
    assert!(tool.permission_granted("y\n"));
    assert!(tool.permission_granted("  Y  "));
    assert!(!tool.permission_granted("yes"));
    assert!(!tool.permission_granted(""));
    assert_eq!(tool.denied(), "User denied permission to execute command.");
    assert_eq!(tool.caution("ls"), "\n[CAUTION] The agent wants to execute: 'ls'.");
}

#[test]
fn command_report_formats() {
    let tool = RunCommand;
    assert_eq!(tool.report(true, b"hi\n", b""), "Output:\nhi\n");
    assert_eq!(tool.report(false, b"out", b"bad"), "Command failed with error:\nbad\nStdout:\nout");
    assert_eq!(tool.report(true, &[0x66, 0xff], b""), "Output:\nf\u{FFFD}");
    assert_eq!(tool.command(&obj(vec![])), Err("Missing 'command' argument".to_string()));
}

#[test]
fn search_url_is_percent_encoded() {
    let tool = WebSearchTool;
    assert_eq!(tool.url("rust lang&co/é"), "https://api.search.brave.com/res/v1/web/search?q=rust%20lang%26co%2F%C3%A9");
}

#[test]
fn search_summary_lists_at_most_five_results() {
    let tool = WebSearchTool;
    let mut results = vec![obj(vec![("title", s("T")), ("description", s("D")), ("url", s("U"))]), obj(vec![])];
    for _ in 0..5 {
        results.push(obj(vec![("title", s("X"))]));
    }
    let resp = obj(vec![("web", obj(vec![("results", Json::Array(results))]))]);
    let out = tool.summary("q", &resp);
    let expected = "Search results for 'q':\n\n1. T\n   D\n   URL: U\n\n2. No Title\n   No Description\n   URL: No URL\n\n3. X\n   No Description\n   URL: No URL\n\n4. X\n   No Description\n   URL: No URL\n\n5. X\n   No Description\n   URL: No URL\n\n";
    assert_eq!(out, expected);
    assert_eq!(tool.summary("q", &obj(vec![])), "No results found.");
    assert_eq!(tool.gave_up(), "Brave Search failed after retries");
    assert_eq!(tool.missing_api_key(), "BRAVE_API_KEY environment variable not set");
}

#[test]
fn geocode_error_status() {
    let tool = GeocodingTool;
    let resp = obj(vec![("status", s("REQUEST_DENIED")), ("error_message", s("bad key"))]);
    assert_eq!(tool.interpret(&resp, "x"), GeocodeOutcome::Failed("Google Maps API error: REQUEST_DENIED - bad key".to_string()));
    let resp = obj(vec![("status", s("ZERO_RESULTS"))]);
    assert_eq!(tool.interpret(&resp, "x"), GeocodeOutcome::Failed("Google Maps API error: ZERO_RESULTS".to_string()));
}

#[test]
fn geocode_located_and_not_found() {
    let tool = GeocodingTool;
    let loc = obj(vec![("lat", num("37.7", None)), ("lng", num("-122.4", None))]);
    let first = obj(vec![("geometry", obj(vec![("location", loc)]))]);
    let resp = obj(vec![("status", s("OK")), ("results", Json::Array(vec![first]))]);
    assert!(!tool.unreadable(&resp));
    match tool.interpret(&resp, "SF") {
        GeocodeOutcome::Located { address, lat, lng } => {
            assert_eq!(address, "SF");
            assert_eq!(lat, num("37.7", None));
            assert_eq!(lng, num("-122.4", None));
        }
        other => panic!("unexpected {:?}", other),
    }
    assert_eq!(tool.report("SF", "37.7", "-122.4"), "Location: SF\nLatitude: 37.7\nLongitude: -122.4");
    let resp = obj(vec![("status", s("OK")), ("results", Json::Array(vec![]))]);
    assert_eq!(tool.interpret(&resp, "SF"), GeocodeOutcome::NotFound);
    let bad = obj(vec![("results", Json::Array(vec![obj(vec![("geometry", obj(vec![]))])]))]);
    assert!(tool.unreadable(&bad));
    assert_eq!(tool.url("a b", "K"), "https://maps.googleapis.com/maps/api/geocode/json?address=a%20b&key=K");
    assert_eq!(tool.http_error("404 Not Found"), "Google Maps API error: 404 Not Found");
}

#[test]
fn station_loading_steps() {
    match ensure_station_data_loaded("dir", "ST1", LoadEvent::Start) {
        LoadAction::CheckTable { sql, param } => {
            assert_eq!(sql, "SELECT count(*) > 0 FROM information_schema.tables WHERE table_name = ?");
            assert_eq!(param, "ST1");
        }
        other => panic!("unexpected {:?}", other),
    }
    assert_eq!(ensure_station_data_loaded("dir", "ST1", LoadEvent::TableChecked(Ok(true))), LoadAction::Done);
    assert_eq!(
        ensure_station_data_loaded("dir", "ST1", LoadEvent::TableChecked(Ok(false))),
        LoadAction::CheckCsv { path: "dir/ST1.csv".to_string() }
    );
    assert_eq!(
        ensure_station_data_loaded("dir", "ST1", LoadEvent::CsvChecked(true)),
        LoadAction::CreateTable { sql: "CREATE TABLE \"ST1\" AS SELECT * FROM read_csv_auto('dir/ST1.csv')".to_string() }
    );
    assert_eq!(ensure_station_data_loaded("dir", "ST1", LoadEvent::CsvChecked(false)), LoadAction::Done);
    assert_eq!(
        ensure_station_data_loaded("dir", "ST1", LoadEvent::Created(false)),
        LoadAction::Failed("Failed to load CSV for station ST1".to_string())
    );
    assert_eq!(
        ensure_station_data_loaded("dir", "ST1", LoadEvent::TableChecked(Err("boom".to_string()))),
        LoadAction::Failed("boom".to_string())
    );
}

#[test]
fn station_lookup_tool_describes_itself() {
    let tool = StationLookupTool::new("data/ghcnd_stations.db", "/data", "data/climate_data.db");
    assert_eq!(tool.name(), "station_lookup");
    assert_eq!(tool.db_path(), "data/ghcnd_stations.db");
    assert_eq!(tool.data_dir(), "/data");
    assert_eq!(tool.climate_db_path(), "data/climate_data.db");
    assert_eq!(tool.table_info_sql("ST1"), "PRAGMA table_info('ST1')");
    let schema = tool.input_schema();
    let req = schema.get("required").and_then(|r| r.as_array()).unwrap();
    assert_eq!(req.len(), 2);
    assert_eq!(schema.get("properties").and_then(|p| p.get("lat")).and_then(|l| l.get("type")).and_then(|t| t.as_str()), Some("number"));
}

#[test]
fn station_ids_of_union_include_both_sides() {
    let tool = ClimateDataTool::new("", "");
    let ids = tool.extract_station_ids("SELECT * FROM A UNION ALL SELECT * FROM B").unwrap();
    assert_eq!(ids, vec!["A".to_string(), "B".to_string()]);
}

#[test]
fn station_ids_of_with_query_include_its_tables() {
    let tool = ClimateDataTool::new("", "");
    let ids = tool.extract_station_ids("WITH w AS (SELECT * FROM S1) SELECT * FROM w").unwrap();
    assert_eq!(ids, vec!["S1".to_string(), "w".to_string()]);
}

#[test]
fn station_ids_of_where_subqueries_are_included() {
    let tool = ClimateDataTool::new("", "");
    let ids = tool
        .extract_station_ids(
            "SELECT * FROM A WHERE x IN (SELECT x FROM B) AND NOT EXISTS (SELECT 1 FROM C) OR y = (SELECT max(y) FROM D)",
        )
        .unwrap();
    assert_eq!(ids, vec!["A".to_string(), "B".to_string(), "C".to_string(), "D".to_string()]);
}

#[test]
fn quoted_station_ids_lose_their_quotes() {
    let tool = ClimateDataTool::new("", "");
    let ids = tool.extract_station_ids("SELECT * FROM \"USW00094728\" JOIN (SELECT * FROM \"X\") t ON d").unwrap();
    assert_eq!(ids, vec!["USW00094728".to_string(), "X".to_string()]);
}

#[test]
fn qualified_table_names_keep_their_dots() {
    let tool = ClimateDataTool::new("", "");
    let ids = tool.extract_station_ids("SELECT * FROM main.A").unwrap();
    assert_eq!(ids, vec!["main.A".to_string()]);
}

#[test]
fn permission_answer_is_trimmed_of_unicode_white_space() {
    let tool = RunCommand;
    assert!(tool.permission_granted("\u{3000}\u{a0}y\u{2029}\t"));
    assert!(tool.permission_granted("\u{85}Y\u{205f}"));
    assert!(!tool.permission_granted("\u{200b}y"));
    assert!(!tool.permission_granted("y y"));
}

/// Runs a whole loading against a world of tables and files, counting the
/// tables it makes.
fn load_in_world(
    step: &dyn Fn(LoadEvent) -> LoadAction,
    tables: &mut Vec<String>,
    files: &[&str],
    station: &str,
) -> (Result<(), String>, usize) {
    let mut event = LoadEvent::Start;
    let mut made = 0;
    loop {
        event = match step(event) {
            LoadAction::CheckTable { param, .. } => LoadEvent::TableChecked(Ok(tables.contains(&param))),
            LoadAction::CheckCsv { path } => LoadEvent::CsvChecked(files.contains(&path.as_str())),
            LoadAction::CreateTable { .. } => {
                made += 1;
                tables.push(station.to_string());
                LoadEvent::Created(true)
            }
            LoadAction::Done => return (Ok(()), made),
            LoadAction::Failed(m) => return (Err(m), made),
        }
    }
}

#[test]
fn loading_a_station_twice_loads_its_file_once() {
    let mut tables = Vec::new();
    let files = ["data/ST1.csv"];
    let step = |e| ensure_station_data_loaded("data", "ST1", e);
    assert_eq!(load_in_world(&step, &mut tables, &files, "ST1"), (Ok(()), 1));
    assert_eq!(tables, vec!["ST1".to_string()]);
    assert_eq!(load_in_world(&step, &mut tables, &files, "ST1"), (Ok(()), 0));
    assert_eq!(tables, vec!["ST1".to_string()]);
    let mut none = Vec::new();
    let other = |e| ensure_station_data_loaded("data", "ST2", e);
    assert_eq!(load_in_world(&other, &mut none, &files, "ST2"), (Ok(()), 0));
    assert!(none.is_empty());
}

#[test]
fn tool_loading_takes_the_same_steps_as_the_loader() {
    let tool = ClimateDataTool::new("", "data");
    let events = || {
        vec![
            LoadEvent::Start,
            LoadEvent::TableChecked(Ok(false)),
            LoadEvent::TableChecked(Ok(true)),
            LoadEvent::TableChecked(Err("boom".to_string())),
            LoadEvent::CsvChecked(true),
            LoadEvent::CsvChecked(false),
            LoadEvent::Created(true),
            LoadEvent::Created(false),
        ]
    };
    for (a, b) in events().into_iter().zip(events()) {
        assert_eq!(tool.ensure_data_loaded("ST1", a), ensure_station_data_loaded("data", "ST1", b));
    }
    let mut tables = Vec::new();
    let step = |e| tool.ensure_data_loaded("ST1", e);
    assert_eq!(load_in_world(&step, &mut tables, &["data/ST1.csv"], "ST1"), (Ok(()), 1));
}

#[test]
fn station_ids_of_selected_and_having_subqueries_are_included() {
    let tool = ClimateDataTool::new("", "");
    let ids = tool
        .extract_station_ids(
            "SELECT (SELECT max(t) FROM B) AS m, d FROM A GROUP BY d HAVING count(*) > (SELECT count(*) FROM C)",
        )
        .unwrap();
    assert_eq!(ids, vec!["A".to_string(), "B".to_string(), "C".to_string()]);
}

#[test]
fn station_ids_of_join_conditions_nested_joins_and_order_by_are_included() {
    let tool = ClimateDataTool::new("", "");
    let ids = tool
        .extract_station_ids(
            "SELECT * FROM (A JOIN B ON A.d = B.d) JOIN C ON C.d IN (SELECT d FROM D) ORDER BY (SELECT max(d) FROM E)",
        )
        .unwrap();
    assert_eq!(
        ids,
        vec!["A".to_string(), "B".to_string(), "C".to_string(), "D".to_string(), "E".to_string()]
    );
}

#[test]
fn station_ids_of_in_lists_between_case_and_function_arguments_are_included() {
    let tool = ClimateDataTool::new("", "");
    let ids = tool
        .extract_station_ids(
            "SELECT coalesce((SELECT max(t) FROM B), 0), CASE WHEN x > (SELECT 1 FROM C) THEN (SELECT 2 FROM D) ELSE 0 END \
             FROM A WHERE y IN (1, (SELECT 2 FROM E)) AND z BETWEEN (SELECT 0 FROM F) AND 9",
        )
        .unwrap();
    assert_eq!(
        ids,
        vec![
            "A".to_string(),
            "E".to_string(),
            "F".to_string(),
            "B".to_string(),
            "C".to_string(),
            "D".to_string()
        ]
    );
}

#[test]
fn database_in_memory_or_file() {
    assert_eq!(ClimateDataTool::new("", "data").database(), None);
    assert_eq!(ClimateDataTool::new("climate.db", "data").database(), Some(&"climate.db".to_string()));
}

#[test]
fn trim_text_removes_leading_and_trailing_white_space_as_str_trim_does() {
    for s in ["  a b \n", "\u{3000}x\u{2028}", "", " \t ", "\u{200b}y\u{200b}", "\u{85}\u{a0}z\u{1680}\u{2009}"] {
        assert_eq!(trim_text(s), s.trim());
    }
    assert_eq!(trim_text(" \u{205f}a b\u{202f} "), "a b");
}
