//! Loading the data of a weather station into the database: a station's
//! table is made from its CSV file, where the table is not there yet and
//! the file is.
use vstd::prelude::*;
use crate::json::owned;

verus! {

/// What came of the last thing the loader asked for.
#[derive(Debug, PartialEq)]
pub enum LoadEvent {
    /// Nothing yet.
    Start,
    /// Whether the station's table exists, or the error of asking.
    TableChecked(Result<bool, String>),
    /// Whether the station's CSV file exists.
    CsvChecked(bool),
    /// Whether making the table succeeded.
    Created(bool),
}

/// What the loader asks for next.
#[derive(Debug, PartialEq)]
pub enum LoadAction {
    /// Run `sql`, with `param` as its one parameter, and say whether it returned true.
    CheckTable { sql: String, param: String },
    /// Say whether the file at `path` exists.
    CheckCsv { path: String },
    /// Run `sql`.
    CreateTable { sql: String },
    /// The data is there, or there is none to load.
    Done,
    /// Loading failed with this error.
    Failed(String),
}

pub enum LoadEventV {
    Start,
    TableChecked(Result<bool, Seq<char>>),
    CsvChecked(bool),
    Created(bool),
}

pub enum LoadActionV {
    CheckTable { sql: Seq<char>, param: Seq<char> },
    CheckCsv { path: Seq<char> },
    CreateTable { sql: Seq<char> },
    Done,
    Failed(Seq<char>),
}

impl View for LoadEvent {
    type V = LoadEventV;

    open spec fn view(&self) -> LoadEventV {
        match self {
            LoadEvent::Start => LoadEventV::Start,
            LoadEvent::TableChecked(r) => LoadEventV::TableChecked(
                match r {
                    Ok(b) => Ok(*b),
                    Err(e) => Err(e@),
                },
            ),
            LoadEvent::CsvChecked(b) => LoadEventV::CsvChecked(*b),
            LoadEvent::Created(b) => LoadEventV::Created(*b),
        }
    }
}

impl View for LoadAction {
    type V = LoadActionV;

    open spec fn view(&self) -> LoadActionV {
        match self {
            LoadAction::CheckTable { sql, param } => LoadActionV::CheckTable { sql: sql@, param: param@ },
            LoadAction::CheckCsv { path } => LoadActionV::CheckCsv { path: path@ },
            LoadAction::CreateTable { sql } => LoadActionV::CreateTable { sql: sql@ },
            LoadAction::Done => LoadActionV::Done,
            LoadAction::Failed(e) => LoadActionV::Failed(e@),
        }
    }
}

/// The question whether a table exists; its parameter is the table's name.
pub open spec fn table_exists_sql() -> Seq<char> {
    "SELECT count(*) > 0 FROM information_schema.tables WHERE table_name = ?"@
}

/// The CSV file of a station.
pub open spec fn csv_path(data_dir: Seq<char>, station_id: Seq<char>) -> Seq<char> {
    data_dir + "/"@ + station_id + ".csv"@
}

/// The statement that makes a station's table from its CSV file.
pub open spec fn create_table_sql(data_dir: Seq<char>, station_id: Seq<char>) -> Seq<char> {
    "CREATE TABLE \""@ + station_id + "\" AS SELECT * FROM read_csv_auto('"@ + csv_path(
        data_dir,
        station_id,
    ) + "')"@
}

/// The next thing to do: check for the table; where it is missing, check
/// for the CSV file; where that exists, make the table from it. An error
/// in the check is passed on; a failure to make the table is reported for
/// the station.
pub open spec fn load_next(data_dir: Seq<char>, station_id: Seq<char>, e: LoadEventV) -> LoadActionV {
    match e {
        LoadEventV::Start => LoadActionV::CheckTable { sql: table_exists_sql(), param: station_id },
        LoadEventV::TableChecked(Err(err)) => LoadActionV::Failed(err),
        LoadEventV::TableChecked(Ok(true)) => LoadActionV::Done,
        LoadEventV::TableChecked(Ok(false)) => LoadActionV::CheckCsv {
            path: csv_path(data_dir, station_id),
        },
        LoadEventV::CsvChecked(false) => LoadActionV::Done,
        LoadEventV::CsvChecked(true) => LoadActionV::CreateTable {
            sql: create_table_sql(data_dir, station_id),
        },
        LoadEventV::Created(true) => LoadActionV::Done,
        LoadEventV::Created(false) => LoadActionV::Failed(
            "Failed to load CSV for station "@ + station_id,
        ),
    }
}

fn csv_path_exec(data_dir: &str, station_id: &str) -> (r: String)
    ensures
        r@ == csv_path(data_dir@, station_id@),
{
    let mut r = owned(data_dir);
    r.append("/");
    r.append(station_id);
    r.append(".csv");
    r
}

/// The next step of loading a station's data (see `load_next`).
pub fn ensure_station_data_loaded(data_dir: &str, station_id: &str, event: LoadEvent) -> (r: LoadAction)
    ensures
        r@ == load_next(data_dir@, station_id@, event@),
{
    match event {
        LoadEvent::Start => LoadAction::CheckTable {
            sql: owned("SELECT count(*) > 0 FROM information_schema.tables WHERE table_name = ?"),
            param: owned(station_id),
        },
        LoadEvent::TableChecked(Err(err)) => LoadAction::Failed(err),
        LoadEvent::TableChecked(Ok(exists)) => if exists {
            LoadAction::Done
        } else {
            LoadAction::CheckCsv { path: csv_path_exec(data_dir, station_id) }
        },
        LoadEvent::CsvChecked(exists) => if exists {
            let mut sql = owned("CREATE TABLE \"");
            sql.append(station_id);
            sql.append("\" AS SELECT * FROM read_csv_auto('");
            let p = csv_path_exec(data_dir, station_id);
            sql.append(p.as_str());
            sql.append("')");
            LoadAction::CreateTable { sql }
        } else {
            LoadAction::Done
        },
        LoadEvent::Created(ok) => if ok {
            LoadAction::Done
        } else {
            let mut m = owned("Failed to load CSV for station ");
            m.append(station_id);
            LoadAction::Failed(m)
        },
    }
}

/// Loading makes a table only right after the check found the CSV file,
/// checks for the file only right after the check found no table, and is
/// over once the table was made or failed to be made.
pub proof fn lemma_load_creates_only_when_missing(data_dir: Seq<char>, station_id: Seq<char>, e: LoadEventV)
    ensures
        load_next(data_dir, station_id, e) is CreateTable ==> e == LoadEventV::CsvChecked(true),
        load_next(data_dir, station_id, e) is CheckCsv ==> e == LoadEventV::TableChecked(Ok(false)),
        e is Created ==> load_next(data_dir, station_id, e) is Done || load_next(data_dir, station_id, e) is Failed,
{
}

/// A model of what loading meets: the tables of the database, the files
/// there are, and whether making a table from a CSV file succeeds.
pub struct LoadWorld {
    pub tables: Set<Seq<char>>,
    pub files: Set<Seq<char>>,
    pub create_succeeds: bool,
}

/// What the world answers to a step of loading `station_id`, and the world
/// after it: a table check finds whether the table exists, a file check
/// whether the file does, and making the station's table adds it where that
/// succeeds. Nothing else changes the world.
pub open spec fn answer(w: LoadWorld, station_id: Seq<char>, a: LoadActionV) -> (LoadEventV, LoadWorld) {
    match a {
        LoadActionV::CheckTable { sql: _, param } => (LoadEventV::TableChecked(Ok(w.tables.contains(param))), w),
        LoadActionV::CheckCsv { path } => (LoadEventV::CsvChecked(w.files.contains(path)), w),
        LoadActionV::CreateTable { sql: _ } => (
            LoadEventV::Created(w.create_succeeds),
            if w.create_succeeds {
                LoadWorld { tables: w.tables.insert(station_id), files: w.files, create_succeeds: w.create_succeeds }
            } else {
                w
            },
        ),
        _ => (LoadEventV::Start, w),
    }
}

/// Loading driven against a world from event `e`, with at most `steps`
/// answers: how it ends (`None` where it has not ended), the world after it,
/// and how many tables it made.
pub open spec fn drive_load(
    data_dir: Seq<char>,
    station_id: Seq<char>,
    w: LoadWorld,
    e: LoadEventV,
    steps: nat,
) -> (Option<Result<(), Seq<char>>>, LoadWorld, nat)
    decreases steps,
{
    match load_next(data_dir, station_id, e) {
        LoadActionV::Done => (Some(Ok(())), w, 0),
        LoadActionV::Failed(m) => (Some(Err(m)), w, 0),
        a => if steps == 0 {
            (None, w, 0)
        } else {
            let (e2, w2) = answer(w, station_id, a);
            let r = drive_load(data_dir, station_id, w2, e2, (steps - 1) as nat);
            (r.0, r.1, r.2 + if a is CreateTable { 1nat } else { 0nat })
        },
    }
}

/// A whole loading of a station's data in a world, from the start.
pub open spec fn load_in(data_dir: Seq<char>, station_id: Seq<char>, w: LoadWorld) -> (
    Option<Result<(), Seq<char>>>,
    LoadWorld,
    nat,
) {
    drive_load(data_dir, station_id, w, LoadEventV::Start, 3)
}

/// Loading always ends, and fails only where making the table fails.
pub proof fn lemma_load_ends(data_dir: Seq<char>, station_id: Seq<char>, w: LoadWorld)
    ensures
        load_in(data_dir, station_id, w).0 is Some,
        load_in(data_dir, station_id, w).0 == Some(Ok::<(), Seq<char>>(())) || !w.create_succeeds,
{
    reveal_with_fuel(drive_load, 5);
}

/// Loading a station twice loads its CSV file at most once: where a loading
/// succeeds, it made at most one table, and a second one in the world it
/// left succeeds too, makes no table and leaves that world as it was.
pub proof fn lemma_second_load_changes_nothing(data_dir: Seq<char>, station_id: Seq<char>, w: LoadWorld)
    requires
        load_in(data_dir, station_id, w).0 == Some(Ok::<(), Seq<char>>(())),
    ensures
        load_in(data_dir, station_id, w).2 <= 1,
        load_in(data_dir, station_id, load_in(data_dir, station_id, w).1).0 == Some(Ok::<(), Seq<char>>(())),
        load_in(data_dir, station_id, load_in(data_dir, station_id, w).1).1 == load_in(data_dir, station_id, w).1,
        load_in(data_dir, station_id, load_in(data_dir, station_id, w).1).2 == 0,
{
    reveal_with_fuel(drive_load, 5);
}

/// Whether loading `station_id` has nothing left to do in a world: its
/// table is there, or its CSV file is not.
pub open spec fn settled(data_dir: Seq<char>, station_id: Seq<char>, w: LoadWorld) -> bool {
    w.tables.contains(station_id) || !w.files.contains(csv_path(data_dir, station_id))
}

/// Loading each of `ids` in turn, stopping at the first failure: how it
/// ended, the world after it, and how many tables it made.
pub open spec fn load_stations(data_dir: Seq<char>, ids: Seq<Seq<char>>, w: LoadWorld) -> (
    Result<(), Seq<char>>,
    LoadWorld,
    nat,
)
    decreases ids.len(),
{
    if ids.len() == 0 {
        (Ok(()), w, 0)
    } else {
        let r = load_stations(data_dir, ids.drop_last(), w);
        if r.0 is Err {
            r
        } else {
            let l = load_in(data_dir, ids.last(), r.1);
            (
                match l.0 {
                    Some(x) => x,
                    None => Err(Seq::empty()),
                },
                l.1,
                r.2 + l.2,
            )
        }
    }
}

/// In a settled world loading succeeds, makes no table and changes nothing.
pub proof fn lemma_settled_load(data_dir: Seq<char>, station_id: Seq<char>, w: LoadWorld)
    requires
        settled(data_dir, station_id, w),
    ensures
        load_in(data_dir, station_id, w) == (Some(Ok::<(), Seq<char>>(())), w, 0nat),
{
    reveal_with_fuel(drive_load, 5);
}

/// A successful loading leaves its station settled; it only adds tables.
pub proof fn lemma_load_settles(data_dir: Seq<char>, station_id: Seq<char>, w: LoadWorld)
    requires
        load_in(data_dir, station_id, w).0 matches Some(x) && x is Ok,
    ensures
        settled(data_dir, station_id, load_in(data_dir, station_id, w).1),
        w.tables.subset_of(load_in(data_dir, station_id, w).1.tables),
        load_in(data_dir, station_id, w).1.files == w.files,
        load_in(data_dir, station_id, w).1.create_succeeds == w.create_succeeds,
{
    reveal_with_fuel(drive_load, 5);
}

/// Loading stations that succeeds leaves each of them settled, and only adds tables.
pub proof fn lemma_load_stations_settles(data_dir: Seq<char>, ids: Seq<Seq<char>>, w: LoadWorld)
    requires
        load_stations(data_dir, ids, w).0 is Ok,
    ensures
        forall|y: Seq<char>|
            ids.contains(y) ==> #[trigger] settled(data_dir, y, load_stations(data_dir, ids, w).1),
        w.tables.subset_of(load_stations(data_dir, ids, w).1.tables),
        load_stations(data_dir, ids, w).1.files == w.files,
        load_stations(data_dir, ids, w).1.create_succeeds == w.create_succeeds,
    decreases ids.len(),
{
    if ids.len() > 0 {
        let p = ids.drop_last();
        let r = load_stations(data_dir, p, w);
        assert(r.0 is Ok);
        lemma_load_ends(data_dir, ids.last(), r.1);
        let l = load_in(data_dir, ids.last(), r.1);
        assert(load_stations(data_dir, ids, w) == (
            match l.0 {
                Some(x) => x,
                None => Err(Seq::empty()),
            },
            l.1,
            r.2 + l.2,
        ));
        assert(l.0->0 is Ok);
        lemma_load_stations_settles(data_dir, p, w);
        lemma_load_settles(data_dir, ids.last(), r.1);
        let w1 = load_stations(data_dir, ids, w).1;
        assert(w1 == l.1);
        assert forall|y: Seq<char>| ids.contains(y) implies #[trigger] settled(data_dir, y, w1) by {
            let k = choose|k: int| 0 <= k < ids.len() && ids[k] == y;
            if k < ids.len() - 1 {
                assert(p[k] == y);
                assert(p.contains(y));
                assert(settled(data_dir, y, r.1));
                if r.1.tables.contains(y) {
                    assert(w1.tables.contains(y));
                }
            }
        }
    }
}

/// Loading stations that are all settled succeeds, makes no table and
/// changes nothing.
pub proof fn lemma_settled_load_stations(data_dir: Seq<char>, ids: Seq<Seq<char>>, w: LoadWorld)
    requires
        forall|y: Seq<char>| ids.contains(y) ==> settled(data_dir, y, w),
    ensures
        load_stations(data_dir, ids, w) == (Ok::<(), Seq<char>>(()), w, 0nat),
    decreases ids.len(),
{
    if ids.len() > 0 {
        let p = ids.drop_last();
        assert forall|y: Seq<char>| p.contains(y) implies settled(data_dir, y, w) by {
            let k = choose|k: int| 0 <= k < p.len() && p[k] == y;
            assert(ids[k] == p[k]);
            assert(ids.contains(y));
        }
        lemma_settled_load_stations(data_dir, p, w);
        assert(ids[ids.len() - 1] == ids.last());
        assert(ids.contains(ids.last()));
        lemma_settled_load(data_dir, ids.last(), w);
    }
}

} // verus!
