//! Searching the web through the Brave Search API.
use vstd::prelude::*;
use crate::json::{Json, JsonV, owned};
use crate::text::{decimal, push_decimal, url_encode, url_encoded};
use crate::tools::{required_str_arg, result_view, str_arg, string_arg_schema, string_arg_schema_json};

verus! {

#[derive(Debug, PartialEq)]
pub struct WebSearchTool;

/// How many results a summary lists at most.
pub const MAX_RESULTS: usize = 5;

/// The text of `v`, or `default` where `v` is no string.
pub open spec fn str_or(v: JsonV, default: Seq<char>) -> Seq<char> {
    match v.str_value() {
        Some(s) => s,
        None => default,
    }
}

/// One numbered result: its title, its description and its address.
pub open spec fn result_entry(i: nat, r: JsonV) -> Seq<char> {
    decimal(i + 1) + ". "@ + str_or(r.field("title"@), "No Title"@) + "\n   "@ + str_or(
        r.field("description"@),
        "No Description"@,
    ) + "\n   URL: "@ + str_or(r.field("url"@), "No URL"@) + "\n\n"@
}

/// The first `n` results, numbered from 1.
pub open spec fn entries_text(rs: Seq<JsonV>, n: nat) -> Seq<char>
    decreases n,
{
    if n == 0 {
        Seq::empty()
    } else {
        entries_text(rs, (n - 1) as nat) + result_entry((n - 1) as nat, rs[n - 1])
    }
}

/// The results of a search response: the first five of `web.results`.
pub open spec fn results_text(resp: JsonV) -> Seq<char> {
    match resp.field("web"@).field("results"@).array_value() {
        Some(rs) => entries_text(rs, if rs.len() < 5 { rs.len() } else { 5 }),
        None => Seq::empty(),
    }
}

/// What the tool answers for a search response.
pub open spec fn search_summary(query: Seq<char>, resp: JsonV) -> Seq<char> {
    let text = results_text(resp);
    if text.len() == 0 {
        "No results found."@
    } else {
        "Search results for '"@ + query + "':\n\n"@ + text
    }
}

fn text_or(v: Option<&Json>, default: &str) -> (r: String)
    ensures
        r@ == str_or(
            match Json::deep_opt(v) {
                Some(j) => j,
                None => JsonV::Null,
            },
            default@,
        ),
{
    match v {
        Some(j) => match j.as_str() {
            Some(s) => owned(s),
            None => owned(default),
        },
        None => owned(default),
    }
}

impl WebSearchTool {
    pub fn name(&self) -> (r: &'static str)
        ensures
            r@ == "web_search"@,
    {
        "web_search"
    }

    pub fn description(&self) -> (r: &'static str)
        ensures
            r@
                == "Search the web for information using the Brave Search API. Returns a summary of relevant web pages."@,
    {
        "Search the web for information using the Brave Search API. Returns a summary of relevant web pages."
    }

    pub fn input_schema(&self) -> (r: Json)
        ensures
            r.deep() == string_arg_schema("query"@, "The search query to look up."@),
    {
        string_arg_schema_json("query", "The search query to look up.")
    }

    /// The search query.
    pub fn query(&self, args: &Json) -> (r: Result<String, String>)
        ensures
            result_view(r) == str_arg(args.deep(), "query"@, "Missing 'query' argument"@),
    {
        required_str_arg(args, "query", "Missing 'query' argument")
    }

    /// The environment variable that holds the API key.
    pub fn api_key_variable(&self) -> (r: &'static str)
        ensures
            r@ == "BRAVE_API_KEY"@,
    {
        "BRAVE_API_KEY"
    }

    /// The error when the API key is not set.
    pub fn missing_api_key(&self) -> (r: String)
        ensures
            r@ == "BRAVE_API_KEY environment variable not set"@,
    {
        owned("BRAVE_API_KEY environment variable not set")
    }

    /// The error when every try failed.
    pub fn gave_up(&self) -> (r: String)
        ensures
            r@ == "Brave Search failed after retries"@,
    {
        owned("Brave Search failed after retries")
    }

    /// The address of the search for `query`.
    pub fn url(&self, query: &str) -> (r: String)
        ensures
            r@ == "https://api.search.brave.com/res/v1/web/search?q="@ + url_encoded(query@),
    {
        let mut r = owned("https://api.search.brave.com/res/v1/web/search?q=");
        let q = url_encode(query);
        r.append(q.as_str());
        r
    }

    /// What the tool answers for a search response (see `search_summary`).
    pub fn summary(&self, query: &str, response: &Json) -> (r: String)
        ensures
            r@ == search_summary(query@, response.deep()),
    {
        let results: Option<&Vec<Json>> = match response.get("web") {
            Some(w) => match w.get("results") {
                Some(rs) => rs.as_array(),
                None => None,
            },
            None => None,
        };
        let mut text = String::new();
        match results {
            Some(rs) => {
                let n = if rs.len() < MAX_RESULTS {
                    rs.len()
                } else {
                    MAX_RESULTS
                };
                let ghost rv = Json::deep_seq(rs@);
                proof {
                    crate::json::lemma_deep_seq(rs@);
                }
                let mut i: usize = 0;
                while i < n
                    invariant
                        i <= n <= rs@.len(),
                        n <= 5,
                        rv == Json::deep_seq(rs@),
                        rv.len() == rs@.len(),
                        forall|k: int| 0 <= k < rs@.len() ==> #[trigger] rv[k] == rs@[k].deep(),
                        text@ == entries_text(rv, i as nat),
                    decreases n - i,
                {
                    let r = &rs[i];
                    let title = text_or(r.get("title"), "No Title");
                    let description = text_or(r.get("description"), "No Description");
                    let url = text_or(r.get("url"), "No URL");
                    push_decimal(&mut text, (i + 1) as u64);
                    text.append(". ");
                    text.append(title.as_str());
                    text.append("\n   ");
                    text.append(description.as_str());
                    text.append("\n   URL: ");
                    text.append(url.as_str());
                    text.append("\n\n");
                    proof {
                        assert(rv[i as int] == r.deep());
                    }
                    i = i + 1;
                }
            },
            None => {},
        }
        if text.as_str().is_empty() {
            owned("No results found.")
        } else {
            let mut r = owned("Search results for '");
            r.append(query);
            r.append("':\n\n");
            r.append(text.as_str());
            r
        }
    }
}

} // verus!
