//! What the viewer is told about a store: its numbers, its files and
//! symbols, and the graph of files and the symbols they define, all as JSON.

use vstd::prelude::*;
use vstd::string::*;
use crate::database::{
    file_infos_view, files_matching, is_count, is_file_listing, is_symbol_listing,
    symbol_infos_view, symbols_matching, StoreError, SymgraphDb,
};
use crate::json::{json_value, Json, JsonValue};
use crate::records::{entry, FileInfo, FileInfoView, SymbolInfo, SymbolInfoView};
use crate::text::{
    after_last, char_is_uppercase, concat2, contains_seq, is_uppercase, lowercase, str_chars,
    str_contains, str_eq, str_to_lowercase, text_after_last,
};

verus! {

/// How a symbol is drawn, from its name: a name with `::` in it as a class
/// where it speaks of a class or a struct, whatever the case, and else as a
/// function; another name as a class where it begins with a capital letter,
/// and else as a plain symbol.
pub open spec fn symbol_type_of(symbol: Seq<char>) -> Seq<char> {
    if contains_seq(symbol, "::"@) {
        if contains_seq(lowercase(symbol), "class"@) || contains_seq(lowercase(symbol), "struct"@) {
            "class"@
        } else {
            "function"@
        }
    } else if symbol.len() > 0 && is_uppercase(symbol[0]) {
        "class"@
    } else {
        "symbol"@
    }
}

/// How a symbol is drawn, from its name.
pub fn determine_symbol_type(symbol: &str) -> (r: &'static str)
    ensures
        r@ == symbol_type_of(symbol@),
{
    if str_contains(symbol, "::") {
        let lower = str_to_lowercase(symbol);
        if str_contains(lower.as_str(), "class") || str_contains(lower.as_str(), "struct") {
            "class"
        } else {
            "function"
        }
    } else {
        let chars = str_chars(symbol);
        if chars.len() > 0 && char_is_uppercase(chars[0]) {
            "class"
        } else {
            "symbol"
        }
    }
}

/// An object with the one entry `data`.
pub open spec fn data_node(data: Seq<(Seq<char>, JsonValue)>) -> JsonValue {
    JsonValue::Object(seq![("data"@, JsonValue::Object(data))])
}

/// The node of a file, shown by the last part of its path.
pub open spec fn file_node(file: FileInfoView) -> JsonValue {
    let label = after_last(file.path, "/"@);
    data_node(
        seq![
            ("category"@, JsonValue::Text(file.category)),
            ("file"@, JsonValue::Text(file.path)),
            ("id"@, JsonValue::Text("file:"@ + file.id)),
            ("label"@, JsonValue::Text(label)),
            ("language"@, JsonValue::Text(file.language)),
            ("purpose"@, JsonValue::Text(file.purpose)),
            ("type"@, JsonValue::Text("file"@)),
        ],
    )
}

/// The node of a symbol.
pub open spec fn symbol_node(symbol: SymbolInfoView) -> JsonValue {
    data_node(
        seq![
            ("file"@, JsonValue::Text(symbol.file_id)),
            ("id"@, JsonValue::Text("symbol:"@ + symbol.id)),
            ("kind"@, JsonValue::Text(symbol.kind)),
            ("label"@, JsonValue::Text(symbol.name)),
            ("symbol"@, JsonValue::Text(symbol.name)),
            ("type"@, JsonValue::Text(symbol_type_of(symbol.name))),
        ],
    )
}

/// The edge from a file to a symbol that it defines.
pub open spec fn defines_edge(symbol: SymbolInfoView) -> JsonValue {
    data_node(
        seq![
            ("id"@, JsonValue::Text("contains:"@ + symbol.file_id + ":"@ + symbol.id)),
            ("source"@, JsonValue::Text("file:"@ + symbol.file_id)),
            ("target"@, JsonValue::Text("symbol:"@ + symbol.id)),
            ("type"@, JsonValue::Text("defines"@)),
        ],
    )
}

/// A node or an edge with its data.
fn node(data: Vec<(String, Json)>) -> (r: Json)
    ensures
        r@ == data_node(json_value(Json::Object(data))->Object_0),
{
    let mut fields: Vec<(String, Json)> = Vec::new();
    let inner = Json::Object(data);
    fields.push(entry("data", inner));
    let r = Json::Object(fields);
    proof {
        reveal_with_fuel(json_value, 2);
        assert(r@->Object_0 =~= seq![("data"@, inner@)]);
    }
    r
}

/// A text entry of a JSON object.
fn text_entry(key: &str, value: String) -> (r: (String, Json))
    ensures
        r.0@ == key@,
        r.1@ == JsonValue::Text(value@),
{
    entry(key, Json::Text(value))
}

/// The node of a file.
pub fn file_node_json(file: &FileInfo) -> (r: Json)
    ensures
        r@ == file_node(file@),
{
    proof {
        reveal_strlit("/");
    }
    let label = text_after_last(file.path.as_str(), "/");
    let mut data: Vec<(String, Json)> = Vec::new();
    data.push(text_entry("category", file.category.clone()));
    data.push(text_entry("file", file.path.clone()));
    data.push(text_entry("id", concat2("file:", file.id.as_str())));
    data.push(text_entry("label", String::from_str(label)));
    data.push(text_entry("language", file.language.clone()));
    data.push(text_entry("purpose", file.purpose.clone()));
    data.push(text_entry("type", String::from_str("file")));
    proof {
        reveal_with_fuel(json_value, 2);
        assert(json_value(Json::Object(data))->Object_0 =~= file_node(file@)->Object_0[0].1->Object_0);
    }
    node(data)
}

/// The node of a symbol.
pub fn symbol_node_json(symbol: &SymbolInfo) -> (r: Json)
    ensures
        r@ == symbol_node(symbol@),
{
    let mut data: Vec<(String, Json)> = Vec::new();
    data.push(text_entry("file", symbol.file_id.clone()));
    data.push(text_entry("id", concat2("symbol:", symbol.id.as_str())));
    data.push(text_entry("kind", symbol.kind.clone()));
    data.push(text_entry("label", symbol.name.clone()));
    data.push(text_entry("symbol", symbol.name.clone()));
    data.push(text_entry("type", String::from_str(determine_symbol_type(symbol.name.as_str()))));
    proof {
        reveal_with_fuel(json_value, 2);
        assert(json_value(Json::Object(data))->Object_0 =~= symbol_node(symbol@)->Object_0[0].1->Object_0);
    }
    node(data)
}

/// The edge from a file to a symbol that it defines.
pub fn defines_edge_json(symbol: &SymbolInfo) -> (r: Json)
    ensures
        r@ == defines_edge(symbol@),
{
    let mut id = concat2("contains:", symbol.file_id.as_str());
    id.append(":");
    id.append(symbol.id.as_str());
    let mut data: Vec<(String, Json)> = Vec::new();
    data.push(text_entry("id", id));
    data.push(text_entry("source", concat2("file:", symbol.file_id.as_str())));
    data.push(text_entry("target", concat2("symbol:", symbol.id.as_str())));
    data.push(text_entry("type", String::from_str("defines")));
    proof {
        reveal_with_fuel(json_value, 2);
        assert(json_value(Json::Object(data))->Object_0 =~= defines_edge(symbol@)->Object_0[0].1->Object_0);
    }
    node(data)
}

/// The values of a list of JSON values.
pub open spec fn values(items: Seq<Json>) -> Seq<JsonValue> {
    Seq::new(items.len(), |i: int| items[i]@)
}

/// The nodes of a graph: those of the files, followed by those of the
/// symbols.
pub open spec fn nodes_of(files: Seq<FileInfoView>, symbols: Seq<SymbolInfoView>) -> Seq<JsonValue> {
    Seq::new(files.len(), |i: int| file_node(files[i])) + Seq::new(
        symbols.len(),
        |i: int| symbol_node(symbols[i]),
    )
}

/// The edges of a graph: to each symbol from its file.
pub open spec fn edges_of(symbols: Seq<SymbolInfoView>) -> Seq<JsonValue> {
    Seq::new(symbols.len(), |i: int| defines_edge(symbols[i]))
}

/// The graph of the files and symbols given: an object with the edges and
/// the nodes.
pub open spec fn graph_of(files: Seq<FileInfoView>, symbols: Seq<SymbolInfoView>) -> JsonValue {
    JsonValue::Object(
        seq![
            ("edges"@, JsonValue::List(edges_of(symbols))),
            ("nodes"@, JsonValue::List(nodes_of(files, symbols))),
        ],
    )
}

/// The graph of the files and symbols given: a node for each file and each
/// symbol, and an edge to each symbol from its file.
pub fn build_graph_data(files: &Vec<FileInfo>, symbols: &Vec<SymbolInfo>) -> (r: Json)
    ensures
        r@ == graph_of(file_infos_view(files@), symbol_infos_view(symbols@)),
{
    let ghost shown_files = file_infos_view(files@);
    let ghost shown_symbols = symbol_infos_view(symbols@);
    let mut nodes: Vec<Json> = Vec::new();
    let mut edges: Vec<Json> = Vec::new();
    let mut i: usize = 0;
    while i < files.len()
        invariant
            i <= files.len(),
            shown_files == file_infos_view(files@),
            nodes@.len() == i,
            forall|k: int| 0 <= k < i ==> (#[trigger] nodes@[k])@ == file_node(shown_files[k]),
        decreases files.len() - i,
    {
        nodes.push(file_node_json(&files[i]));
        i += 1;
    }
    let mut n: usize = 0;
    while n < symbols.len()
        invariant
            n <= symbols.len(),
            shown_files == file_infos_view(files@),
            shown_symbols == symbol_infos_view(symbols@),
            nodes@.len() == files.len() + n,
            edges@.len() == n,
            forall|k: int|
                0 <= k < files.len() ==> (#[trigger] nodes@[k])@ == file_node(shown_files[k]),
            forall|k: int|
                0 <= k < n ==> (#[trigger] nodes@[files.len() + k])@ == symbol_node(
                    shown_symbols[k],
                ),
            forall|k: int| 0 <= k < n ==> (#[trigger] edges@[k])@ == defines_edge(shown_symbols[k]),
        decreases symbols.len() - n,
    {
        nodes.push(symbol_node_json(&symbols[n]));
        edges.push(defines_edge_json(&symbols[n]));
        n += 1;
    }
    let ghost all_nodes = values(nodes@);
    let ghost all_edges = values(edges@);
    proof {
        assert(all_edges =~= edges_of(shown_symbols));
        assert(all_nodes =~= nodes_of(shown_files, shown_symbols)) by {
            assert forall|k: int| 0 <= k < all_nodes.len() implies all_nodes[k] == nodes_of(
                shown_files,
                shown_symbols,
            )[k] by {
                if k >= files.len() {
                    assert(nodes@[files.len() + (k - files.len())]@ == symbol_node(
                        shown_symbols[k - files.len()],
                    ));
                }
            }
        }
    }
    let mut fields: Vec<(String, Json)> = Vec::new();
    fields.push(entry("edges", Json::List(edges)));
    fields.push(entry("nodes", Json::List(nodes)));
    let r = Json::Object(fields);
    proof {
        reveal_with_fuel(json_value, 3);
        assert(r@->Object_0[0].1->List_0 =~= all_edges);
        assert(r@->Object_0[1].1->List_0 =~= all_nodes);
        assert(r@->Object_0 =~= graph_of(shown_files, shown_symbols)->Object_0);
    }
    r
}

/// The JSON list of the files of a listing.
pub open spec fn files_json(infos: Seq<FileInfoView>) -> JsonValue {
    JsonValue::List(Seq::new(infos.len(), |i: int| infos[i].to_json()))
}

/// The JSON list of the symbols of a listing.
pub open spec fn symbols_json(infos: Seq<SymbolInfoView>) -> JsonValue {
    JsonValue::List(Seq::new(infos.len(), |i: int| infos[i].to_json()))
}

/// The numbers of a store as JSON.
pub open spec fn stats_json(files: nat, symbols: nat, edges: nat) -> JsonValue {
    JsonValue::Object(
        seq![
            ("edges"@, JsonValue::Unsigned(edges as int)),
            ("files"@, JsonValue::Unsigned(files as int)),
            ("symbols"@, JsonValue::Unsigned(symbols as int)),
        ],
    )
}

/// The files of a listing that a request asks for: all, or those that match
/// what it searches for.
pub open spec fn files_asked(all: Seq<FileInfoView>, search: Option<Seq<char>>) -> Seq<
    FileInfoView,
> {
    match search {
        Some(query) => files_matching(all, query),
        None => all,
    }
}

/// The symbols of a listing that a request asks for.
pub open spec fn symbols_asked(all: Seq<SymbolInfoView>, search: Option<Seq<char>>) -> Seq<
    SymbolInfoView,
> {
    match search {
        Some(query) => symbols_matching(all, query),
        None => all,
    }
}

/// `answer` is what a store that holds `entries` answers to a request: its
/// numbers to `stats`, its files to `files` and its symbols to `symbols`,
/// all or those searched for, and the graph of all its files and symbols to
/// `graph`.
pub open spec fn is_answer(
    entries: Map<Seq<u8>, Seq<u8>>,
    endpoint: Seq<char>,
    search: Option<Seq<char>>,
    answer: JsonValue,
) -> bool {
    if endpoint == "stats"@ {
        exists|files: nat, symbols: nat, edges: nat|
            {
                &&& is_count(entries, "file:"@, files)
                &&& is_count(entries, "symbol:"@, symbols)
                &&& is_count(entries, "edge:"@, edges)
                &&& answer == #[trigger] stats_json(files, symbols, edges)
            }
    } else if endpoint == "files"@ {
        exists|all: Seq<FileInfoView>| #[trigger]
            is_file_listing(entries, all) && answer == files_json(files_asked(all, search))
    } else if endpoint == "symbols"@ {
        exists|all: Seq<SymbolInfoView>| #[trigger]
            is_symbol_listing(entries, all) && answer == symbols_json(symbols_asked(all, search))
    } else if endpoint == "graph"@ {
        exists|files: Seq<FileInfoView>, symbols: Seq<SymbolInfoView>|
            {
                &&& is_file_listing(entries, files)
                &&& is_symbol_listing(entries, symbols)
                &&& answer == #[trigger] graph_of(files, symbols)
            }
    } else {
        false
    }
}

/// Whether the viewer knows a request.
pub open spec fn is_endpoint(endpoint: Seq<char>) -> bool {
    endpoint == "stats"@ || endpoint == "files"@ || endpoint == "symbols"@ || endpoint == "graph"@
}

/// Why a request of the viewer could not be answered.
#[derive(Debug)]
pub enum ApiError {
    /// The viewer knows no such request; the message names it.
    UnknownEndpoint(String),
    /// The store failed.
    Store(StoreError),
}

/// The JSON list of the files of a listing.
pub fn files_to_json(infos: &Vec<FileInfo>) -> (r: Json)
    ensures
        r@ == files_json(file_infos_view(infos@)),
{
    let mut out: Vec<Json> = Vec::new();
    let mut i: usize = 0;
    while i < infos.len()
        invariant
            i <= infos.len(),
            out@.len() == i,
            forall|k: int| 0 <= k < i ==> (#[trigger] out@[k])@ == infos@[k]@.to_json(),
        decreases infos.len() - i,
    {
        out.push(infos[i].to_json());
        i += 1;
    }
    let r = Json::List(out);
    proof {
        reveal_with_fuel(json_value, 2);
        assert(r@->List_0 =~= files_json(file_infos_view(infos@))->List_0);
    }
    r
}

/// The JSON list of the symbols of a listing.
pub fn symbols_to_json(infos: &Vec<SymbolInfo>) -> (r: Json)
    ensures
        r@ == symbols_json(symbol_infos_view(infos@)),
{
    let mut out: Vec<Json> = Vec::new();
    let mut i: usize = 0;
    while i < infos.len()
        invariant
            i <= infos.len(),
            out@.len() == i,
            forall|k: int| 0 <= k < i ==> (#[trigger] out@[k])@ == infos@[k]@.to_json(),
        decreases infos.len() - i,
    {
        out.push(infos[i].to_json());
        i += 1;
    }
    let r = Json::List(out);
    proof {
        reveal_with_fuel(json_value, 2);
        assert(r@->List_0 =~= symbols_json(symbol_infos_view(infos@))->List_0);
    }
    r
}

/// The answer of a store to a request of the viewer.
pub fn handle_api_request(endpoint: &str, db: &SymgraphDb, search: Option<&str>) -> (r: Result<
    Json,
    ApiError,
>)
    ensures
        match r {
            Ok(answer) => is_answer(
                db.entries(),
                endpoint@,
                crate::database::text_of(search),
                answer@,
            ),
            Err(ApiError::UnknownEndpoint(message)) => !is_endpoint(endpoint@) && message@
                == "Unknown API endpoint: "@ + endpoint@,
            Err(ApiError::Store(e)) => is_endpoint(endpoint@) && e is Storage,
        },
{
    if str_eq(endpoint, "stats") {
        let stats = match db.get_stats() {
            Ok(stats) => stats,
            Err(e) => {
                return Err(ApiError::Store(e));
            },
        };
        let mut fields: Vec<(String, Json)> = Vec::new();
        fields.push(entry("edges", Json::Unsigned(stats.edges)));
        fields.push(entry("files", Json::Unsigned(stats.files)));
        fields.push(entry("symbols", Json::Unsigned(stats.symbols)));
        let r = Json::Object(fields);
        proof {
            reveal_with_fuel(json_value, 2);
            assert(r@->Object_0 =~= stats_json(
                stats.files as nat,
                stats.symbols as nat,
                stats.edges as nat,
            )->Object_0);
        }
        Ok(r)
    } else if str_eq(endpoint, "files") {
        let files = match search {
            Some(query) => db.search_files(query),
            None => db.list_files(),
        };
        match files {
            Ok(files) => {
                proof {
                    reveal_strlit("stats");
                    reveal_strlit("files");
                }
                Ok(files_to_json(&files))
            },
            Err(e) => Err(ApiError::Store(e)),
        }
    } else if str_eq(endpoint, "symbols") {
        let symbols = match search {
            Some(query) => db.search_symbols(query),
            None => db.list_symbols(),
        };
        match symbols {
            Ok(symbols) => {
                proof {
                    reveal_strlit("stats");
                    reveal_strlit("files");
                    reveal_strlit("symbols");
                }
                Ok(symbols_to_json(&symbols))
            },
            Err(e) => Err(ApiError::Store(e)),
        }
    } else if str_eq(endpoint, "graph") {
        let files = match db.list_files() {
            Ok(files) => files,
            Err(e) => {
                return Err(ApiError::Store(e));
            },
        };
        let symbols = match db.list_symbols() {
            Ok(symbols) => symbols,
            Err(e) => {
                return Err(ApiError::Store(e));
            },
        };
        Ok(build_graph_data(&files, &symbols))
    } else {
        Err(ApiError::UnknownEndpoint(concat2("Unknown API endpoint: ", endpoint)))
    }
}

} // verus!
