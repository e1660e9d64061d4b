//! LSIF graphs: reading the items of a graph from its text, checking that
//! its vertices and ranges are well formed, and bringing its definitions and
//! references into the store.
//!
//! A graph is a JSON list of items, or one item, or one item to a line. An
//! item with an `id` and a `type` is a vertex or a range where its type says
//! so, and of the items of one type with one id the last one counts. A
//! vertex labelled `definition` or `reference` that carries a `usr` is a
//! fact of the graph; the definitions are brought in before the references,
//! each in the order of the items, so that a reference finds the symbol
//! that the same graph defines.

use vstd::prelude::*;
use vstd::string::*;
use vstd::utf8::encode_utf8;
use crate::database::{
    ensure_file_step, find_symbol_step, keeps_keys, lemma_first_failed, lemma_no_step,
    lemma_one_step, lemma_step_failed, lemma_step_taken, lemma_steps_failed, lemma_steps_joined,
    lemma_steps_keep_keys, new_occurrence, new_symbol, occurrence_step, plain_file_step,
    record_occurrence_step, record_symbol_step, steps_begun, steps_taken, symbol_step, Step,
    StoreError, SymgraphDb,
};
use crate::rustlang::{extract_name_from_usr, infer_kind_from_usr, kind_of_usr, name_of_usr};
use crate::json::{decode, json_parse, json_value, Json, JsonValue};
use crate::text::{lines_of, starts_with_seq, str_eq, str_lines, str_starts_with, str_trim, trimmed};

verus! {

/// The values of a list of JSON values.
pub open spec fn jsons_view(items: Seq<Json>) -> Seq<JsonValue> {
    Seq::new(items.len(), |i: int| items[i]@)
}

/// The item that a line of a graph holds: none for an empty line, a line
/// that begins with `//`, and a line that is not JSON.
pub open spec fn line_item(line: Seq<char>) -> Option<JsonValue> {
    let text = trimmed(line);
    if text.len() == 0 || starts_with_seq(text, "//"@) {
        None
    } else {
        json_parse(encode_utf8(text))
    }
}

/// The items that the lines of a graph hold, in the order of the lines.
pub open spec fn line_items(lines: Seq<Seq<char>>) -> Seq<JsonValue>
    decreases lines.len(),
{
    if lines.len() == 0 {
        Seq::empty()
    } else {
        let rest = line_items(lines.drop_last());
        match line_item(lines.last()) {
            Some(item) => rest.push(item),
            None => rest,
        }
    }
}

/// The items of a graph: those of the list where the text is a JSON list,
/// the one value where it is another JSON value, and else the items of its
/// lines.
pub open spec fn lsif_items(content: Seq<char>) -> Seq<JsonValue> {
    match json_parse(encode_utf8(content)) {
        Some(JsonValue::List(items)) => items,
        Some(v) => seq![v],
        None => line_items(lines_of(content)),
    }
}

/// The items of a graph, read from its text.
pub fn parse_lsif_items(content: &str) -> (r: Vec<Json>)
    ensures
        jsons_view(r@) == lsif_items(content@),
{
    match decode(content.as_bytes()) {
        Ok(Json::List(items)) => {
            proof {
                reveal_with_fuel(json_value, 2);
                assert(jsons_view(items@) =~= lsif_items(content@));
            }
            items
        },
        Ok(v) => {
            let mut items: Vec<Json> = Vec::new();
            let ghost value = v@;
            items.push(v);
            proof {
                assert(jsons_view(items@) =~= seq![value]);
            }
            items
        },
        Err(_) => {
            let lines = str_lines(content);
            let ghost all = lines.deep_view();
            let mut items: Vec<Json> = Vec::new();
            let mut i: usize = 0;
            proof {
                assert(all.take(0) =~= Seq::empty());
                assert(jsons_view(items@) =~= Seq::empty());
            }
            while i < lines.len()
                invariant
                    i <= lines.len(),
                    all == lines.deep_view(),
                    jsons_view(items@) == line_items(all.take(i as int)),
                decreases lines.len() - i,
            {
                let ghost before = jsons_view(items@);
                proof {
                    assert(all.take(i as int + 1).drop_last() =~= all.take(i as int));
                    assert(all.take(i as int + 1).last() == lines@[i as int]@);
                }
                let text = str_trim(lines[i].as_str());
                if text.unicode_len() > 0 && !str_starts_with(text, "//") {
                    match decode(text.as_bytes()) {
                        Ok(v) => {
                            let ghost value = v@;
                            items.push(v);
                            assert(jsons_view(items@) =~= before.push(value));
                        },
                        Err(_) => {},
                    }
                }
                i += 1;
            }
            proof {
                assert(all.take(i as int) =~= all);
            }
            items
        },
    }
}

/// What the `id` and the `type` of an item say: nothing where the item has
/// not both, and else the two. `None` where the item has both but the `id`
/// is no whole number from 0 on, or the `type` is no text.
pub open spec fn header_of(item: JsonValue) -> Option<Option<(int, Seq<char>)>> {
    match (item.field("id"@), item.field("type"@)) {
        (Some(JsonValue::Unsigned(id)), Some(JsonValue::Text(kind))) => Some(Some((id, kind))),
        (Some(_), Some(_)) => None,
        _ => Some(None),
    }
}

/// Whether a value is a position: an object with a `line` and a `character`
/// that are whole numbers from 0 on.
pub open spec fn is_position(v: JsonValue) -> bool {
    v.field("line"@) matches Some(JsonValue::Unsigned(_)) && v.field("character"@) matches Some(
        JsonValue::Unsigned(_),
    )
}

/// Whether a range is well formed: where it has both a `start` and an `end`,
/// both are positions.
pub open spec fn range_is_well_formed(item: JsonValue) -> bool {
    item.field("start"@) is Some && item.field("end"@) is Some ==> is_position(
        item.field("start"@)->0,
    ) && is_position(item.field("end"@)->0)
}

/// Whether a vertex is well formed: where it has a `label`, the label is
/// text.
pub open spec fn vertex_is_well_formed(item: JsonValue) -> bool {
    item.field("label"@) is Some ==> item.field("label"@)->0 is Text
}

/// The `type` of an item that has an `id` and a `type`.
pub open spec fn kind_of(item: JsonValue) -> Seq<char> {
    match header_of(item) {
        Some(Some(header)) => header.1,
        _ => Seq::empty(),
    }
}

/// Whether an item counts: it is a vertex or a range, and no later item has
/// its type and its id.
pub open spec fn counts(items: Seq<JsonValue>, i: int) -> bool {
    &&& header_of(items[i]) matches Some(Some(header))
    &&& header.1 == "vertex"@ || header.1 == "range"@
    &&& forall|j: int| i < j < items.len() ==> header_of(#[trigger] items[j]) != header_of(items[i])
}

/// Whether a graph is well formed: every item that has an `id` and a `type`
/// has a whole number and a text there, and every vertex and range that
/// counts is well formed.
pub open spec fn is_well_formed(items: Seq<JsonValue>) -> bool {
    &&& forall|i: int| 0 <= i < items.len() ==> header_of(#[trigger] items[i]) is Some
    &&& forall|i: int|
        0 <= i < items.len() && #[trigger] counts(items, i) ==> {
            &&& kind_of(items[i]) == "range"@ ==> range_is_well_formed(items[i])
            &&& kind_of(items[i]) == "vertex"@ ==> vertex_is_well_formed(items[i])
        }
}

/// What the `id` and the `type` of an item say.
pub fn header(item: &Json) -> (r: Option<Option<(u64, String)>>)
    ensures
        match r {
            Some(Some(found)) => header_of(item@) == Some(Some((found.0 as int, found.1@))),
            Some(None) => header_of(item@) == Some(None::<(int, Seq<char>)>),
            None => header_of(item@) is None,
        },
{
    match (item.get("id"), item.get("type")) {
        (Some(Json::Unsigned(id)), Some(Json::Text(kind))) => Some(Some((*id, kind.clone()))),
        (Some(_), Some(_)) => None,
        _ => Some(None),
    }
}

/// Whether a value is a position.
pub fn check_position(v: &Json) -> (r: bool)
    ensures
        r == is_position(v@),
{
    let line = match v.get("line") {
        Some(Json::Unsigned(_)) => true,
        _ => false,
    };
    let character = match v.get("character") {
        Some(Json::Unsigned(_)) => true,
        _ => false,
    };
    line && character
}

/// Whether a range is well formed.
pub fn check_range(item: &Json) -> (r: bool)
    ensures
        r == range_is_well_formed(item@),
{
    match (item.get("start"), item.get("end")) {
        (Some(start), Some(end)) => check_position(start) && check_position(end),
        _ => true,
    }
}

/// Whether a vertex is well formed.
pub fn check_vertex(item: &Json) -> (r: bool)
    ensures
        r == vertex_is_well_formed(item@),
{
    match item.get("label") {
        Some(Json::Text(_)) => true,
        Some(_) => false,
        None => true,
    }
}

/// Why a graph was refused.
#[derive(Debug, PartialEq, Eq)]
pub enum LsifError {
    /// An item has an `id` that is no whole number from 0 on, or a `type`
    /// that is no text.
    Header,
    /// A range that counts has a `start` or an `end` that is no position.
    Range,
    /// A vertex that counts has a `label` that is no text.
    Label,
    /// A definition or a reference has a `usr` that is no text.
    Usr,
}

/// The headers of a run of items as plain values.
pub open spec fn headers_view(headers: Seq<Option<(u64, String)>>) -> Seq<
    Option<Option<(int, Seq<char>)>>,
> {
    Seq::new(
        headers.len(),
        |i: int|
            match headers[i] {
                Some(found) => Some(Some((found.0 as int, found.1@))),
                None => Some(None),
            },
    )
}

/// Whether two headers say the same.
fn same_header(a: &Option<(u64, String)>, b: &Option<(u64, String)>) -> (r: bool)
    ensures
        r == (headers_view(seq![*a])[0] == headers_view(seq![*b])[0]),
{
    match (a, b) {
        (Some(x), Some(y)) => {
            let same = x.0 == y.0 && str_eq(x.1.as_str(), y.1.as_str());
            same
        },
        (None, None) => true,
        _ => false,
    }
}

/// Checks a graph: `Ok` exactly where it is well formed.
pub fn check_lsif(items: &Vec<Json>) -> (r: Result<(), LsifError>)
    ensures
        r is Ok == is_well_formed(jsons_view(items@)),
        r matches Err(e) ==> !(e is Usr),
{
    let ghost all = jsons_view(items@);
    let mut headers: Vec<Option<(u64, String)>> = Vec::new();
    let mut i: usize = 0;
    while i < items.len()
        invariant
            i <= items.len(),
            all == jsons_view(items@),
            headers@.len() == i,
            forall|k: int| 0 <= k < i ==> header_of(all[k]) == #[trigger] headers_view(headers@)[k],
        decreases items.len() - i,
    {
        let ghost before = headers_view(headers@);
        match header(&items[i]) {
            Some(found) => {
                headers.push(found);
                proof {
                    assert forall|k: int| 0 <= k < i + 1 implies header_of(all[k])
                        == #[trigger] headers_view(headers@)[k] by {
                        if k < i {
                            assert(headers_view(headers@)[k] == before[k]);
                        }
                    }
                }
            },
            None => {
                assert(header_of(all[i as int]) is None);
                return Err(LsifError::Header);
            },
        }
        i += 1;
    }
    assert forall|k: int| 0 <= k < all.len() implies header_of(#[trigger] all[k]) is Some by {
        assert(header_of(all[k]) == headers_view(headers@)[k]);
    }
    let mut n: usize = 0;
    while n < items.len()
        invariant
            n <= items.len(),
            all == jsons_view(items@),
            headers@.len() == items.len(),
            forall|k: int|
                0 <= k < items.len() ==> header_of(all[k]) == #[trigger] headers_view(headers@)[k],
            forall|k: int|
                0 <= k < n && #[trigger] counts(all, k) ==> {
                    &&& kind_of(all[k]) == "range"@ ==> range_is_well_formed(all[k])
                    &&& kind_of(all[k]) == "vertex"@ ==> vertex_is_well_formed(all[k])
                },
        decreases items.len() - n,
    {
        proof {
            assert(header_of(all[n as int]) == headers_view(headers@)[n as int]);
        }
        let is_range = match &headers[n] {
            Some(found) => str_eq(found.1.as_str(), "range"),
            None => false,
        };
        let is_vertex = match &headers[n] {
            Some(found) => str_eq(found.1.as_str(), "vertex"),
            None => false,
        };
        if is_range || is_vertex {
            let mut later: usize = n + 1;
            let mut superseded = false;
            while later < items.len() && !superseded
                invariant
                    n < later <= items.len(),
                    all == jsons_view(items@),
                    headers@.len() == items.len(),
                    forall|k: int|
                        0 <= k < items.len() ==> header_of(all[k]) == #[trigger] headers_view(
                            headers@,
                        )[k],
                    !superseded ==> forall|j: int|
                        n < j < later ==> header_of(#[trigger] all[j]) != header_of(all[n as int]),
                    superseded ==> exists|j: int|
                        n < j < items.len() && header_of(#[trigger] all[j]) == header_of(
                            all[n as int],
                        ),
                decreases items.len() - later + if superseded {
                    0int
                } else {
                    1int
                },
            {
                proof {
                    assert(header_of(all[later as int]) == headers_view(headers@)[later as int]);
                    assert(header_of(all[n as int]) == headers_view(headers@)[n as int]);
                    assert(headers_view(seq![headers@[later as int]])[0] == headers_view(
                        headers@,
                    )[later as int]);
                    assert(headers_view(seq![headers@[n as int]])[0] == headers_view(headers@)[n as int]);
                }
                if same_header(&headers[later], &headers[n]) {
                    superseded = true;
                } else {
                    later += 1;
                }
            }
            if !superseded {
                assert(counts(all, n as int));
                if is_range && !check_range(&items[n]) {
                    assert(!is_well_formed(all));
                    return Err(LsifError::Range);
                }
                if is_vertex && !check_vertex(&items[n]) {
                    assert(!is_well_formed(all));
                    return Err(LsifError::Label);
                }
            } else {
                assert(!counts(all, n as int));
            }
        } else {
            assert(!counts(all, n as int));
        }
        n += 1;
    }
    Ok(())
}

/// Which items count, item by item.
pub fn counting_flags(items: &Vec<Json>) -> (r: Vec<bool>)
    requires
        forall|i: int| 0 <= i < items@.len() ==> header_of(#[trigger] jsons_view(items@)[i]) is Some,
    ensures
        r@.len() == items@.len(),
        forall|i: int| 0 <= i < items@.len() ==> #[trigger] r@[i] == counts(jsons_view(items@), i),
{
    let ghost all = jsons_view(items@);
    let mut headers: Vec<Option<(u64, String)>> = Vec::new();
    let mut i: usize = 0;
    while i < items.len()
        invariant
            i <= items.len(),
            all == jsons_view(items@),
            forall|k: int| 0 <= k < items@.len() ==> header_of(#[trigger] all[k]) is Some,
            headers@.len() == i,
            forall|k: int| 0 <= k < i ==> header_of(all[k]) == #[trigger] headers_view(headers@)[k],
        decreases items.len() - i,
    {
        let ghost before = headers_view(headers@);
        let found = match header(&items[i]) {
            Some(found) => found,
            None => {
                assert(header_of(all[i as int]) is Some);
                None
            },
        };
        headers.push(found);
        proof {
            assert forall|k: int| 0 <= k < i + 1 implies header_of(all[k])
                == #[trigger] headers_view(headers@)[k] by {
                if k < i {
                    assert(headers_view(headers@)[k] == before[k]);
                }
            }
        }
        i += 1;
    }
    let mut flags: Vec<bool> = Vec::new();
    let mut n: usize = 0;
    while n < items.len()
        invariant
            n <= items.len(),
            all == jsons_view(items@),
            headers@.len() == items.len(),
            forall|k: int|
                0 <= k < items.len() ==> header_of(all[k]) == #[trigger] headers_view(headers@)[k],
            flags@.len() == n,
            forall|k: int| 0 <= k < n ==> #[trigger] flags@[k] == counts(all, k),
        decreases items.len() - n,
    {
        proof {
            assert(header_of(all[n as int]) == headers_view(headers@)[n as int]);
        }
        let is_range = match &headers[n] {
            Some(found) => str_eq(found.1.as_str(), "range"),
            None => false,
        };
        let is_vertex = match &headers[n] {
            Some(found) => str_eq(found.1.as_str(), "vertex"),
            None => false,
        };
        let mut flag = false;
        if is_range || is_vertex {
            let mut later: usize = n + 1;
            let mut superseded = false;
            while later < items.len() && !superseded
                invariant
                    n < later <= items.len(),
                    all == jsons_view(items@),
                    headers@.len() == items.len(),
                    forall|k: int|
                        0 <= k < items.len() ==> header_of(all[k]) == #[trigger] headers_view(
                            headers@,
                        )[k],
                    !superseded ==> forall|j: int|
                        n < j < later ==> header_of(#[trigger] all[j]) != header_of(all[n as int]),
                    superseded ==> exists|j: int|
                        n < j < items.len() && header_of(#[trigger] all[j]) == header_of(
                            all[n as int],
                        ),
                decreases items.len() - later + if superseded {
                    0int
                } else {
                    1int
                },
            {
                proof {
                    assert(header_of(all[later as int]) == headers_view(headers@)[later as int]);
                    assert(header_of(all[n as int]) == headers_view(headers@)[n as int]);
                    assert(headers_view(seq![headers@[later as int]])[0] == headers_view(
                        headers@,
                    )[later as int]);
                    assert(headers_view(seq![headers@[n as int]])[0] == headers_view(headers@)[n as int]);
                }
                if same_header(&headers[later], &headers[n]) {
                    superseded = true;
                } else {
                    later += 1;
                }
            }
            flag = !superseded;
        }
        proof {
            assert(flag == counts(all, n as int));
        }
        flags.push(flag);
        n += 1;
    }
    flags
}

/// A number counted from 0 as one counted from 1, in 32 bits.
pub open spec fn one_more(n: int) -> u32 {
    ((n + 1) % 0x1_0000_0000) as u32
}

/// A number counted from 0 as one counted from 1, in 32 bits.
pub fn count_from_one(n: u64) -> (r: u32)
    ensures
        r == one_more(n as int),
{
    let low = #[verifier::truncate] (n as u32);
    let r = if low == u32::MAX {
        0u32
    } else {
        low + 1
    };
    proof {
        assert(r == ((n as int + 1) % 0x1_0000_0000) as u32) by (bit_vector)
            requires
                low == n as u32,
                r == if low == 0xffff_ffffu32 {
                    0u32
                } else {
                    (low + 1) as u32
                },
        ;
    }
    r
}

/// Where the range with an identifier starts, by line and character from 0:
/// what the last range item with that identifier says, where it has a start
/// and an end.
pub open spec fn range_start(items: Seq<JsonValue>, id: int) -> Option<(int, int)>
    decreases items.len(),
{
    if items.len() == 0 {
        None
    } else if header_of(items.last()) == Some(Some((id, "range"@))) {
        start_of(items.last())
    } else {
        range_start(items.drop_last(), id)
    }
}

/// Where a range item starts, where it has a start and an end.
pub open spec fn start_of(item: JsonValue) -> Option<(int, int)> {
    if item.field("start"@) is Some && item.field("end"@) is Some {
        match (
            item.field("start"@)->0.field("line"@),
            item.field("start"@)->0.field("character"@),
        ) {
            (Some(JsonValue::Unsigned(line)), Some(JsonValue::Unsigned(character))) => Some(
                (line, character),
            ),
            _ => None,
        }
    } else {
        None
    }
}

/// Where the range starts that a value names by its identifier.
pub open spec fn named_range(items: Seq<JsonValue>, name: Option<JsonValue>) -> Option<(int, int)> {
    match name {
        Some(JsonValue::Unsigned(id)) => range_start(items, id),
        _ => None,
    }
}

/// Where a range item starts.
fn item_start(item: &Json) -> (r: Option<(u64, u64)>)
    ensures
        match r {
            Some(start) => start_of(item@) == Some((start.0 as int, start.1 as int)),
            None => start_of(item@) is None,
        },
{
    match (item.get("start"), item.get("end")) {
        (Some(start), Some(_)) => match (start.get("line"), start.get("character")) {
            (Some(Json::Unsigned(line)), Some(Json::Unsigned(character))) => Some((*line, *character)),
            _ => None,
        },
        _ => None,
    }
}

/// Where the range starts that a value names by its identifier.
pub fn find_range(items: &Vec<Json>, name: Option<&Json>) -> (r: Option<(u64, u64)>)
    ensures
        match r {
            Some(start) => named_range(jsons_view(items@), crate::json::value_of(name)) == Some(
                (start.0 as int, start.1 as int),
            ),
            None => named_range(jsons_view(items@), crate::json::value_of(name)) is None,
        },
{
    let id = match name {
        Some(Json::Unsigned(id)) => *id,
        _ => {
            return None;
        },
    };
    let ghost all = jsons_view(items@);
    let mut n: usize = items.len();
    proof {
        reveal_strlit("range");
        assert(all.take(n as int) =~= all);
        assert(named_range(all, crate::json::value_of(name)) == range_start(all, id as int));
    }
    while n > 0
        invariant
            n <= items.len(),
            all == jsons_view(items@),
            named_range(all, crate::json::value_of(name)) == range_start(all, id as int),
            range_start(all, id as int) == range_start(all.take(n as int), id as int),
        decreases n,
    {
        proof {
            assert(all.take(n as int).drop_last() =~= all.take(n as int - 1));
            assert(all.take(n as int).last() == all[n as int - 1]);
        }
        let is_named = match header(&items[n - 1]) {
            Some(Some(found)) => found.0 == id && str_eq(found.1.as_str(), "range"),
            _ => false,
        };
        if is_named {
            proof {
                assert(all[n as int - 1] == items@[n as int - 1]@);
                assert(header_of(all[n as int - 1]) == Some(Some((id as int, "range"@))));
            }
            return item_start(&items[n - 1]);
        }
        proof {
            assert(all[n as int - 1] == items@[n as int - 1]@);
            assert(header_of(all[n as int - 1]) != Some(Some((id as int, "range"@))));
        }
        n -= 1;
    }
    proof {
        assert(all.take(0) =~= Seq::empty());
    }
    None
}

/// Whether the item at `i` is the document of a graph: a vertex that counts,
/// labelled `document`, with a `uri` that is text.
pub open spec fn is_document(items: Seq<JsonValue>, i: int) -> bool {
    &&& counts(items, i)
    &&& kind_of(items[i]) == "vertex"@
    &&& items[i].field("label"@) == Some(JsonValue::Text("document"@))
    &&& items[i].field("uri"@) is Some
    &&& items[i].field("uri"@)->0 is Text
}

/// The path of the document of a graph, looked for from the item at `from`
/// on: the `uri` of the first document, or `unknown` where there is none.
pub open spec fn document_path_from(items: Seq<JsonValue>, from: int) -> Seq<char>
    decreases items.len() - from,
{
    if from < 0 || from >= items.len() {
        "unknown"@
    } else if is_document(items, from) {
        items[from].field("uri"@)->0->Text_0
    } else {
        document_path_from(items, from + 1)
    }
}

/// Whether an item is labelled with a text.
fn is_labelled(item: &Json, label: &str) -> (r: bool)
    ensures
        r == (item@.field("label"@) == Some(JsonValue::Text(label@))),
{
    match item.get("label") {
        Some(Json::Text(found)) => str_eq(found.as_str(), label),
        _ => false,
    }
}

/// Whether an item is a vertex.
fn is_vertex(item: &Json) -> (r: bool)
    ensures
        r == (kind_of(item@) == "vertex"@),
{
    proof {
        reveal_strlit("vertex");
        assert("vertex"@.len() == 6);
        assert(Seq::<char>::empty().len() == 0);
    }
    match header(item) {
        Some(Some(found)) => str_eq(found.1.as_str(), "vertex"),
        Some(None) => false,
        None => false,
    }
}

/// The path of the document of a graph.
pub fn document_path(items: &Vec<Json>, flags: &Vec<bool>) -> (r: String)
    requires
        flags@.len() == items@.len(),
        forall|i: int| 0 <= i < items@.len() ==> #[trigger] flags@[i] == counts(jsons_view(items@), i),
    ensures
        r@ == document_path_from(jsons_view(items@), 0),
{
    let ghost all = jsons_view(items@);
    let mut i: usize = 0;
    while i < items.len()
        invariant
            i <= items.len(),
            all == jsons_view(items@),
            flags@.len() == items@.len(),
            forall|k: int| 0 <= k < items@.len() ==> #[trigger] flags@[k] == counts(all, k),
            document_path_from(all, 0) == document_path_from(all, i as int),
        decreases items.len() - i,
    {
        if flags[i] && is_vertex(&items[i]) && is_labelled(&items[i], "document") {
            match items[i].get("uri") {
                Some(Json::Text(uri)) => {
                    proof {
                        reveal_with_fuel(json_value, 2);
                    }
                    return uri.clone();
                },
                _ => {},
            }
        }
        i += 1;
    }
    String::from_str("unknown")
}

/// A definition or a reference that a graph holds: the external identifier
/// of its symbol, the path of its file, and the place where it stands, by
/// line and column from 1, where the graph gives one.
#[derive(Debug, Clone, PartialEq, Eq)]
pub struct LsifFact {
    pub usr: String,
    pub file: String,
    pub place: Option<(u32, u32)>,
}

/// The mathematical value of an [`LsifFact`].
pub struct LsifFactView {
    pub usr: Seq<char>,
    pub file: Seq<char>,
    pub place: Option<(u32, u32)>,
}

impl View for LsifFact {
    type V = LsifFactView;

    open spec fn view(&self) -> LsifFactView {
        LsifFactView { usr: self.usr@, file: self.file@, place: self.place }
    }
}

/// The values of a list of facts.
pub open spec fn facts_view(facts: Seq<LsifFact>) -> Seq<LsifFactView> {
    Seq::new(facts.len(), |i: int| facts[i]@)
}

/// What a vertex says as a definition or as a reference.
pub enum Reading {
    /// Nothing: it is labelled otherwise, or carries no `usr`.
    Skip,
    /// A fact.
    Fact(LsifFactView),
    /// Its `usr` is no text.
    Bad,
}

/// The range that the moniker of a vertex names.
pub open spec fn moniker_range(vertex: JsonValue) -> Option<JsonValue> {
    match vertex.field("moniker"@) {
        Some(moniker) => moniker.field("range"@),
        None => None,
    }
}

/// A start counted from 0 as a place counted from 1.
pub open spec fn place_of(start: Option<(int, int)>) -> Option<(u32, u32)> {
    match start {
        Some(start) => Some((one_more(start.0), one_more(start.1))),
        None => None,
    }
}

/// What a vertex says as a definition, or else as a reference. Its place is
/// the start of the range that its moniker names. Its file is the document
/// of the graph where the graph places it, by the range that contains it for
/// a definition and by its place for a reference, and else `unknown`.
pub open spec fn read_vertex(
    items: Seq<JsonValue>,
    vertex: JsonValue,
    definition: bool,
    document: Seq<char>,
) -> Reading {
    let wanted = if definition {
        "definition"@
    } else {
        "reference"@
    };
    if vertex.field("label"@) != Some(JsonValue::Text(wanted)) {
        Reading::Skip
    } else {
        match vertex.field("usr"@) {
            None => Reading::Skip,
            Some(JsonValue::Text(usr)) => {
                let place = place_of(named_range(items, moniker_range(vertex)));
                let placed = if definition {
                    named_range(items, vertex.field("containment"@)) is Some
                } else {
                    place is Some
                };
                Reading::Fact(
                    LsifFactView {
                        usr,
                        file: if placed {
                            document
                        } else {
                            "unknown"@
                        },
                        place,
                    },
                )
            },
            Some(_) => Reading::Bad,
        }
    }
}

/// The definitions, or else the references, of the first `n` items of a
/// graph, in the order of the items: those of the vertices that count.
/// `None` where one of these vertices has a `usr` that is no text.
pub open spec fn facts_upto(
    items: Seq<JsonValue>,
    n: int,
    definition: bool,
    document: Seq<char>,
) -> Option<Seq<LsifFactView>>
    decreases n,
{
    if n <= 0 {
        Some(Seq::empty())
    } else {
        match facts_upto(items, n - 1, definition, document) {
            None => None,
            Some(rest) => if counts(items, n - 1) && kind_of(items[n - 1]) == "vertex"@ {
                match read_vertex(items, items[n - 1], definition, document) {
                    Reading::Skip => Some(rest),
                    Reading::Fact(fact) => Some(rest.push(fact)),
                    Reading::Bad => None,
                }
            } else {
                Some(rest)
            },
        }
    }
}

/// A start counted from 0 as a place counted from 1.
fn place(start: Option<(u64, u64)>) -> (r: Option<(u32, u32)>)
    ensures
        r == place_of(
            match start {
                Some(s) => Some((s.0 as int, s.1 as int)),
                None => None,
            },
        ),
{
    match start {
        Some(start) => Some((count_from_one(start.0), count_from_one(start.1))),
        None => None,
    }
}

/// The definitions, or else the references, of a graph.
pub fn read_facts(items: &Vec<Json>, flags: &Vec<bool>, definition: bool, document: &str) -> (r:
    Result<Vec<LsifFact>, LsifError>)
    requires
        flags@.len() == items@.len(),
        forall|i: int| 0 <= i < items@.len() ==> #[trigger] flags@[i] == counts(jsons_view(items@), i),
    ensures
        match r {
            Ok(facts) => facts_upto(
                jsons_view(items@),
                items@.len() as int,
                definition,
                document@,
            ) == Some(facts_view(facts@)),
            Err(e) => e is Usr && facts_upto(
                jsons_view(items@),
                items@.len() as int,
                definition,
                document@,
            ) is None,
        },
{
    let ghost all = jsons_view(items@);
    let mut facts: Vec<LsifFact> = Vec::new();
    let mut i: usize = 0;
    proof {
        assert(facts_view(facts@) =~= Seq::empty());
    }
    while i < items.len()
        invariant
            i <= items.len(),
            all == jsons_view(items@),
            flags@.len() == items@.len(),
            forall|k: int| 0 <= k < items@.len() ==> #[trigger] flags@[k] == counts(all, k),
            facts_upto(all, i as int, definition, document@) == Some(facts_view(facts@)),
        decreases items.len() - i,
    {
        let ghost before = facts_view(facts@);
        let vertex = &items[i];
        let wanted = if definition {
            "definition"
        } else {
            "reference"
        };
        if flags[i] && is_vertex(vertex) && is_labelled(vertex, wanted) {
            match vertex.get("usr") {
                None => {},
                Some(Json::Text(usr)) => {
                    let moniker = match vertex.get("moniker") {
                        Some(moniker) => moniker.get("range"),
                        None => None,
                    };
                    let at = place(find_range(items, moniker));
                    let placed = if definition {
                        find_range(items, vertex.get("containment")).is_some()
                    } else {
                        at.is_some()
                    };
                    let fact = LsifFact {
                        usr: usr.clone(),
                        file: if placed {
                            String::from_str(document)
                        } else {
                            String::from_str("unknown")
                        },
                        place: at,
                    };
                    proof {
                        reveal_with_fuel(json_value, 2);
                    }
                    facts.push(fact);
                    proof {
                        assert(facts_view(facts@) =~= before.push(fact@));
                    }
                },
                Some(_) => {
                    proof {
                        lemma_facts_stay_bad(all, i as int + 1, items@.len() as int, definition, document@);
                    }
                    return Err(LsifError::Usr);
                },
            }
        }
        i += 1;
    }
    Ok(facts)
}

/// Once a vertex cannot be read, no longer run of items can.
pub proof fn lemma_facts_stay_bad(
    items: Seq<JsonValue>,
    n: int,
    m: int,
    definition: bool,
    document: Seq<char>,
)
    requires
        0 <= n <= m,
        facts_upto(items, n, definition, document) is None,
    ensures
        facts_upto(items, m, definition, document) is None,
    decreases m - n,
{
    if n < m {
        lemma_facts_stay_bad(items, n, m - 1, definition, document);
    }
}

/// What comes with one definition or reference that is brought into the
/// store: the identifier that the store answered for its file; for a
/// definition, the identifier drawn for its symbol; for a reference, what
/// the store answered when it was asked for the symbol; and the identifier
/// drawn for the occurrence.
pub struct LsifIds {
    pub file: Seq<char>,
    pub symbol: Seq<char>,
    pub found: Option<Seq<char>>,
    pub occurrence: Seq<char>,
}

/// The steps for a definition: its file is ensured as a Rust file; its
/// symbol is recorded in it, named and classed by its external identifier,
/// as a definition; and where the graph gives its place, an occurrence
/// `definition` is recorded there.
pub open spec fn definition_steps(fact: LsifFactView, ids: LsifIds) -> Seq<Step> {
    let head = seq![
        plain_file_step(fact.file, "rust"@, None, None, ids.file),
        symbol_step(
            new_symbol(
                ids.file,
                Some(fact.usr),
                None,
                name_of_usr(fact.usr),
                kind_of_usr(fact.usr),
                true,
                ids.symbol,
            ),
        ),
    ];
    match fact.place {
        Some(at) => head.push(
            occurrence_step(
                new_occurrence(ids.symbol, ids.file, "definition"@, at.0, at.1, ids.occurrence),
            ),
        ),
        None => head,
    }
}

/// The place of a reference: the one that the graph gives, or the first
/// line and column.
pub open spec fn reference_place(fact: LsifFactView) -> (u32, u32) {
    match fact.place {
        Some(at) => at,
        None => (1u32, 1u32),
    }
}

/// The steps for a reference: the store is asked for the symbol by its
/// external identifier, and where it finds one, the file is ensured as a
/// Rust file and an occurrence `reference` of the symbol is recorded at the
/// reference's place. A reference to a symbol that the store does not find
/// adds nothing.
pub open spec fn reference_steps(fact: LsifFactView, ids: LsifIds) -> Seq<Step> {
    let asked = seq![(Step::Found { usr: fact.usr, id: ids.found })];
    match ids.found {
        Some(symbol) => asked + seq![
            plain_file_step(fact.file, "rust"@, None, None, ids.file),
            occurrence_step(
                new_occurrence(
                    symbol,
                    ids.file,
                    "reference"@,
                    reference_place(fact).0,
                    reference_place(fact).1,
                    ids.occurrence,
                ),
            ),
        ],
        None => asked,
    }
}

/// The steps for one fact.
pub open spec fn one_fact_steps(fact: LsifFactView, definition: bool, ids: LsifIds) -> Seq<Step> {
    if definition {
        definition_steps(fact, ids)
    } else {
        reference_steps(fact, ids)
    }
}

/// The steps for the first facts, as many as identifiers have come for.
pub open spec fn fact_steps(facts: Seq<LsifFactView>, definition: bool, ids: Seq<LsifIds>) -> Seq<
    Step,
>
    decreases ids.len(),
{
    if ids.len() == 0 || ids.len() > facts.len() {
        Seq::empty()
    } else {
        fact_steps(facts, definition, ids.drop_last()) + one_fact_steps(
            facts[ids.len() - 1],
            definition,
            ids.last(),
        )
    }
}

/// The steps that bring the facts of a graph into the store, as far as
/// identifiers have come: those for the definitions, then those for the
/// references.
pub open spec fn graph_steps(
    definitions: Seq<LsifFactView>,
    references: Seq<LsifFactView>,
    defined: Seq<LsifIds>,
    referred: Seq<LsifIds>,
) -> Seq<Step> {
    fact_steps(definitions, true, defined) + fact_steps(references, false, referred)
}

/// Brings a definition into the store.
fn ingest_definition(db: &mut SymgraphDb, fact: &LsifFact) -> (r: (
    Result<(), StoreError>,
    Ghost<LsifIds>,
))
    ensures
        match r.0 {
            Ok(_) => steps_taken(
                old(db).entries(),
                final(db).entries(),
                definition_steps(fact@, r.1@),
            ),
            Err(e) => !(e is Open) && steps_begun(
                old(db).entries(),
                final(db).entries(),
                definition_steps(fact@, r.1@),
            ),
        },
{
    let ghost pre = db.entries();
    let ensured = ensure_file_step(db, fact.file.as_str(), "rust", None, None);
    let ghost file = ensured.1@;
    let ghost first = plain_file_step(fact.file@, "rust"@, None, None, file);
    let file_id = match ensured.0 {
        Ok(id) => id,
        Err(e) => {
            let ghost ids = LsifIds {
                file,
                symbol: Seq::empty(),
                found: None,
                occurrence: Seq::empty(),
            };
            proof {
                lemma_first_failed(pre, db.entries(), definition_steps(fact@, ids));
            }
            return (Err(e), Ghost(ids));
        },
    };
    let ghost with_file = db.entries();
    let name = extract_name_from_usr(fact.usr.as_str());
    let kind = infer_kind_from_usr(fact.usr.as_str());
    let recorded = record_symbol_step(
        db,
        file_id.as_str(),
        Some(fact.usr.as_str()),
        None,
        name.as_str(),
        kind,
        true,
    );
    let ghost symbol = recorded.1@;
    let ghost second = symbol_step(
        new_symbol(
            file,
            Some(fact.usr@),
            None,
            name_of_usr(fact.usr@),
            kind_of_usr(fact.usr@),
            true,
            symbol,
        ),
    );
    proof {
        lemma_one_step(pre, with_file, first);
    }
    let symbol_id = match recorded.0 {
        Ok(id) => id,
        Err(e) => {
            let ghost ids = LsifIds { file, symbol, found: None, occurrence: Seq::empty() };
            proof {
                let all = definition_steps(fact@, ids);
                lemma_step_failed(
                    pre,
                    with_file,
                    db.entries(),
                    seq![first],
                    all.skip(1),
                    all,
                );
            }
            return (Err(e), Ghost(ids));
        },
    };
    let ghost with_symbol = db.entries();
    proof {
        lemma_step_taken(pre, with_file, with_symbol, seq![first], second);
        assert(seq![first].push(second) =~= seq![first, second]);
    }
    match fact.place {
        Some(at) => {
            let located = record_occurrence_step(
                db,
                symbol_id.as_str(),
                file_id.as_str(),
                "definition",
                at.0,
                at.1,
            );
            let ghost ids = LsifIds { file, symbol, found: None, occurrence: located.1@ };
            let ghost third = occurrence_step(
                new_occurrence(symbol, file, "definition"@, at.0, at.1, ids.occurrence),
            );
            match located.0 {
                Ok(_) => {
                    proof {
                        lemma_step_taken(pre, with_symbol, db.entries(), seq![first, second], third);
                    }
                    (Ok(()), Ghost(ids))
                },
                Err(e) => {
                    proof {
                        lemma_step_failed(
                            pre,
                            with_symbol,
                            db.entries(),
                            seq![first, second],
                            seq![third],
                            definition_steps(fact@, ids),
                        );
                    }
                    (Err(e), Ghost(ids))
                },
            }
        },
        None => {
            let ghost ids = LsifIds { file, symbol, found: None, occurrence: Seq::empty() };
            (Ok(()), Ghost(ids))
        },
    }
}

/// Brings a reference into the store.
fn ingest_reference(db: &mut SymgraphDb, fact: &LsifFact) -> (r: (
    Result<(), StoreError>,
    Ghost<LsifIds>,
))
    ensures
        match r.0 {
            Ok(_) => steps_taken(
                old(db).entries(),
                final(db).entries(),
                reference_steps(fact@, r.1@),
            ),
            Err(e) => !(e is Open) && steps_begun(
                old(db).entries(),
                final(db).entries(),
                reference_steps(fact@, r.1@),
            ),
        },
{
    let ghost pre = db.entries();
    let ghost nothing = LsifIds {
        file: Seq::empty(),
        symbol: Seq::empty(),
        found: None,
        occurrence: Seq::empty(),
    };
    let found = match find_symbol_step(db, fact.usr.as_str()) {
        Ok(found) => found,
        Err(e) => {
            proof {
                lemma_first_failed(pre, pre, reference_steps(fact@, nothing));
            }
            return (Err(e), Ghost(nothing));
        },
    };
    let ghost first = Step::Found { usr: fact.usr@, id: found.deep_view() };
    proof {
        lemma_one_step(pre, pre, first);
    }
    let symbol_id = match found {
        Some(id) => id,
        None => {
            return (Ok(()), Ghost(nothing));
        },
    };
    let ensured = ensure_file_step(db, fact.file.as_str(), "rust", None, None);
    let ghost file = ensured.1@;
    let ghost second = plain_file_step(fact.file@, "rust"@, None, None, file);
    let at = match fact.place {
        Some(at) => at,
        None => (1u32, 1u32),
    };
    let file_id = match ensured.0 {
        Ok(id) => id,
        Err(e) => {
            let ghost ids = LsifIds {
                file,
                symbol: Seq::empty(),
                found: Some(symbol_id@),
                occurrence: Seq::empty(),
            };
            proof {
                let all = reference_steps(fact@, ids);
                lemma_step_failed(pre, pre, db.entries(), seq![first], all.skip(1), all);
            }
            return (Err(e), Ghost(ids));
        },
    };
    let ghost with_file = db.entries();
    proof {
        lemma_step_taken(pre, pre, with_file, seq![first], second);
        assert(seq![first].push(second) =~= seq![first, second]);
    }
    let located = record_occurrence_step(
        db,
        symbol_id.as_str(),
        file_id.as_str(),
        "reference",
        at.0,
        at.1,
    );
    let ghost ids = LsifIds {
        file,
        symbol: Seq::empty(),
        found: Some(symbol_id@),
        occurrence: located.1@,
    };
    let ghost third = occurrence_step(
        new_occurrence(symbol_id@, file, "reference"@, at.0, at.1, ids.occurrence),
    );
    match located.0 {
        Ok(_) => {
            proof {
                lemma_step_taken(pre, with_file, db.entries(), seq![first, second], third);
                assert(seq![first, second].push(third) =~= reference_steps(fact@, ids));
            }
            (Ok(()), Ghost(ids))
        },
        Err(e) => {
            proof {
                lemma_step_failed(
                    pre,
                    with_file,
                    db.entries(),
                    seq![first, second],
                    seq![third],
                    reference_steps(fact@, ids),
                );
            }
            (Err(e), Ghost(ids))
        },
    }
}

/// Brings definitions, or else references, into the store, in their order.
fn ingest_facts(db: &mut SymgraphDb, facts: &Vec<LsifFact>, definition: bool) -> (r: (
    Result<(), StoreError>,
    Ghost<Seq<LsifIds>>,
))
    ensures
        match r.0 {
            Ok(_) => r.1@.len() == facts@.len() && steps_taken(
                old(db).entries(),
                final(db).entries(),
                fact_steps(facts_view(facts@), definition, r.1@),
            ),
            Err(e) => !(e is Open) && steps_begun(
                old(db).entries(),
                final(db).entries(),
                fact_steps(facts_view(facts@), definition, r.1@),
            ),
        },
{
    let ghost pre = db.entries();
    let ghost shown = facts_view(facts@);
    let ghost mut ids: Seq<LsifIds> = Seq::empty();
    let mut i: usize = 0;
    proof {
        lemma_no_step(pre);
    }
    while i < facts.len()
        invariant
            i <= facts.len(),
            pre == old(db).entries(),
            shown == facts_view(facts@),
            ids.len() == i,
            steps_taken(pre, db.entries(), fact_steps(shown, definition, ids)),
        decreases facts.len() - i,
    {
        let ghost before = db.entries();
        let ghost done = fact_steps(shown, definition, ids);
        let brought = if definition {
            ingest_definition(db, &facts[i])
        } else {
            ingest_reference(db, &facts[i])
        };
        let ghost next = brought.1@;
        let ghost run = one_fact_steps(shown[i as int], definition, next);
        proof {
            assert(ids.push(next).drop_last() =~= ids);
            assert(fact_steps(shown, definition, ids.push(next)) == done + run);
        }
        match brought.0 {
            Ok(_) => {
                proof {
                    lemma_steps_joined(pre, before, db.entries(), done, run);
                    ids = ids.push(next);
                }
            },
            Err(e) => {
                proof {
                    lemma_steps_failed(pre, before, db.entries(), done, run, done + run);
                }
                return (Err(e), Ghost(ids.push(next)));
            },
        }
        i += 1;
    }
    (Ok(()), Ghost(ids))
}

/// `post` is `pre` after the steps for the facts of a graph have been
/// taken, for some identifiers, one for each fact.
pub open spec fn graph_ingested(
    pre: Map<Seq<u8>, Seq<u8>>,
    post: Map<Seq<u8>, Seq<u8>>,
    definitions: Seq<LsifFactView>,
    references: Seq<LsifFactView>,
) -> bool {
    exists|defined: Seq<LsifIds>, referred: Seq<LsifIds>|
        {
            &&& defined.len() == definitions.len()
            &&& referred.len() == references.len()
            &&& steps_taken(
                pre,
                post,
                #[trigger] graph_steps(definitions, references, defined, referred),
            )
        }
}

/// `post` is `pre` after the first of the steps for the facts of a graph
/// have been taken and the one that follows them has failed.
pub open spec fn graph_begun(
    pre: Map<Seq<u8>, Seq<u8>>,
    post: Map<Seq<u8>, Seq<u8>>,
    definitions: Seq<LsifFactView>,
    references: Seq<LsifFactView>,
) -> bool {
    exists|defined: Seq<LsifIds>, referred: Seq<LsifIds>|
        steps_begun(pre, post, #[trigger] graph_steps(definitions, references, defined, referred))
}

/// Brings the definitions and then the references of a graph into the
/// store.
///
/// The first failure ends the work and is handed on; what was written before
/// it stays.
pub fn ingest_lsif_facts(
    db: &mut SymgraphDb,
    definitions: &Vec<LsifFact>,
    references: &Vec<LsifFact>,
) -> (r: Result<(), StoreError>)
    ensures
        keeps_keys(old(db).entries(), final(db).entries()),
        match r {
            Ok(_) => graph_ingested(
                old(db).entries(),
                final(db).entries(),
                facts_view(definitions@),
                facts_view(references@),
            ),
            Err(e) => !(e is Open) && graph_begun(
                old(db).entries(),
                final(db).entries(),
                facts_view(definitions@),
                facts_view(references@),
            ),
        },
{
    let ghost pre = db.entries();
    let first = ingest_facts(db, definitions, true);
    let ghost first_steps = fact_steps(facts_view(definitions@), true, first.1@);
    match first.0 {
        Ok(_) => {},
        Err(e) => {
            proof {
                lemma_no_step(pre);
                lemma_steps_failed(
                    pre,
                    pre,
                    db.entries(),
                    Seq::empty(),
                    first_steps,
                    graph_steps(
                        facts_view(definitions@),
                        facts_view(references@),
                        first.1@,
                        Seq::empty(),
                    ),
                );
            }
            return Err(e);
        },
    }
    let ghost with_definitions = db.entries();
    let second = ingest_facts(db, references, false);
    let ghost second_steps = fact_steps(facts_view(references@), false, second.1@);
    let ghost all = graph_steps(
        facts_view(definitions@),
        facts_view(references@),
        first.1@,
        second.1@,
    );
    match second.0 {
        Ok(_) => {
            proof {
                lemma_steps_joined(pre, with_definitions, db.entries(), first_steps, second_steps);
                lemma_steps_keep_keys(pre, db.entries(), all);
            }
            Ok(())
        },
        Err(e) => {
            proof {
                lemma_steps_failed(pre, with_definitions, db.entries(), first_steps, second_steps, all);
            }
            Err(e)
        },
    }
}

/// The definitions and the references that the text of a graph holds, where
/// the graph is well formed and each of them has a `usr` that is text.
pub open spec fn lsif_facts(content: Seq<char>) -> Option<(Seq<LsifFactView>, Seq<LsifFactView>)> {
    let items = lsif_items(content);
    let document = document_path_from(items, 0);
    if is_well_formed(items) {
        match (
            facts_upto(items, items.len() as int, true, document),
            facts_upto(items, items.len() as int, false, document),
        ) {
            (Some(definitions), Some(references)) => Some((definitions, references)),
            _ => None,
        }
    } else {
        None
    }
}

/// Reads the definitions and the references of a graph from its text.
pub fn read_lsif(content: &str) -> (r: Result<(Vec<LsifFact>, Vec<LsifFact>), LsifError>)
    ensures
        match r {
            Ok(facts) => lsif_facts(content@) == Some(
                (facts_view(facts.0@), facts_view(facts.1@)),
            ),
            Err(e) => lsif_facts(content@) is None && (e is Usr) == is_well_formed(
                lsif_items(content@),
            ),
        },
{
    let items = parse_lsif_items(content);
    match check_lsif(&items) {
        Ok(_) => {},
        Err(e) => {
            return Err(e);
        },
    }
    let flags = counting_flags(&items);
    let document = document_path(&items, &flags);
    let definitions = read_facts(&items, &flags, true, document.as_str())?;
    let references = read_facts(&items, &flags, false, document.as_str())?;
    Ok((definitions, references))
}

/// Why a graph was not brought into the store.
#[derive(Debug)]
pub enum LsifFailure {
    /// The graph was refused; the store is as it was.
    Graph(LsifError),
    /// The store failed part of the way.
    Store(StoreError),
}

/// Reads an LSIF graph and brings its definitions and then its references
/// into the store: for each definition its file, its symbol and, where the
/// graph gives its place, an occurrence `definition`; for each reference
/// whose symbol the store finds, its file and an occurrence `reference`.
///
/// A graph that is refused leaves the store as it was. A failure of the
/// store ends the work; what was written before it stays.
pub fn parse_lsif_and_insert(content: &str, db: &mut SymgraphDb, _crate_name: &str) -> (r: Result<
    (),
    LsifFailure,
>)
    ensures
        keeps_keys(old(db).entries(), final(db).entries()),
        match r {
            Ok(_) => lsif_facts(content@) is Some && graph_ingested(
                old(db).entries(),
                final(db).entries(),
                lsif_facts(content@).unwrap().0,
                lsif_facts(content@).unwrap().1,
            ),
            Err(LsifFailure::Graph(e)) => {
                &&& lsif_facts(content@) is None
                &&& (e is Usr) == is_well_formed(lsif_items(content@))
                &&& final(db).entries() == old(db).entries()
            },
            Err(LsifFailure::Store(e)) => !(e is Open) && lsif_facts(content@) is Some
                && graph_begun(
                old(db).entries(),
                final(db).entries(),
                lsif_facts(content@).unwrap().0,
                lsif_facts(content@).unwrap().1,
            ),
        },
{
    let facts = match read_lsif(content) {
        Ok(facts) => facts,
        Err(e) => {
            return Err(LsifFailure::Graph(e));
        },
    };
    match ingest_lsif_facts(db, &facts.0, &facts.1) {
        Ok(_) => Ok(()),
        Err(e) => Err(LsifFailure::Store(e)),
    }
}

} // verus!
