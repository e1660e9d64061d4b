//! Index documents: what an index says of documents, symbols and the places
//! where symbols occur, and how that is brought into the store.

use vstd::prelude::*;
use vstd::string::*;
use vstd::hash_map::StringHashMap;
use crate::database::{
    apply_writes, collect, edge_step, edge_writes, insert_edge_with_id, occurrence_writes,
    symbol_writes, insert_occurrence_with_id,
    insert_symbol_with_id, is_listing, keeps_keys, lemma_collect_step, lemma_keeps_keys_twice,
    lemma_first_failed, lemma_no_step, lemma_one_step, lemma_pair, lemma_wrote_none, lemma_step_failed, lemma_step_keeps_keys, lemma_step_taken,
    lemma_steps_failed, lemma_steps_joined, lemma_steps_keep_keys, new_edge, new_id, new_occurrence, new_symbol, now_text,
    occurrence_step, record_text, step_begun, step_taken, steps_begun, steps_taken, symbol_step,
    text_key, writes_view, written, wrote_some, Step, StoreError, SymgraphDb,
};
use crate::json::{
    decode, json_parse, json_text, json_value, lemma_nesting_grows, signed_json, texts_from_json,
    texts_in, texts_json, texts_to_json, texts_view, Json, JsonValue, MAX_NESTING,
};
use crate::kv::pairs_view;
use crate::records::{entry, optional_text};
use crate::text::{concat2, join_texts, joined, str_eq};
use vstd::utf8::encode_utf8;

verus! {

/// What the store keeps of an indexed document.
#[derive(Debug, Clone)]
pub struct ScipDocumentInfo {
    pub id: String,
    pub relative_path: String,
    pub language: String,
    pub symbol_count: usize,
    pub occurrence_count: usize,
    pub project_id: String,
}

/// What the store keeps of an indexed symbol.
#[derive(Debug, Clone)]
pub struct ScipSymbolInfo {
    pub id: String,
    pub symbol: String,
    pub documentation: Option<String>,
    pub display_name: Option<String>,
    pub symbol_kind: String,
    pub file_id: String,
    pub relationships: Vec<ScipRelationship>,
}

/// What the store keeps of a place where an indexed symbol occurs.
#[derive(Debug, Clone)]
pub struct ScipOccurrenceInfo {
    pub id: String,
    pub symbol_id: String,
    pub document_path: String,
    pub range: ScipRange,
    pub roles: Vec<String>,
    pub syntax_kind: String,
    pub file_id: String,
}

/// An index as it was read, ready to be brought into a store.
#[derive(Debug, Clone)]
pub struct ScipParsedData {
    pub metadata: ScipMetadata,
    pub documents: Vec<ScipDocument>,
    pub symbols: Vec<ScipSymbol>,
    pub occurrences: Vec<ScipOccurrence>,
}

/// What an index says of itself.
#[derive(Debug, Clone)]
pub struct ScipMetadata {
    pub version: String,
    pub tool_name: String,
    pub tool_version: String,
    pub project_roots: Vec<String>,
}

/// A document of an index.
#[derive(Debug, Clone)]
pub struct ScipDocument {
    pub relative_path: String,
    pub language: String,
    pub symbol_count: usize,
    pub occurrence_count: usize,
}

/// A symbol of an index.
#[derive(Debug, Clone)]
pub struct ScipSymbol {
    pub symbol: String,
    pub documentation: Option<String>,
    pub display_name: Option<String>,
    pub symbol_kind: String,
    pub relationships: Vec<ScipRelationship>,
}

/// A relationship from one symbol of an index to another.
#[derive(Debug, Clone)]
pub struct ScipRelationship {
    pub kind: String,
    pub target_symbol: String,
}

/// A place where a symbol of an index occurs.
#[derive(Debug, Clone)]
pub struct ScipOccurrence {
    pub document_path: String,
    pub symbol: String,
    pub range: ScipRange,
    pub roles: Vec<String>,
    pub syntax_kind: String,
}

/// A range of text, by line and character.
#[derive(Debug, Clone, Copy, PartialEq, Eq, Structural)]
pub struct ScipRange {
    pub start_line: i32,
    pub start_character: i32,
    pub end_line: i32,
    pub end_character: i32,
}

/// The mathematical value of a [`ScipRelationship`].
pub struct ScipRelationshipView {
    pub kind: Seq<char>,
    pub target_symbol: Seq<char>,
}

impl View for ScipRelationship {
    type V = ScipRelationshipView;

    open spec fn view(&self) -> ScipRelationshipView {
        ScipRelationshipView { kind: self.kind@, target_symbol: self.target_symbol@ }
    }
}

/// The mathematical value of a [`ScipDocumentInfo`].
pub struct ScipDocumentInfoView {
    pub id: Seq<char>,
    pub relative_path: Seq<char>,
    pub language: Seq<char>,
    pub symbol_count: usize,
    pub occurrence_count: usize,
    pub project_id: Seq<char>,
}

impl View for ScipDocumentInfo {
    type V = ScipDocumentInfoView;

    open spec fn view(&self) -> ScipDocumentInfoView {
        ScipDocumentInfoView {
            id: self.id@,
            relative_path: self.relative_path@,
            language: self.language@,
            symbol_count: self.symbol_count,
            occurrence_count: self.occurrence_count,
            project_id: self.project_id@,
        }
    }
}

/// The mathematical value of a [`ScipSymbolInfo`].
pub struct ScipSymbolInfoView {
    pub id: Seq<char>,
    pub symbol: Seq<char>,
    pub documentation: Option<Seq<char>>,
    pub display_name: Option<Seq<char>>,
    pub symbol_kind: Seq<char>,
    pub file_id: Seq<char>,
    pub relationships: Seq<ScipRelationshipView>,
}

impl View for ScipSymbolInfo {
    type V = ScipSymbolInfoView;

    open spec fn view(&self) -> ScipSymbolInfoView {
        ScipSymbolInfoView {
            id: self.id@,
            symbol: self.symbol@,
            documentation: self.documentation.deep_view(),
            display_name: self.display_name.deep_view(),
            symbol_kind: self.symbol_kind@,
            file_id: self.file_id@,
            relationships: relationships_view(self.relationships@),
        }
    }
}

/// The mathematical value of a [`ScipOccurrenceInfo`].
pub struct ScipOccurrenceInfoView {
    pub id: Seq<char>,
    pub symbol_id: Seq<char>,
    pub document_path: Seq<char>,
    pub range: ScipRange,
    pub roles: Seq<Seq<char>>,
    pub syntax_kind: Seq<char>,
    pub file_id: Seq<char>,
}

impl View for ScipOccurrenceInfo {
    type V = ScipOccurrenceInfoView;

    open spec fn view(&self) -> ScipOccurrenceInfoView {
        ScipOccurrenceInfoView {
            id: self.id@,
            symbol_id: self.symbol_id@,
            document_path: self.document_path@,
            range: self.range,
            roles: texts_view(self.roles@),
            syntax_kind: self.syntax_kind@,
            file_id: self.file_id@,
        }
    }
}

/// The values of a list of relationships.
pub open spec fn relationships_view(items: Seq<ScipRelationship>) -> Seq<ScipRelationshipView> {
    Seq::new(items.len(), |i: int| items[i]@)
}

/// The stored form of a relationship.
pub open spec fn relationship_json(r: ScipRelationshipView) -> JsonValue {
    JsonValue::Object(
        seq![("kind"@, JsonValue::Text(r.kind)), ("target_symbol"@, JsonValue::Text(r.target_symbol))],
    )
}

/// The stored form of a list of relationships.
pub open spec fn relationships_json(items: Seq<ScipRelationshipView>) -> JsonValue {
    JsonValue::List(Seq::new(items.len(), |i: int| relationship_json(items[i])))
}

/// The stored form of a range.
pub open spec fn range_json(range: ScipRange) -> JsonValue {
    JsonValue::Object(
        seq![
            ("start_line"@, signed_json(range.start_line as int)),
            ("start_character"@, signed_json(range.start_character as int)),
            ("end_line"@, signed_json(range.end_line as int)),
            ("end_character"@, signed_json(range.end_character as int)),
        ],
    )
}

/// The relationship that a stored form holds.
pub open spec fn relationship_in(v: JsonValue) -> Option<ScipRelationshipView> {
    if v.text_at("kind"@) is Some && v.text_at("target_symbol"@) is Some {
        Some(
            ScipRelationshipView {
                kind: v.text_at("kind"@)->0,
                target_symbol: v.text_at("target_symbol"@)->0,
            },
        )
    } else {
        None
    }
}

/// The relationships that a stored list holds: `None` where the value is no
/// list or one of its items is no relationship.
pub open spec fn relationships_in(v: JsonValue) -> Option<Seq<ScipRelationshipView>> {
    match v {
        JsonValue::List(items) => if forall|i: int|
            0 <= i < items.len() ==> relationship_in(#[trigger] items[i]) is Some {
            Some(Seq::new(items.len(), |i: int| relationship_in(items[i])->0))
        } else {
            None
        },
        _ => None,
    }
}

/// The number of a range under `key`: a whole number that fits 32 bits.
pub open spec fn range_part(v: JsonValue, key: Seq<char>) -> Option<int> {
    v.signed_at(key, i32::MIN as int, i32::MAX as int)
}

/// The range that a stored form holds.
pub open spec fn range_in(v: JsonValue) -> Option<ScipRange> {
    if range_part(v, "start_line"@) is Some && range_part(v, "start_character"@) is Some
        && range_part(v, "end_line"@) is Some && range_part(v, "end_character"@) is Some {
        Some(
            ScipRange {
                start_line: range_part(v, "start_line"@)->0 as i32,
                start_character: range_part(v, "start_character"@)->0 as i32,
                end_line: range_part(v, "end_line"@)->0 as i32,
                end_character: range_part(v, "end_character"@)->0 as i32,
            },
        )
    } else {
        None
    }
}

impl ScipDocumentInfoView {
    /// The stored form of the record.
    pub open spec fn to_json(self) -> JsonValue {
        JsonValue::Object(
            seq![
                ("id"@, JsonValue::Text(self.id)),
                ("relative_path"@, JsonValue::Text(self.relative_path)),
                ("language"@, JsonValue::Text(self.language)),
                ("symbol_count"@, JsonValue::Unsigned(self.symbol_count as int)),
                ("occurrence_count"@, JsonValue::Unsigned(self.occurrence_count as int)),
                ("project_id"@, JsonValue::Text(self.project_id)),
            ],
        )
    }

    /// The record that a stored form holds.
    pub open spec fn from_json(v: JsonValue) -> Option<ScipDocumentInfoView> {
        if v.text_at("id"@) is Some && v.text_at("relative_path"@) is Some && v.text_at(
            "language"@,
        ) is Some && v.unsigned_at("symbol_count"@, usize::MAX as int) is Some && v.unsigned_at(
            "occurrence_count"@,
            usize::MAX as int,
        ) is Some && v.text_at("project_id"@) is Some {
            Some(
                ScipDocumentInfoView {
                    id: v.text_at("id"@)->0,
                    relative_path: v.text_at("relative_path"@)->0,
                    language: v.text_at("language"@)->0,
                    symbol_count: v.unsigned_at("symbol_count"@, usize::MAX as int)->0 as usize,
                    occurrence_count: v.unsigned_at(
                        "occurrence_count"@,
                        usize::MAX as int,
                    )->0 as usize,
                    project_id: v.text_at("project_id"@)->0,
                },
            )
        } else {
            None
        }
    }
}

impl ScipSymbolInfoView {
    /// The stored form of the record.
    pub open spec fn to_json(self) -> JsonValue {
        JsonValue::Object(
            seq![
                ("id"@, JsonValue::Text(self.id)),
                ("symbol"@, JsonValue::Text(self.symbol)),
                ("documentation"@, optional_text(self.documentation)),
                ("display_name"@, optional_text(self.display_name)),
                ("symbol_kind"@, JsonValue::Text(self.symbol_kind)),
                ("file_id"@, JsonValue::Text(self.file_id)),
                ("relationships"@, relationships_json(self.relationships)),
            ],
        )
    }

    /// The record that a stored form holds.
    pub open spec fn from_json(v: JsonValue) -> Option<ScipSymbolInfoView> {
        if v.text_at("id"@) is Some && v.text_at("symbol"@) is Some && v.optional_text_at(
            "documentation"@,
        ) is Some && v.optional_text_at("display_name"@) is Some && v.text_at("symbol_kind"@) is Some
            && v.text_at("file_id"@) is Some && v.field("relationships"@) is Some
            && relationships_in(v.field("relationships"@)->0) is Some {
            Some(
                ScipSymbolInfoView {
                    id: v.text_at("id"@)->0,
                    symbol: v.text_at("symbol"@)->0,
                    documentation: v.optional_text_at("documentation"@)->0,
                    display_name: v.optional_text_at("display_name"@)->0,
                    symbol_kind: v.text_at("symbol_kind"@)->0,
                    file_id: v.text_at("file_id"@)->0,
                    relationships: relationships_in(v.field("relationships"@)->0)->0,
                },
            )
        } else {
            None
        }
    }
}

impl ScipOccurrenceInfoView {
    /// The stored form of the record.
    pub open spec fn to_json(self) -> JsonValue {
        JsonValue::Object(
            seq![
                ("id"@, JsonValue::Text(self.id)),
                ("symbol_id"@, JsonValue::Text(self.symbol_id)),
                ("document_path"@, JsonValue::Text(self.document_path)),
                ("range"@, range_json(self.range)),
                ("roles"@, texts_json(self.roles)),
                ("syntax_kind"@, JsonValue::Text(self.syntax_kind)),
                ("file_id"@, JsonValue::Text(self.file_id)),
            ],
        )
    }

    /// The record that a stored form holds.
    pub open spec fn from_json(v: JsonValue) -> Option<ScipOccurrenceInfoView> {
        if v.text_at("id"@) is Some && v.text_at("symbol_id"@) is Some && v.text_at(
            "document_path"@,
        ) is Some && v.field("range"@) is Some && range_in(v.field("range"@)->0) is Some
            && v.field("roles"@) is Some && texts_in(v.field("roles"@)->0) is Some && v.text_at(
            "syntax_kind"@,
        ) is Some && v.text_at("file_id"@) is Some {
            Some(
                ScipOccurrenceInfoView {
                    id: v.text_at("id"@)->0,
                    symbol_id: v.text_at("symbol_id"@)->0,
                    document_path: v.text_at("document_path"@)->0,
                    range: range_in(v.field("range"@)->0)->0,
                    roles: texts_in(v.field("roles"@)->0)->0,
                    syntax_kind: v.text_at("syntax_kind"@)->0,
                    file_id: v.text_at("file_id"@)->0,
                },
            )
        } else {
            None
        }
    }
}

impl ScipRelationship {
    /// The stored form of the relationship.
    pub fn to_json(&self) -> (r: Json)
        ensures
            r@ == relationship_json(self@),
            r@.nesting_within(1),
    {
        let mut fields: Vec<(String, Json)> = Vec::new();
        fields.push(entry("kind", Json::Text(self.kind.clone())));
        fields.push(entry("target_symbol", Json::Text(self.target_symbol.clone())));
        let r = Json::Object(fields);
        proof {
            reveal_with_fuel(json_value, 2);
            reveal_with_fuel(JsonValue::nesting_within, 2);
            assert(r@->Object_0 =~= relationship_json(self@)->Object_0);
        }
        r
    }

    /// The relationship that a stored form holds.
    pub fn from_json(v: &Json) -> (r: Option<ScipRelationship>)
        ensures
            match r {
                Some(item) => relationship_in(v@) == Some(item@),
                None => relationship_in(v@) is None,
            },
    {
        match (v.text_at("kind"), v.text_at("target_symbol")) {
            (Some(kind), Some(target_symbol)) => Some(ScipRelationship { kind, target_symbol }),
            _ => None,
        }
    }
}

/// The stored form of a list of relationships.
pub fn relationships_to_json(items: &Vec<ScipRelationship>) -> (r: Json)
    ensures
        r@ == relationships_json(relationships_view(items@)),
        r@.nesting_within(2),
{
    let mut out: Vec<Json> = Vec::new();
    let mut i: usize = 0;
    while i < items.len()
        invariant
            i <= items.len(),
            out@.len() == i,
            forall|j: int| 0 <= j < i ==> json_value(#[trigger] out@[j]) == relationship_json(
                items@[j]@,
            ),
            forall|j: int| 0 <= j < i ==> json_value(#[trigger] out@[j]).nesting_within(1),
        decreases items.len() - i,
    {
        out.push(items[i].to_json());
        i += 1;
    }
    let r = Json::List(out);
    proof {
        reveal_with_fuel(json_value, 2);
        assert(r@->List_0 =~= relationships_json(relationships_view(items@))->List_0);
        assert(r@.nesting_within(2));
    }
    r
}

/// The relationships that a stored list holds.
pub fn relationships_from_json(v: &Json) -> (r: Option<Vec<ScipRelationship>>)
    ensures
        match r {
            Some(items) => relationships_in(v@) == Some(relationships_view(items@)),
            None => relationships_in(v@) is None,
        },
{
    match v {
        Json::List(items) => {
            let ghost all = v@->List_0;
            proof {
                reveal_with_fuel(json_value, 2);
                assert(all.len() == items.len());
            }
            let mut out: Vec<ScipRelationship> = Vec::new();
            let mut i: usize = 0;
            while i < items.len()
                invariant
                    i <= items.len(),
                    v@ == JsonValue::List(all),
                    all.len() == items.len(),
                    forall|j: int| 0 <= j < items.len() ==> all[j] == json_value(#[trigger] items[j]),
                    out@.len() == i,
                    forall|j: int|
                        0 <= j < i ==> relationship_in(all[j]) == Some((#[trigger] out@[j])@),
                decreases items.len() - i,
            {
                match ScipRelationship::from_json(&items[i]) {
                    Some(item) => {
                        out.push(item);
                    },
                    None => {
                        assert(relationship_in(all[i as int]) is None);
                        return None;
                    },
                }
                i += 1;
            }
            proof {
                assert forall|j: int| 0 <= j < all.len() implies relationship_in(
                    #[trigger] all[j],
                ) is Some by {
                    assert(relationship_in(all[j]) == Some(out@[j]@));
                }
                assert forall|j: int| 0 <= j < all.len() implies relationship_in(all[j])->0
                    == relationships_view(out@)[j] by {
                    assert(relationship_in(all[j]) == Some(out@[j]@));
                }
                assert(relationships_in(v@)->0 =~= relationships_view(out@));
            }
            Some(out)
        },
        _ => None,
    }
}

impl ScipRange {
    /// The stored form of the range.
    pub fn to_json(&self) -> (r: Json)
        ensures
            r@ == range_json(*self),
            r@.nesting_within(1),
    {
        let mut fields: Vec<(String, Json)> = Vec::new();
        fields.push(entry("start_line", Json::from_signed(self.start_line as i64)));
        fields.push(entry("start_character", Json::from_signed(self.start_character as i64)));
        fields.push(entry("end_line", Json::from_signed(self.end_line as i64)));
        fields.push(entry("end_character", Json::from_signed(self.end_character as i64)));
        let r = Json::Object(fields);
        proof {
            reveal_with_fuel(json_value, 2);
            reveal_with_fuel(JsonValue::nesting_within, 2);
            assert(r@->Object_0 =~= range_json(*self)->Object_0);
        }
        r
    }

    /// The range that a stored form holds.
    pub fn from_json(v: &Json) -> (r: Option<ScipRange>)
        ensures
            r == range_in(v@),
    {
        let start_line = v.signed_at("start_line", i32::MIN as i64, i32::MAX as i64);
        let start_character = v.signed_at("start_character", i32::MIN as i64, i32::MAX as i64);
        let end_line = v.signed_at("end_line", i32::MIN as i64, i32::MAX as i64);
        let end_character = v.signed_at("end_character", i32::MIN as i64, i32::MAX as i64);
        match (start_line, start_character, end_line, end_character) {
            (Some(a), Some(b), Some(c), Some(d)) => Some(
                ScipRange {
                    start_line: a as i32,
                    start_character: b as i32,
                    end_line: c as i32,
                    end_character: d as i32,
                },
            ),
            _ => None,
        }
    }
}

impl ScipDocumentInfo {
    /// The stored form of the record.
    pub fn to_json(&self) -> (r: Json)
        ensures
            r@ == self@.to_json(),
            r@.nesting_within(1),
    {
        let mut fields: Vec<(String, Json)> = Vec::new();
        fields.push(entry("id", Json::Text(self.id.clone())));
        fields.push(entry("relative_path", Json::Text(self.relative_path.clone())));
        fields.push(entry("language", Json::Text(self.language.clone())));
        fields.push(entry("symbol_count", Json::Unsigned(self.symbol_count as u64)));
        fields.push(entry("occurrence_count", Json::Unsigned(self.occurrence_count as u64)));
        fields.push(entry("project_id", Json::Text(self.project_id.clone())));
        let r = Json::Object(fields);
        proof {
            reveal_with_fuel(json_value, 2);
            reveal_with_fuel(JsonValue::nesting_within, 2);
            assert(r@->Object_0 =~= self@.to_json()->Object_0);
        }
        r
    }

    /// The record that a stored form holds.
    pub fn from_json(v: &Json) -> (r: Option<ScipDocumentInfo>)
        ensures
            match r {
                Some(record) => ScipDocumentInfoView::from_json(v@) == Some(record@),
                None => ScipDocumentInfoView::from_json(v@) is None,
            },
    {
        let id = v.text_at("id");
        let relative_path = v.text_at("relative_path");
        let language = v.text_at("language");
        let symbol_count = v.unsigned_at("symbol_count", usize::MAX as u64);
        let occurrence_count = v.unsigned_at("occurrence_count", usize::MAX as u64);
        let project_id = v.text_at("project_id");
        match (id, relative_path, language, symbol_count, occurrence_count, project_id) {
            (
                Some(id),
                Some(relative_path),
                Some(language),
                Some(symbol_count),
                Some(occurrence_count),
                Some(project_id),
            ) => Some(
                ScipDocumentInfo {
                    id,
                    relative_path,
                    language,
                    symbol_count: symbol_count as usize,
                    occurrence_count: occurrence_count as usize,
                    project_id,
                },
            ),
            _ => None,
        }
    }
}

impl ScipSymbolInfo {
    /// The stored form of the record.
    pub fn to_json(&self) -> (r: Json)
        ensures
            r@ == self@.to_json(),
            r@.nesting_within(3),
    {
        let mut fields: Vec<(String, Json)> = Vec::new();
        fields.push(entry("id", Json::Text(self.id.clone())));
        fields.push(entry("symbol", Json::Text(self.symbol.clone())));
        fields.push(entry("documentation", Json::from_optional_text(&self.documentation)));
        fields.push(entry("display_name", Json::from_optional_text(&self.display_name)));
        fields.push(entry("symbol_kind", Json::Text(self.symbol_kind.clone())));
        fields.push(entry("file_id", Json::Text(self.file_id.clone())));
        fields.push(entry("relationships", relationships_to_json(&self.relationships)));
        let r = Json::Object(fields);
        proof {
            reveal_with_fuel(json_value, 2);
            reveal_with_fuel(JsonValue::nesting_within, 2);
            let stored = r@->Object_0;
            assert(stored =~= self@.to_json()->Object_0);
            assert forall|i: int| 0 <= i < stored.len() implies (#[trigger] stored[i]).1.nesting_within(
                2,
            ) by {
                if i == 6 {
                    assert(stored[i].1 == relationships_json(self@.relationships));
                }
            }
        }
        r
    }

    /// The record that a stored form holds.
    pub fn from_json(v: &Json) -> (r: Option<ScipSymbolInfo>)
        ensures
            match r {
                Some(record) => ScipSymbolInfoView::from_json(v@) == Some(record@),
                None => ScipSymbolInfoView::from_json(v@) is None,
            },
    {
        let id = v.text_at("id");
        let symbol = v.text_at("symbol");
        let documentation = v.optional_text_at("documentation");
        let display_name = v.optional_text_at("display_name");
        let symbol_kind = v.text_at("symbol_kind");
        let file_id = v.text_at("file_id");
        let relationships = match v.get("relationships") {
            Some(list) => relationships_from_json(list),
            None => None,
        };
        match (id, symbol, documentation, display_name, symbol_kind, file_id, relationships) {
            (
                Some(id),
                Some(symbol),
                Some(documentation),
                Some(display_name),
                Some(symbol_kind),
                Some(file_id),
                Some(relationships),
            ) => Some(
                ScipSymbolInfo {
                    id,
                    symbol,
                    documentation,
                    display_name,
                    symbol_kind,
                    file_id,
                    relationships,
                },
            ),
            _ => None,
        }
    }
}

impl ScipOccurrenceInfo {
    /// The stored form of the record.
    pub fn to_json(&self) -> (r: Json)
        ensures
            r@ == self@.to_json(),
            r@.nesting_within(3),
    {
        let mut fields: Vec<(String, Json)> = Vec::new();
        fields.push(entry("id", Json::Text(self.id.clone())));
        fields.push(entry("symbol_id", Json::Text(self.symbol_id.clone())));
        fields.push(entry("document_path", Json::Text(self.document_path.clone())));
        fields.push(entry("range", self.range.to_json()));
        fields.push(entry("roles", texts_to_json(&self.roles)));
        fields.push(entry("syntax_kind", Json::Text(self.syntax_kind.clone())));
        fields.push(entry("file_id", Json::Text(self.file_id.clone())));
        let r = Json::Object(fields);
        proof {
            reveal_with_fuel(json_value, 2);
            reveal_with_fuel(JsonValue::nesting_within, 2);
            let stored = r@->Object_0;
            assert(stored =~= self@.to_json()->Object_0);
            assert forall|i: int| 0 <= i < stored.len() implies (#[trigger] stored[i]).1.nesting_within(
                2,
            ) by {
                if i == 3 {
                    assert(stored[i].1 == range_json(self.range));
                    crate::json::lemma_nesting_grows(stored[i].1, 1, 2);
                } else if i == 4 {
                    assert(stored[i].1 == texts_json(self@.roles));
                    crate::json::lemma_nesting_grows(stored[i].1, 1, 2);
                }
            }
        }
        r
    }

    /// The record that a stored form holds.
    pub fn from_json(v: &Json) -> (r: Option<ScipOccurrenceInfo>)
        ensures
            match r {
                Some(record) => ScipOccurrenceInfoView::from_json(v@) == Some(record@),
                None => ScipOccurrenceInfoView::from_json(v@) is None,
            },
    {
        let id = v.text_at("id");
        let symbol_id = v.text_at("symbol_id");
        let document_path = v.text_at("document_path");
        let range = match v.get("range") {
            Some(value) => ScipRange::from_json(value),
            None => None,
        };
        let roles = match v.get("roles") {
            Some(list) => texts_from_json(list),
            None => None,
        };
        let syntax_kind = v.text_at("syntax_kind");
        let file_id = v.text_at("file_id");
        match (id, symbol_id, document_path, range, roles, syntax_kind, file_id) {
            (
                Some(id),
                Some(symbol_id),
                Some(document_path),
                Some(range),
                Some(roles),
                Some(syntax_kind),
                Some(file_id),
            ) => Some(
                ScipOccurrenceInfo { id, symbol_id, document_path, range, roles, syntax_kind, file_id },
            ),
            _ => None,
        }
    }
}

/// The two writes that store a record under its identifier and point to it
/// from a second key.
pub open spec fn indexed_writes(
    key: Seq<char>,
    record: JsonValue,
    index_key: Seq<char>,
    id: Seq<char>,
) -> Seq<(Seq<u8>, Seq<u8>)> {
    seq![(text_key(key), json_text(record)), (text_key(index_key), encode_utf8(id))]
}

/// The writes that store what an index says of a document.
pub open spec fn document_writes(info: ScipDocumentInfoView) -> Seq<(Seq<u8>, Seq<u8>)> {
    indexed_writes(
        "scip_document:"@ + info.id,
        info.to_json(),
        "scip_document_by_path:"@ + info.relative_path,
        info.id,
    )
}

/// The writes that store what an index says of a symbol.
pub open spec fn scip_symbol_writes(info: ScipSymbolInfoView) -> Seq<(Seq<u8>, Seq<u8>)> {
    indexed_writes(
        "scip_symbol:"@ + info.id,
        info.to_json(),
        "scip_symbol_by_name:"@ + info.symbol,
        info.id,
    )
}

/// The one write that stores what an index says of a place where a symbol
/// occurs.
pub open spec fn scip_occurrence_writes(info: ScipOccurrenceInfoView) -> Seq<(Seq<u8>, Seq<u8>)> {
    seq![(text_key("scip_occurrence:"@ + info.id), json_text(info.to_json()))]
}

/// The document record that a stored text holds.
pub open spec fn document_of_text(text: Seq<u8>) -> Option<ScipDocumentInfoView> {
    match json_parse(text) {
        Some(v) => ScipDocumentInfoView::from_json(v),
        None => None,
    }
}

/// The symbol record of an index that a stored text holds.
pub open spec fn scip_symbol_of_text(text: Seq<u8>) -> Option<ScipSymbolInfoView> {
    match json_parse(text) {
        Some(v) => ScipSymbolInfoView::from_json(v),
        None => None,
    }
}

/// The occurrence record of an index that a stored text holds.
pub open spec fn scip_occurrence_of_text(text: Seq<u8>) -> Option<ScipOccurrenceInfoView> {
    match json_parse(text) {
        Some(v) => ScipOccurrenceInfoView::from_json(v),
        None => None,
    }
}

/// The document record that a stored text holds, where it is of the project.
pub open spec fn document_of_project(text: Seq<u8>, project_id: Seq<char>) -> Option<
    ScipDocumentInfoView,
> {
    match document_of_text(text) {
        Some(document) => if document.project_id == project_id {
            Some(document)
        } else {
            None
        },
        None => None,
    }
}

/// The symbol record that a stored text holds, where it is of the file.
pub open spec fn symbol_of_file(text: Seq<u8>, file_id: Seq<char>) -> Option<ScipSymbolInfoView> {
    match scip_symbol_of_text(text) {
        Some(symbol) => if symbol.file_id == file_id {
            Some(symbol)
        } else {
            None
        },
        None => None,
    }
}

/// The occurrence record that a stored text holds, where it is of the symbol.
pub open spec fn occurrence_of_symbol(text: Seq<u8>, symbol_id: Seq<char>) -> Option<
    ScipOccurrenceInfoView,
> {
    match scip_occurrence_of_text(text) {
        Some(occurrence) => if occurrence.symbol_id == symbol_id {
            Some(occurrence)
        } else {
            None
        },
        None => None,
    }
}

/// The values of a list of document records.
pub open spec fn documents_view(items: Seq<ScipDocumentInfo>) -> Seq<ScipDocumentInfoView> {
    Seq::new(items.len(), |i: int| items[i]@)
}

/// The values of a list of symbol records.
pub open spec fn scip_symbols_view(items: Seq<ScipSymbolInfo>) -> Seq<ScipSymbolInfoView> {
    Seq::new(items.len(), |i: int| items[i]@)
}

/// The values of a list of occurrence records.
pub open spec fn scip_occurrences_view(items: Seq<ScipOccurrenceInfo>) -> Seq<
    ScipOccurrenceInfoView,
> {
    Seq::new(items.len(), |i: int| items[i]@)
}

/// `items` are the documents of a project that `entries` holds.
pub open spec fn is_document_listing(
    entries: Map<Seq<u8>, Seq<u8>>,
    project_id: Seq<char>,
    items: Seq<ScipDocumentInfoView>,
) -> bool {
    is_listing(
        entries,
        "scip_document:"@,
        |text: Seq<u8>| document_of_project(text, project_id),
        items,
    )
}

/// `items` are the indexed symbols of a file that `entries` holds.
pub open spec fn is_scip_symbol_listing(
    entries: Map<Seq<u8>, Seq<u8>>,
    file_id: Seq<char>,
    items: Seq<ScipSymbolInfoView>,
) -> bool {
    is_listing(entries, "scip_symbol:"@, |text: Seq<u8>| symbol_of_file(text, file_id), items)
}

/// `items` are the indexed occurrences of a symbol that `entries` holds.
pub open spec fn is_scip_occurrence_listing(
    entries: Map<Seq<u8>, Seq<u8>>,
    symbol_id: Seq<char>,
    items: Seq<ScipOccurrenceInfoView>,
) -> bool {
    is_listing(
        entries,
        "scip_occurrence:"@,
        |text: Seq<u8>| occurrence_of_symbol(text, symbol_id),
        items,
    )
}

impl SymgraphDb {
    /// Stores what an index says of a document, under the document's
    /// identifier, and points to it from the document's path. `Write` comes
    /// exactly where the writer refuses the record.
    pub fn store_scip_document(&mut self, doc_info: &ScipDocumentInfo) -> (r: Result<
        (),
        StoreError,
    >)
        ensures
            written(
                old(self).entries(),
                final(self).entries(),
                doc_info@.to_json(),
                document_writes(doc_info@),
                r,
            ),
            keeps_keys(old(self).entries(), final(self).entries()),
    {
        let json = doc_info.to_json();
        proof {
            lemma_nesting_grows(json@, 1, MAX_NESTING as nat);
        }
        let text = match record_text(&json) {
            Ok(text) => text,
            Err(e) => {
                return Err(e);
            },
        };
        let mut writes: Vec<(String, Vec<u8>)> = Vec::new();
        writes.push((concat2("scip_document:", doc_info.id.as_str()), text));
        writes.push(
            (
                concat2("scip_document_by_path:", doc_info.relative_path.as_str()),
                doc_info.id.as_str().as_bytes_vec(),
            ),
        );
        proof {
            assert(writes_view(writes@) =~= indexed_writes(
                "scip_document:"@ + doc_info.id@,
                doc_info@.to_json(),
                "scip_document_by_path:"@ + doc_info.relative_path@,
                doc_info.id@,
            ));
        }
        self.write_all(&writes)
    }

    /// Stores what an index says of a symbol, under the record's identifier,
    /// and points to it from the symbol's name in the index. `Write` comes
    /// exactly where the writer refuses the record.
    pub fn store_scip_symbol(&mut self, symbol_info: &ScipSymbolInfo) -> (r: Result<(), StoreError>)
        ensures
            written(
                old(self).entries(),
                final(self).entries(),
                symbol_info@.to_json(),
                scip_symbol_writes(symbol_info@),
                r,
            ),
            keeps_keys(old(self).entries(), final(self).entries()),
    {
        let json = symbol_info.to_json();
        proof {
            lemma_nesting_grows(json@, 3, MAX_NESTING as nat);
        }
        let text = match record_text(&json) {
            Ok(text) => text,
            Err(e) => {
                return Err(e);
            },
        };
        let mut writes: Vec<(String, Vec<u8>)> = Vec::new();
        writes.push((concat2("scip_symbol:", symbol_info.id.as_str()), text));
        writes.push(
            (
                concat2("scip_symbol_by_name:", symbol_info.symbol.as_str()),
                symbol_info.id.as_str().as_bytes_vec(),
            ),
        );
        proof {
            assert(writes_view(writes@) =~= indexed_writes(
                "scip_symbol:"@ + symbol_info.id@,
                symbol_info@.to_json(),
                "scip_symbol_by_name:"@ + symbol_info.symbol@,
                symbol_info.id@,
            ));
        }
        self.write_all(&writes)
    }

    /// Stores what an index says of a place where a symbol occurs, under the
    /// record's identifier. `Write` comes exactly where the writer refuses
    /// the record.
    pub fn store_scip_occurrence(&mut self, occ_info: &ScipOccurrenceInfo) -> (r: Result<
        (),
        StoreError,
    >)
        ensures
            written(
                old(self).entries(),
                final(self).entries(),
                occ_info@.to_json(),
                scip_occurrence_writes(occ_info@),
                r,
            ),
            keeps_keys(old(self).entries(), final(self).entries()),
    {
        let json = occ_info.to_json();
        proof {
            lemma_nesting_grows(json@, 3, MAX_NESTING as nat);
        }
        let text = match record_text(&json) {
            Ok(text) => text,
            Err(e) => {
                return Err(e);
            },
        };
        let mut writes: Vec<(String, Vec<u8>)> = Vec::new();
        writes.push((concat2("scip_occurrence:", occ_info.id.as_str()), text));
        let ghost planned = seq![
            (text_key("scip_occurrence:"@ + occ_info.id@), json_text(occ_info@.to_json())),
        ];
        proof {
            assert(writes_view(writes@) =~= planned);
            reveal_with_fuel(apply_writes, 2);
            assert(planned.drop_last() =~= Seq::empty());
            assert forall|n: int| 0 <= n <= 1 implies #[trigger] apply_writes(
                self.entries(),
                planned.take(n),
            ) == if n == 0 {
                self.entries()
            } else {
                self.entries().insert(planned[0].0, planned[0].1)
            } by {
                if n == 0 {
                    assert(planned.take(0) =~= Seq::empty());
                } else {
                    assert(planned.take(1) =~= planned);
                }
            }
        }
        self.write_all(&writes)
    }

    /// The documents of a project of which the store holds what an index
    /// said, in the order of their keys.
    pub fn get_scip_documents(&self, project_id: &str) -> (r: Result<
        Vec<ScipDocumentInfo>,
        StoreError,
    >)
        ensures
            match r {
                Ok(items) => is_document_listing(
                    self.entries(),
                    project_id@,
                    documents_view(items@),
                ),
                Err(e) => e is Storage,
            },
    {
        let items = self.scan("scip_document:")?;
        let ghost scan = pairs_view(items@);
        let ghost read = |text: Seq<u8>| document_of_project(text, project_id@);
        let mut found: Vec<ScipDocumentInfo> = Vec::new();
        let mut i: usize = 0;
        proof {
            assert(scan.take(0) =~= Seq::empty());
            assert(documents_view(found@) =~= collect(scan.take(0), read));
        }
        while i < items.len()
            invariant
                i <= items.len(),
                scan == pairs_view(items@),
                read == |text: Seq<u8>| document_of_project(text, project_id@),
                documents_view(found@) == collect(scan.take(i as int), read),
            decreases items.len() - i,
        {
            let ghost before = documents_view(found@);
            proof {
                lemma_collect_step(scan, i as int, read);
            }
            match decode(items[i].1.as_slice()) {
                Ok(v) => match ScipDocumentInfo::from_json(&v) {
                    Some(document) => {
                        if str_eq(document.project_id.as_str(), project_id) {
                            found.push(document);
                            assert(documents_view(found@) =~= before.push(document@));
                        }
                    },
                    None => {},
                },
                Err(_) => {},
            }
            i += 1;
        }
        proof {
            assert(scan.take(i as int) =~= scan);
        }
        Ok(found)
    }

    /// The symbols of a file of which the store holds what an index said, in
    /// the order of their keys.
    pub fn get_scip_symbols_for_file(&self, file_id: &str) -> (r: Result<
        Vec<ScipSymbolInfo>,
        StoreError,
    >)
        ensures
            match r {
                Ok(items) => is_scip_symbol_listing(
                    self.entries(),
                    file_id@,
                    scip_symbols_view(items@),
                ),
                Err(e) => e is Storage,
            },
    {
        let items = self.scan("scip_symbol:")?;
        let ghost scan = pairs_view(items@);
        let ghost read = |text: Seq<u8>| symbol_of_file(text, file_id@);
        let mut found: Vec<ScipSymbolInfo> = Vec::new();
        let mut i: usize = 0;
        proof {
            assert(scan.take(0) =~= Seq::empty());
            assert(scip_symbols_view(found@) =~= collect(scan.take(0), read));
        }
        while i < items.len()
            invariant
                i <= items.len(),
                scan == pairs_view(items@),
                read == |text: Seq<u8>| symbol_of_file(text, file_id@),
                scip_symbols_view(found@) == collect(scan.take(i as int), read),
            decreases items.len() - i,
        {
            let ghost before = scip_symbols_view(found@);
            proof {
                lemma_collect_step(scan, i as int, read);
            }
            match decode(items[i].1.as_slice()) {
                Ok(v) => match ScipSymbolInfo::from_json(&v) {
                    Some(symbol) => {
                        if str_eq(symbol.file_id.as_str(), file_id) {
                            found.push(symbol);
                            assert(scip_symbols_view(found@) =~= before.push(symbol@));
                        }
                    },
                    None => {},
                },
                Err(_) => {},
            }
            i += 1;
        }
        proof {
            assert(scan.take(i as int) =~= scan);
        }
        Ok(found)
    }

    /// The places where a symbol occurs of which the store holds what an
    /// index said, in the order of their keys.
    pub fn get_scip_occurrences_for_symbol(&self, symbol_id: &str) -> (r: Result<
        Vec<ScipOccurrenceInfo>,
        StoreError,
    >)
        ensures
            match r {
                Ok(items) => is_scip_occurrence_listing(
                    self.entries(),
                    symbol_id@,
                    scip_occurrences_view(items@),
                ),
                Err(e) => e is Storage,
            },
    {
        let items = self.scan("scip_occurrence:")?;
        let ghost scan = pairs_view(items@);
        let ghost read = |text: Seq<u8>| occurrence_of_symbol(text, symbol_id@);
        let mut found: Vec<ScipOccurrenceInfo> = Vec::new();
        let mut i: usize = 0;
        proof {
            assert(scan.take(0) =~= Seq::empty());
            assert(scip_occurrences_view(found@) =~= collect(scan.take(0), read));
        }
        while i < items.len()
            invariant
                i <= items.len(),
                scan == pairs_view(items@),
                read == |text: Seq<u8>| occurrence_of_symbol(text, symbol_id@),
                scip_occurrences_view(found@) == collect(scan.take(i as int), read),
            decreases items.len() - i,
        {
            let ghost before = scip_occurrences_view(found@);
            proof {
                lemma_collect_step(scan, i as int, read);
            }
            match decode(items[i].1.as_slice()) {
                Ok(v) => match ScipOccurrenceInfo::from_json(&v) {
                    Some(occurrence) => {
                        if str_eq(occurrence.symbol_id.as_str(), symbol_id) {
                            found.push(occurrence);
                            assert(scip_occurrences_view(found@) =~= before.push(occurrence@));
                        }
                    },
                    None => {},
                },
                Err(_) => {},
            }
            i += 1;
        }
        proof {
            assert(scan.take(i as int) =~= scan);
        }
        Ok(found)
    }
}

/// The root of the project that an index is of: the first of the roots it
/// names, or `file:///unknown` where it names none.
pub open spec fn index_root(metadata: ScipMetadata) -> Seq<char> {
    if metadata.project_roots@.len() > 0 {
        metadata.project_roots@[0]@
    } else {
        "file:///unknown"@
    }
}

/// The root of the project that an index is of.
pub fn project_root(metadata: &ScipMetadata) -> (r: String)
    ensures
        r@ == index_root(*metadata),
{
    if metadata.project_roots.len() > 0 {
        metadata.project_roots[0].clone()
    } else {
        String::from_str("file:///unknown")
    }
}

/// The name under which a symbol of an index is recorded: its display name,
/// or the name it has in the index where it has no other.
pub open spec fn recorded_name(symbol: ScipSymbol) -> Seq<char> {
    match symbol.display_name {
        Some(name) => name@,
        None => symbol.symbol@,
    }
}

/// The identifiers that come with one document of an index: the one that
/// the store answered for its file, and the one under which what the index
/// says of the document is stored.
pub struct DocumentIds {
    pub file: Seq<char>,
    pub info: Seq<char>,
}

/// The identifiers drawn for one symbol of an index: that of its symbol
/// record, and the one under which what the index says of it is stored.
pub struct SymbolIds {
    pub symbol: Seq<char>,
    pub info: Seq<char>,
}

/// The identifiers drawn for one occurrence of an index: that of its
/// occurrence record, and the one under which what the index says of it is
/// stored.
pub struct OccurrenceIds {
    pub occurrence: Seq<char>,
    pub info: Seq<char>,
}

/// The identifiers that come with bringing an index into a store: for the
/// project; for each document; for each symbol; for each occurrence; and,
/// for each symbol, for each of its relationships.
pub struct Drawn {
    pub project: Seq<char>,
    pub documents: Seq<DocumentIds>,
    pub symbols: Seq<SymbolIds>,
    pub occurrences: Seq<OccurrenceIds>,
    pub edges: Seq<Seq<Seq<char>>>,
}

/// Whether identifiers have come for all of an index.
pub open spec fn is_complete(drawn: Drawn, data: ScipParsedData) -> bool {
    &&& drawn.documents.len() == data.documents@.len()
    &&& drawn.symbols.len() == data.symbols@.len()
    &&& drawn.occurrences.len() == data.occurrences@.len()
    &&& drawn.edges.len() == data.symbols@.len()
    &&& forall|m: int|
        0 <= m < data.symbols@.len() ==> (#[trigger] drawn.edges[m]).len()
            == data.symbols@[m].relationships@.len()
}

/// The step that ensures the project of an index.
pub open spec fn project_step(name: Seq<char>, root_path: Seq<char>, id: Seq<char>) -> Step {
    Step::Project { name, root_path, id }
}

/// The step that ensures the file of a document: in the project, with the
/// document's path and language, as a file that an index brought.
pub open spec fn file_step(document: ScipDocument, project_id: Seq<char>, id: Seq<char>) -> Step {
    Step::File {
        project_id,
        path: document.relative_path@,
        lang: document.language@,
        category: Some("scip_parsed"@),
        purpose: Some("SCIP parsed file"@),
        id,
    }
}

/// What is stored of a document of an index.
pub open spec fn document_info(
    document: ScipDocument,
    project_id: Seq<char>,
    id: Seq<char>,
) -> ScipDocumentInfoView {
    ScipDocumentInfoView {
        id,
        relative_path: document.relative_path@,
        language: document.language@,
        symbol_count: document.symbol_count,
        occurrence_count: document.occurrence_count,
        project_id,
    }
}

/// The step that stores what an index says of a document.
pub open spec fn document_step(document: ScipDocument, project_id: Seq<char>, id: Seq<char>) -> Step {
    Step::Record {
        record: document_info(document, project_id, id).to_json(),
        writes: document_writes(document_info(document, project_id, id)),
    }
}

/// The two steps for a document: its file is ensured, and what the index
/// says of it is stored.
pub open spec fn document_pair(document: ScipDocument, project_id: Seq<char>, ids: DocumentIds) -> Seq<
    Step,
> {
    seq![
        file_step(document, project_id, ids.file),
        document_step(document, project_id, ids.info),
    ]
}

/// The steps for the first documents of an index, as many as identifiers
/// have come for: for each, its file is ensured and what the index says of
/// it is stored.
pub open spec fn document_steps(
    documents: Seq<ScipDocument>,
    project_id: Seq<char>,
    ids: Seq<DocumentIds>,
) -> Seq<Step>
    decreases ids.len(),
{
    if ids.len() == 0 || ids.len() > documents.len() {
        Seq::empty()
    } else {
        let document = documents[ids.len() - 1];
        document_steps(documents, project_id, ids.drop_last()) + document_pair(
            document,
            project_id,
            ids.last(),
        )
    }
}

/// The file identifiers noted for the paths of the first documents: for
/// each path that of the last document with it.
pub open spec fn files_noted(documents: Seq<ScipDocument>, ids: Seq<DocumentIds>) -> Map<
    Seq<char>,
    Seq<char>,
>
    decreases ids.len(),
{
    if ids.len() == 0 || ids.len() > documents.len() {
        Map::empty()
    } else {
        files_noted(documents, ids.drop_last()).insert(
            documents[ids.len() - 1].relative_path@,
            ids.last().file,
        )
    }
}

/// The file in which every symbol of an index is recorded: that of the
/// first document, or `1` where the index has no document.
pub open spec fn first_file(documents: Seq<ScipDocument>, files: Map<Seq<char>, Seq<char>>) -> Seq<
    char,
> {
    if documents.len() > 0 && files.contains_key(documents[0].relative_path@) {
        files[documents[0].relative_path@]
    } else {
        "1"@
    }
}

/// The file noted for a path, or `1` where none is.
pub open spec fn file_or_one(files: Map<Seq<char>, Seq<char>>, path: Seq<char>) -> Seq<char> {
    if files.contains_key(path) {
        files[path]
    } else {
        "1"@
    }
}

/// The symbol identifiers noted for the names of the first symbols: for
/// each name that of the first symbol with it.
pub open spec fn symbols_noted(symbols: Seq<ScipSymbol>, ids: Seq<SymbolIds>) -> Map<
    Seq<char>,
    Seq<char>,
>
    decreases ids.len(),
{
    if ids.len() == 0 || ids.len() > symbols.len() {
        Map::empty()
    } else {
        let earlier = symbols_noted(symbols, ids.drop_last());
        let name = symbols[ids.len() - 1].symbol@;
        if earlier.contains_key(name) {
            earlier
        } else {
            earlier.insert(name, ids.last().symbol)
        }
    }
}

/// The symbol record of a symbol of an index: in the given file, found by
/// the symbol's name in the index, named by its display name or else by
/// that name, a definition.
pub open spec fn declared_symbol(symbol: ScipSymbol, file_id: Seq<char>, id: Seq<char>) -> Step {
    symbol_step(
        new_symbol(
            file_id,
            Some(symbol.symbol@),
            None,
            recorded_name(symbol),
            symbol.symbol_kind@,
            true,
            id,
        ),
    )
}

/// What is stored of a symbol of an index.
pub open spec fn symbol_info(symbol: ScipSymbol, file_id: Seq<char>, id: Seq<char>) -> ScipSymbolInfoView {
    ScipSymbolInfoView {
        id,
        symbol: symbol.symbol@,
        documentation: symbol.documentation.deep_view(),
        display_name: symbol.display_name.deep_view(),
        symbol_kind: symbol.symbol_kind@,
        file_id,
        relationships: relationships_view(symbol.relationships@),
    }
}

/// The step that stores what an index says of a symbol.
pub open spec fn scip_symbol_step(symbol: ScipSymbol, file_id: Seq<char>, id: Seq<char>) -> Step {
    Step::Record {
        record: symbol_info(symbol, file_id, id).to_json(),
        writes: scip_symbol_writes(symbol_info(symbol, file_id, id)),
    }
}

/// The two steps for a symbol: it is recorded, and what the index says of
/// it is stored.
pub open spec fn symbol_pair(symbol: ScipSymbol, file_id: Seq<char>, ids: SymbolIds) -> Seq<Step> {
    seq![
        declared_symbol(symbol, file_id, ids.symbol),
        scip_symbol_step(symbol, file_id, ids.info),
    ]
}

/// The steps for the first symbols of an index, as many as identifiers have
/// come for: a symbol whose name no earlier symbol has is recorded, and what
/// the index says of it is stored; a symbol whose name came before is
/// passed over.
pub open spec fn symbol_steps(symbols: Seq<ScipSymbol>, file_id: Seq<char>, ids: Seq<SymbolIds>) -> Seq<
    Step,
>
    decreases ids.len(),
{
    if ids.len() == 0 || ids.len() > symbols.len() {
        Seq::empty()
    } else {
        let rest = symbol_steps(symbols, file_id, ids.drop_last());
        let symbol = symbols[ids.len() - 1];
        if symbols_noted(symbols, ids.drop_last()).contains_key(symbol.symbol@) {
            rest
        } else {
            rest + symbol_pair(symbol, file_id, ids.last())
        }
    }
}

/// A number as 32 unsigned bits: itself where it is not negative, and else
/// 2^32 more.
pub open spec fn wrapped(n: i32) -> u32 {
    if n >= 0 {
        n as u32
    } else {
        (n as int + 0x1_0000_0000) as u32
    }
}

/// The occurrence record of an occurrence of an index: of the symbol and in
/// the file given, with the roles in a row as its kind of use, at the line
/// and character where the range starts.
pub open spec fn located_occurrence(
    occurrence: ScipOccurrence,
    symbol_id: Seq<char>,
    file_id: Seq<char>,
    id: Seq<char>,
) -> Step {
    occurrence_step(
        new_occurrence(
            symbol_id,
            file_id,
            joined(texts_view(occurrence.roles@), ","@),
            wrapped(occurrence.range.start_line),
            wrapped(occurrence.range.start_character),
            id,
        ),
    )
}

/// What is stored of an occurrence of an index.
pub open spec fn occurrence_info(
    occurrence: ScipOccurrence,
    symbol_id: Seq<char>,
    file_id: Seq<char>,
    id: Seq<char>,
) -> ScipOccurrenceInfoView {
    ScipOccurrenceInfoView {
        id,
        symbol_id,
        document_path: occurrence.document_path@,
        range: occurrence.range,
        roles: texts_view(occurrence.roles@),
        syntax_kind: occurrence.syntax_kind@,
        file_id,
    }
}

/// The step that stores what an index says of an occurrence.
pub open spec fn scip_occurrence_step(
    occurrence: ScipOccurrence,
    symbol_id: Seq<char>,
    file_id: Seq<char>,
    id: Seq<char>,
) -> Step {
    Step::Record {
        record: occurrence_info(occurrence, symbol_id, file_id, id).to_json(),
        writes: scip_occurrence_writes(occurrence_info(occurrence, symbol_id, file_id, id)),
    }
}

/// The two steps for an occurrence: it is recorded, and what the index says
/// of it is stored.
pub open spec fn occurrence_pair(
    occurrence: ScipOccurrence,
    symbol_id: Seq<char>,
    file_id: Seq<char>,
    ids: OccurrenceIds,
) -> Seq<Step> {
    seq![
        located_occurrence(occurrence, symbol_id, file_id, ids.occurrence),
        scip_occurrence_step(occurrence, symbol_id, file_id, ids.info),
    ]
}

/// The steps for the first occurrences of an index, as many as identifiers
/// have come for: an occurrence of a declared symbol is recorded, under the
/// symbol's identifier and in the file noted for its path or else `1`, and
/// what the index says of it is stored; an occurrence of a symbol that the
/// index does not declare is passed over.
pub open spec fn occurrence_steps(
    occurrences: Seq<ScipOccurrence>,
    files: Map<Seq<char>, Seq<char>>,
    symbols: Map<Seq<char>, Seq<char>>,
    ids: Seq<OccurrenceIds>,
) -> Seq<Step>
    decreases ids.len(),
{
    if ids.len() == 0 || ids.len() > occurrences.len() {
        Seq::empty()
    } else {
        let rest = occurrence_steps(occurrences, files, symbols, ids.drop_last());
        let occurrence = occurrences[ids.len() - 1];
        if symbols.contains_key(occurrence.symbol@) {
            rest + occurrence_pair(
                occurrence,
                symbols[occurrence.symbol@],
                file_or_one(files, occurrence.document_path@),
                ids.last(),
            )
        } else {
            rest
        }
    }
}

/// The step that records a relationship as an edge between two symbols.
pub open spec fn related(from: Seq<char>, to: Seq<char>, kind: Seq<char>, id: Seq<char>) -> Step {
    edge_step(new_edge(Some(from), Some(to), None, None, kind, id))
}

/// The steps for the first relationships of a symbol, as many as
/// identifiers have come for: a relationship to a declared symbol is
/// recorded as an edge of its kind between the two symbols; one to a symbol
/// that the index does not declare is passed over.
pub open spec fn relationship_steps(
    from: Seq<char>,
    relationships: Seq<ScipRelationship>,
    symbols: Map<Seq<char>, Seq<char>>,
    ids: Seq<Seq<char>>,
) -> Seq<Step>
    decreases ids.len(),
{
    if ids.len() == 0 || ids.len() > relationships.len() {
        Seq::empty()
    } else {
        let rest = relationship_steps(from, relationships, symbols, ids.drop_last());
        let relationship = relationships[ids.len() - 1];
        if symbols.contains_key(relationship.target_symbol@) {
            rest.push(
                related(from, symbols[relationship.target_symbol@], relationship.kind@, ids.last()),
            )
        } else {
            rest
        }
    }
}

/// The steps for the relationships of the first symbols of an index, as
/// many as identifiers have come for.
pub open spec fn edge_steps(
    symbols: Seq<ScipSymbol>,
    noted: Map<Seq<char>, Seq<char>>,
    ids: Seq<Seq<Seq<char>>>,
) -> Seq<Step>
    decreases ids.len(),
{
    if ids.len() == 0 || ids.len() > symbols.len() {
        Seq::empty()
    } else {
        let rest = edge_steps(symbols, noted, ids.drop_last());
        let symbol = symbols[ids.len() - 1];
        if noted.contains_key(symbol.symbol@) {
            rest + relationship_steps(noted[symbol.symbol@], symbol.relationships@, noted, ids.last())
        } else {
            rest
        }
    }
}

/// The steps that bring an index into a store, as far as identifiers have
/// come: the project is ensured under the index's root; then come the steps
/// for the documents, for the symbols, for the occurrences and for the
/// relationships.
#[verifier::opaque]
pub open spec fn index_steps(data: ScipParsedData, project_name: Seq<char>, drawn: Drawn) -> Seq<
    Step,
> {
    let files = files_noted(data.documents@, drawn.documents);
    let noted = symbols_noted(data.symbols@, drawn.symbols);
    seq![project_step(project_name, index_root(data.metadata), drawn.project)] + document_steps(
        data.documents@,
        drawn.project,
        drawn.documents,
    ) + symbol_steps(data.symbols@, first_file(data.documents@, files), drawn.symbols)
        + occurrence_steps(data.occurrences@, files, noted, drawn.occurrences) + edge_steps(
        data.symbols@,
        noted,
        drawn.edges,
    )
}

/// The identifiers that a table holds are those noted.
pub open spec fn same_ids(held: Map<Seq<char>, String>, noted: Map<Seq<char>, Seq<char>>) -> bool {
    &&& forall|name: Seq<char>| #[trigger] held.contains_key(name) == noted.contains_key(name)
    &&& forall|name: Seq<char>| #[trigger] held.contains_key(name) ==> held[name]@ == noted[name]
}

/// The identifiers that have come when the documents are being brought.
pub open spec fn drawn_in_documents(project: Seq<char>, documents: Seq<DocumentIds>) -> Drawn {
    Drawn {
        project,
        documents,
        symbols: Seq::empty(),
        occurrences: Seq::empty(),
        edges: Seq::empty(),
    }
}

/// The identifiers that have come when the symbols are being brought.
pub open spec fn drawn_in_symbols(
    project: Seq<char>,
    documents: Seq<DocumentIds>,
    symbols: Seq<SymbolIds>,
) -> Drawn {
    Drawn { project, documents, symbols, occurrences: Seq::empty(), edges: Seq::empty() }
}

/// The identifiers that have come when the occurrences are being brought.
pub open spec fn drawn_in_occurrences(
    project: Seq<char>,
    documents: Seq<DocumentIds>,
    symbols: Seq<SymbolIds>,
    occurrences: Seq<OccurrenceIds>,
) -> Drawn {
    Drawn { project, documents, symbols, occurrences, edges: Seq::empty() }
}

/// The steps of an index while its documents are being brought.
pub proof fn lemma_index_in_documents(
    data: ScipParsedData,
    name: Seq<char>,
    project: Seq<char>,
    documents: Seq<DocumentIds>,
)
    ensures
        index_steps(data, name, drawn_in_documents(project, documents)) == seq![
            project_step(name, index_root(data.metadata), project),
        ] + document_steps(data.documents@, project, documents),
{
    reveal(index_steps);
    let drawn = drawn_in_documents(project, documents);
    assert(index_steps(data, name, drawn) =~= seq![
        project_step(name, index_root(data.metadata), project),
    ] + document_steps(data.documents@, project, documents));
}

/// The steps of an index while its symbols are being brought.
pub proof fn lemma_index_in_symbols(
    data: ScipParsedData,
    name: Seq<char>,
    project: Seq<char>,
    documents: Seq<DocumentIds>,
    symbols: Seq<SymbolIds>,
)
    ensures
        index_steps(data, name, drawn_in_symbols(project, documents, symbols)) == seq![
            project_step(name, index_root(data.metadata), project),
        ] + document_steps(data.documents@, project, documents) + symbol_steps(
            data.symbols@,
            first_file(data.documents@, files_noted(data.documents@, documents)),
            symbols,
        ),
{
    reveal(index_steps);
    let drawn = drawn_in_symbols(project, documents, symbols);
    assert(index_steps(data, name, drawn) =~= seq![
        project_step(name, index_root(data.metadata), project),
    ] + document_steps(data.documents@, project, documents) + symbol_steps(
        data.symbols@,
        first_file(data.documents@, files_noted(data.documents@, documents)),
        symbols,
    ));
}

/// The steps of an index while its occurrences are being brought.
pub proof fn lemma_index_in_occurrences(
    data: ScipParsedData,
    name: Seq<char>,
    project: Seq<char>,
    documents: Seq<DocumentIds>,
    symbols: Seq<SymbolIds>,
    occurrences: Seq<OccurrenceIds>,
)
    ensures
        index_steps(data, name, drawn_in_occurrences(project, documents, symbols, occurrences))
            == seq![project_step(name, index_root(data.metadata), project)] + document_steps(
            data.documents@,
            project,
            documents,
        ) + symbol_steps(
            data.symbols@,
            first_file(data.documents@, files_noted(data.documents@, documents)),
            symbols,
        ) + occurrence_steps(
            data.occurrences@,
            files_noted(data.documents@, documents),
            symbols_noted(data.symbols@, symbols),
            occurrences,
        ),
{
    reveal(index_steps);
    let drawn = drawn_in_occurrences(project, documents, symbols, occurrences);
    assert(index_steps(data, name, drawn) =~= seq![
        project_step(name, index_root(data.metadata), project),
    ] + document_steps(data.documents@, project, documents) + symbol_steps(
        data.symbols@,
        first_file(data.documents@, files_noted(data.documents@, documents)),
        symbols,
    ) + occurrence_steps(
        data.occurrences@,
        files_noted(data.documents@, documents),
        symbols_noted(data.symbols@, symbols),
        occurrences,
    ));
}

/// The steps of an index while its relationships are being brought.
pub proof fn lemma_index_in_edges(data: ScipParsedData, name: Seq<char>, drawn: Drawn)
    ensures
        index_steps(data, name, drawn) == seq![
            project_step(name, index_root(data.metadata), drawn.project),
        ] + document_steps(data.documents@, drawn.project, drawn.documents) + symbol_steps(
            data.symbols@,
            first_file(data.documents@, files_noted(data.documents@, drawn.documents)),
            drawn.symbols,
        ) + occurrence_steps(
            data.occurrences@,
            files_noted(data.documents@, drawn.documents),
            symbols_noted(data.symbols@, drawn.symbols),
            drawn.occurrences,
        ) + edge_steps(data.symbols@, symbols_noted(data.symbols@, drawn.symbols), drawn.edges),
{
    reveal(index_steps);
}

/// One more document: its two steps come last, and its file is noted.
pub proof fn lemma_document_added(
    documents: Seq<ScipDocument>,
    project_id: Seq<char>,
    ids: Seq<DocumentIds>,
    next: DocumentIds,
)
    requires
        ids.len() < documents.len(),
    ensures
        document_steps(documents, project_id, ids.push(next)) == document_steps(
            documents,
            project_id,
            ids,
        ) + document_pair(documents[ids.len() as int], project_id, next),
        files_noted(documents, ids.push(next)) == files_noted(documents, ids).insert(
            documents[ids.len() as int].relative_path@,
            next.file,
        ),
{
    assert(ids.push(next).drop_last() =~= ids);
}

/// One more symbol: where its name is new, its two steps come last and its
/// identifier is noted; where not, nothing changes.
pub proof fn lemma_symbol_added(
    symbols: Seq<ScipSymbol>,
    file_id: Seq<char>,
    ids: Seq<SymbolIds>,
    next: SymbolIds,
)
    requires
        ids.len() < symbols.len(),
    ensures
        symbols_noted(symbols, ids).contains_key(symbols[ids.len() as int].symbol@) ==> {
            &&& symbol_steps(symbols, file_id, ids.push(next)) == symbol_steps(symbols, file_id, ids)
            &&& symbols_noted(symbols, ids.push(next)) == symbols_noted(symbols, ids)
        },
        !symbols_noted(symbols, ids).contains_key(symbols[ids.len() as int].symbol@) ==> {
            &&& symbol_steps(symbols, file_id, ids.push(next)) == symbol_steps(
                symbols,
                file_id,
                ids,
            ) + symbol_pair(symbols[ids.len() as int], file_id, next)
            &&& symbols_noted(symbols, ids.push(next)) == symbols_noted(symbols, ids).insert(
                symbols[ids.len() as int].symbol@,
                next.symbol,
            )
        },
{
    assert(ids.push(next).drop_last() =~= ids);
}

/// One more occurrence: where its symbol is declared, its two steps come
/// last; where not, nothing changes.
pub proof fn lemma_occurrence_added(
    occurrences: Seq<ScipOccurrence>,
    files: Map<Seq<char>, Seq<char>>,
    symbols: Map<Seq<char>, Seq<char>>,
    ids: Seq<OccurrenceIds>,
    next: OccurrenceIds,
)
    requires
        ids.len() < occurrences.len(),
    ensures
        occurrence_steps(occurrences, files, symbols, ids.push(next)) == if symbols.contains_key(
            occurrences[ids.len() as int].symbol@,
        ) {
            occurrence_steps(occurrences, files, symbols, ids) + occurrence_pair(
                occurrences[ids.len() as int],
                symbols[occurrences[ids.len() as int].symbol@],
                file_or_one(files, occurrences[ids.len() as int].document_path@),
                next,
            )
        } else {
            occurrence_steps(occurrences, files, symbols, ids)
        },
{
    assert(ids.push(next).drop_last() =~= ids);
}

/// One more relationship: where its target is declared, its step comes
/// last; where not, nothing changes.
pub proof fn lemma_relationship_added(
    from: Seq<char>,
    relationships: Seq<ScipRelationship>,
    symbols: Map<Seq<char>, Seq<char>>,
    ids: Seq<Seq<char>>,
    next: Seq<char>,
)
    requires
        ids.len() < relationships.len(),
    ensures
        relationship_steps(from, relationships, symbols, ids.push(next)) == if symbols.contains_key(
            relationships[ids.len() as int].target_symbol@,
        ) {
            relationship_steps(from, relationships, symbols, ids).push(
                related(
                    from,
                    symbols[relationships[ids.len() as int].target_symbol@],
                    relationships[ids.len() as int].kind@,
                    next,
                ),
            )
        } else {
            relationship_steps(from, relationships, symbols, ids)
        },
{
    assert(ids.push(next).drop_last() =~= ids);
}

/// One more symbol's relationships: their steps come last.
pub proof fn lemma_edges_added(
    symbols: Seq<ScipSymbol>,
    noted: Map<Seq<char>, Seq<char>>,
    ids: Seq<Seq<Seq<char>>>,
    next: Seq<Seq<char>>,
)
    requires
        ids.len() < symbols.len(),
    ensures
        edge_steps(symbols, noted, ids.push(next)) == if noted.contains_key(
            symbols[ids.len() as int].symbol@,
        ) {
            edge_steps(symbols, noted, ids) + relationship_steps(
                noted[symbols[ids.len() as int].symbol@],
                symbols[ids.len() as int].relationships@,
                noted,
                next,
            )
        } else {
            edge_steps(symbols, noted, ids)
        },
{
    assert(ids.push(next).drop_last() =~= ids);
}

/// Brings a document of an index into the store. The answer is the
/// identifier of the document's file.
fn load_document(db: &mut SymgraphDb, document: &ScipDocument, project_id: &str) -> (r: (
    Result<String, StoreError>,
    Ghost<DocumentIds>,
))
    ensures
        match r.0 {
            Ok(file_id) => r.1@.file == file_id@ && steps_taken(
                old(db).entries(),
                final(db).entries(),
                document_pair(*document, project_id@, r.1@),
            ),
            Err(e) => !(e is Open) && steps_begun(
                old(db).entries(),
                final(db).entries(),
                document_pair(*document, project_id@, r.1@),
            ),
        },
{
    let ghost pre = db.entries();
    let drawn_file = new_id();
    let drawn_info = new_id();
    let ensured = db.ensure_file_with_id(
        project_id,
        document.relative_path.as_str(),
        document.language.as_str(),
        Some("scip_parsed"),
        Some("SCIP parsed file"),
        drawn_file.as_str(),
    );
    let file_id = match ensured {
        Ok(id) => id,
        Err(e) => {
            let ghost ids = DocumentIds { file: drawn_file@, info: drawn_info@ };
            proof {
                assert(step_begun(pre, db.entries(), file_step(*document, project_id@, ids.file)));
                lemma_first_failed(pre, db.entries(), document_pair(*document, project_id@, ids));
            }
            return (Err(e), Ghost(ids));
        },
    };
    let ghost middle = db.entries();
    let ghost ids = DocumentIds { file: file_id@, info: drawn_info@ };
    let info = ScipDocumentInfo {
        id: drawn_info,
        relative_path: document.relative_path.clone(),
        language: document.language.clone(),
        symbol_count: document.symbol_count,
        occurrence_count: document.occurrence_count,
        project_id: String::from_str(project_id),
    };
    let stored = db.store_scip_document(&info);
    proof {
        assert(info@ == document_info(*document, project_id@, ids.info));
        assert(step_taken(pre, middle, file_step(*document, project_id@, ids.file)));
        lemma_wrote_none(middle, document_writes(info@));
        if stored is Ok {
            assert(step_taken(
                middle,
                db.entries(),
                document_step(*document, project_id@, ids.info),
            ));
        } else {
            assert(step_begun(
                middle,
                db.entries(),
                document_step(*document, project_id@, ids.info),
            ));
        }
        lemma_pair(
            pre,
            middle,
            db.entries(),
            file_step(*document, project_id@, ids.file),
            document_step(*document, project_id@, ids.info),
        );
    }
    match stored {
        Ok(_) => (Ok(file_id), Ghost(ids)),
        Err(e) => (Err(e), Ghost(ids)),
    }
}

/// Brings a symbol of an index into the store. The answer is the identifier
/// of the symbol's record.
fn load_symbol(db: &mut SymgraphDb, symbol: &ScipSymbol, file_id: &str) -> (r: (
    Result<String, StoreError>,
    Ghost<SymbolIds>,
))
    ensures
        match r.0 {
            Ok(symbol_id) => r.1@.symbol == symbol_id@ && steps_taken(
                old(db).entries(),
                final(db).entries(),
                symbol_pair(*symbol, file_id@, r.1@),
            ),
            Err(e) => !(e is Open) && steps_begun(
                old(db).entries(),
                final(db).entries(),
                symbol_pair(*symbol, file_id@, r.1@),
            ),
        },
{
    let ghost pre = db.entries();
    let drawn_symbol = new_id();
    let drawn_info = new_id();
    let ghost ids = SymbolIds { symbol: drawn_symbol@, info: drawn_info@ };
    let shown = match &symbol.display_name {
        Some(name) => name.clone(),
        None => symbol.symbol.clone(),
    };
    let inserted = insert_symbol_with_id(
        db,
        drawn_symbol.as_str(),
        file_id,
        Some(symbol.symbol.as_str()),
        None,
        shown.as_str(),
        symbol.symbol_kind.as_str(),
        true,
    );
    match inserted {
        Ok(_) => {},
        Err(e) => {
            proof {
                lemma_wrote_none(
                    pre,
                    symbol_writes(
                        new_symbol(
                            file_id@,
                            Some(symbol.symbol@),
                            None,
                            recorded_name(*symbol),
                            symbol.symbol_kind@,
                            true,
                            ids.symbol,
                        ),
                    ),
                );
                assert(step_begun(pre, db.entries(), declared_symbol(*symbol, file_id@, ids.symbol)));
                lemma_first_failed(pre, db.entries(), symbol_pair(*symbol, file_id@, ids));
            }
            return (Err(e), Ghost(ids));
        },
    }
    let ghost middle = db.entries();
    let info = ScipSymbolInfo {
        id: drawn_info,
        symbol: symbol.symbol.clone(),
        documentation: clone_optional(&symbol.documentation),
        display_name: clone_optional(&symbol.display_name),
        symbol_kind: symbol.symbol_kind.clone(),
        file_id: String::from_str(file_id),
        relationships: clone_relationships(&symbol.relationships),
    };
    let stored = db.store_scip_symbol(&info);
    proof {
        assert(info@ == symbol_info(*symbol, file_id@, ids.info));
        assert(step_taken(pre, middle, declared_symbol(*symbol, file_id@, ids.symbol)));
        lemma_wrote_none(middle, scip_symbol_writes(info@));
        if stored is Ok {
            assert(step_taken(middle, db.entries(), scip_symbol_step(*symbol, file_id@, ids.info)));
        } else {
            assert(step_begun(middle, db.entries(), scip_symbol_step(*symbol, file_id@, ids.info)));
        }
        lemma_pair(
            pre,
            middle,
            db.entries(),
            declared_symbol(*symbol, file_id@, ids.symbol),
            scip_symbol_step(*symbol, file_id@, ids.info),
        );
    }
    match stored {
        Ok(_) => (Ok(drawn_symbol), Ghost(ids)),
        Err(e) => (Err(e), Ghost(ids)),
    }
}

/// Brings an occurrence of a declared symbol into the store.
fn load_occurrence(
    db: &mut SymgraphDb,
    occurrence: &ScipOccurrence,
    symbol_id: &str,
    file_id: &str,
) -> (r: (Result<(), StoreError>, Ghost<OccurrenceIds>))
    ensures
        match r.0 {
            Ok(_) => steps_taken(
                old(db).entries(),
                final(db).entries(),
                occurrence_pair(*occurrence, symbol_id@, file_id@, r.1@),
            ),
            Err(e) => !(e is Open) && steps_begun(
                old(db).entries(),
                final(db).entries(),
                occurrence_pair(*occurrence, symbol_id@, file_id@, r.1@),
            ),
        },
{
    let ghost pre = db.entries();
    let drawn_occurrence = new_id();
    let drawn_info = new_id();
    let ghost ids = OccurrenceIds { occurrence: drawn_occurrence@, info: drawn_info@ };
    let roles = join_texts(&occurrence.roles, ",");
    proof {
        assert(texts_view(occurrence.roles@) =~= Seq::new(
            occurrence.roles@.len(),
            |i: int| occurrence.roles@[i]@,
        ));
    }
    let inserted = insert_occurrence_with_id(
        db,
        drawn_occurrence.as_str(),
        symbol_id,
        file_id,
        roles.as_str(),
        wrap_to_u32(occurrence.range.start_line),
        wrap_to_u32(occurrence.range.start_character),
    );
    match inserted {
        Ok(_) => {},
        Err(e) => {
            proof {
                lemma_wrote_none(
                    pre,
                    occurrence_writes(
                        new_occurrence(
                            symbol_id@,
                            file_id@,
                            joined(texts_view(occurrence.roles@), ","@),
                            wrapped(occurrence.range.start_line),
                            wrapped(occurrence.range.start_character),
                            ids.occurrence,
                        ),
                    ),
                );
                assert(step_begun(
                    pre,
                    db.entries(),
                    located_occurrence(*occurrence, symbol_id@, file_id@, ids.occurrence),
                ));
                lemma_first_failed(
                    pre,
                    db.entries(),
                    occurrence_pair(*occurrence, symbol_id@, file_id@, ids),
                );
            }
            return (Err(e), Ghost(ids));
        },
    }
    let ghost middle = db.entries();
    let info = ScipOccurrenceInfo {
        id: drawn_info,
        symbol_id: String::from_str(symbol_id),
        document_path: occurrence.document_path.clone(),
        range: occurrence.range,
        roles: clone_texts(&occurrence.roles),
        syntax_kind: occurrence.syntax_kind.clone(),
        file_id: String::from_str(file_id),
    };
    let stored = db.store_scip_occurrence(&info);
    proof {
        assert(info@ == occurrence_info(*occurrence, symbol_id@, file_id@, ids.info));
        assert(step_taken(
            pre,
            middle,
            located_occurrence(*occurrence, symbol_id@, file_id@, ids.occurrence),
        ));
        lemma_wrote_none(middle, scip_occurrence_writes(info@));
        if stored is Ok {
            assert(step_taken(
                middle,
                db.entries(),
                scip_occurrence_step(*occurrence, symbol_id@, file_id@, ids.info),
            ));
        } else {
            assert(step_begun(
                middle,
                db.entries(),
                scip_occurrence_step(*occurrence, symbol_id@, file_id@, ids.info),
            ));
        }
        lemma_pair(
            pre,
            middle,
            db.entries(),
            located_occurrence(*occurrence, symbol_id@, file_id@, ids.occurrence),
            scip_occurrence_step(*occurrence, symbol_id@, file_id@, ids.info),
        );
    }
    match stored {
        Ok(_) => (Ok(()), Ghost(ids)),
        Err(e) => (Err(e), Ghost(ids)),
    }
}

/// Brings a relationship between two declared symbols into the store, as an
/// edge.
fn load_relationship(db: &mut SymgraphDb, from: &str, to: &str, kind: &str) -> (r: (
    Result<(), StoreError>,
    Ghost<Seq<char>>,
))
    ensures
        match r.0 {
            Ok(_) => step_taken(
                old(db).entries(),
                final(db).entries(),
                related(from@, to@, kind@, r.1@),
            ),
            Err(e) => !(e is Open) && step_begun(
                old(db).entries(),
                final(db).entries(),
                related(from@, to@, kind@, r.1@),
            ),
        },
{
    let ghost pre = db.entries();
    let drawn_edge = new_id();
    let inserted = insert_edge_with_id(db, drawn_edge.as_str(), Some(from), Some(to), None, None, kind);
    proof {
        let record = new_edge(Some(from@), Some(to@), None, None, kind@, drawn_edge@);
        lemma_wrote_none(pre, edge_writes(record));
        if inserted is Ok {
            assert(step_taken(pre, db.entries(), related(from@, to@, kind@, drawn_edge@)));
        } else {
            assert(step_begun(pre, db.entries(), related(from@, to@, kind@, drawn_edge@)));
        }
    }
    (inserted, Ghost(drawn_edge@))
}

/// The file in which the symbols of an index are recorded.
fn file_of_symbols(scip_data: &ScipParsedData, file_ids: &StringHashMap<String>) -> (r: String)
    ensures
        forall|files: Map<Seq<char>, Seq<char>>|
            same_ids(file_ids@, files) ==> r@ == #[trigger] first_file(scip_data.documents@, files),
{
    if scip_data.documents.len() == 0 {
        String::from_str("1")
    } else {
        match file_ids.get(scip_data.documents[0].relative_path.as_str()) {
            Some(id) => id.clone(),
            None => String::from_str("1"),
        }
    }
}

/// Brings the documents of an index into the store, and notes the file of
/// each path.
fn load_documents(
    db: &mut SymgraphDb,
    scip_data: &ScipParsedData,
    project_id: &str,
    file_ids: &mut StringHashMap<String>,
    Ghost(pre): Ghost<Map<Seq<u8>, Seq<u8>>>,
    Ghost(name): Ghost<Seq<char>>,
) -> (r: (Result<(), StoreError>, Ghost<Seq<DocumentIds>>))
    requires
        old(file_ids)@ == Map::<Seq<char>, String>::empty(),
        steps_taken(
            pre,
            old(db).entries(),
            seq![project_step(name, index_root(scip_data.metadata), project_id@)],
        ),
    ensures
        match r.0 {
            Ok(_) => {
                &&& r.1@.len() == scip_data.documents@.len()
                &&& steps_taken(
                    pre,
                    final(db).entries(),
                    index_steps(*scip_data, name, drawn_in_documents(project_id@, r.1@)),
                )
                &&& same_ids(final(file_ids)@, files_noted(scip_data.documents@, r.1@))
            },
            Err(e) => !(e is Open) && keeps_keys(pre, final(db).entries()) && steps_begun(
                pre,
                final(db).entries(),
                index_steps(*scip_data, name, drawn_in_documents(project_id@, r.1@)),
            ),
        },
{
    let ghost documents = scip_data.documents@;
    let ghost head = seq![project_step(name, index_root(scip_data.metadata), project_id@)];
    let ghost mut ids: Seq<DocumentIds> = Seq::empty();
    let mut i: usize = 0;
    proof {
        assert(head + document_steps(documents, project_id@, ids) =~= head);
    }
    while i < scip_data.documents.len()
        invariant
            i <= scip_data.documents.len(),
            documents == scip_data.documents@,
            head == seq![project_step(name, index_root(scip_data.metadata), project_id@)],
            ids.len() == i,
            steps_taken(pre, db.entries(), head + document_steps(documents, project_id@, ids)),
            same_ids(file_ids@, files_noted(documents, ids)),
        decreases scip_data.documents.len() - i,
    {
        let document = &scip_data.documents[i];
        let ghost before = db.entries();
        let ghost done = head + document_steps(documents, project_id@, ids);
        let loaded = load_document(db, document, project_id);
        let ghost next = loaded.1@;
        proof {
            lemma_document_added(documents, project_id@, ids, next);
            lemma_index_in_documents(*scip_data, name, project_id@, ids.push(next));
            assert(head + document_steps(documents, project_id@, ids.push(next)) =~= done
                + document_pair(*document, project_id@, next));
        }
        match loaded.0 {
            Ok(file_id) => {
                proof {
                    lemma_steps_joined(
                        pre,
                        before,
                        db.entries(),
                        done,
                        document_pair(*document, project_id@, next),
                    );
                    ids = ids.push(next);
                }
                file_ids.insert(document.relative_path.clone(), file_id);
            },
            Err(e) => {
                proof {
                    lemma_steps_failed(
                        pre,
                        before,
                        db.entries(),
                        done,
                        document_pair(*document, project_id@, next),
                        index_steps(
                            *scip_data,
                            name,
                            drawn_in_documents(project_id@, ids.push(next)),
                        ),
                    );
                }
                return (Err(e), Ghost(ids.push(next)));
            },
        }
        i += 1;
    }
    proof {
        lemma_index_in_documents(*scip_data, name, project_id@, ids);
    }
    (Ok(()), Ghost(ids))
}

/// Brings the symbols of an index into the store, each once by its name,
/// and notes the identifier of each name.
fn load_symbols(
    db: &mut SymgraphDb,
    scip_data: &ScipParsedData,
    file_id: &str,
    symbol_ids: &mut StringHashMap<String>,
    Ghost(pre): Ghost<Map<Seq<u8>, Seq<u8>>>,
    Ghost(name): Ghost<Seq<char>>,
    Ghost(project): Ghost<Seq<char>>,
    Ghost(documents): Ghost<Seq<DocumentIds>>,
) -> (r: (Result<(), StoreError>, Ghost<Seq<SymbolIds>>))
    requires
        old(symbol_ids)@ == Map::<Seq<char>, String>::empty(),
        file_id@ == first_file(scip_data.documents@, files_noted(scip_data.documents@, documents)),
        steps_taken(
            pre,
            old(db).entries(),
            index_steps(*scip_data, name, drawn_in_documents(project, documents)),
        ),
    ensures
        match r.0 {
            Ok(_) => {
                &&& r.1@.len() == scip_data.symbols@.len()
                &&& steps_taken(
                    pre,
                    final(db).entries(),
                    index_steps(*scip_data, name, drawn_in_symbols(project, documents, r.1@)),
                )
                &&& same_ids(final(symbol_ids)@, symbols_noted(scip_data.symbols@, r.1@))
            },
            Err(e) => !(e is Open) && keeps_keys(pre, final(db).entries()) && steps_begun(
                pre,
                final(db).entries(),
                index_steps(*scip_data, name, drawn_in_symbols(project, documents, r.1@)),
            ),
        },
{
    let ghost symbols = scip_data.symbols@;
    let ghost earlier = index_steps(*scip_data, name, drawn_in_documents(project, documents));
    let ghost mut ids: Seq<SymbolIds> = Seq::empty();
    let mut n: usize = 0;
    proof {
        lemma_index_in_documents(*scip_data, name, project, documents);
        assert(earlier + symbol_steps(symbols, file_id@, ids) =~= earlier);
    }
    while n < scip_data.symbols.len()
        invariant
            n <= scip_data.symbols.len(),
            symbols == scip_data.symbols@,
            earlier == index_steps(*scip_data, name, drawn_in_documents(project, documents)),
            file_id@ == first_file(
                scip_data.documents@,
                files_noted(scip_data.documents@, documents),
            ),
            ids.len() == n,
            steps_taken(pre, db.entries(), earlier + symbol_steps(symbols, file_id@, ids)),
            same_ids(symbol_ids@, symbols_noted(symbols, ids)),
        decreases scip_data.symbols.len() - n,
    {
        let symbol = &scip_data.symbols[n];
        let ghost before = db.entries();
        let ghost done = earlier + symbol_steps(symbols, file_id@, ids);
        if !symbol_ids.contains_key(symbol.symbol.as_str()) {
            let loaded = load_symbol(db, symbol, file_id);
            let ghost next = loaded.1@;
            proof {
                lemma_symbol_added(symbols, file_id@, ids, next);
                lemma_index_in_documents(*scip_data, name, project, documents);
                lemma_index_in_symbols(*scip_data, name, project, documents, ids.push(next));
                assert(earlier + symbol_steps(symbols, file_id@, ids.push(next)) =~= done
                    + symbol_pair(*symbol, file_id@, next));
            }
            match loaded.0 {
                Ok(symbol_id) => {
                    proof {
                        lemma_steps_joined(
                            pre,
                            before,
                            db.entries(),
                            done,
                            symbol_pair(*symbol, file_id@, next),
                        );
                        ids = ids.push(next);
                    }
                    symbol_ids.insert(symbol.symbol.clone(), symbol_id);
                },
                Err(e) => {
                    proof {
                        lemma_steps_failed(
                            pre,
                            before,
                            db.entries(),
                            done,
                            symbol_pair(*symbol, file_id@, next),
                            index_steps(
                                *scip_data,
                                name,
                                drawn_in_symbols(project, documents, ids.push(next)),
                            ),
                        );
                    }
                    return (Err(e), Ghost(ids.push(next)));
                },
            }
        } else {
            proof {
                let next = SymbolIds { symbol: Seq::empty(), info: Seq::empty() };
                lemma_symbol_added(symbols, file_id@, ids, next);
                ids = ids.push(next);
            }
        }
        n += 1;
    }
    proof {
        lemma_index_in_documents(*scip_data, name, project, documents);
        lemma_index_in_symbols(*scip_data, name, project, documents, ids);
    }
    (Ok(()), Ghost(ids))
}

/// Brings the occurrences of an index into the store, those of declared
/// symbols.
fn load_occurrences(
    db: &mut SymgraphDb,
    scip_data: &ScipParsedData,
    file_ids: &StringHashMap<String>,
    symbol_ids: &StringHashMap<String>,
    Ghost(pre): Ghost<Map<Seq<u8>, Seq<u8>>>,
    Ghost(name): Ghost<Seq<char>>,
    Ghost(project): Ghost<Seq<char>>,
    Ghost(documents): Ghost<Seq<DocumentIds>>,
    Ghost(symbols): Ghost<Seq<SymbolIds>>,
) -> (r: (Result<(), StoreError>, Ghost<Seq<OccurrenceIds>>))
    requires
        same_ids(file_ids@, files_noted(scip_data.documents@, documents)),
        same_ids(symbol_ids@, symbols_noted(scip_data.symbols@, symbols)),
        steps_taken(
            pre,
            old(db).entries(),
            index_steps(*scip_data, name, drawn_in_symbols(project, documents, symbols)),
        ),
    ensures
        match r.0 {
            Ok(_) => {
                &&& r.1@.len() == scip_data.occurrences@.len()
                &&& steps_taken(
                    pre,
                    final(db).entries(),
                    index_steps(
                        *scip_data,
                        name,
                        drawn_in_occurrences(project, documents, symbols, r.1@),
                    ),
                )
            },
            Err(e) => !(e is Open) && keeps_keys(pre, final(db).entries()) && steps_begun(
                pre,
                final(db).entries(),
                index_steps(*scip_data, name, drawn_in_occurrences(project, documents, symbols, r.1@)),
            ),
        },
{
    let ghost occurrences = scip_data.occurrences@;
    let ghost files = files_noted(scip_data.documents@, documents);
    let ghost noted = symbols_noted(scip_data.symbols@, symbols);
    let ghost earlier = index_steps(*scip_data, name, drawn_in_symbols(project, documents, symbols));
    let ghost mut ids: Seq<OccurrenceIds> = Seq::empty();
    let mut k: usize = 0;
    proof {
        assert(earlier + occurrence_steps(occurrences, files, noted, ids) =~= earlier);
    }
    while k < scip_data.occurrences.len()
        invariant
            k <= scip_data.occurrences.len(),
            occurrences == scip_data.occurrences@,
            files == files_noted(scip_data.documents@, documents),
            noted == symbols_noted(scip_data.symbols@, symbols),
            earlier == index_steps(*scip_data, name, drawn_in_symbols(project, documents, symbols)),
            ids.len() == k,
            steps_taken(
                pre,
                db.entries(),
                earlier + occurrence_steps(occurrences, files, noted, ids),
            ),
            same_ids(file_ids@, files),
            same_ids(symbol_ids@, noted),
        decreases scip_data.occurrences.len() - k,
    {
        let occurrence = &scip_data.occurrences[k];
        let ghost before = db.entries();
        let ghost done = earlier + occurrence_steps(occurrences, files, noted, ids);
        match symbol_ids.get(occurrence.symbol.as_str()) {
            Some(symbol_id) => {
                let file_id = match file_ids.get(occurrence.document_path.as_str()) {
                    Some(id) => id.clone(),
                    None => String::from_str("1"),
                };
                let loaded = load_occurrence(db, occurrence, symbol_id.as_str(), file_id.as_str());
                let ghost next = loaded.1@;
                let ghost pair = occurrence_pair(*occurrence, symbol_id@, file_id@, next);
                proof {
                    lemma_occurrence_added(occurrences, files, noted, ids, next);
                    lemma_index_in_symbols(*scip_data, name, project, documents, symbols);
                    lemma_index_in_occurrences(
                        *scip_data,
                        name,
                        project,
                        documents,
                        symbols,
                        ids.push(next),
                    );
                    assert(file_id@ == file_or_one(files, occurrence.document_path@));
                    assert(symbol_id@ == noted[occurrence.symbol@]);
                    assert(earlier + occurrence_steps(occurrences, files, noted, ids.push(next))
                        =~= done + pair);
                }
                match loaded.0 {
                    Ok(_) => {
                        proof {
                            lemma_steps_joined(pre, before, db.entries(), done, pair);
                            ids = ids.push(next);
                        }
                    },
                    Err(e) => {
                        proof {
                            lemma_steps_failed(
                                pre,
                                before,
                                db.entries(),
                                done,
                                pair,
                                index_steps(
                                    *scip_data,
                                    name,
                                    drawn_in_occurrences(
                                        project,
                                        documents,
                                        symbols,
                                        ids.push(next),
                                    ),
                                ),
                            );
                        }
                        return (Err(e), Ghost(ids.push(next)));
                    },
                }
            },
            None => {
                proof {
                    let next = OccurrenceIds { occurrence: Seq::empty(), info: Seq::empty() };
                    lemma_occurrence_added(occurrences, files, noted, ids, next);
                    ids = ids.push(next);
                }
            },
        }
        k += 1;
    }
    proof {
        lemma_index_in_symbols(*scip_data, name, project, documents, symbols);
        lemma_index_in_occurrences(*scip_data, name, project, documents, symbols, ids);
    }
    (Ok(()), Ghost(ids))
}

/// Brings the relationships of one symbol of an index into the store, those
/// to declared symbols, as edges.
fn load_relationships(
    db: &mut SymgraphDb,
    symbol: &ScipSymbol,
    from: &str,
    symbol_ids: &StringHashMap<String>,
    Ghost(noted): Ghost<Map<Seq<char>, Seq<char>>>,
) -> (r: (Result<(), StoreError>, Ghost<Seq<Seq<char>>>))
    requires
        same_ids(symbol_ids@, noted),
    ensures
        match r.0 {
            Ok(_) => r.1@.len() == symbol.relationships@.len() && steps_taken(
                old(db).entries(),
                final(db).entries(),
                relationship_steps(from@, symbol.relationships@, noted, r.1@),
            ),
            Err(e) => {
                &&& !(e is Open)
                &&& r.1@.len() <= symbol.relationships@.len()
                &&& steps_begun(
                    old(db).entries(),
                    final(db).entries(),
                    relationship_steps(from@, symbol.relationships@, noted, r.1@),
                )
            },
        },
{
    let ghost pre = db.entries();
    let ghost relationships = symbol.relationships@;
    let ghost mut ids: Seq<Seq<char>> = Seq::empty();
    let mut q: usize = 0;
    proof {
        lemma_no_step(pre);
    }
    while q < symbol.relationships.len()
        invariant
            q <= symbol.relationships.len(),
            pre == old(db).entries(),
            relationships == symbol.relationships@,
            ids.len() == q,
            steps_taken(pre, db.entries(), relationship_steps(from@, relationships, noted, ids)),
            same_ids(symbol_ids@, noted),
        decreases symbol.relationships.len() - q,
    {
        let relationship = &symbol.relationships[q];
        let ghost before = db.entries();
        let ghost done = relationship_steps(from@, relationships, noted, ids);
        match symbol_ids.get(relationship.target_symbol.as_str()) {
            Some(to) => {
                let loaded = load_relationship(db, from, to.as_str(), relationship.kind.as_str());
                let ghost next = loaded.1@;
                let ghost step = related(from@, to@, relationship.kind@, next);
                proof {
                    lemma_relationship_added(from@, relationships, noted, ids, next);
                    assert(to@ == noted[relationship.target_symbol@]);
                }
                match loaded.0 {
                    Ok(_) => {
                        proof {
                            lemma_step_taken(pre, before, db.entries(), done, step);
                            ids = ids.push(next);
                        }
                    },
                    Err(e) => {
                        proof {
                            lemma_step_failed(
                                pre,
                                before,
                                db.entries(),
                                done,
                                seq![step],
                                relationship_steps(from@, relationships, noted, ids.push(next)),
                            );
                        }
                        return (Err(e), Ghost(ids.push(next)));
                    },
                }
            },
            None => {
                proof {
                    lemma_relationship_added(from@, relationships, noted, ids, Seq::empty());
                    ids = ids.push(Seq::empty());
                }
            },
        }
        q += 1;
    }
    (Ok(()), Ghost(ids))
}

/// Brings the relationships of the symbols of an index into the store.
fn load_edges(
    db: &mut SymgraphDb,
    scip_data: &ScipParsedData,
    symbol_ids: &StringHashMap<String>,
    Ghost(pre): Ghost<Map<Seq<u8>, Seq<u8>>>,
    Ghost(name): Ghost<Seq<char>>,
    Ghost(reached): Ghost<Drawn>,
) -> (r: (Result<(), StoreError>, Ghost<Seq<Seq<Seq<char>>>>))
    requires
        reached.edges == Seq::<Seq<Seq<char>>>::empty(),
        same_ids(symbol_ids@, symbols_noted(scip_data.symbols@, reached.symbols)),
        steps_taken(pre, old(db).entries(), index_steps(*scip_data, name, reached)),
    ensures
        match r.0 {
            Ok(_) => {
                &&& r.1@.len() == scip_data.symbols@.len()
                &&& forall|m: int|
                    0 <= m < scip_data.symbols@.len() ==> (#[trigger] r.1@[m]).len()
                        == scip_data.symbols@[m].relationships@.len()
                &&& steps_taken(
                    pre,
                    final(db).entries(),
                    index_steps(*scip_data, name, (Drawn { edges: r.1@, ..reached })),
                )
            },
            Err(e) => !(e is Open) && keeps_keys(pre, final(db).entries()) && steps_begun(
                pre,
                final(db).entries(),
                index_steps(*scip_data, name, (Drawn { edges: r.1@, ..reached })),
            ),
        },
{
    let ghost symbols = scip_data.symbols@;
    let ghost noted = symbols_noted(scip_data.symbols@, reached.symbols);
    let ghost earlier = index_steps(*scip_data, name, reached);
    let ghost mut ids: Seq<Seq<Seq<char>>> = Seq::empty();
    let mut m: usize = 0;
    proof {
        assert(earlier + edge_steps(symbols, noted, ids) =~= earlier);
    }
    while m < scip_data.symbols.len()
        invariant
            m <= scip_data.symbols.len(),
            symbols == scip_data.symbols@,
            noted == symbols_noted(scip_data.symbols@, reached.symbols),
            earlier == index_steps(*scip_data, name, reached),
            reached.edges == Seq::<Seq<Seq<char>>>::empty(),
            ids.len() == m,
            forall|j: int| 0 <= j < m ==> (#[trigger] ids[j]).len() == symbols[j].relationships@.len(),
            steps_taken(pre, db.entries(), earlier + edge_steps(symbols, noted, ids)),
            same_ids(symbol_ids@, noted),
        decreases scip_data.symbols.len() - m,
    {
        let symbol = &scip_data.symbols[m];
        let ghost before = db.entries();
        let ghost done = earlier + edge_steps(symbols, noted, ids);
        match symbol_ids.get(symbol.symbol.as_str()) {
            Some(from) => {
                let loaded = load_relationships(db, symbol, from.as_str(), symbol_ids, Ghost(noted));
                let ghost next = loaded.1@;
                let ghost run = relationship_steps(from@, symbol.relationships@, noted, next);
                proof {
                    lemma_edges_added(symbols, noted, ids, next);
                    lemma_index_in_edges(*scip_data, name, reached);
                    lemma_index_in_edges(*scip_data, name, (Drawn { edges: ids.push(next), ..reached }));
                    assert(earlier + edge_steps(symbols, noted, ids.push(next)) =~= done + run);
                    assert(index_steps(*scip_data, name, (Drawn { edges: ids.push(next), ..reached }))
                        =~= done + run);
                }
                match loaded.0 {
                    Ok(_) => {
                        proof {
                            lemma_steps_joined(pre, before, db.entries(), done, run);
                            ids = ids.push(next);
                        }
                    },
                    Err(e) => {
                        proof {
                            lemma_steps_failed(
                                pre,
                                before,
                                db.entries(),
                                done,
                                run,
                                index_steps(
                                    *scip_data,
                                    name,
                                    (Drawn { edges: ids.push(next), ..reached }),
                                ),
                            );
                        }
                        return (Err(e), Ghost(ids.push(next)));
                    },
                }
            },
            None => {
                proof {
                    let next = Seq::new(symbol.relationships@.len(), |j: int| Seq::<char>::empty());
                    lemma_edges_added(symbols, noted, ids, next);
                    ids = ids.push(next);
                }
            },
        }
        m += 1;
    }
    proof {
        lemma_index_in_edges(*scip_data, name, reached);
        lemma_index_in_edges(*scip_data, name, (Drawn { edges: ids, ..reached }));
        assert(index_steps(*scip_data, name, (Drawn { edges: ids, ..reached })) =~= earlier
            + edge_steps(symbols, noted, ids));
    }
    (Ok(()), Ghost(ids))
}

/// Brings an index into the store, in four runs: the project and the
/// documents, each as a file; the symbols, each once by its name in the
/// index; the places where the symbols occur; and the relationships between
/// symbols, as edges.
///
/// A symbol that occurs but is not declared by the index gets no occurrence,
/// and a relationship to a symbol that the index does not declare gets no
/// edge. Every symbol is recorded in the file of the first document.
/// Occurrences and edges name a symbol by the identifier of its symbol
/// record, so that a query by the symbol's name in the index finds them.
///
/// The first failure ends the work and is handed on; what was written before
/// it stays. Nothing that the store held is removed.
pub fn load_scip_to_database(
    db: &mut SymgraphDb,
    scip_data: &ScipParsedData,
    project_name: &str,
) -> (r: Result<(), StoreError>)
    ensures
        keeps_keys(old(db).entries(), final(db).entries()),
        match r {
            Ok(_) => exists|drawn: Drawn|
                is_complete(drawn, *scip_data) && steps_taken(
                    old(db).entries(),
                    final(db).entries(),
                    #[trigger] index_steps(*scip_data, project_name@, drawn),
                ),
            Err(e) => !(e is Open) && exists|drawn: Drawn|
                steps_begun(
                    old(db).entries(),
                    final(db).entries(),
                    #[trigger] index_steps(*scip_data, project_name@, drawn),
                ),
        },
{
    let ghost pre = db.entries();
    let root = project_root(&scip_data.metadata);
    let drawn_project = new_id();
    let drawn_time = now_text();
    let ensured = db.ensure_project_with_id(
        project_name,
        root.as_str(),
        drawn_project.as_str(),
        drawn_time.as_str(),
    );
    let project_id = match ensured {
        Ok(id) => id,
        Err(e) => {
            proof {
                let step = project_step(project_name@, root@, drawn_project@);
                lemma_index_in_documents(*scip_data, project_name@, drawn_project@, Seq::empty());
                assert(step_begun(pre, db.entries(), step));
                lemma_first_failed(pre, db.entries(), seq![step]);
                lemma_step_keeps_keys(pre, db.entries(), step);
                assert(index_steps(
                    *scip_data,
                    project_name@,
                    drawn_in_documents(drawn_project@, Seq::empty()),
                ) =~= seq![step]);
            }
            return Err(e);
        },
    };
    proof {
        lemma_one_step(pre, db.entries(), project_step(project_name@, root@, project_id@));
    }
    let mut symbol_ids: StringHashMap<String> = StringHashMap::new();
    let mut file_ids: StringHashMap<String> = StringHashMap::new();
    let documents = load_documents(
        db,
        scip_data,
        project_id.as_str(),
        &mut file_ids,
        Ghost(pre),
        Ghost(project_name@),
    );
    match documents.0 {
        Ok(_) => {},
        Err(e) => {
            return Err(e);
        },
    }
    let file_id = file_of_symbols(scip_data, &file_ids);
    let symbols = load_symbols(
        db,
        scip_data,
        file_id.as_str(),
        &mut symbol_ids,
        Ghost(pre),
        Ghost(project_name@),
        Ghost(project_id@),
        documents.1,
    );
    match symbols.0 {
        Ok(_) => {},
        Err(e) => {
            return Err(e);
        },
    }
    let occurrences = load_occurrences(
        db,
        scip_data,
        &file_ids,
        &symbol_ids,
        Ghost(pre),
        Ghost(project_name@),
        Ghost(project_id@),
        documents.1,
        symbols.1,
    );
    match occurrences.0 {
        Ok(_) => {},
        Err(e) => {
            return Err(e);
        },
    }
    let ghost reached = drawn_in_occurrences(project_id@, documents.1@, symbols.1@, occurrences.1@);
    let edges = load_edges(
        db,
        scip_data,
        &symbol_ids,
        Ghost(pre),
        Ghost(project_name@),
        Ghost(reached),
    );
    match edges.0 {
        Ok(_) => {
            proof {
                let drawn = Drawn { edges: edges.1@, ..reached };
                assert(is_complete(drawn, *scip_data));
                lemma_steps_keep_keys(
                    pre,
                    db.entries(),
                    index_steps(*scip_data, project_name@, drawn),
                );
            }
            Ok(())
        },
        Err(e) => Err(e),
    }
}

/// The number as 32 unsigned bits: itself where it is not negative, and else
/// 2^32 more.
pub fn wrap_to_u32(n: i32) -> (r: u32)
    ensures
        r == wrapped(n),
{
    if n >= 0 {
        n as u32
    } else {
        ((n as i64) + 0x1_0000_0000i64) as u32
    }
}

/// A copy of an optional text.
fn clone_optional(text: &Option<String>) -> (r: Option<String>)
    ensures
        r.deep_view() == text.deep_view(),
{
    match text {
        Some(s) => Some(s.clone()),
        None => None,
    }
}

/// A copy of a list of texts.
fn clone_texts(items: &Vec<String>) -> (r: Vec<String>)
    ensures
        texts_view(r@) == texts_view(items@),
{
    let mut out: Vec<String> = Vec::new();
    let mut i: usize = 0;
    while i < items.len()
        invariant
            i <= items.len(),
            out@.len() == i,
            forall|j: int| 0 <= j < i ==> (#[trigger] out@[j])@ == items@[j]@,
        decreases items.len() - i,
    {
        out.push(items[i].clone());
        i += 1;
    }
    proof {
        assert(texts_view(out@) =~= texts_view(items@));
    }
    out
}

/// A copy of a list of relationships.
fn clone_relationships(items: &Vec<ScipRelationship>) -> (r: Vec<ScipRelationship>)
    ensures
        relationships_view(r@) == relationships_view(items@),
{
    let mut out: Vec<ScipRelationship> = Vec::new();
    let mut i: usize = 0;
    while i < items.len()
        invariant
            i <= items.len(),
            out@.len() == i,
            forall|j: int| 0 <= j < i ==> (#[trigger] out@[j])@ == items@[j]@,
        decreases items.len() - i,
    {
        out.push(
            ScipRelationship {
                kind: items[i].kind.clone(),
                target_symbol: items[i].target_symbol.clone(),
            },
        );
        i += 1;
    }
    proof {
        assert(relationships_view(out@) =~= relationships_view(items@));
    }
    out
}

/// Why an index could not be read.
#[derive(Debug)]
pub enum ScipError {
    /// The bytes are not an index.
    Malformed(String),
}

/// The reader of index documents.
#[derive(Debug, Clone, Copy)]
pub struct ScipParser;

/// The name under which the sample index knows its one symbol.
pub open spec fn sample_symbol() -> Seq<char> {
    "rust-analyzer cargo test_project 0.1.0 main()"@
}

/// `data` is the sample index: one Rust document with one symbol, the
/// function `main`, and the one place where it is defined.
pub open spec fn is_sample_index(data: ScipParsedData) -> bool {
    &&& data.metadata.version@ == "0.1.0"@
    &&& data.metadata.tool_name@ == "rust-analyzer"@
    &&& data.metadata.tool_version@ == "1.92.0"@
    &&& data.metadata.project_roots@.len() == 1
    &&& data.metadata.project_roots@[0]@ == "file:///project"@
    &&& data.documents@.len() == 1
    &&& data.documents@[0].relative_path@ == "src/main.rs"@
    &&& data.documents@[0].language@ == "rust"@
    &&& data.documents@[0].symbol_count == 1
    &&& data.documents@[0].occurrence_count == 2
    &&& data.symbols@.len() == 1
    &&& data.symbols@[0].symbol@ == sample_symbol()
    &&& data.symbols@[0].documentation.deep_view() == Some("Main function"@)
    &&& data.symbols@[0].display_name.deep_view() == Some("main"@)
    &&& data.symbols@[0].symbol_kind@ == "function"@
    &&& data.symbols@[0].relationships@.len() == 0
    &&& data.occurrences@.len() == 1
    &&& data.occurrences@[0].document_path@ == "src/main.rs"@
    &&& data.occurrences@[0].symbol@ == sample_symbol()
    &&& data.occurrences@[0].range == (ScipRange {
        start_line: 1,
        start_character: 0,
        end_line: 1,
        end_character: 10,
    })
    &&& data.occurrences@[0].roles@.len() == 1
    &&& data.occurrences@[0].roles@[0]@ == "definition"@
    &&& data.occurrences@[0].syntax_kind@ == "function"@
}

impl ScipParser {
    /// A reader.
    pub fn new() -> (r: ScipParser) {
        ScipParser
    }

    /// Reads an index from its bytes. The bytes are not looked at yet: the
    /// answer is the sample index, whatever they are.
    pub fn parse_bytes(data: &[u8]) -> (r: Result<ScipParsedData, ScipError>)
        ensures
            r matches Ok(index) && is_sample_index(index),
    {
        ScipParser::parse_mock_data(data)
    }

    /// The sample index.
    pub fn parse_mock_data(_data: &[u8]) -> (r: Result<ScipParsedData, ScipError>)
        ensures
            r matches Ok(index) && is_sample_index(index),
    {
        let mut project_roots: Vec<String> = Vec::new();
        project_roots.push(String::from_str("file:///project"));
        let mut documents: Vec<ScipDocument> = Vec::new();
        documents.push(
            ScipDocument {
                relative_path: String::from_str("src/main.rs"),
                language: String::from_str("rust"),
                symbol_count: 1,
                occurrence_count: 2,
            },
        );
        let mut symbols: Vec<ScipSymbol> = Vec::new();
        symbols.push(
            ScipSymbol {
                symbol: String::from_str("rust-analyzer cargo test_project 0.1.0 main()"),
                documentation: Some(String::from_str("Main function")),
                display_name: Some(String::from_str("main")),
                symbol_kind: String::from_str("function"),
                relationships: Vec::new(),
            },
        );
        let mut roles: Vec<String> = Vec::new();
        roles.push(String::from_str("definition"));
        let mut occurrences: Vec<ScipOccurrence> = Vec::new();
        occurrences.push(
            ScipOccurrence {
                document_path: String::from_str("src/main.rs"),
                symbol: String::from_str("rust-analyzer cargo test_project 0.1.0 main()"),
                range: ScipRange { start_line: 1, start_character: 0, end_line: 1, end_character: 10 },
                roles,
                syntax_kind: String::from_str("function"),
            },
        );
        Ok(
            ScipParsedData {
                metadata: ScipMetadata {
                    version: String::from_str("0.1.0"),
                    tool_name: String::from_str("rust-analyzer"),
                    tool_version: String::from_str("1.92.0"),
                    project_roots,
                },
                documents,
                symbols,
                occurrences,
            },
        )
    }
}

impl Default for ScipParser {
    fn default() -> (r: ScipParser) {
        ScipParser::new()
    }
}

/// Reads an index from its bytes.
pub fn parse_scip_bytes(data: &[u8]) -> (r: Result<ScipParsedData, ScipError>)
    ensures
        r matches Ok(index) && is_sample_index(index),
{
    ScipParser::parse_bytes(data)
}

} // verus!
