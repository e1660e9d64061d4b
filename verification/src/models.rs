//! What a scan of one module yields, whatever the language: the module, its
//! symbols and the relations between them.
//!
//! Each of these has a JSON form, an object of its fields in the order in
//! which they are declared, from which it is read back.

use vstd::prelude::*;
use vstd::string::*;
use crate::json::{
    distinct_keys, json_value, lemma_lookup_entry, lemma_nesting_of_list,
    lemma_nesting_of_object, lemma_texts_round_trip, texts_from_json,
    texts_in, texts_json, texts_to_json, texts_view, Json, JsonValue,
};
use crate::records::entry;
use crate::text::str_eq;

verus! {

/// A module or file and what it imports.
#[derive(Debug, Clone)]
pub struct ModuleInfo {
    pub name: String,
    pub path: String,
    pub imports: Vec<String>,
}

/// A symbol of a module.
#[derive(Debug, Clone)]
pub struct Symbol {
    pub name: String,
    pub kind: String,
    pub signature: String,
    pub is_exported: bool,
    pub line: u32,
}

/// A relation between two symbols, by their names.
#[derive(Debug, Clone)]
pub struct Relation {
    pub from_name: String,
    pub to_name: String,
    pub kind: String,
}

/// All that a scan found in one module.
#[derive(Debug, Clone)]
pub struct ModuleAnalysis {
    pub info: ModuleInfo,
    pub symbols: Vec<Symbol>,
    pub relations: Vec<Relation>,
}

/// The mathematical value of a [`ModuleInfo`].
pub struct ModuleInfoView {
    pub name: Seq<char>,
    pub path: Seq<char>,
    pub imports: Seq<Seq<char>>,
}

impl View for ModuleInfo {
    type V = ModuleInfoView;

    open spec fn view(&self) -> ModuleInfoView {
        ModuleInfoView { name: self.name@, path: self.path@, imports: texts_view(self.imports@) }
    }
}

/// The mathematical value of a [`Symbol`].
pub struct SymbolView {
    pub name: Seq<char>,
    pub kind: Seq<char>,
    pub signature: Seq<char>,
    pub is_exported: bool,
    pub line: u32,
}

impl View for Symbol {
    type V = SymbolView;

    open spec fn view(&self) -> SymbolView {
        SymbolView {
            name: self.name@,
            kind: self.kind@,
            signature: self.signature@,
            is_exported: self.is_exported,
            line: self.line,
        }
    }
}

/// The mathematical value of a [`Relation`].
pub struct RelationView {
    pub from_name: Seq<char>,
    pub to_name: Seq<char>,
    pub kind: Seq<char>,
}

impl View for Relation {
    type V = RelationView;

    open spec fn view(&self) -> RelationView {
        RelationView { from_name: self.from_name@, to_name: self.to_name@, kind: self.kind@ }
    }
}

/// The values of a list of symbols.
pub open spec fn symbols_view(items: Seq<Symbol>) -> Seq<SymbolView> {
    Seq::new(items.len(), |i: int| items[i]@)
}

/// The values of a list of relations.
pub open spec fn relations_view(items: Seq<Relation>) -> Seq<RelationView> {
    Seq::new(items.len(), |i: int| items[i]@)
}

/// The mathematical value of a [`ModuleAnalysis`].
pub struct ModuleAnalysisView {
    pub info: ModuleInfoView,
    pub symbols: Seq<SymbolView>,
    pub relations: Seq<RelationView>,
}

impl View for ModuleAnalysis {
    type V = ModuleAnalysisView;

    open spec fn view(&self) -> ModuleAnalysisView {
        ModuleAnalysisView {
            info: self.info@,
            symbols: symbols_view(self.symbols@),
            relations: relations_view(self.relations@),
        }
    }
}

impl Symbol {
    /// Whether two symbols agree in every field.
    pub open spec fn same_as(self, other: Symbol) -> bool {
        &&& self.name@ == other.name@
        &&& self.kind@ == other.kind@
        &&& self.signature@ == other.signature@
        &&& self.is_exported == other.is_exported
        &&& self.line == other.line
    }
}

impl PartialEq for Symbol {
    fn eq(&self, other: &Symbol) -> (r: bool) {
        self.name == other.name && self.kind == other.kind && self.signature == other.signature
            && self.is_exported == other.is_exported && self.line == other.line
    }
}

impl vstd::std_specs::cmp::PartialEqSpecImpl for Symbol {
    open spec fn obeys_eq_spec() -> bool {
        true
    }

    open spec fn eq_spec(&self, other: &Symbol) -> bool {
        self.same_as(*other)
    }
}

impl Relation {
    /// Whether two relations agree in every field.
    pub open spec fn same_as(self, other: Relation) -> bool {
        &&& self.from_name@ == other.from_name@
        &&& self.to_name@ == other.to_name@
        &&& self.kind@ == other.kind@
    }
}

impl PartialEq for Relation {
    fn eq(&self, other: &Relation) -> (r: bool) {
        self.from_name == other.from_name && self.to_name == other.to_name && self.kind
            == other.kind
    }
}

impl vstd::std_specs::cmp::PartialEqSpecImpl for Relation {
    open spec fn obeys_eq_spec() -> bool {
        true
    }

    open spec fn eq_spec(&self, other: &Relation) -> bool {
        self.same_as(*other)
    }
}

/// Whether two lists hold the same texts in the same order.
fn same_texts(a: &Vec<String>, b: &Vec<String>) -> (r: bool)
    ensures
        r == (texts_view(a@) == texts_view(b@)),
{
    if a.len() != b.len() {
        assert(texts_view(a@).len() != texts_view(b@).len());
        return false;
    }
    let mut i: usize = 0;
    while i < a.len()
        invariant
            i <= a.len(),
            a.len() == b.len(),
            forall|j: int| 0 <= j < i ==> texts_view(a@)[j] == texts_view(b@)[j],
        decreases a.len() - i,
    {
        if !(str_eq(a[i].as_str(), b[i].as_str())) {
            assert(texts_view(a@)[i as int] != texts_view(b@)[i as int]);
            return false;
        }
        i += 1;
    }
    assert(texts_view(a@) =~= texts_view(b@));
    true
}

/// Whether two lists hold the same symbols in the same order.
fn same_symbols(a: &Vec<Symbol>, b: &Vec<Symbol>) -> (r: bool)
    ensures
        r == (symbols_view(a@) == symbols_view(b@)),
{
    if a.len() != b.len() {
        assert(symbols_view(a@).len() != symbols_view(b@).len());
        return false;
    }
    let mut i: usize = 0;
    while i < a.len()
        invariant
            i <= a.len(),
            a.len() == b.len(),
            forall|j: int| 0 <= j < i ==> symbols_view(a@)[j] == symbols_view(b@)[j],
        decreases a.len() - i,
    {
        if !(a[i] == b[i]) {
            assert(symbols_view(a@)[i as int] != symbols_view(b@)[i as int]);
            return false;
        }
        i += 1;
    }
    assert(symbols_view(a@) =~= symbols_view(b@));
    true
}

/// Whether two lists hold the same relations in the same order.
fn same_relations(a: &Vec<Relation>, b: &Vec<Relation>) -> (r: bool)
    ensures
        r == (relations_view(a@) == relations_view(b@)),
{
    if a.len() != b.len() {
        assert(relations_view(a@).len() != relations_view(b@).len());
        return false;
    }
    let mut i: usize = 0;
    while i < a.len()
        invariant
            i <= a.len(),
            a.len() == b.len(),
            forall|j: int| 0 <= j < i ==> relations_view(a@)[j] == relations_view(b@)[j],
        decreases a.len() - i,
    {
        if !(a[i] == b[i]) {
            assert(relations_view(a@)[i as int] != relations_view(b@)[i as int]);
            return false;
        }
        i += 1;
    }
    assert(relations_view(a@) =~= relations_view(b@));
    true
}

impl ModuleInfo {
    /// Whether two modules agree in every field.
    pub open spec fn same_as(self, other: ModuleInfo) -> bool {
        &&& self.name@ == other.name@
        &&& self.path@ == other.path@
        &&& texts_view(self.imports@) == texts_view(other.imports@)
    }
}

impl PartialEq for ModuleInfo {
    fn eq(&self, other: &ModuleInfo) -> (r: bool) {
        self.name == other.name && self.path == other.path && same_texts(
            &self.imports,
            &other.imports,
        )
    }
}

impl vstd::std_specs::cmp::PartialEqSpecImpl for ModuleInfo {
    open spec fn obeys_eq_spec() -> bool {
        true
    }

    open spec fn eq_spec(&self, other: &ModuleInfo) -> bool {
        self.same_as(*other)
    }
}

impl ModuleAnalysis {
    /// Whether two analyses agree in their module, their symbols and their
    /// relations.
    pub open spec fn same_as(self, other: ModuleAnalysis) -> bool {
        &&& self.info.same_as(other.info)
        &&& symbols_view(self.symbols@) == symbols_view(other.symbols@)
        &&& relations_view(self.relations@) == relations_view(other.relations@)
    }
}

impl PartialEq for ModuleAnalysis {
    fn eq(&self, other: &ModuleAnalysis) -> (r: bool) {
        self.info == other.info && same_symbols(&self.symbols, &other.symbols) && same_relations(
            &self.relations,
            &other.relations,
        )
    }
}

impl vstd::std_specs::cmp::PartialEqSpecImpl for ModuleAnalysis {
    open spec fn obeys_eq_spec() -> bool {
        true
    }

    open spec fn eq_spec(&self, other: &ModuleAnalysis) -> bool {
        self.same_as(*other)
    }
}

impl ModuleInfoView {
    /// The JSON form of the module.
    pub open spec fn to_json(self) -> JsonValue {
        JsonValue::Object(
            seq![
                ("name"@, JsonValue::Text(self.name)),
                ("path"@, JsonValue::Text(self.path)),
                ("imports"@, texts_json(self.imports)),
            ],
        )
    }

    /// The module that a JSON value holds: an object with a `name` and a
    /// `path` that are text and `imports` that are a list of texts. Other
    /// entries are not looked at.
    pub open spec fn from_json(v: JsonValue) -> Option<ModuleInfoView> {
        if v.text_at("name"@) is Some && v.text_at("path"@) is Some && v.field("imports"@) is Some
            && texts_in(v.field("imports"@)->0) is Some {
            Some(
                ModuleInfoView {
                    name: v.text_at("name"@)->0,
                    path: v.text_at("path"@)->0,
                    imports: texts_in(v.field("imports"@)->0)->0,
                },
            )
        } else {
            None
        }
    }

    /// A module is read back from its JSON form, which can be written and
    /// read as text without loss.
    pub proof fn lemma_round_trip(self)
        ensures
            ModuleInfoView::from_json(self.to_json()) == Some(self),
            self.to_json().is_canonical(),
            self.to_json().nesting_within(2),
    {
        reveal_strlit("name");
        reveal_strlit("path");
        reveal_strlit("imports");
        let fields = self.to_json()->Object_0;
        assert(fields.len() == 3);
        assert(fields[0].0[0] == 'n');
        assert(fields[1].0[0] == 'p');
        assert(fields[2].0[0] == 'i');
        assert(distinct_keys(fields));
        lemma_lookup_entry(fields, 0);
        lemma_lookup_entry(fields, 1);
        lemma_lookup_entry(fields, 2);
        lemma_texts_round_trip(self.imports);
        reveal_with_fuel(JsonValue::is_canonical, 2);
        reveal_with_fuel(JsonValue::nesting_within, 2);
    }
}

impl ModuleInfo {
    /// The JSON form of the module.
    pub fn to_json(&self) -> (r: Json)
        ensures
            r@ == self@.to_json(),
    {
        let mut fields: Vec<(String, Json)> = Vec::new();
        fields.push(entry("name", Json::Text(self.name.clone())));
        fields.push(entry("path", Json::Text(self.path.clone())));
        fields.push(entry("imports", texts_to_json(&self.imports)));
        let r = Json::Object(fields);
        proof {
            reveal_with_fuel(json_value, 2);
            assert(r@->Object_0 =~= self@.to_json()->Object_0);
        }
        r
    }

    /// The module that a JSON value holds, if it holds one.
    pub fn from_json(v: &Json) -> (r: Option<ModuleInfo>)
        ensures
            match r {
                Some(info) => ModuleInfoView::from_json(v@) == Some(info@),
                None => ModuleInfoView::from_json(v@) is None,
            },
    {
        let name = v.text_at("name");
        let path = v.text_at("path");
        let imports = match v.get("imports") {
            Some(list) => texts_from_json(list),
            None => None,
        };
        match (name, path, imports) {
            (Some(name), Some(path), Some(imports)) => Some(ModuleInfo { name, path, imports }),
            _ => None,
        }
    }
}

impl SymbolView {
    /// The JSON form of the symbol.
    pub open spec fn to_json(self) -> JsonValue {
        JsonValue::Object(
            seq![
                ("name"@, JsonValue::Text(self.name)),
                ("kind"@, JsonValue::Text(self.kind)),
                ("signature"@, JsonValue::Text(self.signature)),
                ("is_exported"@, JsonValue::Bool(self.is_exported)),
                ("line"@, JsonValue::Unsigned(self.line as int)),
            ],
        )
    }

    /// The symbol that a JSON value holds: an object with a `name`, a `kind`
    /// and a `signature` that are text, an `is_exported` that is a truth
    /// value and a `line` that is a whole number of 32 bits. Other entries
    /// are not looked at.
    pub open spec fn from_json(v: JsonValue) -> Option<SymbolView> {
        if v.text_at("name"@) is Some && v.text_at("kind"@) is Some && v.text_at("signature"@) is Some
            && v.bool_at("is_exported"@) is Some && v.unsigned_at("line"@, u32::MAX as int) is Some {
            Some(
                SymbolView {
                    name: v.text_at("name"@)->0,
                    kind: v.text_at("kind"@)->0,
                    signature: v.text_at("signature"@)->0,
                    is_exported: v.bool_at("is_exported"@)->0,
                    line: (v.unsigned_at("line"@, u32::MAX as int)->0) as u32,
                },
            )
        } else {
            None
        }
    }

    /// A symbol is read back from its JSON form, which can be written and
    /// read as text without loss.
    pub proof fn lemma_round_trip(self)
        ensures
            SymbolView::from_json(self.to_json()) == Some(self),
            self.to_json().is_canonical(),
            self.to_json().nesting_within(1),
    {
        reveal_strlit("name");
        reveal_strlit("kind");
        reveal_strlit("signature");
        reveal_strlit("is_exported");
        reveal_strlit("line");
        let fields = self.to_json()->Object_0;
        assert(fields.len() == 5);
        assert(fields[0].0[0] == 'n');
        assert(fields[1].0[0] == 'k');
        assert(fields[2].0[0] == 's');
        assert(fields[3].0[0] == 'i');
        assert(fields[4].0[0] == 'l');
        assert(distinct_keys(fields));
        lemma_lookup_entry(fields, 0);
        lemma_lookup_entry(fields, 1);
        lemma_lookup_entry(fields, 2);
        lemma_lookup_entry(fields, 3);
        lemma_lookup_entry(fields, 4);
        reveal_with_fuel(JsonValue::is_canonical, 2);
        reveal_with_fuel(JsonValue::nesting_within, 2);
    }
}

impl Symbol {
    /// The JSON form of the symbol.
    pub fn to_json(&self) -> (r: Json)
        ensures
            r@ == self@.to_json(),
    {
        let mut fields: Vec<(String, Json)> = Vec::new();
        fields.push(entry("name", Json::Text(self.name.clone())));
        fields.push(entry("kind", Json::Text(self.kind.clone())));
        fields.push(entry("signature", Json::Text(self.signature.clone())));
        fields.push(entry("is_exported", Json::Bool(self.is_exported)));
        fields.push(entry("line", Json::Unsigned(self.line as u64)));
        let r = Json::Object(fields);
        proof {
            reveal_with_fuel(json_value, 2);
            assert(r@->Object_0 =~= self@.to_json()->Object_0);
        }
        r
    }

    /// The symbol that a JSON value holds, if it holds one.
    pub fn from_json(v: &Json) -> (r: Option<Symbol>)
        ensures
            match r {
                Some(symbol) => SymbolView::from_json(v@) == Some(symbol@),
                None => SymbolView::from_json(v@) is None,
            },
    {
        let name = v.text_at("name");
        let kind = v.text_at("kind");
        let signature = v.text_at("signature");
        let is_exported = v.bool_at("is_exported");
        let line = v.unsigned_at("line", u32::MAX as u64);
        match (name, kind, signature, is_exported, line) {
            (Some(name), Some(kind), Some(signature), Some(is_exported), Some(line)) => Some(
                Symbol { name, kind, signature, is_exported, line: line as u32 },
            ),
            _ => None,
        }
    }
}

impl RelationView {
    /// The JSON form of the relation.
    pub open spec fn to_json(self) -> JsonValue {
        JsonValue::Object(
            seq![
                ("from_name"@, JsonValue::Text(self.from_name)),
                ("to_name"@, JsonValue::Text(self.to_name)),
                ("kind"@, JsonValue::Text(self.kind)),
            ],
        )
    }

    /// The relation that a JSON value holds: an object with a `from_name`, a
    /// `to_name` and a `kind` that are text. Other entries are not looked at.
    pub open spec fn from_json(v: JsonValue) -> Option<RelationView> {
        if v.text_at("from_name"@) is Some && v.text_at("to_name"@) is Some && v.text_at("kind"@) is Some {
            Some(
                RelationView {
                    from_name: v.text_at("from_name"@)->0,
                    to_name: v.text_at("to_name"@)->0,
                    kind: v.text_at("kind"@)->0,
                },
            )
        } else {
            None
        }
    }

    /// A relation is read back from its JSON form, which can be written and
    /// read as text without loss.
    pub proof fn lemma_round_trip(self)
        ensures
            RelationView::from_json(self.to_json()) == Some(self),
            self.to_json().is_canonical(),
            self.to_json().nesting_within(1),
    {
        reveal_strlit("from_name");
        reveal_strlit("to_name");
        reveal_strlit("kind");
        let fields = self.to_json()->Object_0;
        assert(fields.len() == 3);
        assert(fields[0].0[0] == 'f');
        assert(fields[1].0[0] == 't');
        assert(fields[2].0[0] == 'k');
        assert(distinct_keys(fields));
        lemma_lookup_entry(fields, 0);
        lemma_lookup_entry(fields, 1);
        lemma_lookup_entry(fields, 2);
        reveal_with_fuel(JsonValue::is_canonical, 2);
        reveal_with_fuel(JsonValue::nesting_within, 2);
    }
}

impl Relation {
    /// The JSON form of the relation.
    pub fn to_json(&self) -> (r: Json)
        ensures
            r@ == self@.to_json(),
    {
        let mut fields: Vec<(String, Json)> = Vec::new();
        fields.push(entry("from_name", Json::Text(self.from_name.clone())));
        fields.push(entry("to_name", Json::Text(self.to_name.clone())));
        fields.push(entry("kind", Json::Text(self.kind.clone())));
        let r = Json::Object(fields);
        proof {
            reveal_with_fuel(json_value, 2);
            assert(r@->Object_0 =~= self@.to_json()->Object_0);
        }
        r
    }

    /// The relation that a JSON value holds, if it holds one.
    pub fn from_json(v: &Json) -> (r: Option<Relation>)
        ensures
            match r {
                Some(relation) => RelationView::from_json(v@) == Some(relation@),
                None => RelationView::from_json(v@) is None,
            },
    {
        match (v.text_at("from_name"), v.text_at("to_name"), v.text_at("kind")) {
            (Some(from_name), Some(to_name), Some(kind)) => Some(Relation { from_name, to_name, kind }),
            _ => None,
        }
    }
}

/// The JSON form of a list of symbols.
pub open spec fn symbol_list_json(items: Seq<SymbolView>) -> JsonValue {
    JsonValue::List(Seq::new(items.len(), |i: int| items[i].to_json()))
}

/// The symbols that a JSON list holds: `None` where the value is no list or
/// one of its items holds no symbol.
pub open spec fn symbol_list_in(v: JsonValue) -> Option<Seq<SymbolView>> {
    match v {
        JsonValue::List(items) => if forall|i: int|
            0 <= i < items.len() ==> SymbolView::from_json(#[trigger] items[i]) is Some {
            Some(Seq::new(items.len(), |i: int| SymbolView::from_json(items[i])->0))
        } else {
            None
        },
        _ => None,
    }
}

/// A list of symbols is read back from its JSON form, which can be written
/// and read as text without loss.
pub proof fn lemma_symbol_list_round_trip(items: Seq<SymbolView>)
    ensures
        symbol_list_in(symbol_list_json(items)) == Some(items),
        symbol_list_json(items).is_canonical(),
        symbol_list_json(items).nesting_within(2),
{
    let stored = symbol_list_json(items)->List_0;
    assert forall|i: int| 0 <= i < stored.len() implies SymbolView::from_json(#[trigger] stored[i])
        == Some(items[i]) && stored[i].is_canonical() && stored[i].nesting_within(1) by {
        items[i].lemma_round_trip();
    }
    assert(symbol_list_in(symbol_list_json(items))->0 =~= items);
    lemma_nesting_of_list(stored, 2);
}

/// The JSON form of a list of symbols.
pub fn symbol_list_to_json(items: &Vec<Symbol>) -> (r: Json)
    ensures
        r@ == symbol_list_json(symbols_view(items@)),
{
    let mut out: Vec<Json> = Vec::new();
    let mut i: usize = 0;
    while i < items.len()
        invariant
            i <= items.len(),
            out@.len() == i,
            forall|j: int| 0 <= j < i ==> json_value(#[trigger] out@[j]) == items@[j]@.to_json(),
        decreases items.len() - i,
    {
        out.push(items[i].to_json());
        i += 1;
    }
    let r = Json::List(out);
    proof {
        reveal_with_fuel(json_value, 2);
        assert(r@->List_0 =~= symbol_list_json(symbols_view(items@))->List_0);
    }
    r
}

/// The symbols that a JSON list holds, if it holds symbols.
pub fn symbol_list_from_json(v: &Json) -> (r: Option<Vec<Symbol>>)
    ensures
        match r {
            Some(items) => symbol_list_in(v@) == Some(symbols_view(items@)),
            None => symbol_list_in(v@) is None,
        },
{
    match v {
        Json::List(items) => {
            let ghost all = v@->List_0;
            proof {
                reveal_with_fuel(json_value, 2);
                assert(all.len() == items.len());
            }
            let mut out: Vec<Symbol> = Vec::new();
            let mut i: usize = 0;
            while i < items.len()
                invariant
                    i <= items.len(),
                    v@ == JsonValue::List(all),
                    all.len() == items.len(),
                    forall|j: int| 0 <= j < items.len() ==> all[j] == json_value(#[trigger] items[j]),
                    out@.len() == i,
                    forall|j: int|
                        0 <= j < i ==> SymbolView::from_json(all[j]) == Some((#[trigger] out@[j])@),
                decreases items.len() - i,
            {
                match Symbol::from_json(&items[i]) {
                    Some(item) => {
                        out.push(item);
                    },
                    None => {
                        assert(SymbolView::from_json(all[i as int]) is None);
                        return None;
                    },
                }
                i += 1;
            }
            proof {
                assert forall|j: int| 0 <= j < all.len() implies SymbolView::from_json(
                    #[trigger] all[j],
                ) is Some by {
                    assert(SymbolView::from_json(all[j]) == Some(out@[j]@));
                }
                assert forall|j: int| 0 <= j < all.len() implies SymbolView::from_json(all[j])->0
                    == symbols_view(out@)[j] by {
                    assert(SymbolView::from_json(all[j]) == Some(out@[j]@));
                }
                assert(symbol_list_in(v@)->0 =~= symbols_view(out@));
            }
            Some(out)
        },
        _ => None,
    }
}

/// The JSON form of a list of relations.
pub open spec fn relation_list_json(items: Seq<RelationView>) -> JsonValue {
    JsonValue::List(Seq::new(items.len(), |i: int| items[i].to_json()))
}

/// The relations that a JSON list holds: `None` where the value is no list or
/// one of its items holds no relation.
pub open spec fn relation_list_in(v: JsonValue) -> Option<Seq<RelationView>> {
    match v {
        JsonValue::List(items) => if forall|i: int|
            0 <= i < items.len() ==> RelationView::from_json(#[trigger] items[i]) is Some {
            Some(Seq::new(items.len(), |i: int| RelationView::from_json(items[i])->0))
        } else {
            None
        },
        _ => None,
    }
}

/// A list of relations is read back from its JSON form, which can be written
/// and read as text without loss.
pub proof fn lemma_relation_list_round_trip(items: Seq<RelationView>)
    ensures
        relation_list_in(relation_list_json(items)) == Some(items),
        relation_list_json(items).is_canonical(),
        relation_list_json(items).nesting_within(2),
{
    let stored = relation_list_json(items)->List_0;
    assert forall|i: int| 0 <= i < stored.len() implies RelationView::from_json(#[trigger] stored[i])
        == Some(items[i]) && stored[i].is_canonical() && stored[i].nesting_within(1) by {
        items[i].lemma_round_trip();
    }
    assert(relation_list_in(relation_list_json(items))->0 =~= items);
    lemma_nesting_of_list(stored, 2);
}

/// The JSON form of a list of relations.
pub fn relation_list_to_json(items: &Vec<Relation>) -> (r: Json)
    ensures
        r@ == relation_list_json(relations_view(items@)),
{
    let mut out: Vec<Json> = Vec::new();
    let mut i: usize = 0;
    while i < items.len()
        invariant
            i <= items.len(),
            out@.len() == i,
            forall|j: int| 0 <= j < i ==> json_value(#[trigger] out@[j]) == items@[j]@.to_json(),
        decreases items.len() - i,
    {
        out.push(items[i].to_json());
        i += 1;
    }
    let r = Json::List(out);
    proof {
        reveal_with_fuel(json_value, 2);
        assert(r@->List_0 =~= relation_list_json(relations_view(items@))->List_0);
    }
    r
}

/// The relations that a JSON list holds, if it holds relations.
pub fn relation_list_from_json(v: &Json) -> (r: Option<Vec<Relation>>)
    ensures
        match r {
            Some(items) => relation_list_in(v@) == Some(relations_view(items@)),
            None => relation_list_in(v@) is None,
        },
{
    match v {
        Json::List(items) => {
            let ghost all = v@->List_0;
            proof {
                reveal_with_fuel(json_value, 2);
                assert(all.len() == items.len());
            }
            let mut out: Vec<Relation> = Vec::new();
            let mut i: usize = 0;
            while i < items.len()
                invariant
                    i <= items.len(),
                    v@ == JsonValue::List(all),
                    all.len() == items.len(),
                    forall|j: int| 0 <= j < items.len() ==> all[j] == json_value(#[trigger] items[j]),
                    out@.len() == i,
                    forall|j: int|
                        0 <= j < i ==> RelationView::from_json(all[j]) == Some((#[trigger] out@[j])@),
                decreases items.len() - i,
            {
                match Relation::from_json(&items[i]) {
                    Some(item) => {
                        out.push(item);
                    },
                    None => {
                        assert(RelationView::from_json(all[i as int]) is None);
                        return None;
                    },
                }
                i += 1;
            }
            proof {
                assert forall|j: int| 0 <= j < all.len() implies RelationView::from_json(
                    #[trigger] all[j],
                ) is Some by {
                    assert(RelationView::from_json(all[j]) == Some(out@[j]@));
                }
                assert forall|j: int| 0 <= j < all.len() implies RelationView::from_json(all[j])->0
                    == relations_view(out@)[j] by {
                    assert(RelationView::from_json(all[j]) == Some(out@[j]@));
                }
                assert(relation_list_in(v@)->0 =~= relations_view(out@));
            }
            Some(out)
        },
        _ => None,
    }
}

impl ModuleAnalysisView {
    /// The JSON form of the analysis.
    pub open spec fn to_json(self) -> JsonValue {
        JsonValue::Object(
            seq![
                ("info"@, self.info.to_json()),
                ("symbols"@, symbol_list_json(self.symbols)),
                ("relations"@, relation_list_json(self.relations)),
            ],
        )
    }

    /// The analysis that a JSON value holds: an object with an `info` that
    /// holds a module, `symbols` that hold symbols and `relations` that hold
    /// relations. Other entries are not looked at.
    pub open spec fn from_json(v: JsonValue) -> Option<ModuleAnalysisView> {
        if v.field("info"@) is Some && ModuleInfoView::from_json(v.field("info"@)->0) is Some
            && v.field("symbols"@) is Some && symbol_list_in(v.field("symbols"@)->0) is Some
            && v.field("relations"@) is Some && relation_list_in(v.field("relations"@)->0) is Some {
            Some(
                ModuleAnalysisView {
                    info: ModuleInfoView::from_json(v.field("info"@)->0)->0,
                    symbols: symbol_list_in(v.field("symbols"@)->0)->0,
                    relations: relation_list_in(v.field("relations"@)->0)->0,
                },
            )
        } else {
            None
        }
    }

    /// An analysis is read back from its JSON form, which can be written and
    /// read as text without loss.
    pub proof fn lemma_round_trip(self)
        ensures
            ModuleAnalysisView::from_json(self.to_json()) == Some(self),
            self.to_json().is_canonical(),
            self.to_json().nesting_within(3),
    {
        reveal_strlit("info");
        reveal_strlit("symbols");
        reveal_strlit("relations");
        let fields = self.to_json()->Object_0;
        assert(fields.len() == 3);
        assert(fields[0].0[0] == 'i');
        assert(fields[1].0[0] == 's');
        assert(fields[2].0[0] == 'r');
        assert(distinct_keys(fields));
        lemma_lookup_entry(fields, 0);
        lemma_lookup_entry(fields, 1);
        lemma_lookup_entry(fields, 2);
        self.info.lemma_round_trip();
        lemma_symbol_list_round_trip(self.symbols);
        lemma_relation_list_round_trip(self.relations);
        lemma_nesting_of_object(fields, 3);
    }
}

impl ModuleAnalysis {
    /// The JSON form of the analysis.
    pub fn to_json(&self) -> (r: Json)
        ensures
            r@ == self@.to_json(),
    {
        let mut fields: Vec<(String, Json)> = Vec::new();
        fields.push(entry("info", self.info.to_json()));
        fields.push(entry("symbols", symbol_list_to_json(&self.symbols)));
        fields.push(entry("relations", relation_list_to_json(&self.relations)));
        let r = Json::Object(fields);
        proof {
            reveal_with_fuel(json_value, 2);
            assert(r@->Object_0 =~= self@.to_json()->Object_0);
        }
        r
    }

    /// The analysis that a JSON value holds, if it holds one.
    pub fn from_json(v: &Json) -> (r: Option<ModuleAnalysis>)
        ensures
            match r {
                Some(analysis) => ModuleAnalysisView::from_json(v@) == Some(analysis@),
                None => ModuleAnalysisView::from_json(v@) is None,
            },
    {
        let info = match v.get("info") {
            Some(value) => ModuleInfo::from_json(value),
            None => None,
        };
        let symbols = match v.get("symbols") {
            Some(list) => symbol_list_from_json(list),
            None => None,
        };
        let relations = match v.get("relations") {
            Some(list) => relation_list_from_json(list),
            None => None,
        };
        match (info, symbols, relations) {
            (Some(info), Some(symbols), Some(relations)) => Some(
                ModuleAnalysis { info, symbols, relations },
            ),
            _ => None,
        }
    }
}

} // verus!
