//! The records of the symbol graph and their stored form.
//!
//! Every record is stored as one JSON object whose entries are the record's
//! fields, in the order in which the record declares them. A field that may
//! be absent is written as `null`.

use vstd::prelude::*;
use vstd::string::*;
use crate::json::{distinct_keys, json_value, lemma_lookup_entry, Json, JsonValue};

verus! {

/// One entry of a JSON object.
pub fn entry(key: &str, value: Json) -> (r: (String, Json))
    ensures
        r.0@ == key@,
        r.1 == value,
{
    (String::from_str(key), value)
}

/// `null` for no text, else the text.
pub open spec fn optional_text(text: Option<Seq<char>>) -> JsonValue {
    match text {
        Some(s) => JsonValue::Text(s),
        None => JsonValue::Null,
    }
}

/// A root analysis unit: a source tree with the notes later made on it.
#[derive(Debug, Clone)]
pub struct Project {
    pub id: String,
    pub name: String,
    pub root_path: String,
    pub description: Option<String>,
    pub purpose: Option<String>,
    pub structure: Option<String>,
    pub dependencies: Option<String>,
    pub created_at: String,
}

/// The mathematical value of a [`Project`].
pub struct ProjectView {
    pub id: Seq<char>,
    pub name: Seq<char>,
    pub root_path: Seq<char>,
    pub description: Option<Seq<char>>,
    pub purpose: Option<Seq<char>>,
    pub structure: Option<Seq<char>>,
    pub dependencies: Option<Seq<char>>,
    pub created_at: Seq<char>,
}

impl View for Project {
    type V = ProjectView;

    open spec fn view(&self) -> ProjectView {
        ProjectView {
            id: self.id@,
            name: self.name@,
            root_path: self.root_path@,
            description: self.description.deep_view(),
            purpose: self.purpose.deep_view(),
            structure: self.structure.deep_view(),
            dependencies: self.dependencies.deep_view(),
            created_at: self.created_at@,
        }
    }
}

impl ProjectView {
    /// The stored form of the record.
    pub open spec fn to_json(self) -> JsonValue {
        JsonValue::Object(
            seq![
                ("id"@, JsonValue::Text(self.id)),
                ("name"@, JsonValue::Text(self.name)),
                ("root_path"@, JsonValue::Text(self.root_path)),
                ("description"@, optional_text(self.description)),
                ("purpose"@, optional_text(self.purpose)),
                ("structure"@, optional_text(self.structure)),
                ("dependencies"@, optional_text(self.dependencies)),
                ("created_at"@, JsonValue::Text(self.created_at)),
            ],
        )
    }

    /// The record that a stored form holds: every field that must be there is
    /// there with the right kind of value, and a field that may be absent is
    /// text, `null` or left out. Other entries are not looked at.
    pub open spec fn from_json(v: JsonValue) -> Option<ProjectView> {
        if v.text_at("id"@) is Some
            && v.text_at("name"@) is Some
            && v.text_at("root_path"@) is Some
            && v.optional_text_at("description"@) is Some
            && v.optional_text_at("purpose"@) is Some
            && v.optional_text_at("structure"@) is Some
            && v.optional_text_at("dependencies"@) is Some
            && v.text_at("created_at"@) is Some {
            Some(
                ProjectView {
                    id: v.text_at("id"@)->0,
                    name: v.text_at("name"@)->0,
                    root_path: v.text_at("root_path"@)->0,
                    description: v.optional_text_at("description"@)->0,
                    purpose: v.optional_text_at("purpose"@)->0,
                    structure: v.optional_text_at("structure"@)->0,
                    dependencies: v.optional_text_at("dependencies"@)->0,
                    created_at: v.text_at("created_at"@)->0,
                },
            )
        } else {
            None
        }
    }

    /// A record's stored form reads back as the record, and can be written
    /// and read as text without loss.
    pub proof fn lemma_round_trip(self)
        ensures
            ProjectView::from_json(self.to_json()) == Some(self),
            self.to_json().is_canonical(),
            self.to_json().nesting_within(3),
    {
        reveal_strlit("id");
        reveal_strlit("name");
        reveal_strlit("root_path");
        reveal_strlit("description");
        reveal_strlit("purpose");
        reveal_strlit("structure");
        reveal_strlit("dependencies");
        reveal_strlit("created_at");
        let fields = self.to_json()->Object_0;
        assert(fields.len() == 8);
        assert(fields[0].0.len() == 2);
        assert(fields[1].0.len() == 4);
        assert(fields[2].0.len() == 9);
        assert(fields[3].0.len() == 11);
        assert(fields[4].0.len() == 7);
        assert(fields[5].0.len() == 9);
        assert(fields[6].0.len() == 12);
        assert(fields[7].0.len() == 10);
        assert(fields[2].0[0] != fields[5].0[0]);
        assert(distinct_keys(fields));
        lemma_lookup_entry(fields, 0);
        lemma_lookup_entry(fields, 1);
        lemma_lookup_entry(fields, 2);
        lemma_lookup_entry(fields, 3);
        lemma_lookup_entry(fields, 4);
        lemma_lookup_entry(fields, 5);
        lemma_lookup_entry(fields, 6);
        lemma_lookup_entry(fields, 7);
        reveal_with_fuel(JsonValue::is_canonical, 2);
        reveal_with_fuel(JsonValue::nesting_within, 2);
        crate::json::lemma_nesting_grows(self.to_json(), 1, 3);
    }
}

impl Project {
    /// The stored form of the record.
    pub fn to_json(&self) -> (r: Json)
        ensures
            r@ == self@.to_json(),
    {
        let mut fields: Vec<(String, Json)> = Vec::new();
        fields.push(entry("id", Json::Text(self.id.clone())));
        fields.push(entry("name", Json::Text(self.name.clone())));
        fields.push(entry("root_path", Json::Text(self.root_path.clone())));
        fields.push(entry("description", Json::from_optional_text(&self.description)));
        fields.push(entry("purpose", Json::from_optional_text(&self.purpose)));
        fields.push(entry("structure", Json::from_optional_text(&self.structure)));
        fields.push(entry("dependencies", Json::from_optional_text(&self.dependencies)));
        fields.push(entry("created_at", Json::Text(self.created_at.clone())));
        let r = Json::Object(fields);
        proof {
            reveal_with_fuel(json_value, 2);
            assert(r@->Object_0 =~= self@.to_json()->Object_0);
        }
        r
    }

    /// The record that a stored form holds, if it holds one.
    pub fn from_json(v: &Json) -> (r: Option<Project>)
        ensures
            match r {
                Some(record) => ProjectView::from_json(v@) == Some(record@),
                None => ProjectView::from_json(v@) is None,
            },
    {
        let id = v.text_at("id");
        let name = v.text_at("name");
        let root_path = v.text_at("root_path");
        let description = v.optional_text_at("description");
        let purpose = v.optional_text_at("purpose");
        let structure = v.optional_text_at("structure");
        let dependencies = v.optional_text_at("dependencies");
        let created_at = v.text_at("created_at");
        match (id, name, root_path, description, purpose, structure, dependencies, created_at) {
            (Some(id), Some(name), Some(root_path), Some(description), Some(purpose), Some(structure), Some(dependencies), Some(created_at)) => Some(Project { id, name, root_path, description, purpose, structure, dependencies, created_at }),
            _ => None,
        }
    }
}

/// A named compilation or import unit.
#[derive(Debug, Clone)]
pub struct Module {
    pub id: String,
    pub project_id: String,
    pub name: String,
    pub kind: String,
    pub path: Option<String>,
}

/// The mathematical value of a [`Module`].
pub struct ModuleView {
    pub id: Seq<char>,
    pub project_id: Seq<char>,
    pub name: Seq<char>,
    pub kind: Seq<char>,
    pub path: Option<Seq<char>>,
}

impl View for Module {
    type V = ModuleView;

    open spec fn view(&self) -> ModuleView {
        ModuleView {
            id: self.id@,
            project_id: self.project_id@,
            name: self.name@,
            kind: self.kind@,
            path: self.path.deep_view(),
        }
    }
}

impl ModuleView {
    /// The stored form of the record.
    pub open spec fn to_json(self) -> JsonValue {
        JsonValue::Object(
            seq![
                ("id"@, JsonValue::Text(self.id)),
                ("project_id"@, JsonValue::Text(self.project_id)),
                ("name"@, JsonValue::Text(self.name)),
                ("kind"@, JsonValue::Text(self.kind)),
                ("path"@, optional_text(self.path)),
            ],
        )
    }

    /// The record that a stored form holds: every field that must be there is
    /// there with the right kind of value, and a field that may be absent is
    /// text, `null` or left out. Other entries are not looked at.
    pub open spec fn from_json(v: JsonValue) -> Option<ModuleView> {
        if v.text_at("id"@) is Some
            && v.text_at("project_id"@) is Some
            && v.text_at("name"@) is Some
            && v.text_at("kind"@) is Some
            && v.optional_text_at("path"@) is Some {
            Some(
                ModuleView {
                    id: v.text_at("id"@)->0,
                    project_id: v.text_at("project_id"@)->0,
                    name: v.text_at("name"@)->0,
                    kind: v.text_at("kind"@)->0,
                    path: v.optional_text_at("path"@)->0,
                },
            )
        } else {
            None
        }
    }

    /// A record's stored form reads back as the record, and can be written
    /// and read as text without loss.
    pub proof fn lemma_round_trip(self)
        ensures
            ModuleView::from_json(self.to_json()) == Some(self),
            self.to_json().is_canonical(),
            self.to_json().nesting_within(3),
    {
        reveal_strlit("id");
        reveal_strlit("project_id");
        reveal_strlit("name");
        reveal_strlit("kind");
        reveal_strlit("path");
        let fields = self.to_json()->Object_0;
        assert(fields.len() == 5);
        assert(fields[0].0.len() == 2);
        assert(fields[1].0.len() == 10);
        assert(fields[2].0.len() == 4);
        assert(fields[3].0.len() == 4);
        assert(fields[4].0.len() == 4);
        assert(fields[2].0[0] != fields[3].0[0]);
        assert(fields[2].0[0] != fields[4].0[0]);
        assert(fields[3].0[0] != fields[4].0[0]);
        assert(distinct_keys(fields));
        lemma_lookup_entry(fields, 0);
        lemma_lookup_entry(fields, 1);
        lemma_lookup_entry(fields, 2);
        lemma_lookup_entry(fields, 3);
        lemma_lookup_entry(fields, 4);
        reveal_with_fuel(JsonValue::is_canonical, 2);
        reveal_with_fuel(JsonValue::nesting_within, 2);
        crate::json::lemma_nesting_grows(self.to_json(), 1, 3);
    }
}

impl Module {
    /// The stored form of the record.
    pub fn to_json(&self) -> (r: Json)
        ensures
            r@ == self@.to_json(),
    {
        let mut fields: Vec<(String, Json)> = Vec::new();
        fields.push(entry("id", Json::Text(self.id.clone())));
        fields.push(entry("project_id", Json::Text(self.project_id.clone())));
        fields.push(entry("name", Json::Text(self.name.clone())));
        fields.push(entry("kind", Json::Text(self.kind.clone())));
        fields.push(entry("path", Json::from_optional_text(&self.path)));
        let r = Json::Object(fields);
        proof {
            reveal_with_fuel(json_value, 2);
            assert(r@->Object_0 =~= self@.to_json()->Object_0);
        }
        r
    }

    /// The record that a stored form holds, if it holds one.
    pub fn from_json(v: &Json) -> (r: Option<Module>)
        ensures
            match r {
                Some(record) => ModuleView::from_json(v@) == Some(record@),
                None => ModuleView::from_json(v@) is None,
            },
    {
        let id = v.text_at("id");
        let project_id = v.text_at("project_id");
        let name = v.text_at("name");
        let kind = v.text_at("kind");
        let path = v.optional_text_at("path");
        match (id, project_id, name, kind, path) {
            (Some(id), Some(project_id), Some(name), Some(kind), Some(path)) => Some(Module { id, project_id, name, kind, path }),
            _ => None,
        }
    }
}

/// A source file known to the graph.
#[derive(Debug, Clone)]
pub struct File {
    pub id: String,
    pub project_id: String,
    pub module_id: Option<String>,
    pub path: String,
    pub lang: String,
    pub category: Option<String>,
    pub purpose: Option<String>,
}

/// The mathematical value of a [`File`].
pub struct FileView {
    pub id: Seq<char>,
    pub project_id: Seq<char>,
    pub module_id: Option<Seq<char>>,
    pub path: Seq<char>,
    pub lang: Seq<char>,
    pub category: Option<Seq<char>>,
    pub purpose: Option<Seq<char>>,
}

impl View for File {
    type V = FileView;

    open spec fn view(&self) -> FileView {
        FileView {
            id: self.id@,
            project_id: self.project_id@,
            module_id: self.module_id.deep_view(),
            path: self.path@,
            lang: self.lang@,
            category: self.category.deep_view(),
            purpose: self.purpose.deep_view(),
        }
    }
}

impl FileView {
    /// The stored form of the record.
    pub open spec fn to_json(self) -> JsonValue {
        JsonValue::Object(
            seq![
                ("id"@, JsonValue::Text(self.id)),
                ("project_id"@, JsonValue::Text(self.project_id)),
                ("module_id"@, optional_text(self.module_id)),
                ("path"@, JsonValue::Text(self.path)),
                ("lang"@, JsonValue::Text(self.lang)),
                ("category"@, optional_text(self.category)),
                ("purpose"@, optional_text(self.purpose)),
            ],
        )
    }

    /// The record that a stored form holds: every field that must be there is
    /// there with the right kind of value, and a field that may be absent is
    /// text, `null` or left out. Other entries are not looked at.
    pub open spec fn from_json(v: JsonValue) -> Option<FileView> {
        if v.text_at("id"@) is Some
            && v.text_at("project_id"@) is Some
            && v.optional_text_at("module_id"@) is Some
            && v.text_at("path"@) is Some
            && v.text_at("lang"@) is Some
            && v.optional_text_at("category"@) is Some
            && v.optional_text_at("purpose"@) is Some {
            Some(
                FileView {
                    id: v.text_at("id"@)->0,
                    project_id: v.text_at("project_id"@)->0,
                    module_id: v.optional_text_at("module_id"@)->0,
                    path: v.text_at("path"@)->0,
                    lang: v.text_at("lang"@)->0,
                    category: v.optional_text_at("category"@)->0,
                    purpose: v.optional_text_at("purpose"@)->0,
                },
            )
        } else {
            None
        }
    }

    /// A record's stored form reads back as the record, and can be written
    /// and read as text without loss.
    pub proof fn lemma_round_trip(self)
        ensures
            FileView::from_json(self.to_json()) == Some(self),
            self.to_json().is_canonical(),
            self.to_json().nesting_within(3),
    {
        reveal_strlit("id");
        reveal_strlit("project_id");
        reveal_strlit("module_id");
        reveal_strlit("path");
        reveal_strlit("lang");
        reveal_strlit("category");
        reveal_strlit("purpose");
        let fields = self.to_json()->Object_0;
        assert(fields.len() == 7);
        assert(fields[0].0.len() == 2);
        assert(fields[1].0.len() == 10);
        assert(fields[2].0.len() == 9);
        assert(fields[3].0.len() == 4);
        assert(fields[4].0.len() == 4);
        assert(fields[5].0.len() == 8);
        assert(fields[6].0.len() == 7);
        assert(fields[3].0[0] != fields[4].0[0]);
        assert(distinct_keys(fields));
        lemma_lookup_entry(fields, 0);
        lemma_lookup_entry(fields, 1);
        lemma_lookup_entry(fields, 2);
        lemma_lookup_entry(fields, 3);
        lemma_lookup_entry(fields, 4);
        lemma_lookup_entry(fields, 5);
        lemma_lookup_entry(fields, 6);
        reveal_with_fuel(JsonValue::is_canonical, 2);
        reveal_with_fuel(JsonValue::nesting_within, 2);
        crate::json::lemma_nesting_grows(self.to_json(), 1, 3);
    }
}

impl File {
    /// The stored form of the record.
    pub fn to_json(&self) -> (r: Json)
        ensures
            r@ == self@.to_json(),
    {
        let mut fields: Vec<(String, Json)> = Vec::new();
        fields.push(entry("id", Json::Text(self.id.clone())));
        fields.push(entry("project_id", Json::Text(self.project_id.clone())));
        fields.push(entry("module_id", Json::from_optional_text(&self.module_id)));
        fields.push(entry("path", Json::Text(self.path.clone())));
        fields.push(entry("lang", Json::Text(self.lang.clone())));
        fields.push(entry("category", Json::from_optional_text(&self.category)));
        fields.push(entry("purpose", Json::from_optional_text(&self.purpose)));
        let r = Json::Object(fields);
        proof {
            reveal_with_fuel(json_value, 2);
            assert(r@->Object_0 =~= self@.to_json()->Object_0);
        }
        r
    }

    /// The record that a stored form holds, if it holds one.
    pub fn from_json(v: &Json) -> (r: Option<File>)
        ensures
            match r {
                Some(record) => FileView::from_json(v@) == Some(record@),
                None => FileView::from_json(v@) is None,
            },
    {
        let id = v.text_at("id");
        let project_id = v.text_at("project_id");
        let module_id = v.optional_text_at("module_id");
        let path = v.text_at("path");
        let lang = v.text_at("lang");
        let category = v.optional_text_at("category");
        let purpose = v.optional_text_at("purpose");
        match (id, project_id, module_id, path, lang, category, purpose) {
            (Some(id), Some(project_id), Some(module_id), Some(path), Some(lang), Some(category), Some(purpose)) => Some(File { id, project_id, module_id, path, lang, category, purpose }),
            _ => None,
        }
    }
}

/// A named declared entity: a function, a type, a field and the like.
#[derive(Debug, Clone)]
pub struct Symbol {
    pub id: String,
    pub file_id: String,
    pub usr: Option<String>,
    pub key: Option<String>,
    pub name: String,
    pub kind: String,
    pub is_definition: bool,
}

/// The mathematical value of a [`Symbol`].
pub struct SymbolView {
    pub id: Seq<char>,
    pub file_id: Seq<char>,
    pub usr: Option<Seq<char>>,
    pub key: Option<Seq<char>>,
    pub name: Seq<char>,
    pub kind: Seq<char>,
    pub is_definition: bool,
}

impl View for Symbol {
    type V = SymbolView;

    open spec fn view(&self) -> SymbolView {
        SymbolView {
            id: self.id@,
            file_id: self.file_id@,
            usr: self.usr.deep_view(),
            key: self.key.deep_view(),
            name: self.name@,
            kind: self.kind@,
            is_definition: self.is_definition,
        }
    }
}

impl SymbolView {
    /// The stored form of the record.
    pub open spec fn to_json(self) -> JsonValue {
        JsonValue::Object(
            seq![
                ("id"@, JsonValue::Text(self.id)),
                ("file_id"@, JsonValue::Text(self.file_id)),
                ("usr"@, optional_text(self.usr)),
                ("key"@, optional_text(self.key)),
                ("name"@, JsonValue::Text(self.name)),
                ("kind"@, JsonValue::Text(self.kind)),
                ("is_definition"@, JsonValue::Bool(self.is_definition)),
            ],
        )
    }

    /// The record that a stored form holds: every field that must be there is
    /// there with the right kind of value, and a field that may be absent is
    /// text, `null` or left out. Other entries are not looked at.
    pub open spec fn from_json(v: JsonValue) -> Option<SymbolView> {
        if v.text_at("id"@) is Some
            && v.text_at("file_id"@) is Some
            && v.optional_text_at("usr"@) is Some
            && v.optional_text_at("key"@) is Some
            && v.text_at("name"@) is Some
            && v.text_at("kind"@) is Some
            && v.bool_at("is_definition"@) is Some {
            Some(
                SymbolView {
                    id: v.text_at("id"@)->0,
                    file_id: v.text_at("file_id"@)->0,
                    usr: v.optional_text_at("usr"@)->0,
                    key: v.optional_text_at("key"@)->0,
                    name: v.text_at("name"@)->0,
                    kind: v.text_at("kind"@)->0,
                    is_definition: v.bool_at("is_definition"@)->0,
                },
            )
        } else {
            None
        }
    }

    /// A record's stored form reads back as the record, and can be written
    /// and read as text without loss.
    pub proof fn lemma_round_trip(self)
        ensures
            SymbolView::from_json(self.to_json()) == Some(self),
            self.to_json().is_canonical(),
            self.to_json().nesting_within(3),
    {
        reveal_strlit("id");
        reveal_strlit("file_id");
        reveal_strlit("usr");
        reveal_strlit("key");
        reveal_strlit("name");
        reveal_strlit("kind");
        reveal_strlit("is_definition");
        let fields = self.to_json()->Object_0;
        assert(fields.len() == 7);
        assert(fields[0].0.len() == 2);
        assert(fields[1].0.len() == 7);
        assert(fields[2].0.len() == 3);
        assert(fields[3].0.len() == 3);
        assert(fields[4].0.len() == 4);
        assert(fields[5].0.len() == 4);
        assert(fields[6].0.len() == 13);
        assert(fields[2].0[0] != fields[3].0[0]);
        assert(fields[4].0[0] != fields[5].0[0]);
        assert(distinct_keys(fields));
        lemma_lookup_entry(fields, 0);
        lemma_lookup_entry(fields, 1);
        lemma_lookup_entry(fields, 2);
        lemma_lookup_entry(fields, 3);
        lemma_lookup_entry(fields, 4);
        lemma_lookup_entry(fields, 5);
        lemma_lookup_entry(fields, 6);
        reveal_with_fuel(JsonValue::is_canonical, 2);
        reveal_with_fuel(JsonValue::nesting_within, 2);
        crate::json::lemma_nesting_grows(self.to_json(), 1, 3);
    }
}

impl Symbol {
    /// The stored form of the record.
    pub fn to_json(&self) -> (r: Json)
        ensures
            r@ == self@.to_json(),
    {
        let mut fields: Vec<(String, Json)> = Vec::new();
        fields.push(entry("id", Json::Text(self.id.clone())));
        fields.push(entry("file_id", Json::Text(self.file_id.clone())));
        fields.push(entry("usr", Json::from_optional_text(&self.usr)));
        fields.push(entry("key", Json::from_optional_text(&self.key)));
        fields.push(entry("name", Json::Text(self.name.clone())));
        fields.push(entry("kind", Json::Text(self.kind.clone())));
        fields.push(entry("is_definition", Json::Bool(self.is_definition)));
        let r = Json::Object(fields);
        proof {
            reveal_with_fuel(json_value, 2);
            assert(r@->Object_0 =~= self@.to_json()->Object_0);
        }
        r
    }

    /// The record that a stored form holds, if it holds one.
    pub fn from_json(v: &Json) -> (r: Option<Symbol>)
        ensures
            match r {
                Some(record) => SymbolView::from_json(v@) == Some(record@),
                None => SymbolView::from_json(v@) is None,
            },
    {
        let id = v.text_at("id");
        let file_id = v.text_at("file_id");
        let usr = v.optional_text_at("usr");
        let key = v.optional_text_at("key");
        let name = v.text_at("name");
        let kind = v.text_at("kind");
        let is_definition = v.bool_at("is_definition");
        match (id, file_id, usr, key, name, kind, is_definition) {
            (Some(id), Some(file_id), Some(usr), Some(key), Some(name), Some(kind), Some(is_definition)) => Some(Symbol { id, file_id, usr, key, name, kind, is_definition }),
            _ => None,
        }
    }
}

/// A place where a symbol is used, with 1-based line and column.
#[derive(Debug, Clone)]
pub struct Occurrence {
    pub id: String,
    pub symbol_id: String,
    pub file_id: String,
    pub usage_kind: String,
    pub line: u32,
    pub column: u32,
}

/// The mathematical value of an [`Occurrence`].
pub struct OccurrenceView {
    pub id: Seq<char>,
    pub symbol_id: Seq<char>,
    pub file_id: Seq<char>,
    pub usage_kind: Seq<char>,
    pub line: u32,
    pub column: u32,
}

impl View for Occurrence {
    type V = OccurrenceView;

    open spec fn view(&self) -> OccurrenceView {
        OccurrenceView {
            id: self.id@,
            symbol_id: self.symbol_id@,
            file_id: self.file_id@,
            usage_kind: self.usage_kind@,
            line: self.line,
            column: self.column,
        }
    }
}

impl OccurrenceView {
    /// The stored form of the record.
    pub open spec fn to_json(self) -> JsonValue {
        JsonValue::Object(
            seq![
                ("id"@, JsonValue::Text(self.id)),
                ("symbol_id"@, JsonValue::Text(self.symbol_id)),
                ("file_id"@, JsonValue::Text(self.file_id)),
                ("usage_kind"@, JsonValue::Text(self.usage_kind)),
                ("line"@, JsonValue::Unsigned(self.line as int)),
                ("column"@, JsonValue::Unsigned(self.column as int)),
            ],
        )
    }

    /// The record that a stored form holds: every field that must be there is
    /// there with the right kind of value, and a field that may be absent is
    /// text, `null` or left out. Other entries are not looked at.
    pub open spec fn from_json(v: JsonValue) -> Option<OccurrenceView> {
        if v.text_at("id"@) is Some
            && v.text_at("symbol_id"@) is Some
            && v.text_at("file_id"@) is Some
            && v.text_at("usage_kind"@) is Some
            && v.unsigned_at("line"@, u32::MAX as int) is Some
            && v.unsigned_at("column"@, u32::MAX as int) is Some {
            Some(
                OccurrenceView {
                    id: v.text_at("id"@)->0,
                    symbol_id: v.text_at("symbol_id"@)->0,
                    file_id: v.text_at("file_id"@)->0,
                    usage_kind: v.text_at("usage_kind"@)->0,
                    line: (v.unsigned_at("line"@, u32::MAX as int)->0) as u32,
                    column: (v.unsigned_at("column"@, u32::MAX as int)->0) as u32,
                },
            )
        } else {
            None
        }
    }

    /// A record's stored form reads back as the record, and can be written
    /// and read as text without loss.
    pub proof fn lemma_round_trip(self)
        ensures
            OccurrenceView::from_json(self.to_json()) == Some(self),
            self.to_json().is_canonical(),
            self.to_json().nesting_within(3),
    {
        reveal_strlit("id");
        reveal_strlit("symbol_id");
        reveal_strlit("file_id");
        reveal_strlit("usage_kind");
        reveal_strlit("line");
        reveal_strlit("column");
        let fields = self.to_json()->Object_0;
        assert(fields.len() == 6);
        assert(fields[0].0.len() == 2);
        assert(fields[1].0.len() == 9);
        assert(fields[2].0.len() == 7);
        assert(fields[3].0.len() == 10);
        assert(fields[4].0.len() == 4);
        assert(fields[5].0.len() == 6);
        assert(distinct_keys(fields));
        lemma_lookup_entry(fields, 0);
        lemma_lookup_entry(fields, 1);
        lemma_lookup_entry(fields, 2);
        lemma_lookup_entry(fields, 3);
        lemma_lookup_entry(fields, 4);
        lemma_lookup_entry(fields, 5);
        reveal_with_fuel(JsonValue::is_canonical, 2);
        reveal_with_fuel(JsonValue::nesting_within, 2);
        crate::json::lemma_nesting_grows(self.to_json(), 1, 3);
    }
}

impl Occurrence {
    /// The stored form of the record.
    pub fn to_json(&self) -> (r: Json)
        ensures
            r@ == self@.to_json(),
    {
        let mut fields: Vec<(String, Json)> = Vec::new();
        fields.push(entry("id", Json::Text(self.id.clone())));
        fields.push(entry("symbol_id", Json::Text(self.symbol_id.clone())));
        fields.push(entry("file_id", Json::Text(self.file_id.clone())));
        fields.push(entry("usage_kind", Json::Text(self.usage_kind.clone())));
        fields.push(entry("line", Json::Unsigned(self.line as u64)));
        fields.push(entry("column", Json::Unsigned(self.column as u64)));
        let r = Json::Object(fields);
        proof {
            reveal_with_fuel(json_value, 2);
            assert(r@->Object_0 =~= self@.to_json()->Object_0);
        }
        r
    }

    /// The record that a stored form holds, if it holds one.
    pub fn from_json(v: &Json) -> (r: Option<Occurrence>)
        ensures
            match r {
                Some(record) => OccurrenceView::from_json(v@) == Some(record@),
                None => OccurrenceView::from_json(v@) is None,
            },
    {
        let id = v.text_at("id");
        let symbol_id = v.text_at("symbol_id");
        let file_id = v.text_at("file_id");
        let usage_kind = v.text_at("usage_kind");
        let line = v.unsigned_at("line", u32::MAX as u64);
        let column = v.unsigned_at("column", u32::MAX as u64);
        match (id, symbol_id, file_id, usage_kind, line, column) {
            (Some(id), Some(symbol_id), Some(file_id), Some(usage_kind), Some(line), Some(column)) => Some(Occurrence { id, symbol_id, file_id, usage_kind, line: line as u32, column: column as u32 }),
            _ => None,
        }
    }
}

/// A directed relationship between two symbols or between two modules.
#[derive(Debug, Clone)]
pub struct Edge {
    pub id: String,
    pub from_sym: Option<String>,
    pub to_sym: Option<String>,
    pub from_module: Option<String>,
    pub to_module: Option<String>,
    pub kind: String,
}

/// The mathematical value of an [`Edge`].
pub struct EdgeView {
    pub id: Seq<char>,
    pub from_sym: Option<Seq<char>>,
    pub to_sym: Option<Seq<char>>,
    pub from_module: Option<Seq<char>>,
    pub to_module: Option<Seq<char>>,
    pub kind: Seq<char>,
}

impl View for Edge {
    type V = EdgeView;

    open spec fn view(&self) -> EdgeView {
        EdgeView {
            id: self.id@,
            from_sym: self.from_sym.deep_view(),
            to_sym: self.to_sym.deep_view(),
            from_module: self.from_module.deep_view(),
            to_module: self.to_module.deep_view(),
            kind: self.kind@,
        }
    }
}

impl EdgeView {
    /// The stored form of the record.
    pub open spec fn to_json(self) -> JsonValue {
        JsonValue::Object(
            seq![
                ("id"@, JsonValue::Text(self.id)),
                ("from_sym"@, optional_text(self.from_sym)),
                ("to_sym"@, optional_text(self.to_sym)),
                ("from_module"@, optional_text(self.from_module)),
                ("to_module"@, optional_text(self.to_module)),
                ("kind"@, JsonValue::Text(self.kind)),
            ],
        )
    }

    /// The record that a stored form holds: every field that must be there is
    /// there with the right kind of value, and a field that may be absent is
    /// text, `null` or left out. Other entries are not looked at.
    pub open spec fn from_json(v: JsonValue) -> Option<EdgeView> {
        if v.text_at("id"@) is Some
            && v.optional_text_at("from_sym"@) is Some
            && v.optional_text_at("to_sym"@) is Some
            && v.optional_text_at("from_module"@) is Some
            && v.optional_text_at("to_module"@) is Some
            && v.text_at("kind"@) is Some {
            Some(
                EdgeView {
                    id: v.text_at("id"@)->0,
                    from_sym: v.optional_text_at("from_sym"@)->0,
                    to_sym: v.optional_text_at("to_sym"@)->0,
                    from_module: v.optional_text_at("from_module"@)->0,
                    to_module: v.optional_text_at("to_module"@)->0,
                    kind: v.text_at("kind"@)->0,
                },
            )
        } else {
            None
        }
    }

    /// A record's stored form reads back as the record, and can be written
    /// and read as text without loss.
    pub proof fn lemma_round_trip(self)
        ensures
            EdgeView::from_json(self.to_json()) == Some(self),
            self.to_json().is_canonical(),
            self.to_json().nesting_within(3),
    {
        reveal_strlit("id");
        reveal_strlit("from_sym");
        reveal_strlit("to_sym");
        reveal_strlit("from_module");
        reveal_strlit("to_module");
        reveal_strlit("kind");
        let fields = self.to_json()->Object_0;
        assert(fields.len() == 6);
        assert(fields[0].0.len() == 2);
        assert(fields[1].0.len() == 8);
        assert(fields[2].0.len() == 6);
        assert(fields[3].0.len() == 11);
        assert(fields[4].0.len() == 9);
        assert(fields[5].0.len() == 4);
        assert(distinct_keys(fields));
        lemma_lookup_entry(fields, 0);
        lemma_lookup_entry(fields, 1);
        lemma_lookup_entry(fields, 2);
        lemma_lookup_entry(fields, 3);
        lemma_lookup_entry(fields, 4);
        lemma_lookup_entry(fields, 5);
        reveal_with_fuel(JsonValue::is_canonical, 2);
        reveal_with_fuel(JsonValue::nesting_within, 2);
        crate::json::lemma_nesting_grows(self.to_json(), 1, 3);
    }
}

impl Edge {
    /// The stored form of the record.
    pub fn to_json(&self) -> (r: Json)
        ensures
            r@ == self@.to_json(),
    {
        let mut fields: Vec<(String, Json)> = Vec::new();
        fields.push(entry("id", Json::Text(self.id.clone())));
        fields.push(entry("from_sym", Json::from_optional_text(&self.from_sym)));
        fields.push(entry("to_sym", Json::from_optional_text(&self.to_sym)));
        fields.push(entry("from_module", Json::from_optional_text(&self.from_module)));
        fields.push(entry("to_module", Json::from_optional_text(&self.to_module)));
        fields.push(entry("kind", Json::Text(self.kind.clone())));
        let r = Json::Object(fields);
        proof {
            reveal_with_fuel(json_value, 2);
            assert(r@->Object_0 =~= self@.to_json()->Object_0);
        }
        r
    }

    /// The record that a stored form holds, if it holds one.
    pub fn from_json(v: &Json) -> (r: Option<Edge>)
        ensures
            match r {
                Some(record) => EdgeView::from_json(v@) == Some(record@),
                None => EdgeView::from_json(v@) is None,
            },
    {
        let id = v.text_at("id");
        let from_sym = v.optional_text_at("from_sym");
        let to_sym = v.optional_text_at("to_sym");
        let from_module = v.optional_text_at("from_module");
        let to_module = v.optional_text_at("to_module");
        let kind = v.text_at("kind");
        match (id, from_sym, to_sym, from_module, to_module, kind) {
            (Some(id), Some(from_sym), Some(to_sym), Some(from_module), Some(to_module), Some(kind)) => Some(Edge { id, from_sym, to_sym, from_module, to_module, kind }),
            _ => None,
        }
    }
}

/// What a listing shows of a file.
#[derive(Debug, Clone)]
pub struct FileInfo {
    pub id: String,
    pub path: String,
    pub language: String,
    pub category: String,
    pub purpose: String,
}

/// The mathematical value of a [`FileInfo`].
pub struct FileInfoView {
    pub id: Seq<char>,
    pub path: Seq<char>,
    pub language: Seq<char>,
    pub category: Seq<char>,
    pub purpose: Seq<char>,
}

impl View for FileInfo {
    type V = FileInfoView;

    open spec fn view(&self) -> FileInfoView {
        FileInfoView {
            id: self.id@,
            path: self.path@,
            language: self.language@,
            category: self.category@,
            purpose: self.purpose@,
        }
    }
}

impl FileInfoView {
    /// The stored form of the record.
    pub open spec fn to_json(self) -> JsonValue {
        JsonValue::Object(
            seq![
                ("id"@, JsonValue::Text(self.id)),
                ("path"@, JsonValue::Text(self.path)),
                ("language"@, JsonValue::Text(self.language)),
                ("category"@, JsonValue::Text(self.category)),
                ("purpose"@, JsonValue::Text(self.purpose)),
            ],
        )
    }

    /// The record that a stored form holds: every field that must be there is
    /// there with the right kind of value, and a field that may be absent is
    /// text, `null` or left out. Other entries are not looked at.
    pub open spec fn from_json(v: JsonValue) -> Option<FileInfoView> {
        if v.text_at("id"@) is Some
            && v.text_at("path"@) is Some
            && v.text_at("language"@) is Some
            && v.text_at("category"@) is Some
            && v.text_at("purpose"@) is Some {
            Some(
                FileInfoView {
                    id: v.text_at("id"@)->0,
                    path: v.text_at("path"@)->0,
                    language: v.text_at("language"@)->0,
                    category: v.text_at("category"@)->0,
                    purpose: v.text_at("purpose"@)->0,
                },
            )
        } else {
            None
        }
    }

    /// A record's stored form reads back as the record, and can be written
    /// and read as text without loss.
    pub proof fn lemma_round_trip(self)
        ensures
            FileInfoView::from_json(self.to_json()) == Some(self),
            self.to_json().is_canonical(),
            self.to_json().nesting_within(3),
    {
        reveal_strlit("id");
        reveal_strlit("path");
        reveal_strlit("language");
        reveal_strlit("category");
        reveal_strlit("purpose");
        let fields = self.to_json()->Object_0;
        assert(fields.len() == 5);
        assert(fields[0].0.len() == 2);
        assert(fields[1].0.len() == 4);
        assert(fields[2].0.len() == 8);
        assert(fields[3].0.len() == 8);
        assert(fields[4].0.len() == 7);
        assert(fields[2].0[0] != fields[3].0[0]);
        assert(distinct_keys(fields));
        lemma_lookup_entry(fields, 0);
        lemma_lookup_entry(fields, 1);
        lemma_lookup_entry(fields, 2);
        lemma_lookup_entry(fields, 3);
        lemma_lookup_entry(fields, 4);
        reveal_with_fuel(JsonValue::is_canonical, 2);
        reveal_with_fuel(JsonValue::nesting_within, 2);
        crate::json::lemma_nesting_grows(self.to_json(), 1, 3);
    }
}

impl FileInfo {
    /// The stored form of the record.
    pub fn to_json(&self) -> (r: Json)
        ensures
            r@ == self@.to_json(),
    {
        let mut fields: Vec<(String, Json)> = Vec::new();
        fields.push(entry("id", Json::Text(self.id.clone())));
        fields.push(entry("path", Json::Text(self.path.clone())));
        fields.push(entry("language", Json::Text(self.language.clone())));
        fields.push(entry("category", Json::Text(self.category.clone())));
        fields.push(entry("purpose", Json::Text(self.purpose.clone())));
        let r = Json::Object(fields);
        proof {
            reveal_with_fuel(json_value, 2);
            assert(r@->Object_0 =~= self@.to_json()->Object_0);
        }
        r
    }

    /// The record that a stored form holds, if it holds one.
    pub fn from_json(v: &Json) -> (r: Option<FileInfo>)
        ensures
            match r {
                Some(record) => FileInfoView::from_json(v@) == Some(record@),
                None => FileInfoView::from_json(v@) is None,
            },
    {
        let id = v.text_at("id");
        let path = v.text_at("path");
        let language = v.text_at("language");
        let category = v.text_at("category");
        let purpose = v.text_at("purpose");
        match (id, path, language, category, purpose) {
            (Some(id), Some(path), Some(language), Some(category), Some(purpose)) => Some(FileInfo { id, path, language, category, purpose }),
            _ => None,
        }
    }
}

/// What a listing shows of a symbol.
#[derive(Debug, Clone)]
pub struct SymbolInfo {
    pub id: String,
    pub name: String,
    pub kind: String,
    pub file_id: String,
}

/// The mathematical value of a [`SymbolInfo`].
pub struct SymbolInfoView {
    pub id: Seq<char>,
    pub name: Seq<char>,
    pub kind: Seq<char>,
    pub file_id: Seq<char>,
}

impl View for SymbolInfo {
    type V = SymbolInfoView;

    open spec fn view(&self) -> SymbolInfoView {
        SymbolInfoView {
            id: self.id@,
            name: self.name@,
            kind: self.kind@,
            file_id: self.file_id@,
        }
    }
}

impl SymbolInfoView {
    /// The stored form of the record.
    pub open spec fn to_json(self) -> JsonValue {
        JsonValue::Object(
            seq![
                ("id"@, JsonValue::Text(self.id)),
                ("name"@, JsonValue::Text(self.name)),
                ("kind"@, JsonValue::Text(self.kind)),
                ("file_id"@, JsonValue::Text(self.file_id)),
            ],
        )
    }

    /// The record that a stored form holds: every field that must be there is
    /// there with the right kind of value, and a field that may be absent is
    /// text, `null` or left out. Other entries are not looked at.
    pub open spec fn from_json(v: JsonValue) -> Option<SymbolInfoView> {
        if v.text_at("id"@) is Some
            && v.text_at("name"@) is Some
            && v.text_at("kind"@) is Some
            && v.text_at("file_id"@) is Some {
            Some(
                SymbolInfoView {
                    id: v.text_at("id"@)->0,
                    name: v.text_at("name"@)->0,
                    kind: v.text_at("kind"@)->0,
                    file_id: v.text_at("file_id"@)->0,
                },
            )
        } else {
            None
        }
    }

    /// A record's stored form reads back as the record, and can be written
    /// and read as text without loss.
    pub proof fn lemma_round_trip(self)
        ensures
            SymbolInfoView::from_json(self.to_json()) == Some(self),
            self.to_json().is_canonical(),
            self.to_json().nesting_within(3),
    {
        reveal_strlit("id");
        reveal_strlit("name");
        reveal_strlit("kind");
        reveal_strlit("file_id");
        let fields = self.to_json()->Object_0;
        assert(fields.len() == 4);
        assert(fields[0].0.len() == 2);
        assert(fields[1].0.len() == 4);
        assert(fields[2].0.len() == 4);
        assert(fields[3].0.len() == 7);
        assert(fields[1].0[0] != fields[2].0[0]);
        assert(distinct_keys(fields));
        lemma_lookup_entry(fields, 0);
        lemma_lookup_entry(fields, 1);
        lemma_lookup_entry(fields, 2);
        lemma_lookup_entry(fields, 3);
        reveal_with_fuel(JsonValue::is_canonical, 2);
        reveal_with_fuel(JsonValue::nesting_within, 2);
        crate::json::lemma_nesting_grows(self.to_json(), 1, 3);
    }
}

impl SymbolInfo {
    /// The stored form of the record.
    pub fn to_json(&self) -> (r: Json)
        ensures
            r@ == self@.to_json(),
    {
        let mut fields: Vec<(String, Json)> = Vec::new();
        fields.push(entry("id", Json::Text(self.id.clone())));
        fields.push(entry("name", Json::Text(self.name.clone())));
        fields.push(entry("kind", Json::Text(self.kind.clone())));
        fields.push(entry("file_id", Json::Text(self.file_id.clone())));
        let r = Json::Object(fields);
        proof {
            reveal_with_fuel(json_value, 2);
            assert(r@->Object_0 =~= self@.to_json()->Object_0);
        }
        r
    }

    /// The record that a stored form holds, if it holds one.
    pub fn from_json(v: &Json) -> (r: Option<SymbolInfo>)
        ensures
            match r {
                Some(record) => SymbolInfoView::from_json(v@) == Some(record@),
                None => SymbolInfoView::from_json(v@) is None,
            },
    {
        let id = v.text_at("id");
        let name = v.text_at("name");
        let kind = v.text_at("kind");
        let file_id = v.text_at("file_id");
        match (id, name, kind, file_id) {
            (Some(id), Some(name), Some(kind), Some(file_id)) => Some(SymbolInfo { id, name, kind, file_id }),
            _ => None,
        }
    }
}

/// How many records of each kind a store holds.
#[derive(Debug, Clone, Copy)]
pub struct DatabaseStats {
    pub files: u64,
    pub symbols: u64,
    pub edges: u64,
}

} // verus!
