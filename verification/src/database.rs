//! The symbol graph store over an embedded key-value store.
//!
//! Every record lives under a key made of a namespace (`file:`, `symbol:`,
//! ...) and a name. A record that is found by a natural key (a file by its
//! path, a module by its name, a project by its root) is written twice, under
//! the natural key and under its identifier; the two writes are separate, and
//! a failure between them leaves the first in place.

use vstd::prelude::*;
use vstd::string::*;
use vstd::utf8::*;
use crate::json::{
    decode, encode, json_parse, json_text, json_written, lemma_nesting_grows, Json, JsonError,
    JsonValue, MAX_NESTING,
};
use crate::kv::{
    is_prefix_scan, kv_entries, kv_error_text, kv_get, kv_insert, kv_open, kv_scan_prefix,
    pairs_view,
};
use crate::records::{
    DatabaseStats, Edge, EdgeView, File, FileInfo, FileInfoView, FileView, Module, ModuleView,
    Occurrence, OccurrenceView, Project, ProjectView, Symbol, SymbolInfo, SymbolInfoView,
    SymbolView,
};
use crate::text::{
    concat2, contains_seq, lossy_text, lowercase, str_contains, str_eq, str_to_lowercase,
    text_from_utf8_lossy,
};

verus! {

/// Why a store operation failed.
#[derive(Debug)]
pub enum StoreError {
    /// The store could not be opened; the message says why.
    Open(String),
    /// A read or write on the underlying store failed; the message is the
    /// store's own.
    Storage(String),
    /// A record could not be put into its stored form.
    Write(String),
    /// A stored record could not be read as the record it should be.
    Corrupt(String),
}

impl StoreError {
    /// The message that the error carries.
    pub fn message(&self) -> (r: String)
        ensures
            r@ == match self {
                StoreError::Open(m) => m@,
                StoreError::Storage(m) => m@,
                StoreError::Write(m) => m@,
                StoreError::Corrupt(m) => m@,
            },
    {
        match self {
            StoreError::Open(m) => m.clone(),
            StoreError::Storage(m) => m.clone(),
            StoreError::Write(m) => m.clone(),
            StoreError::Corrupt(m) => m.clone(),
        }
    }
}

/// The bytes of the key that the store uses for a key text.
pub open spec fn text_key(key: Seq<char>) -> Seq<u8> {
    encode_utf8(key)
}

/// `entries` after the writes of `writes`, each a key with its value, in turn.
pub open spec fn apply_writes(
    entries: Map<Seq<u8>, Seq<u8>>,
    writes: Seq<(Seq<u8>, Seq<u8>)>,
) -> Map<Seq<u8>, Seq<u8>>
    decreases writes.len(),
{
    if writes.len() == 0 {
        entries
    } else {
        apply_writes(entries, writes.drop_last()).insert(writes.last().0, writes.last().1)
    }
}

/// `post` is `pre` after some of `writes` from the start: what a run of
/// writes leaves behind when it stops at the first that fails.
pub open spec fn wrote_some(
    pre: Map<Seq<u8>, Seq<u8>>,
    post: Map<Seq<u8>, Seq<u8>>,
    writes: Seq<(Seq<u8>, Seq<u8>)>,
) -> bool {
    exists|n: int| 0 <= n <= writes.len() && post == #[trigger] apply_writes(pre, writes.take(n))
}

/// A run of writes of which none has taken place leaves the store as it was.
pub proof fn lemma_wrote_none(pre: Map<Seq<u8>, Seq<u8>>, writes: Seq<(Seq<u8>, Seq<u8>)>)
    ensures
        wrote_some(pre, pre, writes),
{
    assert(writes.take(0) =~= Seq::empty());
    assert(pre == apply_writes(pre, writes.take(0)));
}

/// Two writes in turn.
pub proof fn lemma_two_writes(pre: Map<Seq<u8>, Seq<u8>>, writes: Seq<(Seq<u8>, Seq<u8>)>)
    requires
        writes.len() == 2,
    ensures
        apply_writes(pre, writes) == pre.insert(writes[0].0, writes[0].1).insert(
            writes[1].0,
            writes[1].1,
        ),
{
    reveal_with_fuel(apply_writes, 3);
    assert(writes.drop_last().drop_last() =~= Seq::empty());
}

/// Writes in two runs, one after the other, are the writes of both in one
/// run.
pub proof fn lemma_writes_in_turn(
    pre: Map<Seq<u8>, Seq<u8>>,
    first: Seq<(Seq<u8>, Seq<u8>)>,
    second: Seq<(Seq<u8>, Seq<u8>)>,
)
    ensures
        apply_writes(pre, first + second) == apply_writes(apply_writes(pre, first), second),
    decreases second.len(),
{
    if second.len() == 0 {
        assert(first + second =~= first);
    } else {
        lemma_writes_in_turn(pre, first, second.drop_last());
        assert((first + second).drop_last() =~= first + second.drop_last());
        assert((first + second).last() == second.last());
    }
}

/// Every key of `pre` is a key of `post`: nothing has been removed.
pub open spec fn keeps_keys(pre: Map<Seq<u8>, Seq<u8>>, post: Map<Seq<u8>, Seq<u8>>) -> bool {
    forall|key: Seq<u8>| pre.contains_key(key) ==> #[trigger] post.contains_key(key)
}

/// Writes remove nothing, and each key written is a key afterwards.
pub proof fn lemma_writes_keep_keys(pre: Map<Seq<u8>, Seq<u8>>, writes: Seq<(Seq<u8>, Seq<u8>)>)
    ensures
        keeps_keys(pre, apply_writes(pre, writes)),
        forall|i: int|
            0 <= i < writes.len() ==> apply_writes(pre, writes).contains_key(
                (#[trigger] writes[i]).0,
            ),
    decreases writes.len(),
{
    if writes.len() > 0 {
        let rest = writes.drop_last();
        lemma_writes_keep_keys(pre, rest);
        assert forall|i: int| 0 <= i < writes.len() implies apply_writes(pre, writes).contains_key(
            (#[trigger] writes[i]).0,
        ) by {
            if i < rest.len() {
                assert(rest[i] == writes[i]);
            }
        }
    }
}

/// What is kept over two steps is kept over both.
pub proof fn lemma_keeps_keys_twice(
    a: Map<Seq<u8>, Seq<u8>>,
    b: Map<Seq<u8>, Seq<u8>>,
    c: Map<Seq<u8>, Seq<u8>>,
)
    requires
        keeps_keys(a, b),
        keeps_keys(b, c),
    ensures
        keeps_keys(a, c),
{
    assert forall|key: Seq<u8>| a.contains_key(key) implies #[trigger] c.contains_key(key) by {
        assert(b.contains_key(key));
    }
}

/// Writing this value as text and reading the text gives the value back.
pub open spec fn reads_back(value: JsonValue) -> bool {
    json_parse(json_text(value)) == Some(value)
}

/// The two writes that make a record known under a natural key and under its
/// identifier, both in the namespace `namespace`.
pub open spec fn twin_writes(
    namespace: Seq<char>,
    natural: Seq<char>,
    id: Seq<char>,
    record: JsonValue,
) -> Seq<(Seq<u8>, Seq<u8>)> {
    seq![
        (text_key(namespace + natural), json_text(record)),
        (text_key(namespace + id), json_text(record)),
    ]
}

/// The JSON value that `entries` holds under a key text, where there is one.
pub open spec fn json_in(entries: Map<Seq<u8>, Seq<u8>>, key: Seq<char>) -> Option<JsonValue> {
    if entries.contains_key(text_key(key)) {
        json_parse(entries[text_key(key)])
    } else {
        None
    }
}

/// The file record that the file namespace of `entries` holds under a name,
/// which is a path or an identifier.
pub open spec fn file_in(entries: Map<Seq<u8>, Seq<u8>>, name: Seq<char>) -> Option<FileView> {
    match json_in(entries, "file:"@ + name) {
        Some(v) => FileView::from_json(v),
        None => None,
    }
}

/// The record of a file that has just become known: it belongs to no module.
pub open spec fn new_file(
    project_id: Seq<char>,
    path: Seq<char>,
    lang: Seq<char>,
    category: Option<Seq<char>>,
    purpose: Option<Seq<char>>,
    id: Seq<char>,
) -> FileView {
    FileView { id, project_id, module_id: None, path, lang, category, purpose }
}

/// What `ensure_file_with_category` does to a store when it answers `id`.
///
/// A path that the file namespace already holds keeps its record, whatever
/// the call says of language, category and purpose, and `id` is that
/// record's. A path that is new gets a record with `id`, written under the
/// path and under `id`.
pub open spec fn file_ensured(
    pre: Map<Seq<u8>, Seq<u8>>,
    post: Map<Seq<u8>, Seq<u8>>,
    project_id: Seq<char>,
    path: Seq<char>,
    lang: Seq<char>,
    category: Option<Seq<char>>,
    purpose: Option<Seq<char>>,
    id: Seq<char>,
) -> bool {
    if pre.contains_key(text_key("file:"@ + path)) {
        &&& post == pre
        &&& file_in(pre, path) matches Some(f) && f.id == id
    } else {
        let record = new_file(project_id, path, lang, category, purpose, id).to_json();
        &&& reads_back(record)
        &&& post == apply_writes(pre, twin_writes("file:"@, path, id, record))
    }
}

/// The record of a project that has just become known: no notes yet.
pub open spec fn new_project(
    name: Seq<char>,
    root_path: Seq<char>,
    id: Seq<char>,
    created_at: Seq<char>,
) -> ProjectView {
    ProjectView {
        id,
        name,
        root_path,
        description: None,
        purpose: None,
        structure: None,
        dependencies: None,
        created_at,
    }
}

/// The project record that the project namespace of `entries` holds under a
/// name, which is a root path or an identifier.
pub open spec fn project_in(entries: Map<Seq<u8>, Seq<u8>>, name: Seq<char>) -> Option<
    ProjectView,
> {
    match json_in(entries, "project:"@ + name) {
        Some(v) => ProjectView::from_json(v),
        None => None,
    }
}

/// What `ensure_project` does to a store when it answers `id`.
///
/// A root path that the project namespace already holds keeps its record,
/// name included, and `id` is that record's. A root path that is new gets a
/// record with `id`, the name and the time of the call, written under the
/// root path and under `id`.
pub open spec fn project_ensured(
    pre: Map<Seq<u8>, Seq<u8>>,
    post: Map<Seq<u8>, Seq<u8>>,
    name: Seq<char>,
    root_path: Seq<char>,
    id: Seq<char>,
) -> bool {
    if pre.contains_key(text_key("project:"@ + root_path)) {
        &&& post == pre
        &&& project_in(pre, root_path) matches Some(p) && p.id == id
    } else {
        exists|created_at: Seq<char>|
            {
                let record = #[trigger] new_project(name, root_path, id, created_at).to_json();
                &&& reads_back(record)
                &&& post == apply_writes(pre, twin_writes("project:"@, root_path, id, record))
            }
    }
}

/// A project record with the four notes set and all else as it was.
pub open spec fn annotated(
    p: ProjectView,
    description: Seq<char>,
    purpose: Seq<char>,
    structure: Seq<char>,
    dependencies: Seq<char>,
) -> ProjectView {
    ProjectView {
        description: Some(description),
        purpose: Some(purpose),
        structure: Some(structure),
        dependencies: Some(dependencies),
        ..p
    }
}

/// The record of a module that has just become known. An empty path stands
/// for a module that is known only as the target of an import.
pub open spec fn new_module(
    name: Seq<char>,
    kind: Seq<char>,
    path: Seq<char>,
    id: Seq<char>,
) -> ModuleView {
    ModuleView {
        id,
        project_id: "1"@,
        name,
        kind,
        path: if path.len() == 0 {
            None
        } else {
            Some(path)
        },
    }
}

/// The module record that the module namespace of `entries` holds under a
/// name, which is a module's name or an identifier.
pub open spec fn module_in(entries: Map<Seq<u8>, Seq<u8>>, name: Seq<char>) -> Option<ModuleView> {
    match json_in(entries, "module:"@ + name) {
        Some(v) => ModuleView::from_json(v),
        None => None,
    }
}

/// What `upsert_module` does to a store when it answers `id`.
///
/// A name that the module namespace already holds keeps its record, with its
/// kind and path, and `id` is that record's. A name that is new gets a record
/// with `id`, written under the name and under `id`.
pub open spec fn module_upserted(
    pre: Map<Seq<u8>, Seq<u8>>,
    post: Map<Seq<u8>, Seq<u8>>,
    name: Seq<char>,
    kind: Seq<char>,
    path: Seq<char>,
    id: Seq<char>,
) -> bool {
    if pre.contains_key(text_key("module:"@ + name)) {
        &&& post == pre
        &&& module_in(pre, name) matches Some(m) && m.id == id
    } else {
        let record = new_module(name, kind, path, id).to_json();
        &&& reads_back(record)
        &&& post == apply_writes(pre, twin_writes("module:"@, name, id, record))
    }
}

/// The record of a symbol as it is first written.
pub open spec fn new_symbol(
    file_id: Seq<char>,
    usr: Option<Seq<char>>,
    key: Option<Seq<char>>,
    name: Seq<char>,
    kind: Seq<char>,
    is_definition: bool,
    id: Seq<char>,
) -> SymbolView {
    SymbolView { id, file_id, usr, key, name, kind, is_definition }
}

/// The record of an occurrence as it is written.
pub open spec fn new_occurrence(
    symbol_id: Seq<char>,
    file_id: Seq<char>,
    usage_kind: Seq<char>,
    line: u32,
    column: u32,
    id: Seq<char>,
) -> OccurrenceView {
    OccurrenceView { id, symbol_id, file_id, usage_kind, line, column }
}

/// The record of an edge as it is written.
pub open spec fn new_edge(
    from_sym: Option<Seq<char>>,
    to_sym: Option<Seq<char>>,
    from_module: Option<Seq<char>>,
    to_module: Option<Seq<char>>,
    kind: Seq<char>,
    id: Seq<char>,
) -> EdgeView {
    EdgeView { id, from_sym, to_sym, from_module, to_module, kind }
}

/// The writes that record a new symbol: its record under its identifier and,
/// where it has an external identifier, the index entry that points from
/// that to the symbol.
pub open spec fn symbol_writes(record: SymbolView) -> Seq<(Seq<u8>, Seq<u8>)> {
    let own = (text_key("symbol:"@ + record.id), json_text(record.to_json()));
    match record.usr {
        Some(usr) => seq![own, (text_key("symbol_by_usr:"@ + usr), encode_utf8(record.id))],
        None => seq![own],
    }
}

/// The one write that records a new occurrence.
pub open spec fn occurrence_writes(record: OccurrenceView) -> Seq<(Seq<u8>, Seq<u8>)> {
    seq![(text_key("occurrence:"@ + record.id), json_text(record.to_json()))]
}

/// The key text of the index entry for an edge of kind `kind` that leaves the
/// symbol `from`.
pub open spec fn edge_index_key(from: Seq<char>, kind: Seq<char>, id: Seq<char>) -> Seq<char> {
    edge_index_prefix(from, kind) + id
}

/// The key text with which the index entries begin for the edges of kind
/// `kind` that leave the symbol `from`.
pub open spec fn edge_index_prefix(from: Seq<char>, kind: Seq<char>) -> Seq<char> {
    "edges_from:"@ + from + ":"@ + kind + ":"@
}

/// The writes that record a new edge: its record under its identifier and,
/// where it leaves a symbol, a copy under the index key of that symbol and
/// the edge's kind.
pub open spec fn edge_writes(record: EdgeView) -> Seq<(Seq<u8>, Seq<u8>)> {
    let own = (text_key("edge:"@ + record.id), json_text(record.to_json()));
    match record.from_sym {
        Some(from) => seq![
            own,
            (text_key(edge_index_key(from, record.kind, record.id)), json_text(record.to_json())),
        ],
        None => seq![own],
    }
}

/// The writes of an edge leave the index of external identifiers as it was.
pub proof fn lemma_edge_writes_keep_index(
    pre: Map<Seq<u8>, Seq<u8>>,
    record: EdgeView,
    n: int,
    usr: Seq<char>,
)
    requires
        0 <= n <= edge_writes(record).len(),
    ensures
        symbol_id_in(apply_writes(pre, edge_writes(record).take(n)), usr) == symbol_id_in(pre, usr),
{
    let index = "symbol_by_usr:"@ + usr;
    let own = "edge:"@ + record.id;
    reveal_strlit("symbol_by_usr:");
    reveal_strlit("edge:");
    reveal_strlit("edges_from:");
    assert(index[0] == 's');
    assert(own[0] == 'e');
    crate::text::lemma_utf8_injective(index, own);
    let writes = edge_writes(record).take(n);
    reveal_with_fuel(apply_writes, 3);
    if n >= 1 {
        assert(writes[0].0 == text_key(own));
    }
    if n == 2 {
        let from = record.from_sym->0;
        let key = edge_index_key(from, record.kind, record.id);
        assert(key[0] == 'e');
        crate::text::lemma_utf8_injective(index, key);
        assert(writes[1].0 == text_key(key));
        assert(writes.drop_last().drop_last() =~= Seq::empty());
    } else if n == 1 {
        assert(writes.drop_last() =~= Seq::empty());
    } else {
        assert(writes =~= Seq::empty());
    }
}

/// How the recording of a new record ends, whose stored form is `record`
/// and whose writes are `writes`: with all the writes made; with none, as
/// `Write`, exactly where the writer refuses the record; or, as `Storage`,
/// with some of them made, from the start.
pub open spec fn appended(
    pre: Map<Seq<u8>, Seq<u8>>,
    post: Map<Seq<u8>, Seq<u8>>,
    record: JsonValue,
    writes: Seq<(Seq<u8>, Seq<u8>)>,
    r: Result<(), StoreError>,
) -> bool {
    match r {
        Ok(_) => is_writable(record) && reads_back(record) && post == apply_writes(pre, writes),
        Err(StoreError::Write(_)) => !is_writable(record) && post == pre,
        Err(StoreError::Storage(_)) => is_writable(record) && wrote_some(pre, post, writes),
        Err(_) => false,
    }
}

/// How the storing of a record ends, whose stored form is `record` and
/// whose writes are `writes`: as [`appended`], but that nothing is said of
/// reading the record back.
pub open spec fn written(
    pre: Map<Seq<u8>, Seq<u8>>,
    post: Map<Seq<u8>, Seq<u8>>,
    record: JsonValue,
    writes: Seq<(Seq<u8>, Seq<u8>)>,
    r: Result<(), StoreError>,
) -> bool {
    match r {
        Ok(_) => is_writable(record) && post == apply_writes(pre, writes),
        Err(StoreError::Write(_)) => !is_writable(record) && post == pre,
        Err(StoreError::Storage(_)) => is_writable(record) && wrote_some(pre, post, writes),
        Err(_) => false,
    }
}

/// One operation on the store, with the identifier that it answered or, for
/// a new record, was given.
pub enum Step {
    /// A project is ensured.
    Project { name: Seq<char>, root_path: Seq<char>, id: Seq<char> },
    /// A file is ensured.
    File {
        project_id: Seq<char>,
        path: Seq<char>,
        lang: Seq<char>,
        category: Option<Seq<char>>,
        purpose: Option<Seq<char>>,
        id: Seq<char>,
    },
    /// A module is upserted.
    Module { name: Seq<char>, kind: Seq<char>, path: Seq<char>, id: Seq<char> },
    /// A record is stored by its writes.
    Record { record: JsonValue, writes: Seq<(Seq<u8>, Seq<u8>)> },
    /// A symbol is looked up by its external identifier; `id` is what the
    /// store answers.
    Found { usr: Seq<char>, id: Option<Seq<char>> },
}

/// The step that records a symbol.
pub open spec fn symbol_step(record: SymbolView) -> Step {
    Step::Record { record: record.to_json(), writes: symbol_writes(record) }
}

/// The step that records an occurrence.
pub open spec fn occurrence_step(record: OccurrenceView) -> Step {
    Step::Record { record: record.to_json(), writes: occurrence_writes(record) }
}

/// The step that records an edge.
pub open spec fn edge_step(record: EdgeView) -> Step {
    Step::Record { record: record.to_json(), writes: edge_writes(record) }
}

/// `post` is `pre` after the step has been taken to its end.
pub open spec fn step_taken(
    pre: Map<Seq<u8>, Seq<u8>>,
    post: Map<Seq<u8>, Seq<u8>>,
    step: Step,
) -> bool {
    match step {
        Step::Project { name, root_path, id } => project_ensured(pre, post, name, root_path, id),
        Step::File { project_id, path, lang, category, purpose, id } => file_ensured(
            pre,
            post,
            project_id,
            path,
            lang,
            category,
            purpose,
            id,
        ),
        Step::Module { name, kind, path, id } => module_upserted(pre, post, name, kind, path, id),
        Step::Record { record, writes } => is_writable(record) && post == apply_writes(pre, writes),
        Step::Found { usr, id } => post == pre && symbol_id_in(pre, usr) == id,
    }
}

/// `post` is `pre` after the step has failed: nothing is written, or some
/// of the writes of a new record are, from the start.
pub open spec fn step_begun(
    pre: Map<Seq<u8>, Seq<u8>>,
    post: Map<Seq<u8>, Seq<u8>>,
    step: Step,
) -> bool {
    match step {
        Step::Project { name, root_path, id } => post == pre || (!pre.contains_key(
            text_key("project:"@ + root_path),
        ) && exists|created_at: Seq<char>|
            wrote_some(
                pre,
                post,
                twin_writes(
                    "project:"@,
                    root_path,
                    id,
                    (#[trigger] new_project(name, root_path, id, created_at)).to_json(),
                ),
            )),
        Step::File { project_id, path, lang, category, purpose, id } => post == pre || (
        !pre.contains_key(text_key("file:"@ + path)) && wrote_some(
            pre,
            post,
            twin_writes(
                "file:"@,
                path,
                id,
                new_file(project_id, path, lang, category, purpose, id).to_json(),
            ),
        )),
        Step::Module { name, kind, path, id } => post == pre || (!pre.contains_key(
            text_key("module:"@ + name),
        ) && wrote_some(
            pre,
            post,
            twin_writes("module:"@, name, id, new_module(name, kind, path, id).to_json()),
        )),
        Step::Record { record, writes } => wrote_some(pre, post, writes),
        Step::Found { usr, id } => post == pre,
    }
}

/// The stores that the steps lead through, from `pre` to `post`: each step
/// taken from one store to the next.
#[verifier::opaque]
pub open spec fn leads_through(
    stores: Seq<Map<Seq<u8>, Seq<u8>>>,
    pre: Map<Seq<u8>, Seq<u8>>,
    post: Map<Seq<u8>, Seq<u8>>,
    steps: Seq<Step>,
) -> bool {
    &&& stores.len() == steps.len() + 1
    &&& stores[0] == pre
    &&& stores[steps.len() as int] == post
    &&& forall|i: int|
        0 <= i < steps.len() ==> step_taken(#[trigger] stores[i], stores[i + 1], steps[i])
}

/// `post` is `pre` after the steps have been taken, one after the other.
pub open spec fn steps_taken(
    pre: Map<Seq<u8>, Seq<u8>>,
    post: Map<Seq<u8>, Seq<u8>>,
    steps: Seq<Step>,
) -> bool {
    exists|stores: Seq<Map<Seq<u8>, Seq<u8>>>| #[trigger] leads_through(stores, pre, post, steps)
}

/// `post` is `pre` after the first of the steps have been taken and the one
/// that follows them has failed.
pub open spec fn steps_begun(
    pre: Map<Seq<u8>, Seq<u8>>,
    post: Map<Seq<u8>, Seq<u8>>,
    steps: Seq<Step>,
) -> bool {
    exists|k: int, middle: Map<Seq<u8>, Seq<u8>>|
        {
            &&& 0 <= k < steps.len()
            &&& #[trigger] steps_taken(pre, middle, steps.take(k))
            &&& step_begun(middle, post, steps[k])
        }
}

/// No step: the store stays as it is.
pub proof fn lemma_no_step(pre: Map<Seq<u8>, Seq<u8>>)
    ensures
        steps_taken(pre, pre, Seq::<Step>::empty()),
{
    reveal(leads_through);
    assert(leads_through(seq![pre], pre, pre, Seq::<Step>::empty()));
}

/// One step taken, alone.
pub proof fn lemma_one_step(pre: Map<Seq<u8>, Seq<u8>>, post: Map<Seq<u8>, Seq<u8>>, step: Step)
    requires
        step_taken(pre, post, step),
    ensures
        steps_taken(pre, post, seq![step]),
{
    lemma_no_step(pre);
    lemma_step_taken(pre, pre, post, Seq::empty(), step);
    assert(Seq::<Step>::empty().push(step) =~= seq![step]);
}

/// One more step taken.
pub proof fn lemma_step_taken(
    pre: Map<Seq<u8>, Seq<u8>>,
    middle: Map<Seq<u8>, Seq<u8>>,
    post: Map<Seq<u8>, Seq<u8>>,
    steps: Seq<Step>,
    step: Step,
)
    requires
        steps_taken(pre, middle, steps),
        step_taken(middle, post, step),
    ensures
        steps_taken(pre, post, steps.push(step)),
{
    reveal(leads_through);
    let stores = choose|stores: Seq<Map<Seq<u8>, Seq<u8>>>| #[trigger]
        leads_through(stores, pre, middle, steps);
    let longer = stores.push(post);
    let more = steps.push(step);
    assert forall|i: int| 0 <= i < more.len() implies step_taken(
        #[trigger] longer[i],
        longer[i + 1],
        more[i],
    ) by {
        if i < steps.len() {
            assert(step_taken(stores[i], stores[i + 1], steps[i]));
        }
    }
    assert(leads_through(longer, pre, post, more));
}

/// Steps taken one run after the other are the steps of both runs taken.
pub proof fn lemma_steps_joined(
    pre: Map<Seq<u8>, Seq<u8>>,
    middle: Map<Seq<u8>, Seq<u8>>,
    post: Map<Seq<u8>, Seq<u8>>,
    first: Seq<Step>,
    second: Seq<Step>,
)
    requires
        steps_taken(pre, middle, first),
        steps_taken(middle, post, second),
    ensures
        steps_taken(pre, post, first + second),
{
    reveal(leads_through);
    let a = choose|stores: Seq<Map<Seq<u8>, Seq<u8>>>| #[trigger]
        leads_through(stores, pre, middle, first);
    let b = choose|stores: Seq<Map<Seq<u8>, Seq<u8>>>| #[trigger]
        leads_through(stores, middle, post, second);
    let all = a + b.drop_first();
    let steps = first + second;
    assert forall|i: int| 0 <= i < steps.len() implies step_taken(
        #[trigger] all[i],
        all[i + 1],
        steps[i],
    ) by {
        if i < first.len() {
            assert(step_taken(a[i], a[i + 1], first[i]));
            if i + 1 == a.len() {
                assert(all[i + 1] == b[1]);
            }
        } else {
            let j = i - first.len();
            assert(step_taken(b[j], b[j + 1], second[j]));
            if j == 0 {
                assert(all[i] == a[first.len() as int]);
            } else {
                assert(all[i] == b[j]);
            }
            assert(all[i + 1] == b[j + 1]);
        }
    }
    assert(leads_through(all, pre, post, steps));
}

/// Steps that keep what the store holds, one after the other, keep it.
pub proof fn lemma_steps_keep_keys(
    pre: Map<Seq<u8>, Seq<u8>>,
    post: Map<Seq<u8>, Seq<u8>>,
    steps: Seq<Step>,
)
    requires
        steps_taken(pre, post, steps),
    ensures
        keeps_keys(pre, post),
{
    reveal(leads_through);
    let stores = choose|stores: Seq<Map<Seq<u8>, Seq<u8>>>| #[trigger]
        leads_through(stores, pre, post, steps);
    lemma_stores_keep_keys(stores, steps, steps.len() as int);
}

/// Each store that steps lead through holds what the first one held.
pub proof fn lemma_stores_keep_keys(stores: Seq<Map<Seq<u8>, Seq<u8>>>, steps: Seq<Step>, n: int)
    requires
        stores.len() == steps.len() + 1,
        forall|i: int|
            0 <= i < steps.len() ==> step_taken(#[trigger] stores[i], stores[i + 1], steps[i]),
        0 <= n <= steps.len(),
    ensures
        keeps_keys(stores[0], stores[n]),
    decreases n,
{
    if n > 0 {
        lemma_stores_keep_keys(stores, steps, n - 1);
        assert(step_taken(stores[n - 1], stores[n - 1 + 1], steps[n - 1]));
        lemma_step_keeps_keys(stores[n - 1], stores[n], steps[n - 1]);
        lemma_keeps_keys_twice(stores[0], stores[n - 1], stores[n]);
    }
}

/// A step that fails after the steps before it were taken.
pub proof fn lemma_step_failed(
    pre: Map<Seq<u8>, Seq<u8>>,
    middle: Map<Seq<u8>, Seq<u8>>,
    post: Map<Seq<u8>, Seq<u8>>,
    done: Seq<Step>,
    rest: Seq<Step>,
    all: Seq<Step>,
)
    requires
        steps_taken(pre, middle, done),
        rest.len() > 0,
        step_begun(middle, post, rest[0]),
        all =~= done + rest,
    ensures
        steps_begun(pre, post, all),
        keeps_keys(pre, post),
{
    let k = done.len() as int;
    assert(all.take(k) =~= done);
    assert(all[k] == rest[0]);
    lemma_steps_keep_keys(pre, middle, done);
    lemma_step_keeps_keys(middle, post, rest[0]);
    lemma_keeps_keys_twice(pre, middle, post);
}

/// Steps of which one fails, after steps that were taken.
pub proof fn lemma_steps_failed(
    pre: Map<Seq<u8>, Seq<u8>>,
    middle: Map<Seq<u8>, Seq<u8>>,
    post: Map<Seq<u8>, Seq<u8>>,
    done: Seq<Step>,
    rest: Seq<Step>,
    all: Seq<Step>,
)
    requires
        steps_taken(pre, middle, done),
        steps_begun(middle, post, rest),
        all =~= done + rest,
    ensures
        steps_begun(pre, post, all),
        keeps_keys(pre, post),
{
    let (k, reached) = choose|k: int, reached: Map<Seq<u8>, Seq<u8>>|
        {
            &&& 0 <= k < rest.len()
            &&& #[trigger] steps_taken(middle, reached, rest.take(k))
            &&& step_begun(reached, post, rest[k])
        };
    lemma_steps_joined(pre, middle, reached, done, rest.take(k));
    lemma_step_failed(pre, reached, post, done + rest.take(k), rest.skip(k), all);
}

/// How two steps in a row end: both taken, or one of them failed.
pub proof fn lemma_pair(
    pre: Map<Seq<u8>, Seq<u8>>,
    middle: Map<Seq<u8>, Seq<u8>>,
    post: Map<Seq<u8>, Seq<u8>>,
    first: Step,
    second: Step,
)
    requires
        step_taken(pre, middle, first),
    ensures
        step_taken(middle, post, second) ==> steps_taken(pre, post, seq![first, second]),
        step_begun(middle, post, second) ==> steps_begun(pre, post, seq![first, second]),
{
    lemma_one_step(pre, middle, first);
    if step_taken(middle, post, second) {
        lemma_step_taken(pre, middle, post, seq![first], second);
        assert(seq![first].push(second) =~= seq![first, second]);
    }
    if step_begun(middle, post, second) {
        lemma_step_failed(pre, middle, post, seq![first], seq![second], seq![first, second]);
    }
}

/// The first of some steps fails.
pub proof fn lemma_first_failed(
    pre: Map<Seq<u8>, Seq<u8>>,
    post: Map<Seq<u8>, Seq<u8>>,
    steps: Seq<Step>,
)
    requires
        steps.len() > 0,
        step_begun(pre, post, steps[0]),
    ensures
        steps_begun(pre, post, steps),
{
    lemma_no_step(pre);
    lemma_step_failed(pre, pre, post, Seq::empty(), steps, steps);
}

/// Every step keeps what the store holds: nothing is removed.
pub proof fn lemma_step_keeps_keys(
    pre: Map<Seq<u8>, Seq<u8>>,
    post: Map<Seq<u8>, Seq<u8>>,
    step: Step,
)
    requires
        step_taken(pre, post, step) || step_begun(pre, post, step),
    ensures
        keeps_keys(pre, post),
{
    match step {
        Step::Project { name, root_path, id } => {
            if post != pre {
                if step_taken(pre, post, step) {
                    let t = choose|t: Seq<char>|
                        post == apply_writes(
                            pre,
                            twin_writes(
                                "project:"@,
                                root_path,
                                id,
                                (#[trigger] new_project(name, root_path, id, t)).to_json(),
                            ),
                        );
                    lemma_writes_keep_keys(
                        pre,
                        twin_writes("project:"@, root_path, id, new_project(name, root_path, id, t).to_json()),
                    );
                } else {
                    let t = choose|t: Seq<char>|
                        wrote_some(
                            pre,
                            post,
                            twin_writes(
                                "project:"@,
                                root_path,
                                id,
                                (#[trigger] new_project(name, root_path, id, t)).to_json(),
                            ),
                        );
                    lemma_wrote_some_keeps_keys(
                        pre,
                        post,
                        twin_writes("project:"@, root_path, id, new_project(name, root_path, id, t).to_json()),
                    );
                }
            }
        },
        Step::File { project_id, path, lang, category, purpose, id } => {
            let writes = twin_writes(
                "file:"@,
                path,
                id,
                new_file(project_id, path, lang, category, purpose, id).to_json(),
            );
            if post != pre {
                if step_taken(pre, post, step) {
                    lemma_writes_keep_keys(pre, writes);
                } else {
                    lemma_wrote_some_keeps_keys(pre, post, writes);
                }
            }
        },
        Step::Module { name, kind, path, id } => {
            let writes = twin_writes("module:"@, name, id, new_module(name, kind, path, id).to_json());
            if post != pre {
                if step_taken(pre, post, step) {
                    lemma_writes_keep_keys(pre, writes);
                } else {
                    lemma_wrote_some_keeps_keys(pre, post, writes);
                }
            }
        },
        Step::Record { record, writes } => {
            if step_taken(pre, post, step) {
                lemma_writes_keep_keys(pre, writes);
            } else {
                lemma_wrote_some_keeps_keys(pre, post, writes);
            }
        },
        Step::Found { usr, id } => {},
    }
}

/// Some of the writes, from the start, remove nothing.
pub proof fn lemma_wrote_some_keeps_keys(
    pre: Map<Seq<u8>, Seq<u8>>,
    post: Map<Seq<u8>, Seq<u8>>,
    writes: Seq<(Seq<u8>, Seq<u8>)>,
)
    requires
        wrote_some(pre, post, writes),
    ensures
        keeps_keys(pre, post),
{
    let n = choose|n: int| 0 <= n <= writes.len() && post == #[trigger] apply_writes(pre, writes.take(n));
    lemma_writes_keep_keys(pre, writes.take(n));
}

/// The text that stored bytes are read as: the text they encode where they
/// are UTF-8, and else that text with each ill-formed run replaced.
pub open spec fn stored_text(bytes: Seq<u8>) -> Seq<char> {
    if valid_utf8(bytes) {
        decode_utf8(bytes)
    } else {
        lossy_text(bytes)
    }
}

/// The identifier to which the index of external identifiers in `entries`
/// points for `usr`.
pub open spec fn symbol_id_in(entries: Map<Seq<u8>, Seq<u8>>, usr: Seq<char>) -> Option<
    Seq<char>,
> {
    if entries.contains_key(text_key("symbol_by_usr:"@ + usr)) {
        Some(stored_text(entries[text_key("symbol_by_usr:"@ + usr)]))
    } else {
        None
    }
}

/// The symbol record that `entries` holds under an identifier.
pub open spec fn symbol_in(entries: Map<Seq<u8>, Seq<u8>>, id: Seq<char>) -> Option<SymbolView> {
    match json_in(entries, "symbol:"@ + id) {
        Some(v) => SymbolView::from_json(v),
        None => None,
    }
}

/// What one index entry of an edge adds to the answer of a query: the name
/// of the edge's target symbol, or nothing where the edge names no target
/// symbol or the store holds no record under the target's identifier. `None`
/// where the entry is not an edge record, or the target's record is not a
/// symbol record: the query then fails.
pub open spec fn edge_target(entries: Map<Seq<u8>, Seq<u8>>, edge_text: Seq<u8>) -> Option<
    Option<Seq<char>>,
> {
    match json_parse(edge_text) {
        None => None,
        Some(v) => match EdgeView::from_json(v) {
            None => None,
            Some(edge) => match edge.to_sym {
                None => Some(None),
                Some(to) => if entries.contains_key(text_key("symbol:"@ + to)) {
                    match symbol_in(entries, to) {
                        Some(symbol) => Some(Some(symbol.name)),
                        None => None,
                    }
                } else {
                    Some(None)
                },
            },
        },
    }
}

/// The names that the entries of a scan add to the answer of a query, in the
/// order of the scan. `None` where one of them cannot be read.
pub open spec fn target_names(
    entries: Map<Seq<u8>, Seq<u8>>,
    scan: Seq<(Seq<u8>, Seq<u8>)>,
) -> Option<Seq<Seq<char>>>
    decreases scan.len(),
{
    if scan.len() == 0 {
        Some(Seq::empty())
    } else {
        match target_names(entries, scan.drop_last()) {
            None => None,
            Some(names) => match edge_target(entries, scan.last().1) {
                None => None,
                Some(None) => Some(names),
                Some(Some(name)) => Some(names.push(name)),
            },
        }
    }
}

/// Once an entry of a scan cannot be read, no longer scan can be read.
pub proof fn lemma_target_names_fail(
    entries: Map<Seq<u8>, Seq<u8>>,
    scan: Seq<(Seq<u8>, Seq<u8>)>,
    n: int,
)
    requires
        0 <= n <= scan.len(),
        target_names(entries, scan.take(n)) is None,
    ensures
        target_names(entries, scan) is None,
    decreases scan.len() - n,
{
    if n < scan.len() {
        assert(scan.take(n + 1).drop_last() =~= scan.take(n));
        lemma_target_names_fail(entries, scan, n + 1);
    } else {
        assert(scan.take(n) =~= scan);
    }
}

/// What `query_edges_by_kind_from` answers on a store that holds `entries`:
/// nothing where `from_usr` points to no symbol, and else the names of the
/// targets of the edges of kind `kind` that leave the symbol, in the order
/// of their index keys.
pub open spec fn is_query_answer(
    entries: Map<Seq<u8>, Seq<u8>>,
    kind: Seq<char>,
    from_usr: Seq<char>,
    answer: Option<Seq<Seq<char>>>,
) -> bool {
    match symbol_id_in(entries, from_usr) {
        None => answer == Some(Seq::<Seq<char>>::empty()),
        Some(id) => exists|scan: Seq<(Seq<u8>, Seq<u8>)>|
            {
                &&& is_prefix_scan(scan, entries, text_key(edge_index_prefix(id, kind)))
                &&& #[trigger] target_names(entries, scan) == answer
            },
    }
}

/// What a scan yields when each of its values is read with `read` and the
/// values that cannot be read are passed over.
pub open spec fn collect<T>(scan: Seq<(Seq<u8>, Seq<u8>)>, read: spec_fn(Seq<u8>) -> Option<T>) -> Seq<
    T,
>
    decreases scan.len(),
{
    if scan.len() == 0 {
        Seq::empty()
    } else {
        let rest = collect(scan.drop_last(), read);
        match read(scan.last().1) {
            Some(item) => rest.push(item),
            None => rest,
        }
    }
}

/// One more entry of a scan: what it reads as comes last, or nothing is
/// added where it cannot be read.
pub proof fn lemma_collect_step<T>(
    scan: Seq<(Seq<u8>, Seq<u8>)>,
    i: int,
    read: spec_fn(Seq<u8>) -> Option<T>,
)
    requires
        0 <= i < scan.len(),
    ensures
        collect(scan.take(i + 1), read) == match read(scan[i].1) {
            Some(item) => collect(scan.take(i), read).push(item),
            None => collect(scan.take(i), read),
        },
{
    assert(scan.take(i + 1).drop_last() =~= scan.take(i));
    assert(scan.take(i + 1).last() == scan[i]);
}

/// `items` is what the entries under `prefix` yield when each is read with
/// `read`, in the order of their keys, the unreadable ones passed over.
pub open spec fn is_listing<T>(
    entries: Map<Seq<u8>, Seq<u8>>,
    prefix: Seq<char>,
    read: spec_fn(Seq<u8>) -> Option<T>,
    items: Seq<T>,
) -> bool {
    exists|scan: Seq<(Seq<u8>, Seq<u8>)>|
        is_prefix_scan(scan, entries, text_key(prefix)) && #[trigger] collect(scan, read) == items
}

/// `n` entries have keys that begin with `prefix`.
pub open spec fn is_count(entries: Map<Seq<u8>, Seq<u8>>, prefix: Seq<char>, n: nat) -> bool {
    exists|scan: Seq<(Seq<u8>, Seq<u8>)>| #[trigger]
        is_prefix_scan(scan, entries, text_key(prefix)) && scan.len() == n
}

/// The file record that a stored text holds.
pub open spec fn file_of_text(text: Seq<u8>) -> Option<FileView> {
    match json_parse(text) {
        Some(v) => FileView::from_json(v),
        None => None,
    }
}

/// The symbol record that a stored text holds.
pub open spec fn symbol_of_text(text: Seq<u8>) -> Option<SymbolView> {
    match json_parse(text) {
        Some(v) => SymbolView::from_json(v),
        None => None,
    }
}

/// The module record that a stored text holds.
pub open spec fn module_of_text(text: Seq<u8>) -> Option<ModuleView> {
    match json_parse(text) {
        Some(v) => ModuleView::from_json(v),
        None => None,
    }
}

/// The edge record that a stored text holds.
pub open spec fn edge_of_text(text: Seq<u8>) -> Option<EdgeView> {
    match json_parse(text) {
        Some(v) => EdgeView::from_json(v),
        None => None,
    }
}

/// The text, or the empty text where there is none.
pub open spec fn text_or_empty(text: Option<Seq<char>>) -> Seq<char> {
    match text {
        Some(s) => s,
        None => Seq::empty(),
    }
}

/// What a listing shows of a file record.
pub open spec fn file_info(file: FileView) -> FileInfoView {
    FileInfoView {
        id: file.id,
        path: file.path,
        language: file.lang,
        category: text_or_empty(file.category),
        purpose: text_or_empty(file.purpose),
    }
}

/// What a listing shows of a symbol record.
pub open spec fn symbol_info(symbol: SymbolView) -> SymbolInfoView {
    SymbolInfoView { id: symbol.id, name: symbol.name, kind: symbol.kind, file_id: symbol.file_id }
}

/// What a listing shows of the file record that a stored text holds.
pub open spec fn file_info_of_text(text: Seq<u8>) -> Option<FileInfoView> {
    match file_of_text(text) {
        Some(file) => Some(file_info(file)),
        None => None,
    }
}

/// What a listing shows of the symbol record that a stored text holds.
pub open spec fn symbol_info_of_text(text: Seq<u8>) -> Option<SymbolInfoView> {
    match symbol_of_text(text) {
        Some(symbol) => Some(symbol_info(symbol)),
        None => None,
    }
}

/// The values of a list of file infos.
pub open spec fn file_infos_view(infos: Seq<FileInfo>) -> Seq<FileInfoView> {
    Seq::new(infos.len(), |i: int| infos[i]@)
}

/// The values of a list of symbol infos.
pub open spec fn symbol_infos_view(infos: Seq<SymbolInfo>) -> Seq<SymbolInfoView> {
    Seq::new(infos.len(), |i: int| infos[i]@)
}

/// `infos` is the listing of the file namespace of `entries`.
pub open spec fn is_file_listing(entries: Map<Seq<u8>, Seq<u8>>, infos: Seq<FileInfoView>) -> bool {
    is_listing(entries, "file:"@, |text: Seq<u8>| file_info_of_text(text), infos)
}

/// `infos` is the listing of the symbol namespace of `entries`.
pub open spec fn is_symbol_listing(
    entries: Map<Seq<u8>, Seq<u8>>,
    infos: Seq<SymbolInfoView>,
) -> bool {
    is_listing(entries, "symbol:"@, |text: Seq<u8>| symbol_info_of_text(text), infos)
}

/// The files of a listing whose path matches `query`.
pub open spec fn files_matching(infos: Seq<FileInfoView>, query: Seq<char>) -> Seq<FileInfoView> {
    infos.filter(|info: FileInfoView| matches_query(info.path, query))
}

/// The symbols of a listing whose name matches `query`.
pub open spec fn symbols_matching(infos: Seq<SymbolInfoView>, query: Seq<char>) -> Seq<
    SymbolInfoView,
> {
    infos.filter(|info: SymbolInfoView| matches_query(info.name, query))
}

/// The import that a stored edge stands for, by the names of the two
/// modules: the edge is of kind `module-import`, names both modules, and the
/// store holds a module record under either identifier.
pub open spec fn import_of(entries: Map<Seq<u8>, Seq<u8>>, edge_text: Seq<u8>) -> Option<
    (Seq<char>, Seq<char>),
> {
    match edge_of_text(edge_text) {
        Some(edge) => if edge.kind == "module-import"@ && edge.from_module is Some
            && edge.to_module is Some {
            match (module_in(entries, edge.from_module->0), module_in(entries, edge.to_module->0)) {
                (Some(from), Some(to)) => Some((from.name, to.name)),
                _ => None,
            }
        } else {
            None
        },
        None => None,
    }
}

/// The values of a list of modules.
pub open spec fn modules_view(modules: Seq<Module>) -> Seq<ModuleView> {
    Seq::new(modules.len(), |i: int| modules[i]@)
}

/// The values of a list of pairs of names.
pub open spec fn name_pairs_view(pairs: Seq<(String, String)>) -> Seq<(Seq<char>, Seq<char>)> {
    Seq::new(pairs.len(), |i: int| (pairs[i].0@, pairs[i].1@))
}

/// `modules` is the listing of the module namespace of `entries`: one module
/// for each entry that reads as a module record.
pub open spec fn is_module_listing(entries: Map<Seq<u8>, Seq<u8>>, modules: Seq<ModuleView>) -> bool {
    is_listing(entries, "module:"@, |text: Seq<u8>| module_of_text(text), modules)
}

/// `imports` is the module graph of `entries`: one pair of names for each
/// stored edge that stands for an import.
pub open spec fn is_import_listing(
    entries: Map<Seq<u8>, Seq<u8>>,
    imports: Seq<(Seq<char>, Seq<char>)>,
) -> bool {
    is_listing(entries, "edge:"@, |text: Seq<u8>| import_of(entries, text), imports)
}

/// Whether the text of `query` occurs in `text`, both taken in lower case.
pub open spec fn matches_query(text: Seq<char>, query: Seq<char>) -> bool {
    contains_seq(lowercase(text), lowercase(query))
}

/// The advice given when a store cannot be opened because its files are in
/// use or cannot be made.
pub open spec fn in_use_advice() -> Seq<char> {
    "Cannot create file when it already exists. This may indicate:\n1. The database is already open by another process\n2. Insufficient permissions to access the database directory\n3. The database path is being used by another application\n\nTry closing other applications that might be using the database or choose a different path."@
}

/// The message for a store at `path` that could not be opened for `reason`.
pub open spec fn open_failure(path: Seq<char>, reason: Seq<char>) -> Seq<char> {
    let head = "Failed to open database at '"@ + path + "': "@;
    if contains_seq(reason, "already exists"@) || contains_seq(reason, "183"@) {
        head + in_use_advice()
    } else if contains_seq(reason, "IO"@) {
        head + "IO error: "@ + reason
    } else {
        head + reason
    }
}

/// Whether an error says that the store at `path` could not be opened, for
/// whatever reason the underlying store gave.
pub open spec fn is_open_failure(e: StoreError, path: Seq<char>) -> bool {
    &&& e is Open
    &&& exists|reason: Seq<char>| e->Open_0@ == #[trigger] open_failure(path, reason)
}

/// The message for a store at `path` that could not be opened for `reason`:
/// advice where the reason speaks of files that exist already, and else the
/// reason itself, marked as an I/O error where it is one.
pub fn open_failure_message(path: &str, reason: &str) -> (r: String)
    ensures
        r@ == open_failure(path@, reason@),
{
    let mut message = concat2("Failed to open database at '", path);
    message.append("': ");
    if str_contains(reason, "already exists") || str_contains(reason, "183") {
        message.append(
            "Cannot create file when it already exists. This may indicate:\n1. The database is already open by another process\n2. Insufficient permissions to access the database directory\n3. The database path is being used by another application\n\nTry closing other applications that might be using the database or choose a different path.",
        );
    } else if str_contains(reason, "IO") {
        message.append("IO error: ");
        message.append(reason);
    } else {
        message.append(reason);
    }
    message
}

/// The text that an optional piece of text holds.
pub open spec fn text_of(text: Option<&str>) -> Option<Seq<char>> {
    match text {
        Some(s) => Some(s@),
        None => None,
    }
}

/// An owned copy of an optional piece of text.
pub fn owned(text: Option<&str>) -> (r: Option<String>)
    ensures
        r.deep_view() == text_of(text),
{
    match text {
        Some(s) => Some(String::from_str(s)),
        None => None,
    }
}

/// Whether the writer takes a record's JSON form: it is then stored as the
/// text that the writer gives.
pub open spec fn is_writable(record: JsonValue) -> bool {
    json_written(record) is Some
}

/// The stored text of a record's JSON form; `Write` exactly where the record
/// is nested too deep or the writer refuses it.
pub(crate) fn record_text(record: &Json) -> (r: Result<Vec<u8>, StoreError>)
    ensures
        match r {
            Ok(text) => {
                &&& is_writable(record@)
                &&& text@ == json_text(record@)
                &&& record@.is_canonical() ==> reads_back(record@)
            },
            Err(e) => e is Write && (!record@.nesting_within(MAX_NESTING as nat) || !is_writable(
                record@,
            )),
        },
{
    match encode(record) {
        Ok(text) => Ok(text),
        Err(e) => Err(StoreError::Write(json_error_message(e))),
    }
}

/// The two writes that make a record known under a natural key and under its
/// identifier.
fn twin(namespace: &str, natural: &str, id: &str, text: Vec<u8>) -> (r: Vec<(String, Vec<u8>)>)
    ensures
        writes_view(r@) == seq![
            (text_key(namespace@ + natural@), text@),
            (text_key(namespace@ + id@), text@),
        ],
{
    let mut writes: Vec<(String, Vec<u8>)> = Vec::new();
    writes.push((concat2(namespace, natural), text.clone()));
    writes.push((concat2(namespace, id), text));
    proof {
        assert(writes_view(writes@) =~= seq![
            (text_key(namespace@ + natural@), text@),
            (text_key(namespace@ + id@), text@),
        ]);
    }
    writes
}

/// The symbol graph store.
pub struct SymgraphDb {
    pub db: sled::Db,
}

impl SymgraphDb {
    /// Opens the store at `path`, making it where there is none.
    ///
    /// Whether this succeeds lies with the file system, and nothing is known
    /// of what an opened store holds. A failure is `Open`, with the message
    /// of [`open_failure`] for this path and the reason that the underlying
    /// store gave.
    pub fn open(path: &str) -> (r: Result<SymgraphDb, StoreError>)
        ensures
            r matches Err(e) ==> is_open_failure(e, path@),
    {
        match kv_open(path) {
            Ok(db) => Ok(SymgraphDb { db }),
            Err(e) => {
                let reason = kv_error_text(&e);
                let failure = StoreError::Open(open_failure_message(path, reason.as_str()));
                assert(failure->Open_0@ == open_failure(path@, reason@));
                Err(failure)
            },
        }
    }

    /// Everything the store holds: each key with its value.
    pub open spec fn entries(&self) -> Map<Seq<u8>, Seq<u8>> {
        kv_entries(self.db)
    }

    /// Reads the value under a key text.
    pub(crate) fn read(&self, key: &str) -> (r: Result<Option<Vec<u8>>, StoreError>)
        ensures
            match r {
                Ok(Some(value)) => self.entries().contains_key(text_key(key@))
                    && self.entries()[text_key(key@)] == value@,
                Ok(None) => !self.entries().contains_key(text_key(key@)),
                Err(e) => e is Storage,
            },
    {
        match kv_get(&self.db, key.as_bytes()) {
            Ok(found) => Ok(found),
            Err(e) => Err(StoreError::Storage(kv_error_text(&e))),
        }
    }

    /// Reads the JSON value under a key text.
    pub(crate) fn read_json(&self, key: &str) -> (r: Result<Option<Json>, StoreError>)
        ensures
            match r {
                Ok(Some(value)) => json_in(self.entries(), key@) == Some(value@),
                Ok(None) => !self.entries().contains_key(text_key(key@)),
                Err(StoreError::Corrupt(_)) => self.entries().contains_key(text_key(key@))
                    && json_in(self.entries(), key@) is None,
                Err(e) => e is Storage,
            },
    {
        match self.read(key)? {
            None => Ok(None),
            Some(text) => match decode(text.as_slice()) {
                Ok(value) => Ok(Some(value)),
                Err(e) => Err(StoreError::Corrupt(json_error_message(e))),
            },
        }
    }

    /// The identifier of the project rooted at `root_path`, which becomes
    /// known to the store if it was not. The name of a project that is known
    /// already stays as it is.
    ///
    /// On an error nothing has been written, but for `Storage` on a new
    /// root path, where the writes may have stopped part of the way. `Write`
    /// comes exactly where the root path is new and the writer refuses the
    /// new record.
    pub fn ensure_project(&mut self, name: &str, root_path: &str) -> (r: Result<
        String,
        StoreError,
    >)
        ensures
            match r {
                Ok(id) => project_ensured(
                    old(self).entries(),
                    final(self).entries(),
                    name@,
                    root_path@,
                    id@,
                ),
                Err(StoreError::Corrupt(_)) => {
                    &&& final(self).entries() == old(self).entries()
                    &&& old(self).entries().contains_key(text_key("project:"@ + root_path@))
                    &&& project_in(old(self).entries(), root_path@) is None
                },
                Err(StoreError::Write(_)) => {
                    &&& final(self).entries() == old(self).entries()
                    &&& !old(self).entries().contains_key(text_key("project:"@ + root_path@))
                    &&& exists|id: Seq<char>, created_at: Seq<char>|
                        !is_writable(
                            (#[trigger] new_project(name@, root_path@, id, created_at)).to_json(),
                        )
                },
                Err(StoreError::Storage(_)) => if old(self).entries().contains_key(
                    text_key("project:"@ + root_path@),
                ) {
                    final(self).entries() == old(self).entries()
                } else {
                    exists|id: Seq<char>, created_at: Seq<char>|
                        wrote_some(
                            old(self).entries(),
                            final(self).entries(),
                            twin_writes(
                                "project:"@,
                                root_path@,
                                id,
                                #[trigger] new_project(name@, root_path@, id, created_at).to_json(),
                            ),
                        )
                },
                Err(StoreError::Open(_)) => false,
            },
            keeps_keys(old(self).entries(), final(self).entries()),
            r is Ok ==> final(self).entries().contains_key(text_key("project:"@ + root_path@)),
    {
        let id = new_id();
        let created_at = now_text();
        self.ensure_project_with_id(name, root_path, id.as_str(), created_at.as_str())
    }

    /// As [`SymgraphDb::ensure_project`], with the identifier and the time
    /// that a new project gets handed in.
    pub fn ensure_project_with_id(
        &mut self,
        name: &str,
        root_path: &str,
        id: &str,
        created_at: &str,
    ) -> (r: Result<String, StoreError>)
        ensures
            match r {
                Ok(answer) => {
                    &&& project_ensured(
                        old(self).entries(),
                        final(self).entries(),
                        name@,
                        root_path@,
                        answer@,
                    )
                    &&& !old(self).entries().contains_key(text_key("project:"@ + root_path@)) ==> {
                        let record = new_project(name@, root_path@, id@, created_at@).to_json();
                        &&& answer@ == id@
                        &&& is_writable(record)
                        &&& reads_back(record)
                        &&& final(self).entries() == apply_writes(
                            old(self).entries(),
                            twin_writes("project:"@, root_path@, id@, record),
                        )
                    }
                },
                Err(StoreError::Corrupt(_)) => {
                    &&& final(self).entries() == old(self).entries()
                    &&& old(self).entries().contains_key(text_key("project:"@ + root_path@))
                    &&& project_in(old(self).entries(), root_path@) is None
                },
                Err(StoreError::Write(_)) => {
                    &&& final(self).entries() == old(self).entries()
                    &&& !old(self).entries().contains_key(text_key("project:"@ + root_path@))
                    &&& !is_writable(new_project(name@, root_path@, id@, created_at@).to_json())
                },
                Err(StoreError::Storage(_)) => if old(self).entries().contains_key(
                    text_key("project:"@ + root_path@),
                ) {
                    final(self).entries() == old(self).entries()
                } else {
                    wrote_some(
                        old(self).entries(),
                        final(self).entries(),
                        twin_writes(
                            "project:"@,
                            root_path@,
                            id@,
                            new_project(name@, root_path@, id@, created_at@).to_json(),
                        ),
                    )
                },
                Err(StoreError::Open(_)) => false,
            },
            keeps_keys(old(self).entries(), final(self).entries()),
            r is Ok ==> final(self).entries().contains_key(text_key("project:"@ + root_path@)),
    {
        let key = concat2("project:", root_path);
        let found = match self.read_json(key.as_str()) {
            Ok(found) => found,
            Err(e) => {
                proof {
                    let unused = new_project(name@, root_path@, id@, created_at@).to_json();
                    lemma_wrote_none(
                        self.entries(),
                        twin_writes("project:"@, root_path@, id@, unused),
                    );
                }
                return Err(e);
            },
        };
        match found {
            Some(found) => match Project::from_json(&found) {
                Some(project) => Ok(project.id),
                None => Err(StoreError::Corrupt(concat2("not a project record: ", key.as_str()))),
            },
            None => {
                let id = String::from_str(id);
                let created_at = String::from_str(created_at);
                let project = Project {
                    id: id.clone(),
                    name: String::from_str(name),
                    root_path: String::from_str(root_path),
                    description: None,
                    purpose: None,
                    structure: None,
                    dependencies: None,
                    created_at,
                };
                proof {
                    project@.lemma_round_trip();
                    lemma_nesting_grows(project@.to_json(), 3, MAX_NESTING as nat);
                    assert(project@ == new_project(name@, root_path@, id@, project.created_at@));
                }
                let text = match record_text(&project.to_json()) {
                    Ok(text) => text,
                    Err(e) => {
                        return Err(e);
                    },
                };
                let writes = twin("project:", root_path, id.as_str(), text);
                let ghost planned = twin_writes("project:"@, root_path@, id@, project@.to_json());
                assert(writes_view(writes@) == planned);
                proof {
                    lemma_writes_keep_keys(self.entries(), planned);
                    assert(planned[0].0 == text_key("project:"@ + root_path@));
                }
                match self.write_all(&writes) {
                    Ok(_) => Ok(id),
                    Err(e) => {
                        assert(wrote_some(old(self).entries(), self.entries(), planned));
                        Err(e)
                    },
                }
            },
        }
    }

    /// Sets the four notes of the project with the identifier `project_id`.
    /// A project that the store does not know is left alone, without error.
    /// Only the record under the identifier is rewritten, not the one under
    /// the root path. `Write` comes exactly where the project is known and
    /// the writer refuses the record with its notes.
    pub fn update_project_annotation(
        &mut self,
        project_id: &str,
        description: &str,
        purpose: &str,
        structure: &str,
        dependencies: &str,
    ) -> (r: Result<(), StoreError>)
        ensures
            match r {
                Ok(_) => if old(self).entries().contains_key(text_key("project:"@ + project_id@)) {
                    &&& project_in(old(self).entries(), project_id@) matches Some(p)
                    &&& {
                        let record = annotated(
                            p,
                            description@,
                            purpose@,
                            structure@,
                            dependencies@,
                        ).to_json();
                        &&& is_writable(record)
                        &&& reads_back(record)
                        &&& final(self).entries() == old(self).entries().insert(
                            text_key("project:"@ + project_id@),
                            json_text(record),
                        )
                    }
                } else {
                    final(self).entries() == old(self).entries()
                },
                Err(StoreError::Corrupt(_)) => {
                    &&& final(self).entries() == old(self).entries()
                    &&& old(self).entries().contains_key(text_key("project:"@ + project_id@))
                    &&& project_in(old(self).entries(), project_id@) is None
                },
                Err(StoreError::Write(_)) => {
                    &&& final(self).entries() == old(self).entries()
                    &&& project_in(old(self).entries(), project_id@) matches Some(p)
                    &&& !is_writable(
                        annotated(p, description@, purpose@, structure@, dependencies@).to_json(),
                    )
                },
                Err(StoreError::Storage(_)) => match project_in(old(self).entries(), project_id@) {
                    Some(p) => {
                        let record = annotated(
                            p,
                            description@,
                            purpose@,
                            structure@,
                            dependencies@,
                        ).to_json();
                        ||| final(self).entries() == old(self).entries()
                        ||| final(self).entries() == old(self).entries().insert(
                            text_key("project:"@ + project_id@),
                            json_text(record),
                        )
                    },
                    None => final(self).entries() == old(self).entries(),
                },
                Err(StoreError::Open(_)) => false,
            },
            keeps_keys(old(self).entries(), final(self).entries()),
    {
        let key = concat2("project:", project_id);
        let found = match self.read_json(key.as_str()) {
            Ok(found) => found,
            Err(e) => {
                return Err(e);
            },
        };
        match found {
            None => Ok(()),
            Some(found) => match Project::from_json(&found) {
                None => Err(StoreError::Corrupt(concat2("not a project record: ", key.as_str()))),
                Some(project) => {
                    let ghost before = project@;
                    let mut project = project;
                    project.description = Some(String::from_str(description));
                    project.purpose = Some(String::from_str(purpose));
                    project.structure = Some(String::from_str(structure));
                    project.dependencies = Some(String::from_str(dependencies));
                    proof {
                        project@.lemma_round_trip();
                        lemma_nesting_grows(project@.to_json(), 3, MAX_NESTING as nat);
                        assert(project@ == annotated(
                            before,
                            description@,
                            purpose@,
                            structure@,
                            dependencies@,
                        ));
                    }
                    let text = match record_text(&project.to_json()) {
                        Ok(text) => text,
                        Err(e) => {
                            return Err(e);
                        },
                    };
                    match kv_insert(&mut self.db, key.as_str().as_bytes(), text.as_slice()) {
                        Ok(_) => Ok(()),
                        Err(e) => Err(StoreError::Storage(kv_error_text(&e))),
                    }
                },
            },
        }
    }

    /// The identifier of the file at `path`, which becomes known to the store
    /// if it was not: a new file gets a new identifier and a record with the
    /// language, category and purpose given.
    ///
    /// On an error nothing has been written, but for `Storage` on a new
    /// path, where the writes may have stopped part of the way. `Write` comes
    /// exactly where the path is new and the writer refuses the new record.
    pub fn ensure_file_with_category(
        &mut self,
        project_id: &str,
        path: &str,
        lang: &str,
        category: Option<&str>,
        purpose: Option<&str>,
    ) -> (r: Result<String, StoreError>)
        ensures
            match r {
                Ok(id) => file_ensured(
                    old(self).entries(),
                    final(self).entries(),
                    project_id@,
                    path@,
                    lang@,
                    text_of(category),
                    text_of(purpose),
                    id@,
                ),
                Err(StoreError::Corrupt(_)) => {
                    &&& final(self).entries() == old(self).entries()
                    &&& old(self).entries().contains_key(text_key("file:"@ + path@))
                    &&& file_in(old(self).entries(), path@) is None
                },
                Err(StoreError::Write(_)) => {
                    &&& final(self).entries() == old(self).entries()
                    &&& !old(self).entries().contains_key(text_key("file:"@ + path@))
                    &&& exists|id: Seq<char>|
                        !is_writable(
                            (#[trigger] new_file(
                                project_id@,
                                path@,
                                lang@,
                                text_of(category),
                                text_of(purpose),
                                id,
                            )).to_json(),
                        )
                },
                Err(StoreError::Storage(_)) => if old(self).entries().contains_key(
                    text_key("file:"@ + path@),
                ) {
                    final(self).entries() == old(self).entries()
                } else {
                    exists|id: Seq<char>|
                        wrote_some(
                            old(self).entries(),
                            final(self).entries(),
                            #[trigger] twin_writes(
                                "file:"@,
                                path@,
                                id,
                                new_file(
                                    project_id@,
                                    path@,
                                    lang@,
                                    text_of(category),
                                    text_of(purpose),
                                    id,
                                ).to_json(),
                            ),
                        )
                },
                Err(StoreError::Open(_)) => false,
            },
            keeps_keys(old(self).entries(), final(self).entries()),
            r is Ok ==> final(self).entries().contains_key(text_key("file:"@ + path@)),
    {
        let id = new_id();
        self.ensure_file_with_id(project_id, path, lang, category, purpose, id.as_str())
    }

    /// As [`SymgraphDb::ensure_file_with_category`], with the identifier that
    /// a new file gets handed in.
    pub fn ensure_file_with_id(
        &mut self,
        project_id: &str,
        path: &str,
        lang: &str,
        category: Option<&str>,
        purpose: Option<&str>,
        id: &str,
    ) -> (r: Result<String, StoreError>)
        ensures
            match r {
                Ok(answer) => {
                    &&& file_ensured(
                        old(self).entries(),
                        final(self).entries(),
                        project_id@,
                        path@,
                        lang@,
                        text_of(category),
                        text_of(purpose),
                        answer@,
                    )
                    &&& !old(self).entries().contains_key(text_key("file:"@ + path@)) ==> {
                        &&& answer@ == id@
                        &&& is_writable(
                            new_file(
                                project_id@,
                                path@,
                                lang@,
                                text_of(category),
                                text_of(purpose),
                                id@,
                            ).to_json(),
                        )
                    }
                },
                Err(StoreError::Corrupt(_)) => {
                    &&& final(self).entries() == old(self).entries()
                    &&& old(self).entries().contains_key(text_key("file:"@ + path@))
                    &&& file_in(old(self).entries(), path@) is None
                },
                Err(StoreError::Write(_)) => {
                    &&& final(self).entries() == old(self).entries()
                    &&& !old(self).entries().contains_key(text_key("file:"@ + path@))
                    &&& !is_writable(
                        new_file(
                            project_id@,
                            path@,
                            lang@,
                            text_of(category),
                            text_of(purpose),
                            id@,
                        ).to_json(),
                    )
                },
                Err(StoreError::Storage(_)) => if old(self).entries().contains_key(
                    text_key("file:"@ + path@),
                ) {
                    final(self).entries() == old(self).entries()
                } else {
                    wrote_some(
                        old(self).entries(),
                        final(self).entries(),
                        twin_writes(
                            "file:"@,
                            path@,
                            id@,
                            new_file(
                                project_id@,
                                path@,
                                lang@,
                                text_of(category),
                                text_of(purpose),
                                id@,
                            ).to_json(),
                        ),
                    )
                },
                Err(StoreError::Open(_)) => false,
            },
            keeps_keys(old(self).entries(), final(self).entries()),
            r is Ok ==> final(self).entries().contains_key(text_key("file:"@ + path@)),
    {
        let key = concat2("file:", path);
        let found = match self.read_json(key.as_str()) {
            Ok(found) => found,
            Err(e) => {
                proof {
                    lemma_wrote_none(
                        self.entries(),
                        twin_writes(
                            "file:"@,
                            path@,
                            id@,
                            new_file(
                                project_id@,
                                path@,
                                lang@,
                                text_of(category),
                                text_of(purpose),
                                id@,
                            ).to_json(),
                        ),
                    );
                }
                return Err(e);
            },
        };
        match found {
            Some(found) => match File::from_json(&found) {
                Some(file) => Ok(file.id),
                None => Err(StoreError::Corrupt(concat2("not a file record: ", key.as_str()))),
            },
            None => {
                let id = String::from_str(id);
                let file = File {
                    id: id.clone(),
                    project_id: String::from_str(project_id),
                    module_id: None,
                    path: String::from_str(path),
                    lang: String::from_str(lang),
                    category: owned(category),
                    purpose: owned(purpose),
                };
                proof {
                    file@.lemma_round_trip();
                    lemma_nesting_grows(file@.to_json(), 3, MAX_NESTING as nat);
                    assert(file@ == new_file(
                        project_id@,
                        path@,
                        lang@,
                        text_of(category),
                        text_of(purpose),
                        id@,
                    ));
                }
                let text = match record_text(&file.to_json()) {
                    Ok(text) => text,
                    Err(e) => {
                        return Err(e);
                    },
                };
                let writes = twin("file:", path, id.as_str(), text);
                let ghost planned = twin_writes("file:"@, path@, id@, file@.to_json());
                assert(writes_view(writes@) == planned);
                proof {
                    lemma_writes_keep_keys(self.entries(), planned);
                    assert(planned[0].0 == text_key("file:"@ + path@));
                }
                match self.write_all(&writes) {
                    Ok(_) => Ok(id),
                    Err(e) => {
                        assert(wrote_some(old(self).entries(), self.entries(), planned));
                        Err(e)
                    },
                }
            },
        }
    }

    /// The identifier of the file at `path`, which becomes known to the store
    /// if it was not, with no category and no purpose, in the project `1`.
    ///
    /// On an error nothing has been written, but for `Storage` on a new
    /// path, where the writes may have stopped part of the way. `Write` comes
    /// exactly where the path is new and the writer refuses the new record.
    pub fn ensure_file(&mut self, path: &str, lang: &str) -> (r: Result<String, StoreError>)
        ensures
            match r {
                Ok(id) => file_ensured(
                    old(self).entries(),
                    final(self).entries(),
                    "1"@,
                    path@,
                    lang@,
                    None,
                    None,
                    id@,
                ),
                Err(StoreError::Corrupt(_)) => {
                    &&& final(self).entries() == old(self).entries()
                    &&& old(self).entries().contains_key(text_key("file:"@ + path@))
                    &&& file_in(old(self).entries(), path@) is None
                },
                Err(StoreError::Write(_)) => {
                    &&& final(self).entries() == old(self).entries()
                    &&& !old(self).entries().contains_key(text_key("file:"@ + path@))
                    &&& exists|id: Seq<char>|
                        !is_writable(
                            (#[trigger] new_file("1"@, path@, lang@, None, None, id)).to_json(),
                        )
                },
                Err(StoreError::Storage(_)) => if old(self).entries().contains_key(
                    text_key("file:"@ + path@),
                ) {
                    final(self).entries() == old(self).entries()
                } else {
                    exists|id: Seq<char>|
                        wrote_some(
                            old(self).entries(),
                            final(self).entries(),
                            #[trigger] twin_writes(
                                "file:"@,
                                path@,
                                id,
                                new_file("1"@, path@, lang@, None, None, id).to_json(),
                            ),
                        )
                },
                Err(StoreError::Open(_)) => false,
            },
            keeps_keys(old(self).entries(), final(self).entries()),
            r is Ok ==> final(self).entries().contains_key(text_key("file:"@ + path@)),
    {
        proof {
            reveal_strlit("1");
        }
        self.ensure_file_with_category("1", path, lang, None, None)
    }

    /// The identifier of the symbol to which the external identifier `usr`
    /// points: that of the symbol recorded last with it. `None` where no
    /// symbol was recorded with it.
    pub fn find_symbol_by_usr(&self, usr: &str) -> (r: Result<Option<String>, StoreError>)
        ensures
            match r {
                Ok(found) => found.deep_view() == symbol_id_in(self.entries(), usr@),
                Err(e) => e is Storage,
            },
    {
        let key = concat2("symbol_by_usr:", usr);
        match self.read(key.as_str())? {
            Some(bytes) => Ok(Some(text_from_utf8_lossy(bytes.as_slice()))),
            None => Ok(None),
        }
    }

    /// Every entry whose key begins with `prefix`, in the order of the keys.
    pub(crate) fn scan(&self, prefix: &str) -> (r: Result<Vec<(Vec<u8>, Vec<u8>)>, StoreError>)
        ensures
            match r {
                Ok(items) => is_prefix_scan(pairs_view(items@), self.entries(), text_key(prefix@)),
                Err(e) => e is Storage,
            },
    {
        match kv_scan_prefix(&self.db, prefix.as_bytes()) {
            Ok(items) => Ok(items),
            Err(e) => Err(StoreError::Storage(kv_error_text(&e))),
        }
    }

    /// What one index entry of an edge adds to the answer of a query.
    pub fn edge_target_name(&self, edge_text: &[u8]) -> (r: Result<Option<String>, StoreError>)
        ensures
            match r {
                Ok(name) => edge_target(self.entries(), edge_text@) == Some(name.deep_view()),
                Err(StoreError::Corrupt(_)) => edge_target(self.entries(), edge_text@) is None,
                Err(e) => e is Storage,
            },
    {
        let edge = match decode(edge_text) {
            Ok(v) => match Edge::from_json(&v) {
                Some(edge) => edge,
                None => {
                    return Err(StoreError::Corrupt(String::from_str("not an edge record")));
                },
            },
            Err(e) => {
                return Err(StoreError::Corrupt(json_error_message(e)));
            },
        };
        match edge.to_sym {
            None => Ok(None),
            Some(to) => {
                let key = concat2("symbol:", to.as_str());
                match self.read_json(key.as_str()) {
                    Ok(None) => Ok(None),
                    Ok(Some(found)) => match Symbol::from_json(&found) {
                        Some(symbol) => Ok(Some(symbol.name)),
                        None => Err(
                            StoreError::Corrupt(concat2("not a symbol record: ", key.as_str())),
                        ),
                    },
                    Err(e) => Err(e),
                }
            },
        }
    }

    /// The names of the symbols to which edges of kind `kind` lead from the
    /// symbol that the external identifier `from_usr` points to.
    ///
    /// An external identifier that points to no symbol gives an empty answer,
    /// as a symbol without such edges does. An edge whose target has no
    /// record is passed over. The same target is named once for each edge
    /// that leads to it. The order is that of the edges' index keys. The
    /// store is `Corrupt` exactly where an entry met on the way cannot be
    /// read.
    pub fn query_edges_by_kind_from(&self, kind: &str, from_usr: &str) -> (r: Result<
        Vec<String>,
        StoreError,
    >)
        ensures
            match r {
                Ok(names) => is_query_answer(
                    self.entries(),
                    kind@,
                    from_usr@,
                    Some(names.deep_view()),
                ),
                Err(StoreError::Corrupt(_)) => is_query_answer(
                    self.entries(),
                    kind@,
                    from_usr@,
                    None,
                ),
                Err(e) => e is Storage,
            },
    {
        let mut names: Vec<String> = Vec::new();
        let symbol_id = match self.find_symbol_by_usr(from_usr)? {
            Some(id) => id,
            None => {
                assert(names.deep_view() =~= Seq::<Seq<char>>::empty());
                return Ok(names);
            },
        };
        let prefix = edge_index_prefix_text(symbol_id.as_str(), kind);
        let items = self.scan(prefix.as_str())?;
        let ghost scan = pairs_view(items@);
        let mut i: usize = 0;
        proof {
            assert(scan.take(0) =~= Seq::empty());
            assert(names.deep_view() =~= Seq::<Seq<char>>::empty());
        }
        while i < items.len()
            invariant
                i <= items.len(),
                scan == pairs_view(items@),
                symbol_id_in(self.entries(), from_usr@) == Some(symbol_id@),
                is_prefix_scan(
                    scan,
                    self.entries(),
                    text_key(edge_index_prefix(symbol_id@, kind@)),
                ),
                target_names(self.entries(), scan.take(i as int)) == Some(names.deep_view()),
            decreases items.len() - i,
        {
            proof {
                assert(scan.take(i as int + 1).drop_last() =~= scan.take(i as int));
                assert(scan.take(i as int + 1).last() == scan[i as int]);
            }
            let ghost before = names.deep_view();
            match self.edge_target_name(items[i].1.as_slice()) {
                Ok(Some(name)) => {
                    names.push(name);
                    assert(names.deep_view() =~= before.push(name@));
                },
                Ok(None) => {},
                Err(StoreError::Corrupt(m)) => {
                    proof {
                        lemma_target_names_fail(self.entries(), scan, i as int + 1);
                    }
                    return Err(StoreError::Corrupt(m));
                },
                Err(e) => {
                    return Err(e);
                },
            }
            i += 1;
        }
        proof {
            assert(scan.take(i as int) =~= scan);
        }
        Ok(names)
    }

    /// How many entries the file, symbol and edge namespaces hold. A file
    /// counts once for each key under which it is written, so a file that was
    /// ensured counts twice.
    pub fn get_stats(&self) -> (r: Result<DatabaseStats, StoreError>)
        ensures
            match r {
                Ok(stats) => {
                    &&& is_count(self.entries(), "file:"@, stats.files as nat)
                    &&& is_count(self.entries(), "symbol:"@, stats.symbols as nat)
                    &&& is_count(self.entries(), "edge:"@, stats.edges as nat)
                },
                Err(e) => e is Storage,
            },
    {
        let files = self.scan("file:")?;
        let symbols = self.scan("symbol:")?;
        let edges = self.scan("edge:")?;
        proof {
            assert(pairs_view(files@).len() == files.len());
            assert(pairs_view(symbols@).len() == symbols.len());
            assert(pairs_view(edges@).len() == edges.len());
        }
        Ok(
            DatabaseStats {
                files: files.len() as u64,
                symbols: symbols.len() as u64,
                edges: edges.len() as u64,
            },
        )
    }

    /// What the file namespace holds, as a listing: one line for each entry
    /// that reads as a file record, in the order of the keys.
    pub fn list_files(&self) -> (r: Result<Vec<FileInfo>, StoreError>)
        ensures
            match r {
                Ok(infos) => is_file_listing(self.entries(), file_infos_view(infos@)),
                Err(e) => e is Storage,
            },
    {
        let items = self.scan("file:")?;
        let ghost scan = pairs_view(items@);
        let ghost read = |text: Seq<u8>| file_info_of_text(text);
        let mut infos: Vec<FileInfo> = Vec::new();
        let mut i: usize = 0;
        proof {
            assert(scan.take(0) =~= Seq::empty());
            assert(file_infos_view(infos@) =~= collect(scan.take(0), read));
        }
        while i < items.len()
            invariant
                i <= items.len(),
                scan == pairs_view(items@),
                read == |text: Seq<u8>| file_info_of_text(text),
                file_infos_view(infos@) == collect(scan.take(i as int), read),
            decreases items.len() - i,
        {
            let ghost before = file_infos_view(infos@);
            proof {
                lemma_collect_step(scan, i as int, read);
            }
            match decode(items[i].1.as_slice()) {
                Ok(v) => match File::from_json(&v) {
                    Some(file) => {
                        let info = FileInfo {
                            id: file.id,
                            path: file.path,
                            language: file.lang,
                            category: text_or_default(file.category),
                            purpose: text_or_default(file.purpose),
                        };
                        infos.push(info);
                        assert(file_infos_view(infos@) =~= before.push(info@));
                    },
                    None => {},
                },
                Err(_) => {},
            }
            i += 1;
        }
        proof {
            assert(scan.take(i as int) =~= scan);
        }
        Ok(infos)
    }

    /// The files of the listing whose path holds `query`, whatever the case
    /// of either.
    pub fn search_files(&self, query: &str) -> (r: Result<Vec<FileInfo>, StoreError>)
        ensures
            match r {
                Ok(infos) => exists|all: Seq<FileInfoView>|
                    {
                        &&& #[trigger] is_file_listing(self.entries(), all)
                        &&& file_infos_view(infos@) == files_matching(all, query@)
                    },
                Err(e) => e is Storage,
            },
    {
        let all = self.list_files()?;
        let query_lower = str_to_lowercase(query);
        let ghost wanted = |info: FileInfoView| matches_query(info.path, query@);
        let ghost listed = file_infos_view(all@);
        let mut infos: Vec<FileInfo> = Vec::new();
        let mut i: usize = 0;
        proof {
            assert(listed.take(0) =~= Seq::empty());
            assert(file_infos_view(infos@) =~= listed.take(0).filter(wanted));
        }
        while i < all.len()
            invariant
                i <= all.len(),
                listed == file_infos_view(all@),
                query_lower@ == lowercase(query@),
                wanted == |info: FileInfoView| matches_query(info.path, query@),
                file_infos_view(infos@) == listed.take(i as int).filter(wanted),
            decreases all.len() - i,
        {
            let ghost before = file_infos_view(infos@);
            proof {
                lemma_filter_step(listed, i as int, wanted);
            }
            let path_lower = str_to_lowercase(all[i].path.as_str());
            if str_contains(path_lower.as_str(), query_lower.as_str()) {
                let info = FileInfo {
                    id: all[i].id.clone(),
                    path: all[i].path.clone(),
                    language: all[i].language.clone(),
                    category: all[i].category.clone(),
                    purpose: all[i].purpose.clone(),
                };
                infos.push(info);
                assert(file_infos_view(infos@) =~= before.push(all[i as int]@));
            }
            i += 1;
        }
        proof {
            assert(listed.take(i as int) =~= listed);
        }
        Ok(infos)
    }

    /// What the symbol namespace holds, as a listing: one line for each
    /// entry that reads as a symbol record, in the order of the keys.
    pub fn list_symbols(&self) -> (r: Result<Vec<SymbolInfo>, StoreError>)
        ensures
            match r {
                Ok(infos) => is_symbol_listing(self.entries(), symbol_infos_view(infos@)),
                Err(e) => e is Storage,
            },
    {
        let items = self.scan("symbol:")?;
        let ghost scan = pairs_view(items@);
        let ghost read = |text: Seq<u8>| symbol_info_of_text(text);
        let mut infos: Vec<SymbolInfo> = Vec::new();
        let mut i: usize = 0;
        proof {
            assert(scan.take(0) =~= Seq::empty());
            assert(symbol_infos_view(infos@) =~= collect(scan.take(0), read));
        }
        while i < items.len()
            invariant
                i <= items.len(),
                scan == pairs_view(items@),
                read == |text: Seq<u8>| symbol_info_of_text(text),
                symbol_infos_view(infos@) == collect(scan.take(i as int), read),
            decreases items.len() - i,
        {
            let ghost before = symbol_infos_view(infos@);
            proof {
                lemma_collect_step(scan, i as int, read);
            }
            match decode(items[i].1.as_slice()) {
                Ok(v) => match Symbol::from_json(&v) {
                    Some(symbol) => {
                        let info = SymbolInfo {
                            id: symbol.id,
                            name: symbol.name,
                            kind: symbol.kind,
                            file_id: symbol.file_id,
                        };
                        infos.push(info);
                        assert(symbol_infos_view(infos@) =~= before.push(info@));
                    },
                    None => {},
                },
                Err(_) => {},
            }
            i += 1;
        }
        proof {
            assert(scan.take(i as int) =~= scan);
        }
        Ok(infos)
    }

    /// The symbols of the listing whose name holds `query`, whatever the
    /// case of either.
    pub fn search_symbols(&self, query: &str) -> (r: Result<Vec<SymbolInfo>, StoreError>)
        ensures
            match r {
                Ok(infos) => exists|all: Seq<SymbolInfoView>|
                    {
                        &&& #[trigger] is_symbol_listing(self.entries(), all)
                        &&& symbol_infos_view(infos@) == symbols_matching(all, query@)
                    },
                Err(e) => e is Storage,
            },
    {
        let all = self.list_symbols()?;
        let query_lower = str_to_lowercase(query);
        let ghost wanted = |info: SymbolInfoView| matches_query(info.name, query@);
        let ghost listed = symbol_infos_view(all@);
        let mut infos: Vec<SymbolInfo> = Vec::new();
        let mut i: usize = 0;
        proof {
            assert(listed.take(0) =~= Seq::empty());
            assert(symbol_infos_view(infos@) =~= listed.take(0).filter(wanted));
        }
        while i < all.len()
            invariant
                i <= all.len(),
                listed == symbol_infos_view(all@),
                query_lower@ == lowercase(query@),
                wanted == |info: SymbolInfoView| matches_query(info.name, query@),
                symbol_infos_view(infos@) == listed.take(i as int).filter(wanted),
            decreases all.len() - i,
        {
            let ghost before = symbol_infos_view(infos@);
            proof {
                lemma_filter_step(listed, i as int, wanted);
            }
            let name_lower = str_to_lowercase(all[i].name.as_str());
            if str_contains(name_lower.as_str(), query_lower.as_str()) {
                let info = SymbolInfo {
                    id: all[i].id.clone(),
                    name: all[i].name.clone(),
                    kind: all[i].kind.clone(),
                    file_id: all[i].file_id.clone(),
                };
                infos.push(info);
                assert(symbol_infos_view(infos@) =~= before.push(all[i as int]@));
            }
            i += 1;
        }
        proof {
            assert(listed.take(i as int) =~= listed);
        }
        Ok(infos)
    }

    /// The module record under an identifier or a name, where the store holds
    /// one that can be read.
    fn module_named(&self, name: &str) -> (r: Result<Option<Module>, StoreError>)
        ensures
            match r {
                Ok(Some(module)) => module_in(self.entries(), name@) == Some(module@),
                Ok(None) => module_in(self.entries(), name@) is None,
                Err(e) => e is Storage,
            },
    {
        let key = concat2("module:", name);
        match self.read_json(key.as_str()) {
            Ok(Some(v)) => Ok(Module::from_json(&v)),
            Ok(None) => Ok(None),
            Err(StoreError::Corrupt(_)) => Ok(None),
            Err(e) => Err(e),
        }
    }

    /// The import that a stored edge stands for, by the names of the two
    /// modules.
    pub fn import_named(&self, edge_text: &[u8]) -> (r: Result<Option<(String, String)>, StoreError>)
        ensures
            match r {
                Ok(Some(pair)) => import_of(self.entries(), edge_text@) == Some((pair.0@, pair.1@)),
                Ok(None) => import_of(self.entries(), edge_text@) is None,
                Err(e) => e is Storage,
            },
    {
        let edge = match decode(edge_text) {
            Ok(v) => match Edge::from_json(&v) {
                Some(edge) => edge,
                None => {
                    return Ok(None);
                },
            },
            Err(_) => {
                return Ok(None);
            },
        };
        if !str_eq(edge.kind.as_str(), "module-import") {
            return Ok(None);
        }
        match (edge.from_module, edge.to_module) {
            (Some(from), Some(to)) => {
                let from_module = self.module_named(from.as_str())?;
                let to_module = self.module_named(to.as_str())?;
                match (from_module, to_module) {
                    (Some(from_module), Some(to_module)) => Ok(
                        Some((from_module.name, to_module.name)),
                    ),
                    _ => Ok(None),
                }
            },
            _ => Ok(None),
        }
    }

    /// Performs the writes in turn and stops at the first that fails.
    pub(crate) fn write_all(&mut self, writes: &Vec<(String, Vec<u8>)>) -> (r: Result<(), StoreError>)
        ensures
            match r {
                Ok(_) => final(self).entries() == apply_writes(
                    old(self).entries(),
                    writes_view(writes@),
                ),
                Err(e) => e is Storage && wrote_some(
                    old(self).entries(),
                    final(self).entries(),
                    writes_view(writes@),
                ),
            },
            keeps_keys(old(self).entries(), final(self).entries()),
    {
        let ghost all = writes_view(writes@);
        let ghost pre = self.entries();
        let mut i: usize = 0;
        proof {
            assert(all.take(0) =~= Seq::empty());
        }
        while i < writes.len()
            invariant
                i <= writes.len(),
                pre == old(self).entries(),
                all == writes_view(writes@),
                all.len() == writes.len(),
                self.entries() == apply_writes(pre, all.take(i as int)),
                keeps_keys(pre, self.entries()),
            decreases writes.len() - i,
        {
            let ghost before = self.entries();
            proof {
                assert(all.take(i as int + 1).drop_last() =~= all.take(i as int));
                assert(all.take(i as int + 1).last() == all[i as int]);
            }
            match kv_insert(&mut self.db, writes[i].0.as_str().as_bytes(), writes[i].1.as_slice()) {
                Ok(_) => {
                    proof {
                        assert(all[i as int] == (text_key(writes[i as int].0@), writes[i as int].1@));
                    }
                },
                Err(e) => {
                    proof {
                        assert(all[i as int] == (text_key(writes[i as int].0@), writes[i as int].1@));
                        if self.entries() == before {
                            assert(self.entries() == apply_writes(pre, all.take(i as int)));
                        } else {
                            assert(self.entries() == apply_writes(pre, all.take(i as int + 1)));
                        }
                        assert(wrote_some(pre, self.entries(), all));
                    }
                    return Err(StoreError::Storage(kv_error_text(&e)));
                },
            }
            i += 1;
        }
        proof {
            assert(all.take(i as int) =~= all);
        }
        Ok(())
    }
}

/// The keys and values of a run of writes, as the store sees them.
pub open spec fn writes_view(writes: Seq<(String, Vec<u8>)>) -> Seq<(Seq<u8>, Seq<u8>)> {
    Seq::new(writes.len(), |i: int| (text_key(writes[i].0@), writes[i].1@))
}

/// Whether a character may stand at a place of a written identifier: a
/// hyphen at the places 8, 13, 18 and 23, counted from 0, and else a digit or
/// a letter from `a` to `f`.
pub open spec fn fits_identifier(place: int, c: char) -> bool {
    if place == 8 || place == 13 || place == 18 || place == 23 {
        c == '-'
    } else {
        ('0' <= c && c <= '9') || ('a' <= c && c <= 'f')
    }
}

/// Whether a text has the shape in which a new identifier is written: 36
/// characters, of which each fits its place.
pub open spec fn is_identifier(id: Seq<char>) -> bool {
    &&& id.len() == 36
    &&& forall|place: int| 0 <= place < 36 ==> fits_identifier(place, #[trigger] id[place])
}

/// A written identifier holds no colon, so a key made of a namespace, texts
/// and identifiers with colons between them is cut at its colons in one way
/// only.
pub proof fn law_identifier_has_no_colon(id: Seq<char>)
    requires
        is_identifier(id),
    ensures
        forall|place: int| 0 <= place < id.len() ==> #[trigger] id[place] != ':',
{
    assert forall|place: int| 0 <= place < id.len() implies #[trigger] id[place] != ':' by {
        assert(fits_identifier(place, id[place]));
    }
}

/// `Uuid::new_v4`, written by `to_string`, which writes the hyphenated form
/// in lower case: a random identifier, of which nothing but its shape is
/// known beforehand.
#[verifier::external_body]
pub(crate) fn new_id() -> (r: String)
    ensures
        is_identifier(r@),
{
    uuid::Uuid::new_v4().to_string()
}

/// `Utc::now`, written by `to_rfc3339`: the time of the call. Nothing is
/// known of it beforehand.
#[verifier::external_body]
pub(crate) fn now_text() -> String {
    chrono::Utc::now().to_rfc3339()
}

/// The identifier of the module called `name`, which becomes known to the
/// store if it was not. A module that is known already keeps its kind and
/// its path, also where it had no path and the call brings one.
///
/// On an error nothing has been written, but for `Storage` on a new name,
/// where the writes may have stopped part of the way. `Write` comes exactly
/// where the name is new and the writer refuses the new record.
pub fn upsert_module(db: &mut SymgraphDb, name: &str, kind: &str, path: &str) -> (r: Result<
    String,
    StoreError,
>)
    ensures
        match r {
            Ok(id) => module_upserted(
                old(db).entries(),
                final(db).entries(),
                name@,
                kind@,
                path@,
                id@,
            ),
            Err(StoreError::Corrupt(_)) => {
                &&& final(db).entries() == old(db).entries()
                &&& old(db).entries().contains_key(text_key("module:"@ + name@))
                &&& module_in(old(db).entries(), name@) is None
            },
            Err(StoreError::Write(_)) => {
                &&& final(db).entries() == old(db).entries()
                &&& !old(db).entries().contains_key(text_key("module:"@ + name@))
                &&& exists|id: Seq<char>|
                    !is_writable((#[trigger] new_module(name@, kind@, path@, id)).to_json())
            },
            Err(StoreError::Storage(_)) => if old(db).entries().contains_key(
                text_key("module:"@ + name@),
            ) {
                final(db).entries() == old(db).entries()
            } else {
                exists|id: Seq<char>|
                    wrote_some(
                        old(db).entries(),
                        final(db).entries(),
                        #[trigger] twin_writes(
                            "module:"@,
                            name@,
                            id,
                            new_module(name@, kind@, path@, id).to_json(),
                        ),
                    )
            },
            Err(StoreError::Open(_)) => false,
        },
        keeps_keys(old(db).entries(), final(db).entries()),
{
    let id = new_id();
    upsert_module_with_id(db, name, kind, path, id.as_str())
}

/// As [`upsert_module`], with the identifier that a new module gets handed in.
pub fn upsert_module_with_id(
    db: &mut SymgraphDb,
    name: &str,
    kind: &str,
    path: &str,
    id: &str,
) -> (r: Result<String, StoreError>)
    ensures
        match r {
            Ok(answer) => {
                &&& module_upserted(
                    old(db).entries(),
                    final(db).entries(),
                    name@,
                    kind@,
                    path@,
                    answer@,
                )
                &&& !old(db).entries().contains_key(text_key("module:"@ + name@)) ==> {
                    &&& answer@ == id@
                    &&& is_writable(new_module(name@, kind@, path@, id@).to_json())
                }
            },
            Err(StoreError::Corrupt(_)) => {
                &&& final(db).entries() == old(db).entries()
                &&& old(db).entries().contains_key(text_key("module:"@ + name@))
                &&& module_in(old(db).entries(), name@) is None
            },
            Err(StoreError::Write(_)) => {
                &&& final(db).entries() == old(db).entries()
                &&& !old(db).entries().contains_key(text_key("module:"@ + name@))
                &&& !is_writable(new_module(name@, kind@, path@, id@).to_json())
            },
            Err(StoreError::Storage(_)) => if old(db).entries().contains_key(
                text_key("module:"@ + name@),
            ) {
                final(db).entries() == old(db).entries()
            } else {
                wrote_some(
                    old(db).entries(),
                    final(db).entries(),
                    twin_writes("module:"@, name@, id@, new_module(name@, kind@, path@, id@).to_json()),
                )
            },
            Err(StoreError::Open(_)) => false,
        },
        keeps_keys(old(db).entries(), final(db).entries()),
{
    let key = concat2("module:", name);
    let found = match db.read_json(key.as_str()) {
        Ok(found) => found,
        Err(e) => {
            proof {
                lemma_wrote_none(
                    db.entries(),
                    twin_writes(
                        "module:"@,
                        name@,
                        id@,
                        new_module(name@, kind@, path@, id@).to_json(),
                    ),
                );
            }
            return Err(e);
        },
    };
    match found {
        Some(found) => match Module::from_json(&found) {
            Some(module) => Ok(module.id),
            None => Err(StoreError::Corrupt(concat2("not a module record: ", key.as_str()))),
        },
        None => {
            let id = String::from_str(id);
            let module = Module {
                id: id.clone(),
                project_id: String::from_str("1"),
                name: String::from_str(name),
                kind: String::from_str(kind),
                path: if path.is_empty() {
                    None
                } else {
                    Some(String::from_str(path))
                },
            };
            proof {
                module@.lemma_round_trip();
                lemma_nesting_grows(module@.to_json(), 3, MAX_NESTING as nat);
                assert(module@ == new_module(name@, kind@, path@, id@));
            }
            let text = match record_text(&module.to_json()) {
                Ok(text) => text,
                Err(e) => {
                    return Err(e);
                },
            };
            let writes = twin("module:", name, id.as_str(), text);
            let ghost planned = twin_writes("module:"@, name@, id@, module@.to_json());
            assert(writes_view(writes@) == planned);
            match db.write_all(&writes) {
                Ok(_) => Ok(id),
                Err(e) => {
                    assert(wrote_some(old(db).entries(), db.entries(), planned));
                    Err(e)
                },
            }
        },
    }
}

/// Records a symbol and gives it a new identifier. Where the symbol has an
/// external identifier, the index of external identifiers points to the new
/// symbol from then on; a symbol recorded earlier with the same external
/// identifier stays in the store and is no longer found by it.
///
/// `Write` comes exactly where the writer refuses the record, and leaves
/// the store as it was; `Storage` may leave the writes done
/// part of the way.
pub fn insert_symbol(
    db: &mut SymgraphDb,
    file_id: &str,
    usr: Option<&str>,
    key: Option<&str>,
    name: &str,
    kind: &str,
    is_def: bool,
) -> (r: Result<String, StoreError>)
    ensures
        match r {
            Ok(id) => {
                let record = new_symbol(
                    file_id@,
                    text_of(usr),
                    text_of(key),
                    name@,
                    kind@,
                    is_def,
                    id@,
                );
                &&& is_identifier(id@)
                &&& is_writable(record.to_json())
                &&& reads_back(record.to_json())
                &&& final(db).entries() == apply_writes(old(db).entries(), symbol_writes(record))
            },
            Err(StoreError::Write(_)) => {
                &&& final(db).entries() == old(db).entries()
                &&& exists|id: Seq<char>| !is_writable((#[trigger] new_symbol(file_id@, text_of(usr), text_of(key), name@, kind@, is_def, id)).to_json())
            },
            Err(StoreError::Storage(_)) => exists|id: Seq<char>|
                wrote_some(
                    old(db).entries(),
                    final(db).entries(),
                    symbol_writes(
                        #[trigger] new_symbol(
                            file_id@,
                            text_of(usr),
                            text_of(key),
                            name@,
                            kind@,
                            is_def,
                            id,
                        ),
                    ),
                ),
            Err(_) => false,
        },
        keeps_keys(old(db).entries(), final(db).entries()),
        r is Ok ==> (usr matches Some(u) ==> final(db).entries().contains_key(
            text_key("symbol_by_usr:"@ + u@),
        )),
{
    let id = new_id();
    match insert_symbol_with_id(db, id.as_str(), file_id, usr, key, name, kind, is_def) {
        Ok(_) => Ok(id),
        Err(e) => Err(e),
    }
}

/// As [`insert_symbol`], with the identifier of the new symbol handed in.
pub fn insert_symbol_with_id(
    db: &mut SymgraphDb,
    id: &str,
    file_id: &str,
    usr: Option<&str>,
    key: Option<&str>,
    name: &str,
    kind: &str,
    is_def: bool,
) -> (r: Result<(), StoreError>)
    ensures
        appended(
            old(db).entries(),
            final(db).entries(),
            new_symbol(file_id@, text_of(usr), text_of(key), name@, kind@, is_def, id@).to_json(),
            symbol_writes(new_symbol(file_id@, text_of(usr), text_of(key), name@, kind@, is_def, id@)),
            r,
        ),
        keeps_keys(old(db).entries(), final(db).entries()),
        r is Ok ==> (usr matches Some(u) ==> final(db).entries().contains_key(
            text_key("symbol_by_usr:"@ + u@),
        )),
{
    let id = String::from_str(id);
    let symbol = Symbol {
        id: id.clone(),
        file_id: String::from_str(file_id),
        usr: owned(usr),
        key: owned(key),
        name: String::from_str(name),
        kind: String::from_str(kind),
        is_definition: is_def,
    };
    proof {
        symbol@.lemma_round_trip();
        lemma_nesting_grows(symbol@.to_json(), 3, MAX_NESTING as nat);
        assert(symbol@ == new_symbol(
            file_id@,
            text_of(usr),
            text_of(key),
            name@,
            kind@,
            is_def,
            id@,
        ));
    }
    let text = match record_text(&symbol.to_json()) {
        Ok(text) => text,
        Err(e) => {
            return Err(e);
        },
    };
    let mut writes: Vec<(String, Vec<u8>)> = Vec::new();
    writes.push((concat2("symbol:", id.as_str()), text));
    match usr {
        Some(usr) => {
            writes.push((concat2("symbol_by_usr:", usr), id.as_str().as_bytes_vec()));
        },
        None => {},
    }
    proof {
        assert(writes_view(writes@) =~= symbol_writes(symbol@));
        lemma_writes_keep_keys(db.entries(), symbol_writes(symbol@));
        if usr is Some {
            assert(symbol_writes(symbol@)[1].0 == text_key("symbol_by_usr:"@ + usr->0@));
        }
    }
    match db.write_all(&writes) {
        Ok(_) => Ok(()),
        Err(e) => {
            assert(wrote_some(old(db).entries(), db.entries(), symbol_writes(symbol@)));
            Err(e)
        },
    }
}

/// Records an occurrence and gives it a new identifier. Whether the symbol
/// and the file are known to the store is not looked at.
///
/// `Write` comes exactly where the writer refuses the record, and leaves
/// the store as it was; after `Storage` the one write has
/// taken place or has not.
pub fn insert_occurrence(
    db: &mut SymgraphDb,
    sym_id: &str,
    file_id: &str,
    usage: &str,
    line: u32,
    col: u32,
) -> (r: Result<String, StoreError>)
    ensures
        match r {
            Ok(id) => {
                let record = new_occurrence(sym_id@, file_id@, usage@, line, col, id@);
                &&& is_identifier(id@)
                &&& is_writable(record.to_json())
                &&& reads_back(record.to_json())
                &&& final(db).entries() == apply_writes(
                    old(db).entries(),
                    occurrence_writes(record),
                )
            },
            Err(StoreError::Write(_)) => {
                &&& final(db).entries() == old(db).entries()
                &&& exists|id: Seq<char>| !is_writable((#[trigger] new_occurrence(sym_id@, file_id@, usage@, line, col, id)).to_json())
            },
            Err(StoreError::Storage(_)) => exists|id: Seq<char>|
                wrote_some(
                    old(db).entries(),
                    final(db).entries(),
                    occurrence_writes(
                        #[trigger] new_occurrence(sym_id@, file_id@, usage@, line, col, id),
                    ),
                ),
            Err(_) => false,
        },
        keeps_keys(old(db).entries(), final(db).entries()),
{
    let id = new_id();
    match insert_occurrence_with_id(db, id.as_str(), sym_id, file_id, usage, line, col) {
        Ok(_) => Ok(id),
        Err(e) => Err(e),
    }
}

/// As [`insert_occurrence`], with the identifier of the new occurrence handed in.
pub fn insert_occurrence_with_id(
    db: &mut SymgraphDb,
    id: &str,
    sym_id: &str,
    file_id: &str,
    usage: &str,
    line: u32,
    col: u32,
) -> (r: Result<(), StoreError>)
    ensures
        appended(
            old(db).entries(),
            final(db).entries(),
            new_occurrence(sym_id@, file_id@, usage@, line, col, id@).to_json(),
            occurrence_writes(new_occurrence(sym_id@, file_id@, usage@, line, col, id@)),
            r,
        ),
        keeps_keys(old(db).entries(), final(db).entries()),
{
    let id = String::from_str(id);
    let occurrence = Occurrence {
        id: id.clone(),
        symbol_id: String::from_str(sym_id),
        file_id: String::from_str(file_id),
        usage_kind: String::from_str(usage),
        line,
        column: col,
    };
    proof {
        occurrence@.lemma_round_trip();
        lemma_nesting_grows(occurrence@.to_json(), 3, MAX_NESTING as nat);
        assert(occurrence@ == new_occurrence(sym_id@, file_id@, usage@, line, col, id@));
    }
    let text = match record_text(&occurrence.to_json()) {
        Ok(text) => text,
        Err(e) => {
            return Err(e);
        },
    };
    let mut writes: Vec<(String, Vec<u8>)> = Vec::new();
    writes.push((concat2("occurrence:", id.as_str()), text));
    proof {
        assert(writes_view(writes@) =~= occurrence_writes(occurrence@));
    }
    match db.write_all(&writes) {
        Ok(_) => Ok(()),
        Err(e) => {
            assert(wrote_some(old(db).entries(), db.entries(), occurrence_writes(occurrence@)));
            Err(e)
        },
    }
}

/// Records an edge and gives it a new identifier. The four ends are stored as
/// given: an edge that names both symbols and modules, or neither, is not
/// refused. An edge that leaves a symbol is also written under the index key
/// of that symbol and the edge's kind, so that it is found from there.
///
/// `Write` comes exactly where the writer refuses the record, and leaves
/// the store as it was; `Storage` may leave the writes done
/// part of the way, the edge then being stored but not indexed.
pub fn insert_edge(
    db: &mut SymgraphDb,
    from_sym: Option<&str>,
    to_sym: Option<&str>,
    from_module: Option<&str>,
    to_module: Option<&str>,
    kind: &str,
) -> (r: Result<String, StoreError>)
    ensures
        match r {
            Ok(id) => {
                let record = new_edge(
                    text_of(from_sym),
                    text_of(to_sym),
                    text_of(from_module),
                    text_of(to_module),
                    kind@,
                    id@,
                );
                &&& is_identifier(id@)
                &&& is_writable(record.to_json())
                &&& reads_back(record.to_json())
                &&& final(db).entries() == apply_writes(old(db).entries(), edge_writes(record))
            },
            Err(StoreError::Write(_)) => {
                &&& final(db).entries() == old(db).entries()
                &&& exists|id: Seq<char>| !is_writable((#[trigger] new_edge(text_of(from_sym), text_of(to_sym), text_of(from_module), text_of(to_module), kind@, id)).to_json())
            },
            Err(StoreError::Storage(_)) => exists|id: Seq<char>|
                wrote_some(
                    old(db).entries(),
                    final(db).entries(),
                    edge_writes(
                        #[trigger] new_edge(
                            text_of(from_sym),
                            text_of(to_sym),
                            text_of(from_module),
                            text_of(to_module),
                            kind@,
                            id,
                        ),
                    ),
                ),
            Err(_) => false,
        },
        keeps_keys(old(db).entries(), final(db).entries()),
{
    let id = new_id();
    match insert_edge_with_id(db, id.as_str(), from_sym, to_sym, from_module, to_module, kind) {
        Ok(_) => Ok(id),
        Err(e) => Err(e),
    }
}

/// As [`insert_edge`], with the identifier of the new edge handed in.
pub fn insert_edge_with_id(
    db: &mut SymgraphDb,
    id: &str,
    from_sym: Option<&str>,
    to_sym: Option<&str>,
    from_module: Option<&str>,
    to_module: Option<&str>,
    kind: &str,
) -> (r: Result<(), StoreError>)
    ensures
        appended(
            old(db).entries(),
            final(db).entries(),
            new_edge(text_of(from_sym), text_of(to_sym), text_of(from_module), text_of(to_module), kind@, id@).to_json(),
            edge_writes(new_edge(text_of(from_sym), text_of(to_sym), text_of(from_module), text_of(to_module), kind@, id@)),
            r,
        ),
        keeps_keys(old(db).entries(), final(db).entries()),
{
    let id = String::from_str(id);
    let edge = Edge {
        id: id.clone(),
        from_sym: owned(from_sym),
        to_sym: owned(to_sym),
        from_module: owned(from_module),
        to_module: owned(to_module),
        kind: String::from_str(kind),
    };
    proof {
        edge@.lemma_round_trip();
        lemma_nesting_grows(edge@.to_json(), 3, MAX_NESTING as nat);
        assert(edge@ == new_edge(
            text_of(from_sym),
            text_of(to_sym),
            text_of(from_module),
            text_of(to_module),
            kind@,
            id@,
        ));
    }
    let text = match record_text(&edge.to_json()) {
        Ok(text) => text,
        Err(e) => {
            return Err(e);
        },
    };
    let mut writes: Vec<(String, Vec<u8>)> = Vec::new();
    writes.push((concat2("edge:", id.as_str()), text.clone()));
    match from_sym {
        Some(from) => {
            let mut key = edge_index_prefix_text(from, kind);
            key.append(id.as_str());
            writes.push((key, text));
        },
        None => {},
    }
    proof {
        assert(writes_view(writes@) =~= edge_writes(edge@));
    }
    match db.write_all(&writes) {
        Ok(_) => Ok(()),
        Err(e) => {
            assert(wrote_some(old(db).entries(), db.entries(), edge_writes(edge@)));
            Err(e)
        },
    }
}

/// The step that ensures a file in the project `1`.
pub open spec fn plain_file_step(
    path: Seq<char>,
    lang: Seq<char>,
    category: Option<Seq<char>>,
    purpose: Option<Seq<char>>,
    id: Seq<char>,
) -> Step {
    Step::File { project_id: "1"@, path, lang, category, purpose, id }
}

/// Ensures a file, as one step. The answer is the file's identifier, which
/// is also handed out as the step's.
pub(crate) fn ensure_file_step(
    db: &mut SymgraphDb,
    path: &str,
    lang: &str,
    category: Option<&str>,
    purpose: Option<&str>,
) -> (r: (Result<String, StoreError>, Ghost<Seq<char>>))
    ensures
        match r.0 {
            Ok(id) => r.1@ == id@ && step_taken(
                old(db).entries(),
                final(db).entries(),
                plain_file_step(path@, lang@, text_of(category), text_of(purpose), r.1@),
            ),
            Err(e) => !(e is Open) && step_begun(
                old(db).entries(),
                final(db).entries(),
                plain_file_step(path@, lang@, text_of(category), text_of(purpose), r.1@),
            ),
        },
{
    let drawn = new_id();
    proof {
        reveal_strlit("1");
    }
    match db.ensure_file_with_id("1", path, lang, category, purpose, drawn.as_str()) {
        Ok(id) => {
            let ghost answered = id@;
            (Ok(id), Ghost(answered))
        },
        Err(e) => (Err(e), Ghost(drawn@)),
    }
}

/// Looks a symbol up by its external identifier, as one step.
pub(crate) fn find_symbol_step(db: &SymgraphDb, usr: &str) -> (r: Result<Option<String>, StoreError>)
    ensures
        match r {
            Ok(found) => step_taken(
                db.entries(),
                db.entries(),
                (Step::Found { usr: usr@, id: found.deep_view() }),
            ),
            Err(e) => e is Storage,
        },
{
    db.find_symbol_by_usr(usr)
}

/// Records a symbol, as one step.
pub(crate) fn record_symbol_step(
    db: &mut SymgraphDb,
    file_id: &str,
    usr: Option<&str>,
    key: Option<&str>,
    name: &str,
    kind: &str,
    is_def: bool,
) -> (r: (Result<String, StoreError>, Ghost<Seq<char>>))
    ensures
        match r.0 {
            Ok(id) => r.1@ == id@ && step_taken(
                old(db).entries(),
                final(db).entries(),
                symbol_step(
                    new_symbol(file_id@, text_of(usr), text_of(key), name@, kind@, is_def, r.1@),
                ),
            ),
            Err(e) => !(e is Open) && step_begun(
                old(db).entries(),
                final(db).entries(),
                symbol_step(
                    new_symbol(file_id@, text_of(usr), text_of(key), name@, kind@, is_def, r.1@),
                ),
            ),
        },
{
    let ghost pre = db.entries();
    let id = new_id();
    let ghost drawn = id@;
    proof {
        lemma_wrote_none(
            pre,
            symbol_writes(new_symbol(file_id@, text_of(usr), text_of(key), name@, kind@, is_def, drawn)),
        );
    }
    match insert_symbol_with_id(db, id.as_str(), file_id, usr, key, name, kind, is_def) {
        Ok(_) => (Ok(id), Ghost(drawn)),
        Err(e) => (Err(e), Ghost(drawn)),
    }
}

/// Records an occurrence, as one step.
pub(crate) fn record_occurrence_step(
    db: &mut SymgraphDb,
    sym_id: &str,
    file_id: &str,
    usage: &str,
    line: u32,
    col: u32,
) -> (r: (Result<(), StoreError>, Ghost<Seq<char>>))
    ensures
        match r.0 {
            Ok(_) => step_taken(
                old(db).entries(),
                final(db).entries(),
                occurrence_step(new_occurrence(sym_id@, file_id@, usage@, line, col, r.1@)),
            ),
            Err(e) => !(e is Open) && step_begun(
                old(db).entries(),
                final(db).entries(),
                occurrence_step(new_occurrence(sym_id@, file_id@, usage@, line, col, r.1@)),
            ),
        },
{
    let ghost pre = db.entries();
    let id = new_id();
    let ghost drawn = id@;
    proof {
        lemma_wrote_none(
            pre,
            occurrence_writes(new_occurrence(sym_id@, file_id@, usage@, line, col, drawn)),
        );
    }
    (insert_occurrence_with_id(db, id.as_str(), sym_id, file_id, usage, line, col), Ghost(drawn))
}

/// Records an edge, as one step.
pub(crate) fn record_edge_step(
    db: &mut SymgraphDb,
    from_sym: Option<&str>,
    to_sym: Option<&str>,
    from_module: Option<&str>,
    to_module: Option<&str>,
    kind: &str,
) -> (r: (Result<(), StoreError>, Ghost<Seq<char>>))
    ensures
        match r.0 {
            Ok(_) => step_taken(
                old(db).entries(),
                final(db).entries(),
                edge_step(
                    new_edge(
                        text_of(from_sym),
                        text_of(to_sym),
                        text_of(from_module),
                        text_of(to_module),
                        kind@,
                        r.1@,
                    ),
                ),
            ),
            Err(e) => !(e is Open) && step_begun(
                old(db).entries(),
                final(db).entries(),
                edge_step(
                    new_edge(
                        text_of(from_sym),
                        text_of(to_sym),
                        text_of(from_module),
                        text_of(to_module),
                        kind@,
                        r.1@,
                    ),
                ),
            ),
        },
{
    let ghost pre = db.entries();
    let id = new_id();
    let ghost drawn = id@;
    proof {
        lemma_wrote_none(
            pre,
            edge_writes(
                new_edge(
                    text_of(from_sym),
                    text_of(to_sym),
                    text_of(from_module),
                    text_of(to_module),
                    kind@,
                    drawn,
                ),
            ),
        );
    }
    (
        insert_edge_with_id(db, id.as_str(), from_sym, to_sym, from_module, to_module, kind),
        Ghost(drawn),
    )
}

/// Upserts a module, as one step. The answer is the module's identifier,
/// which is also handed out as the step's.
pub(crate) fn upsert_module_step(db: &mut SymgraphDb, name: &str, kind: &str, path: &str) -> (r: (
    Result<String, StoreError>,
    Ghost<Seq<char>>,
))
    ensures
        match r.0 {
            Ok(id) => r.1@ == id@ && step_taken(
                old(db).entries(),
                final(db).entries(),
                (Step::Module { name: name@, kind: kind@, path: path@, id: r.1@ }),
            ),
            Err(e) => !(e is Open) && step_begun(
                old(db).entries(),
                final(db).entries(),
                (Step::Module { name: name@, kind: kind@, path: path@, id: r.1@ }),
            ),
        },
{
    let drawn = new_id();
    match upsert_module_with_id(db, name, kind, path, drawn.as_str()) {
        Ok(id) => {
            let ghost answered = id@;
            (Ok(id), Ghost(answered))
        },
        Err(e) => (Err(e), Ghost(drawn@)),
    }
}

/// The key text with which the index entries begin for the edges of kind
/// `kind` that leave the symbol `from`.
pub fn edge_index_prefix_text(from: &str, kind: &str) -> (r: String)
    ensures
        r@ == edge_index_prefix(from@, kind@),
{
    let mut key = concat2("edges_from:", from);
    key.append(":");
    key.append(kind);
    key.append(":");
    key
}

/// The modules of a store and the imports between them.
#[derive(Debug)]
pub struct ModuleGraph {
    /// The module records, one for each key under which a module is
    /// written.
    pub modules: Vec<Module>,
    /// The imports, each as the name of the importing module and the name
    /// of the imported one.
    pub imports: Vec<(String, String)>,
}

/// The modules of the store and the imports between them: every module-import
/// edge joined to the names of its two modules. An edge whose modules the
/// store does not hold is passed over, as is an entry that cannot be read.
pub fn list_modules(db: &SymgraphDb) -> (r: Result<ModuleGraph, StoreError>)
    ensures
        match r {
            Ok(graph) => {
                &&& is_module_listing(db.entries(), modules_view(graph.modules@))
                &&& is_import_listing(db.entries(), name_pairs_view(graph.imports@))
            },
            Err(e) => e is Storage,
        },
{
    let items = db.scan("module:")?;
    let ghost scan = pairs_view(items@);
    let ghost read = |text: Seq<u8>| module_of_text(text);
    let mut modules: Vec<Module> = Vec::new();
    let mut i: usize = 0;
    proof {
        assert(scan.take(0) =~= Seq::empty());
        assert(modules_view(modules@) =~= collect(scan.take(0), read));
    }
    while i < items.len()
        invariant
            i <= items.len(),
            scan == pairs_view(items@),
            read == |text: Seq<u8>| module_of_text(text),
            modules_view(modules@) == collect(scan.take(i as int), read),
        decreases items.len() - i,
    {
        let ghost before = modules_view(modules@);
        proof {
            lemma_collect_step(scan, i as int, read);
        }
        match decode(items[i].1.as_slice()) {
            Ok(v) => match Module::from_json(&v) {
                Some(module) => {
                    modules.push(module);
                    assert(modules_view(modules@) =~= before.push(module@));
                },
                None => {},
            },
            Err(_) => {},
        }
        i += 1;
    }
    proof {
        assert(scan.take(i as int) =~= scan);
    }
    let edges = db.scan("edge:")?;
    let ghost edge_scan = pairs_view(edges@);
    let ghost read_import = |text: Seq<u8>| import_of(db.entries(), text);
    let mut imports: Vec<(String, String)> = Vec::new();
    let mut j: usize = 0;
    proof {
        assert(edge_scan.take(0) =~= Seq::empty());
        assert(name_pairs_view(imports@) =~= collect(edge_scan.take(0), read_import));
    }
    while j < edges.len()
        invariant
            j <= edges.len(),
            edge_scan == pairs_view(edges@),
            read_import == |text: Seq<u8>| import_of(db.entries(), text),
            name_pairs_view(imports@) == collect(edge_scan.take(j as int), read_import),
        decreases edges.len() - j,
    {
        let ghost before = name_pairs_view(imports@);
        proof {
            lemma_collect_step(edge_scan, j as int, read_import);
        }
        match db.import_named(edges[j].1.as_slice())? {
            Some(pair) => {
                imports.push(pair);
                assert(name_pairs_view(imports@) =~= before.push((pair.0@, pair.1@)));
            },
            None => {},
        }
        j += 1;
    }
    proof {
        assert(edge_scan.take(j as int) =~= edge_scan);
    }
    Ok(ModuleGraph { modules, imports })
}

/// The names of the symbols that the symbol with the external identifier
/// `usr` calls.
pub fn query_calls(db: &SymgraphDb, usr: &str) -> (r: Result<Vec<String>, StoreError>)
    ensures
        match r {
            Ok(names) => is_query_answer(db.entries(), "call"@, usr@, Some(names.deep_view())),
            Err(StoreError::Corrupt(_)) => is_query_answer(db.entries(), "call"@, usr@, None),
            Err(e) => e is Storage,
        },
{
    db.query_edges_by_kind_from("call", usr)
}

/// The text, or the empty text where there is none.
fn text_or_default(text: Option<String>) -> (r: String)
    ensures
        r@ == text_or_empty(text.deep_view()),
{
    match text {
        Some(s) => s,
        None => String::new(),
    }
}

/// One more item: it comes last among the chosen where it is chosen, and
/// else the chosen stay.
pub proof fn lemma_filter_step<T>(items: Seq<T>, i: int, chosen: spec_fn(T) -> bool)
    requires
        0 <= i < items.len(),
    ensures
        items.take(i + 1).filter(chosen) == if chosen(items[i]) {
            items.take(i).filter(chosen).push(items[i])
        } else {
            items.take(i).filter(chosen)
        },
{
    let before = items.take(i);
    let after = items.take(i + 1);
    assert(after.drop_last() =~= before);
    assert(after.last() == items[i]);
    reveal_with_fuel(Seq::filter, 2);
}

/// The message of a JSON error.
pub(crate) fn json_error_message(e: JsonError) -> (r: String)
    ensures
        r@ == match e {
            JsonError::Write(m) => m@,
            JsonError::Read(m) => m@,
        },
{
    match e {
        JsonError::Write(m) => m,
        JsonError::Read(m) => m,
    }
}

} // verus!
