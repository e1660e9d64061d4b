//! What holds of the store's operations taken together.
//!
//! Each law speaks of stores as maps from keys to values and of the
//! predicates by which the operations state their results, so it holds of
//! every run of the operations that ends without error.

use vstd::prelude::*;
use vstd::utf8::*;
use crate::database::{
    apply_writes, edge_index_key, edge_index_prefix, edge_step, edge_target, edge_writes,
    file_ensured, file_in, is_identifier, is_query_answer, json_in, leads_through, lemma_two_writes, module_in,
    module_upserted, new_edge, new_file, new_module, new_project, new_symbol, occurrence_step,
    occurrence_writes, project_ensured, project_in, reads_back, step_taken, steps_taken,
    symbol_id_in, symbol_in, symbol_step, symbol_writes, target_names, text_key, twin_writes,
    Step,
};
use crate::kv::is_prefix_scan;
use crate::text::lemma_utf8_injective;
use crate::records::{EdgeView, FileView, ModuleView, OccurrenceView, SymbolView};

verus! {

/// Every file record of `entries` is also to be found under its identifier.
pub open spec fn files_indexed(entries: Map<Seq<u8>, Seq<u8>>) -> bool {
    forall|name: Seq<char>|
        (#[trigger] file_in(entries, name)) matches Some(f) ==> entries.contains_key(
            text_key("file:"@ + f.id),
        )
}

/// Every module record of `entries` is also to be found under its identifier.
pub open spec fn modules_indexed(entries: Map<Seq<u8>, Seq<u8>>) -> bool {
    forall|name: Seq<char>|
        (#[trigger] module_in(entries, name)) matches Some(m) ==> entries.contains_key(
            text_key("module:"@ + m.id),
        )
}

/// After a file has been ensured, the store holds a record with the answered
/// identifier under the file's path.
pub proof fn law_ensured_file_is_stored(
    pre: Map<Seq<u8>, Seq<u8>>,
    post: Map<Seq<u8>, Seq<u8>>,
    project_id: Seq<char>,
    path: Seq<char>,
    lang: Seq<char>,
    category: Option<Seq<char>>,
    purpose: Option<Seq<char>>,
    id: Seq<char>,
)
    requires
        file_ensured(pre, post, project_id, path, lang, category, purpose, id),
    ensures
        post.contains_key(text_key("file:"@ + path)),
        file_in(post, path) matches Some(f) && f.id == id,
        !pre.contains_key(text_key("file:"@ + path)) ==> {
            &&& file_in(post, path) == Some(
                new_file(project_id, path, lang, category, purpose, id),
            )
            &&& file_in(post, id) == Some(new_file(project_id, path, lang, category, purpose, id))
        },
{
    if !pre.contains_key(text_key("file:"@ + path)) {
        let record = new_file(project_id, path, lang, category, purpose, id);
        lemma_two_writes(pre, twin_writes("file:"@, path, id, record.to_json()));
        record.lemma_round_trip();
    }
}

/// Ensuring the same path twice answers the same identifier both times, and
/// the second call changes nothing, whatever it says of project, language,
/// category and purpose.
pub proof fn law_ensure_file_is_idempotent(
    s0: Map<Seq<u8>, Seq<u8>>,
    s1: Map<Seq<u8>, Seq<u8>>,
    s2: Map<Seq<u8>, Seq<u8>>,
    path: Seq<char>,
    project_id1: Seq<char>,
    lang1: Seq<char>,
    category1: Option<Seq<char>>,
    purpose1: Option<Seq<char>>,
    id1: Seq<char>,
    project_id2: Seq<char>,
    lang2: Seq<char>,
    category2: Option<Seq<char>>,
    purpose2: Option<Seq<char>>,
    id2: Seq<char>,
)
    requires
        file_ensured(s0, s1, project_id1, path, lang1, category1, purpose1, id1),
        file_ensured(s1, s2, project_id2, path, lang2, category2, purpose2, id2),
    ensures
        id1 == id2,
        s2 == s1,
{
    law_ensured_file_is_stored(s0, s1, project_id1, path, lang1, category1, purpose1, id1);
}

/// Ensuring a file keeps every file record findable under its identifier.
pub proof fn law_ensure_file_keeps_index(
    pre: Map<Seq<u8>, Seq<u8>>,
    post: Map<Seq<u8>, Seq<u8>>,
    project_id: Seq<char>,
    path: Seq<char>,
    lang: Seq<char>,
    category: Option<Seq<char>>,
    purpose: Option<Seq<char>>,
    id: Seq<char>,
)
    requires
        files_indexed(pre),
        file_ensured(pre, post, project_id, path, lang, category, purpose, id),
    ensures
        files_indexed(post),
{
    if !pre.contains_key(text_key("file:"@ + path)) {
        let record = new_file(project_id, path, lang, category, purpose, id);
        lemma_two_writes(pre, twin_writes("file:"@, path, id, record.to_json()));
        record.lemma_round_trip();
        assert forall|name: Seq<char>| (#[trigger] file_in(post, name)) is Some implies post.contains_key(
            text_key("file:"@ + file_in(post, name)->0.id),
        ) by {
            let key = text_key("file:"@ + name);
            if key == text_key("file:"@ + path) || key == text_key("file:"@ + id) {
                assert(file_in(post, name) == Some(record));
            } else {
                assert(file_in(post, name) == file_in(pre, name));
            }
        }
    }
}

/// A path that is new to the store gets an identifier other than that of a
/// file ensured before it, as long as the new identifier is not one that the
/// file namespace holds already.
pub proof fn law_new_path_gets_new_id(
    s0: Map<Seq<u8>, Seq<u8>>,
    s1: Map<Seq<u8>, Seq<u8>>,
    s2: Map<Seq<u8>, Seq<u8>>,
    project_id1: Seq<char>,
    path1: Seq<char>,
    lang1: Seq<char>,
    category1: Option<Seq<char>>,
    purpose1: Option<Seq<char>>,
    id1: Seq<char>,
    project_id2: Seq<char>,
    path2: Seq<char>,
    lang2: Seq<char>,
    category2: Option<Seq<char>>,
    purpose2: Option<Seq<char>>,
    id2: Seq<char>,
)
    requires
        files_indexed(s0),
        file_ensured(s0, s1, project_id1, path1, lang1, category1, purpose1, id1),
        file_ensured(s1, s2, project_id2, path2, lang2, category2, purpose2, id2),
        !s1.contains_key(text_key("file:"@ + path2)),
        !s1.contains_key(text_key("file:"@ + id2)),
    ensures
        path1 != path2,
        id1 != id2,
{
    law_ensured_file_is_stored(s0, s1, project_id1, path1, lang1, category1, purpose1, id1);
    law_ensure_file_keeps_index(s0, s1, project_id1, path1, lang1, category1, purpose1, id1);
    assert(file_in(s1, path1) is Some);
}

/// After a project has been ensured, the store holds a record with the
/// answered identifier under the project's root path; a project that is new
/// has the name of the call and no notes.
pub proof fn law_ensured_project_is_stored(
    pre: Map<Seq<u8>, Seq<u8>>,
    post: Map<Seq<u8>, Seq<u8>>,
    name: Seq<char>,
    root_path: Seq<char>,
    id: Seq<char>,
)
    requires
        project_ensured(pre, post, name, root_path, id),
    ensures
        post.contains_key(text_key("project:"@ + root_path)),
        project_in(post, root_path) matches Some(p) && p.id == id,
        !pre.contains_key(text_key("project:"@ + root_path)) ==> exists|created_at: Seq<char>|
            project_in(post, root_path) == Some(
                #[trigger] new_project(name, root_path, id, created_at),
            ),
{
    if !pre.contains_key(text_key("project:"@ + root_path)) {
        let created_at = choose|created_at: Seq<char>|
            {
                let record = #[trigger] new_project(name, root_path, id, created_at).to_json();
                &&& reads_back(record)
                &&& post == apply_writes(pre, twin_writes("project:"@, root_path, id, record))
            };
        let record = new_project(name, root_path, id, created_at);
        lemma_two_writes(pre, twin_writes("project:"@, root_path, id, record.to_json()));
        record.lemma_round_trip();
        assert(project_in(post, root_path) == Some(new_project(name, root_path, id, created_at)));
    }
}

/// Ensuring the same root path twice answers the same identifier both
/// times, and the second call changes nothing: the name of the first call
/// stays.
pub proof fn law_ensure_project_is_idempotent(
    s0: Map<Seq<u8>, Seq<u8>>,
    s1: Map<Seq<u8>, Seq<u8>>,
    s2: Map<Seq<u8>, Seq<u8>>,
    root_path: Seq<char>,
    name1: Seq<char>,
    id1: Seq<char>,
    name2: Seq<char>,
    id2: Seq<char>,
)
    requires
        project_ensured(s0, s1, name1, root_path, id1),
        project_ensured(s1, s2, name2, root_path, id2),
    ensures
        id1 == id2,
        s2 == s1,
        !s0.contains_key(text_key("project:"@ + root_path)) ==> (project_in(s2, root_path) matches Some(
            p,
        ) && p.name == name1),
{
    law_ensured_project_is_stored(s0, s1, name1, root_path, id1);
}

/// After a module has been upserted, the store holds a record with the
/// answered identifier under the module's name.
pub proof fn law_upserted_module_is_stored(
    pre: Map<Seq<u8>, Seq<u8>>,
    post: Map<Seq<u8>, Seq<u8>>,
    name: Seq<char>,
    kind: Seq<char>,
    path: Seq<char>,
    id: Seq<char>,
)
    requires
        module_upserted(pre, post, name, kind, path, id),
    ensures
        post.contains_key(text_key("module:"@ + name)),
        module_in(post, name) matches Some(m) && m.id == id,
        !pre.contains_key(text_key("module:"@ + name)) ==> {
            &&& module_in(post, name) == Some(new_module(name, kind, path, id))
            &&& module_in(post, id) == Some(new_module(name, kind, path, id))
        },
{
    if !pre.contains_key(text_key("module:"@ + name)) {
        let record = new_module(name, kind, path, id);
        lemma_two_writes(pre, twin_writes("module:"@, name, id, record.to_json()));
        record.lemma_round_trip();
    }
}

/// Upserting the same name twice answers the same identifier both times, and
/// the second call changes nothing: the kind and the path of the first call
/// stay.
pub proof fn law_upsert_module_is_idempotent(
    s0: Map<Seq<u8>, Seq<u8>>,
    s1: Map<Seq<u8>, Seq<u8>>,
    s2: Map<Seq<u8>, Seq<u8>>,
    name: Seq<char>,
    kind1: Seq<char>,
    path1: Seq<char>,
    id1: Seq<char>,
    kind2: Seq<char>,
    path2: Seq<char>,
    id2: Seq<char>,
)
    requires
        module_upserted(s0, s1, name, kind1, path1, id1),
        module_upserted(s1, s2, name, kind2, path2, id2),
    ensures
        id1 == id2,
        s2 == s1,
        module_in(s2, name) == module_in(s1, name),
        !s0.contains_key(text_key("module:"@ + name)) ==> module_in(s2, name) == Some(
            new_module(name, kind1, path1, id1),
        ),
{
    law_upserted_module_is_stored(s0, s1, name, kind1, path1, id1);
}

/// Upserting a module keeps every module record findable under its
/// identifier.
pub proof fn law_upsert_module_keeps_index(
    pre: Map<Seq<u8>, Seq<u8>>,
    post: Map<Seq<u8>, Seq<u8>>,
    name: Seq<char>,
    kind: Seq<char>,
    path: Seq<char>,
    id: Seq<char>,
)
    requires
        modules_indexed(pre),
        module_upserted(pre, post, name, kind, path, id),
    ensures
        modules_indexed(post),
{
    if !pre.contains_key(text_key("module:"@ + name)) {
        let record = new_module(name, kind, path, id);
        lemma_two_writes(pre, twin_writes("module:"@, name, id, record.to_json()));
        record.lemma_round_trip();
        assert forall|other: Seq<char>| (#[trigger] module_in(post, other)) is Some implies post.contains_key(
            text_key("module:"@ + module_in(post, other)->0.id),
        ) by {
            let key = text_key("module:"@ + other);
            if key == text_key("module:"@ + name) || key == text_key("module:"@ + id) {
                assert(module_in(post, other) == Some(record));
            } else {
                assert(module_in(post, other) == module_in(pre, other));
            }
        }
    }
}

/// A name that is new to the store gets an identifier other than that of a
/// module upserted before it, as long as the new identifier is not one that
/// the module namespace holds already.
pub proof fn law_new_name_gets_new_id(
    s0: Map<Seq<u8>, Seq<u8>>,
    s1: Map<Seq<u8>, Seq<u8>>,
    s2: Map<Seq<u8>, Seq<u8>>,
    name1: Seq<char>,
    kind1: Seq<char>,
    path1: Seq<char>,
    id1: Seq<char>,
    name2: Seq<char>,
    kind2: Seq<char>,
    path2: Seq<char>,
    id2: Seq<char>,
)
    requires
        modules_indexed(s0),
        module_upserted(s0, s1, name1, kind1, path1, id1),
        module_upserted(s1, s2, name2, kind2, path2, id2),
        !s1.contains_key(text_key("module:"@ + name2)),
        !s1.contains_key(text_key("module:"@ + id2)),
    ensures
        name1 != name2,
        id1 != id2,
{
    law_upserted_module_is_stored(s0, s1, name1, kind1, path1, id1);
    law_upsert_module_keeps_index(s0, s1, name1, kind1, path1, id1);
    assert(module_in(s1, name1) is Some);
}

/// A symbol recorded with an external identifier is found by it: the index
/// points to the new symbol, whatever it pointed to before. Every other
/// external identifier points where it pointed before, so one that was never
/// recorded still points nowhere.
pub proof fn law_usr_round_trip(
    pre: Map<Seq<u8>, Seq<u8>>,
    post: Map<Seq<u8>, Seq<u8>>,
    file_id: Seq<char>,
    usr: Seq<char>,
    key: Option<Seq<char>>,
    name: Seq<char>,
    kind: Seq<char>,
    is_definition: bool,
    id: Seq<char>,
)
    requires
        post == apply_writes(
            pre,
            symbol_writes(new_symbol(file_id, Some(usr), key, name, kind, is_definition, id)),
        ),
    ensures
        symbol_id_in(post, usr) == Some(id),
        forall|other: Seq<char>|
            other != usr ==> #[trigger] symbol_id_in(post, other) == symbol_id_in(pre, other),
{
    let writes = symbol_writes(new_symbol(file_id, Some(usr), key, name, kind, is_definition, id));
    lemma_two_writes(pre, writes);
    encode_utf8_decode_utf8(id);
    encode_utf8_valid_utf8(id);
    assert forall|other: Seq<char>| other != usr implies #[trigger] symbol_id_in(post, other)
        == symbol_id_in(pre, other) by {
        let index = "symbol_by_usr:"@;
        let own = "symbol:"@;
        reveal_strlit("symbol_by_usr:");
        reveal_strlit("symbol:");
        assert((index + other).subrange(14, (index + other).len() as int) =~= other);
        assert((index + usr).subrange(14, (index + usr).len() as int) =~= usr);
        assert((index + other)[6] == '_');
        assert((own + id)[6] == ':');
        lemma_utf8_injective(index + other, index + usr);
        lemma_utf8_injective(index + other, own + id);
    }
}

/// A symbol recorded with an external identifier that an earlier symbol
/// was recorded with takes the earlier symbol's place in the index. The
/// earlier symbol keeps its record under its own identifier, which differs
/// from the later one's.
pub proof fn law_last_symbol_wins(
    s0: Map<Seq<u8>, Seq<u8>>,
    s1: Map<Seq<u8>, Seq<u8>>,
    s2: Map<Seq<u8>, Seq<u8>>,
    usr: Seq<char>,
    file_id1: Seq<char>,
    key1: Option<Seq<char>>,
    name1: Seq<char>,
    kind1: Seq<char>,
    is_definition1: bool,
    id1: Seq<char>,
    file_id2: Seq<char>,
    key2: Option<Seq<char>>,
    name2: Seq<char>,
    kind2: Seq<char>,
    is_definition2: bool,
    id2: Seq<char>,
)
    requires
        reads_back(
            new_symbol(file_id1, Some(usr), key1, name1, kind1, is_definition1, id1).to_json(),
        ),
        s1 == apply_writes(
            s0,
            symbol_writes(new_symbol(file_id1, Some(usr), key1, name1, kind1, is_definition1, id1)),
        ),
        s2 == apply_writes(
            s1,
            symbol_writes(new_symbol(file_id2, Some(usr), key2, name2, kind2, is_definition2, id2)),
        ),
        id1 != id2,
    ensures
        symbol_id_in(s1, usr) == Some(id1),
        symbol_id_in(s2, usr) == Some(id2),
        symbol_in(s2, id1) == Some(
            new_symbol(file_id1, Some(usr), key1, name1, kind1, is_definition1, id1),
        ),
{
    let first = new_symbol(file_id1, Some(usr), key1, name1, kind1, is_definition1, id1);
    let second = new_symbol(file_id2, Some(usr), key2, name2, kind2, is_definition2, id2);
    law_usr_round_trip(s0, s1, file_id1, usr, key1, name1, kind1, is_definition1, id1);
    law_usr_round_trip(s1, s2, file_id2, usr, key2, name2, kind2, is_definition2, id2);
    lemma_two_writes(s0, symbol_writes(first));
    lemma_two_writes(s1, symbol_writes(second));
    first.lemma_round_trip();
    let index = "symbol_by_usr:"@;
    let own = "symbol:"@;
    reveal_strlit("symbol_by_usr:");
    reveal_strlit("symbol:");
    assert((own + id1).subrange(7, (own + id1).len() as int) =~= id1);
    assert((own + id2).subrange(7, (own + id2).len() as int) =~= id2);
    assert((index + usr)[6] == '_');
    assert((own + id1)[6] == ':');
    lemma_utf8_injective(own + id1, own + id2);
    lemma_utf8_injective(own + id1, index + usr);
    assert(s2[text_key(own + id1)] == s1[text_key(own + id1)]);
}

/// The key of texts put together is the keys of the texts put together.
pub proof fn lemma_key_of_joined(a: Seq<char>, b: Seq<char>)
    ensures
        text_key(a + b) == text_key(a) + text_key(b),
    decreases a.len(),
{
    if a.len() == 0 {
        assert(a + b =~= b);
        assert(text_key(a) + text_key(b) =~= text_key(b));
    } else {
        lemma_key_of_joined(a.drop_first(), b);
        assert((a + b).drop_first() =~= a.drop_first() + b);
        assert((a + b)[0] == a[0]);
        assert(text_key(a + b) =~= text_key(a) + text_key(b));
    }
}

/// Where a scan can be read, each of its entries can, and the name that an
/// entry adds is among the names of the scan.
pub proof fn lemma_entry_is_named(
    entries: Map<Seq<u8>, Seq<u8>>,
    scan: Seq<(Seq<u8>, Seq<u8>)>,
    i: int,
    names: Seq<Seq<char>>,
)
    requires
        0 <= i < scan.len(),
        target_names(entries, scan) == Some(names),
    ensures
        match edge_target(entries, scan[i].1) {
            None => false,
            Some(None) => true,
            Some(Some(name)) => names.contains(name),
        },
    decreases scan.len(),
{
    let rest = target_names(entries, scan.drop_last());
    assert(rest is Some);
    if i == scan.len() - 1 {
        match edge_target(entries, scan[i].1) {
            Some(Some(name)) => {
                assert(names == rest->0.push(name));
                assert(names[names.len() - 1] == name);
            },
            _ => {},
        }
    } else {
        lemma_entry_is_named(entries, scan.drop_last(), i, rest->0);
        match edge_target(entries, scan[i].1) {
            Some(Some(name)) => {
                let k = choose|k: int| 0 <= k < rest->0.len() && rest->0[k] == name;
                assert(names[k] == name);
            },
            _ => {},
        }
    }
}

/// An edge recorded from one symbol to another is found from the first: a
/// query by the edge's kind and an external identifier that points to the
/// edge's source names the target, where the store holds the target and the
/// query answers at all.
pub proof fn law_recorded_edge_is_found(
    pre: Map<Seq<u8>, Seq<u8>>,
    post: Map<Seq<u8>, Seq<u8>>,
    from_sym: Seq<char>,
    to_sym: Seq<char>,
    from_module: Option<Seq<char>>,
    to_module: Option<Seq<char>>,
    kind: Seq<char>,
    id: Seq<char>,
    from_usr: Seq<char>,
    names: Seq<Seq<char>>,
)
    requires
        reads_back(new_edge(Some(from_sym), Some(to_sym), from_module, to_module, kind, id).to_json()),
        post == apply_writes(
            pre,
            edge_writes(new_edge(Some(from_sym), Some(to_sym), from_module, to_module, kind, id)),
        ),
        symbol_id_in(post, from_usr) == Some(from_sym),
        post.contains_key(text_key("symbol:"@ + to_sym)),
        is_query_answer(post, kind, from_usr, Some(names)),
    ensures
        symbol_in(post, to_sym) matches Some(target) && names.contains(target.name),
{
    let record = new_edge(Some(from_sym), Some(to_sym), from_module, to_module, kind, id);
    lemma_two_writes(pre, edge_writes(record));
    record.lemma_round_trip();
    let key = text_key(edge_index_key(from_sym, kind, id));
    let prefix = text_key(edge_index_prefix(from_sym, kind));
    lemma_key_of_joined(edge_index_prefix(from_sym, kind), id);
    assert(prefix.is_prefix_of(key));
    assert(post.contains_key(key));
    let scan = choose|scan: Seq<(Seq<u8>, Seq<u8>)>|
        is_prefix_scan(scan, post, prefix) && #[trigger] target_names(post, scan) == Some(names);
    let i = choose|i: int| 0 <= i < scan.len() && (#[trigger] scan[i]).0 == key;
    lemma_entry_is_named(post, scan, i, names);
}

/// Whether a step, taken from the store `pre`, leaves the file namespace
/// alone as far as the key of `name` goes: it stores no record under that
/// key. Ensuring a file stores one only where the file is new to `pre` and
/// `name` is its path or its identifier; ensuring a file that `pre` knows
/// stores nothing.
pub open spec fn spares_file(pre: Map<Seq<u8>, Seq<u8>>, step: Step, name: Seq<char>) -> bool {
    match step {
        Step::File { project_id, path, lang, category, purpose, id } => pre.contains_key(
            text_key("file:"@ + path),
        ) || (name != path && name != id),
        Step::Record { record, writes } => forall|i: int|
            0 <= i < writes.len() ==> (#[trigger] writes[i]).0 != text_key("file:"@ + name),
        _ => true,
    }
}

/// A key text that begins otherwise than the file namespace is the key of no
/// file.
pub proof fn lemma_not_a_file_key(key: Seq<char>, name: Seq<char>)
    requires
        key.len() > 0,
        key[0] != 'f',
    ensures
        text_key(key) != text_key("file:"@ + name),
{
    reveal_strlit("file:");
    assert(("file:"@ + name)[0] == 'f');
    lemma_utf8_injective(key, "file:"@ + name);
}

/// Recording a symbol, an occurrence or an edge stores nothing in the file
/// namespace.
pub proof fn law_records_spare_files(
    pre: Map<Seq<u8>, Seq<u8>>,
    symbol: SymbolView,
    occurrence: OccurrenceView,
    edge: EdgeView,
    name: Seq<char>,
)
    ensures
        spares_file(pre, symbol_step(symbol), name),
        spares_file(pre, occurrence_step(occurrence), name),
        spares_file(pre, edge_step(edge), name),
{
    reveal_strlit("symbol:");
    reveal_strlit("symbol_by_usr:");
    reveal_strlit("occurrence:");
    reveal_strlit("edge:");
    reveal_strlit("edges_from:");
    lemma_not_a_file_key("symbol:"@ + symbol.id, name);
    if symbol.usr is Some {
        lemma_not_a_file_key("symbol_by_usr:"@ + symbol.usr->0, name);
    }
    lemma_not_a_file_key("occurrence:"@ + occurrence.id, name);
    lemma_not_a_file_key("edge:"@ + edge.id, name);
    if edge.from_sym is Some {
        let key = edge_index_key(edge.from_sym->0, edge.kind, edge.id);
        assert(key[0] == 'e');
        lemma_not_a_file_key(key, name);
    }
}

/// Writes of which none goes to a key leave what the store holds under that
/// key as it was.
pub proof fn lemma_writes_spare_key(
    pre: Map<Seq<u8>, Seq<u8>>,
    writes: Seq<(Seq<u8>, Seq<u8>)>,
    key: Seq<u8>,
)
    requires
        forall|i: int| 0 <= i < writes.len() ==> (#[trigger] writes[i]).0 != key,
    ensures
        apply_writes(pre, writes).contains_key(key) == pre.contains_key(key),
        pre.contains_key(key) ==> apply_writes(pre, writes)[key] == pre[key],
    decreases writes.len(),
{
    if writes.len() > 0 {
        let rest = writes.drop_last();
        assert forall|i: int| 0 <= i < rest.len() implies (#[trigger] rest[i]).0 != key by {
            assert(rest[i] == writes[i]);
        }
        lemma_writes_spare_key(pre, rest, key);
        assert(writes.last() == writes[writes.len() - 1]);
    }
}

/// A step that spares the key of a file leaves the file's record as it was:
/// known or unknown, and with what it says.
pub proof fn law_step_keeps_file(
    pre: Map<Seq<u8>, Seq<u8>>,
    post: Map<Seq<u8>, Seq<u8>>,
    step: Step,
    name: Seq<char>,
)
    requires
        step_taken(pre, post, step),
        spares_file(pre, step, name),
    ensures
        post.contains_key(text_key("file:"@ + name)) == pre.contains_key(text_key("file:"@ + name)),
        file_in(post, name) == file_in(pre, name),
{
    let key = text_key("file:"@ + name);
    reveal_strlit("file:");
    reveal_strlit("project:");
    reveal_strlit("module:");
    match step {
        Step::Project { name: project, root_path, id } => {
            if post != pre {
                let t = choose|t: Seq<char>|
                    post == apply_writes(
                        pre,
                        twin_writes(
                            "project:"@,
                            root_path,
                            id,
                            (#[trigger] new_project(project, root_path, id, t)).to_json(),
                        ),
                    );
                let writes = twin_writes(
                    "project:"@,
                    root_path,
                    id,
                    new_project(project, root_path, id, t).to_json(),
                );
                lemma_not_a_file_key("project:"@ + root_path, name);
                lemma_not_a_file_key("project:"@ + id, name);
                lemma_writes_spare_key(pre, writes, key);
            }
        },
        Step::File { project_id, path, lang, category, purpose, id } => {
            if post != pre {
                let writes = twin_writes(
                    "file:"@,
                    path,
                    id,
                    new_file(project_id, path, lang, category, purpose, id).to_json(),
                );
                assert(("file:"@ + name).subrange(5, ("file:"@ + name).len() as int) =~= name);
                assert(("file:"@ + path).subrange(5, ("file:"@ + path).len() as int) =~= path);
                assert(("file:"@ + id).subrange(5, ("file:"@ + id).len() as int) =~= id);
                lemma_utf8_injective("file:"@ + path, "file:"@ + name);
                lemma_utf8_injective("file:"@ + id, "file:"@ + name);
                lemma_writes_spare_key(pre, writes, key);
            }
        },
        Step::Module { name: module, kind, path, id } => {
            if post != pre {
                let writes = twin_writes("module:"@, module, id, new_module(module, kind, path, id).to_json());
                lemma_not_a_file_key("module:"@ + module, name);
                lemma_not_a_file_key("module:"@ + id, name);
                lemma_writes_spare_key(pre, writes, key);
            }
        },
        Step::Record { record, writes } => {
            lemma_writes_spare_key(pre, writes, key);
        },
        Step::Found { usr, id } => {},
    }
}

/// Ensuring a file is idempotent whatever happens between the two calls, as
/// long as no step between them stores a record under the file's path;
/// ensuring the same file again between them is such a step. The second call
/// answers the identifier of the first, writes nothing, and the record of
/// the first call stays, whatever the second says of project, language,
/// category and purpose.
pub proof fn law_ensure_file_is_idempotent_across_steps(
    s0: Map<Seq<u8>, Seq<u8>>,
    s1: Map<Seq<u8>, Seq<u8>>,
    stores: Seq<Map<Seq<u8>, Seq<u8>>>,
    steps: Seq<Step>,
    s2: Map<Seq<u8>, Seq<u8>>,
    s3: Map<Seq<u8>, Seq<u8>>,
    path: Seq<char>,
    project_id1: Seq<char>,
    lang1: Seq<char>,
    category1: Option<Seq<char>>,
    purpose1: Option<Seq<char>>,
    id1: Seq<char>,
    project_id2: Seq<char>,
    lang2: Seq<char>,
    category2: Option<Seq<char>>,
    purpose2: Option<Seq<char>>,
    id2: Seq<char>,
)
    requires
        file_ensured(s0, s1, project_id1, path, lang1, category1, purpose1, id1),
        leads_through(stores, s1, s2, steps),
        forall|i: int| 0 <= i < steps.len() ==> spares_file(#[trigger] stores[i], steps[i], path),
        file_ensured(s2, s3, project_id2, path, lang2, category2, purpose2, id2),
    ensures
        id2 == id1,
        s3 == s2,
        file_in(s3, path) == file_in(s1, path),
{
    law_ensured_file_is_stored(s0, s1, project_id1, path, lang1, category1, purpose1, id1);
    lemma_stores_keep_file(stores, steps, path, steps.len() as int);
    reveal(leads_through);
}

/// Steps that spare the key of a file, one after the other, leave the
/// file's record as it was.
pub proof fn lemma_stores_keep_file(
    stores: Seq<Map<Seq<u8>, Seq<u8>>>,
    steps: Seq<Step>,
    name: Seq<char>,
    n: int,
)
    requires
        exists|pre: Map<Seq<u8>, Seq<u8>>, post: Map<Seq<u8>, Seq<u8>>|
            leads_through(stores, pre, post, steps),
        forall|i: int| 0 <= i < steps.len() ==> spares_file(#[trigger] stores[i], steps[i], name),
        0 <= n <= steps.len(),
    ensures
        stores[n].contains_key(text_key("file:"@ + name)) == stores[0].contains_key(
            text_key("file:"@ + name),
        ),
        file_in(stores[n], name) == file_in(stores[0], name),
    decreases n,
{
    reveal(leads_through);
    if n > 0 {
        lemma_stores_keep_file(stores, steps, name, n - 1);
        assert(step_taken(stores[n - 1], stores[n - 1 + 1], steps[n - 1]));
        law_step_keeps_file(stores[n - 1], stores[n], steps[n - 1], name);
    }
}

/// The file namespace is in order: every file record stands under its path
/// and under its identifier, and under no other name.
pub open spec fn files_in_order(entries: Map<Seq<u8>, Seq<u8>>) -> bool {
    forall|name: Seq<char>|
        (#[trigger] file_in(entries, name)) matches Some(f) ==> {
            &&& name == f.path || name == f.id
            &&& file_in(entries, f.path) == Some(f)
            &&& file_in(entries, f.id) == Some(f)
        }
}

/// Whether a step goes with a file namespace that is in order: a record
/// that it stores goes to no key of that namespace, and a file that it
/// makes known gets an identifier under which the namespace holds nothing
/// yet.
pub open spec fn goes_with_files(pre: Map<Seq<u8>, Seq<u8>>, step: Step) -> bool {
    match step {
        Step::File { project_id, path, lang, category, purpose, id } => pre.contains_key(
            text_key("file:"@ + path),
        ) || !pre.contains_key(text_key("file:"@ + id)),
        Step::Record { record, writes } => forall|name: Seq<char>| #[trigger]
            spares_file(pre, step, name),
        _ => true,
    }
}

/// A store that holds nothing has its file namespace in order.
pub proof fn law_empty_store_is_in_order()
    ensures
        files_in_order(Map::<Seq<u8>, Seq<u8>>::empty()),
{
}

/// A step that goes with the file namespace keeps it in order.
pub proof fn law_step_keeps_files_in_order(
    pre: Map<Seq<u8>, Seq<u8>>,
    post: Map<Seq<u8>, Seq<u8>>,
    step: Step,
)
    requires
        files_in_order(pre),
        step_taken(pre, post, step),
        goes_with_files(pre, step),
    ensures
        files_in_order(post),
{
    match step {
        Step::File { project_id, path, lang, category, purpose, id } => {
            if !pre.contains_key(text_key("file:"@ + path)) {
                let record = new_file(project_id, path, lang, category, purpose, id);
                lemma_two_writes(pre, twin_writes("file:"@, path, id, record.to_json()));
                record.lemma_round_trip();
                reveal_strlit("file:");
                assert forall|name: Seq<char>| (#[trigger] file_in(post, name)) is Some implies {
                    let f = file_in(post, name)->0;
                    &&& name == f.path || name == f.id
                    &&& file_in(post, f.path) == Some(f)
                    &&& file_in(post, f.id) == Some(f)
                } by {
                    let key = text_key("file:"@ + name);
                    assert(("file:"@ + name).subrange(5, ("file:"@ + name).len() as int) =~= name);
                    assert(("file:"@ + path).subrange(5, ("file:"@ + path).len() as int) =~= path);
                    assert(("file:"@ + id).subrange(5, ("file:"@ + id).len() as int) =~= id);
                    lemma_utf8_injective("file:"@ + name, "file:"@ + path);
                    lemma_utf8_injective("file:"@ + name, "file:"@ + id);
                    if name == path || name == id {
                        assert(file_in(post, name) == Some(record));
                        assert(file_in(post, path) == Some(record));
                        assert(file_in(post, id) == Some(record));
                    } else {
                        assert(file_in(post, name) == file_in(pre, name));
                        let f = file_in(pre, name)->0;
                        assert(file_in(pre, f.path) == Some(f));
                        assert(file_in(pre, f.id) == Some(f));
                        assert(pre.contains_key(text_key("file:"@ + f.path)));
                        assert(pre.contains_key(text_key("file:"@ + f.id)));
                        assert(file_in(post, f.path) == file_in(pre, f.path));
                        assert(file_in(post, f.id) == file_in(pre, f.id));
                    }
                }
            }
        },
        _ => {
            assert forall|name: Seq<char>| #[trigger] file_in(post, name) == file_in(pre, name) by {
                law_step_keeps_file(pre, post, step, name);
            }
            assert forall|name: Seq<char>| (#[trigger] file_in(post, name)) is Some implies {
                let f = file_in(post, name)->0;
                &&& name == f.path || name == f.id
                &&& file_in(post, f.path) == Some(f)
                &&& file_in(post, f.id) == Some(f)
            } by {
                let f = file_in(pre, name)->0;
                assert(file_in(post, f.path) == file_in(pre, f.path));
                assert(file_in(post, f.id) == file_in(pre, f.id));
            }
        },
    }
}

/// In a file namespace that is in order, two paths that are not themselves
/// identifiers of their files have files with different identifiers, and
/// each path has one record however often it was ensured.
pub proof fn law_paths_have_their_own_ids(
    entries: Map<Seq<u8>, Seq<u8>>,
    first: Seq<char>,
    second: Seq<char>,
)
    requires
        files_in_order(entries),
        file_in(entries, first) is Some,
        file_in(entries, second) is Some,
        first != second,
        first != file_in(entries, first)->0.id,
        second != file_in(entries, second)->0.id,
    ensures
        file_in(entries, first)->0.id != file_in(entries, second)->0.id,
{
    let f = file_in(entries, first)->0;
    let g = file_in(entries, second)->0;
    if f.id == g.id {
        assert(file_in(entries, f.id) == Some(f));
        assert(file_in(entries, g.id) == Some(g));
    }
}

/// Steps that go with the file namespace, taken one after the other from a
/// store whose file namespace is in order, keep it in order.
pub proof fn law_steps_keep_files_in_order(
    stores: Seq<Map<Seq<u8>, Seq<u8>>>,
    steps: Seq<Step>,
    n: int,
)
    requires
        exists|pre: Map<Seq<u8>, Seq<u8>>, post: Map<Seq<u8>, Seq<u8>>|
            leads_through(stores, pre, post, steps),
        files_in_order(stores[0]),
        forall|i: int| 0 <= i < steps.len() ==> goes_with_files(#[trigger] stores[i], steps[i]),
        0 <= n <= steps.len(),
    ensures
        files_in_order(stores[n]),
    decreases n,
{
    reveal(leads_through);
    if n > 0 {
        law_steps_keep_files_in_order(stores, steps, n - 1);
        assert(step_taken(stores[n - 1], stores[n - 1 + 1], steps[n - 1]));
        assert(goes_with_files(stores[n - 1], steps[n - 1]));
        law_step_keeps_files_in_order(stores[n - 1], stores[n], steps[n - 1]);
    }
}

/// A step that goes with the file namespace spares each file that the store
/// knows.
pub proof fn lemma_fresh_step_spares_file(pre: Map<Seq<u8>, Seq<u8>>, step: Step, name: Seq<char>)
    requires
        goes_with_files(pre, step),
        pre.contains_key(text_key("file:"@ + name)),
    ensures
        spares_file(pre, step, name),
{
}

/// Steps that go with the file namespace, one after the other, leave the
/// record of a file that the store knows as it was.
pub proof fn lemma_fresh_stores_keep_file(
    stores: Seq<Map<Seq<u8>, Seq<u8>>>,
    steps: Seq<Step>,
    name: Seq<char>,
    n: int,
)
    requires
        exists|pre: Map<Seq<u8>, Seq<u8>>, post: Map<Seq<u8>, Seq<u8>>|
            leads_through(stores, pre, post, steps),
        forall|i: int| 0 <= i < steps.len() ==> goes_with_files(#[trigger] stores[i], steps[i]),
        stores[0].contains_key(text_key("file:"@ + name)),
        0 <= n <= steps.len(),
    ensures
        stores[n].contains_key(text_key("file:"@ + name)),
        file_in(stores[n], name) == file_in(stores[0], name),
    decreases n,
{
    reveal(leads_through);
    if n > 0 {
        lemma_fresh_stores_keep_file(stores, steps, name, n - 1);
        assert(step_taken(stores[n - 1], stores[n - 1 + 1], steps[n - 1]));
        assert(goes_with_files(stores[n - 1], steps[n - 1]));
        lemma_fresh_step_spares_file(stores[n - 1], steps[n - 1], name);
        law_step_keeps_file(stores[n - 1], stores[n], steps[n - 1], name);
    }
}

/// Ensuring a file is idempotent over every run of steps between the two
/// calls in which each record goes to its own namespace and each new file
/// gets an identifier that the file namespace does not hold yet: the second
/// call answers the identifier of the first, writes nothing, and the record
/// of the first call stays.
pub proof fn law_ensure_file_is_idempotent_among_new_identifiers(
    s0: Map<Seq<u8>, Seq<u8>>,
    s1: Map<Seq<u8>, Seq<u8>>,
    stores: Seq<Map<Seq<u8>, Seq<u8>>>,
    steps: Seq<Step>,
    s2: Map<Seq<u8>, Seq<u8>>,
    s3: Map<Seq<u8>, Seq<u8>>,
    path: Seq<char>,
    project_id1: Seq<char>,
    lang1: Seq<char>,
    category1: Option<Seq<char>>,
    purpose1: Option<Seq<char>>,
    id1: Seq<char>,
    project_id2: Seq<char>,
    lang2: Seq<char>,
    category2: Option<Seq<char>>,
    purpose2: Option<Seq<char>>,
    id2: Seq<char>,
)
    requires
        file_ensured(s0, s1, project_id1, path, lang1, category1, purpose1, id1),
        leads_through(stores, s1, s2, steps),
        forall|i: int| 0 <= i < steps.len() ==> goes_with_files(#[trigger] stores[i], steps[i]),
        file_ensured(s2, s3, project_id2, path, lang2, category2, purpose2, id2),
    ensures
        id2 == id1,
        s3 == s2,
        file_in(s3, path) == file_in(s1, path),
{
    law_ensured_file_is_stored(s0, s1, project_id1, path, lang1, category1, purpose1, id1);
    reveal(leads_through);
    lemma_fresh_stores_keep_file(stores, steps, path, steps.len() as int);
}

/// Whether a text holds no colon.
pub open spec fn has_no_colon(text: Seq<char>) -> bool {
    forall|place: int| 0 <= place < text.len() ==> #[trigger] text[place] != ':'
}

/// The index keys of edges do not mix: where the key text of an edge's index
/// entry begins with the text by which the edges of a kind that leave a
/// symbol are looked for, the edge is of that kind and leaves that symbol.
/// This holds of symbols with identifiers of the written shape and of kinds
/// without a colon; it speaks of the key texts, not of their bytes.
pub proof fn law_index_keys_do_not_mix(
    from: Seq<char>,
    kind: Seq<char>,
    other_from: Seq<char>,
    other_kind: Seq<char>,
    other_id: Seq<char>,
)
    requires
        is_identifier(from),
        is_identifier(other_from),
        has_no_colon(kind),
        has_no_colon(other_kind),
        edge_index_prefix(from, kind).is_prefix_of(edge_index_key(other_from, other_kind, other_id)),
    ensures
        other_from == from,
        other_kind == kind,
{
    reveal_strlit("edges_from:");
    reveal_strlit(":");
    let looked = edge_index_prefix(from, kind);
    let key = edge_index_key(other_from, other_kind, other_id);
    assert(looked.len() == 11 + 36 + 1 + kind.len() + 1);
    assert(key.len() == 11 + 36 + 1 + other_kind.len() + 1 + other_id.len());
    assert forall|place: int| 0 <= place < looked.len() implies looked[place] == key[place] by {
        assert(key.subrange(0, looked.len() as int) =~= looked);
        assert(key.subrange(0, looked.len() as int)[place] == key[place]);
    }
    assert forall|place: int| 0 <= place < 36 implies from[place] == other_from[place] by {
        assert(looked[11 + place] == from[place]);
        assert(key[11 + place] == other_from[place]);
    }
    assert(from =~= other_from);
    if kind.len() > other_kind.len() {
        let place = 48 + other_kind.len() as int;
        assert(looked[place] == kind[other_kind.len() as int]);
        assert(key[place] == ':');
    }
    if kind.len() < other_kind.len() {
        let place = 48 + kind.len() as int;
        assert(looked[place] == ':');
        assert(key[place] == other_kind[kind.len() as int]);
    }
    assert(kind.len() == other_kind.len());
    assert forall|place: int| 0 <= place < kind.len() implies kind[place] == other_kind[place] by {
        assert(looked[48 + place] == kind[place]);
        assert(key[48 + place] == other_kind[place]);
    }
    assert(kind =~= other_kind);
}

/// Whether a step, taken from the store `pre`, leaves the module namespace
/// alone as far as the key of `name` goes: it stores no record under that
/// key. Upserting a module stores one only where the module is new to `pre`
/// and `name` is its name or its identifier; upserting a module that `pre`
/// knows stores nothing.
pub open spec fn spares_module(pre: Map<Seq<u8>, Seq<u8>>, step: Step, name: Seq<char>) -> bool {
    match step {
        Step::Module { name: module, kind, path, id } => pre.contains_key(
            text_key("module:"@ + module),
        ) || (name != module && name != id),
        Step::Record { record, writes } => forall|i: int|
            0 <= i < writes.len() ==> (#[trigger] writes[i]).0 != text_key("module:"@ + name),
        _ => true,
    }
}

/// A key text that begins otherwise than the module namespace is the key of
/// no module.
pub proof fn lemma_not_a_module_key(key: Seq<char>, name: Seq<char>)
    requires
        key.len() > 0,
        key[0] != 'm',
    ensures
        text_key(key) != text_key("module:"@ + name),
{
    reveal_strlit("module:");
    assert(("module:"@ + name)[0] == 'm');
    lemma_utf8_injective(key, "module:"@ + name);
}

/// Recording a symbol, an occurrence or an edge stores nothing in the module
/// namespace.
pub proof fn law_records_spare_modules(
    pre: Map<Seq<u8>, Seq<u8>>,
    symbol: SymbolView,
    occurrence: OccurrenceView,
    edge: EdgeView,
    name: Seq<char>,
)
    ensures
        spares_module(pre, symbol_step(symbol), name),
        spares_module(pre, occurrence_step(occurrence), name),
        spares_module(pre, edge_step(edge), name),
{
    reveal_strlit("symbol:");
    reveal_strlit("symbol_by_usr:");
    reveal_strlit("occurrence:");
    reveal_strlit("edge:");
    reveal_strlit("edges_from:");
    lemma_not_a_module_key("symbol:"@ + symbol.id, name);
    if symbol.usr is Some {
        lemma_not_a_module_key("symbol_by_usr:"@ + symbol.usr->0, name);
    }
    lemma_not_a_module_key("occurrence:"@ + occurrence.id, name);
    lemma_not_a_module_key("edge:"@ + edge.id, name);
    if edge.from_sym is Some {
        let key = edge_index_key(edge.from_sym->0, edge.kind, edge.id);
        assert(key[0] == 'e');
        lemma_not_a_module_key(key, name);
    }
}

/// A step that spares the key of a module leaves the module's record as it
/// was: known or unknown, and with what it says.
pub proof fn law_step_keeps_module(
    pre: Map<Seq<u8>, Seq<u8>>,
    post: Map<Seq<u8>, Seq<u8>>,
    step: Step,
    name: Seq<char>,
)
    requires
        step_taken(pre, post, step),
        spares_module(pre, step, name),
    ensures
        post.contains_key(text_key("module:"@ + name)) == pre.contains_key(
            text_key("module:"@ + name),
        ),
        module_in(post, name) == module_in(pre, name),
{
    let key = text_key("module:"@ + name);
    reveal_strlit("file:");
    reveal_strlit("project:");
    reveal_strlit("module:");
    match step {
        Step::Project { name: project, root_path, id } => {
            if post != pre {
                let t = choose|t: Seq<char>|
                    post == apply_writes(
                        pre,
                        twin_writes(
                            "project:"@,
                            root_path,
                            id,
                            (#[trigger] new_project(project, root_path, id, t)).to_json(),
                        ),
                    );
                let writes = twin_writes(
                    "project:"@,
                    root_path,
                    id,
                    new_project(project, root_path, id, t).to_json(),
                );
                lemma_not_a_module_key("project:"@ + root_path, name);
                lemma_not_a_module_key("project:"@ + id, name);
                lemma_writes_spare_key(pre, writes, key);
            }
        },
        Step::File { project_id, path, lang, category, purpose, id } => {
            if post != pre {
                let writes = twin_writes(
                    "file:"@,
                    path,
                    id,
                    new_file(project_id, path, lang, category, purpose, id).to_json(),
                );
                lemma_not_a_module_key("file:"@ + path, name);
                lemma_not_a_module_key("file:"@ + id, name);
                lemma_writes_spare_key(pre, writes, key);
            }
        },
        Step::Module { name: module, kind, path, id } => {
            if post != pre {
                let writes = twin_writes("module:"@, module, id, new_module(module, kind, path, id).to_json());
                assert(("module:"@ + name).subrange(7, ("module:"@ + name).len() as int) =~= name);
                assert(("module:"@ + module).subrange(7, ("module:"@ + module).len() as int)
                    =~= module);
                assert(("module:"@ + id).subrange(7, ("module:"@ + id).len() as int) =~= id);
                lemma_utf8_injective("module:"@ + module, "module:"@ + name);
                lemma_utf8_injective("module:"@ + id, "module:"@ + name);
                lemma_writes_spare_key(pre, writes, key);
            }
        },
        Step::Record { record, writes } => {
            lemma_writes_spare_key(pre, writes, key);
        },
        Step::Found { usr, id } => {},
    }
}

/// Steps that spare the key of a module, one after the other, leave the
/// module's record as it was.
pub proof fn lemma_stores_keep_module(
    stores: Seq<Map<Seq<u8>, Seq<u8>>>,
    steps: Seq<Step>,
    name: Seq<char>,
    n: int,
)
    requires
        exists|pre: Map<Seq<u8>, Seq<u8>>, post: Map<Seq<u8>, Seq<u8>>|
            leads_through(stores, pre, post, steps),
        forall|i: int| 0 <= i < steps.len() ==> spares_module(#[trigger] stores[i], steps[i], name),
        0 <= n <= steps.len(),
    ensures
        stores[n].contains_key(text_key("module:"@ + name)) == stores[0].contains_key(
            text_key("module:"@ + name),
        ),
        module_in(stores[n], name) == module_in(stores[0], name),
    decreases n,
{
    reveal(leads_through);
    if n > 0 {
        lemma_stores_keep_module(stores, steps, name, n - 1);
        assert(step_taken(stores[n - 1], stores[n - 1 + 1], steps[n - 1]));
        law_step_keeps_module(stores[n - 1], stores[n], steps[n - 1], name);
    }
}

/// Upserting a module is idempotent whatever happens between the two calls,
/// as long as no step between them stores a record under the module's name;
/// upserting the same module again between them is such a step. The second
/// call answers the identifier of the first, writes nothing, and the kind
/// and the path of the first call stay.
pub proof fn law_upsert_module_is_idempotent_across_steps(
    s0: Map<Seq<u8>, Seq<u8>>,
    s1: Map<Seq<u8>, Seq<u8>>,
    stores: Seq<Map<Seq<u8>, Seq<u8>>>,
    steps: Seq<Step>,
    s2: Map<Seq<u8>, Seq<u8>>,
    s3: Map<Seq<u8>, Seq<u8>>,
    name: Seq<char>,
    kind1: Seq<char>,
    path1: Seq<char>,
    id1: Seq<char>,
    kind2: Seq<char>,
    path2: Seq<char>,
    id2: Seq<char>,
)
    requires
        module_upserted(s0, s1, name, kind1, path1, id1),
        leads_through(stores, s1, s2, steps),
        forall|i: int| 0 <= i < steps.len() ==> spares_module(#[trigger] stores[i], steps[i], name),
        module_upserted(s2, s3, name, kind2, path2, id2),
    ensures
        id2 == id1,
        s3 == s2,
        module_in(s3, name) == module_in(s1, name),
{
    law_upserted_module_is_stored(s0, s1, name, kind1, path1, id1);
    lemma_stores_keep_module(stores, steps, name, steps.len() as int);
    reveal(leads_through);
}

} // verus!
