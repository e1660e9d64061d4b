//! Rust sources: the external identifiers given to their symbols, and how the
//! functions and calls found in a source file are brought into the store.

use vstd::prelude::*;
use vstd::string::*;
use vstd::hash_map::StringHashMap;
use crate::database::{
    apply_writes, edge_writes, ensure_file_step, find_symbol_step, insert_edge, keeps_keys,
    lemma_edge_writes_keep_index, lemma_first_failed, lemma_keeps_keys_twice, lemma_no_step,
    lemma_one_step, lemma_pair, lemma_step_failed, lemma_step_keeps_keys, lemma_step_taken,
    lemma_steps_failed, lemma_steps_joined, lemma_steps_keep_keys, lemma_writes_in_turn, new_edge,
    new_symbol, plain_file_step, reads_back, record_symbol_step, step_begun, step_taken,
    steps_begun, steps_taken, symbol_id_in, symbol_step, text_key, wrote_some, Step, StoreError,
    SymgraphDb,
};
use crate::records::EdgeView;
use crate::text::{
    after_last, concat2, contains_seq, starts_with_seq, str_contains, str_starts_with,
    text_after_last,
};

verus! {

/// The name that an external identifier ends with: what follows its last
/// `::`, and of that what follows its last `#`.
pub open spec fn name_of_usr(usr: Seq<char>) -> Seq<char> {
    after_last(after_last(usr, "::"@), "#"@)
}

/// The name that an external identifier ends with.
pub fn extract_name_from_usr(usr: &str) -> (r: String)
    ensures
        r@ == name_of_usr(usr@),
{
    proof {
        reveal_strlit("::");
        reveal_strlit("#");
    }
    String::from_str(text_after_last(text_after_last(usr, "::"), "#"))
}

/// The kind of symbol that an external identifier speaks of, by the first
/// of the marks that it holds.
pub open spec fn kind_of_usr(usr: Seq<char>) -> Seq<char> {
    if contains_seq(usr, "F@"@) {
        "function"@
    } else if contains_seq(usr, "S@"@) {
        "struct"@
    } else if contains_seq(usr, "E@"@) {
        "enum"@
    } else if contains_seq(usr, "T@"@) {
        "trait"@
    } else if contains_seq(usr, "M@"@) {
        "module"@
    } else if contains_seq(usr, "C@"@) {
        "const"@
    } else {
        "variable"@
    }
}

/// The kind of symbol that an external identifier speaks of.
pub fn infer_kind_from_usr(usr: &str) -> (r: &'static str)
    ensures
        r@ == kind_of_usr(usr@),
{
    if str_contains(usr, "F@") {
        "function"
    } else if str_contains(usr, "S@") {
        "struct"
    } else if str_contains(usr, "E@") {
        "enum"
    } else if str_contains(usr, "T@") {
        "trait"
    } else if str_contains(usr, "M@") {
        "module"
    } else if str_contains(usr, "C@") {
        "const"
    } else {
        "variable"
    }
}

/// The external identifier of a symbol of a Rust crate, or of the workspace
/// where `scope` is `workspace`.
pub open spec fn rust_usr(scope: Seq<char>, name: Seq<char>) -> Seq<char> {
    "r:@"@ + scope + "@"@ + name
}

/// The external identifier of a symbol of a Rust crate.
pub fn rust_usr_text(scope: &str, name: &str) -> (r: String)
    ensures
        r@ == rust_usr(scope@, name@),
{
    let mut usr = concat2("r:@", scope);
    usr.append("@");
    usr.append(name);
    usr
}

/// The kind under which a symbol of a crate is recorded: an `impl` block,
/// which is named `impl_` and its type, or else a function.
pub open spec fn rust_symbol_kind(name: Seq<char>) -> Seq<char> {
    if starts_with_seq(name, "impl_"@) {
        "impl"@
    } else {
        "function"@
    }
}

/// The external identifiers noted for the names of symbols, kept from one
/// source file to the next.
pub struct UsrIndex {
    names: StringHashMap<String>,
}

impl View for UsrIndex {
    type V = Map<Seq<char>, String>;

    closed spec fn view(&self) -> Map<Seq<char>, String> {
        self.names@
    }
}

impl UsrIndex {
    /// An index that holds nothing.
    pub fn new() -> (r: UsrIndex)
        ensures
            r@ == Map::<Seq<char>, String>::empty(),
    {
        UsrIndex { names: StringHashMap::new() }
    }

    /// Notes the external identifier of a name, in place of the one noted
    /// before.
    pub fn insert(&mut self, name: String, usr: String)
        ensures
            final(self)@ == old(self)@.insert(name@, usr),
    {
        self.names.insert(name, usr);
    }

    /// The external identifier noted for a name.
    pub fn get(&self, name: &str) -> (r: Option<&String>)
        ensures
            match r {
                Some(usr) => self@.contains_key(name@) && *usr == self@[name@],
                None => !self@.contains_key(name@),
            },
    {
        self.names.get(name)
    }
}

/// `names` holds `earlier` and, for each of the symbols, its external
/// identifier.
pub open spec fn names_extended(
    earlier: Map<Seq<char>, String>,
    names: Map<Seq<char>, String>,
    scope: Seq<char>,
    symbols: Seq<String>,
) -> bool {
    &&& forall|name: Seq<char>| #[trigger]
        earlier.contains_key(name) ==> names.contains_key(name)
    &&& forall|i: int|
        0 <= i < symbols.len() ==> names.contains_key((#[trigger] symbols[i])@) && names[symbols[i]@]@
            == rust_usr(scope, symbols[i]@)
}

/// The two symbols that a call joins: those that the store finds by the
/// external identifiers noted for the caller's name and the callee's name.
/// Nothing where a name has no external identifier noted or the store finds
/// no symbol by it.
pub open spec fn call_ends(
    entries: Map<Seq<u8>, Seq<u8>>,
    names: Map<Seq<char>, String>,
    call: (String, String),
) -> Option<(Seq<char>, Seq<char>)> {
    if names.contains_key(call.0@) && names.contains_key(call.1@) {
        match (symbol_id_in(entries, names[call.0@]@), symbol_id_in(entries, names[call.1@]@)) {
            (Some(from), Some(to)) => Some((from, to)),
            _ => None,
        }
    } else {
        None
    }
}

/// The symbols that the calls join, call by call in their order, a call that
/// joins none passed over.
pub open spec fn resolved_calls(
    entries: Map<Seq<u8>, Seq<u8>>,
    names: Map<Seq<char>, String>,
    calls: Seq<(String, String)>,
) -> Seq<(Seq<char>, Seq<char>)>
    decreases calls.len(),
{
    if calls.len() == 0 {
        Seq::empty()
    } else {
        let rest = resolved_calls(entries, names, calls.drop_last());
        match call_ends(entries, names, calls.last()) {
            Some(ends) => rest.push(ends),
            None => rest,
        }
    }
}

/// Whether each of the calls has a name, the caller's or the callee's, for
/// which no external identifier is noted: the store is then not asked.
pub open spec fn calls_unnoted(names: Map<Seq<char>, String>, calls: Seq<(String, String)>) -> bool {
    forall|i: int|
        0 <= i < calls.len() ==> !(names.contains_key((#[trigger] calls[i]).0@)
            && names.contains_key(calls[i].1@))
}

/// The record of a call edge between two symbols.
pub open spec fn call_edge(ends: (Seq<char>, Seq<char>), id: Seq<char>) -> EdgeView {
    new_edge(Some(ends.0), Some(ends.1), None, None, "call"@, id)
}

/// The writes that record a call edge for each pair of symbols, in their
/// order, each edge under the identifier that stands at its place in `ids`.
pub open spec fn call_writes(ends: Seq<(Seq<char>, Seq<char>)>, ids: Seq<Seq<char>>) -> Seq<
    (Seq<u8>, Seq<u8>),
>
    decreases ends.len(),
{
    if ends.len() == 0 || ids.len() != ends.len() {
        Seq::empty()
    } else {
        call_writes(ends.drop_last(), ids.drop_last()) + edge_writes(
            call_edge(ends.last(), ids.last()),
        )
    }
}

/// `post` is `pre` with a call edge recorded for each pair of symbols, in
/// their order, each under an identifier of its own and in a form that
/// reads back.
pub open spec fn calls_recorded(
    pre: Map<Seq<u8>, Seq<u8>>,
    post: Map<Seq<u8>, Seq<u8>>,
    ends: Seq<(Seq<char>, Seq<char>)>,
) -> bool {
    exists|ids: Seq<Seq<char>>|
        {
            &&& ids.len() == ends.len()
            &&& post == apply_writes(pre, #[trigger] call_writes(ends, ids))
            &&& forall|j: int|
                0 <= j < ends.len() ==> reads_back((#[trigger] call_edge(ends[j], ids[j])).to_json())
        }
}

/// `post` is `pre` after some of the writes, from the start, that record a
/// call edge for each pair of symbols: what is left behind when the work
/// stops at a failure.
pub open spec fn calls_partly_recorded(
    pre: Map<Seq<u8>, Seq<u8>>,
    post: Map<Seq<u8>, Seq<u8>>,
    ends: Seq<(Seq<char>, Seq<char>)>,
) -> bool {
    exists|ids: Seq<Seq<char>>|
        ids.len() == ends.len() && wrote_some(pre, post, #[trigger] call_writes(ends, ids))
}

/// One more call: the symbols it joins come last, or nothing is added where
/// it joins none.
pub proof fn lemma_resolved_step(
    entries: Map<Seq<u8>, Seq<u8>>,
    names: Map<Seq<char>, String>,
    calls: Seq<(String, String)>,
    i: int,
)
    requires
        0 <= i < calls.len(),
    ensures
        resolved_calls(entries, names, calls.take(i + 1)) == match call_ends(
            entries,
            names,
            calls[i],
        ) {
            Some(ends) => resolved_calls(entries, names, calls.take(i)).push(ends),
            None => resolved_calls(entries, names, calls.take(i)),
        },
{
    assert(calls.take(i + 1).drop_last() =~= calls.take(i));
    assert(calls.take(i + 1).last() == calls[i]);
}

/// What the first calls join is the start of what all the calls join.
pub proof fn lemma_resolved_prefix(
    entries: Map<Seq<u8>, Seq<u8>>,
    names: Map<Seq<char>, String>,
    calls: Seq<(String, String)>,
    i: int,
)
    requires
        0 <= i <= calls.len(),
    ensures
        resolved_calls(entries, names, calls.take(i)).len() <= resolved_calls(
            entries,
            names,
            calls,
        ).len(),
        resolved_calls(entries, names, calls).take(
            resolved_calls(entries, names, calls.take(i)).len() as int,
        ) == resolved_calls(entries, names, calls.take(i)),
    decreases calls.len() - i,
{
    let part = resolved_calls(entries, names, calls.take(i));
    let whole = resolved_calls(entries, names, calls);
    if i == calls.len() {
        assert(calls.take(i) =~= calls);
        assert(whole.take(whole.len() as int) =~= whole);
    } else {
        lemma_resolved_step(entries, names, calls, i);
        lemma_resolved_prefix(entries, names, calls, i + 1);
        let more = resolved_calls(entries, names, calls.take(i + 1));
        assert(whole.take(more.len() as int) == more);
        assert(more.take(part.len() as int) =~= part);
        assert(whole.take(part.len() as int) =~= more.take(part.len() as int));
    }
}

/// One more pair of symbols: the writes of its edge come last.
pub proof fn lemma_call_writes_step(
    ends: Seq<(Seq<char>, Seq<char>)>,
    ids: Seq<Seq<char>>,
    pair: (Seq<char>, Seq<char>),
    id: Seq<char>,
)
    requires
        ids.len() == ends.len(),
    ensures
        call_writes(ends.push(pair), ids.push(id)) == call_writes(ends, ids) + edge_writes(
            call_edge(pair, id),
        ),
{
    assert(ends.push(pair).drop_last() =~= ends);
    assert(ids.push(id).drop_last() =~= ids);
}

/// Each call edge takes two writes, so the writes of the first pairs are the
/// first writes of all.
pub proof fn lemma_call_writes_take(
    ends: Seq<(Seq<char>, Seq<char>)>,
    ids: Seq<Seq<char>>,
    k: int,
)
    requires
        ids.len() == ends.len(),
        0 <= k <= ends.len(),
    ensures
        call_writes(ends, ids).len() == 2 * ends.len(),
        call_writes(ends, ids).take(2 * k) == call_writes(ends.take(k), ids.take(k)),
    decreases ends.len(),
{
    let all = call_writes(ends, ids);
    if ends.len() == 0 {
        assert(ends.take(k) =~= ends);
        assert(ids.take(k) =~= ids);
        assert(all.take(2 * k) =~= all);
    } else {
        let rest = call_writes(ends.drop_last(), ids.drop_last());
        let last = edge_writes(call_edge(ends.last(), ids.last()));
        assert(last.len() == 2);
        lemma_call_writes_take(ends.drop_last(), ids.drop_last(), if k < ends.len() {
            k
        } else {
            k - 1
        });
        if k == ends.len() {
            assert(ends.take(k) =~= ends);
            assert(ids.take(k) =~= ids);
            assert(all.take(2 * k) =~= all);
        } else {
            assert(ends.drop_last().take(k) =~= ends.take(k));
            assert(ids.drop_last().take(k) =~= ids.take(k));
            assert(all.take(2 * k) =~= rest.take(2 * k));
        }
    }
}

/// Work that stopped within the writes of the edge of pair `k`, after `m` of
/// them, with the edges of the pairs before it recorded, has left behind
/// some of the writes of all the pairs, from the start.
pub proof fn lemma_calls_stopped(
    pre: Map<Seq<u8>, Seq<u8>>,
    post: Map<Seq<u8>, Seq<u8>>,
    ends: Seq<(Seq<char>, Seq<char>)>,
    ids: Seq<Seq<char>>,
    k: int,
    m: int,
)
    requires
        0 <= k <= ends.len(),
        ids.len() == ends.len(),
        0 <= m <= 2,
        m > 0 ==> k < ends.len(),
        post == apply_writes(
            apply_writes(pre, call_writes(ends.take(k), ids.take(k))),
            if m > 0 {
                edge_writes(call_edge(ends[k], ids[k])).take(m)
            } else {
                Seq::empty()
            },
        ),
    ensures
        calls_partly_recorded(pre, post, ends),
{
    let all = call_writes(ends, ids);
    let done = call_writes(ends.take(k), ids.take(k));
    lemma_call_writes_take(ends, ids, k);
    if m > 0 {
        let next = edge_writes(call_edge(ends[k], ids[k]));
        assert(next.len() == 2);
        lemma_call_writes_take(ends, ids, k + 1);
        assert(ends.take(k + 1) =~= ends.take(k).push(ends[k]));
        assert(ids.take(k + 1) =~= ids.take(k).push(ids[k]));
        lemma_call_writes_step(ends.take(k), ids.take(k), ends[k], ids[k]);
        lemma_writes_in_turn(pre, done, next.take(m));
        assert(all.take(2 * k + m) =~= all.take(2 * (k + 1)).take(2 * k + m));
        assert((done + next).take(2 * k + m) =~= done + next.take(m));
        assert(post == apply_writes(pre, all.take(2 * k + m)));
    } else {
        assert(post == apply_writes(pre, all.take(2 * k)));
    }
}

/// Work that stopped between two edges has left behind some of the writes
/// of all the pairs, from the start.
pub proof fn lemma_stopped_between(
    pre: Map<Seq<u8>, Seq<u8>>,
    post: Map<Seq<u8>, Seq<u8>>,
    ends: Seq<(Seq<char>, Seq<char>)>,
    done: Seq<(Seq<char>, Seq<char>)>,
    ids: Seq<Seq<char>>,
)
    requires
        done.len() <= ends.len(),
        ends.take(done.len() as int) == done,
        ids.len() == done.len(),
        post == apply_writes(pre, call_writes(done, ids)),
    ensures
        calls_partly_recorded(pre, post, ends),
{
    let k = done.len() as int;
    let all_ids = Seq::new(
        ends.len(),
        |j: int|
            if j < k {
                ids[j]
            } else {
                Seq::empty()
            },
    );
    assert(all_ids.take(k) =~= ids);
    lemma_calls_stopped(pre, post, ends, all_ids, k, 0);
}

/// Work that stopped at the edge of the pair that follows `done`, with none,
/// one or both of its writes made, has left behind some of the writes of all
/// the pairs, from the start.
pub proof fn lemma_stopped_within(
    pre: Map<Seq<u8>, Seq<u8>>,
    before: Map<Seq<u8>, Seq<u8>>,
    post: Map<Seq<u8>, Seq<u8>>,
    ends: Seq<(Seq<char>, Seq<char>)>,
    done: Seq<(Seq<char>, Seq<char>)>,
    ids: Seq<Seq<char>>,
    pair: (Seq<char>, Seq<char>),
    id: Seq<char>,
)
    requires
        done.len() < ends.len(),
        ends.take(done.len() as int + 1) == done.push(pair),
        ids.len() == done.len(),
        before == apply_writes(pre, call_writes(done, ids)),
        post == before || wrote_some(before, post, edge_writes(call_edge(pair, id))),
    ensures
        calls_partly_recorded(pre, post, ends),
{
    let k = done.len() as int;
    let all_ids = Seq::new(
        ends.len(),
        |j: int|
            if j < k {
                ids[j]
            } else if j == k {
                id
            } else {
                Seq::empty()
            },
    );
    assert(all_ids.take(k) =~= ids);
    assert(ends.take(k) =~= ends.take(k + 1).take(k));
    assert(done.push(pair).take(k) =~= done);
    assert(ends[k] == ends.take(k + 1)[k]);
    let next = edge_writes(call_edge(pair, id));
    assert(next.len() == 2);
    if post == before {
        lemma_calls_stopped(pre, post, ends, all_ids, k, 0);
    } else {
        let n = choose|n: int| 0 <= n <= next.len() && post == #[trigger] apply_writes(before, next.take(n));
        if n == 0 {
            assert(next.take(0) =~= Seq::empty());
            lemma_calls_stopped(pre, post, ends, all_ids, k, 0);
        } else {
            lemma_calls_stopped(pre, post, ends, all_ids, k, n);
        }
    }
}

/// Records a call edge for each call whose caller and callee both have an
/// external identifier in `names` and a symbol in the store, in the order of
/// the calls. The answer is the number of edges recorded.
///
/// The first failure ends the work and is handed on; what was written before
/// it stays. Where no call has both its names noted, the store is not asked
/// and there is no failure.
pub fn ingest_calls(
    db: &mut SymgraphDb,
    names: &UsrIndex,
    calls: &Vec<(String, String)>,
) -> (r: Result<usize, StoreError>)
    ensures
        keeps_keys(old(db).entries(), final(db).entries()),
        calls_unnoted(names@, calls@) ==> r is Ok,
        match r {
            Ok(n) => {
                &&& n == resolved_calls(old(db).entries(), names@, calls@).len()
                &&& calls_recorded(
                    old(db).entries(),
                    final(db).entries(),
                    resolved_calls(old(db).entries(), names@, calls@),
                )
            },
            Err(e) => {
                &&& e is Storage || e is Write
                &&& calls_partly_recorded(
                    old(db).entries(),
                    final(db).entries(),
                    resolved_calls(old(db).entries(), names@, calls@),
                )
            },
        },
{
    let ghost pre = db.entries();
    let ghost all = calls@;
    let ghost ends = resolved_calls(pre, names@, all);
    let ghost mut ids: Seq<Seq<char>> = Seq::empty();
    let mut recorded: usize = 0;
    let mut i: usize = 0;
    proof {
        assert(all.take(0) =~= Seq::empty());
    }
    while i < calls.len()
        invariant
            i <= calls.len(),
            recorded <= i,
            all == calls@,
            pre == old(db).entries(),
            ends == resolved_calls(pre, names@, all),
            recorded == resolved_calls(pre, names@, all.take(i as int)).len(),
            ids.len() == recorded,
            db.entries() == apply_writes(
                pre,
                call_writes(resolved_calls(pre, names@, all.take(i as int)), ids),
            ),
            forall|j: int|
                0 <= j < recorded ==> reads_back(
                    (#[trigger] call_edge(
                        resolved_calls(pre, names@, all.take(i as int))[j],
                        ids[j],
                    )).to_json(),
                ),
            forall|usr: Seq<char>| #[trigger]
                symbol_id_in(db.entries(), usr) == symbol_id_in(pre, usr),
            keeps_keys(pre, db.entries()),
        decreases calls.len() - i,
    {
        let ghost before = db.entries();
        let ghost done = resolved_calls(pre, names@, all.take(i as int));
        proof {
            lemma_resolved_step(pre, names@, all, i as int);
            lemma_resolved_prefix(pre, names@, all, i as int);
        }
        match (names.get(calls[i].0.as_str()), names.get(calls[i].1.as_str())) {
            (Some(caller_usr), Some(callee_usr)) => {
                let caller = match db.find_symbol_by_usr(caller_usr.as_str()) {
                    Ok(found) => found,
                    Err(e) => {
                        proof {
                            lemma_stopped_between(pre, db.entries(), ends, done, ids);
                            assert(names@.contains_key(all[i as int].0@) && names@.contains_key(
                                all[i as int].1@,
                            ));
                        }
                        return Err(e);
                    },
                };
                let callee = match db.find_symbol_by_usr(callee_usr.as_str()) {
                    Ok(found) => found,
                    Err(e) => {
                        proof {
                            lemma_stopped_between(pre, db.entries(), ends, done, ids);
                            assert(names@.contains_key(all[i as int].0@) && names@.contains_key(
                                all[i as int].1@,
                            ));
                        }
                        return Err(e);
                    },
                };
                match (caller, callee) {
                    (Some(from), Some(to)) => {
                        let ghost pair = (from@, to@);
                        assert(call_ends(pre, names@, all[i as int]) == Some(pair));
                        let inserted = insert_edge(
                            db,
                            Some(from.as_str()),
                            Some(to.as_str()),
                            None,
                            None,
                            "call",
                        );
                        proof {
                            lemma_keeps_keys_twice(old(db).entries(), before, db.entries());
                        }
                        match inserted {
                            Ok(id) => {
                                proof {
                                    let record = call_edge(pair, id@);
                                    lemma_call_writes_step(done, ids, pair, id@);
                                    lemma_writes_in_turn(
                                        pre,
                                        call_writes(done, ids),
                                        edge_writes(record),
                                    );
                                    assert(edge_writes(record).take(2) =~= edge_writes(record));
                                    assert forall|usr: Seq<char>| #[trigger]
                                        symbol_id_in(db.entries(), usr) == symbol_id_in(
                                            pre,
                                            usr,
                                        ) by {
                                        lemma_edge_writes_keep_index(before, record, 2, usr);
                                        assert(symbol_id_in(before, usr) == symbol_id_in(pre, usr));
                                    }
                                    let grown = done.push(pair);
                                    let earlier = ids;
                                    ids = ids.push(id@);
                                    assert forall|j: int| 0 <= j < grown.len() implies reads_back(
                                        (#[trigger] call_edge(grown[j], ids[j])).to_json(),
                                    ) by {
                                        if j < done.len() {
                                            assert(call_edge(grown[j], ids[j]) == call_edge(
                                                done[j],
                                                earlier[j],
                                            ));
                                        }
                                    }
                                }
                            },
                            Err(e) => {
                                proof {
                                    assert(names@.contains_key(all[i as int].0@)
                                        && names@.contains_key(all[i as int].1@));
                                    lemma_resolved_prefix(pre, names@, all, i as int + 1);
                                    let id = if e is Storage {
                                        choose|id: Seq<char>|
                                            wrote_some(
                                                before,
                                                db.entries(),
                                                edge_writes(
                                                    #[trigger] new_edge(
                                                        Some(pair.0),
                                                        Some(pair.1),
                                                        None,
                                                        None,
                                                        "call"@,
                                                        id,
                                                    ),
                                                ),
                                            )
                                    } else {
                                        Seq::empty()
                                    };
                                    lemma_stopped_within(
                                        pre,
                                        before,
                                        db.entries(),
                                        ends,
                                        done,
                                        ids,
                                        pair,
                                        id,
                                    );
                                }
                                return Err(e);
                            },
                        }
                        recorded += 1;
                    },
                    _ => {
                        assert(call_ends(pre, names@, all[i as int]) is None);
                    },
                }
            },
            _ => {
                assert(call_ends(pre, names@, all[i as int]) is None);
            },
        }
        i += 1;
    }
    proof {
        assert(all.take(i as int) =~= all);
        assert(calls_recorded(pre, db.entries(), ends)) by {
            assert(db.entries() == apply_writes(pre, call_writes(ends, ids)));
        }
    }
    Ok(recorded)
}

/// What comes with one symbol of a source file: the identifier of the file
/// that the store answered, where the file is ensured with the symbol; what
/// the store answered when it was asked for the symbol; and the identifier
/// drawn for the symbol's record.
pub struct RustIds {
    pub file: Seq<char>,
    pub found: Option<Seq<char>>,
    pub symbol: Seq<char>,
}

/// The steps for a symbol of a source file: the store is asked for it by
/// its external identifier, and where the store has none, the symbol is
/// recorded in the file, as a definition.
pub open spec fn declared(
    file_id: Seq<char>,
    usr: Seq<char>,
    name: Seq<char>,
    kind: Seq<char>,
    ids: RustIds,
) -> Seq<Step> {
    if ids.found is Some {
        seq![(Step::Found { usr, id: ids.found })]
    } else {
        seq![
            (Step::Found { usr, id: None }),
            symbol_step(new_symbol(file_id, Some(usr), None, name, kind, true, ids.symbol)),
        ]
    }
}

/// The steps for the first symbols of a source file of a crate, as many as
/// identifiers have come for.
pub open spec fn package_symbol_steps(
    scope: Seq<char>,
    file_id: Seq<char>,
    symbols: Seq<String>,
    ids: Seq<RustIds>,
) -> Seq<Step>
    decreases ids.len(),
{
    if ids.len() == 0 || ids.len() > symbols.len() {
        Seq::empty()
    } else {
        let name = symbols[ids.len() - 1]@;
        package_symbol_steps(scope, file_id, symbols, ids.drop_last()) + declared(
            file_id,
            rust_usr(scope, name),
            name,
            rust_symbol_kind(name),
            ids.last(),
        )
    }
}

/// The steps that bring a source file of a crate into the store, as far as
/// identifiers have come: the file is ensured as a Rust file, then come the
/// steps for its symbols.
pub open spec fn package_file_steps(
    scope: Seq<char>,
    path: Seq<char>,
    category: Seq<char>,
    purpose: Seq<char>,
    symbols: Seq<String>,
    file_id: Seq<char>,
    ids: Seq<RustIds>,
) -> Seq<Step> {
    seq![plain_file_step(path, "rust"@, Some(category), Some(purpose), file_id)]
        + package_symbol_steps(scope, file_id, symbols, ids)
}

/// The steps for one function of a source file outside the crates: the file
/// is ensured, then come the steps for the function.
pub open spec fn workspace_symbol(
    path: Seq<char>,
    language: Seq<char>,
    category: Seq<char>,
    purpose: Seq<char>,
    name: Seq<char>,
    ids: RustIds,
) -> Seq<Step> {
    seq![plain_file_step(path, language, Some(category), Some(purpose), ids.file)] + declared(
        ids.file,
        rust_usr("workspace"@, name),
        name,
        "function"@,
        ids,
    )
}

/// The steps that bring the first functions of a source file outside the
/// crates into the store, as many as identifiers have come for.
pub open spec fn workspace_file_steps(
    path: Seq<char>,
    language: Seq<char>,
    category: Seq<char>,
    purpose: Seq<char>,
    symbols: Seq<String>,
    ids: Seq<RustIds>,
) -> Seq<Step>
    decreases ids.len(),
{
    if ids.len() == 0 || ids.len() > symbols.len() {
        Seq::empty()
    } else {
        workspace_file_steps(path, language, category, purpose, symbols, ids.drop_last())
            + workspace_symbol(
            path,
            language,
            category,
            purpose,
            symbols[ids.len() - 1]@,
            ids.last(),
        )
    }
}

/// The steps of a source file have been taken, and then its calls recorded
/// between the symbols that the store finds by the names noted.
pub open spec fn file_ingested(
    pre: Map<Seq<u8>, Seq<u8>>,
    post: Map<Seq<u8>, Seq<u8>>,
    steps: Seq<Step>,
    names: Map<Seq<char>, String>,
    calls: Seq<(String, String)>,
) -> bool {
    exists|middle: Map<Seq<u8>, Seq<u8>>|
        {
            &&& #[trigger] steps_taken(pre, middle, steps)
            &&& calls_recorded(middle, post, resolved_calls(middle, names, calls))
        }
}

/// The calls of a source file have failed part of the way, after its steps
/// were taken.
pub open spec fn file_calls_begun(
    pre: Map<Seq<u8>, Seq<u8>>,
    post: Map<Seq<u8>, Seq<u8>>,
    steps: Seq<Step>,
    names: Map<Seq<char>, String>,
    calls: Seq<(String, String)>,
) -> bool {
    exists|middle: Map<Seq<u8>, Seq<u8>>|
        {
            &&& #[trigger] steps_taken(pre, middle, steps)
            &&& calls_partly_recorded(middle, post, resolved_calls(middle, names, calls))
        }
}

/// One more symbol of a source file of a crate: its steps come last.
pub proof fn lemma_package_symbol_added(
    scope: Seq<char>,
    file_id: Seq<char>,
    symbols: Seq<String>,
    ids: Seq<RustIds>,
    next: RustIds,
)
    requires
        ids.len() < symbols.len(),
    ensures
        package_symbol_steps(scope, file_id, symbols, ids.push(next)) == package_symbol_steps(
            scope,
            file_id,
            symbols,
            ids,
        ) + declared(
            file_id,
            rust_usr(scope, symbols[ids.len() as int]@),
            symbols[ids.len() as int]@,
            rust_symbol_kind(symbols[ids.len() as int]@),
            next,
        ),
{
    assert(ids.push(next).drop_last() =~= ids);
}

/// One more function of a source file outside the crates: its steps come
/// last.
pub proof fn lemma_workspace_symbol_added(
    path: Seq<char>,
    language: Seq<char>,
    category: Seq<char>,
    purpose: Seq<char>,
    symbols: Seq<String>,
    ids: Seq<RustIds>,
    next: RustIds,
)
    requires
        ids.len() < symbols.len(),
    ensures
        workspace_file_steps(path, language, category, purpose, symbols, ids.push(next))
            == workspace_file_steps(path, language, category, purpose, symbols, ids)
            + workspace_symbol(
            path,
            language,
            category,
            purpose,
            symbols[ids.len() as int]@,
            next,
        ),
{
    assert(ids.push(next).drop_last() =~= ids);
}

/// Records a symbol of a source file unless the store finds it by its
/// external identifier, which is the answer.
fn declare_unless_found(
    db: &mut SymgraphDb,
    file_id: &str,
    scope: &str,
    name: &str,
    kind: &str,
    Ghost(file): Ghost<Seq<char>>,
) -> (r: (Result<String, StoreError>, Ghost<RustIds>))
    ensures
        r.1@.file == file,
        match r.0 {
            Ok(usr) => usr@ == rust_usr(scope@, name@) && steps_taken(
                old(db).entries(),
                final(db).entries(),
                declared(file_id@, rust_usr(scope@, name@), name@, kind@, r.1@),
            ),
            Err(e) => !(e is Open) && steps_begun(
                old(db).entries(),
                final(db).entries(),
                declared(file_id@, rust_usr(scope@, name@), name@, kind@, r.1@),
            ),
        },
{
    let ghost pre = db.entries();
    let usr = rust_usr_text(scope, name);
    let found = match find_symbol_step(db, usr.as_str()) {
        Ok(found) => found,
        Err(e) => {
            let ghost ids = RustIds { file, found: None, symbol: Seq::empty() };
            proof {
                lemma_first_failed(pre, db.entries(), declared(file_id@, usr@, name@, kind@, ids));
            }
            return (Err(e), Ghost(ids));
        },
    };
    if found.is_some() {
        let ghost ids = RustIds { file, found: found.deep_view(), symbol: Seq::empty() };
        proof {
            lemma_one_step(pre, pre, (Step::Found { usr: usr@, id: ids.found }));
        }
        return (Ok(usr), Ghost(ids));
    }
    let recorded = record_symbol_step(db, file_id, Some(usr.as_str()), None, name, kind, true);
    let ghost ids = RustIds { file, found: None, symbol: recorded.1@ };
    proof {
        lemma_pair(
            pre,
            pre,
            db.entries(),
            (Step::Found { usr: usr@, id: None }),
            symbol_step(new_symbol(file_id@, Some(usr@), None, name@, kind@, true, ids.symbol)),
        );
    }
    match recorded.0 {
        Ok(_) => (Ok(usr), Ghost(ids)),
        Err(e) => (Err(e), Ghost(ids)),
    }
}

/// Brings the symbols and calls found in one source file of a crate into the
/// store. The file becomes known first. A symbol that the store does not
/// find by its external identifier is recorded, and one that it finds is
/// not recorded again; every symbol's external identifier is noted in
/// `names`, which goes from file to file. Then the calls are recorded as by
/// [`ingest_calls`].
///
/// The first failure ends the work and is handed on; what was written before
/// it stays.
pub fn ingest_package_file(
    db: &mut SymgraphDb,
    names: &mut UsrIndex,
    crate_name: &str,
    path: &str,
    category: &str,
    purpose: &str,
    symbols: &Vec<String>,
    calls: &Vec<(String, String)>,
) -> (r: Result<(), StoreError>)
    ensures
        keeps_keys(old(db).entries(), final(db).entries()),
        match r {
            Ok(_) => {
                &&& names_extended(old(names)@, final(names)@, crate_name@, symbols@)
                &&& exists|file_id: Seq<char>, ids: Seq<RustIds>|
                    ids.len() == symbols@.len() && file_ingested(
                        old(db).entries(),
                        final(db).entries(),
                        #[trigger] package_file_steps(
                            crate_name@,
                            path@,
                            category@,
                            purpose@,
                            symbols@,
                            file_id,
                            ids,
                        ),
                        final(names)@,
                        calls@,
                    )
            },
            Err(e) => !(e is Open) && exists|file_id: Seq<char>, ids: Seq<RustIds>|
                {
                    let steps = #[trigger] package_file_steps(
                        crate_name@,
                        path@,
                        category@,
                        purpose@,
                        symbols@,
                        file_id,
                        ids,
                    );
                    ||| steps_begun(old(db).entries(), final(db).entries(), steps)
                    ||| ids.len() == symbols@.len() && file_calls_begun(
                        old(db).entries(),
                        final(db).entries(),
                        steps,
                        final(names)@,
                        calls@,
                    )
                },
        },
{
    let ghost pre = db.entries();
    let ensured = ensure_file_step(db, path, "rust", Some(category), Some(purpose));
    let ghost file = ensured.1@;
    let ghost head = seq![plain_file_step(path@, "rust"@, Some(category@), Some(purpose@), file)];
    let file_id = match ensured.0 {
        Ok(id) => id,
        Err(e) => {
            proof {
                lemma_first_failed(pre, db.entries(), head);
                lemma_step_keeps_keys(pre, db.entries(), head[0]);
                assert(package_file_steps(
                    crate_name@,
                    path@,
                    category@,
                    purpose@,
                    symbols@,
                    file,
                    Seq::empty(),
                ) =~= head);
            }
            return Err(e);
        },
    };
    let ghost mut ids: Seq<RustIds> = Seq::empty();
    let mut i: usize = 0;
    proof {
        lemma_one_step(pre, db.entries(), head[0]);
        assert(package_file_steps(crate_name@, path@, category@, purpose@, symbols@, file, ids)
            =~= head);
    }
    while i < symbols.len()
        invariant
            i <= symbols.len(),
            pre == old(db).entries(),
            file == file_id@,
            ids.len() == i,
            steps_taken(
                pre,
                db.entries(),
                package_file_steps(crate_name@, path@, category@, purpose@, symbols@, file, ids),
            ),
            names_extended(old(names)@, names@, crate_name@, symbols@.take(i as int)),
        decreases symbols.len() - i,
    {
        let ghost before = db.entries();
        let ghost names_before = names@;
        let ghost done = package_file_steps(
            crate_name@,
            path@,
            category@,
            purpose@,
            symbols@,
            file,
            ids,
        );
        let name = symbols[i].as_str();
        let kind = if str_starts_with(name, "impl_") {
            "impl"
        } else {
            "function"
        };
        let declared_now = declare_unless_found(
            db,
            file_id.as_str(),
            crate_name,
            name,
            kind,
            Ghost(file),
        );
        let ghost next = declared_now.1@;
        let ghost run = declared(file, rust_usr(crate_name@, name@), name@, kind@, next);
        let ghost more = package_file_steps(
            crate_name@,
            path@,
            category@,
            purpose@,
            symbols@,
            file,
            ids.push(next),
        );
        proof {
            reveal_strlit("impl_");
            reveal_strlit("impl");
            reveal_strlit("function");
            lemma_package_symbol_added(crate_name@, file, symbols@, ids, next);
            assert(more =~= done + run);
        }
        let usr = match declared_now.0 {
            Ok(usr) => usr,
            Err(e) => {
                proof {
                    lemma_steps_failed(pre, before, db.entries(), done, run, more);
                }
                return Err(e);
            },
        };
        proof {
            lemma_steps_joined(pre, before, db.entries(), done, run);
            ids = ids.push(next);
        }
        names.insert(String::from_str(name), usr);
        proof {
            let known = symbols@.take(i as int);
            let longer = symbols@.take(i as int + 1);
            assert forall|j: int| 0 <= j < longer.len() implies names@.contains_key(
                (#[trigger] longer[j])@,
            ) && names@[longer[j]@]@ == rust_usr(crate_name@, longer[j]@) by {
                if j < i {
                    assert(longer[j] == known[j]);
                    assert(names_before.contains_key(known[j]@));
                }
            }
            assert forall|other: Seq<char>| #[trigger]
                old(names)@.contains_key(other) implies names@.contains_key(other) by {
                assert(names_before.contains_key(other));
            }
        }
        i += 1;
    }
    proof {
        assert(symbols@.take(i as int) =~= symbols@);
        lemma_steps_keep_keys(
            pre,
            db.entries(),
            package_file_steps(crate_name@, path@, category@, purpose@, symbols@, file, ids),
        );
    }
    let ghost with_symbols = db.entries();
    let recorded = ingest_calls(db, names, calls);
    proof {
        lemma_keeps_keys_twice(pre, with_symbols, db.entries());
    }
    match recorded {
        Ok(_) => Ok(()),
        Err(e) => Err(e),
    }
}

/// Brings the functions and calls found in one source file outside the
/// crates of a workspace into the store. The file becomes known with each
/// function, so a file without functions stays unknown. A function that the
/// store does not find by its external identifier is recorded, and one that
/// it finds is not recorded again; every function's external identifier is
/// noted in `names`, which goes from file to file. Then the calls are
/// recorded as by [`ingest_calls`].
///
/// The first failure ends the work and is handed on; what was written before
/// it stays.
pub fn ingest_workspace_file(
    db: &mut SymgraphDb,
    names: &mut UsrIndex,
    path: &str,
    language: &str,
    category: &str,
    purpose: &str,
    symbols: &Vec<String>,
    calls: &Vec<(String, String)>,
) -> (r: Result<(), StoreError>)
    ensures
        keeps_keys(old(db).entries(), final(db).entries()),
        match r {
            Ok(_) => {
                &&& names_extended(old(names)@, final(names)@, "workspace"@, symbols@)
                &&& exists|ids: Seq<RustIds>|
                    ids.len() == symbols@.len() && file_ingested(
                        old(db).entries(),
                        final(db).entries(),
                        #[trigger] workspace_file_steps(
                            path@,
                            language@,
                            category@,
                            purpose@,
                            symbols@,
                            ids,
                        ),
                        final(names)@,
                        calls@,
                    )
            },
            Err(e) => !(e is Open) && exists|ids: Seq<RustIds>|
                {
                    let steps = #[trigger] workspace_file_steps(
                        path@,
                        language@,
                        category@,
                        purpose@,
                        symbols@,
                        ids,
                    );
                    ||| steps_begun(old(db).entries(), final(db).entries(), steps)
                    ||| ids.len() == symbols@.len() && file_calls_begun(
                        old(db).entries(),
                        final(db).entries(),
                        steps,
                        final(names)@,
                        calls@,
                    )
                },
        },
{
    let ghost pre = db.entries();
    let ghost mut ids: Seq<RustIds> = Seq::empty();
    let mut i: usize = 0;
    proof {
        lemma_no_step(pre);
    }
    while i < symbols.len()
        invariant
            i <= symbols.len(),
            pre == old(db).entries(),
            ids.len() == i,
            steps_taken(
                pre,
                db.entries(),
                workspace_file_steps(path@, language@, category@, purpose@, symbols@, ids),
            ),
            names_extended(old(names)@, names@, "workspace"@, symbols@.take(i as int)),
        decreases symbols.len() - i,
    {
        let ghost before = db.entries();
        let ghost names_before = names@;
        let ghost done = workspace_file_steps(
            path@,
            language@,
            category@,
            purpose@,
            symbols@,
            ids,
        );
        let name = symbols[i].as_str();
        let ensured = ensure_file_step(db, path, language, Some(category), Some(purpose));
        let ghost file = ensured.1@;
        let ghost first = plain_file_step(path@, language@, Some(category@), Some(purpose@), file);
        let file_id = match ensured.0 {
            Ok(id) => id,
            Err(e) => {
                proof {
                    let next = RustIds { file, found: None, symbol: Seq::empty() };
                    lemma_workspace_symbol_added(
                        path@,
                        language@,
                        category@,
                        purpose@,
                        symbols@,
                        ids,
                        next,
                    );
                    let run = workspace_symbol(path@, language@, category@, purpose@, name@, next);
                    lemma_step_failed(
                        pre,
                        before,
                        db.entries(),
                        done,
                        run,
                        workspace_file_steps(
                            path@,
                            language@,
                            category@,
                            purpose@,
                            symbols@,
                            ids.push(next),
                        ),
                    );
                }
                return Err(e);
            },
        };
        let ghost middle = db.entries();
        let declared_now = declare_unless_found(
            db,
            file_id.as_str(),
            "workspace",
            name,
            "function",
            Ghost(file),
        );
        let ghost next = declared_now.1@;
        let ghost tail = declared(file, rust_usr("workspace"@, name@), name@, "function"@, next);
        let ghost more = workspace_file_steps(
            path@,
            language@,
            category@,
            purpose@,
            symbols@,
            ids.push(next),
        );
        proof {
            lemma_workspace_symbol_added(
                path@,
                language@,
                category@,
                purpose@,
                symbols@,
                ids,
                next,
            );
            lemma_step_taken(pre, before, middle, done, first);
            assert(more =~= done.push(first) + tail);
        }
        let usr = match declared_now.0 {
            Ok(usr) => usr,
            Err(e) => {
                proof {
                    lemma_steps_failed(pre, middle, db.entries(), done.push(first), tail, more);
                }
                return Err(e);
            },
        };
        proof {
            lemma_steps_joined(pre, middle, db.entries(), done.push(first), tail);
            ids = ids.push(next);
        }
        names.insert(String::from_str(name), usr);
        proof {
            let known = symbols@.take(i as int);
            let longer = symbols@.take(i as int + 1);
            assert forall|j: int| 0 <= j < longer.len() implies names@.contains_key(
                (#[trigger] longer[j])@,
            ) && names@[longer[j]@]@ == rust_usr("workspace"@, longer[j]@) by {
                if j < i {
                    assert(longer[j] == known[j]);
                    assert(names_before.contains_key(known[j]@));
                }
            }
            assert forall|other: Seq<char>| #[trigger]
                old(names)@.contains_key(other) implies names@.contains_key(other) by {
                assert(names_before.contains_key(other));
            }
        }
        i += 1;
    }
    proof {
        assert(symbols@.take(i as int) =~= symbols@);
        lemma_steps_keep_keys(
            pre,
            db.entries(),
            workspace_file_steps(path@, language@, category@, purpose@, symbols@, ids),
        );
    }
    let ghost with_symbols = db.entries();
    let recorded = ingest_calls(db, names, calls);
    proof {
        lemma_keeps_keys_twice(pre, with_symbols, db.entries());
    }
    match recorded {
        Ok(_) => Ok(()),
        Err(e) => Err(e),
    }
}

} // verus!
