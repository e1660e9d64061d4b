//! Bringing what the front ends found into the store: a front end hands over
//! the facts of one translation unit, one module or one source file, and the
//! functions here make the files, symbols, occurrences and edges known, one
//! store operation for each fact.
//!
//! The first failure ends the work and is handed on; what was written before
//! it stays. Nothing that the store held is removed.

use vstd::prelude::*;
use vstd::string::*;
use crate::cxx::{ModuleInfo, Occurrence, Symbol};
use crate::models::ModuleAnalysis;
use crate::database::{
    edge_step, ensure_file_step, find_symbol_step, keeps_keys, lemma_first_failed,
    lemma_keeps_keys_twice, lemma_no_step, lemma_one_step, lemma_pair, lemma_step_failed,
    lemma_step_keeps_keys, lemma_step_taken, lemma_steps_failed, lemma_steps_joined,
    lemma_steps_keep_keys, new_edge, new_occurrence, new_symbol, occurrence_step,
    plain_file_step, record_edge_step, record_occurrence_step, record_symbol_step, step_begun,
    step_taken, steps_begun, steps_taken, symbol_step, text_key, upsert_module_step, Step,
    StoreError, SymgraphDb,
};
use crate::text::concat2;

verus! {

/// How much of a translation unit was brought into the store.
#[derive(Debug, Clone, Copy, PartialEq, Eq, Structural)]
pub struct Ingested {
    /// The symbols recorded.
    pub symbols: usize,
    /// The occurrences recorded.
    pub occurrences: usize,
    /// The edges recorded.
    pub edges: usize,
}

/// An optional text as a borrowed one.
pub fn borrowed(text: &Option<String>) -> (r: Option<&str>)
    ensures
        crate::database::text_of(r) == text.deep_view(),
{
    match text {
        Some(s) => Some(s.as_str()),
        None => None,
    }
}

/// What comes with one fact that is brought into the store: the identifier
/// that the store answered for the fact's file or module; what the store
/// answered when it was asked for the fact's symbol, or for the symbol that
/// an edge leaves; what it answered for the symbol to which an edge leads;
/// and the identifier drawn for the fact's record.
pub struct FactIds {
    pub file: Seq<char>,
    pub found: Option<Seq<char>>,
    pub other: Option<Seq<char>>,
    pub id: Seq<char>,
}

/// The steps for an edge between two symbols named by their external
/// identifiers: the store is asked for both, and where it finds both, the
/// edge is recorded between them.
pub open spec fn linked_steps(from_usr: Seq<char>, to_usr: Seq<char>, kind: Seq<char>, ids: FactIds) -> Seq<
    Step,
> {
    let asked = seq![
        (Step::Found { usr: from_usr, id: ids.found }),
        (Step::Found { usr: to_usr, id: ids.other }),
    ];
    if ids.found is Some && ids.other is Some {
        asked.push(edge_step(new_edge(ids.found, ids.other, None, None, kind, ids.id)))
    } else {
        asked
    }
}

/// Whether the store found both ends of an edge.
pub open spec fn is_linked(ids: FactIds) -> bool {
    ids.found is Some && ids.other is Some
}

/// Records an edge between two symbols named by their external identifiers,
/// where the store finds both. The answer tells whether it did.
pub(crate) fn link_if_found(db: &mut SymgraphDb, from_usr: &str, to_usr: &str, kind: &str) -> (r: (
    Result<bool, StoreError>,
    Ghost<FactIds>,
))
    ensures
        match r.0 {
            Ok(linked) => linked == is_linked(r.1@) && steps_taken(
                old(db).entries(),
                final(db).entries(),
                linked_steps(from_usr@, to_usr@, kind@, r.1@),
            ),
            Err(e) => !(e is Open) && steps_begun(
                old(db).entries(),
                final(db).entries(),
                linked_steps(from_usr@, to_usr@, kind@, r.1@),
            ),
        },
{
    let ghost pre = db.entries();
    let ghost nothing = FactIds { file: Seq::empty(), found: None, other: None, id: Seq::empty() };
    let from = match find_symbol_step(db, from_usr) {
        Ok(found) => found,
        Err(e) => {
            proof {
                lemma_first_failed(pre, pre, linked_steps(from_usr@, to_usr@, kind@, nothing));
            }
            return (Err(e), Ghost(nothing));
        },
    };
    let ghost first = Step::Found { usr: from_usr@, id: from.deep_view() };
    let to = match find_symbol_step(db, to_usr) {
        Ok(found) => found,
        Err(e) => {
            let ghost ids = FactIds { found: from.deep_view(), ..nothing };
            proof {
                lemma_one_step(pre, pre, first);
                lemma_step_failed(
                    pre,
                    pre,
                    pre,
                    seq![first],
                    seq![(Step::Found { usr: to_usr@, id: None })],
                    linked_steps(from_usr@, to_usr@, kind@, ids),
                );
            }
            return (Err(e), Ghost(ids));
        },
    };
    let ghost second = Step::Found { usr: to_usr@, id: to.deep_view() };
    proof {
        lemma_pair(pre, pre, pre, first, second);
    }
    match (from, to) {
        (Some(from_id), Some(to_id)) => {
            let recorded = record_edge_step(
                db,
                Some(from_id.as_str()),
                Some(to_id.as_str()),
                None,
                None,
                kind,
            );
            let ghost ids = FactIds {
                file: Seq::empty(),
                found: Some(from_id@),
                other: Some(to_id@),
                id: recorded.1@,
            };
            let ghost third = edge_step(new_edge(ids.found, ids.other, None, None, kind@, ids.id));
            match recorded.0 {
                Ok(_) => {
                    proof {
                        lemma_step_taken(pre, pre, db.entries(), seq![first, second], third);
                    }
                    (Ok(true), Ghost(ids))
                },
                Err(e) => {
                    proof {
                        lemma_step_failed(
                            pre,
                            pre,
                            db.entries(),
                            seq![first, second],
                            seq![third],
                            linked_steps(from_usr@, to_usr@, kind@, ids),
                        );
                    }
                    (Err(e), Ghost(ids))
                },
            }
        },
        (from, to) => {
            let ghost ids = FactIds { found: from.deep_view(), other: to.deep_view(), ..nothing };
            (Ok(false), Ghost(ids))
        },
    }
}

/// The steps for the first edges, as many as identifiers have come for;
/// `usrs` gives the external identifiers of the two ends of an edge, and
/// `kinds` its kind.
pub open spec fn link_steps(
    ends: Seq<(Seq<char>, Seq<char>, Seq<char>)>,
    ids: Seq<FactIds>,
) -> Seq<Step>
    decreases ids.len(),
{
    if ids.len() == 0 || ids.len() > ends.len() {
        Seq::empty()
    } else {
        let edge = ends[ids.len() - 1];
        link_steps(ends, ids.drop_last()) + linked_steps(edge.1, edge.2, edge.0, ids.last())
    }
}

/// How many of the first edges were recorded.
pub open spec fn links_made(ids: Seq<FactIds>) -> nat
    decreases ids.len(),
{
    if ids.len() == 0 {
        0
    } else {
        links_made(ids.drop_last()) + if is_linked(ids.last()) {
            1nat
        } else {
            0nat
        }
    }
}

/// One more edge: its steps come last.
pub proof fn lemma_link_added(
    ends: Seq<(Seq<char>, Seq<char>, Seq<char>)>,
    ids: Seq<FactIds>,
    next: FactIds,
)
    requires
        ids.len() < ends.len(),
    ensures
        link_steps(ends, ids.push(next)) == link_steps(ends, ids) + linked_steps(
            ends[ids.len() as int].1,
            ends[ids.len() as int].2,
            ends[ids.len() as int].0,
            next,
        ),
        links_made(ids.push(next)) == links_made(ids) + if is_linked(next) {
            1nat
        } else {
            0nat
        },
        links_made(ids) <= ids.len(),
    decreases ids.len(),
{
    assert(ids.push(next).drop_last() =~= ids);
    if ids.len() > 0 {
        lemma_links_bounded(ids);
    }
}

/// No more edges are recorded than there are.
pub proof fn lemma_links_bounded(ids: Seq<FactIds>)
    ensures
        links_made(ids) <= ids.len(),
    decreases ids.len(),
{
    if ids.len() > 0 {
        lemma_links_bounded(ids.drop_last());
    }
}

/// The edges of a translation unit as plain values: kind, source and target.
pub open spec fn ends_view(edges: Seq<(String, String, String)>) -> Seq<
    (Seq<char>, Seq<char>, Seq<char>),
> {
    Seq::new(edges.len(), |i: int| (edges[i].0@, edges[i].1@, edges[i].2@))
}

/// The steps for a symbol of a translation unit: its file is ensured, with
/// the category and purpose given, and the symbol is recorded in it.
pub open spec fn unit_symbol(
    symbol: Symbol,
    category: Seq<char>,
    purpose: Seq<char>,
    ids: FactIds,
) -> Seq<Step> {
    seq![
        plain_file_step(symbol.file@, "c++"@, Some(category), Some(purpose), ids.file),
        symbol_step(
            new_symbol(
                ids.file,
                symbol.usr.deep_view(),
                None,
                symbol.name@,
                symbol.kind@,
                symbol.is_definition,
                ids.id,
            ),
        ),
    ]
}

/// The steps for the first symbols of a translation unit, as many as
/// identifiers have come for.
pub open spec fn unit_symbol_steps(
    symbols: Seq<Symbol>,
    category: Seq<char>,
    purpose: Seq<char>,
    ids: Seq<FactIds>,
) -> Seq<Step>
    decreases ids.len(),
{
    if ids.len() == 0 || ids.len() > symbols.len() {
        Seq::empty()
    } else {
        unit_symbol_steps(symbols, category, purpose, ids.drop_last()) + unit_symbol(
            symbols[ids.len() - 1],
            category,
            purpose,
            ids.last(),
        )
    }
}

/// Whether an occurrence is recorded: it names a symbol, and the store
/// finds that symbol.
pub open spec fn is_located(occurrence: Occurrence, ids: FactIds) -> bool {
    occurrence.usr is Some && ids.found is Some
}

/// The steps for an occurrence of a translation unit: its file is ensured;
/// where the occurrence names a symbol, the store is asked for it; and where
/// the store finds it, the occurrence is recorded.
pub open spec fn unit_occurrence(
    occurrence: Occurrence,
    category: Seq<char>,
    purpose: Seq<char>,
    ids: FactIds,
) -> Seq<Step> {
    let ensured = seq![
        plain_file_step(occurrence.file@, "c++"@, Some(category), Some(purpose), ids.file),
    ];
    match occurrence.usr {
        None => ensured,
        Some(usr) => {
            let asked = ensured.push((Step::Found { usr: usr@, id: ids.found }));
            match ids.found {
                None => asked,
                Some(symbol_id) => asked.push(
                    occurrence_step(
                        new_occurrence(
                            symbol_id,
                            ids.file,
                            occurrence.usage_kind@,
                            occurrence.line,
                            occurrence.column,
                            ids.id,
                        ),
                    ),
                ),
            }
        },
    }
}

/// The steps for the first occurrences of a translation unit, as many as
/// identifiers have come for.
pub open spec fn unit_occurrence_steps(
    occurrences: Seq<Occurrence>,
    category: Seq<char>,
    purpose: Seq<char>,
    ids: Seq<FactIds>,
) -> Seq<Step>
    decreases ids.len(),
{
    if ids.len() == 0 || ids.len() > occurrences.len() {
        Seq::empty()
    } else {
        unit_occurrence_steps(occurrences, category, purpose, ids.drop_last()) + unit_occurrence(
            occurrences[ids.len() - 1],
            category,
            purpose,
            ids.last(),
        )
    }
}

/// How many of the first occurrences were recorded.
pub open spec fn located_count(occurrences: Seq<Occurrence>, ids: Seq<FactIds>) -> nat
    decreases ids.len(),
{
    if ids.len() == 0 || ids.len() > occurrences.len() {
        0
    } else {
        located_count(occurrences, ids.drop_last()) + if is_located(
            occurrences[ids.len() - 1],
            ids.last(),
        ) {
            1nat
        } else {
            0nat
        }
    }
}

/// No more occurrences are recorded than there are.
pub proof fn lemma_located_bounded(occurrences: Seq<Occurrence>, ids: Seq<FactIds>)
    ensures
        located_count(occurrences, ids) <= ids.len(),
    decreases ids.len(),
{
    if ids.len() > 0 && ids.len() <= occurrences.len() {
        lemma_located_bounded(occurrences, ids.drop_last());
    }
}

/// The identifiers that come with a translation unit: for each symbol, for
/// each occurrence and for each edge.
pub struct UnitIds {
    pub symbols: Seq<FactIds>,
    pub occurrences: Seq<FactIds>,
    pub edges: Seq<FactIds>,
}

/// The steps that bring a translation unit into the store, as far as
/// identifiers have come: those for its symbols, then those for its
/// occurrences, then those for its edges.
pub open spec fn unit_steps(
    symbols: Seq<Symbol>,
    occurrences: Seq<Occurrence>,
    edges: Seq<(String, String, String)>,
    category: Seq<char>,
    purpose: Seq<char>,
    ids: UnitIds,
) -> Seq<Step> {
    unit_symbol_steps(symbols, category, purpose, ids.symbols) + unit_occurrence_steps(
        occurrences,
        category,
        purpose,
        ids.occurrences,
    ) + link_steps(ends_view(edges), ids.edges)
}

/// One more symbol of a translation unit: its steps come last.
pub proof fn lemma_unit_symbol_added(
    symbols: Seq<Symbol>,
    category: Seq<char>,
    purpose: Seq<char>,
    ids: Seq<FactIds>,
    next: FactIds,
)
    requires
        ids.len() < symbols.len(),
    ensures
        unit_symbol_steps(symbols, category, purpose, ids.push(next)) == unit_symbol_steps(
            symbols,
            category,
            purpose,
            ids,
        ) + unit_symbol(symbols[ids.len() as int], category, purpose, next),
{
    assert(ids.push(next).drop_last() =~= ids);
}

/// One more occurrence of a translation unit: its steps come last, and it
/// counts where it is recorded.
pub proof fn lemma_unit_occurrence_added(
    occurrences: Seq<Occurrence>,
    category: Seq<char>,
    purpose: Seq<char>,
    ids: Seq<FactIds>,
    next: FactIds,
)
    requires
        ids.len() < occurrences.len(),
    ensures
        unit_occurrence_steps(occurrences, category, purpose, ids.push(next))
            == unit_occurrence_steps(occurrences, category, purpose, ids) + unit_occurrence(
            occurrences[ids.len() as int],
            category,
            purpose,
            next,
        ),
        located_count(occurrences, ids.push(next)) == located_count(occurrences, ids) + if is_located(
            occurrences[ids.len() as int],
            next,
        ) {
            1nat
        } else {
            0nat
        },
        located_count(occurrences, ids) <= ids.len(),
{
    assert(ids.push(next).drop_last() =~= ids);
    lemma_located_bounded(occurrences, ids);
}

/// Brings a symbol of a translation unit into the store.
fn ingest_unit_symbol(db: &mut SymgraphDb, symbol: &Symbol, category: &str, purpose: &str) -> (r: (
    Result<(), StoreError>,
    Ghost<FactIds>,
))
    ensures
        match r.0 {
            Ok(_) => steps_taken(
                old(db).entries(),
                final(db).entries(),
                unit_symbol(*symbol, category@, purpose@, r.1@),
            ),
            Err(e) => !(e is Open) && steps_begun(
                old(db).entries(),
                final(db).entries(),
                unit_symbol(*symbol, category@, purpose@, r.1@),
            ),
        },
{
    let ghost pre = db.entries();
    let ensured = ensure_file_step(db, symbol.file.as_str(), "c++", Some(category), Some(purpose));
    let ghost file = ensured.1@;
    let file_id = match ensured.0 {
        Ok(id) => id,
        Err(e) => {
            let ghost ids = FactIds { file, found: None, other: None, id: Seq::empty() };
            proof {
                lemma_first_failed(pre, db.entries(), unit_symbol(*symbol, category@, purpose@, ids));
            }
            return (Err(e), Ghost(ids));
        },
    };
    let ghost middle = db.entries();
    let recorded = record_symbol_step(
        db,
        file_id.as_str(),
        borrowed(&symbol.usr),
        None,
        symbol.name.as_str(),
        symbol.kind.as_str(),
        symbol.is_definition,
    );
    let ghost ids = FactIds { file, found: None, other: None, id: recorded.1@ };
    proof {
        lemma_pair(
            pre,
            middle,
            db.entries(),
            plain_file_step(symbol.file@, "c++"@, Some(category@), Some(purpose@), file),
            symbol_step(
                new_symbol(
                    file,
                    symbol.usr.deep_view(),
                    None,
                    symbol.name@,
                    symbol.kind@,
                    symbol.is_definition,
                    ids.id,
                ),
            ),
        );
    }
    match recorded.0 {
        Ok(_) => (Ok(()), Ghost(ids)),
        Err(e) => (Err(e), Ghost(ids)),
    }
}

/// Brings an occurrence of a translation unit into the store. The answer
/// tells whether the occurrence was recorded.
fn ingest_unit_occurrence(
    db: &mut SymgraphDb,
    occurrence: &Occurrence,
    category: &str,
    purpose: &str,
) -> (r: (Result<bool, StoreError>, Ghost<FactIds>))
    ensures
        match r.0 {
            Ok(located) => located == is_located(*occurrence, r.1@) && steps_taken(
                old(db).entries(),
                final(db).entries(),
                unit_occurrence(*occurrence, category@, purpose@, r.1@),
            ),
            Err(e) => !(e is Open) && steps_begun(
                old(db).entries(),
                final(db).entries(),
                unit_occurrence(*occurrence, category@, purpose@, r.1@),
            ),
        },
{
    let ghost pre = db.entries();
    let ensured = ensure_file_step(db, occurrence.file.as_str(), "c++", Some(category), Some(purpose));
    let ghost file = ensured.1@;
    let ghost nothing = FactIds { file, found: None, other: None, id: Seq::empty() };
    let ghost first = plain_file_step(occurrence.file@, "c++"@, Some(category@), Some(purpose@), file);
    let file_id = match ensured.0 {
        Ok(id) => id,
        Err(e) => {
            proof {
                lemma_first_failed(
                    pre,
                    db.entries(),
                    unit_occurrence(*occurrence, category@, purpose@, nothing),
                );
            }
            return (Err(e), Ghost(nothing));
        },
    };
    let ghost middle = db.entries();
    proof {
        lemma_one_step(pre, middle, first);
    }
    match &occurrence.usr {
        Some(usr) => {
            let found = match find_symbol_step(db, usr.as_str()) {
                Ok(found) => found,
                Err(e) => {
                    proof {
                        lemma_step_failed(
                            pre,
                            middle,
                            middle,
                            seq![first],
                            seq![(Step::Found { usr: usr@, id: None })],
                            unit_occurrence(*occurrence, category@, purpose@, nothing),
                        );
                    }
                    return (Err(e), Ghost(nothing));
                },
            };
            let ghost second = Step::Found { usr: usr@, id: found.deep_view() };
            proof {
                lemma_step_taken(pre, middle, middle, seq![first], second);
            }
            match found {
                Some(symbol_id) => {
                    let recorded = record_occurrence_step(
                        db,
                        symbol_id.as_str(),
                        file_id.as_str(),
                        occurrence.usage_kind.as_str(),
                        occurrence.line,
                        occurrence.column,
                    );
                    let ghost ids = FactIds {
                        file,
                        found: Some(symbol_id@),
                        other: None,
                        id: recorded.1@,
                    };
                    let ghost third = occurrence_step(
                        new_occurrence(
                            symbol_id@,
                            file,
                            occurrence.usage_kind@,
                            occurrence.line,
                            occurrence.column,
                            ids.id,
                        ),
                    );
                    match recorded.0 {
                        Ok(_) => {
                            proof {
                                lemma_step_taken(
                                    pre,
                                    middle,
                                    db.entries(),
                                    seq![first].push(second),
                                    third,
                                );
                                assert(seq![first].push(second).push(third) =~= unit_occurrence(
                                    *occurrence,
                                    category@,
                                    purpose@,
                                    ids,
                                ));
                            }
                            (Ok(true), Ghost(ids))
                        },
                        Err(e) => {
                            proof {
                                lemma_step_failed(
                                    pre,
                                    middle,
                                    db.entries(),
                                    seq![first].push(second),
                                    seq![third],
                                    unit_occurrence(*occurrence, category@, purpose@, ids),
                                );
                            }
                            (Err(e), Ghost(ids))
                        },
                    }
                },
                None => {
                    proof {
                        assert(seq![first].push(second) =~= unit_occurrence(
                            *occurrence,
                            category@,
                            purpose@,
                            nothing,
                        ));
                    }
                    (Ok(false), Ghost(nothing))
                },
            }
        },
        None => (Ok(false), Ghost(nothing)),
    }
}

/// Brings the symbols of a translation unit into the store.
fn ingest_unit_symbols(
    db: &mut SymgraphDb,
    symbols: &Vec<Symbol>,
    category: &str,
    purpose: &str,
) -> (r: (Result<(), StoreError>, Ghost<Seq<FactIds>>))
    ensures
        match r.0 {
            Ok(_) => r.1@.len() == symbols@.len() && steps_taken(
                old(db).entries(),
                final(db).entries(),
                unit_symbol_steps(symbols@, category@, purpose@, r.1@),
            ),
            Err(e) => !(e is Open) && steps_begun(
                old(db).entries(),
                final(db).entries(),
                unit_symbol_steps(symbols@, category@, purpose@, r.1@),
            ),
        },
{
    let ghost pre = db.entries();
    let ghost mut ids: Seq<FactIds> = Seq::empty();
    let mut i: usize = 0;
    proof {
        lemma_no_step(pre);
    }
    while i < symbols.len()
        invariant
            i <= symbols.len(),
            pre == old(db).entries(),
            ids.len() == i,
            steps_taken(pre, db.entries(), unit_symbol_steps(symbols@, category@, purpose@, ids)),
        decreases symbols.len() - i,
    {
        let ghost before = db.entries();
        let ghost done = unit_symbol_steps(symbols@, category@, purpose@, ids);
        let brought = ingest_unit_symbol(db, &symbols[i], category, purpose);
        let ghost next = brought.1@;
        let ghost run = unit_symbol(symbols@[i as int], category@, purpose@, next);
        proof {
            lemma_unit_symbol_added(symbols@, category@, purpose@, ids, next);
        }
        match brought.0 {
            Ok(_) => {
                proof {
                    lemma_steps_joined(pre, before, db.entries(), done, run);
                    ids = ids.push(next);
                }
            },
            Err(e) => {
                proof {
                    lemma_steps_failed(pre, before, db.entries(), done, run, done + run);
                }
                return (Err(e), Ghost(ids.push(next)));
            },
        }
        i += 1;
    }
    (Ok(()), Ghost(ids))
}

/// Brings the occurrences of a translation unit into the store. The answer
/// is the number of occurrences recorded.
fn ingest_unit_occurrences(
    db: &mut SymgraphDb,
    occurrences: &Vec<Occurrence>,
    category: &str,
    purpose: &str,
) -> (r: (Result<usize, StoreError>, Ghost<Seq<FactIds>>))
    ensures
        match r.0 {
            Ok(n) => {
                &&& r.1@.len() == occurrences@.len()
                &&& n == located_count(occurrences@, r.1@)
                &&& steps_taken(
                    old(db).entries(),
                    final(db).entries(),
                    unit_occurrence_steps(occurrences@, category@, purpose@, r.1@),
                )
            },
            Err(e) => !(e is Open) && steps_begun(
                old(db).entries(),
                final(db).entries(),
                unit_occurrence_steps(occurrences@, category@, purpose@, r.1@),
            ),
        },
{
    let ghost pre = db.entries();
    let ghost mut ids: Seq<FactIds> = Seq::empty();
    let mut recorded: usize = 0;
    let mut i: usize = 0;
    proof {
        lemma_no_step(pre);
    }
    while i < occurrences.len()
        invariant
            i <= occurrences.len(),
            pre == old(db).entries(),
            ids.len() == i,
            recorded == located_count(occurrences@, ids),
            recorded <= i,
            steps_taken(
                pre,
                db.entries(),
                unit_occurrence_steps(occurrences@, category@, purpose@, ids),
            ),
        decreases occurrences.len() - i,
    {
        let ghost before = db.entries();
        let ghost done = unit_occurrence_steps(occurrences@, category@, purpose@, ids);
        let brought = ingest_unit_occurrence(db, &occurrences[i], category, purpose);
        let ghost next = brought.1@;
        let ghost run = unit_occurrence(occurrences@[i as int], category@, purpose@, next);
        proof {
            lemma_unit_occurrence_added(occurrences@, category@, purpose@, ids, next);
        }
        match brought.0 {
            Ok(located) => {
                proof {
                    lemma_steps_joined(pre, before, db.entries(), done, run);
                    ids = ids.push(next);
                }
                if located {
                    recorded += 1;
                }
            },
            Err(e) => {
                proof {
                    lemma_steps_failed(pre, before, db.entries(), done, run, done + run);
                }
                return (Err(e), Ghost(ids.push(next)));
            },
        }
        i += 1;
    }
    (Ok(recorded), Ghost(ids))
}

/// Brings edges between symbols named by their external identifiers into
/// the store, each given as kind, source and target. The answer is the
/// number of edges recorded.
fn ingest_links(db: &mut SymgraphDb, edges: &Vec<(String, String, String)>) -> (r: (
    Result<usize, StoreError>,
    Ghost<Seq<FactIds>>,
))
    ensures
        match r.0 {
            Ok(n) => {
                &&& r.1@.len() == edges@.len()
                &&& n == links_made(r.1@)
                &&& steps_taken(
                    old(db).entries(),
                    final(db).entries(),
                    link_steps(ends_view(edges@), r.1@),
                )
            },
            Err(e) => !(e is Open) && steps_begun(
                old(db).entries(),
                final(db).entries(),
                link_steps(ends_view(edges@), r.1@),
            ),
        },
{
    let ghost pre = db.entries();
    let ghost ends = ends_view(edges@);
    let ghost mut ids: Seq<FactIds> = Seq::empty();
    let mut recorded: usize = 0;
    let mut i: usize = 0;
    proof {
        lemma_no_step(pre);
    }
    while i < edges.len()
        invariant
            i <= edges.len(),
            pre == old(db).entries(),
            ends == ends_view(edges@),
            ids.len() == i,
            recorded == links_made(ids),
            recorded <= i,
            steps_taken(pre, db.entries(), link_steps(ends, ids)),
        decreases edges.len() - i,
    {
        let ghost before = db.entries();
        let ghost done = link_steps(ends, ids);
        let brought = link_if_found(
            db,
            edges[i].1.as_str(),
            edges[i].2.as_str(),
            edges[i].0.as_str(),
        );
        let ghost next = brought.1@;
        let ghost run = linked_steps(ends[i as int].1, ends[i as int].2, ends[i as int].0, next);
        proof {
            lemma_link_added(ends, ids, next);
        }
        match brought.0 {
            Ok(linked) => {
                proof {
                    lemma_steps_joined(pre, before, db.entries(), done, run);
                    ids = ids.push(next);
                }
                if linked {
                    recorded += 1;
                }
            },
            Err(e) => {
                proof {
                    lemma_steps_failed(pre, before, db.entries(), done, run, done + run);
                }
                return (Err(e), Ghost(ids.push(next)));
            },
        }
        i += 1;
    }
    (Ok(recorded), Ghost(ids))
}

/// Brings the facts of one translation unit into the store.
///
/// Every symbol is recorded in its file, which becomes known with the
/// category and purpose given if it was not. Every occurrence makes its file
/// known, and is recorded where the store finds the symbol it names by its
/// external identifier. An edge, given as kind, source and target, is
/// recorded where the store finds both ends. The answer counts what was
/// recorded.
///
/// The first failure ends the work and is handed on; what was written before
/// it stays.
pub fn ingest_translation_unit(
    db: &mut SymgraphDb,
    symbols: &Vec<Symbol>,
    occurrences: &Vec<Occurrence>,
    edges: &Vec<(String, String, String)>,
    category: &str,
    purpose: &str,
) -> (r: Result<Ingested, StoreError>)
    ensures
        keeps_keys(old(db).entries(), final(db).entries()),
        match r {
            Ok(done) => exists|ids: UnitIds|
                {
                    &&& ids.symbols.len() == symbols@.len()
                    &&& ids.occurrences.len() == occurrences@.len()
                    &&& ids.edges.len() == edges@.len()
                    &&& done.symbols == symbols@.len()
                    &&& done.occurrences == located_count(occurrences@, ids.occurrences)
                    &&& done.edges == links_made(ids.edges)
                    &&& steps_taken(
                        old(db).entries(),
                        final(db).entries(),
                        #[trigger] unit_steps(
                            symbols@,
                            occurrences@,
                            edges@,
                            category@,
                            purpose@,
                            ids,
                        ),
                    )
                },
            Err(e) => !(e is Open) && exists|ids: UnitIds|
                steps_begun(
                    old(db).entries(),
                    final(db).entries(),
                    #[trigger] unit_steps(symbols@, occurrences@, edges@, category@, purpose@, ids),
                ),
        },
{
    let ghost pre = db.entries();
    let ghost none = Seq::<FactIds>::empty();
    let first = ingest_unit_symbols(db, symbols, category, purpose);
    let ghost first_steps = unit_symbol_steps(symbols@, category@, purpose@, first.1@);
    match first.0 {
        Ok(_) => {},
        Err(e) => {
            proof {
                let ids = UnitIds { symbols: first.1@, occurrences: none, edges: none };
                lemma_no_step(pre);
                lemma_steps_failed(
                    pre,
                    pre,
                    db.entries(),
                    Seq::empty(),
                    first_steps,
                    unit_steps(symbols@, occurrences@, edges@, category@, purpose@, ids),
                );
            }
            return Err(e);
        },
    }
    let ghost with_symbols = db.entries();
    let second = ingest_unit_occurrences(db, occurrences, category, purpose);
    let ghost second_steps = unit_occurrence_steps(occurrences@, category@, purpose@, second.1@);
    let located = match second.0 {
        Ok(n) => n,
        Err(e) => {
            proof {
                let ids = UnitIds { symbols: first.1@, occurrences: second.1@, edges: none };
                lemma_steps_failed(
                    pre,
                    with_symbols,
                    db.entries(),
                    first_steps,
                    second_steps,
                    unit_steps(symbols@, occurrences@, edges@, category@, purpose@, ids),
                );
            }
            return Err(e);
        },
    };
    let ghost with_occurrences = db.entries();
    proof {
        lemma_steps_joined(pre, with_symbols, with_occurrences, first_steps, second_steps);
    }
    let third = ingest_links(db, edges);
    let ghost third_steps = link_steps(ends_view(edges@), third.1@);
    let ghost ids = UnitIds { symbols: first.1@, occurrences: second.1@, edges: third.1@ };
    let linked = match third.0 {
        Ok(n) => n,
        Err(e) => {
            proof {
                lemma_steps_failed(
                    pre,
                    with_occurrences,
                    db.entries(),
                    first_steps + second_steps,
                    third_steps,
                    unit_steps(symbols@, occurrences@, edges@, category@, purpose@, ids),
                );
            }
            return Err(e);
        },
    };
    proof {
        lemma_steps_joined(
            pre,
            with_occurrences,
            db.entries(),
            first_steps + second_steps,
            third_steps,
        );
        lemma_steps_keep_keys(
            pre,
            db.entries(),
            unit_steps(symbols@, occurrences@, edges@, category@, purpose@, ids),
        );
    }
    Ok(Ingested { symbols: symbols.len(), occurrences: located, edges: linked })
}

/// The steps for an import of a module: the imported module is upserted
/// without a path, and the import is recorded as a `module-import` edge from
/// the module to it.
pub open spec fn imported(module_id: Seq<char>, import: Seq<char>, kind: Seq<char>, ids: FactIds) -> Seq<
    Step,
> {
    seq![
        (Step::Module { name: import, kind, path: Seq::empty(), id: ids.file }),
        edge_step(new_edge(None, None, Some(module_id), Some(ids.file), "module-import"@, ids.id)),
    ]
}

/// The steps for the first imports of a module, as many as identifiers have
/// come for.
pub open spec fn import_steps(
    module_id: Seq<char>,
    imports: Seq<String>,
    kind: Seq<char>,
    ids: Seq<FactIds>,
) -> Seq<Step>
    decreases ids.len(),
{
    if ids.len() == 0 || ids.len() > imports.len() {
        Seq::empty()
    } else {
        import_steps(module_id, imports, kind, ids.drop_last()) + imported(
            module_id,
            imports[ids.len() - 1]@,
            kind,
            ids.last(),
        )
    }
}

/// One more import: its steps come last.
pub proof fn lemma_import_added(
    module_id: Seq<char>,
    imports: Seq<String>,
    kind: Seq<char>,
    ids: Seq<FactIds>,
    next: FactIds,
)
    requires
        ids.len() < imports.len(),
    ensures
        import_steps(module_id, imports, kind, ids.push(next)) == import_steps(
            module_id,
            imports,
            kind,
            ids,
        ) + imported(module_id, imports[ids.len() as int]@, kind, next),
{
    assert(ids.push(next).drop_last() =~= ids);
}

/// Brings an import of a module into the store.
fn ingest_import(db: &mut SymgraphDb, module_id: &str, import: &str, kind: &str) -> (r: (
    Result<(), StoreError>,
    Ghost<FactIds>,
))
    ensures
        match r.0 {
            Ok(_) => steps_taken(
                old(db).entries(),
                final(db).entries(),
                imported(module_id@, import@, kind@, r.1@),
            ),
            Err(e) => !(e is Open) && steps_begun(
                old(db).entries(),
                final(db).entries(),
                imported(module_id@, import@, kind@, r.1@),
            ),
        },
{
    let ghost pre = db.entries();
    proof {
        reveal_strlit("");
    }
    let upserted = upsert_module_step(db, import, kind, "");
    let ghost target = upserted.1@;
    let to = match upserted.0 {
        Ok(id) => id,
        Err(e) => {
            let ghost ids = FactIds { file: target, found: None, other: None, id: Seq::empty() };
            proof {
                assert(""@ =~= Seq::<char>::empty());
                lemma_first_failed(pre, db.entries(), imported(module_id@, import@, kind@, ids));
            }
            return (Err(e), Ghost(ids));
        },
    };
    let ghost middle = db.entries();
    let recorded = record_edge_step(
        db,
        None,
        None,
        Some(module_id),
        Some(to.as_str()),
        "module-import",
    );
    let ghost ids = FactIds { file: target, found: None, other: None, id: recorded.1@ };
    proof {
        assert(""@ =~= Seq::<char>::empty());
        lemma_pair(
            pre,
            middle,
            db.entries(),
            (Step::Module { name: import@, kind: kind@, path: Seq::empty(), id: target }),
            edge_step(new_edge(None, None, Some(module_id@), Some(target), "module-import"@, ids.id)),
        );
    }
    match recorded.0 {
        Ok(_) => (Ok(()), Ghost(ids)),
        Err(e) => (Err(e), Ghost(ids)),
    }
}

/// Brings the imports of a module into the store.
fn ingest_imports(db: &mut SymgraphDb, module_id: &str, imports: &Vec<String>, kind: &str) -> (r: (
    Result<(), StoreError>,
    Ghost<Seq<FactIds>>,
))
    ensures
        match r.0 {
            Ok(_) => r.1@.len() == imports@.len() && steps_taken(
                old(db).entries(),
                final(db).entries(),
                import_steps(module_id@, imports@, kind@, r.1@),
            ),
            Err(e) => !(e is Open) && steps_begun(
                old(db).entries(),
                final(db).entries(),
                import_steps(module_id@, imports@, kind@, r.1@),
            ),
        },
{
    let ghost pre = db.entries();
    let ghost mut ids: Seq<FactIds> = Seq::empty();
    let mut i: usize = 0;
    proof {
        lemma_no_step(pre);
    }
    while i < imports.len()
        invariant
            i <= imports.len(),
            pre == old(db).entries(),
            ids.len() == i,
            steps_taken(pre, db.entries(), import_steps(module_id@, imports@, kind@, ids)),
        decreases imports.len() - i,
    {
        let ghost before = db.entries();
        let ghost done = import_steps(module_id@, imports@, kind@, ids);
        let brought = ingest_import(db, module_id, imports[i].as_str(), kind);
        let ghost next = brought.1@;
        let ghost run = imported(module_id@, imports@[i as int]@, kind@, next);
        proof {
            lemma_import_added(module_id@, imports@, kind@, ids, next);
        }
        match brought.0 {
            Ok(_) => {
                proof {
                    lemma_steps_joined(pre, before, db.entries(), done, run);
                    ids = ids.push(next);
                }
            },
            Err(e) => {
                proof {
                    lemma_steps_failed(pre, before, db.entries(), done, run, done + run);
                }
                return (Err(e), Ghost(ids.push(next)));
            },
        }
        i += 1;
    }
    (Ok(()), Ghost(ids))
}

/// The steps that bring a C++20 module into the store, as far as
/// identifiers have come: the module is upserted with its path, then come
/// the steps for its imports.
pub open spec fn module_steps(
    module: ModuleInfo,
    path: Seq<char>,
    module_id: Seq<char>,
    ids: Seq<FactIds>,
) -> Seq<Step> {
    seq![(Step::Module { name: module.name@, kind: "cpp20-module"@, path, id: module_id })]
        + import_steps(module_id, module.imports@, "cpp20-module"@, ids)
}

/// Brings a C++20 module and its imports into the store: the module becomes
/// known with the path given, each module it imports becomes known without a
/// path if it was not known, and each import becomes a `module-import` edge
/// from the module to the imported one. The answer is the module's
/// identifier.
///
/// The first failure ends the work and is handed on; what was written before
/// it stays.
pub fn ingest_module(db: &mut SymgraphDb, module: &ModuleInfo, path: &str) -> (r: Result<
    String,
    StoreError,
>)
    ensures
        keeps_keys(old(db).entries(), final(db).entries()),
        match r {
            Ok(module_id) => exists|ids: Seq<FactIds>|
                ids.len() == module.imports@.len() && steps_taken(
                    old(db).entries(),
                    final(db).entries(),
                    #[trigger] module_steps(*module, path@, module_id@, ids),
                ),
            Err(e) => !(e is Open) && exists|module_id: Seq<char>, ids: Seq<FactIds>|
                steps_begun(
                    old(db).entries(),
                    final(db).entries(),
                    #[trigger] module_steps(*module, path@, module_id, ids),
                ),
        },
{
    let ghost pre = db.entries();
    let upserted = upsert_module_step(db, module.name.as_str(), "cpp20-module", path);
    let ghost answered = upserted.1@;
    let ghost head = seq![
        (Step::Module { name: module.name@, kind: "cpp20-module"@, path: path@, id: answered }),
    ];
    let module_id = match upserted.0 {
        Ok(id) => id,
        Err(e) => {
            proof {
                lemma_first_failed(pre, db.entries(), head);
                lemma_step_keeps_keys(pre, db.entries(), head[0]);
                assert(module_steps(*module, path@, answered, Seq::empty()) =~= head);
            }
            return Err(e);
        },
    };
    let ghost with_module = db.entries();
    proof {
        lemma_one_step(pre, with_module, head[0]);
    }
    let imports = ingest_imports(db, module_id.as_str(), &module.imports, "cpp20-module");
    let ghost run = import_steps(module_id@, module.imports@, "cpp20-module"@, imports.1@);
    match imports.0 {
        Ok(_) => {
            proof {
                lemma_steps_joined(pre, with_module, db.entries(), head, run);
                lemma_steps_keep_keys(pre, db.entries(), head + run);
                assert(module_steps(*module, path@, module_id@, imports.1@) =~= head + run);
            }
            Ok(module_id)
        },
        Err(e) => {
            proof {
                lemma_steps_failed(
                    pre,
                    with_module,
                    db.entries(),
                    head,
                    run,
                    module_steps(*module, path@, module_id@, imports.1@),
                );
            }
            Err(e)
        },
    }
}

/// The external identifier of a symbol of a module.
pub open spec fn module_symbol_usr(module: Seq<char>, symbol: Seq<char>) -> Seq<char> {
    "module:"@ + module + ":"@ + symbol
}

/// The external identifier of a symbol of a module.
pub fn module_symbol_usr_text(module: &str, symbol: &str) -> (r: String)
    ensures
        r@ == module_symbol_usr(module@, symbol@),
{
    let mut usr = concat2("module:", module);
    usr.append(":");
    usr.append(symbol);
    usr
}

/// How much of the analysis of a module was brought into the store.
#[derive(Debug, Clone, Copy, PartialEq, Eq, Structural)]
pub struct IngestedModule {
    /// The symbols recorded.
    pub symbols: usize,
    /// The imports recorded.
    pub imports: usize,
    /// The relations between symbols recorded.
    pub relations: usize,
}

/// The step for a symbol of an analysed module: it is recorded in the
/// module's file, under an external identifier made of the module's name
/// and its own, as a definition where it is exported.
pub open spec fn analysed_symbol(
    file_id: Seq<char>,
    module: Seq<char>,
    symbol: crate::models::Symbol,
    id: Seq<char>,
) -> Step {
    symbol_step(
        new_symbol(
            file_id,
            Some(module_symbol_usr(module, symbol.name@)),
            None,
            symbol.name@,
            symbol.kind@,
            symbol.is_exported,
            id,
        ),
    )
}

/// The steps for the first symbols of an analysed module, as many as
/// identifiers have come for.
pub open spec fn analysed_symbol_steps(
    file_id: Seq<char>,
    module: Seq<char>,
    symbols: Seq<crate::models::Symbol>,
    ids: Seq<Seq<char>>,
) -> Seq<Step>
    decreases ids.len(),
{
    if ids.len() == 0 || ids.len() > symbols.len() {
        Seq::empty()
    } else {
        analysed_symbol_steps(file_id, module, symbols, ids.drop_last()).push(
            analysed_symbol(file_id, module, symbols[ids.len() - 1], ids.last()),
        )
    }
}

/// The relations of an analysed module as edges between external
/// identifiers: kind, source and target.
pub open spec fn relation_ends(module: Seq<char>, relations: Seq<crate::models::Relation>) -> Seq<
    (Seq<char>, Seq<char>, Seq<char>),
> {
    Seq::new(
        relations.len(),
        |i: int|
            (
                relations[i].kind@,
                module_symbol_usr(module, relations[i].from_name@),
                module_symbol_usr(module, relations[i].to_name@),
            ),
    )
}

/// The identifiers that come with the analysis of a module: those that the
/// store answered for the module and for its file, and those for each
/// import, each symbol and each relation.
pub struct AnalysisIds {
    pub module: Seq<char>,
    pub file: Seq<char>,
    pub imports: Seq<FactIds>,
    pub symbols: Seq<Seq<char>>,
    pub relations: Seq<FactIds>,
}

/// The steps that bring the analysis of a module into the store, as far as
/// identifiers have come: the module is upserted with its path, its file is
/// ensured, and then come the steps for its imports, for its symbols and for
/// its relations.
pub open spec fn analysis_steps(
    analysis: ModuleAnalysis,
    module_kind: Seq<char>,
    language: Seq<char>,
    ids: AnalysisIds,
) -> Seq<Step> {
    seq![
        (Step::Module {
            name: analysis.info.name@,
            kind: module_kind,
            path: analysis.info.path@,
            id: ids.module,
        }),
        plain_file_step(analysis.info.path@, language, None, None, ids.file),
    ] + import_steps(ids.module, analysis.info.imports@, module_kind, ids.imports)
        + analysed_symbol_steps(ids.file, analysis.info.name@, analysis.symbols@, ids.symbols)
        + link_steps(relation_ends(analysis.info.name@, analysis.relations@), ids.relations)
}

/// Brings the symbols of an analysed module into the store.
fn ingest_analysed_symbols(
    db: &mut SymgraphDb,
    file_id: &str,
    module: &str,
    symbols: &Vec<crate::models::Symbol>,
) -> (r: (Result<(), StoreError>, Ghost<Seq<Seq<char>>>))
    ensures
        match r.0 {
            Ok(_) => r.1@.len() == symbols@.len() && steps_taken(
                old(db).entries(),
                final(db).entries(),
                analysed_symbol_steps(file_id@, module@, symbols@, r.1@),
            ),
            Err(e) => !(e is Open) && steps_begun(
                old(db).entries(),
                final(db).entries(),
                analysed_symbol_steps(file_id@, module@, symbols@, r.1@),
            ),
        },
{
    let ghost pre = db.entries();
    let ghost mut ids: Seq<Seq<char>> = Seq::empty();
    let mut i: usize = 0;
    proof {
        lemma_no_step(pre);
    }
    while i < symbols.len()
        invariant
            i <= symbols.len(),
            pre == old(db).entries(),
            ids.len() == i,
            steps_taken(pre, db.entries(), analysed_symbol_steps(file_id@, module@, symbols@, ids)),
        decreases symbols.len() - i,
    {
        let ghost before = db.entries();
        let ghost done = analysed_symbol_steps(file_id@, module@, symbols@, ids);
        let symbol = &symbols[i];
        let usr = module_symbol_usr_text(module, symbol.name.as_str());
        let recorded = record_symbol_step(
            db,
            file_id,
            Some(usr.as_str()),
            None,
            symbol.name.as_str(),
            symbol.kind.as_str(),
            symbol.is_exported,
        );
        let ghost next = recorded.1@;
        let ghost step = analysed_symbol(file_id@, module@, *symbol, next);
        proof {
            assert(ids.push(next).drop_last() =~= ids);
            assert(analysed_symbol_steps(file_id@, module@, symbols@, ids.push(next)) == done.push(
                step,
            ));
        }
        match recorded.0 {
            Ok(_) => {
                proof {
                    lemma_step_taken(pre, before, db.entries(), done, step);
                    ids = ids.push(next);
                }
            },
            Err(e) => {
                proof {
                    lemma_step_failed(
                        pre,
                        before,
                        db.entries(),
                        done,
                        seq![step],
                        done.push(step),
                    );
                }
                return (Err(e), Ghost(ids.push(next)));
            },
        }
        i += 1;
    }
    (Ok(()), Ghost(ids))
}

/// Brings the relations of an analysed module into the store, as edges
/// between the symbols that the store finds. The answer is the number of
/// edges recorded.
fn ingest_relations(db: &mut SymgraphDb, module: &str, relations: &Vec<crate::models::Relation>) -> (r: (
    Result<usize, StoreError>,
    Ghost<Seq<FactIds>>,
))
    ensures
        match r.0 {
            Ok(n) => {
                &&& r.1@.len() == relations@.len()
                &&& n == links_made(r.1@)
                &&& steps_taken(
                    old(db).entries(),
                    final(db).entries(),
                    link_steps(relation_ends(module@, relations@), r.1@),
                )
            },
            Err(e) => !(e is Open) && steps_begun(
                old(db).entries(),
                final(db).entries(),
                link_steps(relation_ends(module@, relations@), r.1@),
            ),
        },
{
    let ghost pre = db.entries();
    let ghost ends = relation_ends(module@, relations@);
    let ghost mut ids: Seq<FactIds> = Seq::empty();
    let mut recorded: usize = 0;
    let mut i: usize = 0;
    proof {
        lemma_no_step(pre);
    }
    while i < relations.len()
        invariant
            i <= relations.len(),
            pre == old(db).entries(),
            ends == relation_ends(module@, relations@),
            ids.len() == i,
            recorded == links_made(ids),
            recorded <= i,
            steps_taken(pre, db.entries(), link_steps(ends, ids)),
        decreases relations.len() - i,
    {
        let ghost before = db.entries();
        let ghost done = link_steps(ends, ids);
        let relation = &relations[i];
        let from_usr = module_symbol_usr_text(module, relation.from_name.as_str());
        let to_usr = module_symbol_usr_text(module, relation.to_name.as_str());
        let brought = link_if_found(db, from_usr.as_str(), to_usr.as_str(), relation.kind.as_str());
        let ghost next = brought.1@;
        let ghost run = linked_steps(ends[i as int].1, ends[i as int].2, ends[i as int].0, next);
        proof {
            lemma_link_added(ends, ids, next);
        }
        match brought.0 {
            Ok(linked) => {
                proof {
                    lemma_steps_joined(pre, before, db.entries(), done, run);
                    ids = ids.push(next);
                }
                if linked {
                    recorded += 1;
                }
            },
            Err(e) => {
                proof {
                    lemma_steps_failed(pre, before, db.entries(), done, run, done + run);
                }
                return (Err(e), Ghost(ids.push(next)));
            },
        }
        i += 1;
    }
    (Ok(recorded), Ghost(ids))
}

/// Brings the analysis of a module into the store: the module of the kind
/// given with its file and its imports, every symbol under an external
/// identifier made of the module's name and its own, and every relation
/// whose two symbols the store finds, as an edge of the relation's kind.
/// The answer counts what was recorded.
///
/// The first failure ends the work and is handed on; what was written before
/// it stays.
pub fn ingest_module_analysis(
    db: &mut SymgraphDb,
    analysis: &ModuleAnalysis,
    module_kind: &str,
    language: &str,
) -> (r: Result<IngestedModule, StoreError>)
    ensures
        keeps_keys(old(db).entries(), final(db).entries()),
        match r {
            Ok(done) => exists|ids: AnalysisIds|
                {
                    &&& ids.imports.len() == analysis.info.imports@.len()
                    &&& ids.symbols.len() == analysis.symbols@.len()
                    &&& ids.relations.len() == analysis.relations@.len()
                    &&& done.symbols == analysis.symbols@.len()
                    &&& done.imports == analysis.info.imports@.len()
                    &&& done.relations == links_made(ids.relations)
                    &&& steps_taken(
                        old(db).entries(),
                        final(db).entries(),
                        #[trigger] analysis_steps(*analysis, module_kind@, language@, ids),
                    )
                },
            Err(e) => !(e is Open) && exists|ids: AnalysisIds|
                steps_begun(
                    old(db).entries(),
                    final(db).entries(),
                    #[trigger] analysis_steps(*analysis, module_kind@, language@, ids),
                ),
        },
{
    let ghost pre = db.entries();
    let ghost no_facts = Seq::<FactIds>::empty();
    let ghost no_ids = Seq::<Seq<char>>::empty();
    let name = analysis.info.name.as_str();
    let upserted = upsert_module_step(db, name, module_kind, analysis.info.path.as_str());
    let ghost module = upserted.1@;
    let ghost first = Step::Module {
        name: analysis.info.name@,
        kind: module_kind@,
        path: analysis.info.path@,
        id: module,
    };
    let module_id = match upserted.0 {
        Ok(id) => id,
        Err(e) => {
            proof {
                let ids = AnalysisIds {
                    module,
                    file: Seq::empty(),
                    imports: no_facts,
                    symbols: no_ids,
                    relations: no_facts,
                };
                let steps = analysis_steps(*analysis, module_kind@, language@, ids);
                assert(steps =~= seq![
                    first,
                    plain_file_step(analysis.info.path@, language@, None, None, ids.file),
                ]);
                lemma_first_failed(pre, db.entries(), steps);
                lemma_step_keeps_keys(pre, db.entries(), first);
            }
            return Err(e);
        },
    };
    let ghost with_module = db.entries();
    let ensured = ensure_file_step(db, analysis.info.path.as_str(), language, None, None);
    let ghost file = ensured.1@;
    let ghost second = plain_file_step(analysis.info.path@, language@, None, None, file);
    let ghost head = seq![first, second];
    proof {
        lemma_pair(pre, with_module, db.entries(), first, second);
    }
    let file_id = match ensured.0 {
        Ok(id) => id,
        Err(e) => {
            proof {
                let ids = AnalysisIds {
                    module,
                    file,
                    imports: no_facts,
                    symbols: no_ids,
                    relations: no_facts,
                };
                assert(analysis_steps(*analysis, module_kind@, language@, ids) =~= head);
                lemma_one_step(pre, with_module, first);
                lemma_step_failed(pre, with_module, db.entries(), seq![first], seq![second], head);
            }
            return Err(e);
        },
    };
    let ghost with_file = db.entries();
    let imports = ingest_imports(db, module_id.as_str(), &analysis.info.imports, module_kind);
    let ghost import_run = import_steps(module, analysis.info.imports@, module_kind@, imports.1@);
    match imports.0 {
        Ok(_) => {},
        Err(e) => {
            proof {
                let ids = AnalysisIds {
                    module,
                    file,
                    imports: imports.1@,
                    symbols: no_ids,
                    relations: no_facts,
                };
                lemma_steps_failed(
                    pre,
                    with_file,
                    db.entries(),
                    head,
                    import_run,
                    analysis_steps(*analysis, module_kind@, language@, ids),
                );
            }
            return Err(e);
        },
    }
    let ghost with_imports = db.entries();
    proof {
        lemma_steps_joined(pre, with_file, with_imports, head, import_run);
    }
    let symbols = ingest_analysed_symbols(db, file_id.as_str(), name, &analysis.symbols);
    let ghost symbol_run = analysed_symbol_steps(
        file,
        analysis.info.name@,
        analysis.symbols@,
        symbols.1@,
    );
    match symbols.0 {
        Ok(_) => {},
        Err(e) => {
            proof {
                let ids = AnalysisIds {
                    module,
                    file,
                    imports: imports.1@,
                    symbols: symbols.1@,
                    relations: no_facts,
                };
                lemma_steps_failed(
                    pre,
                    with_imports,
                    db.entries(),
                    head + import_run,
                    symbol_run,
                    analysis_steps(*analysis, module_kind@, language@, ids),
                );
            }
            return Err(e);
        },
    }
    let ghost with_symbols = db.entries();
    proof {
        lemma_steps_joined(pre, with_imports, with_symbols, head + import_run, symbol_run);
    }
    let relations = ingest_relations(db, name, &analysis.relations);
    let ghost relation_run = link_steps(
        relation_ends(analysis.info.name@, analysis.relations@),
        relations.1@,
    );
    let ghost ids = AnalysisIds {
        module,
        file,
        imports: imports.1@,
        symbols: symbols.1@,
        relations: relations.1@,
    };
    let linked = match relations.0 {
        Ok(n) => n,
        Err(e) => {
            proof {
                lemma_steps_failed(
                    pre,
                    with_symbols,
                    db.entries(),
                    head + import_run + symbol_run,
                    relation_run,
                    analysis_steps(*analysis, module_kind@, language@, ids),
                );
            }
            return Err(e);
        },
    };
    proof {
        lemma_steps_joined(
            pre,
            with_symbols,
            db.entries(),
            head + import_run + symbol_run,
            relation_run,
        );
        lemma_steps_keep_keys(
            pre,
            db.entries(),
            analysis_steps(*analysis, module_kind@, language@, ids),
        );
    }
    Ok(
        IngestedModule {
            symbols: analysis.symbols.len(),
            imports: analysis.info.imports.len(),
            relations: linked,
        },
    )
}

/// The files of a store as the notes on a project take them: for each entry
/// of the file namespace that reads as a file record its path, its
/// category, or `unknown` where it has none, and its purpose, or the empty
/// text.
pub open spec fn noted_file(text: Seq<u8>) -> Option<(Seq<char>, Seq<char>, Seq<char>)> {
    match crate::database::file_of_text(text) {
        Some(file) => Some(
            (
                file.path,
                match file.category {
                    Some(category) => category,
                    None => "unknown"@,
                },
                crate::database::text_or_empty(file.purpose),
            ),
        ),
        None => None,
    }
}

/// The values of a list of files.
pub open spec fn noted_view(files: Seq<(String, String, String)>) -> Seq<
    (Seq<char>, Seq<char>, Seq<char>),
> {
    Seq::new(files.len(), |i: int| (files[i].0@, files[i].1@, files[i].2@))
}

/// The files of a store as the notes on a project take them.
pub fn annotation_files(db: &SymgraphDb) -> (r: Result<Vec<(String, String, String)>, StoreError>)
    ensures
        match r {
            Ok(files) => crate::database::is_listing(
                db.entries(),
                "file:"@,
                |text: Seq<u8>| noted_file(text),
                noted_view(files@),
            ),
            Err(e) => e is Storage,
        },
{
    let items = db.scan("file:")?;
    let ghost scan = crate::kv::pairs_view(items@);
    let ghost read = |text: Seq<u8>| noted_file(text);
    let mut files: Vec<(String, String, String)> = Vec::new();
    let mut i: usize = 0;
    proof {
        assert(scan.take(0) =~= Seq::empty());
        assert(noted_view(files@) =~= crate::database::collect(scan.take(0), read));
    }
    while i < items.len()
        invariant
            i <= items.len(),
            scan == crate::kv::pairs_view(items@),
            read == |text: Seq<u8>| noted_file(text),
            noted_view(files@) == crate::database::collect(scan.take(i as int), read),
        decreases items.len() - i,
    {
        let ghost before = noted_view(files@);
        proof {
            crate::database::lemma_collect_step(scan, i as int, read);
        }
        match crate::json::decode(items[i].1.as_slice()) {
            Ok(v) => match crate::records::File::from_json(&v) {
                Some(file) => {
                    let category = match file.category {
                        Some(category) => category,
                        None => String::from_str("unknown"),
                    };
                    let purpose = match file.purpose {
                        Some(purpose) => purpose,
                        None => String::new(),
                    };
                    let noted = (file.path, category, purpose);
                    files.push(noted);
                    assert(noted_view(files@) =~= before.push((noted.0@, noted.1@, noted.2@)));
                },
                None => {},
            },
            Err(_) => {},
        }
        i += 1;
    }
    proof {
        assert(scan.take(i as int) =~= scan);
    }
    Ok(files)
}

} // verus!
