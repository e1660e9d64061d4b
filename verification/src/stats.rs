//! A summary of what a store holds: how many entries each namespace has, and
//! which kinds of symbol are the most frequent.

use vstd::prelude::*;
use vstd::string::*;
use crate::database::{is_count, symbol_of_text, StoreError, SymgraphDb};
use crate::json::decode;
use crate::kv::{is_prefix_scan, pairs_view};
use crate::records::Symbol;
use crate::text::str_eq;

verus! {

/// A kind of symbol with the number of symbols of that kind.
pub type Tally = Seq<(Seq<char>, nat)>;

/// What a store holds, in numbers.
#[derive(Debug)]
pub struct StoreSummary {
    /// The entries of the file namespace.
    pub files: usize,
    /// The entries of the symbol namespace.
    pub symbols: usize,
    /// The entries of the occurrence namespace.
    pub occurrences: usize,
    /// The entries of the edge namespace.
    pub edges: usize,
    /// The entries of the module namespace.
    pub modules: usize,
    /// The ten most frequent kinds of symbol, the most frequent first, each
    /// with the number of symbols of that kind.
    pub symbol_kinds: Vec<(String, usize)>,
}

/// A tally with one more symbol of the kind given: the kind's count grows by
/// one, and a kind that the tally did not have comes last with a count of
/// one.
pub open spec fn bumped(tally: Tally, kind: Seq<char>) -> Tally
    decreases tally.len(),
{
    if tally.len() == 0 {
        seq![(kind, 1nat)]
    } else if tally[0].0 == kind {
        seq![(kind, tally[0].1 + 1)] + tally.drop_first()
    } else {
        seq![tally[0]] + bumped(tally.drop_first(), kind)
    }
}

/// The kinds of the symbols given with how often each occurs, in the order
/// in which the kinds are first met.
pub open spec fn tally_of(kinds: Seq<Seq<char>>) -> Tally
    decreases kinds.len(),
{
    if kinds.len() == 0 {
        Seq::empty()
    } else {
        bumped(tally_of(kinds.drop_last()), kinds.last())
    }
}

/// Where an item with the count given goes in a ranking: behind every item
/// that is at least as frequent.
pub open spec fn rank_of(ranking: Tally, count: nat) -> int
    decreases ranking.len(),
{
    if ranking.len() == 0 {
        0
    } else if ranking[0].1 >= count {
        1 + rank_of(ranking.drop_first(), count)
    } else {
        0
    }
}

/// A tally put in order, the most frequent kind first; of kinds that are
/// equally frequent, the one that the tally has first stays first.
pub open spec fn ranked(tally: Tally) -> Tally
    decreases tally.len(),
{
    if tally.len() == 0 {
        Seq::empty()
    } else {
        let rest = ranked(tally.drop_last());
        rest.insert(rank_of(rest, tally.last().1), tally.last())
    }
}

/// The kind of the symbol record that a stored text holds.
pub open spec fn kind_of_text(text: Seq<u8>) -> Option<Seq<char>> {
    match symbol_of_text(text) {
        Some(symbol) => Some(symbol.kind),
        None => None,
    }
}

/// The ten most frequent kinds among the symbol records of a scan.
pub open spec fn top_kinds(scan: Seq<(Seq<u8>, Seq<u8>)>) -> Tally {
    let all = ranked(tally_of(crate::database::collect(scan, |text: Seq<u8>| kind_of_text(text))));
    if all.len() > 10 {
        all.take(10)
    } else {
        all
    }
}

/// The kinds and counts of a tally as plain values.
pub open spec fn tally_view(tally: Seq<(String, usize)>) -> Tally {
    Seq::new(tally.len(), |i: int| (tally[i].0@, tally[i].1 as nat))
}

/// The greatest count of a tally is at most `bound`.
pub open spec fn counts_within(tally: Tally, bound: nat) -> bool {
    forall|i: int| 0 <= i < tally.len() ==> (#[trigger] tally[i]).1 <= bound
}

/// A tally of symbols has no count above the number of symbols.
pub proof fn lemma_bumped_within(tally: Tally, kind: Seq<char>, bound: nat)
    requires
        counts_within(tally, bound),
    ensures
        counts_within(bumped(tally, kind), bound + 1),
        bumped(tally, kind).len() <= tally.len() + 1,
    decreases tally.len(),
{
    if tally.len() > 0 && tally[0].0 != kind {
        let rest = tally.drop_first();
        assert forall|i: int| 0 <= i < rest.len() implies (#[trigger] rest[i]).1 <= bound by {
            assert(rest[i] == tally[i + 1]);
        }
        lemma_bumped_within(rest, kind, bound);
        let after = bumped(tally, kind);
        assert forall|i: int| 0 <= i < after.len() implies (#[trigger] after[i]).1 <= bound + 1 by {
            if i > 0 {
                assert(after[i] == bumped(rest, kind)[i - 1]);
            }
        }
    } else if tally.len() > 0 {
        let rest = tally.drop_first();
        let after = bumped(tally, kind);
        assert forall|i: int| 0 <= i < after.len() implies (#[trigger] after[i]).1 <= bound + 1 by {
            if i > 0 {
                assert(after[i] == rest[i - 1]);
                assert(rest[i - 1] == tally[i]);
            }
        }
    }
}

/// Counts one more symbol of a kind in a tally.
pub fn bump(tally: &mut Vec<(String, usize)>, kind: String)
    requires
        counts_within(tally_view(old(tally)@), (usize::MAX - 1) as nat),
    ensures
        tally_view(final(tally)@) == bumped(tally_view(old(tally)@), kind@),
{
    let ghost before = tally_view(tally@);
    let mut i: usize = 0;
    proof {
        assert(before.skip(0) =~= before);
        assert(before.take(0) + bumped(before.skip(0), kind@) =~= bumped(before, kind@));
    }
    while i < tally.len()
        invariant
            i <= tally.len(),
            tally_view(tally@) == before,
            before == tally_view(old(tally)@),
            counts_within(before, (usize::MAX - 1) as nat),
            before.take(i as int) + bumped(before.skip(i as int), kind@) == bumped(before, kind@),
        decreases tally.len() - i,
    {
        let ghost rest = before.skip(i as int);
        proof {
            assert(rest[0] == before[i as int]);
            assert(rest.drop_first() =~= before.skip(i as int + 1));
            assert(before[i as int] == (tally@[i as int].0@, tally@[i as int].1 as nat));
        }
        if str_eq(tally[i].0.as_str(), kind.as_str()) {
            let count = tally[i].1;
            tally.set(i, (kind, count + 1));
            proof {
                assert(tally_view(tally@) =~= before.take(i as int) + (seq![
                    (kind@, (count + 1) as nat),
                ] + rest.drop_first()));
                assert(bumped(rest, kind@) == seq![(kind@, rest[0].1 + 1)] + rest.drop_first());
            }
            return ;
        }
        proof {
            assert(before.take(i as int + 1) + bumped(before.skip(i as int + 1), kind@)
                =~= before.take(i as int) + (seq![rest[0]] + bumped(rest.drop_first(), kind@)));
        }
        i += 1;
    }
    proof {
        assert(before.skip(i as int) =~= Seq::empty());
        assert(before.take(i as int) =~= before);
    }
    tally.push((kind, 1));
    proof {
        assert(tally_view(tally@) =~= before + seq![(kind@, 1nat)]);
    }
}

/// Puts a tally in order, the most frequent kind first.
pub fn rank(tally: Vec<(String, usize)>) -> (r: Vec<(String, usize)>)
    ensures
        tally_view(r@) == ranked(tally_view(tally@)),
{
    let ghost all = tally_view(tally@);
    let mut tally = tally;
    let mut out: Vec<(String, usize)> = Vec::new();
    let ghost mut done: int = 0;
    proof {
        assert(all.take(0) =~= Seq::empty());
        assert(tally_view(out@) =~= Seq::empty());
    }
    let mut input: Vec<(String, usize)> = Vec::new();
    // The items are taken from the back, so the list is turned round first.
    while tally.len() > 0
        invariant
            tally_view(tally@) + tally_view(input@).reverse() == all,
        decreases tally.len(),
    {
        let ghost before_tally = tally_view(tally@);
        let ghost before_input = tally_view(input@);
        let item = tally.pop().unwrap();
        input.push(item);
        proof {
            assert(tally_view(tally@) =~= before_tally.drop_last());
            assert(tally_view(input@) =~= before_input.push(before_tally.last()));
            assert(tally_view(tally@) + tally_view(input@).reverse() =~= before_tally
                + before_input.reverse());
        }
    }
    proof {
        assert(tally_view(tally@) =~= Seq::empty());
        assert(tally_view(input@).reverse() =~= all);
    }
    while input.len() > 0
        invariant
            0 <= done <= all.len(),
            input.len() == all.len() - done,
            tally_view(input@).reverse() == all.skip(done),
            tally_view(out@) == ranked(all.take(done)),
        decreases input.len(),
    {
        let ghost before_input = tally_view(input@);
        let ghost ranking = tally_view(out@);
        let item = input.pop().unwrap();
        proof {
            assert(tally_view(input@) =~= before_input.drop_last());
            assert(before_input.reverse()[0] == before_input.last());
            assert(all.skip(done)[0] == all[done]);
            assert((item.0@, item.1 as nat) == all[done]);
            assert(tally_view(input@).reverse() =~= all.skip(done + 1)) by {
                assert(before_input.drop_last().reverse() =~= before_input.reverse().drop_first());
                assert(all.skip(done).drop_first() =~= all.skip(done + 1));
            }
            assert(all.take(done + 1).drop_last() =~= all.take(done));
            assert(all.take(done + 1).last() == all[done]);
        }
        let mut at: usize = 0;
        proof {
            assert(ranking.skip(0) =~= ranking);
        }
        while at < out.len() && out[at].1 >= item.1
            invariant
                at <= out.len(),
                tally_view(out@) == ranking,
                rank_of(ranking, item.1 as nat) == at + rank_of(
                    ranking.skip(at as int),
                    item.1 as nat,
                ),
            decreases out.len() - at,
        {
            proof {
                assert(ranking.skip(at as int)[0] == ranking[at as int]);
                assert(ranking.skip(at as int).drop_first() =~= ranking.skip(at as int + 1));
            }
            at += 1;
        }
        proof {
            if at < out.len() {
                assert(ranking.skip(at as int)[0] == ranking[at as int]);
            }
            assert(rank_of(ranking, item.1 as nat) == at);
        }
        let ghost shown = (item.0@, item.1 as nat);
        out.insert(at, item);
        proof {
            assert(tally_view(out@) =~= ranking.insert(at as int, shown));
            done = done + 1;
        }
    }
    proof {
        assert(all.take(done) =~= all);
    }
    out
}

/// How much the store holds: the number of entries of each namespace, and
/// the ten most frequent kinds among the symbol records that can be read.
pub fn show_stats(db: &SymgraphDb) -> (r: Result<StoreSummary, StoreError>)
    ensures
        match r {
            Ok(summary) => {
                &&& is_count(db.entries(), "file:"@, summary.files as nat)
                &&& is_count(db.entries(), "symbol:"@, summary.symbols as nat)
                &&& is_count(db.entries(), "occurrence:"@, summary.occurrences as nat)
                &&& is_count(db.entries(), "edge:"@, summary.edges as nat)
                &&& is_count(db.entries(), "module:"@, summary.modules as nat)
                &&& exists|scan: Seq<(Seq<u8>, Seq<u8>)>|
                    {
                        &&& #[trigger] is_prefix_scan(
                            scan,
                            db.entries(),
                            crate::database::text_key("symbol:"@),
                        )
                        &&& tally_view(summary.symbol_kinds@) == top_kinds(scan)
                    }
            },
            Err(e) => e is Storage,
        },
{
    let files = db.scan("file:")?;
    let symbols = db.scan("symbol:")?;
    let occurrences = db.scan("occurrence:")?;
    let edges = db.scan("edge:")?;
    let modules = db.scan("module:")?;
    proof {
        assert(pairs_view(files@).len() == files.len());
        assert(pairs_view(symbols@).len() == symbols.len());
        assert(pairs_view(occurrences@).len() == occurrences.len());
        assert(pairs_view(edges@).len() == edges.len());
        assert(pairs_view(modules@).len() == modules.len());
    }
    let listed = db.scan("symbol:")?;
    let ghost scan = pairs_view(listed@);
    let ghost read = |text: Seq<u8>| kind_of_text(text);
    let mut tally: Vec<(String, usize)> = Vec::new();
    let mut i: usize = 0;
    proof {
        assert(scan.take(0) =~= Seq::empty());
        assert(tally_view(tally@) =~= Seq::empty());
    }
    while i < listed.len()
        invariant
            i <= listed.len(),
            scan == pairs_view(listed@),
            read == |text: Seq<u8>| kind_of_text(text),
            tally_view(tally@) == tally_of(crate::database::collect(scan.take(i as int), read)),
            counts_within(tally_view(tally@), i as nat),
        decreases listed.len() - i,
    {
        proof {
            crate::database::lemma_collect_step(scan, i as int, read);
        }
        let ghost kinds = crate::database::collect(scan.take(i as int), read);
        match decode(listed[i].1.as_slice()) {
            Ok(v) => match Symbol::from_json(&v) {
                Some(symbol) => {
                    proof {
                        lemma_bumped_within(tally_view(tally@), symbol.kind@, i as nat);
                        assert(kinds.push(symbol.kind@).drop_last() =~= kinds);
                    }
                    bump(&mut tally, symbol.kind);
                },
                None => {},
            },
            Err(_) => {},
        }
        i += 1;
    }
    proof {
        assert(scan.take(i as int) =~= scan);
    }
    let mut ranking = rank(tally);
    if ranking.len() > 10 {
        ranking.truncate(10);
    }
    Ok(
        StoreSummary {
            files: files.len(),
            symbols: symbols.len(),
            occurrences: occurrences.len(),
            edges: edges.len(),
            modules: modules.len(),
            symbol_kinds: ranking,
        },
    )
}

} // verus!
