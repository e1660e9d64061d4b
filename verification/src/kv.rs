//! The embedded key-value store (`sled`) as the library sees it: a finite map
//! from byte keys to byte values, read and written one key at a time, and
//! scanned by key prefix in key order.

use vstd::prelude::*;

verus! {

/// `sled::Db`, the handle of an open store. What the store holds is spoken
/// of through [`kv_entries`].
#[verifier::external_type_specification]
#[verifier::external_body]
pub struct ExSledDb(sled::Db);

/// `sled::Error`, held as it is: only its message is ever taken from it.
#[verifier::external_type_specification]
#[verifier::external_body]
pub struct ExSledError(sled::Error);

/// What a store holds: each key with its value.
pub uninterp spec fn kv_entries(db: sled::Db) -> Map<Seq<u8>, Seq<u8>>;

/// `a` comes before `b` in the order of the store's keys: byte by byte, a
/// proper prefix first.
pub open spec fn bytes_before(a: Seq<u8>, b: Seq<u8>) -> bool
    decreases a.len(),
{
    if b.len() == 0 {
        false
    } else if a.len() == 0 {
        true
    } else if a[0] != b[0] {
        a[0] < b[0]
    } else {
        bytes_before(a.drop_first(), b.drop_first())
    }
}

/// `items` is the scan of `entries` by `prefix`: every entry whose key begins
/// with `prefix`, each once, in the order of the keys.
pub open spec fn is_prefix_scan(
    items: Seq<(Seq<u8>, Seq<u8>)>,
    entries: Map<Seq<u8>, Seq<u8>>,
    prefix: Seq<u8>,
) -> bool {
    &&& forall|i: int|
        0 <= i < items.len() ==> {
            &&& prefix.is_prefix_of((#[trigger] items[i]).0)
            &&& entries.contains_key(items[i].0)
            &&& entries[items[i].0] == items[i].1
        }
    &&& forall|k: Seq<u8>|
        #![trigger entries.contains_key(k)]
        entries.contains_key(k) && prefix.is_prefix_of(k) ==> exists|i: int|
            0 <= i < items.len() && (#[trigger] items[i]).0 == k
    &&& forall|i: int, j: int|
        0 <= i < j < items.len() ==> bytes_before((#[trigger] items[i]).0, (#[trigger] items[j]).0)
}

/// The keys and values of a scan, as bytes.
pub open spec fn pairs_view(items: Seq<(Vec<u8>, Vec<u8>)>) -> Seq<(Seq<u8>, Seq<u8>)> {
    Seq::new(items.len(), |i: int| (items[i].0@, items[i].1@))
}

/// `sled::open` on the path: the store at that place, made where there was
/// none. Nothing is known of what an opened store holds.
#[verifier::external_body]
pub(crate) fn kv_open(path: &str) -> (r: Result<sled::Db, sled::Error>) {
    sled::open(path)
}

/// `Tree::get` on the store's default tree: the value under the key, or none
/// where the store has no such key.
#[verifier::external_body]
pub(crate) fn kv_get(db: &sled::Db, key: &[u8]) -> (r: Result<Option<Vec<u8>>, sled::Error>)
    ensures
        r matches Ok(found) ==> match found {
            Some(value) => kv_entries(*db).contains_key(key@) && kv_entries(*db)[key@] == value@,
            None => !kv_entries(*db).contains_key(key@),
        },
{
    db.get(key).map(|found| found.map(|value| value.to_vec()))
}

/// `Tree::insert` on the store's default tree. On success the key holds the
/// value and no other key has changed. On failure the write has either taken
/// place as a whole or not at all.
#[verifier::external_body]
pub(crate) fn kv_insert(db: &mut sled::Db, key: &[u8], value: &[u8]) -> (r: Result<
    (),
    sled::Error,
>)
    ensures
        r is Ok ==> kv_entries(*final(db)) == kv_entries(*old(db)).insert(key@, value@),
        r is Err ==> kv_entries(*final(db)) == kv_entries(*old(db)) || kv_entries(*final(db))
            == kv_entries(*old(db)).insert(key@, value@),
{
    db.insert(key, value).map(|_| ())
}

/// `Tree::scan_prefix` on the store's default tree, run to its end: the scan
/// of what the store holds by the prefix, or the first error that the
/// iterator gave.
#[verifier::external_body]
pub(crate) fn kv_scan_prefix(db: &sled::Db, prefix: &[u8]) -> (r: Result<
    Vec<(Vec<u8>, Vec<u8>)>,
    sled::Error,
>)
    ensures
        r matches Ok(items) ==> is_prefix_scan(pairs_view(items@), kv_entries(*db), prefix@),
{
    db.scan_prefix(prefix).map(|item| item.map(|kv| (kv.0.to_vec(), kv.1.to_vec()))).collect()
}

/// `to_string` on the error, which writes its `Display` form.
#[verifier::external_body]
pub(crate) fn kv_error_text(e: &sled::Error) -> String {
    e.to_string()
}

} // verus!
