//! Persistent maps from names to stack offsets and to argument or arity
//! indices, carried by the compiler while it lowers expressions.  The maps
//! are im's hash-array-mapped tries; each operation the compiler uses is
//! wrapped and described by the mathematical map of its contents.

use vstd::prelude::*;

verus! {

#[verifier::external_type_specification]
#[verifier::external_body]
#[verifier::reject_recursive_types(K)]
#[verifier::reject_recursive_types(V)]
#[verifier::reject_recursive_types(S)]
pub struct ExImHashMap<K, V, S>(im::HashMap<K, V, S>);

/// A persistent map from names to stack offsets.
pub type OffsetMap = im::HashMap<String, i64>;

/// A persistent map from names to argument positions or arities.
pub type IndexMap = im::HashMap<String, usize>;

/// What a name-to-offset map holds, keyed by the characters of the name.
pub uninterp spec fn offsets_of(m: OffsetMap) -> Map<Seq<char>, i64>;

/// What a name-to-index map holds, keyed by the characters of the name.
pub uninterp spec fn indices_of(m: IndexMap) -> Map<Seq<char>, usize>;

/// Relies on im::HashMap::new: a fresh map holds no entry.
#[verifier::external_body]
pub fn env_new() -> (m: OffsetMap)
    ensures
        forall|k: Seq<char>| !offsets_of(m).contains_key(k),
{
    im::HashMap::new()
}

/// Relies on im::HashMap::contains_key: whether the key has an entry.
#[verifier::external_body]
pub fn env_contains(m: &OffsetMap, k: &String) -> (r: bool)
    ensures
        r == offsets_of(*m).contains_key(k@),
{
    m.contains_key(k)
}

/// Relies on im::HashMap::get: the entry of the key, if it has one.
#[verifier::external_body]
pub fn env_get(m: &OffsetMap, k: &String) -> (r: Option<i64>)
    ensures
        match r {
            Some(v) => offsets_of(*m).contains_key(k@) && offsets_of(*m)[k@] == v,
            None => !offsets_of(*m).contains_key(k@),
        },
{
    match m.get(k) {
        Some(v) => Some(*v),
        None => None,
    }
}

/// Relies on im::HashMap::update: a copy of the map in which the key is
/// bound to the value, replacing any earlier entry.
#[verifier::external_body]
pub fn env_update(m: &OffsetMap, k: &String, v: i64) -> (r: OffsetMap)
    ensures
        offsets_of(r) == offsets_of(*m).insert(k@, v),
{
    m.update(k.clone(), v)
}

/// Relies on im::HashMap::clone: the copy holds the same entries.
#[verifier::external_body]
pub fn env_clone(m: &OffsetMap) -> (r: OffsetMap)
    ensures
        offsets_of(r) == offsets_of(*m),
{
    m.clone()
}

/// Relies on im::HashMap::new: a fresh map holds no entry.
#[verifier::external_body]
pub fn tbl_new() -> (m: IndexMap)
    ensures
        forall|k: Seq<char>| !indices_of(m).contains_key(k),
{
    im::HashMap::new()
}

/// Relies on im::HashMap::contains_key: whether the key has an entry.
#[verifier::external_body]
pub fn tbl_contains(m: &IndexMap, k: &String) -> (r: bool)
    ensures
        r == indices_of(*m).contains_key(k@),
{
    m.contains_key(k)
}

/// Relies on im::HashMap::get: the entry of the key, if it has one.
#[verifier::external_body]
pub fn tbl_get(m: &IndexMap, k: &String) -> (r: Option<usize>)
    ensures
        match r {
            Some(v) => indices_of(*m).contains_key(k@) && indices_of(*m)[k@] == v,
            None => !indices_of(*m).contains_key(k@),
        },
{
    match m.get(k) {
        Some(v) => Some(*v),
        None => None,
    }
}

/// Relies on im::HashMap::insert: binds the key to the value in place,
/// replacing any earlier entry.
#[verifier::external_body]
pub fn tbl_insert(m: &mut IndexMap, k: &String, v: usize)
    ensures
        indices_of(*final(m)) == indices_of(*old(m)).insert(k@, v),
{
    m.insert(k.clone(), v);
}

} // verus!
