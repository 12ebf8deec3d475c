//! The two glyph caches, kept in hash maps of the `ahash` crate.
//!
//! Verus does not look into such a map. What it holds is given a name
//! here, and each method that the library calls is stated over that name,
//! as the map's own source shows it: a plain standard hash map with
//! another hasher.

use ahash::AHashMap;
use vstd::prelude::*;

use crate::glyph::GlyphInfo;

verus! {

/// `ahash::AHashMap`, carried as it is.
#[verifier::external_type_specification]
#[verifier::external_body]
#[verifier::reject_recursive_types(K)]
#[verifier::reject_recursive_types(V)]
#[verifier::reject_recursive_types(S)]
pub struct ExAHashMap<K, V, S>(ahash::AHashMap<K, V, S>);

/// `ahash::RandomState`, the hasher that such a map is made with.
#[verifier::external_type_specification]
#[verifier::external_body]
pub struct ExRandomState(ahash::RandomState);

/// The entries of a face's cache: the glyph kept for each character.
pub uninterp spec fn face_cache_entries(cache: AHashMap<char, GlyphInfo>) -> Map<char, GlyphInfo>;

/// The entries of a face set's cache: for each character the index of the
/// face that gave its glyph, and the glyph.
pub uninterp spec fn set_cache_entries(cache: AHashMap<char, (usize, GlyphInfo)>) -> Map<
    char,
    (usize, GlyphInfo),
>;

/// A face's cache without entries.
pub open spec fn no_face_entries() -> Map<char, GlyphInfo> {
    Map::empty()
}

/// A face set's cache without entries.
pub open spec fn no_set_entries() -> Map<char, (usize, GlyphInfo)> {
    Map::empty()
}

/// `AHashMap::new`: a map without entries.
#[verifier::external_body]
pub(crate) fn face_cache_new() -> (cache: AHashMap<char, GlyphInfo>)
    ensures
        face_cache_entries(cache) == no_face_entries(),
{
    AHashMap::new()
}

/// `AHashMap::get`: the value kept under `c`, if there is one.
#[verifier::external_body]
pub(crate) fn face_cache_get(cache: &AHashMap<char, GlyphInfo>, c: char) -> (found: Option<
    GlyphInfo,
>)
    ensures
        found == if face_cache_entries(*cache).contains_key(c) {
            Some(face_cache_entries(*cache)[c])
        } else {
            None
        },
{
    cache.get(&c).copied()
}

/// `AHashMap::insert`: afterwards `glyph` is kept under `c`, in place of
/// what was kept there, and every other entry is as before.
#[verifier::external_body]
pub(crate) fn face_cache_insert(cache: &mut AHashMap<char, GlyphInfo>, c: char, glyph: GlyphInfo)
    ensures
        face_cache_entries(*final(cache)) == face_cache_entries(*old(cache)).insert(c, glyph),
{
    cache.insert(c, glyph);
}

/// `AHashMap::new`: a map without entries.
#[verifier::external_body]
pub(crate) fn set_cache_new() -> (cache: AHashMap<char, (usize, GlyphInfo)>)
    ensures
        set_cache_entries(cache) == no_set_entries(),
{
    AHashMap::new()
}

/// `AHashMap::get`: the value kept under `c`, if there is one.
#[verifier::external_body]
pub(crate) fn set_cache_get(cache: &AHashMap<char, (usize, GlyphInfo)>, c: char) -> (found: Option<
    (usize, GlyphInfo),
>)
    ensures
        found == if set_cache_entries(*cache).contains_key(c) {
            Some(set_cache_entries(*cache)[c])
        } else {
            None
        },
{
    cache.get(&c).copied()
}

/// `AHashMap::insert`: afterwards `entry` is kept under `c`, in place of
/// what was kept there, and every other entry is as before.
#[verifier::external_body]
pub(crate) fn set_cache_insert(
    cache: &mut AHashMap<char, (usize, GlyphInfo)>,
    c: char,
    entry: (usize, GlyphInfo),
)
    ensures
        set_cache_entries(*final(cache)) == set_cache_entries(*old(cache)).insert(c, entry),
{
    cache.insert(c, entry);
}

} // verus!
