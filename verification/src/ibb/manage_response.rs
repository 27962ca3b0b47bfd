//! Reading ids and URLs out of the JSON answers of the ImgBB API.
use vstd::prelude::*;

use crate::analysis::json::{entry_value, json_str, JsonValue};
use crate::url::opt_text;

verus! {

/// The keys searched for, in priority order.
#[derive(Clone, Copy, Debug, PartialEq, Eq, Structural)]
pub enum KeySet {
    /// `id_encoded`, `album_id`, `image_id`, `id`.
    AnyId,
    /// `url`, `url_viewer`, `display_url`, `image_url`.
    AnyUrl,
    /// `image_id`, `id_encoded`, `id`.
    ImageId,
}

/// The keys of a key set, in priority order.
pub open spec fn keys_of(k: KeySet) -> Seq<Seq<char>> {
    match k {
        KeySet::AnyId => seq!["id_encoded"@, "album_id"@, "image_id"@, "id"@],
        KeySet::AnyUrl => seq!["url"@, "url_viewer"@, "display_url"@, "image_url"@],
        KeySet::ImageId => seq!["image_id"@, "id_encoded"@, "id"@],
    }
}

/// The first key of `keys` from position `k` under which the object holds a string.
pub open spec fn first_string_member(
    es: Seq<(String, JsonValue)>,
    keys: Seq<Seq<char>>,
    k: int,
) -> Option<Seq<char>>
    decreases keys.len() - k,
{
    if k < 0 || k >= keys.len() {
        None
    } else {
        match json_str(entry_value(es, keys[k])) {
            Some(s) => Some(s),
            None => first_string_member(es, keys, k + 1),
        }
    }
}

/// The first string found under one of the keys: in an object, under its own keys first,
/// then in its members in order; in an array, in its items in order; depth first.
pub open spec fn find_by_keys(v: JsonValue, keys: Seq<Seq<char>>) -> Option<Seq<char>>
    decreases v, 0int,
{
    match v {
        JsonValue::Object(es) => match first_string_member(es@, keys, 0) {
            Some(s) => Some(s),
            None => find_in_members(es@, keys, 0),
        },
        JsonValue::Array(items) => find_in_items(items@, keys, 0),
        _ => None,
    }
}

/// [`find_by_keys`] over the members of an object from position `i`.
pub open spec fn find_in_members(es: Seq<(String, JsonValue)>, keys: Seq<Seq<char>>, i: int) -> Option<Seq<char>>
    decreases es, es.len() - i,
{
    if i < 0 || i >= es.len() {
        None
    } else {
        match find_by_keys(es[i].1, keys) {
            Some(s) => Some(s),
            None => find_in_members(es, keys, i + 1),
        }
    }
}

/// [`find_by_keys`] over the items of an array from position `i`.
pub open spec fn find_in_items(items: Seq<JsonValue>, keys: Seq<Seq<char>>, i: int) -> Option<Seq<char>>
    decreases items, items.len() - i,
{
    if i < 0 || i >= items.len() {
        None
    } else {
        match find_by_keys(items[i], keys) {
            Some(s) => Some(s),
            None => find_in_items(items, keys, i + 1),
        }
    }
}

fn key_at(set: KeySet, k: usize) -> (r: Option<&'static str>)
    ensures
        k < keys_of(set).len() ==> (r matches Some(s) && s@ == keys_of(set)[k as int]),
        k >= keys_of(set).len() ==> r is None,
{
    match set {
        KeySet::AnyId => if k == 0 {
            Some("id_encoded")
        } else if k == 1 {
            Some("album_id")
        } else if k == 2 {
            Some("image_id")
        } else if k == 3 {
            Some("id")
        } else {
            None
        },
        KeySet::AnyUrl => if k == 0 {
            Some("url")
        } else if k == 1 {
            Some("url_viewer")
        } else if k == 2 {
            Some("display_url")
        } else if k == 3 {
            Some("image_url")
        } else {
            None
        },
        KeySet::ImageId => if k == 0 {
            Some("image_id")
        } else if k == 1 {
            Some("id_encoded")
        } else if k == 2 {
            Some("id")
        } else {
            None
        },
    }
}

/// The first string found under one of the set's keys, depth first.
pub fn find_by_key_set(value: &JsonValue, set: KeySet) -> (r: Option<String>)
    ensures
        opt_text(r) == find_by_keys(*value, keys_of(set)),
    decreases *value,
{
    match value {
        JsonValue::Object(es) => {
            let mut k: usize = 0;
            while k < 4
                invariant
                    k <= 4,
                    *value == JsonValue::Object(*es),
                    keys_of(set).len() <= 4,
                    first_string_member(es@, keys_of(set), 0) == first_string_member(
                        es@,
                        keys_of(set),
                        k as int,
                    ),
                decreases 4 - k,
            {
                match key_at(set, k) {
                    Some(key) => {
                        match value.get(key) {
                            Some(v) => match v.as_str() {
                                Some(s) => return Some(crate::text::owned(s)),
                                None => {},
                            },
                            None => {},
                        }
                    },
                    None => {},
                }
                k = k + 1;
            }
            let mut i: usize = 0;
            while i < es.len()
                invariant
                    i <= es@.len(),
                    *value == JsonValue::Object(*es),
                    first_string_member(es@, keys_of(set), 0) is None,
                    find_by_keys(*value, keys_of(set)) == find_in_members(es@, keys_of(set), i as int),
                decreases es@.len() - i,
            {
                match find_by_key_set(&es[i].1, set) {
                    Some(s) => return Some(s),
                    None => {},
                }
                i = i + 1;
            }
            None
        },
        JsonValue::Array(items) => {
            let mut i: usize = 0;
            while i < items.len()
                invariant
                    i <= items@.len(),
                    *value == JsonValue::Array(*items),
                    find_by_keys(*value, keys_of(set)) == find_in_items(items@, keys_of(set), i as int),
                decreases items@.len() - i,
            {
                match find_by_key_set(&items[i], set) {
                    Some(s) => return Some(s),
                    None => {},
                }
                i = i + 1;
            }
            None
        },
        _ => None,
    }
}

/// The first id (`id_encoded`, `album_id`, `image_id`, `id`) found in an answer.
pub fn find_id(value: &JsonValue) -> (r: Option<String>)
    ensures
        opt_text(r) == find_by_keys(*value, keys_of(KeySet::AnyId)),
{
    find_by_key_set(value, KeySet::AnyId)
}

/// The first URL (`url`, `url_viewer`, `display_url`, `image_url`) found in an answer.
pub fn find_url(value: &JsonValue) -> (r: Option<String>)
    ensures
        opt_text(r) == find_by_keys(*value, keys_of(KeySet::AnyUrl)),
{
    find_by_key_set(value, KeySet::AnyUrl)
}

/// The first image id (`image_id`, `id_encoded`, `id`) found in an answer.
pub fn find_image_id(value: &JsonValue) -> (r: Option<String>)
    ensures
        opt_text(r) == find_by_keys(*value, keys_of(KeySet::ImageId)),
{
    find_by_key_set(value, KeySet::ImageId)
}

} // verus!
