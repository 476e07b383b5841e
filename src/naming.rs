//! How cache entries are named inside the storage root: one file per key,
//! called `<key>.json`.
use vstd::prelude::*;

verus! {

/// Name of the directory, under the application's data directory, that
/// holds the cache entries.
pub const STORE_DIR_NAME: &'static str = "offline_data";

/// The file name under which the entry for `key` is stored.
pub open spec fn file_name_of(key: Seq<char>) -> Seq<char> {
    key + ".json"@
}

/// The key that a file name of the storage root stands for, if any: the
/// name must end in `.json` and keep a non-empty stem before it.
pub open spec fn key_of_file_name(name: Seq<char>) -> Option<Seq<char>> {
    let n = ".json"@.len();
    if name.len() > n && name.subrange(name.len() - n, name.len() as int) == ".json"@ {
        Some(name.subrange(0, name.len() - n))
    } else {
        None
    }
}

/// Whether `key` can name a cache entry: any non-empty string.
pub fn is_valid_key(key: &str) -> (r: bool)
    ensures
        r == (key@.len() > 0),
{
    !key.is_empty()
}

/// Builds the file name of the entry for `key`.
pub fn entry_file_name(key: &str) -> (r: String)
    ensures
        r@ == file_name_of(key@),
{
    let mut name = String::from_str(key);
    name.append(".json");
    name
}

/// The keys that a directory listing stands for, in listing order: each name
/// that decodes to a key gives that key, the others are skipped.
pub open spec fn listed_keys(names: Seq<Seq<char>>) -> Seq<Seq<char>>
    decreases names.len(),
{
    if names.len() == 0 {
        Seq::empty()
    } else {
        let rest = listed_keys(names.drop_last());
        match key_of_file_name(names.last()) {
            Some(k) => rest.push(k),
            None => rest,
        }
    }
}

/// The character sequences of a list of strings.
pub open spec fn views(v: Seq<String>) -> Seq<Seq<char>> {
    v.map_values(|s: String| s@)
}

/// The character sequence of an optional string.
pub open spec fn opt_view(o: Option<String>) -> Option<Seq<char>> {
    match o {
        Some(s) => Some(s@),
        None => None,
    }
}

/// Decoding a file name gives back the key it was built from.
pub proof fn lemma_key_of_file_name(key: Seq<char>)
    requires
        key.len() > 0,
    ensures
        key_of_file_name(file_name_of(key)) == Some(key),
{
    reveal_strlit(".json");
    let name = file_name_of(key);
    assert(name.subrange(name.len() - 5, name.len() as int) =~= ".json"@);
    assert(name.subrange(0, name.len() - 5) =~= key);
}

/// A name decodes to `key` exactly when it is the file name of `key`.
pub proof fn lemma_file_name_decodes(name: Seq<char>, key: Seq<char>)
    ensures
        key_of_file_name(name) == Some(key) <==> (key.len() > 0 && name == file_name_of(key)),
{
    reveal_strlit(".json");
    if key_of_file_name(name) == Some(key) {
        assert(name =~= name.subrange(0, name.len() - 5) + name.subrange(name.len() - 5, name.len() as int));
    }
    if key.len() > 0 && name == file_name_of(key) {
        lemma_key_of_file_name(key);
    }
}

/// The key stored under the file name `name`, or `None` when the name is not
/// that of an entry.
pub fn key_from_file_name(name: &str) -> (r: Option<String>)
    ensures
        r matches Some(k) ==> key_of_file_name(name@) == Some(k@),
        r is None ==> key_of_file_name(name@) is None,
{
    proof {
        reveal_strlit(".json");
    }
    let len = name.unicode_len();
    if len <= 5 {
        return None;
    }
    let tail = String::from_str(name.substring_char(len - 5, len));
    if tail == String::from_str(".json") {
        Some(String::from_str(name.substring_char(0, len - 5)))
    } else {
        None
    }
}

/// The keys found in a listing of the storage root's file names, in listing
/// order; names that are not entries are skipped.
pub fn keys_from_listing(names: &Vec<String>) -> (r: Vec<String>)
    ensures
        views(r@) == listed_keys(views(names@)),
{
    let mut keys: Vec<String> = Vec::new();
    let mut i: usize = 0;
    while i < names.len()
        invariant
            i <= names.len(),
            views(keys@) == listed_keys(views(names@).subrange(0, i as int)),
        decreases names.len() - i,
    {
        let ghost prefix = views(names@).subrange(0, i as int + 1);
        assert(prefix.drop_last() =~= views(names@).subrange(0, i as int));
        assert(prefix.last() == names@[i as int]@);
        match key_from_file_name(names[i].as_str()) {
            Some(k) => {
                keys.push(k);
                assert(views(keys@) =~= listed_keys(prefix));
            },
            None => {},
        }
        i = i + 1;
    }
    assert(views(names@).subrange(0, i as int) =~= views(names@));
    keys
}

} // verus!
