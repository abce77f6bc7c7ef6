use vstd::prelude::*;

use crate::error::BlogError;
use crate::front_matter::fm_delim;

verus! {

/// A decoded front-matter header: the two required fields of every post.
#[derive(Debug)]
pub struct YamlHeader {
    pub title: String,
    pub author: String,
}

/// The views of a list of decoded key/value pairs.
pub open spec fn entries_model(v: Seq<(String, String)>) -> Seq<(Seq<char>, Seq<char>)> {
    v.map_values(|e: (String, String)| (e.0@, e.1@))
}

/// What the YAML decoder makes of `s`: the entries of a mapping from
/// strings to strings, or `None` when `s` does not decode that way.  The
/// decoder's behaviour is the outside crate's and is only named here, never
/// written out.
pub uninterp spec fn yaml_str_map_of(s: Seq<char>) -> Option<Seq<(Seq<char>, Seq<char>)>>;

/// The YAML decoder's error type.
#[verifier::external_type_specification]
#[verifier::external_body]
pub struct ExYamlError(serde_yaml::Error);

/// Relies on serde_yaml::from_str with a string-to-string map as the
/// target: the result depends on the text alone, and is `Ok` exactly when
/// the text decodes as a YAML mapping with string keys and string values.
#[verifier::external_body]
fn yaml_parse_str_map(s: &str) -> (r: Result<Vec<(String, String)>, serde_yaml::Error>)
    ensures
        (r is Ok) == (yaml_str_map_of(s@) is Some),
        r matches Ok(v) ==> Some(entries_model(v@)) == yaml_str_map_of(s@),
{
    let map: std::collections::BTreeMap<String, String> = match serde_yaml::from_str(s) {
        Ok(map) => map,
        Err(e) => {
            return Err(e);
        },
    };
    Ok(map.into_iter().collect())
}

/// The value of the first entry carrying `key`, if any.
pub open spec fn lookup_from(
    entries: Seq<(Seq<char>, Seq<char>)>,
    key: Seq<char>,
    i: int,
) -> Option<Seq<char>>
    decreases entries.len() - i,
{
    if i < 0 || i >= entries.len() {
        None
    } else if entries[i].0 == key {
        Some(entries[i].1)
    } else {
        lookup_from(entries, key, i + 1)
    }
}

/// The value stored under `key`, if any.
pub open spec fn lookup(entries: Seq<(Seq<char>, Seq<char>)>, key: Seq<char>) -> Option<Seq<char>> {
    lookup_from(entries, key, 0)
}

/// The metadata block without its trailing closing delimiter; the decoder
/// must not see that delimiter, which would read as the start of a second
/// document.
pub open spec fn meta_core(m: Seq<char>) -> Seq<char> {
    if m.len() >= 3 && m.subrange(m.len() - 3, m.len() as int) == fm_delim() {
        m.take(m.len() - 3)
    } else {
        m
    }
}

/// The outcome of decoding a metadata block: the `title` and `author`
/// values when the block decodes as a string mapping holding both, and
/// invalid metadata otherwise.
pub open spec fn header_of(m: Seq<char>) -> Result<(Seq<char>, Seq<char>), BlogError> {
    match yaml_str_map_of(meta_core(m)) {
        None => Err(BlogError::InvalidMetadata),
        Some(entries) => {
            if lookup(entries, "title"@) is Some && lookup(entries, "author"@) is Some {
                Ok((lookup(entries, "title"@)->Some_0, lookup(entries, "author"@)->Some_0))
            } else {
                Err(BlogError::InvalidMetadata)
            }
        },
    }
}

/// The value stored under `key`, found by walking the entries in order.
fn find_value(entries: &Vec<(String, String)>, key: &str) -> (r: Option<String>)
    ensures
        match r {
            Some(v) => lookup(entries_model(entries@), key@) == Some(v@),
            None => lookup(entries_model(entries@), key@) is None,
        },
{
    let needle = String::from_str(key);
    let n: usize = entries.len();
    let mut i: usize = 0;
    while i < n
        invariant
            i <= n,
            n == entries@.len(),
            needle@ == key@,
            lookup(entries_model(entries@), key@) == lookup_from(
                entries_model(entries@),
                key@,
                i as int,
            ),
        decreases n - i,
    {
        let e = &entries[i];
        if e.0 == needle {
            return Some(e.1.clone());
        }
        i += 1;
    }
    None
}

/// Decode a metadata block into its header, as `header_of` describes: the
/// block, its delimiters stripped, must decode as a string mapping holding
/// `title` and `author`; anything else is invalid metadata.
pub fn parse_metadata(meta: &str) -> (r: Result<YamlHeader, BlogError>)
    ensures
        match r {
            Ok(h) => header_of(meta@) == Ok::<_, BlogError>((h.title@, h.author@)),
            Err(e) => header_of(meta@) == Err::<(Seq<char>, Seq<char>), _>(e),
        },
{
    let n: usize = meta.unicode_len();
    let has_close: bool = n >= 3 && meta.get_char(n - 3) == '-' && meta.get_char(n - 2) == '-'
        && meta.get_char(n - 1) == '-';
    proof {
        if n >= 3 {
            assert(meta@.subrange(n - 3, n as int)[0] == meta@[n - 3]);
            assert(meta@.subrange(n - 3, n as int)[1] == meta@[n - 2]);
            assert(meta@.subrange(n - 3, n as int)[2] == meta@[n - 1]);
            if has_close {
                assert(meta@.subrange(n - 3, n as int) =~= fm_delim());
            }
        }
    }
    let core: &str = if has_close {
        meta.substring_char(0, n - 3)
    } else {
        meta
    };
    proof {
        assert(core@ == meta_core(meta@));
    }
    let entries = match yaml_parse_str_map(core) {
        Ok(entries) => entries,
        Err(_) => {
            return Err(BlogError::InvalidMetadata);
        },
    };
    let title = find_value(&entries, "title");
    let author = find_value(&entries, "author");
    match (title, author) {
        (Some(title), Some(author)) => Ok(YamlHeader { title, author }),
        _ => Err(BlogError::InvalidMetadata),
    }
}

} // verus!
