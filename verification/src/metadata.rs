//! Recipe metadata: the standard keys, servings, names with URLs, recipe
//! times, and the selection of the metadata entries that are plain text.
use vstd::prelude::*;
use cooklang::metadata::Metadata as ParserMetadata;

verus! {

/// Standard metadata keys from the Cooklang specification
#[derive(Debug, Clone, Copy, PartialEq, Eq, Structural)]
pub enum StdKey {
    Title,
    Description,
    Tags,
    Author,
    Source,
    Course,
    Time,
    PrepTime,
    CookTime,
    Servings,
    Difficulty,
    Cuisine,
    Diet,
    Images,
    Locale,
}

/// Recipe servings as either a number or text description
#[derive(Debug)]
pub enum Servings {
    Number { value: u32 },
    Text { value: String },
}

impl Clone for Servings {
    fn clone(&self) -> (r: Self)
        ensures
            r == *self,
    {
        match self {
            Servings::Number { value } => Servings::Number { value: *value },
            Servings::Text { value } => Servings::Text { value: value.clone() },
        }
    }
}

/// A name with an optional URL (used for author/source)
#[derive(Debug)]
pub struct NameAndUrl {
    pub name: Option<String>,
    pub url: Option<String>,
}

impl Clone for NameAndUrl {
    fn clone(&self) -> (r: Self)
        ensures
            r == *self,
    {
        NameAndUrl { name: self.name.clone(), url: self.url.clone() }
    }
}

/// Recipe time as either total minutes or separate prep/cook times
#[derive(Debug, Clone, Copy, PartialEq, Eq, Structural)]
pub enum RecipeTime {
    Total { minutes: u32 },
    Composed { prep_time: Option<u32>, cook_time: Option<u32> },
}

/// A metadata entry whose key and value are both text, as a pair.
pub open spec fn text_entry(entry: (Option<String>, Option<String>)) -> Option<(String, String)> {
    match entry {
        (Some(k), Some(v)) => Some((k, v)),
        _ => None,
    }
}

/// The metadata entries whose key and value are both text, in order. Each
/// input entry holds the key's text and the value's text, `None` for a key or
/// value that is not a string.
pub fn text_metadata_entries(entries: &Vec<(Option<String>, Option<String>)>) -> (r: Vec<
    (String, String),
>)
    ensures
        r@ == entries@.filter_map(|e: (Option<String>, Option<String>)| text_entry(e)),
{
    let ghost f = |e: (Option<String>, Option<String>)| text_entry(e);
    let mut out: Vec<(String, String)> = Vec::new();
    let n = entries.len();
    let mut i: usize = 0;
    while i < n
        invariant
            n == entries@.len(),
            0 <= i <= n,
            f == (|e: (Option<String>, Option<String>)| text_entry(e)),
            out@ == entries@.take(i as int).filter_map(f),
        decreases n - i,
    {
        proof {
            assert(entries@.take(i + 1).drop_last() =~= entries@.take(i as int));
        }
        match &entries[i] {
            (Some(k), Some(v)) => {
                out.push((k.clone(), v.clone()));
            },
            _ => {},
        }
        proof {
            assert(out@ =~= entries@.take(i + 1).filter_map(f));
        }
        i = i + 1;
    }
    proof {
        assert(entries@.take(n as int) =~= entries@);
    }
    out
}

/// The parser's metadata, `cooklang::metadata::Metadata`, known to the
/// verifier only through what the wrappers below read from it.
#[verifier::external_type_specification]
#[verifier::external_body]
pub struct ExParserMetadata(ParserMetadata);

/// The text of an optional string.
pub open spec fn opt_text(o: Option<String>) -> Option<Seq<char>> {
    match o {
        Some(s) => Some(s@),
        None => None,
    }
}

/// The texts of a list of optional key and value strings.
pub open spec fn entry_texts(entries: Seq<(Option<String>, Option<String>)>) -> Seq<
    (Option<Seq<char>>, Option<Seq<char>>),
> {
    entries.map_values(|e: (Option<String>, Option<String>)| (opt_text(e.0), opt_text(e.1)))
}

/// The texts of a list of key and value strings.
pub open spec fn pair_texts(pairs: Seq<(String, String)>) -> Seq<(Seq<char>, Seq<char>)> {
    pairs.map_values(|p: (String, String)| (p.0@, p.1@))
}

/// The texts of a list of strings.
pub open spec fn string_texts(strings: Seq<String>) -> Seq<Seq<char>> {
    strings.map_values(|s: String| s@)
}

/// The entries of the metadata map, in the map's order, each key and value
/// taken as text where it is a YAML string (`serde_yaml::Value::as_str`), as
/// `None` where it is not.
pub uninterp spec fn parser_metadata_texts(meta: ParserMetadata) -> Seq<
    (Option<Seq<char>>, Option<Seq<char>>),
>;

/// What `cooklang::metadata::Metadata::tags` returns, each tag as text.
pub uninterp spec fn parser_metadata_tags(meta: ParserMetadata) -> Option<Seq<Seq<char>>>;

/// The text of the value that `cooklang::metadata::Metadata::get` finds under
/// `key`, `None` where there is none or it is not a YAML string.
pub uninterp spec fn parser_metadata_text(meta: ParserMetadata, key: Seq<char>) -> Option<
    Seq<char>,
>;

/// Walks the metadata map (`serde_yaml::Mapping::iter`) and hands out each
/// entry's key and value as text (`serde_yaml::Value::as_str`), `None` for a
/// key or value that is not a string.
#[verifier::external_body]
fn parser_metadata_entries(meta: &ParserMetadata) -> (r: Vec<(Option<String>, Option<String>)>)
    ensures
        entry_texts(r@) == parser_metadata_texts(*meta),
{
    meta.map.iter().map(|(k, v)| (k.as_str().map(|s| s.to_string()), v.as_str().map(|s| s.to_string()))).collect()
}

/// `cooklang::metadata::Metadata::tags`, each tag converted to a `String`.
#[verifier::external_body]
fn parser_metadata_tag_list(meta: &ParserMetadata) -> (r: Option<Vec<String>>)
    ensures
        match r {
            Some(tags) => parser_metadata_tags(*meta) == Some(string_texts(tags@)),
            None => parser_metadata_tags(*meta) is None,
        },
{
    meta.tags().map(|tags| tags.into_iter().map(|t| t.to_string()).collect())
}

/// `cooklang::metadata::Metadata::get` under `key`, then
/// `serde_yaml::Value::as_str`, converted to a `String`.
#[verifier::external_body]
fn parser_metadata_get_text(meta: &ParserMetadata, key: &str) -> (r: Option<String>)
    ensures
        opt_text(r) == parser_metadata_text(*meta, key@),
{
    meta.get(key).and_then(|v| v.as_str()).map(|s| s.to_string())
}

/// A pair of texts whose key and value are both present.
pub open spec fn text_entry_view(e: (Option<Seq<char>>, Option<Seq<char>>)) -> Option<
    (Seq<char>, Seq<char>),
> {
    match e {
        (Some(k), Some(v)) => Some((k, v)),
        _ => None,
    }
}

proof fn lemma_text_entries_views(entries: Seq<(Option<String>, Option<String>)>)
    ensures
        pair_texts(entries.filter_map(|e: (Option<String>, Option<String>)| text_entry(e)))
            == entry_texts(entries).filter_map(
            |e: (Option<Seq<char>>, Option<Seq<char>>)| text_entry_view(e),
        ),
    decreases entries.len(),
{
    let f = |e: (Option<String>, Option<String>)| text_entry(e);
    let g = |e: (Option<Seq<char>>, Option<Seq<char>>)| text_entry_view(e);
    if entries.len() > 0 {
        let rest = entries.drop_last();
        lemma_text_entries_views(rest);
        assert(entry_texts(entries).drop_last() =~= entry_texts(rest));
        assert(entry_texts(entries).last() == (opt_text(entries.last().0), opt_text(entries.last().1)));
        match f(entries.last()) {
            Some(p) => {
                assert(pair_texts(rest.filter_map(f).push(p)) =~= pair_texts(rest.filter_map(f)).push(
                    (p.0@, p.1@),
                ));
                assert(rest.filter_map(f) + seq![p] =~= rest.filter_map(f).push(p));
                assert(entries.filter_map(f) == rest.filter_map(f) + seq![p]);
                assert(entry_texts(rest).filter_map(g) + seq![(p.0@, p.1@)] =~= entry_texts(rest).filter_map(g).push((p.0@, p.1@)));
            },
            None => {},
        }
    } else {
        assert(pair_texts(entries.filter_map(f)) =~= Seq::<(Seq<char>, Seq<char>)>::empty());
        assert(entry_texts(entries).filter_map(g) =~= Seq::<(Seq<char>, Seq<char>)>::empty());
    }
}

/// The metadata entries whose key and value are both strings, in the map's
/// order.
pub fn metadata_text_entries(meta: &ParserMetadata) -> (r: Vec<(String, String)>)
    ensures
        pair_texts(r@) == parser_metadata_texts(*meta).filter_map(
            |e: (Option<Seq<char>>, Option<Seq<char>>)| text_entry_view(e),
        ),
{
    let entries = parser_metadata_entries(meta);
    let r = text_metadata_entries(&entries);
    proof {
        lemma_text_entries_views(entries@);
    }
    r
}

/// The recipe's tags, none when the metadata has no tags.
pub fn metadata_tags(meta: &ParserMetadata) -> (r: Vec<String>)
    ensures
        string_texts(r@) == match parser_metadata_tags(*meta) {
            Some(tags) => tags,
            None => Seq::<Seq<char>>::empty(),
        },
{
    match parser_metadata_tag_list(meta) {
        Some(tags) => tags,
        None => {
            let r: Vec<String> = Vec::new();
            proof {
                assert(string_texts(r@) =~= Seq::<Seq<char>>::empty());
            }
            r
        },
    }
}

/// The string value stored under `key`, if there is one.
pub fn metadata_get(meta: &ParserMetadata, key: String) -> (r: Option<String>)
    ensures
        opt_text(r) == parser_metadata_text(*meta, key@),
{
    parser_metadata_get_text(meta, key.as_str())
}

} // verus!
