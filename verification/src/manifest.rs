//! Reading a manifest: the `toml` crate parses the document and hands out
//! the entries of its tables; which entry holds the name is decided here.

use vstd::prelude::*;
use vstd::string::*;
use crate::error::ProjectError;

verus! {

/// The section of a manifest that describes the package.
pub const PACKAGE_SECTION: &'static str = "package";

/// The key, in the package section, under which the name stands.
pub const NAME_KEY: &'static str = "name";

/// A table of the `toml` crate: `toml::Table` is this map from `String` to
/// `toml::Value`.
#[verifier::external_type_specification]
#[verifier::external_body]
#[verifier::reject_recursive_types(K)]
#[verifier::reject_recursive_types(V)]
pub struct ExTomlMap<K, V>(toml::map::Map<K, V>);

/// A value of the `toml` crate.
#[verifier::external_type_specification]
#[verifier::external_body]
pub struct ExTomlValue(toml::Value);

/// The error that `toml` gives for a document that it cannot parse.
#[verifier::external_type_specification]
#[verifier::external_body]
pub struct ExTomlError(toml::de::Error);

/// What stands under a key of a table, as far as a manifest is read: a
/// string, a table, or a value of another kind.
pub enum Item {
    Text(Seq<char>),
    Table(Map<Seq<char>, Item>),
    Other,
}

/// The entries of the table that `toml` parses the document `text` into,
/// or `None` where `toml` does not parse it.
pub uninterp spec fn toml_parsed(text: Seq<char>) -> Option<Map<Seq<char>, Item>>;

/// The entries that a table holds, by their keys.
pub uninterp spec fn table_entries(table: toml::Table) -> Map<Seq<char>, Item>;

/// What a lookup in a table hands out.
enum Entry<'a> {
    Text(String),
    Table(&'a toml::Table),
    Other,
}

/// What an entry stands for.
spec fn entry_item(entry: Entry) -> Item {
    match entry {
        Entry::Text(text) => Item::Text(text@),
        Entry::Table(table) => Item::Table(table_entries(*table)),
        Entry::Other => Item::Other,
    }
}

/// Parses `text` with `toml`'s `FromStr` for `toml::Table`.
///
/// Trusted: whether the text parses, and what the table then holds, depends
/// on the text alone. Nothing is claimed about which documents parse, nor
/// about what they hold.
#[verifier::external_body]
fn parse(text: &str) -> (r: Result<toml::Table, toml::de::Error>)
    ensures
        match r {
            Ok(table) => toml_parsed(text@) == Some(table_entries(table)),
            Err(_) => toml_parsed(text@) is None,
        },
{
    text.parse::<toml::Table>()
}

/// Looks `key` up in `table` with `toml::map::Map::get` and tells the kind
/// of the value found.
///
/// Trusted: the entry handed out is the one that the table holds under the
/// key, and none is handed out only where the table holds none.
#[verifier::external_body]
fn get<'a>(table: &'a toml::Table, key: &str) -> (r: Option<Entry<'a>>)
    ensures
        match r {
            Some(entry) => table_entries(*table).contains_key(key@) && table_entries(*table)[key@]
                == entry_item(entry),
            None => !table_entries(*table).contains_key(key@),
        },
{
    match table.get(key) {
        Some(toml::Value::String(text)) => Some(Entry::Text(text.clone())),
        Some(toml::Value::Table(inner)) => Some(Entry::Table(inner)),
        Some(_) => Some(Entry::Other),
        None => None,
    }
}

/// The characters of an optional string.
pub open spec fn text_of(s: Option<String>) -> Option<Seq<char>> {
    match s {
        Some(s) => Some(s@),
        None => None,
    }
}

/// Whether `toml` parses `text` as a document.
pub open spec fn toml_parses(text: Seq<char>) -> bool {
    toml_parsed(text) is Some
}

/// The string that stands under `key` in the table that stands under
/// `section` among `entries`; `None` where there is no such table, the
/// table has no such key, or what stands there is no string.
pub open spec fn text_at(entries: Map<Seq<char>, Item>, section: Seq<char>, key: Seq<char>) -> Option<
    Seq<char>,
> {
    if entries.contains_key(section) {
        match entries[section] {
            Item::Table(inner) => if inner.contains_key(key) {
                match inner[key] {
                    Item::Text(text) => Some(text),
                    _ => None,
                }
            } else {
                None
            },
            _ => None,
        }
    } else {
        None
    }
}

/// What a lookup in a manifest gives once an empty name is taken for a
/// missing one.
pub open spec fn usable_name(found: Option<Seq<char>>) -> Option<Seq<char>> {
    match found {
        Some(name) => if name.len() > 0 {
            Some(name)
        } else {
            None
        },
        None => None,
    }
}

/// The name that a manifest with these entries declares: the string under
/// `package.name`, unless it is missing or empty.
pub open spec fn name_among(entries: Map<Seq<char>, Item>) -> Option<Seq<char>> {
    usable_name(text_at(entries, PACKAGE_SECTION@, NAME_KEY@))
}

/// The name that the manifest `text` declares, if it parses and declares
/// one.
pub open spec fn declared_name(text: Seq<char>) -> Option<Seq<char>> {
    match toml_parsed(text) {
        Some(entries) => name_among(entries),
        None => None,
    }
}

/// Takes an empty name for a missing one.
pub fn keep_usable(found: Option<String>) -> (name: Option<String>)
    ensures
        text_of(name) == usable_name(text_of(found)),
{
    match found {
        Some(name) => {
            if name.as_str().is_empty() {
                None
            } else {
                Some(name)
            }
        },
        None => None,
    }
}

/// The string that stands under `key` in the table that stands under
/// `section` in `table`.
pub fn lookup_text(table: &toml::Table, section: &str, key: &str) -> (found: Option<String>)
    ensures
        text_of(found) == text_at(table_entries(*table), section@, key@),
{
    match get(table, section) {
        Some(Entry::Table(inner)) => match get(inner, key) {
            Some(Entry::Text(text)) => Some(text),
            _ => None,
        },
        _ => None,
    }
}

/// The name that the manifest parsed into `table` declares.
pub fn name_in(table: &toml::Table) -> (name: Option<String>)
    ensures
        text_of(name) == name_among(table_entries(*table)),
{
    keep_usable(lookup_text(table, PACKAGE_SECTION, NAME_KEY))
}

/// Reads the name that a manifest declares. Fails with `ParseError`
/// exactly when the text is not a well-formed document.
pub fn read_declared_name(text: &str) -> (r: Result<Option<String>, ProjectError>)
    ensures
        r is Ok <==> toml_parses(text@),
        r matches Ok(name) ==> text_of(name) == declared_name(text@),
        r matches Err(e) ==> e == ProjectError::ParseError,
{
    match parse(text) {
        Ok(table) => Ok(name_in(&table)),
        Err(_) => Err(ProjectError::ParseError),
    }
}

} // verus!
