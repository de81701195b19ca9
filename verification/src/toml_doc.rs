//! Configuration documents of the `toml` crate.
use vstd::prelude::*;

verus! {

/// `toml::Value`, any TOML value.
#[verifier::external_type_specification]
#[verifier::external_body]
pub struct ExTomlValue(toml::Value);

/// `toml::map::Map`, the entries of a TOML table.
#[verifier::external_type_specification]
#[verifier::external_body]
#[verifier::reject_recursive_types(K)]
#[verifier::reject_recursive_types(V)]
pub struct ExTomlMap<K, V>(toml::map::Map<K, V>);

/// What a TOML value is. Floats, dates and arrays are told apart, but not looked into.
pub ghost enum TomlData {
    Text(Seq<char>),
    Integer(i64),
    Flag(bool),
    Table(Map<Seq<char>, TomlData>),
    Other(Seq<char>),
}

/// What a text is as a document.
pub ghost enum DocumentData {
    Invalid,
    NotTable,
    Table(Map<Seq<char>, TomlData>),
}

/// The entries of a table, by name.
pub uninterp spec fn entries(table: toml::map::Map<String, toml::Value>) -> Map<Seq<char>, TomlData>;

/// What a text says as a document.
pub uninterp spec fn document(text: Seq<char>) -> DocumentData;

/// The text of a document with these entries, if it has one.
pub uninterp spec fn rendered(entries: Map<Seq<char>, TomlData>) -> Option<Seq<char>>;

/// No entries.
pub open spec fn no_entries() -> Map<Seq<char>, TomlData> {
    Map::empty()
}

/// What parsing a document gives.
pub enum Document {
    Invalid,
    NotTable,
    Table(toml::map::Map<String, toml::Value>),
}

impl Document {
    pub open spec fn data(&self) -> DocumentData {
        match self {
            Document::Invalid => DocumentData::Invalid,
            Document::NotTable => DocumentData::NotTable,
            Document::Table(table) => DocumentData::Table(entries(*table)),
        }
    }
}

/// An entry that can be set.
pub enum Item {
    Text(String),
    Integer(i64),
    Flag(bool),
    Table(toml::map::Map<String, toml::Value>),
}

impl Item {
    pub open spec fn data(&self) -> TomlData {
        match self {
            Item::Text(s) => TomlData::Text(s@),
            Item::Integer(n) => TomlData::Integer(*n),
            Item::Flag(b) => TomlData::Flag(*b),
            Item::Table(table) => TomlData::Table(entries(*table)),
        }
    }
}

/// What an entry is, as far as it is looked at.
pub enum Found {
    Text(String),
    Flag(bool),
    Table(toml::map::Map<String, toml::Value>),
    Else,
}

/// Whether this is what is seen of an entry.
pub open spec fn shows(found: Found, data: TomlData) -> bool {
    match data {
        TomlData::Text(s) => found matches Found::Text(t) && t@ == s,
        TomlData::Flag(b) => found == Found::Flag(b),
        TomlData::Table(inner) => found matches Found::Table(t) && entries(t) == inner,
        _ => found is Else,
    }
}

/// Parsing a text as a `toml::Value`: it is the text alone that decides what comes out.
#[verifier::external_body]
pub(crate) fn parse_document(source: &str) -> (r: Document)
    ensures
        r.data() == document(source@),
{
    match source.parse::<toml::Value>() {
        Ok(toml::Value::Table(table)) => Document::Table(table),
        Ok(_) => Document::NotTable,
        Err(_) => Document::Invalid,
    }
}

/// `toml::map::Map::new`: a table without entries.
#[verifier::external_body]
pub(crate) fn new_table() -> (r: toml::map::Map<String, toml::Value>)
    ensures
        entries(r) == no_entries(),
{
    toml::map::Map::new()
}

/// `toml::map::Map::insert` sets an entry.
#[verifier::external_body]
pub(crate) fn set_entry(
    table: &mut toml::map::Map<String, toml::Value>,
    name: String,
    item: Item,
)
    ensures
        entries(*final(table)) == entries(*old(table)).insert(name@, item.data()),
{
    let value = match item {
        Item::Text(s) => toml::Value::String(s),
        Item::Integer(n) => toml::Value::Integer(n),
        Item::Flag(b) => toml::Value::Boolean(b),
        Item::Table(t) => toml::Value::Table(t),
    };
    table.insert(name, value);
}

/// `toml::map::Map::remove` takes an entry out, if it is there.
#[verifier::external_body]
pub(crate) fn take_entry(
    table: &mut toml::map::Map<String, toml::Value>,
    name: &str,
) -> (r: Option<Found>)
    ensures
        entries(*final(table)) == entries(*old(table)).remove(name@),
        r is Some <==> entries(*old(table)).contains_key(name@),
        r is Some ==> shows(r->0, entries(*old(table))[name@]),
{
    table.remove(name).map(
        |value| match value {
            toml::Value::String(s) => Found::Text(s),
            toml::Value::Boolean(b) => Found::Flag(b),
            toml::Value::Table(t) => Found::Table(t),
            _ => Found::Else,
        },
    )
}

/// `toml::to_string_pretty` on a table: its text depends on the entries alone, which are
/// written in the order of their names.
#[verifier::external_body]
pub(crate) fn render(table: toml::map::Map<String, toml::Value>) -> (r: Option<String>)
    ensures
        match r {
            Some(s) => rendered(entries(table)) == Some(s@),
            None => rendered(entries(table)) is None,
        },
{
    toml::to_string_pretty(&toml::Value::Table(table)).ok()
}

} // verus!
