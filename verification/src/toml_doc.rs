//! TOML documents, as the `toml` crate reads, holds and writes them.
use vstd::prelude::*;

verus! {

/// What a TOML value holds.
pub enum TomlView {
    Text(Seq<char>),
    Integer(int),
    /// A float, by the bits of its 64-bit form.
    Float(u64),
    Boolean(bool),
    /// A date or time, as it is written.
    Datetime(Seq<char>),
    Array(Seq<TomlView>),
    Table(Map<Seq<char>, TomlView>),
}

/// What a TOML table holds.
pub type TableView = Map<Seq<char>, TomlView>;

/// `toml::Value`, a value of any type.
#[verifier::external_type_specification]
#[verifier::external_body]
pub struct ExTomlValue(toml::Value);

/// `toml::map::Map`, of which `toml::Table` is an instance.
#[verifier::external_type_specification]
#[verifier::external_body]
#[verifier::reject_recursive_types(K)]
#[verifier::reject_recursive_types(V)]
pub struct ExTomlMap<K, V>(toml::map::Map<K, V>);

/// The contents of a TOML value.
pub uninterp spec fn value_contents(v: toml::Value) -> TomlView;

/// The contents of a TOML table, by key.
pub uninterp spec fn table_contents(t: toml::Table) -> TableView;

/// What the TOML parser makes of a text: the table, or the error message.
pub uninterp spec fn toml_parsed(text: Seq<char>) -> Result<TableView, Seq<char>>;

/// What the TOML printer makes of a table: the text, or the error message.
pub uninterp spec fn toml_printed(contents: TableView) -> Result<Seq<char>, Seq<char>>;

/// The contents of several TOML values.
pub open spec fn values_contents(v: Seq<toml::Value>) -> Seq<TomlView> {
    v.map_values(|x: toml::Value| value_contents(x))
}

/// `toml::from_str` into a `toml::Table`. The result depends on the text
/// alone; which texts are TOML documents, and of which table, is not said here.
#[verifier::external_body]
pub(crate) fn parse_table(text: &str) -> (r: Result<toml::Table, String>)
    ensures
        match r {
            Ok(t) => toml_parsed(text@) == Ok::<TableView, Seq<char>>(table_contents(t)),
            Err(e) => toml_parsed(text@) == Err::<TableView, Seq<char>>(e@),
        },
{
    toml::from_str(text).map_err(|e: toml::de::Error| e.to_string())
}

/// `toml::to_string_pretty` of a `toml::Table`. The tables keep their keys in
/// lexicographic order, so the result depends on the contents alone; how it
/// is laid out, and that the parser reads it back, is not said here.
#[verifier::external_body]
pub(crate) fn print_table(t: &toml::Table) -> (r: Result<String, String>)
    ensures
        match r {
            Ok(text) => toml_printed(table_contents(*t)) == Ok::<Seq<char>, Seq<char>>(text@),
            Err(e) => toml_printed(table_contents(*t)) == Err::<Seq<char>, Seq<char>>(e@),
        },
{
    toml::to_string_pretty(t).map_err(|e: toml::ser::Error| e.to_string())
}

/// `toml::Table::new` makes a table without entries.
#[verifier::external_body]
pub(crate) fn new_table() -> (t: toml::Table)
    ensures
        table_contents(t) == TableView::empty(),
{
    toml::Table::new()
}

/// `toml::Table::clone` copies a table with all its entries.
#[verifier::external_body]
pub(crate) fn copy_table(t: &toml::Table) -> (r: toml::Table)
    ensures
        table_contents(r) == table_contents(*t),
{
    t.clone()
}

/// `toml::Table::get` gives the value of a key, if the key is there.
#[verifier::external_body]
pub(crate) fn table_get<'a>(t: &'a toml::Table, key: &str) -> (r: Option<&'a toml::Value>)
    ensures
        match r {
            Some(v) => {
                &&& table_contents(*t).dom().contains(key@)
                &&& value_contents(*v) == table_contents(*t)[key@]
            },
            None => !table_contents(*t).dom().contains(key@),
        },
{
    t.get(key)
}

/// `toml::Table::insert` sets the value of a key and keeps the other entries.
#[verifier::external_body]
pub(crate) fn table_insert(t: &mut toml::Table, key: String, v: toml::Value)
    ensures
        table_contents(*final(t)) == table_contents(*old(t)).insert(key@, value_contents(v)),
{
    t.insert(key, v);
}

/// `toml::Table::into_iter` gives every entry of a table once.
#[verifier::external_body]
pub(crate) fn table_entries(t: toml::Table) -> (r: Vec<(String, toml::Value)>)
    ensures
        forall|i: int|
            #![trigger r@[i]]
            0 <= i < r@.len() ==> {
                &&& table_contents(t).dom().contains(r@[i].0@)
                &&& table_contents(t)[r@[i].0@] == value_contents(r@[i].1)
            },
        forall|k: Seq<char>|
            table_contents(t).dom().contains(k) ==> exists|i: int|
                0 <= i < r@.len() && (#[trigger] r@[i]).0@ == k,
        forall|i: int, j: int|
            #![trigger r@[i], r@[j]]
            0 <= i < j < r@.len() ==> r@[i].0@ != r@[j].0@,
{
    t.into_iter().collect()
}

/// `toml::Value::String` holds a text.
#[verifier::external_body]
pub(crate) fn text_value(s: String) -> (v: toml::Value)
    ensures
        value_contents(v) == TomlView::Text(s@),
{
    toml::Value::String(s)
}

/// `toml::Value::Boolean` holds a truth value.
#[verifier::external_body]
pub(crate) fn bool_value(b: bool) -> (v: toml::Value)
    ensures
        value_contents(v) == TomlView::Boolean(b),
{
    toml::Value::Boolean(b)
}

/// `toml::Value::Array` holds values in order.
#[verifier::external_body]
pub(crate) fn array_value(a: Vec<toml::Value>) -> (v: toml::Value)
    ensures
        value_contents(v) == TomlView::Array(values_contents(a@)),
{
    toml::Value::Array(a)
}

/// `toml::Value::Table` holds a table.
#[verifier::external_body]
pub(crate) fn table_value(t: toml::Table) -> (v: toml::Value)
    ensures
        value_contents(v) == TomlView::Table(table_contents(t)),
{
    toml::Value::Table(t)
}

/// `toml::Value::as_str` gives the text of a value that is a text.
#[verifier::external_body]
pub(crate) fn value_as_str(v: &toml::Value) -> (r: Option<&str>)
    ensures
        match r {
            Some(s) => value_contents(*v) == TomlView::Text(s@),
            None => !(value_contents(*v) is Text),
        },
{
    v.as_str()
}

/// `toml::Value::as_bool` gives the truth value of a value that is one.
#[verifier::external_body]
pub(crate) fn value_as_bool(v: &toml::Value) -> (r: Option<bool>)
    ensures
        match r {
            Some(b) => value_contents(*v) == TomlView::Boolean(b),
            None => !(value_contents(*v) is Boolean),
        },
{
    v.as_bool()
}

/// `toml::Value::as_array` gives the values of a value that is an array.
#[verifier::external_body]
pub(crate) fn value_as_array(v: &toml::Value) -> (r: Option<&Vec<toml::Value>>)
    ensures
        match r {
            Some(a) => value_contents(*v) == TomlView::Array(values_contents(a@)),
            None => !(value_contents(*v) is Array),
        },
{
    v.as_array()
}

/// `toml::Value::as_table` gives the table of a value that is a table.
#[verifier::external_body]
pub(crate) fn value_as_table(v: &toml::Value) -> (r: Option<&toml::Table>)
    ensures
        match r {
            Some(t) => value_contents(*v) == TomlView::Table(table_contents(*t)),
            None => !(value_contents(*v) is Table),
        },
{
    v.as_table()
}

// ── Sections ──

/// A document with `section.key` set to `value`. A section that is missing is
/// added; one that is no table is left as it is.
pub open spec fn with_key(
    doc: TableView,
    section: Seq<char>,
    key: Seq<char>,
    value: TomlView,
) -> TableView {
    if !doc.dom().contains(section) {
        doc.insert(section, TomlView::Table(TableView::empty().insert(key, value)))
    } else {
        match doc[section] {
            TomlView::Table(t) => doc.insert(section, TomlView::Table(t.insert(key, value))),
            _ => doc,
        }
    }
}

/// The value of `section.key`, if the section is a table that has the key.
pub open spec fn key_value(doc: TableView, section: Seq<char>, key: Seq<char>) -> Option<TomlView> {
    if doc.dom().contains(section) {
        match doc[section] {
            TomlView::Table(t) => if t.dom().contains(key) {
                Some(t[key])
            } else {
                None
            },
            _ => None,
        }
    } else {
        None
    }
}

/// Sets `section.key` in a document.
pub fn set_key(doc: &mut toml::Table, section: &str, key: &str, value: toml::Value)
    ensures
        table_contents(*final(doc)) == with_key(
            table_contents(*old(doc)),
            section@,
            key@,
            value_contents(value),
        ),
{
    let table = match table_get(doc, section) {
        None => Some(new_table()),
        Some(v) => match value_as_table(v) {
            Some(t) => Some(copy_table(t)),
            None => None,
        },
    };
    if let Some(mut t) = table {
        table_insert(&mut t, key.to_owned(), value);
        table_insert(doc, section.to_owned(), table_value(t));
    }
}

/// The value of `section.key` of a document.
pub fn get_key<'a>(doc: &'a toml::Table, section: &str, key: &str) -> (r: Option<
    &'a toml::Value,
>)
    ensures
        match r {
            Some(v) => key_value(table_contents(*doc), section@, key@) == Some(value_contents(*v)),
            None => key_value(table_contents(*doc), section@, key@) is None,
        },
{
    match table_get(doc, section) {
        None => None,
        Some(v) => match value_as_table(v) {
            Some(t) => table_get(t, key),
            None => None,
        },
    }
}

/// Setting a key leaves every other key of every section as it was.
pub proof fn law_with_key_keeps_others(
    doc: TableView,
    section: Seq<char>,
    key: Seq<char>,
    value: TomlView,
    other_section: Seq<char>,
    other_key: Seq<char>,
)
    requires
        other_section != section || other_key != key,
    ensures
        key_value(with_key(doc, section, key, value), other_section, other_key) == key_value(
            doc,
            other_section,
            other_key,
        ),
        other_section != section ==> {
            &&& with_key(doc, section, key, value).dom().contains(other_section)
                == doc.dom().contains(other_section)
            &&& doc.dom().contains(other_section) ==> with_key(
                doc,
                section,
                key,
                value,
            )[other_section] == doc[other_section]
        },
{
}

/// A key that was set is read back, unless its section is there and no table.
pub proof fn law_with_key_reads_back(
    doc: TableView,
    section: Seq<char>,
    key: Seq<char>,
    value: TomlView,
)
    requires
        doc.dom().contains(section) ==> doc[section] is Table,
    ensures
        key_value(with_key(doc, section, key, value), section, key) == Some(value),
{
}

/// Whether two documents differ in one key at most, which has a value in the second one:
/// its section is a table there, and all other keys and sections are the same.
pub open spec fn key_is_set(
    before: TableView,
    after: TableView,
    section: Seq<char>,
    key: Seq<char>,
    value: TomlView,
) -> bool {
    &&& after.dom().contains(section)
    &&& after[section] matches TomlView::Table(t) && t.dom().contains(key) && t[key] == value && (
    forall|k: Seq<char>|
        k != key ==> {
            &&& #[trigger] t.dom().contains(k) <==> before.dom().contains(section)
                && before[section]->Table_0.dom().contains(k)
            &&& t.dom().contains(k) ==> t[k] == before[section]->Table_0[k]
        })
    &&& forall|s: Seq<char>|
        s != section ==> {
            &&& #[trigger] after.dom().contains(s) <==> before.dom().contains(s)
            &&& after.dom().contains(s) ==> after[s] == before[s]
        }
}

/// A key with a value differs in that key at most.
pub proof fn lemma_key_is_set(
    doc: TableView,
    section: Seq<char>,
    key: Seq<char>,
    value: TomlView,
)
    ensures
        !doc.dom().contains(section) || doc[section] is Table ==> key_is_set(
            doc,
            with_key(doc, section, key, value),
            section,
            key,
            value,
        ),
        doc.dom().contains(section) && !(doc[section] is Table) ==> with_key(
            doc,
            section,
            key,
            value,
        ) == doc,
{
}

/// Setting a key sets it, and changes nothing else in the document; where the section is
/// no table, nothing changes at all.
pub proof fn law_key_is_set(doc: &mut toml::Table, section: &str, key: &str, value: toml::Value)
    requires
        call_ensures(set_key, (doc, section, key, value), ()),
    ensures
        ({
            let before = table_contents(*old(doc));
            let after = table_contents(*final(doc));
            if before.dom().contains(section@) && !(before[section@] is Table) {
                after == before
            } else {
                key_is_set(before, after, section@, key@, value_contents(value))
            }
        }),
{
    lemma_key_is_set(table_contents(*old(doc)), section@, key@, value_contents(value));
}

/// A key is read from the table that is its section; there is none where the section is
/// missing, is no table, or has no such key.
pub proof fn law_key_is_read<'a>(
    doc: &'a toml::Table,
    section: &str,
    key: &str,
    r: Option<&'a toml::Value>,
)
    requires
        call_ensures(get_key, (doc, section, key), r),
    ensures
        ({
            let d = table_contents(*doc);
            let there = d.dom().contains(section@) && (d[section@] matches TomlView::Table(t)
                && t.dom().contains(key@));
            &&& r is Some <==> there
            &&& r matches Some(v) ==> value_contents(*v) == d[section@]->Table_0[key@]
        }),
{
}

} // verus!
