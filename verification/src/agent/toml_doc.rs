//! TOML documents that keep their comments and layout while they are edited.
//!
//! The `toml_edit` crate does the work. This module says what a document holds
//! and what each call does to that; how a document looks as text, beyond what
//! it holds, is the crate's own affair.

use vstd::prelude::*;

verus! {

/// A document.
#[verifier::external_type_specification]
#[verifier::external_body]
pub struct ExDocumentMut(toml_edit::DocumentMut);

/// Why a text is no document.
#[verifier::external_type_specification]
#[verifier::external_body]
pub struct ExTomlError(toml_edit::TomlError);

/// A table of a document.
#[verifier::external_type_specification]
#[verifier::external_body]
pub struct ExTable(toml_edit::Table);

/// An array of tables of a document.
#[verifier::external_type_specification]
#[verifier::external_body]
pub struct ExArrayOfTables(toml_edit::ArrayOfTables);

/// An array of values.
#[verifier::external_type_specification]
#[verifier::external_body]
pub struct ExArray(toml_edit::Array);

/// What stands under a key.
pub enum TomlItem {
    /// A string.
    Text(Seq<char>),
    /// An integer.
    Integer(int),
    /// A truth value.
    Boolean(bool),
    /// An array, of which the strings are told, in order.
    Texts(Seq<Seq<char>>),
    /// A table with a header, or that dotted keys open.
    Table(Map<Seq<char>, TomlItem>),
    /// An array of tables.
    Tables(Seq<Map<Seq<char>, TomlItem>>),
    /// Anything else: a float, a date, an inline table.
    Other,
}

/// A table without keys.
pub open spec fn no_items() -> Map<Seq<char>, TomlItem> {
    Map::empty()
}

/// What stands in the root table of a document.
pub uninterp spec fn document_items(doc: toml_edit::DocumentMut) -> Map<Seq<char>, TomlItem>;

/// What stands in a table.
pub uninterp spec fn table_items(table: toml_edit::Table) -> Map<Seq<char>, TomlItem>;

/// What stands in the tables of an array, in order.
pub uninterp spec fn tables_items(tables: toml_edit::ArrayOfTables) -> Seq<
    Map<Seq<char>, TomlItem>,
>;

/// The strings of an array, in order.
pub uninterp spec fn array_texts(array: toml_edit::Array) -> Seq<Seq<char>>;

/// What a text holds as a document; `None` where it is no document.
pub uninterp spec fn parsed_document(text: Seq<char>) -> Option<Map<Seq<char>, TomlItem>>;

/// How a document looks as text.
pub uninterp spec fn document_text(doc: toml_edit::DocumentMut) -> Seq<char>;

/// `str::parse` into `toml_edit::DocumentMut`: whether a text is a document,
/// and what it then holds, depend on the text alone.
#[verifier::external_body]
pub(crate) fn parse_document(text: &str) -> (doc: Result<
    toml_edit::DocumentMut,
    toml_edit::TomlError,
>)
    ensures
        match doc {
            Ok(doc) => parsed_document(text@) == Some(document_items(doc)),
            Err(_) => parsed_document(text@) is None,
        },
{
    text.parse::<toml_edit::DocumentMut>()
}

/// `toml_edit::DocumentMut::to_string`: the text depends on the document
/// alone. That the text holds what the document holds is not claimed: an array
/// of tables without any table, for one, leaves no trace in it.
#[verifier::external_body]
pub(crate) fn render_document(doc: &toml_edit::DocumentMut) -> (text: String)
    ensures
        text@ == document_text(*doc),
{
    doc.to_string()
}

/// `toml_edit::Table::contains_key` on the root table.
#[verifier::external_body]
pub(crate) fn document_has(doc: &toml_edit::DocumentMut, key: &str) -> (yes: bool)
    ensures
        yes == document_items(*doc).contains_key(key@),
{
    doc.as_table().contains_key(key)
}

/// Assigning a `toml_edit::Table` to an index of a document puts it under that
/// key, in place of what stood there, and leaves the other keys alone.
#[verifier::external_body]
pub(crate) fn document_put_table(
    doc: &mut toml_edit::DocumentMut,
    key: &str,
    table: toml_edit::Table,
)
    ensures
        document_items(*final(doc)) == document_items(*old(doc)).insert(
            key@,
            TomlItem::Table(table_items(table)),
        ),
{
    doc[key] = toml_edit::Item::Table(table);
}

/// Assigning an empty `toml_edit::ArrayOfTables` to an index of a document puts
/// it under that key, in place of what stood there, and leaves the other keys
/// alone.
#[verifier::external_body]
pub(crate) fn document_put_tables(doc: &mut toml_edit::DocumentMut, key: &str)
    ensures
        document_items(*final(doc)) == document_items(*old(doc)).insert(
            key@,
            TomlItem::Tables(Seq::empty()),
        ),
{
    doc[key] = toml_edit::Item::ArrayOfTables(toml_edit::ArrayOfTables::new());
}

/// `toml_edit::Item::as_table_mut` on what stands under a key: the table, where
/// it is one, and whatever is done to it is done to the document.
#[verifier::external_body]
pub(crate) fn document_table_mut<'a>(
    doc: &'a mut toml_edit::DocumentMut,
    key: &str,
) -> (table: Option<&'a mut toml_edit::Table>)
    requires
        document_items(*old(doc)).contains_key(key@),
    ensures
        match table {
            Some(table) => {
                &&& document_items(*old(doc))[key@] == TomlItem::Table(table_items(*table))
                &&& document_items(*final(doc)) == document_items(*old(doc)).insert(
                    key@,
                    TomlItem::Table(table_items(*final(table))),
                )
            },
            None => {
                &&& document_items(*old(doc))[key@] !is Table
                &&& document_items(*final(doc)) == document_items(*old(doc))
            },
        },
{
    doc[key].as_table_mut()
}

/// `toml_edit::Item::as_array_of_tables_mut` on what stands under a key: the
/// array, where it is one, and whatever is done to it is done to the document.
#[verifier::external_body]
pub(crate) fn document_tables_mut<'a>(
    doc: &'a mut toml_edit::DocumentMut,
    key: &str,
) -> (tables: Option<&'a mut toml_edit::ArrayOfTables>)
    requires
        document_items(*old(doc)).contains_key(key@),
    ensures
        match tables {
            Some(tables) => {
                &&& document_items(*old(doc))[key@] == TomlItem::Tables(tables_items(*tables))
                &&& document_items(*final(doc)) == document_items(*old(doc)).insert(
                    key@,
                    TomlItem::Tables(tables_items(*final(tables))),
                )
            },
            None => {
                &&& document_items(*old(doc))[key@] !is Tables
                &&& document_items(*final(doc)) == document_items(*old(doc))
            },
        },
{
    doc[key].as_array_of_tables_mut()
}

/// `toml_edit::Table::new`: a table without keys.
#[verifier::external_body]
pub(crate) fn new_table() -> (table: toml_edit::Table)
    ensures
        table_items(table) == no_items(),
{
    toml_edit::Table::new()
}

/// Assigning a string to an index of a `toml_edit::Table` puts it under that
/// key, in place of what stood there, and leaves the other keys alone.
#[verifier::external_body]
pub(crate) fn table_put_text(table: &mut toml_edit::Table, key: &str, text: &str)
    ensures
        table_items(*final(table)) == table_items(*old(table)).insert(
            key@,
            TomlItem::Text(text@),
        ),
{
    table[key] = toml_edit::value(text);
}

/// Assigning an integer to an index of a `toml_edit::Table` puts it under that
/// key, in place of what stood there, and leaves the other keys alone.
#[verifier::external_body]
pub(crate) fn table_put_integer(table: &mut toml_edit::Table, key: &str, n: i64)
    ensures
        table_items(*final(table)) == table_items(*old(table)).insert(
            key@,
            TomlItem::Integer(n as int),
        ),
{
    table[key] = toml_edit::value(n);
}

/// Assigning a truth value to an index of a `toml_edit::Table` puts it under
/// that key, in place of what stood there, and leaves the other keys alone.
#[verifier::external_body]
pub(crate) fn table_put_boolean(table: &mut toml_edit::Table, key: &str, b: bool)
    ensures
        table_items(*final(table)) == table_items(*old(table)).insert(key@, TomlItem::Boolean(b)),
{
    table[key] = toml_edit::value(b);
}

/// Assigning an array of strings to an index of a `toml_edit::Table` puts it
/// under that key, in place of what stood there, and leaves the other keys
/// alone.
#[verifier::external_body]
pub(crate) fn table_put_array(table: &mut toml_edit::Table, key: &str, array: toml_edit::Array)
    ensures
        table_items(*final(table)) == table_items(*old(table)).insert(
            key@,
            TomlItem::Texts(array_texts(array)),
        ),
{
    table[key] = toml_edit::value(array);
}

/// Assigning a table to an index of a `toml_edit::Table` puts it under that
/// key, in place of what stood there, and leaves the other keys alone.
#[verifier::external_body]
pub(crate) fn table_put_table(table: &mut toml_edit::Table, key: &str, inner: toml_edit::Table)
    ensures
        table_items(*final(table)) == table_items(*old(table)).insert(
            key@,
            TomlItem::Table(table_items(inner)),
        ),
{
    table[key] = toml_edit::Item::Table(inner);
}

/// `toml_edit::Array::new`: an array without values.
#[verifier::external_body]
pub(crate) fn new_array() -> (array: toml_edit::Array)
    ensures
        array_texts(array) == Seq::<Seq<char>>::empty(),
{
    toml_edit::Array::new()
}

/// `toml_edit::Array::push` appends a string.
#[verifier::external_body]
pub(crate) fn array_push(array: &mut toml_edit::Array, text: &str)
    ensures
        array_texts(*final(array)) == array_texts(*old(array)).push(text@),
{
    array.push(text);
}

/// `toml_edit::ArrayOfTables::len` counts the tables.
#[verifier::external_body]
pub(crate) fn tables_len(tables: &toml_edit::ArrayOfTables) -> (len: usize)
    ensures
        len == tables_items(*tables).len(),
{
    tables.len()
}

/// `toml_edit::ArrayOfTables::get`: the table at an index, which is there for
/// every index below the length.
#[verifier::external_body]
pub(crate) fn tables_get(tables: &toml_edit::ArrayOfTables, index: usize) -> (table: Option<
    &toml_edit::Table,
>)
    ensures
        match table {
            Some(table) => index < tables_items(*tables).len() && table_items(*table)
                == tables_items(*tables)[index as int],
            None => index >= tables_items(*tables).len(),
        },
{
    tables.get(index)
}

/// `toml_edit::Table::get` and `toml_edit::Item::as_str`: the string under a
/// key, if a string stands there.
#[verifier::external_body]
pub(crate) fn table_text(table: &toml_edit::Table, key: &str) -> (text: Option<String>)
    ensures
        match text {
            Some(text) => table_items(*table).contains_key(key@) && table_items(*table)[key@]
                == TomlItem::Text(text@),
            None => !(table_items(*table).contains_key(key@) && table_items(*table)[key@] is Text),
        },
{
    table.get(key)?.as_str().map(String::from)
}

/// `toml_edit::ArrayOfTables::remove` takes one table out; the others keep
/// their order.
#[verifier::external_body]
pub(crate) fn tables_remove(tables: &mut toml_edit::ArrayOfTables, index: usize)
    requires
        index < tables_items(*old(tables)).len(),
    ensures
        tables_items(*final(tables)) == tables_items(*old(tables)).remove(index as int),
{
    tables.remove(index);
}

/// `toml_edit::ArrayOfTables::push` appends a table.
#[verifier::external_body]
pub(crate) fn tables_push(tables: &mut toml_edit::ArrayOfTables, table: toml_edit::Table)
    ensures
        tables_items(*final(tables)) == tables_items(*old(tables)).push(table_items(table)),
{
    tables.push(table);
}

} // verus!
