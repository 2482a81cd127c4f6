//! Changes to the manifest of a dependency before it is rebuilt.

use toml_edit::{Array, Document, Item, Table, Value};
use vstd::prelude::*;

use crate::compilation::compile::{crate_type_text, CompileType};
use crate::utils::text::texts;

verus! {

/// A manifest, as `toml_edit` holds it.
#[verifier::external_type_specification]
#[verifier::external_body]
pub struct ExDocument(Document);

/// The items of the root table of a manifest: for each key that has a value,
/// whether that value is a table or an inline table.
pub uninterp spec fn document_items(document: Document) -> Map<Seq<char>, bool>;

/// The arrays of strings that a manifest holds in the tables of its root:
/// for a table's key and a key of that table, the strings of the array.
pub uninterp spec fn document_arrays(document: Document) -> Map<
    (Seq<char>, Seq<char>),
    Seq<Seq<char>>,
>;

/// The text `toml_edit` writes a manifest as.
pub uninterp spec fn document_text(document: Document) -> Seq<char>;

/// The items of the root table of the manifest that `toml_edit` parses a
/// text to; `None` where it rejects the text.
pub uninterp spec fn parsed_items(text: Seq<char>) -> Option<Map<Seq<char>, bool>>;

/// The arrays of strings of the manifest that `toml_edit` parses a text to;
/// `None` where it rejects the text.
pub uninterp spec fn parsed_arrays(text: Seq<char>) -> Option<
    Map<(Seq<char>, Seq<char>), Seq<Seq<char>>>,
>;

/// Calls `str::parse` for `toml_edit::Document` and drops the error value.
/// Whether the text parses, and to which items and arrays, is a function of
/// the text alone and is known here only by the names `parsed_items` and
/// `parsed_arrays`.
#[verifier::external_body]
pub(crate) fn parse_document(text: &str) -> (document: Option<Document>)
    ensures
        match document {
            Some(parsed) => parsed_items(text@) == Some(document_items(parsed))
                && parsed_arrays(text@) == Some(document_arrays(parsed)),
            None => parsed_items(text@) is None && parsed_arrays(text@) is None,
        },
{
    text.parse::<Document>().ok()
}

/// Calls `Table::contains_key` on the root table, which tells whether the
/// key has a value.
#[verifier::external_body]
pub(crate) fn has_item(document: &Document, node: &str) -> (found: bool)
    ensures
        found == document_items(*document).dom().contains(node@),
{
    document.as_table().contains_key(node)
}

/// Calls `Table::get` on the root table and `Item::is_table_like` on what it
/// finds, which tells whether the key has a value that is a table or an
/// inline table.
#[verifier::external_body]
pub(crate) fn is_table_like(document: &Document, node: &str) -> (table: bool)
    ensures
        table == (document_items(*document).dom().contains(node@) && document_items(
            *document,
        )[node@]),
{
    document.as_table().get(node).map_or(false, |item| item.is_table_like())
}

/// Calls `Table::insert` on the root table with a new, empty table. The key
/// had no value before, so the root gains one item, a table without keys,
/// and nothing else changes.
#[verifier::external_body]
pub(crate) fn insert_table(document: &mut Document, node: &str)
    requires
        !document_items(*old(document)).dom().contains(node@),
    ensures
        document_items(*final(document)) == document_items(*old(document)).insert(node@, true),
        document_arrays(*final(document)) == document_arrays(*old(document)),
{
    document.as_table_mut().insert(node, Item::Table(Table::new()));
}

/// Takes the table under `node` (`Table::get_mut`, `Item::as_table_like_mut`)
/// and calls `TableLike::remove` and `TableLike::insert` on it with an array
/// made of the strings (`Array::push`). The table then holds that array
/// under `key`, and nothing else changes.
#[verifier::external_body]
pub(crate) fn set_string_array(
    document: &mut Document,
    node: &str,
    key: &str,
    values: &Vec<String>,
)
    requires
        document_items(*old(document)).dom().contains(node@),
        document_items(*old(document))[node@],
    ensures
        document_items(*final(document)) == document_items(*old(document)),
        document_arrays(*final(document)) == document_arrays(*old(document)).insert(
            (node@, key@),
            texts(values@),
        ),
{
    let mut array = Array::new();
    for value in values {
        array.push(value.as_str());
    }
    if let Some(table) = document.as_table_mut().get_mut(node).and_then(Item::as_table_like_mut) {
        table.remove(key);
        table.insert(key, Item::Value(Value::Array(array)));
    }
}

/// Calls `to_string` on the manifest.
#[verifier::external_body]
pub(crate) fn render_document(document: &Document) -> (text: String)
    ensures
        text@ == document_text(*document),
{
    document.to_string()
}

/// Holds when the array can be set under `node`: the root has no item under
/// that key yet, or the item is a table.
pub open spec fn accepts_array(document: Document, node: Seq<char>) -> bool {
    !document_items(document).dom().contains(node) || document_items(document)[node]
}

/// Sets an array of strings under `key` of the table `node`. A table that
/// the manifest lacks is made first; an array that the table holds under the
/// key already is replaced. Where the manifest holds something else than a
/// table under `node`, nothing is changed and `false` is returned.
pub fn add_array(document: &mut Document, node: &str, key: &str, values: &Vec<String>) -> (added:
    bool)
    ensures
        added == accepts_array(*old(document), node@),
        added ==> document_items(*final(document)) == document_items(*old(document)).insert(
            node@,
            true,
        ),
        added ==> document_arrays(*final(document)) == document_arrays(*old(document)).insert(
            (node@, key@),
            texts(values@),
        ),
        !added ==> *final(document) == *old(document),
{
    if !has_item(document, node) {
        insert_table(document, node);
    } else if !is_table_like(document, node) {
        return false;
    }
    set_string_array(document, node, key, values);
    assert(document_items(*document) =~= document_items(*old(document)).insert(node@, true));
    true
}

/// Declares, in the manifest, the kind of library to build: the table `lib`
/// gets the one-element array `crate-type`.
pub fn set_crate_type(document: &mut Document, compile_type: &CompileType) -> (set: bool)
    ensures
        set == accepts_array(*old(document), "lib"@),
        set ==> document_items(*final(document)) == document_items(*old(document)).insert(
            "lib"@,
            true,
        ),
        set ==> document_arrays(*final(document)) == document_arrays(*old(document)).insert(
            ("lib"@, "crate-type"@),
            seq![crate_type_text(*compile_type)],
        ),
        !set ==> *final(document) == *old(document),
{
    let mut kinds: Vec<String> = Vec::new();
    kinds.push(compile_type.to_text());
    assert(texts(kinds@) =~= seq![crate_type_text(*compile_type)]);
    add_array(document, "lib", "crate-type", &kinds)
}

/// Holds when `manifest` is what patching `text` gives: it is the text of a
/// manifest that holds the items `text` parses to, with a table under `lib`,
/// and the arrays `text` parses to, with the one-element array `crate-type`
/// of the table `lib` set to the kind of library.
pub open spec fn is_patched(text: Seq<char>, manifest: Seq<char>, compile_type: CompileType)
    -> bool {
    exists|document: Document|
        #![trigger document_text(document)]
        {
            &&& manifest == document_text(document)
            &&& parsed_items(text) matches Some(items)
            &&& parsed_arrays(text) matches Some(arrays)
            &&& document_items(document) == items.insert("lib"@, true)
            &&& document_arrays(document) == arrays.insert(
                ("lib"@, "crate-type"@),
                seq![crate_type_text(compile_type)],
            )
        }
}

/// Holds of the texts that can be patched: manifests that hold nothing, or a
/// table, under `lib`.
pub open spec fn can_be_patched(text: Seq<char>) -> bool {
    match parsed_items(text) {
        Some(items) => !items.dom().contains("lib"@) || items["lib"@],
        None => false,
    }
}

/// Patches the text of a manifest so that the package is built as the given
/// kind of library: the table `lib`, made where the manifest lacks it, gets
/// the one-element array `crate-type`, and every other item and array stays.
/// There is no patched text where the text is no manifest, or where it holds
/// something else than a table under `lib`.
pub fn patch_manifest(text: &str, compile_type: CompileType) -> (patched: Option<String>)
    ensures
        (patched is Some) == can_be_patched(text@),
        patched matches Some(manifest) ==> is_patched(text@, manifest@, compile_type),
{
    let mut document: Document = match parse_document(text) {
        Some(document) => document,
        None => {
            return None;
        },
    };
    if set_crate_type(&mut document, &compile_type) {
        let manifest: String = render_document(&document);
        assert(manifest@ == document_text(document));
        Some(manifest)
    } else {
        None
    }
}

} // verus!
