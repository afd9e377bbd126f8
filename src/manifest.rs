//! Installing a source override in a manifest document, leaving the rest of
//! the document as it was.
use crate::error::ForkError;
use toml_edit::{Document, InlineTable, Item, Table, TomlError};
use vstd::prelude::*;

verus! {

#[verifier::external_type_specification]
#[verifier::external_body]
pub struct ExTable(toml_edit::Table);

#[verifier::external_type_specification]
#[verifier::external_body]
pub struct ExItem(toml_edit::Item);

#[verifier::external_type_specification]
#[verifier::external_body]
pub struct ExDocument(toml_edit::Document);

#[verifier::external_type_specification]
#[verifier::external_body]
pub struct ExTomlError(toml_edit::TomlError);

#[verifier::external_type_specification]
#[verifier::external_body]
pub struct ExInlineTable(toml_edit::InlineTable);

/// Whether a text is a TOML document.
pub uninterp spec fn is_toml_document(text: Seq<char>) -> bool;

/// The root table that toml_edit's parser makes from a text.
pub uninterp spec fn parsed_root(text: Seq<char>) -> toml_edit::Table;

/// The root table of a document.
pub uninterp spec fn document_root(d: toml_edit::Document) -> toml_edit::Table;

/// The keys of a table, in the order in which they were inserted.
pub uninterp spec fn table_keys(t: toml_edit::Table) -> Seq<Seq<char>>;

/// The items of a table that hold something, by key.
pub uninterp spec fn table_items(t: toml_edit::Table) -> Map<Seq<char>, toml_edit::Item>;

/// Whether a table is implicit: its header is rendered only when it holds
/// key/value pairs of its own.
pub uninterp spec fn table_implicit(t: toml_edit::Table) -> bool;

/// The table that an item is, if it is a standard table (not an inline one).
pub uninterp spec fn item_table(i: toml_edit::Item) -> Option<toml_edit::Table>;

/// The inline table that an item is, if it is one.
pub uninterp spec fn item_record(i: toml_edit::Item) -> Option<toml_edit::InlineTable>;

/// The fields of an inline table in order, each with the string it holds.
pub uninterp spec fn record_fields(r: toml_edit::InlineTable) -> Seq<(Seq<char>, Seq<char>)>;

/// The outcome of looking up a sub-table.
pub enum TableLookup {
    Absent,
    Found(Table),
    NotATable,
}

/// The table held under `key`, if that entry is a table.
pub open spec fn entry_table(t: Table, key: Seq<char>) -> Option<Table> {
    if table_items(t).contains_key(key) {
        item_table(table_items(t)[key])
    } else {
        None
    }
}

/// `key` holds something that is not a table.
pub open spec fn blocks_table(t: Table, key: Seq<char>) -> bool {
    table_items(t).contains_key(key) && item_table(table_items(t)[key]) is None
}

pub open spec fn keys_of(t: Option<Table>) -> Seq<Seq<char>> {
    match t {
        Some(t) => table_keys(t),
        None => Seq::empty(),
    }
}

pub open spec fn items_of(t: Option<Table>) -> Map<Seq<char>, Item> {
    match t {
        Some(t) => table_items(t),
        None => Map::empty(),
    }
}

pub open spec fn child_of(t: Option<Table>, key: Seq<char>) -> Option<Table> {
    match t {
        Some(t) => entry_table(t, key),
        None => None,
    }
}

/// The keys after setting `key`: an existing key keeps its place, a new one goes last.
pub open spec fn keys_after_set(keys: Seq<Seq<char>>, key: Seq<char>) -> Seq<Seq<char>> {
    if keys.contains(key) {
        keys
    } else {
        keys.push(key)
    }
}

/// `new` is `old` (an empty table when absent) with only the entry under `key`
/// set: every other entry is the same item, and the keys keep their order.
pub open spec fn replaces_entry(old: Option<Table>, new: Table, key: Seq<char>) -> bool {
    &&& table_keys(new) == keys_after_set(keys_of(old), key)
    &&& table_items(new).dom() == items_of(old).dom().insert(key)
    &&& forall|k: Seq<char>|
        k != key && #[trigger] items_of(old).contains_key(k) ==> table_items(new)[k] == items_of(old)[k]
}

/// Relies on toml_edit's `FromStr` for `Document`: it parses the text, keeping
/// its formatting, and fails when the text is not a TOML document.
#[verifier::external_body]
fn parse_document(text: &str) -> (r: Result<Document, TomlError>)
    ensures
        r is Ok <==> is_toml_document(text@),
        r matches Ok(d) ==> document_root(d) == parsed_root(text@),
{
    text.parse::<Document>()
}

/// Relies on toml_edit's `Table::new`: a table with no entries, not implicit.
#[verifier::external_body]
fn new_table() -> (r: Table)
    ensures
        table_keys(r) == Seq::<Seq<char>>::empty(),
        table_items(r).dom() == Set::<Seq<char>>::empty(),
        !table_implicit(r),
{
    Table::new()
}

/// Relies on toml_edit's `Table::get` and `Item::as_table`: what is under `key`,
/// and a copy of it when it is a table.
#[verifier::external_body]
fn lookup_table(t: &Table, key: &str) -> (r: TableLookup)
    ensures
        match r {
            TableLookup::Absent => !table_items(*t).contains_key(key@),
            TableLookup::Found(c) => table_items(*t).contains_key(key@)
                && item_table(table_items(*t)[key@]) == Some(c),
            TableLookup::NotATable => blocks_table(*t, key@),
        },
{
    match t.get(key) {
        None => TableLookup::Absent,
        Some(item) => match item.as_table() {
            Some(child) => TableLookup::Found(child.clone()),
            None => TableLookup::NotATable,
        },
    }
}

/// Relies on toml_edit's `Table::set_implicit`: only the flag changes.
#[verifier::external_body]
fn set_implicit(t: &mut Table, implicit: bool)
    ensures
        table_keys(*final(t)) == table_keys(*old(t)),
        table_items(*final(t)) == table_items(*old(t)),
        table_implicit(*final(t)) == implicit,
{
    t.set_implicit(implicit)
}

/// Relies on toml_edit's `IndexMut` for `Table`: the entry under `key` becomes the
/// table `child`, in the place of the key if it was there, else last.
#[verifier::external_body]
fn put_table(t: &mut Table, key: &str, child: Table)
    ensures
        replaces_entry(Some(*old(t)), *final(t), key@),
        table_implicit(*final(t)) == table_implicit(*old(t)),
        entry_table(*final(t), key@) == Some(child),
{
    t[key] = Item::Table(child);
}

/// Relies on toml_edit's `IndexMut` for `Table`: the entry under `key` becomes the
/// inline table `record`, in the place of the key if it was there, else last.
#[verifier::external_body]
fn put_record(t: &mut Table, key: &str, record: InlineTable)
    ensures
        replaces_entry(Some(*old(t)), *final(t), key@),
        table_implicit(*final(t)) == table_implicit(*old(t)),
        table_items(*final(t)).contains_key(key@),
        item_record(table_items(*final(t))[key@]) == Some(record),
{
    t[key] = Item::Value(toml_edit::Value::InlineTable(record));
}

/// Relies on toml_edit's `InlineTable::new`: no fields.
#[verifier::external_body]
fn new_record() -> (r: InlineTable)
    ensures
        record_fields(r).len() == 0,
{
    InlineTable::new()
}

/// Relies on toml_edit's `InlineTable::insert`: a field that is not there yet goes last.
#[verifier::external_body]
fn record_insert(r: &mut InlineTable, key: &str, value: &str)
    requires
        forall|j: int| 0 <= j < record_fields(*old(r)).len() ==> #[trigger] record_fields(*old(r))[j].0 != key@,
    ensures
        record_fields(*final(r)) == record_fields(*old(r)).push((key@, value@)),
{
    r.insert(key, toml_edit::Value::from(value));
}

/// The fields of an override record: the local path, then the package name.
pub open spec fn override_fields(path: Seq<char>, package: Seq<char>) -> Seq<(Seq<char>, Seq<char>)> {
    seq![("path"@, path), ("package"@, package)]
}

/// The override table `patch.crates-io` cannot be reached: an entry on its
/// path holds something other than a table.
pub open spec fn patch_blocked(root: Table) -> bool {
    ||| blocks_table(root, "patch"@)
    ||| match entry_table(root, "patch"@) {
        Some(p) => blocks_table(p, "crates-io"@),
        None => false,
    }
}

/// Whether a table on the override path is implicit once the path exists: a
/// table that was there keeps its flag, one that had to be created is implicit.
pub open spec fn implicit_after(old: Option<Table>) -> bool {
    match old {
        Some(t) => table_implicit(t),
        None => true,
    }
}

/// `new` is `old` with the override for `name` installed: `patch` and
/// `patch.crates-io` exist as tables, each keeping its implicit flag when it
/// was there and implicit when it was created; the entry `name` of the latter
/// is the record `{ path = dir, package = name }`; and at each of the three
/// levels every other entry and the order of the keys are as they were.
pub open spec fn patch_installed(old: Table, new: Table, name: Seq<char>, dir: Seq<char>) -> bool {
    let old_patch = entry_table(old, "patch"@);
    let old_registry = child_of(old_patch, "crates-io"@);
    &&& replaces_entry(Some(old), new, "patch"@)
    &&& table_implicit(new) == table_implicit(old)
    &&& match entry_table(new, "patch"@) {
        Some(p) => {
            &&& replaces_entry(old_patch, p, "crates-io"@)
            &&& table_implicit(p) == implicit_after(old_patch)
            &&& match entry_table(p, "crates-io"@) {
                Some(c) => {
                    &&& replaces_entry(old_registry, c, name)
                    &&& table_implicit(c) == implicit_after(old_registry)
                    &&& match item_record(table_items(c)[name]) {
                        Some(rec) => record_fields(rec) == override_fields(dir, name),
                        None => false,
                    }
                },
                None => false,
            }
        },
        None => false,
    }
}

/// The manifest document held in `text`, with its formatting; `ManifestParseError`
/// when the text is not a TOML document.
pub fn parse_manifest(text: &str) -> (r: Result<Document, ForkError>)
    ensures
        r is Ok <==> is_toml_document(text@),
        r matches Ok(d) ==> document_root(d) == parsed_root(text@),
        r is Err ==> r matches Err(ForkError::ManifestParseError),
{
    match parse_document(text) {
        Ok(doc) => Ok(doc),
        Err(_) => Err(ForkError::ManifestParseError),
    }
}

/// A copy of the table under `key`, or, when there is none, a new table marked
/// implicit, so that it gets no header of its own while it holds no values.
fn get_or_create_table(t: &Table, key: &str) -> (r: Result<Table, ForkError>)
    ensures
        match r {
            Ok(c) => {
                &&& !blocks_table(*t, key@)
                &&& table_implicit(c) == implicit_after(entry_table(*t, key@))
                &&& table_keys(c) == keys_of(entry_table(*t, key@))
                &&& table_items(c) == items_of(entry_table(*t, key@))
            },
            Err(e) => blocks_table(*t, key@) && e == ForkError::ManifestParseError,
        },
{
    match lookup_table(t, key) {
        TableLookup::Absent => {
            let mut child = new_table();
            assert(table_items(child) =~= items_of(entry_table(*t, key@)));
            set_implicit(&mut child, true);
            Ok(child)
        },
        TableLookup::Found(c) => Ok(c),
        TableLookup::NotATable => Err(ForkError::ManifestParseError),
    }
}

/// Installs in the manifest's root table the override
/// `patch.crates-io.<package_name> = { path = <patch_dir>, package = <package_name> }`,
/// replacing an earlier override of the same name and leaving every other entry
/// where and as it was.  Fails, changing nothing, when an entry on the path
/// `patch.crates-io` is not a table.
pub fn manifest_insert_patch(root: &mut Table, package_name: &str, patch_dir: &str) -> (r: Result<(), ForkError>)
    ensures
        r is Err <==> patch_blocked(*old(root)),
        r matches Err(e) ==> e == ForkError::ManifestParseError && *final(root) == *old(root),
        r is Ok ==> patch_installed(*old(root), *final(root), package_name@, patch_dir@),
{
    let mut patch = match get_or_create_table(root, "patch") {
        Ok(p) => p,
        Err(e) => {
            return Err(e);
        },
    };
    let mut registry = match get_or_create_table(&patch, "crates-io") {
        Ok(c) => c,
        Err(e) => {
            return Err(e);
        },
    };
    let mut record = new_record();
    record_insert(&mut record, "path", patch_dir);
    proof {
        reveal_strlit("path");
        reveal_strlit("package");
        assert("path"@.len() != "package"@.len());
    }
    record_insert(&mut record, "package", package_name);
    assert(record_fields(record) =~= override_fields(patch_dir@, package_name@));
    put_record(&mut registry, package_name, record);
    let ghost registry1 = registry;
    put_table(&mut patch, "crates-io", registry);
    let ghost patch1 = patch;
    put_table(root, "patch", patch);
    assert(entry_table(*root, "patch"@) == Some(patch1));
    assert(entry_table(patch1, "crates-io"@) == Some(registry1));
    Ok(())
}

/// The override table `patch.crates-io` of a document, if it is there.
pub open spec fn registry_table(root: Table) -> Option<Table> {
    child_of(entry_table(root, "patch"@), "crates-io"@)
}

/// Installing an override changes only the override entry: every other entry
/// of the root, of `patch` and of `patch.crates-io` is the same item as before,
/// no key moves, only the keys on the way to the entry may be added, last, and
/// the tables `patch` and `patch.crates-io` keep their implicit flags when they
/// were there.
pub proof fn lemma_patch_changes_only_override(old: Table, new: Table, name: Seq<char>, dir: Seq<char>)
    requires
        patch_installed(old, new, name, dir),
    ensures
        forall|k: Seq<char>| k != "patch"@ && #[trigger] table_items(old).contains_key(k)
            ==> table_items(new).contains_key(k) && table_items(new)[k] == table_items(old)[k],
        table_keys(new) == keys_after_set(table_keys(old), "patch"@),
        entry_table(new, "patch"@) is Some,
        forall|k: Seq<char>| k != "crates-io"@ && #[trigger] items_of(entry_table(old, "patch"@)).contains_key(k)
            ==> table_items(entry_table(new, "patch"@)->0)[k] == items_of(entry_table(old, "patch"@))[k],
        table_keys(entry_table(new, "patch"@)->0) == keys_after_set(keys_of(entry_table(old, "patch"@)), "crates-io"@),
        registry_table(new) is Some,
        forall|k: Seq<char>| k != name && #[trigger] items_of(registry_table(old)).contains_key(k)
            ==> table_items(registry_table(new)->0)[k] == items_of(registry_table(old))[k],
        table_keys(registry_table(new)->0) == keys_after_set(keys_of(registry_table(old)), name),
        table_implicit(new) == table_implicit(old),
        entry_table(old, "patch"@) is Some ==> table_implicit(entry_table(new, "patch"@)->0)
            == table_implicit(entry_table(old, "patch"@)->0),
        registry_table(old) is Some ==> table_implicit(registry_table(new)->0)
            == table_implicit(registry_table(old)->0),
{
}

/// Installing overrides of the same name twice leaves one entry for it, which
/// holds the second path: the second installation adds no key to `patch.crates-io`.
pub proof fn lemma_patch_twice_keeps_one_entry(
    d0: Table,
    d1: Table,
    d2: Table,
    name: Seq<char>,
    first: Seq<char>,
    second: Seq<char>,
)
    requires
        patch_installed(d0, d1, name, first),
        patch_installed(d1, d2, name, second),
    ensures
        registry_table(d1) is Some,
        registry_table(d2) is Some,
        table_keys(registry_table(d2)->0) == table_keys(registry_table(d1)->0),
        table_items(registry_table(d2)->0).dom() == table_items(registry_table(d1)->0).dom(),
        item_record(table_items(registry_table(d2)->0)[name]) is Some,
        record_fields(item_record(table_items(registry_table(d2)->0)[name])->0) == override_fields(second, name),
{
    let c1 = registry_table(d1)->0;
    assert(table_keys(c1).contains(name)) by {
        let ks = keys_of(registry_table(d0));
        if ks.contains(name) {
        } else {
            assert(ks.push(name)[ks.len() as int] == name);
        }
    }
    assert(table_items(c1).dom().insert(name) =~= table_items(c1).dom());
}

} // verus!
