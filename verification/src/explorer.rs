//! The file explorer: how a listing of a directory is written out, and how
//! the schema of the file listing template takes the listing in.

use vstd::prelude::*;
use crate::json::{models, JsonModel, JsonValue};
use crate::order::{sort, sorted, views_of, Ranked};
use crate::text::{append, comes_before, lemma_text_lt_order, owned, same_text, text_lt};

verus! {

/// One entry of a directory.
#[derive(Debug, Clone, PartialEq, Eq)]
pub struct ListingEntry {
    pub name: String,
    pub is_dir: bool,
}

/// The mathematical value of a [`ListingEntry`].
pub struct EntryModel {
    pub name: Seq<char>,
    pub is_dir: bool,
}

impl View for ListingEntry {
    type V = EntryModel;

    open spec fn view(&self) -> EntryModel {
        EntryModel { name: self.name@, is_dir: self.is_dir }
    }
}

impl Ranked for ListingEntry {
    /// Entries are listed by name.
    open spec fn before(a: EntryModel, b: EntryModel) -> bool {
        text_lt(a.name, b.name)
    }

    proof fn before_is_strict_weak_order(a: EntryModel, b: EntryModel, c: EntryModel) {
        lemma_text_lt_order(a.name, b.name, c.name);
    }

    fn goes_before(&self, other: &Self) -> (r: bool) {
        comes_before(self.name.as_str(), other.name.as_str())
    }
}

/// The line of an entry: a branch mark, which differs for the last entry,
/// the name, and a slash behind the name of a directory.
pub open spec fn entry_line(entry: EntryModel, last: bool) -> Seq<char> {
    (if last {
        "└── "@
    } else {
        "├── "@
    }) + entry.name + (if entry.is_dir {
        "/"@
    } else {
        Seq::empty()
    })
}

/// The lines of the first `n` entries of a list, each after a line break.
pub open spec fn entry_lines(entries: Seq<EntryModel>, n: int) -> Seq<char>
    decreases n,
{
    if n <= 0 {
        Seq::empty()
    } else {
        entry_lines(entries, n - 1) + "\n"@ + entry_line(entries[n - 1], n == entries.len())
    }
}

/// The listing of a directory: the name of the directory with a slash, and
/// below it one line for each entry, the entries sorted by name.
pub open spec fn listing_of(root_name: Seq<char>, entries: Seq<EntryModel>) -> Seq<char> {
    let listed = sorted::<ListingEntry>(entries);
    root_name + "/"@ + entry_lines(listed, listed.len() as int)
}

/// The listing of a directory that could not be read.
pub open spec fn failed_listing_of(root_name: Seq<char>, error: Seq<char>) -> Seq<char> {
    root_name + "/\n└── <failed to read root: "@ + error + ">"@
}

/// Writes out the listing of a directory.
pub fn format_listing(root_name: &str, entries: Vec<ListingEntry>) -> (out: String)
    ensures
        out@ == listing_of(root_name@, views_of(entries@)),
{
    let listed = sort(entries);
    let ghost lines = views_of(listed@);
    let mut out = owned(root_name);
    append(&mut out, "/");
    let mut i: usize = 0;
    assert(root_name@ + "/"@ + Seq::<char>::empty() =~= root_name@ + "/"@);
    while i < listed.len()
        invariant
            i <= listed@.len(),
            lines == views_of(listed@),
            out@ == root_name@ + "/"@ + entry_lines(lines, i as int),
        decreases listed@.len() - i,
    {
        let entry = &listed[i];
        let ghost before = out@;
        append(&mut out, "\n");
        if i + 1 == listed.len() {
            append(&mut out, "└── ");
        } else {
            append(&mut out, "├── ");
        }
        append(&mut out, entry.name.as_str());
        if entry.is_dir {
            append(&mut out, "/");
        }
        proof {
            assert(lines[i as int] == entry@);
            let line = entry_line(entry@, i + 1 == lines.len());
            assert(out@ =~= before + "\n"@ + line);
            assert(out@ =~= root_name@ + "/"@ + (entry_lines(lines, i as int) + "\n"@ + line));
        }
        i += 1;
    }
    out
}

/// Writes out the listing of a directory that could not be read.
pub fn format_failed_listing(root_name: &str, error: &str) -> (out: String)
    ensures
        out@ == failed_listing_of(root_name@, error@),
{
    let mut out = owned(root_name);
    append(&mut out, "/\n└── <failed to read root: ");
    append(&mut out, error);
    append(&mut out, ">");
    out
}

/// The id of the template that lists files.
pub open spec fn file_listing_template() -> Seq<char> {
    "builtin.file_listing.default"@
}

/// The position of the last member with the given key.
pub open spec fn last_position(members: Seq<(Seq<char>, JsonModel)>, key: Seq<char>) -> Option<int>
    decreases members.len(),
{
    if members.len() == 0 {
        None
    } else if members.last().0 == key {
        Some(members.len() - 1)
    } else {
        last_position(members.drop_last(), key)
    }
}

/// `v` with the value of its member `key` replaced, where `v` is an
/// object that has such a member; else `v` as it is.
pub open spec fn with_member(v: JsonModel, key: Seq<char>, value: JsonModel) -> JsonModel {
    match v {
        JsonModel::Object(members) => match last_position(members, key) {
            Some(i) => JsonModel::Object(members.update(i, (members[i].0, value))),
            None => v,
        },
        _ => v,
    }
}

/// The text that introduces the explorer for a root.
pub open spec fn explorer_intro(root_label: Seq<char>) -> Seq<char> {
    "### File Explorer\nRoot: `"@ + root_label
        + "`\nPersistent session block. Use focus/minimize/close controls."@
}

/// The component is one of the two parts of the explorer.
pub open spec fn is_explorer_part(c: JsonModel) -> bool {
    c.text_member("id"@) == Some("explorer_intro"@) || c.text_member("id"@) == Some(
        "workspace_tree"@,
    )
}

/// A part of the explorer with the listing or the introduction put in: the
/// tree takes the listing as its code, the introduction names the root.
pub open spec fn filled_part(c: JsonModel, listing: Seq<char>, root_label: Seq<char>) -> JsonModel {
    let with_code = if c.text_member("id"@) == Some("workspace_tree"@) {
        with_member(c, "code"@, JsonModel::Text(listing))
    } else {
        c
    };
    if c.text_member("id"@) == Some("explorer_intro"@) {
        with_member(with_code, "text"@, JsonModel::Text(explorer_intro(root_label)))
    } else {
        with_code
    }
}

/// The parts of the explorer among the components, filled in; every other
/// component is left out.
pub open spec fn filled_parts(
    components: Seq<JsonModel>,
    listing: Seq<char>,
    root_label: Seq<char>,
) -> Seq<JsonModel>
    decreases components.len(),
{
    if components.len() == 0 {
        Seq::empty()
    } else if is_explorer_part(components.last()) {
        filled_parts(components.drop_last(), listing, root_label).push(
            filled_part(components.last(), listing, root_label),
        )
    } else {
        filled_parts(components.drop_last(), listing, root_label)
    }
}

/// The schema as it is rendered: that of the file listing template with
/// the listing put in, any other schema as it is.
pub open spec fn materialized(
    template_id: Seq<char>,
    schema: JsonModel,
    listing: Seq<char>,
    root_label: Seq<char>,
) -> JsonModel {
    if template_id != file_listing_template() {
        schema
    } else {
        match schema.member("components"@) {
            Some(JsonModel::Array(components)) => with_member(
                schema,
                "components"@,
                JsonModel::Array(filled_parts(components, listing, root_label)),
            ),
            _ => schema,
        }
    }
}

/// Whether rendering the template needs a listing of files.
pub fn needs_file_listing(template_id: &str) -> (r: bool)
    ensures
        r == (template_id@ == file_listing_template()),
{
    same_text(template_id, "builtin.file_listing.default")
}

/// The position of the last member with the given key.
fn find_member(members: &Vec<(String, JsonValue)>, key: &str) -> (r: Option<usize>)
    ensures
        match r {
            Some(i) => last_position(member_models(members@), key@) == Some(i as int) && i
                < members@.len(),
            None => last_position(member_models(members@), key@).is_none(),
        },
{
    let ghost all = member_models(members@);
    let mut i: usize = members.len();
    assert(all.take(i as int) =~= all);
    while i > 0
        invariant
            i <= members@.len(),
            all == member_models(members@),
            last_position(all, key@) == last_position(all.take(i as int), key@),
        decreases i,
    {
        i -= 1;
        proof {
            assert(all.take(i + 1).drop_last() =~= all.take(i as int));
            assert(all.take(i + 1).last() == all[i as int]);
        }
        if same_text(members[i].0.as_str(), key) {
            return Some(i);
        }
    }
    None
}

/// The mathematical values of a list of members.
pub open spec fn member_models(members: Seq<(String, JsonValue)>) -> Seq<(Seq<char>, JsonModel)> {
    Seq::new(members.len(), |i: int| (members[i].0@, members[i].1@))
}

/// A copy of `v` with the value of its member `key` replaced, where `v` is
/// an object that has such a member; else a copy of `v`.
pub fn replace_member(v: &JsonValue, key: &str, value: JsonValue) -> (r: JsonValue)
    ensures
        r@ == with_member(v@, key@, value@),
{
    match v {
        JsonValue::Object(members) => {
            assert(v@->Object_0 =~= member_models(members@));
            let at = match find_member(members, key) {
                Some(at) => at,
                None => {
                    return v.duplicate();
                },
            };
            let ghost wanted = member_models(members@).update(
                at as int,
                (members@[at as int].0@, value@),
            );
            let mut out: Vec<(String, JsonValue)> = Vec::new();
            let mut i: usize = 0;
            while i < at
                invariant
                    i <= at < members@.len(),
                    out@.len() == i,
                    forall|k: int|
                        0 <= k < i ==> (#[trigger] out@[k]).0@ == members@[k].0@ && out@[k].1@
                            == members@[k].1@,
                decreases at - i,
            {
                out.push((members[i].0.clone(), members[i].1.duplicate()));
                i += 1;
            }
            out.push((members[at].0.clone(), value));
            let count: usize = members.len();
            assert(at < count);
            i = at + 1;
            while i < members.len()
                invariant
                    at < i <= members@.len(),
                    out@.len() == i,
                    out@[at as int].0@ == members@[at as int].0@,
                    out@[at as int].1@ == value@,
                    forall|k: int|
                        0 <= k < i && k != at ==> (#[trigger] out@[k]).0@ == members@[k].0@
                            && out@[k].1@ == members@[k].1@,
                decreases members@.len() - i,
            {
                out.push((members[i].0.clone(), members[i].1.duplicate()));
                i += 1;
            }
            let r = JsonValue::Object(out);
            assert(r@->Object_0 =~= wanted);
            r
        },
        _ => v.duplicate(),
    }
}

/// Whether the text member `id` of a component is the given id.
fn has_id(component: &JsonValue, id: &str) -> (r: bool)
    ensures
        r == (component@.text_member("id"@) == Some(id@)),
{
    match component.get("id") {
        Some(value) => match value.as_text() {
            Some(s) => same_text(s, id),
            None => false,
        },
        None => false,
    }
}

/// The schema as it is rendered: that of the file listing template with
/// the listing and the label of its root put in, any other schema as it
/// is.
pub fn materialize_template_schema(
    template_id: &str,
    schema: &JsonValue,
    listing: &str,
    root_label: &str,
) -> (r: JsonValue)
    ensures
        r@ == materialized(template_id@, schema@, listing@, root_label@),
{
    if !needs_file_listing(template_id) {
        return schema.duplicate();
    }
    let components = match schema.get("components") {
        Some(JsonValue::Array(components)) => components,
        _ => {
            return schema.duplicate();
        },
    };
    let ghost all = models(components@);
    assert(JsonValue::Array(*components)@->Array_0 =~= all);
    let mut intro = owned("### File Explorer\nRoot: `");
    append(&mut intro, root_label);
    append(&mut intro, "`\nPersistent session block. Use focus/minimize/close controls.");
    let mut parts: Vec<JsonValue> = Vec::new();
    let mut i: usize = 0;
    assert(all.take(0) =~= Seq::<JsonModel>::empty());
    assert(models(parts@) =~= Seq::<JsonModel>::empty());
    while i < components.len()
        invariant
            i <= components@.len(),
            all == models(components@),
            intro@ == explorer_intro(root_label@),
            models(parts@) == filled_parts(all.take(i as int), listing@, root_label@),
        decreases components@.len() - i,
    {
        let component = &components[i];
        proof {
            assert(all.take(i + 1).drop_last() =~= all.take(i as int));
            assert(all.take(i + 1).last() == component@);
        }
        let is_tree = has_id(component, "workspace_tree");
        let is_intro = has_id(component, "explorer_intro");
        if is_tree || is_intro {
            let with_code = if is_tree {
                replace_member(component, "code", JsonValue::text(listing))
            } else {
                component.duplicate()
            };
            let filled = if is_intro {
                replace_member(&with_code, "text", JsonValue::text(intro.as_str()))
            } else {
                with_code
            };
            let ghost before = models(parts@);
            parts.push(filled);
            assert(models(parts@) =~= before.push(filled@));
        }
        i += 1;
    }
    assert(all.take(components@.len() as int) =~= all);
    let filled = JsonValue::Array(parts);
    assert(filled@ == JsonModel::Array(filled_parts(all, listing@, root_label@))) by {
        assert(filled@->Array_0 =~= models(parts@));
    }
    replace_member(schema, "components", filled)
}

} // verus!
