//! The list of a crate's dependencies, read from its manifest.

use vstd::prelude::*;
use crate::order::{sort_strings, sorted_of};
use crate::text::{
    chars_eq, chars_of, extend_chars, extend_str, join, join_chars, string_of,
};

verus! {

/// A TOML value.
#[verifier::external_type_specification]
#[verifier::external_body]
pub struct ExTomlValue(toml::Value);

/// A TOML table (`toml::Table` is `Map<String, Value>`).
#[verifier::external_type_specification]
#[verifier::external_body]
#[verifier::reject_recursive_types(K)]
#[verifier::reject_recursive_types(V)]
pub struct ExTomlMap<K, V>(toml::map::Map<K, V>);

/// What a TOML value holds, as far as the dependency list reads it.
pub enum TomlNode {
    Str(Seq<char>),
    Array(Seq<TomlNode>),
    Table(Seq<(Seq<char>, TomlNode)>),
    Other,
}

/// The entries of a TOML table, in the order its iterator yields them.
pub uninterp spec fn spec_table_entries(t: toml::map::Map<String, toml::Value>) -> Seq<
    (Seq<char>, TomlNode),
>;

/// What a TOML value holds.
pub uninterp spec fn spec_value_node(v: toml::Value) -> TomlNode;

/// The entries of the table that parsing a text as a TOML document gives,
/// or nothing when the text is not a TOML document.
pub uninterp spec fn spec_toml_document(content: Seq<char>) -> Option<
    Seq<(Seq<char>, TomlNode)>,
>;

/// The value of the first entry named `key`.
pub open spec fn lookup(entries: Seq<(Seq<char>, TomlNode)>, key: Seq<char>) -> Option<TomlNode>
    decreases entries.len(),
{
    if entries.len() == 0 {
        None
    } else if entries[0].0 == key {
        Some(entries[0].1)
    } else {
        lookup(entries.drop_first(), key)
    }
}

/// Calls `str::parse::<toml::Table>` (`toml::from_str`) and keeps the table
/// when it succeeds. The contract claims that whether it succeeds, and the
/// table's entries, are a function of the text alone, named
/// [`spec_toml_document`].
#[verifier::external_body]
fn parse_toml_table(content: &str) -> (res: Option<toml::Table>)
    ensures
        match res {
            Some(t) => spec_toml_document(content@) == Some(spec_table_entries(t)),
            None => spec_toml_document(content@) is None,
        },
{
    content.parse::<toml::Table>().ok()
}

/// Calls `toml::map::Map::get`: the value of the entry named `key`, if the
/// table has one.
#[verifier::external_body]
fn table_get<'a>(t: &'a toml::Table, key: &str) -> (res: Option<&'a toml::Value>)
    ensures
        match res {
            Some(v) => lookup(spec_table_entries(*t), key@) == Some(spec_value_node(*v)),
            None => lookup(spec_table_entries(*t), key@) is None,
        },
{
    t.get(key)
}

/// Calls `toml::Value::as_table`: the table a table value holds.
#[verifier::external_body]
fn value_as_table(v: &toml::Value) -> (res: Option<&toml::Table>)
    ensures
        match spec_value_node(*v) {
            TomlNode::Table(entries) => res matches Some(t) && spec_table_entries(*t) == entries,
            _ => res is None,
        },
{
    v.as_table()
}

/// Calls `toml::map::Map::len`: the number of entries.
#[verifier::external_body]
fn table_len(t: &toml::Table) -> (res: usize)
    ensures
        res == spec_table_entries(*t).len(),
{
    t.len()
}

/// Calls `toml::map::Map::iter` and takes its `i`-th entry.
#[verifier::external_body]
fn table_entry<'a>(t: &'a toml::Table, i: usize) -> (res: (&'a String, &'a toml::Value))
    requires
        i < spec_table_entries(*t).len(),
    ensures
        spec_table_entries(*t)[i as int] == (res.0@, spec_value_node(*res.1)),
{
    t.iter().nth(i).unwrap()
}

/// Calls `toml::Value::as_array`: the items an array value holds.
#[verifier::external_body]
fn value_as_array(v: &toml::Value) -> (res: Option<&Vec<toml::Value>>)
    ensures
        match spec_value_node(*v) {
            TomlNode::Array(items) => res matches Some(a) && a@.len() == items.len() && (forall|
                i: int,
            | 0 <= i < items.len() ==> spec_value_node(#[trigger] a@[i]) == items[i]),
            _ => res is None,
        },
{
    v.as_array()
}

/// Calls `toml::Value::as_str`: the text a string value holds.
#[verifier::external_body]
fn value_as_str(v: &toml::Value) -> (res: Option<&str>)
    ensures
        match spec_value_node(*v) {
            TomlNode::Str(s) => res matches Some(x) && x@ == s,
            _ => res is None,
        },
{
    v.as_str()
}

/// The string items of an array, in order.
pub open spec fn string_items(items: Seq<TomlNode>) -> Seq<Seq<char>>
    decreases items.len(),
{
    if items.len() == 0 {
        Seq::empty()
    } else {
        let p = string_items(items.drop_last());
        match items.last() {
            TomlNode::Str(s) => p.push(s),
            _ => p,
        }
    }
}

/// The features of a dependency written as a table with a `features`
/// array: its string items joined by `, `.
pub open spec fn features_text(dep: TomlNode) -> Option<Seq<char>> {
    match dep {
        TomlNode::Table(entries) => match lookup(entries, "features"@) {
            Some(TomlNode::Array(items)) => Some(join(string_items(items), ", "@)),
            _ => None,
        },
        _ => None,
    }
}

/// How one dependency is listed: its name, with its features when it
/// names any.
pub open spec fn dep_entry(name: Seq<char>, dep: TomlNode) -> Seq<char> {
    match features_text(dep) {
        Some(f) => if f.len() > 0 {
            name + " (features: "@ + f + ")"@
        } else {
            name
        },
        None => name,
    }
}

/// The dependencies of the table `key` of the manifest, as (name, entry).
pub open spec fn section_entries(doc: Seq<(Seq<char>, TomlNode)>, key: Seq<char>) -> Seq<
    (Seq<char>, Seq<char>),
> {
    match lookup(doc, key) {
        Some(TomlNode::Table(e)) => Seq::new(e.len(), |i: int| (e[i].0, dep_entry(e[i].0, e[i].1))),
        _ => Seq::empty(),
    }
}

/// The dependencies kept, in order, as (names, entries): a dependency
/// whose name is already kept is dropped, so each name is listed once, with
/// its first entry.
pub open spec fn kept(c: Seq<(Seq<char>, Seq<char>)>) -> (Seq<Seq<char>>, Seq<Seq<char>>)
    decreases c.len(),
{
    if c.len() == 0 {
        (Seq::empty(), Seq::empty())
    } else {
        let (names, entries) = kept(c.drop_last());
        if names.contains(c.last().0) {
            (names, entries)
        } else {
            (names.push(c.last().0), entries.push(c.last().1))
        }
    }
}

/// Both sections are read alike: two keys that name the same table give
/// the same entries, so a dev-dependency is listed exactly as the same
/// dependency would be under `[dependencies]`.
pub proof fn law_sections_read_alike(doc: Seq<(Seq<char>, TomlNode)>, k1: Seq<char>, k2: Seq<char>)
    requires
        lookup(doc, k1) == lookup(doc, k2),
    ensures
        section_entries(doc, k1) == section_entries(doc, k2),
{
}

/// A dependency written as a table with a non-empty `features` array is
/// listed with its features, in whichever section it stands; any other is
/// listed by its name alone.
pub proof fn law_features_listed(doc: Seq<(Seq<char>, TomlNode)>, key: Seq<char>, i: int)
    requires
        lookup(doc, key) matches Some(TomlNode::Table(e)) && 0 <= i < e.len(),
    ensures
        ({
            let e = lookup(doc, key).unwrap()->Table_0;
            let ft = features_text(e[i].1);
            &&& section_entries(doc, key).len() == e.len()
            &&& section_entries(doc, key)[i].0 == e[i].0
            &&& ft is Some && ft.unwrap().len() > 0 ==> section_entries(doc, key)[i].1 == e[i].0
                + " (features: "@ + ft.unwrap() + ")"@
            &&& !(ft is Some && ft.unwrap().len() > 0) ==> section_entries(doc, key)[i].1 == e[i].0
        }),
{
}

/// Each dependency is listed once: the names kept are distinct, every
/// name of the input is among them, and each has one entry.
pub proof fn law_each_dependency_once(c: Seq<(Seq<char>, Seq<char>)>)
    ensures
        kept(c).0.len() == kept(c).1.len(),
        forall|i: int, j: int|
            0 <= i < j < kept(c).0.len() ==> kept(c).0[i] != kept(c).0[j],
        forall|k: int| 0 <= k < c.len() ==> kept(c).0.contains(#[trigger] c[k].0),
    decreases c.len(),
{
    if c.len() > 0 {
        let d = c.drop_last();
        law_each_dependency_once(d);
        let names = kept(d).0;
        assert forall|k: int| 0 <= k < c.len() implies kept(c).0.contains(#[trigger] c[k].0) by {
            if k < d.len() {
                assert(d[k] == c[k]);
                let w = choose|m: int| 0 <= m < names.len() && names[m] == d[k].0;
                if !names.contains(c.last().0) {
                    assert(names.push(c.last().0)[w] == c[k].0);
                }
            } else {
                if !names.contains(c.last().0) {
                    assert(names.push(c.last().0)[names.len() as int] == c[k].0);
                }
            }
        }
    }
}

/// The entries of the dependencies kept.
pub open spec fn kept_entries(c: Seq<(Seq<char>, Seq<char>)>) -> Seq<Seq<char>> {
    kept(c).1
}

/// The dependency list of a manifest: the `dependencies` and then the
/// `dev-dependencies` entries that are kept, sorted, joined by `, `; empty
/// when the manifest is not TOML.
pub open spec fn listed_deps(content: Seq<char>) -> Seq<char> {
    match spec_toml_document(content) {
        None => Seq::empty(),
        Some(doc) => join(
            sorted_of(
                kept_entries(
                    section_entries(doc, "dependencies"@) + section_entries(
                        doc,
                        "dev-dependencies"@,
                    ),
                ),
            ),
            ", "@,
        ),
    }
}

fn features_of(dep: &toml::Value) -> (res: Option<Vec<char>>)
    ensures
        match res {
            Some(f) => features_text(spec_value_node(*dep)) == Some(f@),
            None => features_text(spec_value_node(*dep)) is None,
        },
{
    let t = match value_as_table(dep) {
        Some(t) => t,
        None => return None,
    };
    let f = match table_get(t, "features") {
        Some(f) => f,
        None => return None,
    };
    let arr = match value_as_array(f) {
        Some(a) => a,
        None => return None,
    };
    let ghost items = match spec_value_node(*f) {
        TomlNode::Array(items) => items,
        _ => Seq::empty(),
    };
    let mut strs: Vec<Vec<char>> = Vec::new();
    let mut i: usize = 0;
    assert(items.take(0) =~= Seq::<TomlNode>::empty());
    assert(strs.deep_view() =~= Seq::<Seq<char>>::empty());
    while i < arr.len()
        invariant
            i <= arr.len(),
            arr@.len() == items.len(),
            forall|k: int| 0 <= k < items.len() ==> spec_value_node(#[trigger] arr@[k]) == items[k],
            strs.deep_view() == string_items(items.take(i as int)),
        decreases arr.len() - i,
    {
        assert(items.take(i + 1).drop_last() =~= items.take(i as int));
        assert(items.take(i + 1).last() == items[i as int]);
        assert(spec_value_node(arr@[i as int]) == items[i as int]);
        if let Some(s) = value_as_str(&arr[i]) {
            let cs = chars_of(s);
            let ghost sb = strs@;
            let ghost sd = strs.deep_view();
            strs.push(cs);
            assert(strs.deep_view() =~= sd.push(s@)) by {
                assert forall|k: int| 0 <= k < strs@.len() implies strs.deep_view()[k] == sd.push(
                    s@,
                )[k] by {
                    if k < sb.len() {
                        assert(strs@[k] == sb[k]);
                    }
                }
            }
        }
        i += 1;
    }
    assert(items.take(arr.len() as int) =~= items);
    let sep = chars_of(", ");
    Some(join_chars(&strs, &sep))
}

fn entry_of(name: &String, dep: &toml::Value) -> (res: Vec<char>)
    ensures
        res@ == dep_entry(name@, spec_value_node(*dep)),
{
    let mut e = chars_of(name.as_str());
    match features_of(dep) {
        Some(f) => {
            if f.len() > 0 {
                extend_str(&mut e, " (features: ");
                extend_chars(&mut e, &f);
                extend_str(&mut e, ")");
            }
        },
        None => {},
    }
    e
}

/// Adds the dependencies of the manifest table `key` to `names` and
/// `entries`, unless a dependency of the same name is already kept.
fn keep_section(
    doc: &toml::Table,
    key: &str,
    names: &mut Vec<Vec<char>>,
    entries: &mut Vec<Vec<char>>,
    Ghost(before): Ghost<Seq<(Seq<char>, Seq<char>)>>,
)
    requires
        (old(names).deep_view(), old(entries).deep_view()) == kept(before),
    ensures
        (final(names).deep_view(), final(entries).deep_view()) == kept(
            before + section_entries(spec_table_entries(*doc), key@),
        ),
{
    let ghost sec = section_entries(spec_table_entries(*doc), key@);
    let v = match table_get(doc, key) {
        Some(v) => v,
        None => {
            assert(before + sec =~= before);
            return;
        },
    };
    let t = match value_as_table(v) {
        Some(t) => t,
        None => {
            assert(before + sec =~= before);
            return;
        },
    };
    let n = table_len(t);
    let mut i: usize = 0;
    assert(before + sec.take(0) =~= before);
    while i < n
        invariant
            n == spec_table_entries(*t).len(),
            i <= n,
            sec.len() == n,
            forall|k: int|
                0 <= k < n ==> #[trigger] sec[k] == (
                spec_table_entries(*t)[k].0,
                dep_entry(spec_table_entries(*t)[k].0, spec_table_entries(*t)[k].1),
                ),
            (names.deep_view(), entries.deep_view()) == kept(before + sec.take(i as int)),
        decreases n - i,
    {
        let (name, dep) = table_entry(t, i);
        let entry = entry_of(name, dep);
        let ghost c = before + sec.take(i + 1);
        assert(c.drop_last() =~= before + sec.take(i as int));
        assert(c.last() == sec[i as int]);
        assert(sec[i as int] == (name@, entry@));
        let nm = chars_of(name.as_str());
        let ghost nd = names.deep_view();
        let mut found = false;
        let mut j: usize = 0;
        while j < names.len()
            invariant
                j <= names.len(),
                nd == names.deep_view(),
                found == exists|m: int| 0 <= m < j && nd[m] == nm@,
            decreases names.len() - j,
        {
            assert(nd[j as int] == names@[j as int]@);
            if chars_eq(&names[j], &nm) {
                found = true;
            }
            j += 1;
        }
        assert(found == nd.contains(nm@));
        if !found {
            let ghost nb = names@;
            names.push(nm);
            assert(names.deep_view() =~= nd.push(name@)) by {
                assert forall|m: int| 0 <= m < names@.len() implies names.deep_view()[m] == nd.push(
                    name@,
                )[m] by {
                    if m < nb.len() {
                        assert(names@[m] == nb[m]);
                    }
                }
            }
            let ghost kd = entries.deep_view();
            let ghost kb = entries@;
            entries.push(entry);
            assert(entries.deep_view() =~= kd.push(entry@)) by {
                assert forall|m: int| 0 <= m < entries@.len() implies entries.deep_view()[m]
                    == kd.push(entry@)[m] by {
                    if m < kb.len() {
                        assert(entries@[m] == kb[m]);
                    }
                }
            }
        }
        i += 1;
    }
    assert(sec.take(n as int) =~= sec);
}

/// Lists the dependencies (with their features) that a crate's manifest
/// text declares, for the system prompt.
pub fn collect_deps(manifest: &str) -> (res: String)
    ensures
        res@ == listed_deps(manifest@),
{
    let doc = match parse_toml_table(manifest) {
        Some(d) => d,
        None => return String::new(),
    };
    let mut names: Vec<Vec<char>> = Vec::new();
    let mut kept: Vec<Vec<char>> = Vec::new();
    assert(names.deep_view() =~= Seq::<Seq<char>>::empty());
    assert(kept.deep_view() =~= Seq::<Seq<char>>::empty());
    keep_section(&doc, "dependencies", &mut names, &mut kept, Ghost(Seq::empty()));
    let ghost first = Seq::<(Seq<char>, Seq<char>)>::empty() + section_entries(
        spec_table_entries(doc),
        "dependencies"@,
    );
    keep_section(&doc, "dev-dependencies", &mut names, &mut kept, Ghost(first));
    assert(first + section_entries(spec_table_entries(doc), "dev-dependencies"@) =~= section_entries(
        spec_table_entries(doc),
        "dependencies"@,
    ) + section_entries(spec_table_entries(doc), "dev-dependencies"@));
    let sorted = sort_strings(kept);
    let sep = chars_of(", ");
    let joined = join_chars(&sorted, &sep);
    string_of(&joined)
}

} // verus!
