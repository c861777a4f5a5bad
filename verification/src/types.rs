//! The type names a signature mentions, and their definitions in the
//! crate's source files.

use vstd::prelude::*;
use quote::ToTokens;
use syn::Item;
use crate::text::{chars_of, chars_eq, join, join_chars, string_of};

verus! {

/// The primitive and standard-library type names that need no definition.
pub open spec fn is_builtin(n: Seq<char>) -> bool {
    ||| n == "bool"@ ||| n == "char"@ ||| n == "f32"@ ||| n == "f64"@
    ||| n == "i8"@ ||| n == "i16"@ ||| n == "i32"@ ||| n == "i64"@ ||| n == "i128"@
    ||| n == "isize"@ ||| n == "u8"@ ||| n == "u16"@ ||| n == "u32"@ ||| n == "u64"@
    ||| n == "u128"@ ||| n == "usize"@ ||| n == "str"@ ||| n == "String"@ ||| n == "Vec"@
    ||| n == "Option"@ ||| n == "Result"@ ||| n == "Box"@ ||| n == "Rc"@ ||| n == "Arc"@
    ||| n == "HashMap"@ ||| n == "HashSet"@ ||| n == "BTreeMap"@ ||| n == "BTreeSet"@
    ||| n == "Cow"@ ||| n == "Pin"@ ||| n == "PhantomData"@ ||| n == "Self"@
}

fn is_name(n: &Vec<char>, lit: &str) -> (res: bool)
    ensures
        res == (n@ == lit@),
{
    let l = chars_of(lit);
    chars_eq(n, &l)
}

/// Whether a path segment names a primitive or standard-library type.
pub fn is_builtin_type(name: &str) -> (res: bool)
    ensures
        res == is_builtin(name@),
{
    let n = chars_of(name);
    is_name(&n, "bool") || is_name(&n, "char") || is_name(&n, "f32") || is_name(&n, "f64")
        || is_name(&n, "i8") || is_name(&n, "i16") || is_name(&n, "i32") || is_name(&n, "i64")
        || is_name(&n, "i128") || is_name(&n, "isize") || is_name(&n, "u8") || is_name(&n, "u16")
        || is_name(&n, "u32") || is_name(&n, "u64") || is_name(&n, "u128") || is_name(&n, "usize")
        || is_name(&n, "str") || is_name(&n, "String") || is_name(&n, "Vec") || is_name(&n, "Option")
        || is_name(&n, "Result") || is_name(&n, "Box") || is_name(&n, "Rc") || is_name(&n, "Arc")
        || is_name(&n, "HashMap") || is_name(&n, "HashSet") || is_name(&n, "BTreeMap")
        || is_name(&n, "BTreeSet") || is_name(&n, "Cow") || is_name(&n, "Pin") || is_name(
        &n,
        "PhantomData",
    ) || is_name(&n, "Self")
}

/// Whether `v` holds a string equal to `n`.
pub fn contains_string(v: &Vec<String>, n: &String) -> (res: bool)
    ensures
        res == v.deep_view().contains(n@),
{
    let mut k: usize = 0;
    while k < v.len()
        invariant
            k <= v.len(),
            forall|m: int| 0 <= m < k ==> v@[m]@ != n@,
        decreases v.len() - k,
    {
        if v[k] == *n {
            assert(v.deep_view()[k as int] == n@);
            return true;
        }
        k += 1;
    }
    assert forall|m: int| 0 <= m < v.deep_view().len() implies v.deep_view()[m] != n@ by {
        assert(v.deep_view()[m] == v@[m]@);
    }
    false
}

/// Collects the names of the non-builtin types that a signature mentions.
pub struct TypeCollector {
    names: Vec<String>,
}

impl View for TypeCollector {
    type V = Seq<Seq<char>>;

    closed spec fn view(&self) -> Seq<Seq<char>> {
        self.names.deep_view()
    }
}

impl TypeCollector {
    #[verifier::type_invariant]
    closed spec fn well_formed(self) -> bool {
        &&& forall|i: int, j: int|
            0 <= i < j < self.names@.len() ==> self.names@[i]@ != self.names@[j]@
        &&& forall|i: int| 0 <= i < self.names@.len() ==> !is_builtin(#[trigger] self.names@[i]@)
    }

    /// An empty collector.
    pub fn new() -> (res: Self)
        ensures
            res@ == Seq::<Seq<char>>::empty(),
    {
        let res = TypeCollector { names: Vec::new() };
        assert(res@ =~= Seq::<Seq<char>>::empty());
        res
    }

    /// Records the name of one path segment of the signature, unless it is
    /// builtin or already recorded.
    pub fn visit_path_segment(&mut self, name: &str)
        ensures
            final(self)@ == if is_builtin(name@) || old(self)@.contains(name@) {
                old(self)@
            } else {
                old(self)@.push(name@)
            },
    {
        proof {
            use_type_invariant(&*self);
        }
        if is_builtin_type(name) {
            return;
        }
        let n = String::from_str(name);
        if contains_string(&self.names, &n) {
            return;
        }
        let ghost before = self.names@;
        assert forall|i: int| 0 <= i < before.len() implies before[i]@ != name@ by {
            assert(self.names.deep_view()[i] == before[i]@);
        }
        let mut names: Vec<String> = Vec::new();
        std::mem::swap(&mut names, &mut self.names);
        names.push(n);
        assert(names.deep_view() =~= old(self)@.push(name@)) by {
            assert forall|k: int| 0 <= k < names@.len() implies names.deep_view()[k] == old(
                self,
            )@.push(name@)[k] by {
                if k < before.len() {
                    assert(names@[k] == before[k]);
                }
            }
        }
        self.names = names;
    }

    /// The names recorded, in the order first seen; they are distinct and
    /// none is builtin.
    pub fn names(&self) -> (res: Vec<String>)
        ensures
            res.deep_view() == self@,
            forall|i: int, j: int| 0 <= i < j < res.deep_view().len() ==> res.deep_view()[i]
                != res.deep_view()[j],
            forall|i: int| 0 <= i < res.deep_view().len() ==> !is_builtin(#[trigger] res.deep_view()[i]),
    {
        proof {
            use_type_invariant(self);
        }
        let res = self.names.clone();
        assert(res.deep_view() =~= self.names.deep_view()) by {
            assert forall|k: int| 0 <= k < res@.len() implies res.deep_view()[k]
                == self.names.deep_view()[k] by {
                assert(vstd::pervasive::cloned(self.names@[k], res@[k]));
            }
        }
        assert forall|i: int| 0 <= i < res.deep_view().len() implies !is_builtin(
            #[trigger] res.deep_view()[i],
        ) by {
            assert(res.deep_view()[i] == self.names@[i]@);
        }
        assert forall|i: int, j: int| 0 <= i < j < res.deep_view().len() implies res.deep_view()[i]
            != res.deep_view()[j] by {
            assert(res.deep_view()[i] == self.names@[i]@);
            assert(res.deep_view()[j] == self.names@[j]@);
        }
        res
    }
}


/// A parsed Rust file, as `syn` gives it.
#[verifier::external_type_specification]
#[verifier::external_body]
pub struct ExSynFile(syn::File);

/// The kind of a top-level item of a Rust file, one for each variant of
/// `syn::Item`; `Other` stands for a variant that a later `syn` may add.
#[derive(Clone, Copy, Debug, PartialEq, Eq)]
pub enum ItemKind {
    Const,
    Enum,
    ExternCrate,
    Fn,
    ForeignMod,
    Impl,
    Macro,
    Mod,
    Static,
    Struct,
    Trait,
    TraitAlias,
    Type,
    Union,
    Use,
    Verbatim,
    Other,
}

/// The kinds whose definitions are handed to the model: structs, enums,
/// type aliases and traits.
pub open spec fn is_type_definition(k: ItemKind) -> bool {
    k == ItemKind::Struct || k == ItemKind::Enum || k == ItemKind::Type || k == ItemKind::Trait
}

/// Whether items of this kind are handed to the model.
pub fn is_type_definition_kind(k: ItemKind) -> (res: bool)
    ensures
        res == is_type_definition(k),
{
    matches!(k, ItemKind::Struct | ItemKind::Enum | ItemKind::Type | ItemKind::Trait)
}

/// What a parsed file holds: its top-level items in order, each as its
/// kind and, for a struct, enum, type alias or trait, its identifier (the
/// second part says nothing of other kinds of item).
pub uninterp spec fn spec_file_items(file: syn::File) -> Seq<(ItemKind, Seq<char>)>;

/// What `syn::parse_file` makes of a text: the items of the file, or
/// nothing when the text does not parse as a Rust file.
pub uninterp spec fn spec_parse_file(content: Seq<char>) -> Option<Seq<(ItemKind, Seq<char>)>>;

/// Calls `syn::parse_file`. The contract claims that whether the text
/// parses, and the items of the file, are functions of the text alone,
/// named [`spec_parse_file`].
#[verifier::external_body]
fn parse_file(content: &str) -> (res: Option<syn::File>)
    ensures
        match res {
            Some(f) => spec_parse_file(content@) == Some(spec_file_items(f)),
            None => spec_parse_file(content@) is None,
        },
{
    syn::parse_file(content).ok()
}

/// The number of items of a parsed file: `file.items.len()`.
#[verifier::external_body]
fn item_count(file: &syn::File) -> (res: usize)
    ensures
        res == spec_file_items(*file).len(),
{
    file.items.len()
}

/// The kind of the item at index `i`: the variant of `syn::Item` it is.
#[verifier::external_body]
fn item_kind(file: &syn::File, i: usize) -> (res: ItemKind)
    requires
        i < spec_file_items(*file).len(),
    ensures
        res == spec_file_items(*file)[i as int].0,
{
    match &file.items[i] {
        Item::Const(_) => ItemKind::Const, Item::Enum(_) => ItemKind::Enum,
        Item::ExternCrate(_) => ItemKind::ExternCrate, Item::Fn(_) => ItemKind::Fn,
        Item::ForeignMod(_) => ItemKind::ForeignMod, Item::Impl(_) => ItemKind::Impl,
        Item::Macro(_) => ItemKind::Macro, Item::Mod(_) => ItemKind::Mod,
        Item::Static(_) => ItemKind::Static, Item::Struct(_) => ItemKind::Struct,
        Item::Trait(_) => ItemKind::Trait, Item::TraitAlias(_) => ItemKind::TraitAlias,
        Item::Type(_) => ItemKind::Type, Item::Union(_) => ItemKind::Union,
        Item::Use(_) => ItemKind::Use, Item::Verbatim(_) => ItemKind::Verbatim,
        _ => ItemKind::Other,
    }
}

/// The identifier of the struct, enum, type alias or trait at index `i`:
/// the `to_string()` of its `ident`.
#[verifier::external_body]
fn item_ident(file: &syn::File, i: usize) -> (res: String)
    requires
        i < spec_file_items(*file).len(),
        is_type_definition(spec_file_items(*file)[i as int].0),
    ensures
        res@ == spec_file_items(*file)[i as int].1,
{
    match &file.items[i] {
        Item::Struct(x) => x.ident.to_string(), Item::Enum(x) => x.ident.to_string(),
        Item::Type(x) => x.ident.to_string(), Item::Trait(x) => x.ident.to_string(),
        _ => String::new(),
    }
}

/// The item at index `i` printed as text: `to_token_stream().to_string()`.
/// Nothing is stated of the text: proc-macro2 prints with the compiler's
/// printer inside a procedural macro and with its own elsewhere, and the two
/// may space tokens differently.
#[verifier::external_body]
fn item_text(file: &syn::File, i: usize) -> (res: String)
    requires
        i < spec_file_items(*file).len(),
{
    file.items[i].to_token_stream().to_string()
}

/// A top-level item of a source file: its kind, its name (for a struct,
/// enum, type alias or trait; empty otherwise) and its text.
pub struct SourceItem {
    pub kind: ItemKind,
    pub name: String,
    pub text: String,
}

impl View for SourceItem {
    type V = (ItemKind, Seq<char>, Seq<char>);

    open spec fn view(&self) -> (ItemKind, Seq<char>, Seq<char>) {
        (self.kind, self.name@, self.text@)
    }
}

/// The views of a sequence of items.
pub open spec fn items_view(v: Seq<SourceItem>) -> Seq<(ItemKind, Seq<char>, Seq<char>)> {
    Seq::new(v.len(), |i: int| v[i]@)
}

/// Whether `items` are the parsed items `parsed`: one for one, of the same
/// kind, and with the same name where the kind is a type definition.
pub open spec fn items_match(
    items: Seq<(ItemKind, Seq<char>, Seq<char>)>,
    parsed: Seq<(ItemKind, Seq<char>)>,
) -> bool {
    &&& items.len() == parsed.len()
    &&& forall|k: int|
        0 <= k < items.len() ==> {
            &&& (#[trigger] items[k]).0 == parsed[k].0
            &&& is_type_definition(items[k].0) ==> items[k].1 == parsed[k].1
        }
}

/// The parsed items of one text; none when it does not parse.
pub open spec fn parsed_items(content: Seq<char>) -> Seq<(ItemKind, Seq<char>)> {
    match spec_parse_file(content) {
        Some(items) => items,
        None => Seq::empty(),
    }
}

/// The parsed items of the files, in order; a file that does not parse
/// adds none.
pub open spec fn file_items(files: Seq<Seq<char>>) -> Seq<(ItemKind, Seq<char>)>
    decreases files.len(),
{
    if files.len() == 0 {
        Seq::empty()
    } else {
        file_items(files.drop_last()) + parsed_items(files.last())
    }
}

/// Parses a source text and lists its top-level items; a text that does
/// not parse gives none. The kinds and names are those of
/// [`spec_parse_file`]; the texts are the items as `syn` prints them.
pub fn parse_source_items(content: &str) -> (res: Vec<SourceItem>)
    ensures
        items_match(items_view(res@), parsed_items(content@)),
{
    let mut out: Vec<SourceItem> = Vec::new();
    match parse_file(content) {
        None => {
            assert(items_view(out@) =~= Seq::empty());
        },
        Some(file) => {
            let n = item_count(&file);
            let ghost parsed = spec_file_items(file);
            let mut i: usize = 0;
            while i < n
                invariant
                    i <= n,
                    n == parsed.len(),
                    parsed == spec_file_items(file),
                    out@.len() == i,
                    forall|k: int|
                        0 <= k < i ==> {
                            &&& (#[trigger] out@[k]).kind == parsed[k].0
                            &&& is_type_definition(out@[k].kind) ==> out@[k].name@ == parsed[k].1
                        },
                decreases n - i,
            {
                let kind = item_kind(&file, i);
                let name = if is_type_definition_kind(kind) {
                    item_ident(&file, i)
                } else {
                    String::new()
                };
                let text = item_text(&file, i);
                out.push(SourceItem { kind, name, text });
                i += 1;
            }
        },
    }
    out
}

/// The definitions picked from `items`: each struct, enum, type alias or
/// trait whose name is wanted and not picked before; the names picked, and
/// their texts, in order.
pub open spec fn pick_definitions(
    items: Seq<(ItemKind, Seq<char>, Seq<char>)>,
    wanted: Seq<Seq<char>>,
) -> (Seq<Seq<char>>, Seq<Seq<char>>)
    decreases items.len(),
{
    if items.len() == 0 {
        (Seq::empty(), Seq::empty())
    } else {
        let (found, texts) = pick_definitions(items.drop_last(), wanted);
        let (k, n, t) = items.last();
        if is_type_definition(k) && wanted.contains(n) && !found.contains(n) {
            (found.push(n), texts.push(t))
        } else {
            (found, texts)
        }
    }
}

/// Whether `t` is the text of a struct, enum, type alias or trait among
/// `items`.
pub open spec fn is_definition_text(items: Seq<(ItemKind, Seq<char>, Seq<char>)>, t: Seq<char>) -> bool {
    exists|k: int| 0 <= k < items.len() && is_type_definition(items[k].0) && #[trigger] items[k].2 == t
}

/// Each wanted type is defined at most once in the result: the names picked
/// are distinct and wanted, one text each, and every text picked is that of
/// a struct, enum, type alias or trait of the items.
pub proof fn law_definitions_picked_once(
    items: Seq<(ItemKind, Seq<char>, Seq<char>)>,
    wanted: Seq<Seq<char>>,
)
    ensures
        pick_definitions(items, wanted).0.len() == pick_definitions(items, wanted).1.len(),
        forall|i: int, j: int|
            0 <= i < j < pick_definitions(items, wanted).0.len() ==> pick_definitions(
                items,
                wanted,
            ).0[i] != pick_definitions(items, wanted).0[j],
        forall|i: int|
            0 <= i < pick_definitions(items, wanted).0.len() ==> wanted.contains(
                #[trigger] pick_definitions(items, wanted).0[i],
            ),
        forall|i: int|
            0 <= i < pick_definitions(items, wanted).1.len() ==> is_definition_text(
                items,
                #[trigger] pick_definitions(items, wanted).1[i],
            ),
    decreases items.len(),
{
    if items.len() > 0 {
        let d = items.drop_last();
        law_definitions_picked_once(d, wanted);
        let texts = pick_definitions(d, wanted).1;
        assert forall|i: int| 0 <= i < pick_definitions(items, wanted).1.len() implies is_definition_text(
            items,
            #[trigger] pick_definitions(items, wanted).1[i],
        ) by {
            let t = pick_definitions(items, wanted).1[i];
            if i < texts.len() {
                assert(t == texts[i]);
                assert(is_definition_text(d, texts[i]));
                let k = choose|k: int|
                    0 <= k < d.len() && is_type_definition(d[k].0) && #[trigger] d[k].2 == texts[i];
                assert(items[k] == d[k]);
            } else {
                let k = items.len() - 1;
                assert(items[k] == items.last());
            }
        }
    }
}

/// The texts of the picked definitions, separated by blank lines.
pub open spec fn selected_definitions(
    items: Seq<(ItemKind, Seq<char>, Seq<char>)>,
    wanted: Seq<Seq<char>>,
) -> Seq<char> {
    join(pick_definitions(items, wanted).1, "\n\n"@)
}

/// Picks from the items of the crate's source files the first definition
/// of each wanted type name, and joins their texts with blank lines.
pub fn select_type_definitions(items: &Vec<SourceItem>, wanted: &Vec<String>) -> (res: String)
    ensures
        res@ == selected_definitions(items_view(items@), wanted.deep_view()),
{
    let ghost iv = items_view(items@);
    let mut found: Vec<String> = Vec::new();
    let mut texts: Vec<Vec<char>> = Vec::new();
    let mut j: usize = 0;
    assert(iv.take(0) =~= Seq::<(ItemKind, Seq<char>, Seq<char>)>::empty());
    assert(found.deep_view() =~= Seq::<Seq<char>>::empty());
    assert(texts.deep_view() =~= Seq::<Seq<char>>::empty());
    while j < items.len()
        invariant
            j <= items.len(),
            iv == items_view(items@),
            pick_definitions(iv.take(j as int), wanted.deep_view()) == (
                found.deep_view(),
                texts.deep_view(),
            ),
        decreases items.len() - j,
    {
        assert(iv.take(j + 1).drop_last() =~= iv.take(j as int));
        assert(iv.take(j + 1).last() == items@[j as int]@);
        let it = &items[j];
        if is_type_definition_kind(it.kind) && contains_string(wanted, &it.name) && !contains_string(&found, &it.name) {
            let ghost fb = found@;
            let ghost fd = found.deep_view();
            found.push(it.name.clone());
            assert(found.deep_view() =~= fd.push(it.name@)) by {
                assert forall|k: int| 0 <= k < found@.len() implies found.deep_view()[k] == fd.push(
                    it.name@,
                )[k] by {
                    if k < fb.len() {
                        assert(found@[k] == fb[k]);
                    }
                }
            }
            let tc = chars_of(it.text.as_str());
            let ghost tb = texts@;
            let ghost td = texts.deep_view();
            texts.push(tc);
            assert(texts.deep_view() =~= td.push(it.text@)) by {
                assert forall|k: int| 0 <= k < texts@.len() implies texts.deep_view()[k] == td.push(
                    it.text@,
                )[k] by {
                    if k < tb.len() {
                        assert(texts@[k] == tb[k]);
                    }
                }
            }
        }
        j += 1;
    }
    assert(iv.take(items.len() as int) =~= iv);
    let sep = chars_of("\n\n");
    let joined = join_chars(&texts, &sep);
    string_of(&joined)
}

/// Finds, in the texts of the crate's source files, the struct, enum,
/// type and trait definitions for the given type names, each once. The
/// kinds and names come from parsing each file; whatever text `syn` prints
/// for the items, the result is the selection of those definitions.
pub fn resolve_types_from_source(files: &Vec<String>, type_names: &Vec<String>) -> (res: String)
    ensures
        exists|items: Seq<(ItemKind, Seq<char>, Seq<char>)>|
            {
                &&& items_match(items, file_items(files.deep_view()))
                &&& res@ == selected_definitions(items, type_names.deep_view())
            },
{
    let ghost fv = files.deep_view();
    let mut all: Vec<SourceItem> = Vec::new();
    let mut i: usize = 0;
    assert(fv.take(0) =~= Seq::<Seq<char>>::empty());
    assert(items_view(all@) =~= Seq::empty());
    while i < files.len()
        invariant
            i <= files.len(),
            fv == files.deep_view(),
            items_match(items_view(all@), file_items(fv.take(i as int))),
        decreases files.len() - i,
    {
        assert(fv.take(i + 1).drop_last() =~= fv.take(i as int));
        assert(fv.take(i + 1).last() == files@[i as int]@);
        let mut more = parse_source_items(files[i].as_str());
        let ghost a = items_view(all@);
        let ghost b = items_view(more@);
        let ghost pa = file_items(fv.take(i as int));
        let ghost pb = parsed_items(files@[i as int]@);
        all.append(&mut more);
        assert(items_view(all@) =~= a + b);
        assert(file_items(fv.take(i + 1)) == pa + pb);
        assert forall|k: int| 0 <= k < (a + b).len() implies {
            &&& (#[trigger] (a + b)[k]).0 == (pa + pb)[k].0
            &&& is_type_definition((a + b)[k].0) ==> (a + b)[k].1 == (pa + pb)[k].1
        } by {
            if k < a.len() {
                assert((a + b)[k] == a[k]);
                assert((pa + pb)[k] == pa[k]);
            } else {
                assert((a + b)[k] == b[k - a.len()]);
                assert((pa + pb)[k] == pb[k - a.len()]);
            }
        }
        i += 1;
    }
    assert(fv.take(files.len() as int) =~= fv);
    select_type_definitions(&all, type_names)
}

} // verus!
