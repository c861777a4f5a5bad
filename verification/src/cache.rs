//! Naming and contents of the cache of generated functions.

use vstd::prelude::*;
use vstd::std_specs::hash::DefaultHasherAdditionalSpecFns;
use std::collections::hash_map::DefaultHasher;
use std::hash::Hasher;
use crate::session::{is_function_source, spec_parses_as_fn};
use crate::text::{
    chars_of, extend_chars, extend_str, hex_fixed, lines, lines_of, push_hex_fixed, string_of,
};

verus! {

/// What the hasher is fed for one string: its UTF-8 bytes, then a `0xff`
/// byte, as `Hash for str` writes it.
pub open spec fn hashed_str(s: Seq<char>) -> Seq<Seq<u8>> {
    seq![vstd::utf8::encode_utf8(s), seq![0xffu8]]
}

fn feed_str(h: &mut DefaultHasher, s: &str)
    ensures
        final(h)@ == old(h)@ + hashed_str(s@),
{
    h.write(s.as_bytes());
    let mut sep: Vec<u8> = Vec::new();
    sep.push(0xffu8);
    assert(sep@ =~= seq![0xffu8]);
    h.write(sep.as_slice());
    assert(h@ =~= old(h)@ + hashed_str(s@));
}

/// The cache key of a function: the default hasher's digest of its source,
/// the model and the provider, in that order.
pub fn compute_cache_key(source: &str, model: &str, provider: &str) -> (res: u64)
    ensures
        res == DefaultHasher::spec_finish(
            hashed_str(source@) + hashed_str(model@) + hashed_str(provider@),
        ),
{
    let mut hasher = DefaultHasher::new();
    feed_str(&mut hasher, source);
    feed_str(&mut hasher, model);
    feed_str(&mut hasher, provider);
    assert(hasher@ =~= hashed_str(source@) + hashed_str(model@) + hashed_str(provider@));
    hasher.finish()
}

/// The tag of a generation: the function's name, `_`, and the key as
/// sixteen lower-case hexadecimal digits.
pub open spec fn tag_text(fn_name: Seq<char>, key: u64) -> Seq<char> {
    fn_name + "_"@ + hex_fixed(key as nat, 16)
}

/// The tag that names a generation's cache file and scratch files.
pub fn cache_tag(fn_name: &str, key: u64) -> (res: String)
    ensures
        res@ == tag_text(fn_name@, key),
{
    let mut t = chars_of(fn_name);
    extend_str(&mut t, "_");
    push_hex_fixed(&mut t, key, 16);
    string_of(&t)
}

/// The cache file's name for a tag.
pub fn cache_file_name(tag: &str) -> (res: String)
    ensures
        res@ == tag@ + ".rs"@,
{
    let mut t = chars_of(tag);
    extend_str(&mut t, ".rs");
    string_of(&t)
}

/// Each line of `ls` as a `// ` comment line.
pub open spec fn commented(ls: Seq<Seq<char>>) -> Seq<char>
    decreases ls.len(),
{
    if ls.len() == 0 {
        Seq::empty()
    } else {
        commented(ls.drop_last()) + "// "@ + ls.last() + "\n"@
    }
}

/// The cache file: both prompts as comments under headings, then the
/// generated code.
pub open spec fn cache_text(code: Seq<char>, system: Seq<char>, user: Seq<char>) -> Seq<char> {
    "// ── system prompt ──\n"@ + commented(lines(system)) + "//\n// ── user prompt ──\n"@
        + commented(lines(user)) + "//\n// ── generated ──\n\n"@ + code + "\n"@
}

fn push_commented(out: &mut Vec<char>, text: &str)
    ensures
        final(out)@ == old(out)@ + commented(lines(text@)),
{
    let cs = chars_of(text);
    let ls = lines_of(&cs);
    let mut i: usize = 0;
    assert(ls.deep_view().take(0) =~= Seq::<Seq<char>>::empty());
    while i < ls.len()
        invariant
            i <= ls.len(),
            ls.deep_view() == lines(text@),
            out@ == old(out)@ + commented(ls.deep_view().take(i as int)),
        decreases ls.len() - i,
    {
        let ghost t = ls.deep_view().take(i + 1);
        assert(t.drop_last() =~= ls.deep_view().take(i as int));
        assert(t.last() == ls@[i as int]@);
        extend_str(out, "// ");
        extend_chars(out, &ls[i]);
        extend_str(out, "\n");
        i += 1;
    }
    assert(ls.deep_view().take(ls.len() as int) =~= ls.deep_view());
}

/// The text of a cache file for generated `code` and the prompts that
/// produced it.
pub fn cache_contents(code: &str, system: &str, user: &str) -> (res: String)
    ensures
        res@ == cache_text(code@, system@, user@),
{
    let mut out = chars_of("// ── system prompt ──\n");
    push_commented(&mut out, system);
    extend_str(&mut out, "//\n// ── user prompt ──\n");
    push_commented(&mut out, user);
    extend_str(&mut out, "//\n// ── generated ──\n\n");
    extend_str(&mut out, code);
    extend_str(&mut out, "\n");
    string_of(&out)
}


/// What to do with the cache file of a function.
#[derive(Clone, Copy, Debug, PartialEq, Eq)]
pub enum CacheUse {
    /// Use the cached function.
    Hit,
    /// The file holds no function: generate anew.
    Corrupt,
    /// No cached function to use: generate.
    Miss,
}

/// Decides on the cache: unless caching is off, a cache file that was read
/// is used when it parses as a function, and reported corrupt otherwise.
pub fn check_cache(nocache: bool, cached: Option<&str>) -> (res: CacheUse)
    ensures
        res == if nocache || cached is None {
            CacheUse::Miss
        } else if spec_parses_as_fn(cached.unwrap()@) {
            CacheUse::Hit
        } else {
            CacheUse::Corrupt
        },
{
    if nocache {
        return CacheUse::Miss;
    }
    match cached {
        None => CacheUse::Miss,
        Some(text) => if is_function_source(text) {
            CacheUse::Hit
        } else {
            CacheUse::Corrupt
        },
    }
}

} // verus!
