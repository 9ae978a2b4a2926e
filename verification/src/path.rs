//! Paths as text, with `/` between their parts.

use vstd::prelude::*;

use crate::text::pattern::{begins_with, ends_with, finishes_with, starts_with};
use crate::text::split::{pieces, split, Separator};
use crate::text::{concat2, concat3, same_text, texts};

verus! {

/// Whether the segment at `i` is a part of the path: it is not empty, and it is not a `.` behind
/// another segment.
pub open spec fn is_part(segments: Seq<Seq<char>>, i: int) -> bool {
    segments[i].len() > 0 && (i == 0 || segments[i] != "."@)
}

/// The parts among the first `n` segments.
pub open spec fn parts_of(segments: Seq<Seq<char>>, n: nat) -> Seq<Seq<char>>
    decreases n,
{
    if n == 0 {
        Seq::empty()
    } else if is_part(segments, n - 1) {
        parts_of(segments, (n - 1) as nat).push(segments[n - 1])
    } else {
        parts_of(segments, (n - 1) as nat)
    }
}

/// The parts of a path: its segments between slashes, without empty ones and without a `.` that
/// stands behind another segment.
pub open spec fn parts(path: Seq<char>) -> Seq<Seq<char>> {
    let segments = pieces(path, Separator::Char('/'));
    parts_of(segments, segments.len())
}

/// Whether a path starts at the root.
pub open spec fn absolute(path: Seq<char>) -> bool {
    begins_with(path, "/"@)
}

/// Whether a part names an entry, and is neither the current nor the parent directory.
pub open spec fn names_entry(part: Seq<char>) -> bool {
    part != "."@ && part != ".."@
}

/// The last part of a path, where it names an entry.
pub open spec fn last_name(path: Seq<char>) -> Option<Seq<char>> {
    if parts(path).len() > 0 && names_entry(parts(path).last()) {
        Some(parts(path).last())
    } else {
        None
    }
}

/// Whether a path starts at the root.
pub fn is_absolute(path: &str) -> (r: bool)
    ensures
        r == absolute(path@),
{
    starts_with(path, "/")
}

/// Whether a part names an entry.
pub fn is_entry_name(part: &str) -> (r: bool)
    ensures
        r == names_entry(part@),
{
    !same_text(part, ".") && !same_text(part, "..")
}

/// The parts of a path.
pub fn path_parts(path: &str) -> (r: Vec<String>)
    ensures
        texts(r@) == parts(path@),
{
    broadcast use crate::text::lemma_texts_push;

    let segments = split(path, Separator::Char('/'));
    let ghost list = pieces(path@, Separator::Char('/'));
    let mut out: Vec<String> = Vec::new();
    let mut i: usize = 0;
    assert(texts(out@) =~= parts_of(list, 0));
    while i < segments.len()
        invariant
            texts(segments@) == list,
            i <= segments@.len(),
            texts(out@) == parts_of(list, i as nat),
        decreases segments@.len() - i,
    {
        assert(list[i as int] == segments@[i as int]@);
        if !segments[i].as_str().is_empty() && (i == 0 || !same_text(segments[i].as_str(), ".")) {
            out.push(segments[i].clone());
        }
        i = i + 1;
    }
    out
}

/// The last part of a path, where it names an entry.
pub fn file_name(path: &str) -> (r: Option<String>)
    ensures
        crate::text::text_option(r) == last_name(path@),
{
    let all = path_parts(path);
    if all.len() == 0 {
        return None;
    }
    let last = all[all.len() - 1].clone();
    assert(last@ == parts(path@).last());
    if is_entry_name(last.as_str()) {
        Some(last)
    } else {
        None
    }
}

/// A path below another one: behind it and a slash, or alone where it starts at the root.
pub open spec fn below(base: Seq<char>, name: Seq<char>) -> Seq<char> {
    if absolute(name) {
        name
    } else if base.len() == 0 || finishes_with(base, "/"@) {
        base + name
    } else {
        base + "/"@ + name
    }
}

/// A path below another one.
pub fn path_below(base: &str, name: &str) -> (r: String)
    ensures
        r@ == below(base@, name@),
{
    if is_absolute(name) {
        name.to_owned()
    } else if base.is_empty() || ends_with(base, "/") {
        concat2(base, name)
    } else {
        concat3(base, "/", name)
    }
}

} // verus!
