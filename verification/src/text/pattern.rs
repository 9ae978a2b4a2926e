//! Searching and replacing in text.

use vstd::prelude::*;

use crate::text::{chars_of, text_range};

verus! {

/// Whether `needle` stands in `text` from position `at` on.
pub open spec fn occurs_at(text: Seq<char>, needle: Seq<char>, at: int) -> bool {
    &&& 0 <= at
    &&& at + needle.len() <= text.len()
    &&& text.subrange(at, at + needle.len()) == needle
}

/// Whether a text starts with another.
pub open spec fn begins_with(text: Seq<char>, prefix: Seq<char>) -> bool {
    occurs_at(text, prefix, 0)
}

/// Whether a text ends with another.
pub open spec fn finishes_with(text: Seq<char>, suffix: Seq<char>) -> bool {
    occurs_at(text, suffix, text.len() - suffix.len())
}

/// Whether a text holds another somewhere.
pub open spec fn holds(text: Seq<char>, needle: Seq<char>) -> bool {
    exists|at: int| occurs_at(text, needle, at)
}

/// The text with each occurrence of `needle`, found from left to right without overlap, replaced.
pub open spec fn replaced(text: Seq<char>, needle: Seq<char>, by: Seq<char>) -> Seq<char>
    decreases text.len(),
{
    if needle.len() == 0 || text.len() < needle.len() {
        text
    } else if begins_with(text, needle) {
        by + replaced(text.skip(needle.len() as int), needle, by)
    } else {
        seq![text[0]] + replaced(text.skip(1), needle, by)
    }
}

/// The text without the character `c` at its end, however often it stands there.
pub open spec fn without_trailing(text: Seq<char>, c: char) -> Seq<char>
    decreases text.len(),
{
    if text.len() > 0 && text.last() == c {
        without_trailing(text.drop_last(), c)
    } else {
        text
    }
}

/// The text without `prefix` at its start, however often it stands there.
pub open spec fn without_leading(text: Seq<char>, prefix: Seq<char>) -> Seq<char>
    decreases text.len(),
{
    if prefix.len() > 0 && begins_with(text, prefix) {
        without_leading(text.skip(prefix.len() as int), prefix)
    } else {
        text
    }
}

/// Whether `needle` stands among the characters from position `at` on.
pub fn matches_at(chars: &Vec<char>, needle: &Vec<char>, at: usize) -> (r: bool)
    ensures
        r == occurs_at(chars@, needle@, at as int),
{
    if needle.len() > chars.len() || at > chars.len() - needle.len() {
        return false;
    }
    let total: usize = chars.len();
    let mut i: usize = 0;
    while i < needle.len()
        invariant
            total == chars@.len(),
            i <= needle@.len(),
            at + needle@.len() <= chars@.len(),
            forall|j: int| 0 <= j < i ==> chars@[at + j] == needle@[j],
        decreases needle@.len() - i,
    {
        if chars[at + i] != needle[i] {
            assert(chars@.subrange(at as int, at + needle@.len())[i as int] != needle@[i as int]);
            return false;
        }
        i = i + 1;
    }
    assert(chars@.subrange(at as int, at + needle@.len()) =~= needle@);
    true
}

/// Whether a text starts with another.
pub fn starts_with(text: &str, prefix: &str) -> (r: bool)
    ensures
        r == begins_with(text@, prefix@),
{
    let chars = chars_of(text);
    let needle = chars_of(prefix);
    matches_at(&chars, &needle, 0)
}

/// Whether a text ends with another.
pub fn ends_with(text: &str, suffix: &str) -> (r: bool)
    ensures
        r == finishes_with(text@, suffix@),
{
    let chars = chars_of(text);
    let needle = chars_of(suffix);
    if needle.len() > chars.len() {
        return false;
    }
    matches_at(&chars, &needle, chars.len() - needle.len())
}

/// Whether a text holds another somewhere.
pub fn contains(text: &str, needle: &str) -> (r: bool)
    ensures
        r == holds(text@, needle@),
{
    let chars = chars_of(text);
    let wanted = chars_of(needle);
    if wanted.len() > chars.len() {
        return false;
    }
    let last: usize = chars.len() - wanted.len();
    let mut at: usize = 0;
    while at <= last
        invariant
            chars@ == text@,
            wanted@ == needle@,
            last == chars@.len() - wanted@.len(),
            at <= last + 1,
            forall|j: int| 0 <= j < at ==> !#[trigger] occurs_at(text@, needle@, j),
        decreases last + 1 - at,
    {
        if matches_at(&chars, &wanted, at) {
            return true;
        }
        if at == last {
            return false;
        }
        at = at + 1;
    }
    false
}

/// Replaces each occurrence of a text in another.
pub fn replace(text: &str, needle: &str, by: &str) -> (r: String)
    requires
        needle@.len() > 0,
    ensures
        r@ == replaced(text@, needle@, by@),
{
    let chars = chars_of(text);
    let wanted = chars_of(needle);
    let mut out = String::new();
    let mut i: usize = 0;
    assert(text@.skip(0) =~= text@);
    assert(out@ + replaced(text@, needle@, by@) =~= replaced(text@, needle@, by@));
    while i < chars.len()
        invariant
            chars@ == text@,
            wanted@ == needle@,
            needle@.len() > 0,
            i <= chars@.len(),
            out@ + replaced(text@.skip(i as int), needle@, by@) == replaced(text@, needle@, by@),
        decreases chars@.len() - i,
    {
        let ghost rest = text@.skip(i as int);
        let ghost before = out@;
        assert(occurs_at(text@, needle@, i as int) == begins_with(rest, needle@)) by {
            if i + needle@.len() <= text@.len() {
                assert(text@.subrange(i as int, i + needle@.len()) =~= rest.subrange(
                    0,
                    needle@.len() as int,
                ));
            }
        }
        if matches_at(&chars, &wanted, i) {
            out.append(by);
            proof {
                assert(rest.skip(needle@.len() as int) =~= text@.skip(i + needle@.len()));
                assert(out@ + replaced(text@.skip(i + needle@.len()), needle@, by@) =~= before + (by@
                    + replaced(text@.skip(i + needle@.len()), needle@, by@)));
            }
            i = i + wanted.len();
        } else {
            out.push(chars[i]);
            proof {
                assert(rest.skip(1) =~= text@.skip(i + 1));
                if rest.len() < needle@.len() {
                    assert(seq![rest[0]] + rest.skip(1) =~= rest);
                }
                assert(out@ + replaced(text@.skip(i + 1), needle@, by@) =~= before + (seq![rest[0]]
                    + replaced(text@.skip(i + 1), needle@, by@)));
            }
            i = i + 1;
        }
    }
    assert(text@.skip(i as int) =~= Seq::<char>::empty());
    assert(out@ + Seq::<char>::empty() =~= out@);
    out
}

/// The text up to, not including, the first occurrence of `mark`; all of it where there is none.
pub open spec fn before_first(text: Seq<char>, mark: Seq<char>) -> Seq<char>
    decreases text.len(),
{
    if begins_with(text, mark) {
        Seq::empty()
    } else if text.len() == 0 {
        text
    } else {
        seq![text[0]] + before_first(text.skip(1), mark)
    }
}

/// Keeps what stands before the first occurrence of a text.
pub fn take_before(text: &str, mark: &str) -> (r: String)
    ensures
        r@ == before_first(text@, mark@),
{
    let chars = chars_of(text);
    let wanted = chars_of(mark);
    let mut i: usize = 0;
    assert(text@.skip(0) =~= text@);
    assert(text@.take(0) + before_first(text@, mark@) =~= before_first(text@, mark@));
    while i < chars.len()
        invariant
            chars@ == text@,
            wanted@ == mark@,
            i <= chars@.len(),
            text@.take(i as int) + before_first(text@.skip(i as int), mark@) == before_first(
                text@,
                mark@,
            ),
        decreases chars@.len() - i,
    {
        let ghost rest = text@.skip(i as int);
        assert(occurs_at(text@, mark@, i as int) == begins_with(rest, mark@)) by {
            if i + mark@.len() <= text@.len() {
                assert(text@.subrange(i as int, i + mark@.len()) =~= rest.subrange(
                    0,
                    mark@.len() as int,
                ));
            }
        }
        if matches_at(&chars, &wanted, i) {
            let r = text_range(&chars, 0, i);
            assert(r@ =~= text@.take(i as int) + Seq::<char>::empty());
            return r;
        }
        proof {
            assert(rest.skip(1) =~= text@.skip(i + 1));
            assert(text@.take(i + 1) + before_first(text@.skip(i + 1), mark@) =~= text@.take(i as int)
                + (seq![rest[0]] + before_first(rest.skip(1), mark@)));
        }
        i = i + 1;
    }
    assert(text@.skip(i as int) =~= Seq::<char>::empty());
    assert(before_first(Seq::<char>::empty(), mark@) =~= Seq::<char>::empty());
    assert(text@.take(i as int) + Seq::<char>::empty() =~= text@);
    text.to_owned()
}

/// Removes a character from the end of a text, however often it stands there.
pub fn trim_end_char(text: &str, c: char) -> (r: String)
    ensures
        r@ == without_trailing(text@, c),
{
    let chars = chars_of(text);
    let mut to: usize = chars.len();
    assert(chars@.take(to as int) =~= chars@);
    while to > 0 && chars[to - 1] == c
        invariant
            to <= chars@.len(),
            without_trailing(chars@.take(to as int), c) == without_trailing(chars@, c),
        decreases to,
    {
        assert(chars@.take(to as int).drop_last() =~= chars@.take(to - 1));
        to = to - 1;
    }
    let r = text_range(&chars, 0, to);
    assert(r@ =~= chars@.take(to as int));
    r
}

/// Removes a text from the start of another, however often it stands there.
pub fn trim_start_text(text: &str, prefix: &str) -> (r: String)
    requires
        prefix@.len() > 0,
    ensures
        r@ == without_leading(text@, prefix@),
{
    let chars = chars_of(text);
    let wanted = chars_of(prefix);
    let total: usize = chars.len();
    let mut from: usize = 0;
    assert(text@.skip(0) =~= text@);
    while matches_at(&chars, &wanted, from)
        invariant
            total == chars@.len(),
            chars@ == text@,
            wanted@ == prefix@,
            prefix@.len() > 0,
            from <= chars@.len(),
            without_leading(text@.skip(from as int), prefix@) == without_leading(text@, prefix@),
        decreases chars@.len() - from,
    {
        proof {
            let rest = text@.skip(from as int);
            assert(rest.subrange(0, prefix@.len() as int) =~= text@.subrange(
                from as int,
                from + prefix@.len(),
            ));
            assert(rest.skip(prefix@.len() as int) =~= text@.skip(from + prefix@.len()));
        }
        from = from + wanted.len();
    }
    proof {
        let rest = text@.skip(from as int);
        if begins_with(rest, prefix@) {
            assert(rest.subrange(0, prefix@.len() as int) =~= text@.subrange(
                from as int,
                from + prefix@.len(),
            ));
        }
    }
    let r = text_range(&chars, from, chars.len());
    assert(r@ =~= text@.skip(from as int));
    r
}

/// Finds the first `c` among the characters.
pub fn find_char(chars: &Vec<char>, c: char) -> (r: Option<usize>)
    ensures
        match chars@.index_of_first(c) {
            Some(at) => r matches Some(found) && found == at && found < chars@.len(),
            None => r is None,
        },
{
    proof {
        chars@.index_of_first_ensures(c);
    }
    let mut i: usize = 0;
    while i < chars.len()
        invariant
            i <= chars@.len(),
            forall|j: int| 0 <= j < i ==> chars@[j] != c,
            chars@.index_of_first(c) matches Some(at) ==> i <= at < chars@.len() && chars@[at] == c
                && forall|j: int| 0 <= j < at ==> chars@[j] != c,
            chars@.index_of_first(c) is None ==> !chars@.contains(c),
        decreases chars@.len() - i,
    {
        if chars[i] == c {
            return Some(i);
        }
        i = i + 1;
    }
    None
}

/// Finds the last `c` among the characters.
pub fn find_last_char(chars: &Vec<char>, c: char) -> (r: Option<usize>)
    ensures
        match chars@.index_of_last(c) {
            Some(at) => r matches Some(found) && found == at && found < chars@.len(),
            None => r is None,
        },
{
    proof {
        chars@.index_of_last_ensures(c);
    }
    let mut i: usize = chars.len();
    while i > 0
        invariant
            i <= chars@.len(),
            forall|j: int| i <= j < chars@.len() ==> chars@[j] != c,
            chars@.index_of_last(c) matches Some(at) ==> 0 <= at < i && chars@[at] == c
                && forall|j: int| at < j < chars@.len() ==> chars@[j] != c,
            chars@.index_of_last(c) is None ==> !chars@.contains(c),
        decreases i,
    {
        if chars[i - 1] == c {
            return Some(i - 1);
        }
        i = i - 1;
    }
    None
}

} // verus!
