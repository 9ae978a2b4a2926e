//! What holds of every text.

use vstd::prelude::*;

use crate::fault::fault_text;
use crate::path::{absolute, below, is_part, last_name, parts, parts_of};
use crate::report::{status_name, BranchStatus};
use crate::text::number::{
    count_digits, count_value, decimal, digits_value, hex_char, hex_text, is_digit, signed_decimal,
};
use crate::text::pattern::{
    before_first, begins_with, finishes_with, holds, occurs_at, replaced, without_leading,
};
use crate::text::split::{lemma_pieces_not_empty, pieces, Separator};
use crate::text::{
    ascii_lower, first_chars, fitting_prefix, is_blank, is_space, joined, trimmed, trimmed_end,
    trimmed_start, utf8_len,
};

verus! {

/// The white space among the ASCII characters is the space and five marks, and no others.
pub proof fn lemma_plain_white_space(c: char)
    requires
        (c as u32) < 128,
    ensures
        is_space(c) <==> c == ' ' || c == '\t' || c == '\n' || c == '\r' || c as u32 == 0x0b
            || c as u32 == 0x0c,
{
}

proof fn lemma_trimmed_start(text: Seq<char>) -> (from: int)
    ensures
        0 <= from <= text.len(),
        trimmed_start(text) == text.skip(from),
        forall|i: int| 0 <= i < from ==> is_space(#[trigger] text[i]),
        from < text.len() ==> !is_space(text[from]),
    decreases text.len(),
{
    if text.len() > 0 && is_space(text[0]) {
        let rest = text.skip(1);
        let from = lemma_trimmed_start(rest);
        assert(rest.skip(from) =~= text.skip(from + 1));
        assert forall|i: int| 0 <= i < from + 1 implies is_space(#[trigger] text[i]) by {
            if i > 0 {
                assert(rest[i - 1] == text[i]);
            }
        }
        if from < rest.len() {
            assert(rest[from] == text[from + 1]);
        }
        from + 1
    } else {
        assert(text.skip(0) =~= text);
        0
    }
}

proof fn lemma_trimmed_end(text: Seq<char>) -> (to: int)
    ensures
        0 <= to <= text.len(),
        trimmed_end(text) == text.take(to),
        forall|i: int| to <= i < text.len() ==> is_space(#[trigger] text[i]),
        to > 0 ==> !is_space(text[to - 1]),
    decreases text.len(),
{
    if text.len() > 0 && is_space(text.last()) {
        let rest = text.drop_last();
        let to = lemma_trimmed_end(rest);
        assert(rest.take(to) =~= text.take(to));
        assert forall|i: int| to <= i < text.len() implies is_space(#[trigger] text[i]) by {
            if i < rest.len() {
                assert(rest[i] == text[i]);
            }
        }
        to
    } else {
        assert(text.take(text.len() as int) =~= text);
        text.len() as int
    }
}

/// A text is trimmed of just the white space around it: it is what stands between two places, with
/// nothing but white space before and behind them, and none at its own ends.
pub proof fn lemma_trimmed_is_the_inner_text(text: Seq<char>)
    ensures
        exists|from: int, to: int|
            0 <= from <= to <= text.len() && trimmed(text) == #[trigger] text.subrange(from, to)
                && (forall|i: int| 0 <= i < from ==> is_space(#[trigger] text[i])) && (forall|
                i: int,
            |
                to <= i < text.len() ==> is_space(#[trigger] text[i])),
        trimmed(text).len() > 0 ==> !is_space(trimmed(text)[0]) && !is_space(trimmed(text).last()),
        is_blank(text) <==> forall|i: int| 0 <= i < text.len() ==> is_space(#[trigger] text[i]),
{
    let from = lemma_trimmed_start(text);
    let rest = text.skip(from);
    let to = lemma_trimmed_end(rest);
    assert(rest.take(to) =~= text.subrange(from, from + to));
    assert forall|i: int| from + to <= i < text.len() implies is_space(#[trigger] text[i]) by {
        assert(rest[i - from] == text[i]);
    }
    if to > 0 {
        assert(rest[0] == text[from]);
        assert(trimmed(text)[0] == rest[0]);
        assert(trimmed(text).last() == rest[to - 1]);
        assert(!is_space(text[from]));
    } else {
        assert forall|i: int| 0 <= i < text.len() implies is_space(#[trigger] text[i]) by {
            if i >= from {
                assert(rest[i - from] == text[i]);
            }
        }
    }
}

/// A text in lower case has a small letter for each capital one of ASCII, and is otherwise the same.
pub proof fn lemma_lower_case_changes_capitals(text: Seq<char>)
    ensures
        ascii_lower(text).len() == text.len(),
        forall|i: int|
            0 <= i < text.len() ==> if 'A' <= #[trigger] text[i] <= 'Z' {
                ascii_lower(text)[i] as u32 == text[i] as u32 + 32
            } else {
                ascii_lower(text)[i] == text[i]
            },
{
}

/// A text in lower case stays as it is in lower case.
pub proof fn lemma_lower_case_is_stable(text: Seq<char>)
    ensures
        ascii_lower(ascii_lower(text)) == ascii_lower(text),
{
    lemma_lower_case_changes_capitals(text);
    lemma_lower_case_changes_capitals(ascii_lower(text));
    assert forall|i: int| 0 <= i < text.len() implies ascii_lower(ascii_lower(text))[i]
        == ascii_lower(text)[i] by {
        let c = text[i];
        let lower = ascii_lower(text)[i];
        assert(!('A' <= lower <= 'Z'));
    }
    assert(ascii_lower(ascii_lower(text)) =~= ascii_lower(text));
}

/// The first characters of a text are a beginning of it, and as many as there are or as are asked for.
pub proof fn lemma_first_characters_begin_the_text(text: Seq<char>, count: nat)
    ensures
        first_chars(text, count).len() == (if text.len() < count {
            text.len()
        } else {
            count
        }),
        first_chars(text, count) == text.take(first_chars(text, count).len() as int),
{
    assert(text.take(text.len() as int) =~= text);
}

/// What fits of a text is a beginning of it; where that is not all, one character more would not fit.
pub proof fn lemma_fitting_prefix_is_longest(text: Seq<char>, max: nat)
    ensures
        fitting_prefix(text, max).len() <= text.len(),
        fitting_prefix(text, max) == text.take(fitting_prefix(text, max).len() as int),
        fitting_prefix(text, max).len() < text.len() ==> utf8_len(
            text.take(fitting_prefix(text, max).len() as int + 1),
        ) > max,
        utf8_len(text) <= max ==> fitting_prefix(text, max) == text,
    decreases text.len(),
{
    let all = text.take(text.len() as int);
    assert(all =~= text);
    if text.len() > 0 && utf8_len(text) > max {
        let rest = text.drop_last();
        lemma_fitting_prefix_is_longest(rest, max);
        let n = fitting_prefix(rest, max).len() as int;
        assert(rest.take(n) =~= text.take(n));
        if n < rest.len() {
            assert(rest.take(n + 1) =~= text.take(n + 1));
        } else {
            assert(text.take(n + 1) =~= text);
        }
    }
}

/// A text is its pieces with the mark between them, and no piece holds the mark.
pub proof fn lemma_pieces_are_joined_again(text: Seq<char>, mark: char)
    ensures
        joined(pieces(text, Separator::Char(mark)), seq![mark]) == text,
        forall|i: int|
            0 <= i < pieces(text, Separator::Char(mark)).len() ==> !(#[trigger] pieces(
                text,
                Separator::Char(mark),
            )[i]).contains(mark),
    decreases text.len(),
{
    let all = pieces(text, Separator::Char(mark));
    let between = seq![mark];
    if text.len() == 0 {
        assert(joined(all, between) =~= text);
    } else {
        let before = pieces(text.drop_last(), Separator::Char(mark));
        lemma_pieces_are_joined_again(text.drop_last(), mark);
        lemma_pieces_not_empty(text.drop_last(), Separator::Char(mark));
        let c = text.last();
        if c == mark {
            assert(all.drop_last() =~= before);
            assert(joined(all, between) =~= text.drop_last() + between);
            assert(text.drop_last() + between =~= text);
        } else {
            let head = before.drop_last();
            assert(all.drop_last() =~= head);
            if before.len() == 1 {
                assert(joined(before, between) == before[0]);
                assert(joined(all, between) == all[0]);
                assert(all[0] =~= text);
            } else {
                assert(joined(all, between) =~= joined(before, between).push(c));
                assert(joined(before, between).push(c) =~= text);
            }
            assert forall|i: int| 0 <= i < all.len() implies !(#[trigger] all[i]).contains(
                mark,
            ) by {
                if i < head.len() {
                    assert(all[i] == before[i]);
                } else {
                    let last = before.last();
                    assert(!before[before.len() - 1].contains(mark));
                    assert(all[i] == last.push(c));
                    if all[i].contains(mark) {
                        let j = choose|j: int| 0 <= j < all[i].len() && all[i][j] == mark;
                        if j < last.len() {
                            assert(last[j] == mark);
                        }
                    }
                }
            }
        }
    }
}

/// A number in decimal digits has the value of the number, and no zero before other digits.
pub proof fn lemma_decimal_has_the_value(n: nat)
    ensures
        digits_value(decimal(n)) == n,
        decimal(n).len() > 0,
        forall|i: int| 0 <= i < decimal(n).len() ==> is_digit(#[trigger] decimal(n)[i]),
        decimal(n).len() > 1 ==> decimal(n)[0] != '0',
    decreases n,
{
    let digits = decimal(n);
    if n < 10 {
        assert(digits.drop_last() =~= Seq::<char>::empty());
        assert(digits_value(digits.drop_last()) == 0);
    } else {
        lemma_decimal_has_the_value(n / 10);
        assert(digits.drop_last() =~= decimal(n / 10));
        let head = decimal(n / 10);
        assert(digits[0] == head[0]);
        if head.len() == 1 {
            assert(head.drop_last() =~= Seq::<char>::empty());
            assert(digits_value(head.drop_last()) == 0);
            assert(digits_value(head) == (head[0] as u32 - 48) as nat);
        }
        assert forall|i: int| 0 <= i < digits.len() implies is_digit(#[trigger] digits[i]) by {
            if i < head.len() {
                assert(digits[i] == head[i]);
            }
        }
    }
}

/// A number that is written is read as the same number.
pub proof fn lemma_written_number_is_read(n: usize)
    ensures
        count_value(decimal(n as nat)) == Some(n),
        signed_decimal(n as int) == decimal(n as nat),
{
    let digits = decimal(n as nat);
    lemma_decimal_has_the_value(n as nat);
    assert(is_digit(digits[0]));
    assert(count_digits(digits) == digits);
}

/// Bytes in hexadecimal have two digits each, the higher one first.
pub proof fn lemma_hex_digits_are_those_of_the_bytes(bytes: Seq<u8>)
    ensures
        hex_text(bytes).len() == 2 * bytes.len(),
        forall|i: int|
            0 <= i < bytes.len() ==> hex_text(bytes)[2 * i] == "0123456789abcdef"@[(
            #[trigger] bytes[i] / 16) as int] && hex_text(bytes)[2 * i + 1]
                == "0123456789abcdef"@[(bytes[i] % 16) as int],
    decreases bytes.len(),
{
    reveal_strlit("0123456789abcdef");
    if bytes.len() > 0 {
        let rest = bytes.drop_last();
        lemma_hex_digits_are_those_of_the_bytes(rest);
        assert forall|i: int| 0 <= i < bytes.len() implies hex_text(bytes)[2 * i]
            == "0123456789abcdef"@[(#[trigger] bytes[i] / 16) as int] && hex_text(bytes)[2 * i + 1]
            == "0123456789abcdef"@[(bytes[i] % 16) as int] by {
            if i < rest.len() {
                assert(rest[i] == bytes[i]);
                assert(hex_text(bytes)[2 * i] == hex_text(rest)[2 * i]);
                assert(hex_text(bytes)[2 * i + 1] == hex_text(rest)[2 * i + 1]);
            } else {
                let high = (bytes[i] / 16) as nat;
                let low = (bytes[i] % 16) as nat;
                assert(high < 16);
                assert(low < 16);
                assert(hex_text(bytes)[2 * i] == hex_char(high));
                assert(hex_text(bytes)[2 * i + 1] == hex_char(low));
            }
        }
    }
}

proof fn lemma_rest_holds_less(text: Seq<char>, needle: Seq<char>)
    requires
        text.len() > 0,
        !holds(text, needle),
    ensures
        !holds(text.skip(1), needle),
{
    if holds(text.skip(1), needle) {
        let at = choose|at: int| occurs_at(text.skip(1), needle, at);
        assert(text.subrange(at + 1, at + 1 + needle.len()) =~= text.skip(1).subrange(
            at,
            at + needle.len(),
        ));
        assert(occurs_at(text, needle, at + 1));
    }
}

/// A text that does not hold another is not changed by replacing it.
pub proof fn lemma_nothing_to_replace(text: Seq<char>, needle: Seq<char>, by: Seq<char>)
    requires
        !holds(text, needle),
    ensures
        replaced(text, needle, by) == text,
    decreases text.len(),
{
    if needle.len() > 0 && text.len() >= needle.len() {
        if begins_with(text, needle) {
            assert(occurs_at(text, needle, 0));
        } else {
            lemma_rest_holds_less(text, needle);
            lemma_nothing_to_replace(text.skip(1), needle, by);
            assert(seq![text[0]] + text.skip(1) =~= text);
        }
    }
}

/// Replacing one character by one other changes just that character, wherever it stands.
pub proof fn lemma_character_is_replaced_everywhere(text: Seq<char>, old_one: char, new_one: char)
    ensures
        replaced(text, seq![old_one], seq![new_one]).len() == text.len(),
        forall|i: int|
            0 <= i < text.len() ==> replaced(text, seq![old_one], seq![new_one])[i] == (
            if #[trigger] text[i] == old_one {
                new_one
            } else {
                text[i]
            }),
    decreases text.len(),
{
    if text.len() > 0 {
        let rest = text.skip(1);
        let out = replaced(text, seq![old_one], seq![new_one]);
        lemma_character_is_replaced_everywhere(rest, old_one, new_one);
        assert(text.subrange(0, 1)[0] == text[0]);
        if text[0] == old_one {
            assert(text.subrange(0, 1) =~= seq![old_one]);
        } else {
            assert(text.subrange(0, 1) != seq![old_one]) by {
                assert(seq![old_one][0] == old_one);
            }
        }
        assert forall|i: int| 0 <= i < text.len() implies out[i] == (if #[trigger] text[i]
            == old_one {
            new_one
        } else {
            text[i]
        }) by {
            if i > 0 {
                assert(rest[i - 1] == text[i]);
                assert(out[i] == replaced(rest, seq![old_one], seq![new_one])[i - 1]);
            }
        }
    }
}

/// What stands before a mark in a text ends where the mark first stands, and is all of it where it
/// stands nowhere.
pub proof fn lemma_before_first_ends_at_the_mark(text: Seq<char>, mark: Seq<char>)
    ensures
        ({
            let n = before_first(text, mark).len() as int;
            &&& n <= text.len()
            &&& before_first(text, mark) == text.take(n)
            &&& n == text.len() || occurs_at(text, mark, n)
            &&& forall|i: int| 0 <= i < n ==> !#[trigger] occurs_at(text, mark, i)
        }),
    decreases text.len(),
{
    let n = before_first(text, mark).len() as int;
    if begins_with(text, mark) {
        assert(text.take(0) =~= Seq::<char>::empty());
    } else if text.len() == 0 {
        assert(text.take(0) =~= text);
    } else {
        let rest = text.skip(1);
        lemma_before_first_ends_at_the_mark(rest, mark);
        assert(text.take(n) =~= before_first(text, mark));
        assert forall|i: int| 1 <= i <= text.len() implies #[trigger] occurs_at(text, mark, i)
            == occurs_at(rest, mark, i - 1) by {
            if i + mark.len() <= text.len() {
                assert(text.subrange(i, i + mark.len()) =~= rest.subrange(
                    i - 1,
                    i - 1 + mark.len(),
                ));
            }
        }
    }
}

/// A text without a beginning does not begin with it any more, and is the end of the text.
pub proof fn lemma_beginning_is_taken_off(text: Seq<char>, prefix: Seq<char>)
    requires
        prefix.len() > 0,
    ensures
        !begins_with(without_leading(text, prefix), prefix),
        without_leading(text, prefix).len() <= text.len(),
        without_leading(text, prefix) == text.skip(
            text.len() - without_leading(text, prefix).len(),
        ),
        !begins_with(text, prefix) ==> without_leading(text, prefix) == text,
    decreases text.len(),
{
    assert(text.skip(0) =~= text);
    if begins_with(text, prefix) {
        let rest = text.skip(prefix.len() as int);
        lemma_beginning_is_taken_off(rest, prefix);
        let left = without_leading(rest, prefix);
        assert(rest.skip(rest.len() - left.len()) =~= text.skip(text.len() - left.len()));
    }
}

/// What lies below a directory ends with its own name and starts with the directory, unless the name
/// leads elsewhere.
pub proof fn lemma_below_keeps_both_names(base: Seq<char>, name: Seq<char>)
    ensures
        finishes_with(below(base, name), name),
        absolute(name) ==> below(base, name) == name,
        !absolute(name) ==> begins_with(below(base, name), base),
        !absolute(name) && base.len() > 0 ==> below(base, name)[below(base, name).len()
            - name.len() - 1] == '/',
{
    reveal_strlit("/");
    let path = below(base, name);
    let n = path.len() as int;
    assert(path.subrange(n - name.len(), n) =~= name);
    if !absolute(name) {
        assert(path.subrange(0, base.len() as int) =~= base);
        if base.len() > 0 && finishes_with(base, "/"@) {
            let last = base.len() - 1;
            assert(base.subrange(last, base.len() as int)[0] == '/');
        }
    }
}

proof fn lemma_parts_are_pieces(segments: Seq<Seq<char>>, n: nat)
    requires
        n <= segments.len(),
    ensures
        forall|i: int|
            0 <= i < parts_of(segments, n).len() ==> (#[trigger] parts_of(segments, n)[i]).len() > 0
                && segments.contains(parts_of(segments, n)[i]),
        forall|i: int|
            0 <= i < n && (#[trigger] segments[i]).len() > 0 && segments[i] != "."@ ==> parts_of(
                segments,
                n,
            ).contains(segments[i]),
    decreases n,
{
    if n > 0 {
        let m = (n - 1) as nat;
        lemma_parts_are_pieces(segments, m);
        let before = parts_of(segments, m);
        let all = parts_of(segments, n);
        assert forall|i: int| 0 <= i < all.len() implies (#[trigger] all[i]).len() > 0
            && segments.contains(all[i]) by {
            if i < before.len() {
                assert(all[i] == before[i]);
            } else {
                assert(is_part(segments, m as int));
                assert(segments[m as int] == all[i]);
            }
        }
        assert forall|i: int|
            0 <= i < n && (#[trigger] segments[i]).len() > 0 && segments[i]
                != "."@ implies all.contains(segments[i]) by {
            if i < m {
                let j = choose|j: int| 0 <= j < before.len() && before[j] == segments[i];
                assert(all[j] == segments[i]);
            } else {
                assert(all[before.len() as int] == segments[i]);
            }
        }
    }
}

/// The parts of a path are what stands between its slashes, but for what is empty or stays where it
/// is; and the last name of a path is its last part.
pub proof fn lemma_parts_stand_between_slashes(path: Seq<char>)
    ensures
        forall|i: int|
            0 <= i < parts(path).len() ==> (#[trigger] parts(path)[i]).len() > 0 && !parts(
                path,
            )[i].contains('/'),
        forall|i: int|
            0 <= i < pieces(path, Separator::Char('/')).len() && (#[trigger] pieces(
                path,
                Separator::Char('/'),
            )[i]).len() > 0 && pieces(path, Separator::Char('/'))[i] != "."@ ==> parts(
                path,
            ).contains(pieces(path, Separator::Char('/'))[i]),
        last_name(path) matches Some(name) ==> parts(path).len() > 0 && name == parts(path).last()
            && name != ".."@ && name != "."@,
        last_name(path) is None ==> parts(path).len() == 0 || parts(path).last() == ".."@ || parts(
            path,
        ).last() == "."@,
{
    let segments = pieces(path, Separator::Char('/'));
    lemma_parts_are_pieces(segments, segments.len());
    lemma_pieces_are_joined_again(path, '/');
    assert forall|i: int| 0 <= i < parts(path).len() implies (#[trigger] parts(path)[i]).len() > 0
        && !parts(path)[i].contains('/') by {
        let j = choose|j: int| 0 <= j < segments.len() && segments[j] == parts(path)[i];
        assert(!segments[j].contains('/'));
    }
}

/// How a branch stands has a name of its own.
pub proof fn lemma_names_of_states()
    ensures
        status_name(BranchStatus::Success) == "Success"@,
        status_name(BranchStatus::Failed) == "Failed"@,
        status_name(BranchStatus::Conflict) == "Conflict"@,
        status_name(BranchStatus::Skipped) == "Skipped"@,
{
}

/// A failure is told with each of its causes behind it.
pub proof fn lemma_failure_is_told_with_its_causes(chain: Seq<Seq<char>>, cause: Seq<char>)
    ensures
        fault_text(seq![cause]) == cause,
        chain.len() > 0 ==> fault_text(chain.push(cause)) == fault_text(chain) + ": "@ + cause,
{
    assert(chain.push(cause).drop_last() =~= chain);
}

} // verus!
