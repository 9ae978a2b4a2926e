//! Cutting text into pieces.

use vstd::prelude::*;

use crate::text::{char_is_space, chars_of, is_space, texts};

verus! {

/// What separates two pieces of a text.
#[derive(Clone, Copy)]
pub enum Separator {
    /// One character.
    Char(char),
    /// Any white space.
    Space,
}

/// Whether a character separates pieces.
pub open spec fn separates(separator: Separator, c: char) -> bool {
    match separator {
        Separator::Char(mark) => c == mark,
        Separator::Space => is_space(c),
    }
}

/// The pieces of a text between its separators, empty ones too; always at least one.
pub open spec fn pieces(text: Seq<char>, separator: Separator) -> Seq<Seq<char>>
    decreases text.len(),
{
    if text.len() == 0 {
        seq![Seq::empty()]
    } else {
        let before = pieces(text.drop_last(), separator);
        if separates(separator, text.last()) {
            before.push(Seq::empty())
        } else {
            before.drop_last().push(before.last().push(text.last()))
        }
    }
}

/// The pieces that are not empty.
pub open spec fn filled(list: Seq<Seq<char>>) -> Seq<Seq<char>> {
    list.filter(|piece: Seq<char>| piece.len() > 0)
}

/// A text has at least one piece.
pub proof fn lemma_pieces_not_empty(text: Seq<char>, separator: Separator)
    ensures
        pieces(text, separator).len() > 0,
    decreases text.len(),
{
    if text.len() > 0 {
        lemma_pieces_not_empty(text.drop_last(), separator);
    }
}

/// Cuts a text into its pieces.
pub fn split(text: &str, separator: Separator) -> (r: Vec<String>)
    ensures
        texts(r@) == pieces(text@, separator),
{
    broadcast use crate::text::lemma_texts_push;

    let chars = chars_of(text);
    let mut done: Vec<String> = Vec::new();
    let mut current = String::new();
    let mut i: usize = 0;
    assert(text@.take(0) =~= Seq::<char>::empty());
    assert(texts(done@).push(current@) =~= pieces(text@.take(0), separator));
    while i < chars.len()
        invariant
            chars@ == text@,
            i <= chars@.len(),
            texts(done@).push(current@) == pieces(text@.take(i as int), separator),
        decreases chars@.len() - i,
    {
        let c = chars[i];
        assert(text@.take(i + 1).drop_last() =~= text@.take(i as int));
        let ghost before = pieces(text@.take(i as int), separator);
        assert(before.drop_last() =~= texts(done@));
        let cut = match separator {
            Separator::Char(mark) => c == mark,
            Separator::Space => char_is_space(c),
        };
        if cut {
            done.push(current);
            current = String::new();
        } else {
            current.push(c);
        }
        i = i + 1;
    }
    assert(text@.take(i as int) =~= text@);
    done.push(current);
    done
}

/// Cuts a text into its pieces and keeps those that are not empty.
pub fn split_filled(text: &str, separator: Separator) -> (r: Vec<String>)
    ensures
        texts(r@) == filled(pieces(text@, separator)),
{
    broadcast use crate::text::lemma_texts_push;

    let all = split(text, separator);
    let mut out: Vec<String> = Vec::new();
    let mut i: usize = 0;
    let ghost list = pieces(text@, separator);
    assert(filled(list.take(0)) =~= texts(out@)) by {
        reveal(Seq::filter);
    }
    while i < all.len()
        invariant
            texts(all@) == list,
            i <= all@.len(),
            texts(out@) == filled(list.take(i as int)),
        decreases all@.len() - i,
    {
        proof {
            reveal(Seq::filter);
            assert(list.take(i + 1).drop_last() =~= list.take(i as int));
            assert(list[i as int] == texts(all@)[i as int]);
        }
        if !all[i].as_str().is_empty() {
            out.push(all[i].clone());
        }
        i = i + 1;
    }
    assert(list.take(i as int) =~= list);
    out
}

} // verus!
