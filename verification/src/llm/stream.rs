//! Answers that come in pieces.
//!
//! A streamed answer is a sequence of lines. Those that start with `data:` hold a piece of the
//! answer, or say that it has ended.

use vstd::prelude::*;

use crate::data::{json_reading, parse_json};
use crate::fault::Fault;
use crate::llm::transport::{choice_text, text_of_choice};
use crate::text::bytes::{lossy, lossy_text};
use crate::text::pattern::{begins_with, starts_with, trim_start_text, without_leading};
use crate::text::{same_text, texts, trim, trimmed};

verus! {

/// What a line of a stream means.
pub enum LineView {
    /// Nothing.
    Blank,
    /// The answer has ended.
    Done,
    /// A piece of the answer.
    Delta(Seq<char>),
    /// The line cannot be read.
    Broken(Seq<Seq<char>>),
}

/// What a line of a stream means.
pub open spec fn line_meaning(line: Seq<char>) -> LineView {
    let line = trimmed(line);
    let data = trimmed(without_leading(line, "data:"@));
    if !begins_with(line, "data:"@) {
        LineView::Blank
    } else if data == "[DONE]"@ {
        LineView::Done
    } else {
        match json_reading(data) {
            Err(cause) => LineView::Broken(seq!["failed to parse LLM stream"@, cause]),
            Ok(document) => match choice_text(document, "delta"@) {
                Some(delta) => LineView::Delta(delta),
                None => LineView::Blank,
            },
        }
    }
}

enum Line {
    Blank,
    Done,
    Delta(String),
    Broken(Fault),
}

impl View for Line {
    type V = LineView;

    closed spec fn view(&self) -> LineView {
        match *self {
            Line::Blank => LineView::Blank,
            Line::Done => LineView::Done,
            Line::Delta(delta) => LineView::Delta(delta@),
            Line::Broken(fault) => LineView::Broken(fault@),
        }
    }
}

fn read_line(line: &str) -> (r: Line)
    ensures
        r@ == line_meaning(line@),
{
    let line = trim(line);
    if !starts_with(line.as_str(), "data:") {
        return Line::Blank;
    }
    proof {
        reveal_strlit("data:");
    }
    let rest = trim_start_text(line.as_str(), "data:");
    let data = trim(rest.as_str());
    if same_text(data.as_str(), "[DONE]") {
        return Line::Done;
    }
    match parse_json(data.as_str()) {
        Err(cause) => Line::Broken(Fault::because("failed to parse LLM stream".to_owned(), cause)),
        Ok(document) => match text_of_choice(&document, "delta") {
            Some(delta) => Line::Delta(delta),
            None => Line::Blank,
        },
    }
}

/// How a stream stands: more is to come, the answer is there, or a line could not be read.
pub enum EndView {
    More,
    Answer(Seq<char>),
    Broken(Seq<Seq<char>>),
}

/// What is left of a stream, what it said so far, the pieces that came out, and how it stands.
pub struct StreamView {
    pub pending: Seq<u8>,
    pub content: Seq<char>,
    pub deltas: Seq<Seq<char>>,
    pub end: EndView,
}

/// Reads the whole lines among bytes.
pub open spec fn read_lines(pending: Seq<u8>, content: Seq<char>, deltas: Seq<Seq<char>>) -> StreamView
    decreases pending.len(),
    via lemma_read_lines_ends
{
    match first_break(pending) {
        None => StreamView { pending, content, deltas, end: EndView::More },
        Some(at) => {
            let rest = pending.skip(at + 1);
            match line_meaning(lossy(pending.take(at + 1))) {
                LineView::Blank => read_lines(rest, content, deltas),
                LineView::Delta(delta) => read_lines(rest, content + delta, deltas.push(delta)),
                LineView::Done => StreamView {
                    pending: rest,
                    content,
                    deltas,
                    end: EndView::Answer(trimmed(content)),
                },
                LineView::Broken(chain) => StreamView {
                    pending: rest,
                    content,
                    deltas,
                    end: EndView::Broken(chain),
                },
            }
        },
    }
}

#[via_fn]
proof fn lemma_read_lines_ends(pending: Seq<u8>, content: Seq<char>, deltas: Seq<Seq<char>>) {
    lemma_first_break(pending);
}

/// Where the first line ends.
pub open spec fn first_break(bytes: Seq<u8>) -> Option<int>
    decreases bytes.len(),
{
    if bytes.len() == 0 {
        None
    } else if bytes[0] == 10 {
        Some(0)
    } else {
        match first_break(bytes.skip(1)) {
            Some(at) => Some(at + 1),
            None => None,
        }
    }
}

/// The first end of a line is one.
pub proof fn lemma_first_break(bytes: Seq<u8>)
    ensures
        first_break(bytes) matches Some(at) ==> 0 <= at < bytes.len() && bytes[at] == 10,
    decreases bytes.len(),
{
    if bytes.len() > 0 && bytes[0] != 10 {
        lemma_first_break(bytes.skip(1));
    }
}

fn find_break(bytes: &Vec<u8>) -> (r: Option<usize>)
    ensures
        match first_break(bytes@) {
            Some(at) => r matches Some(found) && found == at && found < bytes@.len(),
            None => r is None,
        },
{
    let mut i: usize = 0;
    assert(bytes@.skip(0) =~= bytes@);
    while i < bytes.len()
        invariant
            i <= bytes@.len(),
            first_break(bytes@) == (match first_break(bytes@.skip(i as int)) {
                Some(at) => Some(at + i),
                None => None,
            }),
        decreases bytes@.len() - i,
    {
        assert(bytes@.skip(i as int)[0] == bytes@[i as int]);
        assert(bytes@.skip(i as int).skip(1) =~= bytes@.skip(i + 1));
        if bytes[i] == 10 {
            return Some(i);
        }
        i = i + 1;
    }
    None
}

/// How a stream stands.
#[derive(Debug)]
pub enum StreamEnd {
    More,
    Answer(String),
    Broken(Fault),
}

impl View for StreamEnd {
    type V = EndView;

    open spec fn view(&self) -> EndView {
        match *self {
            StreamEnd::More => EndView::More,
            StreamEnd::Answer(text) => EndView::Answer(text@),
            StreamEnd::Broken(fault) => EndView::Broken(fault@),
        }
    }
}

/// What some bytes of a stream gave: pieces of the answer, in order, and then how the stream stands.
#[derive(Debug)]
pub struct StreamStep {
    pub deltas: Vec<String>,
    pub end: StreamEnd,
}

/// A streamed answer on its way.
pub struct ChatStream {
    pending: Vec<u8>,
    content: String,
}

impl ChatStream {
    /// The bytes that are not a whole line yet.
    pub closed spec fn left(&self) -> Seq<u8> {
        self.pending@
    }

    /// What the stream said so far.
    pub closed spec fn said(&self) -> Seq<char> {
        self.content@
    }

    /// A stream of which nothing has come.
    pub fn new() -> (r: ChatStream)
        ensures
            r.left() == Seq::<u8>::empty(),
            r.said() == Seq::<char>::empty(),
    {
        let r = ChatStream { pending: Vec::new(), content: String::new() };
        assert(r.left() =~= Seq::<u8>::empty());
        assert(r.said() =~= Seq::<char>::empty());
        r
    }

    /// Takes in bytes of the stream.
    pub fn feed(&mut self, bytes: &Vec<u8>) -> (r: StreamStep)
        ensures
            ({
                let read = read_lines(old(self).left() + bytes@, old(self).said(), Seq::empty());
                &&& final(self).left() == read.pending
                &&& final(self).said() == read.content
                &&& texts(r.deltas@) == read.deltas
                &&& r.end@ == read.end
            }),
    {
        broadcast use crate::text::lemma_texts_push;

        let mut i: usize = 0;
        let ghost start = self.pending@;
        let ghost said = self.content@;
        while i < bytes.len()
            invariant
                i <= bytes@.len(),
                self.pending@ == start + bytes@.take(i as int),
                self.content@ == said,
            decreases bytes@.len() - i,
        {
            self.pending.push(bytes[i]);
            assert(self.pending@ =~= start + bytes@.take(i + 1));
            i = i + 1;
        }
        assert(bytes@.take(i as int) =~= bytes@);
        let mut deltas: Vec<String> = Vec::new();
        let ghost expected = read_lines(start + bytes@, said, Seq::empty());
        assert(texts(deltas@) =~= Seq::<Seq<char>>::empty());
        loop
            invariant
                start == old(self).left(),
                said == old(self).said(),
                expected == read_lines(start + bytes@, said, Seq::empty()),
                expected == read_lines(self.pending@, self.content@, texts(deltas@)),
            decreases self.pending@.len(),
        {
            let ghost before = self.pending@;
            let ghost content = self.content@;
            let ghost given = texts(deltas@);
            let count: usize = self.pending.len();
            match find_break(&self.pending) {
                None => {
                    return StreamStep { deltas, end: StreamEnd::More };
                },
                Some(at) => {
                    assert(at < count);
                    let rest = self.pending.split_off(at + 1);
                    let line = lossy_text(self.pending.as_slice());
                    assert(self.pending@ =~= before.take(at + 1));
                    assert(rest@ =~= before.skip(at + 1));
                    self.pending = rest;
                    match read_line(line.as_str()) {
                        Line::Blank => {
                            assert(expected == read_lines(before.skip(at + 1), content, given));
                        },
                        Line::Delta(delta) => {
                            self.content.append(delta.as_str());
                            deltas.push(delta);
                            assert(texts(deltas@) == given.push(delta@));
                            assert(expected == read_lines(
                                before.skip(at + 1),
                                content + delta@,
                                given.push(delta@),
                            ));
                        },
                        Line::Done => {
                            let text = trim(self.content.as_str());
                            return StreamStep { deltas, end: StreamEnd::Answer(text) };
                        },
                        Line::Broken(fault) => {
                            return StreamStep { deltas, end: StreamEnd::Broken(fault) };
                        },
                    }
                },
            }
        }
    }

    /// The answer, once the stream has ended.
    pub fn finish(&self) -> (r: String)
        ensures
            r@ == trimmed(self.said()),
    {
        trim(self.content.as_str())
    }
}

proof fn lemma_first_break_concat(left: Seq<u8>, right: Seq<u8>)
    ensures
        first_break(left) matches Some(at) ==> first_break(left + right) == Some(at),
    decreases left.len(),
{
    if left.len() > 0 {
        assert((left + right)[0] == left[0]);
        if left[0] != 10 {
            assert((left + right).skip(1) =~= left.skip(1) + right);
            lemma_first_break_concat(left.skip(1), right);
        }
    }
}

/// How the bytes of a stream are cut does not matter: reading some of them and then the others
/// gives what reading all of them at once gives, where the first ones do not end the stream.
pub proof fn lemma_cut_does_not_matter(
    left: Seq<u8>,
    right: Seq<u8>,
    content: Seq<char>,
    deltas: Seq<Seq<char>>,
)
    ensures
        ({
            let first = read_lines(left, content, deltas);
            first.end is More ==> read_lines(left + right, content, deltas) == read_lines(
                first.pending + right,
                first.content,
                first.deltas,
            )
        }),
    decreases left.len(),
{
    match first_break(left) {
        None => {},
        Some(at) => {
            lemma_first_break(left);
            lemma_first_break_concat(left, right);
            let rest = left.skip(at + 1);
            assert((left + right).take(at + 1) =~= left.take(at + 1));
            assert((left + right).skip(at + 1) =~= rest + right);
            match line_meaning(lossy(left.take(at + 1))) {
                LineView::Blank => lemma_cut_does_not_matter(rest, right, content, deltas),
                LineView::Delta(delta) => lemma_cut_does_not_matter(
                    rest,
                    right,
                    content + delta,
                    deltas.push(delta),
                ),
                _ => {},
            }
        },
    }
}

} // verus!
