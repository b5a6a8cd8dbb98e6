//! The backend list: one `host:port` address per line.

use vstd::prelude::*;
use vstd::std_specs::iter::IteratorSpec;
use vstd::string::*;

verus! {

/// The number of characters of `text` before its first line feed, or the
/// length of `text` if it has none.
pub open spec fn line_length(text: Seq<char>) -> nat
    decreases text.len(),
{
    if text.len() == 0 || text[0] == '\n' {
        0
    } else {
        1 + line_length(text.drop_first())
    }
}

/// The lines of `text` that end in a line feed, in order and without the
/// line feed. Text after the last line feed belongs to no line.
pub open spec fn terminated_lines(text: Seq<char>) -> Seq<Seq<char>>
    decreases text.len(),
{
    let length = line_length(text);
    if length >= text.len() {
        Seq::empty()
    } else {
        seq![text.take(length as int)] + terminated_lines(text.skip(length as int + 1))
    }
}

/// The texts of `lines`.
pub open spec fn texts(lines: Seq<String>) -> Seq<Seq<char>> {
    lines.map_values(|line: String| line@)
}

/// A stretch without line feed that is followed by a line feed, or by the
/// end of the text, is the first line.
proof fn lemma_line_length(text: Seq<char>, length: nat)
    requires
        length <= text.len(),
        forall|j: int| 0 <= j < length ==> text[j] != '\n',
        length == text.len() || text[length as int] == '\n',
    ensures
        line_length(text) == length,
    decreases length,
{
    if length > 0 {
        let rest = text.drop_first();
        assert forall|j: int| 0 <= j < length - 1 implies rest[j] != '\n' by {
            assert(rest[j] == text[j + 1]);
        }
        lemma_line_length(rest, (length - 1) as nat);
    }
}

/// Reads the backend list from the contents of its file: every line that
/// ends in a line feed is one address. What follows the last line feed is
/// not an address.
pub fn parse_worker_list(contents: &str) -> (workers: Vec<String>)
    ensures
        texts(workers@) == terminated_lines(contents@),
{
    let length: usize = contents.unicode_len();
    let mut chars = contents.chars();
    let mut workers: Vec<String> = Vec::new();
    let mut start: usize = 0;
    let mut index: usize = 0;
    proof {
        assert(contents@.skip(0) =~= contents@);
        assert(texts(workers@) =~= Seq::<Seq<char>>::empty());
        assert(texts(workers@) + terminated_lines(contents@.skip(0)) =~= terminated_lines(
            contents@,
        ));
    }
    while index < length
        invariant
            length == contents@.len(),
            start <= index <= length,
            chars.obeys_prophetic_iter_laws(),
            chars.remaining() == contents@.skip(index as int),
            forall|j: int| start <= j < index ==> contents@[j] != '\n',
            texts(workers@) + terminated_lines(contents@.skip(start as int)) == terminated_lines(
                contents@,
            ),
        decreases length - index,
    {
        let ghost before = chars.remaining();
        match chars.next() {
            Some(c) => {
                assert(c == contents@[index as int]);
                if c == '\n' {
                    let line: &str = contents.substring_char(start, index);
                    let ghost done = texts(workers@);
                    workers.push(line.to_owned());
                    proof {
                        let tail = contents@.skip(start as int);
                        let here = (index - start) as nat;
                        assert forall|j: int| 0 <= j < here implies tail[j] != '\n' by {
                            assert(tail[j] == contents@[start + j]);
                        }
                        lemma_line_length(tail, here);
                        assert(tail.take(here as int) =~= contents@.subrange(
                            start as int,
                            index as int,
                        ));
                        assert(tail.skip(here as int + 1) =~= contents@.skip(index + 1));
                        assert(texts(workers@) =~= done + seq![line@]);
                        assert(texts(workers@) + terminated_lines(contents@.skip(index + 1))
                            =~= done + (seq![line@] + terminated_lines(
                            contents@.skip(index + 1),
                        )));
                    }
                    start = index + 1;
                }
            },
            None => {},
        }
        assert(before.drop_first() =~= contents@.skip(index + 1));
        index = index + 1;
    }
    proof {
        let tail = contents@.skip(start as int);
        assert forall|j: int| 0 <= j < tail.len() implies tail[j] != '\n' by {
            assert(tail[j] == contents@[start + j]);
        }
        lemma_line_length(tail, tail.len());
        assert(texts(workers@) + Seq::<Seq<char>>::empty() =~= texts(workers@));
    }
    workers
}

} // verus!
