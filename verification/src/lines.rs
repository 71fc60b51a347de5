//! Word lists are kept as text with one entry per line. A line ends at a line
//! feed; a carriage return directly before that line feed belongs to the line
//! ending. The last line need not be ended.

use vstd::prelude::*;

verus! {

/// `String::push` of the standard library appends one character.
pub assume_specification[ String::push ](s: &mut String, c: char)
    ensures
        final(s)@ == old(s)@.push(c),
;

/// The number of characters that stand before the first line feed of `text`,
/// or the length of `text` if it holds none.
pub open spec fn line_end(text: Seq<char>) -> nat
    decreases text.len(),
{
    if text.len() == 0 || text[0] == '\n' {
        0
    } else {
        1 + line_end(text.skip(1))
    }
}

/// `line` without the carriage return at its end, if it has one.
pub open spec fn without_return(line: Seq<char>) -> Seq<char> {
    if line.len() > 0 && line.last() == '\r' {
        line.drop_last()
    } else {
        line
    }
}

/// The lines of `text`, in order and without their line endings. An empty
/// text has no lines; text after the last line feed is a line of its own and
/// keeps a carriage return at its end.
pub open spec fn lines_of(text: Seq<char>) -> Seq<Seq<char>>
    decreases text.len(),
{
    if text.len() == 0 {
        Seq::empty()
    } else {
        let n = line_end(text) as int;
        if n >= text.len() {
            seq![text]
        } else {
            seq![without_return(text.take(n))] + lines_of(text.skip(n + 1))
        }
    }
}

/// `line_end` is the one position that holds a line feed (or is the end of the
/// text) and has no line feed before it.
pub proof fn lemma_line_end(text: Seq<char>, n: int)
    requires
        0 <= n <= text.len(),
        forall|k: int| 0 <= k < n ==> text[k] != '\n',
        n == text.len() || text[n] == '\n',
    ensures
        line_end(text) == n,
    decreases text.len(),
{
    if n > 0 {
        lemma_line_end(text.skip(1), n - 1);
    }
}

/// Splits `text` into its lines in one pass.
pub fn split_lines(text: &str) -> (lines: Vec<String>)
    ensures
        lines.deep_view() == lines_of(text@),
{
    let mut lines: Vec<String> = Vec::new();
    let mut current = String::new();
    // A carriage return that was read and is stored only once the next
    // character shows that it does not end the line.
    let mut held_return = false;
    let ghost mut start: int = 0;
    assert(text@.skip(0) == text@);
    assert(lines.deep_view() + lines_of(text@) == lines_of(text@));
    for c in it: text.chars()
        invariant
            it.seq() == text@,
            0 <= start <= it.index(),
            lines_of(text@) == lines.deep_view() + lines_of(text@.skip(start)),
            forall|k: int| start <= k < it.index() ==> text@[k] != '\n',
            held_return == (start < it.index() && text@[it.index() - 1] == '\r'),
            current@ == if held_return {
                text@.subrange(start, it.index() - 1)
            } else {
                text@.subrange(start, it.index() as int)
            },
    {
        let ghost i = it.index() as int;
        let ghost rest = text@.skip(start);
        if c == '\n' {
            proof {
                lemma_line_end(rest, i - start);
                assert(rest.take(i - start) == text@.subrange(start, i));
                assert(rest.skip(i - start + 1) == text@.skip(i + 1));
                assert(without_return(text@.subrange(start, i)) == current@);
                assert(lines.deep_view().push(current@) + lines_of(text@.skip(i + 1))
                    == lines.deep_view() + lines_of(rest));
            }
            let ghost before = lines.deep_view();
            lines.push(current);
            assert(lines.deep_view() == before.push(current@));
            current = String::new();
            held_return = false;
            proof {
                start = i + 1;
            }
        } else {
            if held_return {
                current.push('\r');
            }
            if c == '\r' {
                held_return = true;
            } else {
                held_return = false;
                current.push(c);
            }
            assert(current@ == if held_return {
                text@.subrange(start, i)
            } else {
                text@.subrange(start, i + 1)
            });
        }
    }
    if held_return {
        current.push('\r');
    }
    let ghost rest = text@.skip(start);
    assert(current@ == rest);
    if !current.as_str().is_empty() {
        proof {
            lemma_line_end(rest, rest.len() as int);
            assert(lines.deep_view().push(current@) == lines.deep_view() + lines_of(rest));
        }
        let ghost before = lines.deep_view();
        lines.push(current);
        assert(lines.deep_view() == before.push(rest));
    } else {
        assert(lines.deep_view() + lines_of(rest) == lines.deep_view());
    }
    lines
}

} // verus!
