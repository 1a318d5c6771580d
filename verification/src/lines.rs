//! How the text of a list file divides into items, and how items are put
//! back together into text.
//!
//! A line ends at a line feed. A carriage return directly before that line
//! feed belongs to the line ending, not to the item. Text after the last line
//! feed is a final, unterminated line, unless there is none.

use vstd::prelude::*;
use vstd::string::StringExecFns;

verus! {

/// The number of characters before the first line feed of `text`; the length
/// of `text` if it holds no line feed.
pub open spec fn first_line_len(text: Seq<char>) -> nat
    decreases text.len(),
{
    if text.len() == 0 || text[0] == '\n' {
        0
    } else {
        1 + first_line_len(text.skip(1))
    }
}

/// `line` without the carriage return at its end, if it has one.
pub open spec fn without_cr(line: Seq<char>) -> Seq<char> {
    if line.len() > 0 && line.last() == '\r' {
        line.drop_last()
    } else {
        line
    }
}

/// The items that a list file with the contents `text` holds, in order.
pub open spec fn lines_of(text: Seq<char>) -> Seq<Seq<char>>
    decreases text.len(),
{
    let n = first_line_len(text);
    if text.len() == 0 {
        Seq::empty()
    } else if n >= text.len() {
        seq![text]
    } else {
        seq![without_cr(text.take(n as int))] + lines_of(text.skip((n + 1) as int))
    }
}

/// The text of a list file that holds `lines`, each ended by a line feed.
pub open spec fn joined(lines: Seq<Seq<char>>) -> Seq<char>
    decreases lines.len(),
{
    if lines.len() == 0 {
        Seq::empty()
    } else {
        joined(lines.drop_last()) + lines.last() + seq!['\n']
    }
}

/// Whether `line` holds no line feed.
pub open spec fn is_single_line(line: Seq<char>) -> bool {
    forall|i: int| 0 <= i < line.len() ==> line[i] != '\n'
}

/// Whether `line` reads back as itself once it is written out with a line
/// feed after it: it holds no line feed and does not end in a carriage return.
pub open spec fn is_item(line: Seq<char>) -> bool {
    is_single_line(line) && without_cr(line) == line
}

/// Whether `text` is empty or ends with a line feed, so that what is
/// appended to it starts a line of its own.
pub open spec fn is_terminated(text: Seq<char>) -> bool {
    text.len() == 0 || text.last() == '\n'
}

/// The first line of `text` ends at `k` if no line feed comes before `k` and
/// `k` is a line feed or the end of the text.
pub proof fn lemma_first_line_len(text: Seq<char>, k: int)
    requires
        0 <= k <= text.len(),
        forall|j: int| 0 <= j < k ==> text[j] != '\n',
        k == text.len() || text[k] == '\n',
    ensures
        first_line_len(text) == k,
    decreases k,
{
    if k > 0 {
        lemma_first_line_len(text.skip(1), k - 1);
    }
}

/// The first line ends inside the text, at a line feed where there is one.
pub proof fn lemma_first_line_len_bound(text: Seq<char>)
    ensures
        first_line_len(text) <= text.len(),
        forall|j: int| 0 <= j < first_line_len(text) ==> text[j] != '\n',
        first_line_len(text) < text.len() ==> text[first_line_len(text) as int] == '\n',
    decreases text.len(),
{
    if text.len() == 0 || text[0] == '\n' {
    } else {
        let rest = text.skip(1);
        lemma_first_line_len_bound(rest);
        assert forall|j: int| 0 <= j < first_line_len(text) implies text[j] != '\n' by {
            if j > 0 {
                assert(text[j] == rest[j - 1]);
            }
        }
    }
}

/// Divides the contents of a list file into its items.
pub fn split_lines(text: &str) -> (lines: Vec<String>)
    ensures
        lines.deep_view() == lines_of(text@),
{
    let mut lines: Vec<String> = Vec::new();
    let mut line = String::new();
    // A carriage return that was read but not yet added to `line`: it is
    // dropped if a line feed follows, and kept otherwise.
    let mut held_cr = false;
    let ghost mut start: int = 0;
    proof {
        assert(text@.skip(0) == text@);
        assert(lines.deep_view() == Seq::<Seq<char>>::empty());
    }
    for c in it: text.chars()
        invariant
            it.seq() == text@,
            0 <= start <= it.index(),
            forall|j: int| start <= j < it.index() ==> text@[j] != '\n',
            text@.subrange(start, it.index()) == if held_cr {
                line@.push('\r')
            } else {
                line@
            },
            !held_cr ==> without_cr(line@) == line@,
            lines_of(text@) == lines.deep_view() + lines_of(text@.skip(start)),
    {
        let ghost i = it.index();
        let ghost seen = text@.subrange(start, i);
        proof {
            assert(text@.subrange(start, i + 1) == seen.push(c));
        }
        if c == '\n' {
            proof {
                let rest = text@.skip(start);
                assert forall|j: int| 0 <= j < i - start implies rest[j] != '\n' by {
                    assert(rest[j] == text@[start + j]);
                }
                lemma_first_line_len(rest, i - start);
                assert(rest.take(i - start) == seen);
                assert(rest.skip(i - start + 1) == text@.skip(i + 1));
                assert(without_cr(seen) == line@) by {
                    if held_cr {
                        assert(line@.push('\r').drop_last() == line@);
                    }
                }
                let before = lines.deep_view();
                assert(before.push(line@) + lines_of(text@.skip(i + 1)) == before + (seq![line@]
                    + lines_of(text@.skip(i + 1))));
                start = i + 1;
            }
            let ghost before = lines.deep_view();
            lines.push(line);
            proof {
                assert(lines.deep_view() == before.push(line@));
                assert(text@.subrange(start, i + 1) == Seq::<char>::empty());
            }
            line = String::new();
            held_cr = false;
        } else if c == '\r' {
            if held_cr {
                line.push('\r');
            }
            held_cr = true;
        } else {
            if held_cr {
                line.push('\r');
            }
            line.push(c);
            held_cr = false;
        }
    }
    let ghost rest = text@.skip(start);
    proof {
        assert(rest == text@.subrange(start, text@.len() as int));
        assert forall|j: int| 0 <= j < rest.len() implies rest[j] != '\n' by {
            assert(rest[j] == text@[start + j]);
        }
        lemma_first_line_len(rest, rest.len() as int);
    }
    if held_cr {
        line.push('\r');
    }
    if !line.as_str().is_empty() {
        let ghost before = lines.deep_view();
        lines.push(line);
        proof {
            assert(lines.deep_view() == before.push(rest));
            assert(before.push(rest) == before + seq![rest]);
        }
    } else {
        proof {
            assert(lines.deep_view() + Seq::<Seq<char>>::empty() == lines.deep_view());
        }
    }
    lines
}

/// Writes `lines` out as the contents of a list file, a line feed after each.
pub fn join_lines(lines: &Vec<String>) -> (text: String)
    ensures
        text@ == joined(lines.deep_view()),
{
    let mut text = String::new();
    let mut i: usize = 0;
    while i < lines.len()
        invariant
            i <= lines.len(),
            text@ == joined(lines.deep_view().take(i as int)),
        decreases lines.len() - i,
    {
        proof {
            let done = lines.deep_view().take(i + 1);
            assert(done.drop_last() == lines.deep_view().take(i as int));
            assert(done.last() == lines[i as int]@);
        }
        text.append(lines[i].as_str());
        text.push('\n');
        i += 1;
    }
    proof {
        assert(lines.deep_view().take(i as int) == lines.deep_view());
    }
    text
}

/// What is appended to a terminated text adds its own lines after those
/// that the text already holds.
pub proof fn lemma_lines_of_concat(text: Seq<char>, more: Seq<char>)
    requires
        is_terminated(text),
    ensures
        lines_of(text + more) == lines_of(text) + lines_of(more),
    decreases text.len(),
{
    if text.len() == 0 {
        assert(text + more == more);
        assert(lines_of(text) + lines_of(more) == lines_of(more));
    } else {
        let n = first_line_len(text) as int;
        let whole = text + more;
        lemma_first_line_len_bound(text);
        assert(n < text.len()) by {
            if n >= text.len() {
                assert(text[text.len() - 1] != '\n');
            }
        }
        assert forall|j: int| 0 <= j < n implies whole[j] != '\n' by {
            assert(whole[j] == text[j]);
        }
        assert(whole[n] == text[n]);
        lemma_first_line_len(whole, n);
        let rest = text.skip(n + 1);
        assert(whole.take(n) == text.take(n));
        assert(whole.skip(n + 1) == rest + more);
        assert(is_terminated(rest)) by {
            if rest.len() > 0 {
                assert(rest.last() == text.last());
            }
        }
        lemma_lines_of_concat(rest, more);
        let head = seq![without_cr(text.take(n))];
        assert(head + (lines_of(rest) + lines_of(more)) == (head + lines_of(rest)) + lines_of(
            more,
        ));
    }
}

/// A single line with a line feed after it is read back as one item: the
/// line itself, less a carriage return at its end.
pub proof fn lemma_lines_of_one(line: Seq<char>)
    requires
        is_single_line(line),
    ensures
        lines_of(line + seq!['\n']) == seq![without_cr(line)],
{
    let text = line + seq!['\n'];
    let n = line.len() as int;
    assert forall|j: int| 0 <= j < n implies text[j] != '\n' by {
        assert(text[j] == line[j]);
    }
    assert(text[n] == '\n');
    lemma_first_line_len(text, n);
    assert(text.take(n) == line);
    assert(text.skip(n + 1) == Seq::<char>::empty());
    assert(lines_of(text.skip(n + 1)) == Seq::<Seq<char>>::empty());
    assert(seq![without_cr(line)] + Seq::<Seq<char>>::empty() == seq![without_cr(line)]);
}

/// The text that `joined` writes is empty or ends with a line feed.
pub proof fn lemma_joined_is_terminated(lines: Seq<Seq<char>>)
    ensures
        is_terminated(joined(lines)),
{
}

/// Lines that are written out and read back come back in the same order,
/// each less a carriage return at its end.
pub proof fn lemma_lines_of_joined(lines: Seq<Seq<char>>)
    requires
        forall|i: int| 0 <= i < lines.len() ==> is_single_line(#[trigger] lines[i]),
    ensures
        lines_of(joined(lines)) == lines.map_values(|line: Seq<char>| without_cr(line)),
    decreases lines.len(),
{
    let strip = |line: Seq<char>| without_cr(line);
    if lines.len() == 0 {
        assert(lines_of(joined(lines)) == lines.map_values(strip));
    } else {
        let front = lines.drop_last();
        let last = lines.last();
        lemma_lines_of_joined(front);
        lemma_joined_is_terminated(front);
        assert(joined(lines) == joined(front) + (last + seq!['\n']));
        lemma_lines_of_concat(joined(front), last + seq!['\n']);
        lemma_lines_of_one(last);
        assert(front.map_values(strip) + seq![without_cr(last)] == lines.map_values(strip));
    }
}

/// Items that are written out and read back come back unchanged.
pub proof fn lemma_items_round_trip(lines: Seq<Seq<char>>)
    requires
        forall|i: int| 0 <= i < lines.len() ==> is_item(#[trigger] lines[i]),
    ensures
        lines_of(joined(lines)) == lines,
{
    lemma_lines_of_joined(lines);
    assert(lines.map_values(|line: Seq<char>| without_cr(line)) == lines);
}

/// No line that is read from a text holds a line feed.
pub proof fn lemma_lines_are_single(text: Seq<char>)
    ensures
        forall|i: int| 0 <= i < lines_of(text).len() ==> is_single_line(#[trigger] lines_of(text)[i]),
    decreases text.len(),
{
    let n = first_line_len(text) as int;
    lemma_first_line_len_bound(text);
    if text.len() == 0 {
    } else if n >= text.len() {
    } else {
        let rest = text.skip(n + 1);
        lemma_lines_are_single(rest);
        let first = without_cr(text.take(n));
        assert(is_single_line(first)) by {
            assert forall|j: int| 0 <= j < first.len() implies first[j] != '\n' by {
                assert(first[j] == text[j]);
            }
        }
        assert forall|i: int| 0 <= i < lines_of(text).len() implies is_single_line(
            #[trigger] lines_of(text)[i],
        ) by {
            if i > 0 {
                assert(lines_of(text)[i] == lines_of(rest)[i - 1]);
            }
        }
    }
}

} // verus!
