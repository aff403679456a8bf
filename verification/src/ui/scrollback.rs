//! How received text breaks into display lines, and which lines are kept.
//!
//! Text arrives in chunks of any size. A line is complete once its line feed
//! has arrived; what follows the last line feed waits for more text. The
//! functions here say this over sequences of characters, and the lemmas show
//! that the way the text was cut into chunks leaves no trace.

use vstd::prelude::*;

verus! {

/// The most lines that the scrollback retains.
pub const MAX_LINES: usize = 1000;

/// Where the first line feed of `text` stands; `text.len()` when it has none.
pub open spec fn line_feed_at(text: Seq<char>) -> int
    decreases text.len(),
{
    if text.len() == 0 || text[0] == '\n' {
        0
    } else {
        1 + line_feed_at(text.skip(1))
    }
}

/// `line` without the carriage return at its end, if it ends in one. Only
/// that one is taken off: a second one in front of it belongs to the line.
pub open spec fn without_trailing_cr(line: Seq<char>) -> Seq<char> {
    if line.len() > 0 && line.last() == '\r' {
        line.drop_last()
    } else {
        line
    }
}

/// The lines that `text` completes: the pieces in front of each line feed, in
/// order, each without the carriage return at its end, if it has one.
pub open spec fn completed_lines(text: Seq<char>) -> Seq<Seq<char>>
    decreases text.len(),
{
    let at = line_feed_at(text);
    if 0 <= at < text.len() {
        seq![without_trailing_cr(text.take(at))] + completed_lines(text.skip(at + 1))
    } else {
        Seq::empty()
    }
}

/// What follows the last line feed of `text`: the line still being received.
pub open spec fn unfinished_tail(text: Seq<char>) -> Seq<char>
    decreases text.len(),
{
    let at = line_feed_at(text);
    if 0 <= at < text.len() {
        unfinished_tail(text.skip(at + 1))
    } else {
        text
    }
}

/// The newest `limit` of `lines`, oldest first; all of them when there are
/// no more than `limit`.
pub open spec fn newest(lines: Seq<Seq<char>>, limit: int) -> Seq<Seq<char>> {
    if lines.len() <= limit {
        lines
    } else {
        lines.skip(lines.len() - limit)
    }
}

/// `line_feed_at` finds the first line feed and nothing else.
pub proof fn lemma_line_feed_at(text: Seq<char>)
    ensures
        0 <= line_feed_at(text) <= text.len(),
        forall|j: int| 0 <= j < line_feed_at(text) ==> text[j] != '\n',
        line_feed_at(text) < text.len() ==> text[line_feed_at(text)] == '\n',
        line_feed_at(text) < text.len() <==> text.contains('\n'),
    decreases text.len(),
{
    if text.len() == 0 || text[0] == '\n' {
        if text.len() > 0 {
            assert(text.contains('\n'));
        }
    } else {
        let rest = text.skip(1);
        lemma_line_feed_at(rest);
        let at = line_feed_at(text);
        assert forall|j: int| 0 <= j < at implies text[j] != '\n' by {
            if j > 0 {
                assert(rest[j - 1] == text[j]);
            }
        }
        if at < text.len() {
            assert(rest[at - 1] == text[at]);
            assert(text.contains('\n'));
        }
        if text.contains('\n') {
            let k = choose|k: int| 0 <= k < text.len() && text[k] == '\n';
            assert(rest[k - 1] == '\n');
            assert(rest.contains('\n'));
        }
    }
}

/// In a concatenation the first line feed is that of the first part, or else
/// that of the second.
pub proof fn lemma_line_feed_at_concat(a: Seq<char>, b: Seq<char>)
    ensures
        line_feed_at(a + b) == if line_feed_at(a) < a.len() {
            line_feed_at(a)
        } else {
            a.len() + line_feed_at(b)
        },
    decreases a.len(),
{
    lemma_line_feed_at(a);
    if a.len() == 0 {
        assert(a + b =~= b);
    } else if a[0] == '\n' {
    } else {
        assert((a + b).skip(1) =~= a.skip(1) + b);
        lemma_line_feed_at_concat(a.skip(1), b);
    }
}

/// The unfinished tail holds no line feed.
pub proof fn lemma_unfinished_tail_has_no_line_feed(text: Seq<char>)
    ensures
        !unfinished_tail(text).contains('\n'),
        line_feed_at(unfinished_tail(text)) == unfinished_tail(text).len(),
    decreases text.len(),
{
    lemma_line_feed_at(text);
    let at = line_feed_at(text);
    if at < text.len() {
        lemma_unfinished_tail_has_no_line_feed(text.skip(at + 1));
    }
    lemma_line_feed_at(unfinished_tail(text));
}

/// Text may be cut anywhere: the lines completed by `a + b` are those
/// completed by `a`, then those completed by what `a` left unfinished
/// followed by `b`; and the same tail is left over.
pub proof fn lemma_split_concat(a: Seq<char>, b: Seq<char>)
    ensures
        completed_lines(a + b) == completed_lines(a) + completed_lines(unfinished_tail(a) + b),
        unfinished_tail(a + b) == unfinished_tail(unfinished_tail(a) + b),
    decreases a.len(),
{
    lemma_line_feed_at(a);
    lemma_line_feed_at_concat(a, b);
    let at = line_feed_at(a);
    if at < a.len() {
        let rest = a.skip(at + 1);
        assert((a + b).take(at) =~= a.take(at));
        assert((a + b).skip(at + 1) =~= rest + b);
        lemma_split_concat(rest, b);
        assert(completed_lines(a + b) =~= completed_lines(a) + completed_lines(
            unfinished_tail(a) + b,
        ));
    } else {
        assert(completed_lines(a) + completed_lines(a + b) =~= completed_lines(a + b));
    }
}

/// One more character: a line feed completes the unfinished tail as a line,
/// any other character extends the tail.
pub proof fn lemma_split_push(text: Seq<char>, c: char)
    ensures
        completed_lines(text.push(c)) == if c == '\n' {
            completed_lines(text).push(without_trailing_cr(unfinished_tail(text)))
        } else {
            completed_lines(text)
        },
        unfinished_tail(text.push(c)) == if c == '\n' {
            Seq::<char>::empty()
        } else {
            unfinished_tail(text).push(c)
        },
{
    let tail = unfinished_tail(text);
    let one = seq![c];
    assert(text.push(c) =~= text + one);
    lemma_split_concat(text, one);
    lemma_unfinished_tail_has_no_line_feed(text);
    lemma_line_feed_at_concat(tail, one);
    let joined = tail + one;
    assert(joined =~= tail.push(c));
    if c == '\n' {
        assert(line_feed_at(one) == 0);
        assert(joined.take(tail.len() as int) =~= tail);
        assert(joined.skip(tail.len() as int + 1) =~= Seq::<char>::empty());
        assert(completed_lines(Seq::<char>::empty()) =~= Seq::<Seq<char>>::empty());
        assert(completed_lines(joined) =~= seq![without_trailing_cr(tail)]);
        assert(unfinished_tail(Seq::<char>::empty()) =~= Seq::<char>::empty());
        assert(unfinished_tail(joined) =~= Seq::<char>::empty());
        assert(completed_lines(text) + seq![without_trailing_cr(tail)] =~= completed_lines(
            text,
        ).push(without_trailing_cr(tail)));
    } else {
        assert(line_feed_at(one.skip(1)) == 0);
        assert(line_feed_at(one) == 1);
        assert(line_feed_at(joined) == joined.len());
        assert(unfinished_tail(joined) == joined);
        assert(completed_lines(text) + Seq::<Seq<char>>::empty() =~= completed_lines(text));
    }
}

/// Evicting early changes nothing: keeping the newest lines, adding more and
/// keeping the newest again gives the newest of all of them.
pub proof fn lemma_newest_twice(lines: Seq<Seq<char>>, more: Seq<Seq<char>>, limit: int)
    requires
        0 <= limit,
    ensures
        newest(newest(lines, limit) + more, limit) == newest(lines + more, limit),
        newest(lines, limit).len() <= limit,
{
    assert(newest(newest(lines, limit) + more, limit) =~= newest(lines + more, limit));
}

} // verus!
