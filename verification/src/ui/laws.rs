//! What holds of the console's state whatever happens to it.

use crate::ui::app_state::AppView;
use crate::ui::scrollback::{
    completed_lines, lemma_line_feed_at, lemma_newest_twice, lemma_split_concat,
    lemma_unfinished_tail_has_no_line_feed, newest, unfinished_tail, MAX_LINES,
};
use crate::config::UiConfig;
use crate::ui::{part_steps, send_steps, Step};
use vstd::prelude::*;
use vstd::utf8::{
    decode_utf8, is_char_boundary, length_of_first_scalar, pop_first_scalar, valid_utf8,
};

verus! {

impl AppView {
    /// The state after each of `chunks` has arrived, one after the other.
    pub open spec fn fed_all(self, chunks: Seq<Seq<char>>) -> AppView
        decreases chunks.len(),
    {
        if chunks.len() == 0 {
            self
        } else {
            self.fed_all(chunks.drop_last()).fed(chunks.last())
        }
    }
}

/// Text that arrives in two reads leaves the state that it leaves when it
/// arrives in one.
pub proof fn lemma_fed_twice(state: AppView, a: Seq<char>, b: Seq<char>)
    ensures
        state.fed(a).fed(b) == state.fed(a + b),
{
    let text = state.partial + a;
    lemma_split_concat(text, b);
    assert(text + b =~= state.partial + (a + b));
    lemma_newest_twice(
        state.lines + completed_lines(text),
        completed_lines(unfinished_tail(text) + b),
        MAX_LINES as int,
    );
    assert(state.lines + completed_lines(text) + completed_lines(unfinished_tail(text) + b)
        =~= state.lines + completed_lines(text + b));
}

/// Data without text changes nothing.
pub proof fn lemma_fed_nothing(state: AppView)
    requires
        state.wf(),
    ensures
        state.fed(Seq::empty()) == state,
{
    assert(state.partial + Seq::<char>::empty() =~= state.partial);
    lemma_line_feed_at(state.partial);
    assert(state.lines + Seq::<Seq<char>>::empty() =~= state.lines);
}

/// However text is cut into reads, the state in the end is the one that
/// the whole text leaves when it arrives at once: the same lines, the same
/// unfinished rest.
pub proof fn lemma_chunking_is_transparent(state: AppView, chunks: Seq<Seq<char>>)
    requires
        state.wf(),
    ensures
        state.fed_all(chunks) == state.fed(chunks.flatten()),
    decreases chunks.len(),
{
    if chunks.len() == 0 {
        lemma_fed_nothing(state);
    } else {
        let front = chunks.drop_last();
        lemma_chunking_is_transparent(state, front);
        lemma_fed_twice(state, front.flatten(), chunks.last());
        front.lemma_flatten_push(chunks.last());
        assert(front.push(chunks.last()) =~= chunks);
    }
}

/// Where two valid UTF-8 texts are joined, a character ends and one begins.
proof fn lemma_boundary_between(a: Seq<u8>, b: Seq<u8>)
    requires
        valid_utf8(a),
        valid_utf8(b),
    ensures
        valid_utf8(a + b),
        is_char_boundary(a + b, a.len() as int),
    decreases a.len(),
{
    vstd::utf8::valid_utf8_concat(a, b);
    if a.len() > 0 {
        let rest = pop_first_scalar(a);
        assert(length_of_first_scalar(a) <= a.len());
        assert(pop_first_scalar(a + b) =~= rest + b);
        lemma_boundary_between(rest, b);
    }
}

/// Bytes that are valid UTF-8 read by read decode to the same text read by
/// read as at once, so that cutting them into reads leaves no trace either.
pub proof fn lemma_valid_reads_join(state: AppView, a: Seq<u8>, b: Seq<u8>)
    requires
        valid_utf8(a),
        valid_utf8(b),
    ensures
        valid_utf8(a + b),
        decode_utf8(a + b) == decode_utf8(a) + decode_utf8(b),
        state.fed(decode_utf8(a)).fed(decode_utf8(b)) == state.fed(decode_utf8(a + b)),
{
    let all = a + b;
    lemma_boundary_between(a, b);
    assert(all.subrange(0, a.len() as int) =~= a);
    assert(all.subrange(a.len() as int, all.len() as int) =~= b);
    vstd::utf8::decode_utf8_split(all, a.len() as int);
    lemma_fed_twice(state, decode_utf8(a), decode_utf8(b));
}

/// The scrollback never holds more than `MAX_LINES` lines, and what it
/// holds are the newest lines in the order in which they came: the oldest
/// leave first.
pub proof fn lemma_fed_keeps_newest(state: AppView, data: Seq<char>)
    ensures
        state.fed(data).lines.len() <= MAX_LINES,
        ({
            let all = state.lines + completed_lines(state.partial + data);
            let kept = state.fed(data).lines;
            &&& kept.len() == if all.len() <= MAX_LINES {
                all.len()
            } else {
                MAX_LINES as nat
            }
            &&& forall|i: int|
                0 <= i < kept.len() ==> #[trigger] kept[i] == all[all.len() - kept.len() + i]
        }),
{
}

/// A scrollback that is well formed does not shrink when data arrives.
pub proof fn lemma_fed_grows(state: AppView, data: Seq<char>)
    requires
        state.wf(),
    ensures
        state.fed(data).lines.len() >= state.lines.len(),
        state.fed(data).wf(),
{
    lemma_unfinished_tail_has_no_line_feed(state.partial + data);
}

/// While the view follows, it is anchored to the newest line after any
/// burst of data.
pub proof fn lemma_following_tracks_newest(state: AppView, data: Seq<char>)
    requires
        state.auto_scroll,
    ensures
        state.fed(data).auto_scroll,
        state.fed(data).anchor() == state.fed(data).last_index(),
        state.fed(data).lines.len() > 0 ==> state.fed(data).anchor() == Some(
            state.fed(data).lines.len() - 1,
        ),
{
}

/// While the user scrolls, data leaves the cursor where it is, and the
/// cursor still points at a line.
pub proof fn lemma_positioned_cursor_stays(state: AppView, data: Seq<char>)
    requires
        state.wf(),
        !state.auto_scroll,
    ensures
        !state.fed(data).auto_scroll,
        state.fed(data).cursor == state.cursor,
        state.fed(data).anchor() == state.cursor,
        state.cursor matches Some(k) ==> 0 <= k < state.fed(data).lines.len(),
{
    lemma_fed_grows(state, data);
}

/// Every step leaves a well-formed state well formed.
pub proof fn lemma_steps_keep_wf(state: AppView, c: char, page_size: int)
    requires
        state.wf(),
        0 <= page_size,
    ensures
        state.scrolled_up().wf(),
        state.scrolled_down().wf(),
        state.paged_up(page_size).wf(),
        state.paged_down(page_size).wf(),
        state.at_home().wf(),
        state.at_bottom().wf(),
        state.following().wf(),
        state.typed(c).wf(),
        state.erased().wf(),
        state.cleared().wf(),
        state.quitting().wf(),
        state.rendered().wf(),
{
}

/// Only switching following on again ends manual scrolling: once the user
/// scrolls, neither data nor any other step brings following back.
pub proof fn lemma_following_needs_asking(state: AppView, data: Seq<char>, c: char, page_size: int)
    requires
        !state.auto_scroll,
    ensures
        !state.fed(data).auto_scroll,
        !state.scrolled_up().auto_scroll,
        !state.scrolled_down().auto_scroll,
        !state.paged_up(page_size).auto_scroll,
        !state.paged_down(page_size).auto_scroll,
        !state.at_home().auto_scroll,
        !state.at_bottom().auto_scroll,
        !state.typed(c).auto_scroll,
        !state.erased().auto_scroll,
        !state.cleared().auto_scroll,
        !state.quitting().auto_scroll,
        !state.rendered().auto_scroll,
        state.following().auto_scroll,
        state.following().cursor is None,
{
}

/// The bytes that `steps` write to the device, in order.
pub open spec fn transmitted(steps: Seq<Step>) -> Seq<u8>
    decreases steps.len(),
{
    if steps.len() == 0 {
        Seq::empty()
    } else {
        transmitted(steps.drop_last()) + match steps.last() {
            Step::Transmit(bytes) => bytes,
            _ => Seq::empty(),
        }
    }
}

/// The bytes that `steps` append to the log, in order, timestamps aside.
pub open spec fn logged(steps: Seq<Step>) -> Seq<u8>
    decreases steps.len(),
{
    if steps.len() == 0 {
        Seq::empty()
    } else {
        logged(steps.drop_last()) + match steps.last() {
            Step::Log(bytes) => bytes,
            _ => Seq::empty(),
        }
    }
}

/// The number of timestamps that `steps` append to the log.
pub open spec fn stamp_count(steps: Seq<Step>) -> nat
    decreases steps.len(),
{
    if steps.len() == 0 {
        0
    } else {
        stamp_count(steps.drop_last()) + match steps.last() {
            Step::LogStamp => 1nat,
            _ => 0nat,
        }
    }
}

/// What two runs of steps do is what the first does, then what the second
/// does.
pub proof fn lemma_steps_concat(a: Seq<Step>, b: Seq<Step>)
    ensures
        transmitted(a + b) == transmitted(a) + transmitted(b),
        logged(a + b) == logged(a) + logged(b),
        stamp_count(a + b) == stamp_count(a) + stamp_count(b),
    decreases b.len(),
{
    if b.len() == 0 {
        assert(a + b =~= a);
        assert(transmitted(a) + transmitted(b) =~= transmitted(a));
        assert(logged(a) + logged(b) =~= logged(a));
    } else {
        lemma_steps_concat(a, b.drop_last());
        assert((a + b).drop_last() =~= a + b.drop_last());
        assert((a + b).last() == b.last());
        assert(transmitted(a + b) =~= transmitted(a) + transmitted(b));
        assert(logged(a + b) =~= logged(a) + logged(b));
    }
}

/// One part of a send: its bytes go to the device once; to the log once
/// where sent bytes are logged; behind one timestamp where one is asked for.
pub proof fn lemma_part_steps(bytes: Seq<u8>, log: bool, stamp: bool)
    ensures
        transmitted(part_steps(bytes, log, stamp)) == bytes,
        logged(part_steps(bytes, log, stamp)) == if log {
            bytes
        } else {
            Seq::empty()
        },
        stamp_count(part_steps(bytes, log, stamp)) == if log && stamp && bytes.len() > 0 {
            1nat
        } else {
            0nat
        },
{
    reveal_with_fuel(transmitted, 4);
    reveal_with_fuel(logged, 4);
    reveal_with_fuel(stamp_count, 4);
    let steps = part_steps(bytes, log, stamp);
    if steps.len() == 3 {
        assert(steps.drop_last() =~= seq![Step::Transmit(bytes), Step::LogStamp]);
        assert(steps.drop_last().drop_last() =~= seq![Step::Transmit(bytes)]);
    } else if steps.len() == 2 {
        assert(steps.drop_last() =~= seq![Step::Transmit(bytes)]);
    }
    assert(transmitted(steps) =~= bytes);
    assert(logged(steps) =~= if log {
        bytes
    } else {
        Seq::empty()
    });
}

/// A send writes the line and then the line ending to the device, and
/// nothing else. Where sent bytes are logged, the log receives the same
/// bytes; where timestamps are on, it receives exactly one timestamp, unless
/// nothing at all is sent, and the timestamp comes before any of the bytes.
pub proof fn lemma_send_once_stamped(line: Seq<u8>, config: UiConfig)
    ensures
        transmitted(send_steps(line, config)) == line + config.line_ending.wire(),
        logged(send_steps(line, config)) == if config.tx_log {
            line + config.line_ending.wire()
        } else {
            Seq::empty()
        },
        stamp_count(send_steps(line, config)) == if config.tx_log && config.log_ts && (line
            + config.line_ending.wire()).len() > 0 {
            1nat
        } else {
            0nat
        },
        forall|i: int, j: int|
            0 <= i < j < send_steps(line, config).len() && (#[trigger] send_steps(
                line,
                config,
            )[j]) is LogStamp ==> !((#[trigger] send_steps(line, config)[i]) is Log),
{
    let ending = config.line_ending.wire();
    let first = part_steps(line, config.tx_log, config.log_ts);
    let second = part_steps(ending, config.tx_log, config.log_ts && line.len() == 0);
    lemma_steps_concat(first, second);
    lemma_part_steps(line, config.tx_log, config.log_ts);
    lemma_part_steps(ending, config.tx_log, config.log_ts && line.len() == 0);
    if !config.tx_log {
        assert(Seq::<u8>::empty() + Seq::<u8>::empty() =~= Seq::<u8>::empty());
    }
}

} // verus!
