//! The recent terminal output that a session keeps for clients that attach
//! later.

use std::collections::VecDeque;
use vstd::prelude::*;

verus! {

/// The byte that ends a line.
pub const NEWLINE: u8 = 0x0a;

/// The lines of `s` that a newline ends, each with its newline.
pub open spec fn complete_lines(s: Seq<u8>) -> Seq<Seq<u8>>
    decreases s.len(),
{
    if s.len() == 0 {
        Seq::empty()
    } else if s.last() == NEWLINE {
        complete_lines(s.drop_last()).push(rest_of(s.drop_last()).push(NEWLINE))
    } else {
        complete_lines(s.drop_last())
    }
}

/// What follows the last newline of `s`; all of `s` where it has none.
pub open spec fn rest_of(s: Seq<u8>) -> Seq<u8>
    decreases s.len(),
{
    if s.len() == 0 || s.last() == NEWLINE {
        Seq::empty()
    } else {
        rest_of(s.drop_last()).push(s.last())
    }
}

/// The bytes of all lines, one after the other.
pub open spec fn joined(lines: Seq<Seq<u8>>) -> Seq<u8>
    decreases lines.len(),
{
    if lines.len() == 0 {
        Seq::empty()
    } else {
        joined(lines.drop_last()) + lines.last()
    }
}

/// The last `n` elements of `s`; all of them where there are no more.
pub open spec fn last_n<T>(s: Seq<T>, n: nat) -> Seq<T> {
    if s.len() <= n {
        s
    } else {
        s.skip(s.len() - n)
    }
}

/// What a replay buffer holds.
#[verifier::ext_equal]
pub struct History {
    /// How many lines it keeps at most.
    pub cap: nat,
    /// The lines that it keeps, the oldest first.
    pub lines: Seq<Seq<u8>>,
    /// The line that is not complete yet.
    pub partial: Seq<u8>,
}

impl History {
    /// A history without output.
    pub open spec fn empty(cap: nat) -> History {
        History { cap, lines: Seq::empty(), partial: Seq::empty() }
    }

    /// No more lines are kept than allowed, and the partial line is partial.
    pub open spec fn wf(self) -> bool {
        &&& self.lines.len() <= self.cap
        &&& !self.partial.contains(NEWLINE)
    }

    /// The history after the partial line was taken for a complete one.
    pub open spec fn committed(self) -> History {
        History {
            cap: self.cap,
            lines: last_n(self.lines.push(self.partial), self.cap),
            partial: Seq::empty(),
        }
    }

    /// The history after more output. Without room for a line it keeps nothing.
    pub open spec fn pushed(self, bytes: Seq<u8>) -> History {
        if self.cap == 0 {
            self
        } else {
            History {
                cap: self.cap,
                lines: last_n(self.lines + complete_lines(self.partial + bytes), self.cap),
                partial: rest_of(self.partial + bytes),
            }
        }
    }

    /// The history after all chunks of output, in their order.
    pub open spec fn pushed_all(self, chunks: Seq<Seq<u8>>) -> History
        decreases chunks.len(),
    {
        if chunks.len() == 0 {
            self
        } else {
            self.pushed_all(chunks.drop_last()).pushed(chunks.last())
        }
    }

    /// The bytes that a new client is sent.
    pub open spec fn replay(self) -> Seq<u8> {
        joined(self.lines) + self.partial
    }
}

/// A replay buffer for terminal output.
pub struct LineBuffer {
    max_lines: usize,
    lines: VecDeque<Vec<u8>>,
    current: Vec<u8>,
}

/// The contents of each line.
pub open spec fn contents(lines: Seq<Vec<u8>>) -> Seq<Seq<u8>> {
    lines.map_values(|line: Vec<u8>| line@)
}

impl View for LineBuffer {
    type V = History;

    closed spec fn view(&self) -> History {
        History {
            cap: self.max_lines as nat,
            lines: contents(self.lines@),
            partial: self.current@,
        }
    }
}

impl LineBuffer {
    /// Creates a replay buffer capped at the requested number of complete lines.
    pub fn new(max_lines: usize) -> (buffer: Self)
        ensures
            buffer@ == History::empty(max_lines as nat),
            buffer@.wf(),
    {
        let buffer: LineBuffer = LineBuffer {
            max_lines,
            lines: VecDeque::new(),
            current: Vec::new(),
        };
        assert(contents(buffer.lines@) =~= Seq::<Seq<u8>>::empty());
        buffer
    }

    /// Appends output bytes, committing each newline-terminated line to history.
    pub fn push(&mut self, bytes: &[u8])
        requires
            old(self)@.wf(),
        ensures
            final(self)@ == old(self)@.pushed(bytes@),
            final(self)@.wf(),
    {
        if self.max_lines == 0 {
            return;
        }
        let ghost before: History = self@;
        proof {
            assert(before.partial + bytes@.take(0) =~= before.partial);
            lemma_no_newline(before.partial);
            assert(before.lines + complete_lines(before.partial) =~= before.lines);
        }
        let mut i: usize = 0;
        while i < bytes.len()
            invariant
                i <= bytes@.len(),
                before.cap > 0,
                self.max_lines == before.cap,
                self@.wf(),
                self@ == before.pushed(bytes@.take(i as int)),
            decreases bytes@.len() - i,
        {
            let byte: u8 = bytes[i];
            let ghost seen: Seq<u8> = before.partial + bytes@.take(i as int);
            let ghost more: Seq<u8> = before.partial + bytes@.take(i + 1);
            proof {
                assert(more =~= seen.push(byte));
                assert(more.drop_last() =~= seen);
                lemma_rest_has_no_newline(more);
            }
            self.current.push(byte);
            if byte == NEWLINE {
                proof {
                    let line: Seq<u8> = rest_of(seen).push(NEWLINE);
                    assert(before.lines + complete_lines(more) =~= (before.lines
                        + complete_lines(seen)).push(line));
                    lemma_last_n_push(before.lines + complete_lines(seen), line, before.cap);
                }
                self.push_current_line();
            }
            i = i + 1;
            assert(self@ =~= before.pushed(bytes@.take(i as int)));
        }
        assert(bytes@.take(bytes@.len() as int) =~= bytes@);
    }

    /// Returns complete retained lines followed by the current partial line.
    pub fn bytes(&self) -> (bytes: Vec<u8>)
        ensures
            bytes@ == self@.replay(),
    {
        let mut bytes: Vec<u8> = Vec::new();
        let mut i: usize = 0;
        assert(contents(self.lines@).take(0) =~= Seq::<Seq<u8>>::empty());
        while i < self.lines.len()
            invariant
                i <= self.lines@.len(),
                bytes@ == joined(contents(self.lines@).take(i as int)),
            decreases self.lines@.len() - i,
        {
            let ghost before: Seq<u8> = bytes@;
            bytes.extend_from_slice(self.lines[i].as_slice());
            proof {
                let head: Seq<Seq<u8>> = contents(self.lines@).take(i + 1);
                assert(head.drop_last() =~= contents(self.lines@).take(i as int));
                assert(head.last() == self.lines@[i as int]@);
                assert(bytes@ =~= before + self.lines@[i as int]@);
            }
            i = i + 1;
        }
        assert(contents(self.lines@).take(self.lines@.len() as int) =~= contents(self.lines@));
        let ghost before: Seq<u8> = bytes@;
        bytes.extend_from_slice(self.current.as_slice());
        assert(bytes@ =~= before + self.current@);
        bytes
    }

    /// Moves the current line into history and removes lines beyond the configured cap.
    pub fn push_current_line(&mut self)
        ensures
            final(self)@ == old(self)@.committed(),
            final(self)@.wf(),
    {
        let mut line: Vec<u8> = Vec::new();
        std::mem::swap(&mut line, &mut self.current);
        let ghost all: Seq<Seq<u8>> = self@.lines.push(line@);
        self.lines.push_back(line);
        assert(contents(self.lines@) =~= all);
        while self.lines.len() > self.max_lines
            invariant
                self.max_lines as nat == old(self)@.cap,
                self.current@ == Seq::<u8>::empty(),
                last_n(self@.lines, old(self)@.cap) == last_n(all, old(self)@.cap),
            decreases self.lines@.len(),
        {
            let ghost before: Seq<Vec<u8>> = self.lines@;
            let _ = self.lines.pop_front();
            proof {
                assert(contents(self.lines@) =~= contents(before).skip(1));
                assert(last_n(contents(self.lines@), old(self)@.cap) =~= last_n(
                    contents(before),
                    old(self)@.cap,
                ));
            }
        }
        assert(self@ =~= old(self)@.committed());
    }
}

proof fn lemma_no_newline(s: Seq<u8>)
    requires
        !s.contains(NEWLINE),
    ensures
        complete_lines(s) == Seq::<Seq<u8>>::empty(),
        rest_of(s) == s,
    decreases s.len(),
{
    if s.len() > 0 {
        let head: Seq<u8> = s.drop_last();
        assert(s[s.len() - 1] != NEWLINE);
        assert forall|i: int| 0 <= i < head.len() implies head[i] != NEWLINE by {
            assert(s[i] != NEWLINE);
        }
        lemma_no_newline(head);
        assert(head.push(s.last()) =~= s);
    }
}

proof fn lemma_rest_has_no_newline(s: Seq<u8>)
    ensures
        !rest_of(s).contains(NEWLINE),
    decreases s.len(),
{
    if s.len() > 0 && s.last() != NEWLINE {
        lemma_rest_has_no_newline(s.drop_last());
        let head: Seq<u8> = rest_of(s.drop_last());
        assert forall|i: int| 0 <= i < rest_of(s).len() implies rest_of(s)[i] != NEWLINE by {
            if i < head.len() {
                assert(head[i] != NEWLINE);
            }
        }
    }
}

proof fn lemma_last_n_push<T>(s: Seq<T>, x: T, n: nat)
    ensures
        last_n(last_n(s, n).push(x), n) == last_n(s.push(x), n),
{
    assert(last_n(last_n(s, n).push(x), n) =~= last_n(s.push(x), n));
}

proof fn lemma_last_n_add<T>(s: Seq<T>, t: Seq<T>, n: nat)
    ensures
        last_n(last_n(s, n) + t, n) == last_n(s + t, n),
{
    assert(last_n(last_n(s, n) + t, n) =~= last_n(s + t, n));
}

/// Cutting `s + t` into lines is cutting `s` into lines, and then `t` behind
/// what was left of `s`.
proof fn lemma_lines_of_sum(s: Seq<u8>, t: Seq<u8>)
    ensures
        complete_lines(s + t) == complete_lines(s) + complete_lines(rest_of(s) + t),
        rest_of(s + t) == rest_of(rest_of(s) + t),
    decreases t.len(),
{
    if t.len() == 0 {
        assert(s + t =~= s);
        assert(rest_of(s) + t =~= rest_of(s));
        lemma_rest_has_no_newline(s);
        lemma_no_newline(rest_of(s));
        assert(complete_lines(s) + complete_lines(rest_of(s)) =~= complete_lines(s));
    } else {
        let head: Seq<u8> = t.drop_last();
        lemma_lines_of_sum(s, head);
        assert((s + t).drop_last() =~= s + head);
        assert((rest_of(s) + t).drop_last() =~= rest_of(s) + head);
        assert(complete_lines(s + t) =~= complete_lines(s) + complete_lines(rest_of(s) + t));
    }
}

proof fn lemma_joined_add(a: Seq<Seq<u8>>, b: Seq<Seq<u8>>)
    ensures
        joined(a + b) == joined(a) + joined(b),
    decreases b.len(),
{
    if b.len() == 0 {
        assert(a + b =~= a);
        assert(joined(a) + joined(b) =~= joined(a));
    } else {
        lemma_joined_add(a, b.drop_last());
        assert((a + b).drop_last() =~= a + b.drop_last());
        assert(joined(a + b) =~= joined(a) + joined(b));
    }
}

/// Cutting bytes into lines loses none of them.
pub proof fn law_lines_cover_the_bytes(s: Seq<u8>)
    ensures
        joined(complete_lines(s)) + rest_of(s) == s,
    decreases s.len(),
{
    if s.len() > 0 {
        let head: Seq<u8> = s.drop_last();
        law_lines_cover_the_bytes(head);
        if s.last() == NEWLINE {
            assert(complete_lines(s).drop_last() =~= complete_lines(head));
        }
        assert(joined(complete_lines(s)) + rest_of(s) =~= head.push(s.last()));
        assert(head.push(s.last()) =~= s);
    }
}

/// A complete line ends in a newline and holds no other, and the rest holds
/// none.
pub proof fn law_lines_end_in_newline(s: Seq<u8>)
    ensures
        forall|i: int|
            0 <= i < complete_lines(s).len() ==> {
                let line: Seq<u8> = #[trigger] complete_lines(s)[i];
                &&& line.len() > 0
                &&& line.last() == NEWLINE
                &&& !line.drop_last().contains(NEWLINE)
            },
        !rest_of(s).contains(NEWLINE),
    decreases s.len(),
{
    lemma_rest_has_no_newline(s);
    if s.len() > 0 {
        let head: Seq<u8> = s.drop_last();
        law_lines_end_in_newline(head);
        assert forall|i: int| 0 <= i < complete_lines(s).len() implies {
            let line: Seq<u8> = #[trigger] complete_lines(s)[i];
            &&& line.len() > 0
            &&& line.last() == NEWLINE
            &&& !line.drop_last().contains(NEWLINE)
        } by {
            if i < complete_lines(head).len() {
                assert(complete_lines(s)[i] == complete_lines(head)[i]);
            } else {
                assert(complete_lines(s)[i].drop_last() =~= rest_of(head));
            }
        }
    }
}

/// More output keeps a history well formed, and its cap as it is.
pub proof fn law_push_keeps_history_well_formed(history: History, bytes: Seq<u8>)
    requires
        history.wf(),
    ensures
        history.pushed(bytes).wf(),
        history.pushed(bytes).cap == history.cap,
{
    lemma_rest_has_no_newline(history.partial + bytes);
}

/// It makes no difference into which chunks output is cut.
pub proof fn law_chunking_is_invisible(history: History, a: Seq<u8>, b: Seq<u8>)
    requires
        history.wf(),
    ensures
        history.pushed(a).pushed(b) == history.pushed(a + b),
{
    if history.cap > 0 {
        let seen: Seq<u8> = history.partial + a;
        assert(seen + b =~= history.partial + (a + b));
        lemma_lines_of_sum(seen, b);
        let tail: Seq<Seq<u8>> = complete_lines(rest_of(seen) + b);
        lemma_last_n_add(history.lines + complete_lines(seen), tail, history.cap);
        assert((history.lines + complete_lines(seen)) + tail =~= history.lines + complete_lines(
            seen + b,
        ));
    }
}

/// What a buffer holds depends on nothing but its cap and the bytes that it was
/// given, all in one.
pub proof fn law_history_is_of_the_stream(cap: nat, chunks: Seq<Seq<u8>>)
    ensures
        History::empty(cap).pushed_all(chunks) == History::empty(cap).pushed(joined(chunks)),
        History::empty(cap).pushed_all(chunks).wf(),
    decreases chunks.len(),
{
    let start: History = History::empty(cap);
    if chunks.len() == 0 {
        assert(start.partial + joined(chunks) =~= Seq::<u8>::empty());
        assert(start.lines + complete_lines(Seq::empty()) =~= start.lines);
        assert(start.pushed(joined(chunks)) =~= start);
    } else {
        law_history_is_of_the_stream(cap, chunks.drop_last());
        law_chunking_is_invisible(start, joined(chunks.drop_last()), chunks.last());
        law_push_keeps_history_well_formed(start, joined(chunks));
    }
}

/// A new client is sent the last complete lines of all output, as many as the
/// cap allows, and the unfinished line behind them. With a cap of zero it is
/// sent nothing.
pub proof fn law_replay_of_the_stream(cap: nat, chunks: Seq<Seq<u8>>)
    ensures
        History::empty(cap).pushed_all(chunks).replay() == if cap == 0 {
            Seq::<u8>::empty()
        } else {
            joined(last_n(complete_lines(joined(chunks)), cap)) + rest_of(joined(chunks))
        },
{
    law_history_is_of_the_stream(cap, chunks);
    let start: History = History::empty(cap);
    let all: Seq<u8> = joined(chunks);
    assert(start.partial + all =~= all);
    assert(start.lines + complete_lines(all) =~= complete_lines(all));
    if cap == 0 {
        assert(start.replay() =~= Seq::<u8>::empty());
    }
}

/// What a new client is sent is the end of all output, and all of it where
/// that has no more lines than the cap.
pub proof fn law_replay_is_the_end_of_the_stream(cap: nat, chunks: Seq<Seq<u8>>)
    ensures
        History::empty(cap).pushed_all(chunks).replay().is_suffix_of(joined(chunks)),
        0 < cap && complete_lines(joined(chunks)).len() <= cap ==> History::empty(cap).pushed_all(
            chunks,
        ).replay() == joined(chunks),
{
    law_replay_of_the_stream(cap, chunks);
    let all: Seq<u8> = joined(chunks);
    let replay: Seq<u8> = History::empty(cap).pushed_all(chunks).replay();
    law_lines_cover_the_bytes(all);
    if cap > 0 {
        let lines: Seq<Seq<u8>> = complete_lines(all);
        let kept: Seq<Seq<u8>> = last_n(lines, cap);
        let gone: Seq<Seq<u8>> = lines.take(lines.len() - kept.len());
        assert(gone + kept =~= lines);
        lemma_joined_add(gone, kept);
        assert(all =~= joined(gone) + replay);
        assert(all.subrange(all.len() - replay.len(), all.len() as int) =~= replay);
    } else {
        assert(all.subrange(all.len() as int, all.len() as int) =~= replay);
    }
}

/// How many newlines there are in `s`.
pub open spec fn newlines(s: Seq<u8>) -> nat {
    s.filter(|byte: u8| byte == 0x0a).len()
}

/// `s` is one line: it ends in a newline and holds no other.
pub open spec fn is_line(s: Seq<u8>) -> bool {
    &&& s.len() > 0
    &&& s.last() == 0x0a
    &&& !s.drop_last().contains(0x0a)
}

proof fn lemma_newlines_add(a: Seq<u8>, b: Seq<u8>)
    ensures
        newlines(a + b) == newlines(a) + newlines(b),
{
    Seq::filter_distributes_over_add(a, b, |byte: u8| byte == 0x0a);
}

proof fn lemma_newlines_absent(s: Seq<u8>)
    requires
        !s.contains(0x0a),
    ensures
        newlines(s) == 0,
    decreases s.len(),
{
    reveal(Seq::filter);
    if s.len() > 0 {
        let head: Seq<u8> = s.drop_last();
        assert(s[s.len() - 1] != 0x0a);
        assert forall|i: int| 0 <= i < head.len() implies head[i] != 0x0a by {
            assert(s[i] != 0x0a);
        }
        lemma_newlines_absent(head);
    }
}

proof fn lemma_newlines_of_lines(lines: Seq<Seq<u8>>)
    requires
        forall|i: int| 0 <= i < lines.len() ==> is_line(#[trigger] lines[i]),
    ensures
        newlines(joined(lines)) == lines.len(),
    decreases lines.len(),
{
    reveal(Seq::filter);
    if lines.len() > 0 {
        let head: Seq<Seq<u8>> = lines.drop_last();
        let line: Seq<u8> = lines.last();
        assert(is_line(lines[lines.len() - 1]));
        assert forall|i: int| 0 <= i < head.len() implies is_line(#[trigger] head[i]) by {
            assert(head[i] == lines[i]);
        }
        lemma_newlines_of_lines(head);
        lemma_newlines_absent(line.drop_last());
        assert(newlines(line) == 1);
        lemma_newlines_add(joined(head), line);
    }
}

proof fn lemma_joined_is_flatten(lines: Seq<Seq<u8>>)
    ensures
        joined(lines) == lines.flatten(),
    decreases lines.len(),
{
    if lines.len() == 0 {
        assert(joined(lines) =~= lines.flatten());
    } else {
        lemma_joined_is_flatten(lines.drop_last());
        assert(lines =~= lines.drop_last().push(lines.last()));
        lines.drop_last().lemma_flatten_push(lines.last());
    }
}

/// What a new client is sent, told of the output itself, however it was cut: the
/// end of it from the beginning of a line on, with as many newlines as the cap
/// allows, or all where there are no more. With a cap of zero it is nothing.
pub proof fn law_replay_is_as_many_lines_as_allowed(cap: nat, chunks: Seq<Seq<u8>>)
    ensures
        ({
            let all = chunks.flatten();
            let replay = History::empty(cap).pushed_all(chunks).replay();
            let from = all.len() - replay.len();
            &&& replay.is_suffix_of(all)
            &&& cap == 0 ==> replay.len() == 0
            &&& cap > 0 ==> from == 0 || all[from - 1] == 0x0a
            &&& cap > 0 ==> newlines(replay) == if newlines(all) < cap { newlines(all) } else { cap }
        }),
{
    lemma_joined_is_flatten(chunks);
    law_replay_of_the_stream(cap, chunks);
    law_replay_is_the_end_of_the_stream(cap, chunks);
    let all: Seq<u8> = joined(chunks);
    let replay: Seq<u8> = History::empty(cap).pushed_all(chunks).replay();
    law_lines_cover_the_bytes(all);
    law_lines_end_in_newline(all);
    if cap > 0 {
        let lines: Seq<Seq<u8>> = complete_lines(all);
        let kept: Seq<Seq<u8>> = last_n(lines, cap);
        let gone: Seq<Seq<u8>> = lines.take(lines.len() - kept.len());
        assert forall|i: int| 0 <= i < lines.len() implies is_line(#[trigger] lines[i]) by {}
        assert forall|i: int| 0 <= i < kept.len() implies is_line(#[trigger] kept[i]) by {
            assert(kept[i] == lines[lines.len() - kept.len() + i]);
        }
        assert(gone + kept =~= lines);
        lemma_joined_add(gone, kept);
        assert(all =~= joined(gone) + replay);
        lemma_newlines_of_lines(lines);
        lemma_newlines_of_lines(kept);
        lemma_newlines_absent(rest_of(all));
        lemma_newlines_add(joined(lines), rest_of(all));
        lemma_newlines_add(joined(kept), rest_of(all));
        if gone.len() > 0 {
            assert(is_line(lines[gone.len() - 1]));
            assert(gone.last() == lines[gone.len() - 1]);
            assert(joined(gone).last() == 0x0a);
        }
    }
}

/// A buffer starts without output, with the cap that was asked for.
pub proof fn law_history_starts_empty(cap: nat)
    ensures
        History::empty(cap).cap == cap,
        History::empty(cap).lines.len() == 0,
        History::empty(cap).partial.len() == 0,
        History::empty(cap).replay().len() == 0,
{
}

/// What a buffer gives back is all lines that it holds, one after the other, and
/// the unfinished line behind them.
pub proof fn law_replay_is_all_that_is_held(history: History)
    ensures
        history.replay() == history.lines.flatten() + history.partial,
{
    lemma_joined_is_flatten(history.lines);
}

/// `new` are the lines that output completed: with what is left of it they are
/// the unfinished line and the output behind it, and of the old lines and these
/// the last are kept, as many as the cap allows.
pub open spec fn completes(
    before: History,
    bytes: Seq<u8>,
    after: History,
    new: Seq<Seq<u8>>,
) -> bool {
    let all = before.lines.len() + new.len();
    &&& forall|i: int| 0 <= i < new.len() ==> is_line(#[trigger] new[i])
    &&& new.flatten() + after.partial == before.partial + bytes
    &&& !after.partial.contains(0x0a)
    &&& after.lines.is_suffix_of(before.lines + new)
    &&& after.lines.len() == if all < before.cap { all } else { before.cap }
}

/// What output does to a buffer, whatever it held before: each newline in it ends
/// a line, which is kept, and the oldest lines beyond the cap are dropped. With a
/// cap of zero nothing changes.
pub proof fn law_output_completes_lines(history: History, bytes: Seq<u8>)
    ensures
        history.pushed(bytes).cap == history.cap,
        history.cap == 0 ==> history.pushed(bytes) == history,
        history.cap > 0 ==> exists|new: Seq<Seq<u8>>|
            completes(history, bytes, history.pushed(bytes), new),
{
    if history.cap > 0 {
        let seen: Seq<u8> = history.partial + bytes;
        let new: Seq<Seq<u8>> = complete_lines(seen);
        let all: Seq<Seq<u8>> = history.lines + new;
        let after: History = history.pushed(bytes);
        law_lines_cover_the_bytes(seen);
        law_lines_end_in_newline(seen);
        lemma_joined_is_flatten(new);
        assert forall|i: int| 0 <= i < new.len() implies is_line(#[trigger] new[i]) by {}
        assert(after.lines =~= all.subrange(all.len() - after.lines.len(), all.len() as int));
        assert(completes(history, bytes, after, new));
    }
}

/// What taking the unfinished line for a complete one does: it is the last of the
/// lines then, no line is unfinished, and the oldest lines beyond the cap are
/// dropped.
pub proof fn law_committed_line_is_the_last(history: History)
    ensures
        ({
            let after = history.committed();
            let all = history.lines.push(history.partial);
            &&& after.cap == history.cap
            &&& after.partial.len() == 0
            &&& after.lines.is_suffix_of(all)
            &&& after.lines.len() == if all.len() < history.cap { all.len() } else { history.cap }
        }),
{
    let after: History = history.committed();
    let all: Seq<Seq<u8>> = history.lines.push(history.partial);
    assert(after.lines =~= all.subrange(all.len() - after.lines.len(), all.len() as int));
}

/// The contents are those of the list, as many and each in its place.
pub proof fn law_contents_are_those_of_the_list(lines: Seq<Vec<u8>>)
    ensures
        contents(lines).len() == lines.len(),
        forall|i: int| 0 <= i < lines.len() ==> #[trigger] contents(lines)[i] == lines[i]@,
{
}

} // verus!
