//! The sliding log window: a fixed number of display slots that show the
//! most recent log lines of a running step, newest at the bottom.

use vstd::prelude::*;
use crate::text::texts;
use crate::tree::{connector, prefix};

verus! {

/// A window of `n` slots that shows nothing yet.
pub open spec fn blank(n: nat) -> Seq<Seq<char>> {
    Seq::new(n, |i: int| Seq::<char>::empty())
}

/// The slots after `msg` arrives: every slot but the last takes over the
/// text of the slot below it, unless that text is empty, in which case it
/// keeps its own; the last slot shows `msg`.
pub open spec fn scrolled(slots: Seq<Seq<char>>, msg: Seq<char>) -> Seq<Seq<char>> {
    Seq::new(
        slots.len(),
        |i: int|
            if i + 1 == slots.len() {
                msg
            } else if slots[i + 1].len() > 0 {
                slots[i + 1]
            } else {
                slots[i]
            },
    )
}

/// The positions `0, 1, .., n - 1`.
pub open spec fn positions(n: nat) -> Seq<usize> {
    Seq::new(n, |i: int| i as usize)
}

/// The slots after the lines of `lines` arrived one by one, oldest first.
pub open spec fn after_lines(slots: Seq<Seq<char>>, lines: Seq<Seq<char>>) -> Seq<Seq<char>>
    decreases lines.len(),
{
    if lines.len() == 0 {
        slots
    } else {
        scrolled(after_lines(slots, lines.drop_last()), lines.last())
    }
}

/// The most recent line of `lines` that is not empty, or the empty text if
/// there is none.
pub open spec fn latest_text(lines: Seq<Seq<char>>) -> Seq<char>
    decreases lines.len(),
{
    if lines.len() == 0 {
        Seq::<char>::empty()
    } else if lines.last().len() > 0 {
        lines.last()
    } else {
        latest_text(lines.drop_last())
    }
}

/// What a window of `n` slots shows once `lines` have arrived in an empty
/// window: the last slot shows the last line; the slot `d` places above it
/// shows the most recent non-empty line among all but the last `d` lines.
pub open spec fn shown(n: nat, lines: Seq<Seq<char>>) -> Seq<Seq<char>> {
    Seq::new(
        n,
        |i: int|
            {
                let reached = lines.len() - (n - 1 - i);
                if lines.len() == 0 {
                    Seq::<char>::empty()
                } else if i + 1 == n {
                    lines.last()
                } else if reached <= 0 {
                    Seq::<char>::empty()
                } else {
                    latest_text(lines.take(reached))
                }
            },
    )
}

/// The last `n` lines of `lines` in order, bottom-aligned: where fewer than
/// `n` lines exist, the slots above them are empty.
pub open spec fn recent(n: nat, lines: Seq<Seq<char>>) -> Seq<Seq<char>> {
    Seq::new(
        n,
        |i: int|
            {
                let j = lines.len() - n + i;
                if j >= 0 {
                    lines[j]
                } else {
                    Seq::<char>::empty()
                }
            },
    )
}

/// No line is lost from view while `lines` scroll through a window of `n`
/// slots: each of the last `n` lines but the very last is non-empty, or has
/// only empty lines before it.
pub open spec fn scrolls_cleanly(n: nat, lines: Seq<Seq<char>>) -> bool {
    forall|j: int|
        0 <= j < lines.len() - 1 && lines.len() - n <= j ==> (#[trigger] lines[j]).len() > 0
            || latest_text(lines.take(j)).len() == 0
}

/// The texts shown in a fixed number of display slots, top to bottom.
pub struct LogsWindow {
    log_lines: Vec<String>,
}

impl View for LogsWindow {
    type V = Seq<Seq<char>>;

    /// The text of each slot, top to bottom.
    closed spec fn view(&self) -> Seq<Seq<char>> {
        texts(self.log_lines@)
    }
}

impl LogsWindow {
    /// A window of `nb_lines` slots, all empty.
    pub fn new(nb_lines: usize) -> (window: Self)
        ensures
            window@ == blank(nb_lines as nat),
    {
        let mut log_lines: Vec<String> = Vec::new();
        let mut i: usize = 0;
        while i < nb_lines
            invariant
                i <= nb_lines,
                log_lines@.len() == i,
                forall|k: int| 0 <= k < i ==> (#[trigger] log_lines@[k])@.len() == 0,
            decreases nb_lines - i,
        {
            log_lines.push(String::new());
            i += 1;
        }
        let window = Self { log_lines };
        assert(window@ =~~= blank(nb_lines as nat));
        window
    }

    /// The number of slots.
    pub fn len(&self) -> (n: usize)
        ensures
            n == self@.len(),
    {
        self.log_lines.len()
    }

    /// The text of each slot, top to bottom.
    pub fn log_lines(&self) -> (lines: &Vec<String>)
        ensures
            texts(lines@) == self@,
    {
        &self.log_lines
    }

    /// The connector that labels slot `i`: the terminator for the last slot,
    /// the branch for every other one.
    pub fn prefix(&self, i: usize) -> (p: &'static str)
        ensures
            p@ == seq![connector(i as int, self@.len() as int)],
    {
        prefix(i, self.log_lines.len())
    }

    /// Shows `msg` in the last slot, after moving the texts above it up by
    /// one slot. A slot whose text is empty is not moved up. The number of
    /// slots stays what it was.
    pub fn log(&mut self, msg: String)
        ensures
            final(self)@ == scrolled(old(self)@, msg@),
            final(self)@.len() == old(self)@.len(),
    {
        let n = self.log_lines.len();
        if n == 0 {
            assert(self@ =~= scrolled(old(self)@, msg@));
            return ;
        }
        let ghost before = self@;
        let ghost after = scrolled(before, msg@);
        let mut i: usize = 0;
        while i + 1 < n
            invariant
                i < n,
                n == self.log_lines@.len(),
                n == before.len(),
                after == scrolled(before, msg@),
                forall|k: int| 0 <= k < i ==> (#[trigger] self.log_lines@[k])@ == after[k],
                forall|k: int| i <= k < n ==> (#[trigger] self.log_lines@[k])@ == before[k],
            decreases n - i,
        {
            if !self.log_lines[i + 1].as_str().is_empty() {
                let next = self.log_lines[i + 1].clone();
                self.log_lines.set(i, next);
            }
            i += 1;
        }
        self.log_lines.set(n - 1, msg);
        assert(self@ =~= after);
    }

    /// Reacts to a change of the terminal's size: no slot's text changes, and
    /// every slot has to be painted again. Returns the positions of the slots
    /// to repaint, top to bottom.
    pub fn resize(&mut self, _size: u16) -> (repaint: Vec<usize>)
        ensures
            final(self)@ == old(self)@,
            repaint@ == positions(old(self)@.len()),
    {
        let n = self.log_lines.len();
        let mut repaint: Vec<usize> = Vec::new();
        let mut i: usize = 0;
        while i < n
            invariant
                i <= n,
                repaint@.len() == i,
                forall|k: int| 0 <= k < i ==> repaint@[k] == k,
            decreases n - i,
        {
            repaint.push(i);
            i += 1;
        }
        assert(repaint@ =~= positions(old(self)@.len()));
        repaint
    }
}

/// If no non-empty line is found in `lines`, none is found among its first
/// `m` lines either.
proof fn lemma_latest_text_of_prefix(lines: Seq<Seq<char>>, m: int)
    requires
        0 <= m <= lines.len(),
        latest_text(lines).len() == 0,
    ensures
        latest_text(lines.take(m)).len() == 0,
    decreases lines.len(),
{
    if m < lines.len() {
        assert(lines.drop_last().take(m) =~= lines.take(m));
        lemma_latest_text_of_prefix(lines.drop_last(), m);
    } else {
        assert(lines.take(m) =~= lines);
    }
}

/// What the window shows after any run of lines, starting empty: the last
/// slot shows the last line, and each slot above shows the most recent
/// non-empty line that has scrolled that far.
pub proof fn lemma_window_after_lines(n: nat, lines: Seq<Seq<char>>)
    ensures
        after_lines(blank(n), lines) == shown(n, lines),
    decreases lines.len(),
{
    if lines.len() == 0 {
        assert(blank(n) =~= shown(n, lines));
    } else {
        let earlier = lines.drop_last();
        lemma_window_after_lines(n, earlier);
        let before = shown(n, earlier);
        let now = scrolled(before, lines.last());
        assert forall|i: int| 0 <= i < n implies now[i] =~= shown(n, lines)[i] by {
            let reached = lines.len() - (n - 1 - i);
            if i + 1 < n && earlier.len() > 0 {
                if i + 2 == n {
                    assert(lines.take(reached) =~= earlier);
                    assert(earlier.take(reached - 1) =~= earlier.drop_last());
                    assert(reached - 1 <= 0 ==> latest_text(earlier.drop_last()).len() == 0);
                } else if reached > 0 {
                    assert(lines.take(reached) =~= earlier.take(reached));
                    if before[i + 1].len() == 0 {
                        lemma_latest_text_of_prefix(earlier.take(reached), reached - 1);
                        assert(earlier.take(reached).take(reached - 1) =~= earlier.take(
                            reached - 1,
                        ));
                    }
                }
            }
        }
        assert(now =~= shown(n, lines));
    }
}

/// Pushing up to `n` lines into an empty window of `n` slots leaves them in
/// the last slots, in order, below empty slots; pushing more leaves exactly
/// the last `n` lines, in order. This holds exactly for the runs of lines
/// that scroll cleanly: an empty line is not moved up, so a run in which an
/// empty line follows a non-empty one and is itself followed by another line
/// shows the non-empty line where the empty one should be.
pub proof fn lemma_window_shows_recent_lines(n: nat, lines: Seq<Seq<char>>)
    ensures
        scrolls_cleanly(n, lines) <==> after_lines(blank(n), lines) == recent(n, lines),
{
    lemma_window_after_lines(n, lines);
    let len = lines.len() as int;
    if scrolls_cleanly(n, lines) {
        assert forall|i: int| 0 <= i < n implies shown(n, lines)[i] =~= recent(n, lines)[i] by {
            let j = len - n + i;
            if len > 0 && i + 1 < n && j >= 0 {
                assert(lines[j].len() > 0 || latest_text(lines.take(j)).len() == 0);
                assert(lines.take(j + 1).drop_last() =~= lines.take(j));
                assert(lines.take(j + 1).last() == lines[j]);
            }
        }
        assert(shown(n, lines) =~~= recent(n, lines));
    }
    if shown(n, lines) == recent(n, lines) {
        assert forall|j: int| 0 <= j < len - 1 && len - n <= j implies (#[trigger] lines[j]).len()
            > 0 || latest_text(lines.take(j)).len() == 0 by {
            let i = j - len + n;
            assert(0 <= i < n - 1);
            assert(shown(n, lines)[i] == recent(n, lines)[i]);
            assert(lines.take(j + 1).drop_last() =~= lines.take(j));
            assert(lines.take(j + 1).last() == lines[j]);
        }
    }
}

/// A run of lines none of which is empty scrolls cleanly, so after it the
/// window shows the most recent lines, bottom-aligned and in order.
pub proof fn lemma_window_shows_recent_nonempty_lines(n: nat, lines: Seq<Seq<char>>)
    requires
        forall|j: int| 0 <= j < lines.len() ==> (#[trigger] lines[j]).len() > 0,
    ensures
        after_lines(blank(n), lines) == recent(n, lines),
{
    lemma_window_shows_recent_lines(n, lines);
}

} // verus!
