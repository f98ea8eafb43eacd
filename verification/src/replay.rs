//! The final report of a step's log: how much history is dropped, the notice
//! that says so, and the retained lines drawn as a nested block.

use vstd::prelude::*;
use crate::style::{dim, italic, renders, wrapped, DIM, ITALIC};
use crate::text::{decimal, to_decimal};
use crate::tree::{connector, prefix, BRANCH, TERMINATOR};

verus! {

/// How many of the oldest lines are dropped from a history of `len` lines
/// when at most `limit` lines may be kept. Without a limit nothing is dropped.
pub open spec fn dropped(len: nat, limit: Option<usize>) -> nat {
    match limit {
        Some(max) => if len > max {
            (len - max) as nat
        } else {
            0
        },
        None => 0,
    }
}

/// The lines that stay: the history without its `dropped` oldest lines.
pub open spec fn retained(history: Seq<Seq<char>>, limit: Option<usize>) -> Seq<Seq<char>> {
    history.skip(dropped(history.len(), limit) as int)
}

/// The words of the notice that reports `n` dropped lines.
pub open spec fn notice_text(n: nat) -> Seq<char> {
    seq!['(', 's', 'k', 'i', 'p', 'p', 'e', 'd', ' '] + decimal(n) + seq![
        ' ',
        'l',
        'i',
        'n',
        'e',
        's',
        ')',
    ]
}

/// The continuation mark that introduces the notice.
pub open spec fn notice_lead() -> Seq<char> {
    seq!['┆', ' ', '⋅', '⋅', '⋅', ' ']
}

/// `out` is the notice for `n` dropped lines: the lead and the words in
/// italic, the whole dimmed, each styling as the terminal settings had it.
pub open spec fn is_skip_notice(n: nat, out: Seq<char>) -> bool {
    ||| renders(DIM, notice_lead() + notice_text(n), out)
    ||| renders(DIM, notice_lead() + wrapped(ITALIC, notice_text(n)), out)
}

/// Line `i` of a block of `n` lines, before styling: its connector, a space,
/// and the text.
pub open spec fn prefixed(i: int, n: int, text: Seq<char>) -> Seq<char> {
    seq![connector(i, n), ' '] + text
}

/// `out` is the report for `history` under `limit`: the notice first if
/// anything was dropped, then every retained line in order, each with its
/// connector and dimmed.
pub open spec fn is_report(history: Seq<Seq<char>>, limit: Option<usize>, out: Seq<Seq<char>>) -> bool {
    let n = dropped(history.len(), limit);
    let kept = retained(history, limit);
    let lead: int = if n > 0 {
        1
    } else {
        0
    };
    &&& out.len() == lead + kept.len()
    &&& n > 0 ==> is_skip_notice(n, out[0])
    &&& forall|i: int|
        0 <= i < kept.len() ==> renders(
            DIM,
            prefixed(i, kept.len() as int, #[trigger] kept[i]),
            out[lead + i],
        )
}

/// Computes how many of the oldest of `len` lines are dropped under `limit`.
pub fn truncation(len: usize, limit: Option<usize>) -> (n: usize)
    ensures
        n == dropped(len as nat, limit),
{
    match limit {
        Some(max) => len.saturating_sub(max),
        None => 0,
    }
}

/// Writes the words of the notice for `n` dropped lines.
pub fn skipped_text(n: usize) -> (s: String)
    ensures
        s@ == notice_text(n as nat),
{
    proof {
        reveal_strlit("(skipped ");
        reveal_strlit(" lines)");
    }
    let mut s = String::from_str("(skipped ");
    let count = to_decimal(n);
    s.append(count.as_str());
    s.append(" lines)");
    assert(s@ =~= notice_text(n as nat));
    s
}

/// Builds the styled notice for `n` dropped lines.
pub fn skip_notice(n: usize) -> (line: String)
    ensures
        is_skip_notice(n as nat, line@),
{
    proof {
        reveal_strlit("┆ ⋅⋅⋅ ");
    }
    let words = skipped_text(n);
    let aside = italic(words.as_str());
    let mut plain = String::from_str("┆ ⋅⋅⋅ ");
    assert(plain@ =~= notice_lead());
    plain.append(aside.as_str());
    dim(plain.as_str())
}

/// Writes line `i` of a block of `n` lines with its connector, unstyled.
pub fn prefixed_line(i: usize, n: usize, line: &str) -> (s: String)
    ensures
        s@ == prefixed(i as int, n as int, line@),
{
    proof {
        reveal_strlit(" ");
    }
    let mut s = String::from_str(prefix(i, n));
    s.append(" ");
    s.append(line);
    assert(s@ =~= prefixed(i as int, n as int, line@));
    s
}

/// Builds the styled line `i` of a block of `n` lines.
pub fn replay_line(i: usize, n: usize, line: &str) -> (out: String)
    ensures
        renders(DIM, prefixed(i as int, n as int, line@), out@),
{
    let plain = prefixed_line(i, n, line);
    dim(plain.as_str())
}

/// Without a limit, or with one that the history does not exceed, nothing
/// is dropped: the report has no notice and replays the whole history, line
/// by line, oldest first.
pub proof fn lemma_report_without_truncation(
    history: Seq<Seq<char>>,
    limit: Option<usize>,
    out: Seq<Seq<char>>,
)
    requires
        limit matches Some(max) ==> max >= history.len(),
        is_report(history, limit, out),
    ensures
        dropped(history.len(), limit) == 0,
        retained(history, limit) == history,
        out.len() == history.len(),
        forall|i: int|
            0 <= i < history.len() ==> renders(
                DIM,
                prefixed(i, history.len() as int, #[trigger] history[i]),
                out[i],
            ),
{
    assert(retained(history, limit) =~= history);
}

/// With a limit of `max` lines and a longer history, exactly the excess is
/// dropped: the report opens with the notice of `len - max` skipped lines and
/// then replays the last `max` lines of the history, oldest first.
pub proof fn lemma_report_with_truncation(history: Seq<Seq<char>>, max: usize, out: Seq<Seq<char>>)
    requires
        max < history.len(),
        is_report(history, Some(max), out),
    ensures
        dropped(history.len(), Some(max)) == history.len() - max,
        retained(history, Some(max)) == history.subrange(
            history.len() - max,
            history.len() as int,
        ),
        out.len() == 1 + max,
        is_skip_notice((history.len() - max) as nat, out[0]),
        forall|i: int|
            0 <= i < max ==> renders(
                DIM,
                prefixed(i, max as int, #[trigger] history[history.len() - max + i]),
                out[1 + i],
            ),
{
    let kept = retained(history, Some(max));
    assert(kept =~= history.subrange(history.len() - max, history.len() as int));
    assert forall|i: int| 0 <= i < max implies renders(
        DIM,
        prefixed(i, max as int, #[trigger] history[history.len() - max + i]),
        out[1 + i],
    ) by {
        assert(kept[i] == history[history.len() - max + i]);
    }
}

/// In a report that replays at least one line, the last line and no other
/// carries the terminator; every line before it carries the branch.
pub proof fn lemma_report_ends_with_terminator(
    history: Seq<Seq<char>>,
    limit: Option<usize>,
    out: Seq<Seq<char>>,
)
    requires
        is_report(history, limit, out),
        retained(history, limit).len() > 0,
    ensures
        BRANCH != TERMINATOR,
        renders(DIM, seq![TERMINATOR, ' '] + retained(history, limit).last(), out.last()),
        forall|i: int|
            0 <= i < retained(history, limit).len() - 1 ==> renders(
                DIM,
                seq![BRANCH, ' '] + #[trigger] retained(history, limit)[i],
                out[out.len() - retained(history, limit).len() + i],
            ),
{
    let kept = retained(history, limit);
    let lead = out.len() - kept.len();
    assert(prefixed(kept.len() - 1, kept.len() as int, kept.last()) == seq![TERMINATOR, ' ']
        + kept.last());
    assert(out.last() == out[lead + (kept.len() - 1)]);
    assert forall|i: int| 0 <= i < kept.len() - 1 implies renders(
        DIM,
        seq![BRANCH, ' '] + #[trigger] kept[i],
        out[lead + i],
    ) by {
        assert(prefixed(i, kept.len() as int, kept[i]) == seq![BRANCH, ' '] + kept[i]);
    }
}

} // verus!
