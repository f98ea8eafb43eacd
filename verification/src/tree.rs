//! Tree-drawing connectors that mark the lines of a nested block.

use vstd::prelude::*;

verus! {

/// Connector of every line of a block but the last.
pub const BRANCH: char = '│';

/// Connector of the last line of a block.
pub const TERMINATOR: char = '└';

/// The connector of line `i` in a block of `n` lines: the terminator for the
/// last line, the branch for every other one.
pub open spec fn connector(i: int, n: int) -> char {
    if i + 1 == n {
        TERMINATOR
    } else {
        BRANCH
    }
}

/// Picks the connector of line `i` in a block of `n` lines, as a string of
/// that one character.
pub fn prefix(i: usize, n: usize) -> (p: &'static str)
    ensures
        p@ == seq![connector(i as int, n as int)],
{
    proof {
        reveal_strlit("└");
        reveal_strlit("│");
    }
    let p = if i < n && i + 1 == n {
        "└"
    } else {
        "│"
    };
    assert(p@ =~= seq![connector(i as int, n as int)]);
    p
}

/// Exactly one line of a non-empty block carries the terminator, and it is
/// the last one; every other line carries the branch.
pub proof fn lemma_terminator_is_last(n: int)
    requires
        n > 0,
    ensures
        connector(n - 1, n) == TERMINATOR,
        forall|i: int| 0 <= i < n - 1 ==> connector(i, n) == BRANCH,
        BRANCH != TERMINATOR,
{
}

} // verus!
