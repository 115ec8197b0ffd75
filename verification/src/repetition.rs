//! A tally of the boards that a game has reached.

use vstd::prelude::*;
use crate::board::Board;
use crate::square::Square;

verus! {

/// How often one board has been reached.
#[derive(Copy, Clone, Debug)]
pub struct Repetition {
    pub board: Board,
    pub count: usize,
}

/// The count that `entries` hold for `board`: that of the latest entry with
/// this board, zero if there is none.
pub open spec fn count_in(entries: Seq<Repetition>, board: Seq<Square>) -> nat
    decreases entries.len(),
{
    if entries.len() == 0 {
        0
    } else if entries.last().board@ == board {
        entries.last().count as nat
    } else {
        count_in(entries.drop_last(), board)
    }
}

/// No two of `entries` are for the same board.
pub open spec fn distinct_boards(entries: Seq<Repetition>) -> bool {
    forall|i: int, j: int|
        0 <= i < j < entries.len() ==> (#[trigger] entries[i]).board@ != (#[trigger] entries[j]).board@
}

/// Where no board has two entries, the count for the board of an entry is
/// the count of that entry, and the count for a board without an entry is
/// zero.
pub proof fn lemma_count_in(entries: Seq<Repetition>, board: Seq<Square>)
    requires
        distinct_boards(entries),
    ensures
        forall|j: int|
            0 <= j < entries.len() && (#[trigger] entries[j]).board@ == board ==> count_in(
                entries,
                board,
            ) == entries[j].count,
        (forall|j: int| 0 <= j < entries.len() ==> (#[trigger] entries[j]).board@ != board)
            ==> count_in(entries, board) == 0,
    decreases entries.len(),
{
    if entries.len() > 0 {
        let rest = entries.drop_last();
        assert forall|i: int, j: int| 0 <= i < j < rest.len() implies (#[trigger] rest[i]).board@
            != (#[trigger] rest[j]).board@ by {
            assert(rest[i] == entries[i] && rest[j] == entries[j]);
        }
        lemma_count_in(rest, board);
        if entries.last().board@ == board {
            assert forall|j: int|
                0 <= j < entries.len() && (#[trigger] entries[j]).board@ == board implies j
                == entries.len() - 1 by {
                if j < entries.len() - 1 {
                    assert(entries[j].board@ != entries[entries.len() - 1].board@);
                }
            }
        } else {
            assert forall|j: int|
                0 <= j < entries.len() && (#[trigger] entries[j]).board@ == board implies count_in(
                entries,
                board,
            ) == entries[j].count by {
                assert(rest[j] == entries[j]);
            }
            if forall|j: int| 0 <= j < entries.len() ==> (#[trigger] entries[j]).board@ != board {
                assert forall|j: int| 0 <= j < rest.len() implies (#[trigger] rest[j]).board@
                    != board by {
                    assert(rest[j] == entries[j]);
                }
            }
        }
    }
}

/// A tally of how often each board has been reached.
pub struct RepetitionTally {
    entries: Vec<Repetition>,
}

impl RepetitionTally {
    /// No board is tallied twice.
    pub closed spec fn wf(&self) -> bool {
        distinct_boards(self.entries@)
    }

    /// How often `board` has been reached.
    pub closed spec fn count(&self, board: Seq<Square>) -> nat {
        count_in(self.entries@, board)
    }

    /// The tally in which no board has been reached.
    pub fn new() -> (r: Self)
        ensures
            r.wf(),
            forall|board: Seq<Square>| #[trigger] r.count(board) == 0,
    {
        Self { entries: Vec::new() }
    }

    /// Counts one more occurrence of `board`.
    pub fn record(&mut self, board: &Board)
        requires
            old(self).wf(),
            old(self).count(board@) < usize::MAX,
        ensures
            final(self).wf(),
            forall|other: Seq<Square>|
                #[trigger] final(self).count(other) == old(self).count(other) + if other
                    == board@ {
                    1nat
                } else {
                    0nat
                },
    {
        let ghost before = self.entries@;
        let mut i: usize = 0;
        while i < self.entries.len()
            invariant
                i <= self.entries@.len(),
                self.entries@ == before,
                before == old(self).entries@,
                distinct_boards(before),
                count_in(before, board@) < usize::MAX,
                forall|j: int| 0 <= j < i ==> (#[trigger] before[j]).board@ != board@,
            decreases self.entries@.len() - i,
        {
            let entry = self.entries[i];
            if entry.board.same_position(board) {
                proof {
                    lemma_count_in(before, board@);
                }
                self.entries.set(i, Repetition { board: entry.board, count: entry.count + 1 });
                proof {
                    let after = self.entries@;
                    assert forall|a: int, b: int| 0 <= a < b < after.len() implies (
                    #[trigger] after[a]).board@ != (#[trigger] after[b]).board@ by {
                        assert(after[a].board@ == before[a].board@);
                        assert(after[b].board@ == before[b].board@);
                    }
                    assert forall|other: Seq<Square>|
                        #[trigger] count_in(after, other) == count_in(before, other) + if other
                            == board@ {
                            1nat
                        } else {
                            0nat
                        } by {
                        lemma_count_in(before, other);
                        lemma_count_in(after, other);
                        if other == board@ {
                            assert(after[i as int].board@ == other);
                        } else if exists|j: int|
                            0 <= j < before.len() && (#[trigger] before[j]).board@ == other {
                            let j = choose|j: int|
                                0 <= j < before.len() && (#[trigger] before[j]).board@ == other;
                            assert(after[j] == before[j]);
                        } else {
                            assert forall|j: int| 0 <= j < after.len() implies (
                            #[trigger] after[j]).board@ != other by {
                                assert(after[j].board@ == before[j].board@);
                            }
                        }
                    }
                }
                return ;
            }
            i = i + 1;
        }
        self.entries.push(Repetition { board: *board, count: 1 });
        proof {
            let after = self.entries@;
            assert(after.drop_last() =~= before);
            lemma_count_in(before, board@);
            assert forall|a: int, b: int| 0 <= a < b < after.len() implies (#[trigger] after[a]).board@
                != (#[trigger] after[b]).board@ by {
                if b < before.len() {
                    assert(after[a] == before[a] && after[b] == before[b]);
                } else {
                    assert(after[a] == before[a]);
                }
            }
        }
    }

    /// Takes one occurrence of `board` back, if any is counted.
    pub fn forget(&mut self, board: &Board)
        requires
            old(self).wf(),
        ensures
            final(self).wf(),
            forall|other: Seq<Square>|
                #[trigger] final(self).count(other) == if other == board@ && old(self).count(other)
                    > 0 {
                    (old(self).count(other) - 1) as nat
                } else {
                    old(self).count(other)
                },
    {
        let ghost before = self.entries@;
        let mut i: usize = 0;
        while i < self.entries.len()
            invariant
                i <= self.entries@.len(),
                self.entries@ == before,
                before == old(self).entries@,
                distinct_boards(before),
                forall|j: int| 0 <= j < i ==> (#[trigger] before[j]).board@ != board@,
            decreases self.entries@.len() - i,
        {
            let entry = self.entries[i];
            if entry.board.same_position(board) {
                proof {
                    lemma_count_in(before, board@);
                }
                if entry.count > 0 {
                    self.entries.set(i, Repetition { board: entry.board, count: entry.count - 1 });
                    proof {
                        let after = self.entries@;
                        assert forall|a: int, b: int| 0 <= a < b < after.len() implies (
                        #[trigger] after[a]).board@ != (#[trigger] after[b]).board@ by {
                            assert(after[a].board@ == before[a].board@);
                            assert(after[b].board@ == before[b].board@);
                        }
                        assert forall|other: Seq<Square>|
                            #[trigger] count_in(after, other) == if other == board@ && count_in(
                                before,
                                other,
                            ) > 0 {
                                (count_in(before, other) - 1) as nat
                            } else {
                                count_in(before, other)
                            } by {
                            lemma_count_in(before, other);
                            lemma_count_in(after, other);
                            if other == board@ {
                                assert(after[i as int].board@ == other);
                            } else if exists|j: int|
                                0 <= j < before.len() && (#[trigger] before[j]).board@ == other {
                                let j = choose|j: int|
                                    0 <= j < before.len() && (#[trigger] before[j]).board@
                                        == other;
                                assert(after[j] == before[j]);
                            } else {
                                assert forall|j: int| 0 <= j < after.len() implies (
                                #[trigger] after[j]).board@ != other by {
                                    assert(after[j].board@ == before[j].board@);
                                }
                            }
                        }
                    }
                }
                return ;
            }
            i = i + 1;
        }
        proof {
            lemma_count_in(before, board@);
        }
    }

    /// Whether some board has been reached three times or more.
    pub fn has_threefold(&self) -> (r: bool)
        requires
            self.wf(),
        ensures
            r == exists|board: Seq<Square>| #[trigger] self.count(board) >= 3,
    {
        let mut i: usize = 0;
        while i < self.entries.len()
            invariant
                i <= self.entries@.len(),
                distinct_boards(self.entries@),
                forall|j: int| 0 <= j < i ==> (#[trigger] self.entries@[j]).count < 3,
            decreases self.entries@.len() - i,
        {
            if self.entries[i].count >= 3 {
                proof {
                    lemma_count_in(self.entries@, self.entries@[i as int].board@);
                    assert(self.count(self.entries@[i as int].board@) >= 3);
                }
                return true;
            }
            i = i + 1;
        }
        proof {
            assert forall|board: Seq<Square>| #[trigger] self.count(board) < 3 by {
                lemma_count_in(self.entries@, board);
                if exists|j: int|
                    0 <= j < self.entries@.len() && (#[trigger] self.entries@[j]).board@ == board {
                    let j = choose|j: int|
                        0 <= j < self.entries@.len() && (#[trigger] self.entries@[j]).board@
                            == board;
                    assert(self.entries@[j].count < 3);
                }
            }
        }
        false
    }

    /// How often `board` has been reached.
    pub fn get_count(&self, board: &Board) -> (r: usize)
        requires
            self.wf(),
        ensures
            r == self.count(board@),
    {
        let mut i: usize = 0;
        while i < self.entries.len()
            invariant
                i <= self.entries@.len(),
                distinct_boards(self.entries@),
                forall|j: int| 0 <= j < i ==> (#[trigger] self.entries@[j]).board@ != board@,
            decreases self.entries@.len() - i,
        {
            if self.entries[i].board.same_position(board) {
                proof {
                    lemma_count_in(self.entries@, board@);
                }
                return self.entries[i].count;
            }
            i = i + 1;
        }
        proof {
            lemma_count_in(self.entries@, board@);
        }
        0
    }
}

} // verus!
