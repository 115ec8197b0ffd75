//! The clocks of a game, with the history needed to take plies back.

use vstd::prelude::*;

verus! {

/// The history of quiet-move counts after one more quiet move: the newest
/// count goes up by one and stays at 255 once it is there.
pub open spec fn count_quiet_move(history: Seq<u8>) -> Seq<u8> {
    if history.len() == 0 {
        history
    } else if history.last() < 255 {
        history.update(history.len() - 1, (history.last() + 1) as u8)
    } else {
        history
    }
}

/// The history of quiet-move counts after one step back: a positive newest
/// count goes down by one; a newest count of zero is dropped, unless it is the
/// only one.
pub open spec fn uncount_move(history: Seq<u8>) -> Seq<u8> {
    if history.len() == 0 {
        history
    } else if history.last() > 0 {
        history.update(history.len() - 1, (history.last() - 1) as u8)
    } else if history.len() > 1 {
        history.drop_last()
    } else {
        history
    }
}

/// `n + 1`, held at the largest `u128`.
pub open spec fn bounded_successor(n: nat) -> nat {
    if n < u128::MAX {
        n + 1
    } else {
        n
    }
}

/// `n - 1`, held at zero.
pub open spec fn bounded_predecessor(n: nat) -> nat {
    if n > 0 {
        (n - 1) as nat
    } else {
        0
    }
}

/// The full-move number once one more ply is counted on top of `plies`: it
/// goes up when the new ply count is even.
pub open spec fn full_move_after_ply(plies: nat, full_move: nat) -> nat {
    if bounded_successor(plies) % 2 == 0 {
        bounded_successor(full_move)
    } else {
        full_move
    }
}

/// The full-move number once the latest of `plies` plies is taken back: it
/// goes down when that ply had made the count even, which is when counting
/// it had raised the number.
pub open spec fn full_move_before_ply(plies: nat, full_move: nat) -> nat {
    if plies > 0 && plies % 2 == 0 {
        bounded_predecessor(full_move)
    } else {
        full_move
    }
}

/// The clocks of a game: the plies played, the number of the current full
/// move, and the count of plies since the last move that reset the
/// fifty-move rule. Earlier counts are kept so that moves can be taken back.
pub struct MoveCounter {
    fifty_move_counter: Vec<u8>,
    halfmove: u128,
    fullmove: u128,
}

impl Default for MoveCounter {
    fn default() -> (r: Self)
        ensures
            r.fifty_move_history() == seq![0u8],
            r.halfmove() == 0,
            r.fullmove() == 1,
    {
        Self::new()
    }
}

impl MoveCounter {
    /// The quiet-move counts, oldest first; the last one is the current count.
    pub closed spec fn fifty_move_history(&self) -> Seq<u8> {
        self.fifty_move_counter@
    }

    /// The number of plies counted.
    pub closed spec fn halfmove(&self) -> nat {
        self.halfmove as nat
    }

    /// The number of the current full move.
    pub closed spec fn fullmove(&self) -> nat {
        self.fullmove as nat
    }

    /// The clocks at the start of a game.
    pub fn new() -> (r: Self)
        ensures
            r.fifty_move_history() == seq![0u8],
            r.halfmove() == 0,
            r.fullmove() == 1,
    {
        let mut fifty_move_counter: Vec<u8> = Vec::new();
        fifty_move_counter.push(0);
        assert(fifty_move_counter@ =~= seq![0u8]);
        Self { fifty_move_counter, halfmove: 0, fullmove: 1 }
    }

    /// Counts one ply. With `reset_fifty_move_rule` a fresh count of zero is
    /// opened; otherwise the current count goes up by one. The full-move
    /// number goes up whenever the ply count becomes even.
    pub fn increment(&mut self, reset_fifty_move_rule: bool)
        ensures
            final(self).fifty_move_history() == if reset_fifty_move_rule {
                old(self).fifty_move_history().push(0u8)
            } else {
                count_quiet_move(old(self).fifty_move_history())
            },
            final(self).halfmove() == bounded_successor(old(self).halfmove()),
            final(self).fullmove() == full_move_after_ply(
                old(self).halfmove(),
                old(self).fullmove(),
            ),
    {
        if reset_fifty_move_rule {
            self.reset_fifty_move_rule();
        } else {
            let n: usize = self.fifty_move_counter.len();
            if n > 0 {
                let count: u8 = self.fifty_move_counter[n - 1];
                if count < 255 {
                    self.fifty_move_counter.set(n - 1, count + 1);
                }
            }
        }
        self.halfmove = self.halfmove.saturating_add(1);
        if self.halfmove % 2 == 0 {
            self.fullmove = self.fullmove.saturating_add(1);
        }
    }

    /// Opens a fresh quiet-move count of zero.
    pub fn reset_fifty_move_rule(&mut self)
        ensures
            final(self).fifty_move_history() == old(self).fifty_move_history().push(0u8),
            final(self).halfmove() == old(self).halfmove(),
            final(self).fullmove() == old(self).fullmove(),
    {
        self.fifty_move_counter.push(0);
    }

    /// Takes one ply back, which undoes counting it. The ply count goes
    /// down by one, not below zero; the full-move number goes down, not
    /// below zero, when the ply taken back had made the ply count even.
    /// With no ply counted the two numbers stay as they are.
    pub fn decrement(&mut self)
        ensures
            final(self).fifty_move_history() == uncount_move(old(self).fifty_move_history()),
            final(self).halfmove() == bounded_predecessor(old(self).halfmove()),
            final(self).fullmove() == full_move_before_ply(
                old(self).halfmove(),
                old(self).fullmove(),
            ),
    {
        let n: usize = self.fifty_move_counter.len();
        if n > 0 {
            let count: u8 = self.fifty_move_counter[n - 1];
            if count > 0 {
                self.fifty_move_counter.set(n - 1, count - 1);
            } else if n > 1 {
                self.fifty_move_counter.pop();
            }
        }
        let plies: u128 = self.halfmove;
        self.halfmove = self.halfmove.saturating_sub(1);
        if plies > 0 && plies % 2 == 0 {
            self.fullmove = self.fullmove.saturating_sub(1);
        }
    }

    /// The plies counted since the fifty-move rule was last reset.
    pub fn get_fifty_move_rule_count(&self) -> (r: u8)
        ensures
            r == if self.fifty_move_history().len() > 0 {
                self.fifty_move_history().last()
            } else {
                0u8
            },
    {
        let n: usize = self.fifty_move_counter.len();
        if n > 0 {
            self.fifty_move_counter[n - 1]
        } else {
            0
        }
    }

    /// How many quiet-move counts are kept, the current one included.
    pub fn get_fifty_move_rule_resets(&self) -> (r: usize)
        ensures
            r == self.fifty_move_history().len(),
    {
        self.fifty_move_counter.len()
    }

    pub fn get_halfmove_count(&self) -> (r: u128)
        ensures
            r == self.halfmove(),
    {
        self.halfmove
    }

    pub fn get_fullmove_count(&self) -> (r: u128)
        ensures
            r == self.fullmove(),
    {
        self.fullmove
    }
}

/// Taking a ply back undoes counting it. Below the caps of the three
/// numbers, counting a ply, with or without a reset of the fifty-move
/// rule, and then taking a ply back leaves the quiet-move counts, the ply
/// count and the full-move number as they were.
pub proof fn law_uncount_reverts_count(
    history: Seq<u8>,
    plies: nat,
    full_move: nat,
    reset: bool,
)
    requires
        history.len() > 0,
        reset || history.last() < 255,
        plies < u128::MAX,
        full_move < u128::MAX,
    ensures
        uncount_move(
            if reset {
                history.push(0u8)
            } else {
                count_quiet_move(history)
            },
        ) == history,
        bounded_predecessor(bounded_successor(plies)) == plies,
        full_move_before_ply(bounded_successor(plies), full_move_after_ply(plies, full_move))
            == full_move,
{
    assert(history.push(0u8).drop_last() =~= history);
    if !reset {
        assert(uncount_move(count_quiet_move(history)) =~= history);
    }
}

} // verus!
