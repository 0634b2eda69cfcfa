use super::constants::{
    MIN_MOVE_TIME, MOVE_LATE_GAME_START, MOVE_TIME_FRACTION_EARLY_GAME,
    MOVE_TIME_FRACTION_LATE_GAME,
};
use crate::engine::game::Game;
use crate::misc::types::{MoveNumber, MoveTime};
use vstd::prelude::*;

verus! {

/// A structure holing available time and increment and the number of moves until next time control.
pub struct TimeManagement {
    pub white_time: MoveTime,
    pub black_time: MoveTime,
    pub white_inc: MoveTime,
    pub black_inc: MoveTime,
    pub moves_to_go: MoveNumber,
}

impl Default for TimeManagement {
    fn default() -> (r: Self)
        ensures
            r == (TimeManagement {
                white_time: 0,
                black_time: 0,
                white_inc: 0,
                black_inc: 0,
                moves_to_go: 0,
            }),
    {
        TimeManagement { white_time: 0, black_time: 0, white_inc: 0, black_inc: 0, moves_to_go: 0 }
    }
}

/// The part of the time left that one move gets is one in this many: it falls from move to
/// move until the late game starts.
pub open spec fn move_time_fraction_spec(move_number: MoveNumber) -> int {
    if move_number >= MOVE_LATE_GAME_START {
        MOVE_TIME_FRACTION_LATE_GAME as int
    } else {
        (MOVE_TIME_FRACTION_LATE_GAME - MOVE_TIME_FRACTION_EARLY_GAME) * move_number
            / (MOVE_LATE_GAME_START as int) + MOVE_TIME_FRACTION_EARLY_GAME
    }
}

/// The time for the next move: a share of the time left and half of the increment, but no
/// more than the time left less the minimum move time, and no less than the minimum move
/// time.
pub open spec fn game_time_spec(
    time_avail: MoveTime,
    inc_avail: MoveTime,
    move_number: MoveNumber,
) -> int {
    let share = time_avail / (move_time_fraction_spec(move_number) as MoveTime) + inc_avail / 2;
    let reserve = if time_avail >= MIN_MOVE_TIME {
        time_avail - MIN_MOVE_TIME
    } else {
        0
    };
    let capped = if share <= reserve {
        share
    } else {
        reserve
    };
    if capped >= MIN_MOVE_TIME {
        capped
    } else {
        MIN_MOVE_TIME as int
    }
}

/// The part of the time left that one move gets is one in this many.
pub fn move_time_fraction(move_number: MoveNumber) -> (r: MoveTime)
    ensures
        r == move_time_fraction_spec(move_number),
        MOVE_TIME_FRACTION_EARLY_GAME <= r <= MOVE_TIME_FRACTION_LATE_GAME,
{
    if move_number >= MOVE_LATE_GAME_START {
        MOVE_TIME_FRACTION_LATE_GAME
    } else {
        let span = MOVE_TIME_FRACTION_LATE_GAME - MOVE_TIME_FRACTION_EARLY_GAME;
        assert(span * move_number <= 18 * 20) by (nonlinear_arith)
            requires
                span == 18,
                move_number < 20,
        ;
        span * move_number / MOVE_LATE_GAME_START + MOVE_TIME_FRACTION_EARLY_GAME
    }
}

impl TimeManagement {
    /// The time left and the increment of the side to move.
    pub open spec fn available(&self, white_to_move: bool) -> (MoveTime, MoveTime) {
        if white_to_move {
            (self.white_time, self.white_inc)
        } else {
            (self.black_time, self.black_inc)
        }
    }

    /// Calculate time to be spent for the next move.
    pub fn set_game_time(&mut self, g: &mut Game)
        ensures
            *final(self) == *old(self),
            final(g).move_time == game_time_spec(
                old(self).available(old(g).board.layout.white_to_move).0,
                old(self).available(old(g).board.layout.white_to_move).1,
                old(g).move_number,
            ),
            final(g).board == old(g).board,
            final(g).max_depth == old(g).max_depth,
            final(g).move_number == old(g).move_number,
            final(g).node_count == old(g).node_count,
            final(g).playing == old(g).playing,
            final(g).game_store == old(g).game_store,
            final(g).game_history == old(g).game_history,
    {
        let time_avail: MoveTime;
        let inc_avail: MoveTime;
        let mut move_time: MoveTime;

        if g.board.layout.white_to_move {
            time_avail = self.white_time;
            inc_avail = self.white_inc;
        } else {
            time_avail = self.black_time;
            inc_avail = self.black_inc;
        }

        let fraction = move_time_fraction(g.move_number);
        assert(time_avail / fraction <= time_avail / 2) by (nonlinear_arith)
            requires
                fraction >= 2,
        ;
        move_time = time_avail / fraction + inc_avail / 2;
        let reserve = time_avail.saturating_sub(MIN_MOVE_TIME);
        if move_time > reserve {
            move_time = reserve;
        }
        if move_time < MIN_MOVE_TIME {
            move_time = MIN_MOVE_TIME;
        }
        g.move_time = move_time;
    }
}

} // verus!
