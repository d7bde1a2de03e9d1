use vstd::prelude::*;

verus! {

/// The phases of a round, in order. After `RoundCleanup` the next round
/// starts at `RoundSetup`.
#[derive(Copy, Clone, Debug, PartialEq, Eq, Hash, Structural)]
pub enum TurnState {
    Idle,
    RoundSetup,
    StartOfRound,
    PlayerTurn,
    PestTurnA,
    PestTurnB,
    EndOfRound,
    RoundCleanup,
}

/// Time between two steps of the pests, in microseconds.
pub const PEST_STEP_MICROS: u64 = 50_000;

/// A repeating interval timer over whole microseconds.
#[derive(Copy, Clone, Debug, PartialEq, Eq, Structural)]
pub struct TurnTimer {
    pub period: u64,
    pub elapsed: u64,
}

impl TurnTimer {
    /// The period is positive and the time run up lies below it.
    pub open spec fn wf(self) -> bool {
        0 < self.period && self.elapsed < self.period
    }

    /// A timer that fires every `period` microseconds.
    pub fn new(period: u64) -> (timer: TurnTimer)
        requires
            period > 0,
        ensures
            timer == (TurnTimer { period, elapsed: 0 }),
            timer.wf(),
    {
        TurnTimer { period, elapsed: 0 }
    }

    /// Starts the current interval over.
    pub fn reset(&mut self)
        ensures
            final(self).period == old(self).period,
            final(self).elapsed == 0,
    {
        self.elapsed = 0;
    }

    /// Lets `delta` microseconds pass and says whether the timer fired, that
    /// is, whether the end of an interval was reached. What runs over the end
    /// counts towards the next interval.
    pub fn tick(&mut self, delta: u64) -> (just_finished: bool)
        requires
            old(self).wf(),
        ensures
            final(self).period == old(self).period,
            final(self).elapsed == (old(self).elapsed + delta) % (old(self).period as int),
            just_finished == (old(self).elapsed + delta >= old(self).period),
            final(self).wf(),
    {
        let total: u128 = self.elapsed as u128 + delta as u128;
        let period: u128 = self.period as u128;
        let rest: u128 = total % period;
        self.elapsed = rest as u64;
        total >= period
    }
}

/// The phase that follows `state`. The zero-length phases pass at once; the
/// player's turn lasts until the player is done; the two pest phases take
/// turns whenever the timer fires.
pub open spec fn next_turn(state: TurnState, timer_finished: bool, player_done: bool) -> TurnState {
    match state {
        TurnState::Idle => TurnState::RoundSetup,
        TurnState::RoundSetup => TurnState::StartOfRound,
        TurnState::StartOfRound => TurnState::PlayerTurn,
        TurnState::PlayerTurn => if player_done {
            TurnState::PestTurnA
        } else {
            TurnState::PlayerTurn
        },
        TurnState::PestTurnA => if timer_finished {
            TurnState::PestTurnB
        } else {
            TurnState::PestTurnA
        },
        TurnState::PestTurnB => if timer_finished {
            TurnState::PestTurnA
        } else {
            TurnState::PestTurnB
        },
        TurnState::EndOfRound => TurnState::RoundCleanup,
        TurnState::RoundCleanup => TurnState::RoundSetup,
    }
}

/// Advances the phase by one scheduling pass. `timer_finished` says whether
/// the pest timer fired in this pass, `player_done` whether the player
/// completed a placement or gave the signal to end the turn; outside of the
/// player's turn that signal has no effect.
pub fn progress_turn(state: TurnState, timer_finished: bool, player_done: bool) -> (next: TurnState)
    ensures
        next == next_turn(state, timer_finished, player_done),
{
    match state {
        TurnState::Idle => TurnState::RoundSetup,
        TurnState::RoundSetup => TurnState::StartOfRound,
        TurnState::StartOfRound => TurnState::PlayerTurn,
        TurnState::PlayerTurn => if player_done {
            TurnState::PestTurnA
        } else {
            TurnState::PlayerTurn
        },
        TurnState::PestTurnA => if timer_finished {
            TurnState::PestTurnB
        } else {
            TurnState::PestTurnA
        },
        TurnState::PestTurnB => if timer_finished {
            TurnState::PestTurnA
        } else {
            TurnState::PestTurnB
        },
        TurnState::EndOfRound => TurnState::RoundCleanup,
        TurnState::RoundCleanup => TurnState::RoundSetup,
    }
}

/// Puts the phase back to `Idle`, as on leaving play.
pub fn reset_turn_state(state: &mut TurnState)
    ensures
        *final(state) == TurnState::Idle,
{
    *state = TurnState::Idle;
}

} // verus!
