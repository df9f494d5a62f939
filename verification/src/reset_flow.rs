//! The two-step confirmed reset.
//!
//! A reset request first only prompts: the flow starts in
//! [`ResetState::Prompted`] holding a correlation token and the originating
//! actor. Signals then drive it: a press of "confirm" or "cancel" carrying
//! the prompt's token from the originating actor decides the flow — exactly
//! one transition, first valid signal wins — while a press with a foreign
//! token or from any other actor changes nothing, and an elapsed wait window
//! ends the flow with no mutation at all. Only the owner's confirm ever asks
//! for the counter to be cleared.

use crate::counter::{reset_state, CounterTable};
use vstd::prelude::*;

verus! {

/// How long the prompt waits for a press before it expires, in seconds.
pub const RESET_WAIT_SECS: u64 = 30;

/// Which of the two offered buttons a press chose.
#[derive(Clone, Copy, PartialEq, Eq, Structural, Debug)]
pub enum ResetChoice {
    Confirm,
    Cancel,
}

/// One input to the flow: a button press correlated to a prompt by its
/// token, or the end of the wait window.
#[derive(Clone, Copy, PartialEq, Eq, Structural, Debug)]
pub enum ResetSignal {
    Press { token: u64, actor: u64, choice: ResetChoice },
    Elapsed,
}

/// Where the flow stands. `Prompted` is the only state with a transition
/// out; the other three are terminal.
#[derive(Clone, Copy, PartialEq, Eq, Structural, Debug)]
pub enum ResetState {
    Prompted,
    Confirmed,
    Canceled,
    TimedOut,
}

/// What the caller must do after feeding a signal in.
#[derive(Clone, Copy, PartialEq, Eq, Structural, Debug)]
pub enum ResetAction {
    /// Set the owner's counter to zero and withdraw the prompt.
    ClearCounter,
    /// Withdraw the prompt; the counter is untouched.
    WithdrawPrompt,
    /// Nothing: the signal did not decide this prompt.
    Ignore,
}

/// One pending reset prompt.
#[derive(Clone, Copy, PartialEq, Eq, Structural, Debug)]
pub struct ResetFlow {
    /// The correlation token the prompt was issued under.
    pub token: u64,
    /// The actor that asked for the reset; nobody else may decide it.
    pub owner: u64,
    pub state: ResetState,
}

impl ResetFlow {
    /// What one signal does to the flow, and what it asks of the caller.
    pub open spec fn spec_step(self, s: ResetSignal) -> (ResetFlow, ResetAction) {
        if self.state != ResetState::Prompted {
            (self, ResetAction::Ignore)
        } else {
            match s {
                ResetSignal::Press { token, actor, choice } => {
                    if token == self.token && actor == self.owner {
                        match choice {
                            ResetChoice::Confirm => (
                                ResetFlow {
                                    token: self.token,
                                    owner: self.owner,
                                    state: ResetState::Confirmed,
                                },
                                ResetAction::ClearCounter,
                            ),
                            ResetChoice::Cancel => (
                                ResetFlow {
                                    token: self.token,
                                    owner: self.owner,
                                    state: ResetState::Canceled,
                                },
                                ResetAction::WithdrawPrompt,
                            ),
                        }
                    } else {
                        (self, ResetAction::Ignore)
                    }
                },
                ResetSignal::Elapsed => (
                    ResetFlow {
                        token: self.token,
                        owner: self.owner,
                        state: ResetState::TimedOut,
                    },
                    ResetAction::Ignore,
                ),
            }
        }
    }

    /// Opens the flow: a fresh prompt bound to its token and its actor.
    pub fn prompt(token: u64, owner: u64) -> (r: ResetFlow)
        ensures
            r == (ResetFlow { token, owner, state: ResetState::Prompted }),
    {
        ResetFlow { token, owner, state: ResetState::Prompted }
    }

    /// Feeds one signal in. The flow moves as [`spec_step`](Self::spec_step)
    /// says: a terminal flow never moves again, a foreign press is ignored,
    /// and only the owner's correlated press decides the prompt.
    pub fn step(&mut self, s: ResetSignal) -> (a: ResetAction)
        ensures
            (*final(self), a) == old(self).spec_step(s),
            old(self).state != ResetState::Prompted ==> *final(self) == *old(self) && a
                == ResetAction::Ignore,
    {
        if !matches!(self.state, ResetState::Prompted) {
            return ResetAction::Ignore;
        }
        match s {
            ResetSignal::Press { token, actor, choice } => {
                if token == self.token && actor == self.owner {
                    match choice {
                        ResetChoice::Confirm => {
                            self.state = ResetState::Confirmed;
                            ResetAction::ClearCounter
                        },
                        ResetChoice::Cancel => {
                            self.state = ResetState::Canceled;
                            ResetAction::WithdrawPrompt
                        },
                    }
                } else {
                    ResetAction::Ignore
                }
            },
            ResetSignal::Elapsed => {
                self.state = ResetState::TimedOut;
                ResetAction::Ignore
            },
        }
    }
}

/// Feeds one signal in and applies what it asks to the counter store: the
/// owner's counter is set to zero exactly when the flow confirms, and the
/// store is untouched by every other signal.
pub fn handle_reset_signal(
    flow: &mut ResetFlow,
    counters: &mut CounterTable,
    s: ResetSignal,
) -> (a: ResetAction)
    requires
        old(counters).wf(),
    ensures
        final(counters).wf(),
        (*final(flow), a) == old(flow).spec_step(s),
        a == ResetAction::ClearCounter ==> final(counters)@ == reset_state(
            old(counters)@,
            old(flow).owner,
        ),
        a != ResetAction::ClearCounter ==> final(counters)@ == old(counters)@,
{
    let a = flow.step(s);
    if matches!(a, ResetAction::ClearCounter) {
        counters.reset(flow.owner);
    }
    a
}

/// How many of the signals, fed in this order, ask for the counter to be
/// cleared.
pub open spec fn run_clears(f: ResetFlow, sigs: Seq<ResetSignal>) -> nat
    decreases sigs.len(),
{
    if sigs.len() == 0 {
        0
    } else {
        let stepped = f.spec_step(sigs[0]);
        (if stepped.1 == ResetAction::ClearCounter {
            1nat
        } else {
            0nat
        }) + run_clears(stepped.0, sigs.drop_first())
    }
}

/// Law: the counter is cleared at most once, however many signals arrive in
/// whatever order, and never once the flow has left `Prompted`.
pub proof fn lemma_reset_clears_at_most_once(f: ResetFlow, sigs: Seq<ResetSignal>)
    ensures
        run_clears(f, sigs) <= 1,
        f.state != ResetState::Prompted ==> run_clears(f, sigs) == 0,
    decreases sigs.len(),
{
    if sigs.len() > 0 {
        let stepped = f.spec_step(sigs[0]);
        lemma_reset_clears_at_most_once(stepped.0, sigs.drop_first());
    }
}

/// Law: only the owner's confirm, correlated to the prompt and arriving
/// while the flow still stands at `Prompted`, ever asks for the clear.
pub proof fn lemma_only_owner_confirm_clears(f: ResetFlow, s: ResetSignal)
    ensures
        (f.spec_step(s).1 == ResetAction::ClearCounter) <==> (f.state == ResetState::Prompted
            && s == (ResetSignal::Press {
            token: f.token,
            actor: f.owner,
            choice: ResetChoice::Confirm,
        })),
{
}

} // verus!
