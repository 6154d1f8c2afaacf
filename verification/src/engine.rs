//! The steps taken for each event: record the trade, check for enough
//! history, hand out the window that an indicator value is due for.
//!
//! The engine decides and keeps the state.  Waiting for the next input,
//! computing the indicator and publishing the result happen outside:
//! whoever drives the engine feeds it one input at a time and carries out
//! the action it answers with.

use vstd::prelude::*;
use crate::event::{PendingEmission, PendingView, TradeEvent};
use crate::gate::{enough_history, should_emit};
use crate::store::{recorded, window_of, WindowStore, Windows};

verus! {

/// What the ingestion side hands to the engine.
#[derive(Clone, Debug, PartialEq, Eq)]
pub enum Input {
    /// A trade that was read and understood.
    Trade(TradeEvent),
    /// A payload that could not be understood as a trade.
    Malformed,
    /// A message without a payload.
    MissingPayload,
    /// A passing failure of the ingestion side.
    TransientError,
    /// The input stream has ended.
    EndOfStream,
    /// The engine was asked from outside to stop.
    StopRequested,
}

impl Input {
    /// Whether the input ends the run.
    pub open spec fn ends_run(self) -> bool {
        self is EndOfStream || self is StopRequested
    }
}

/// What the engine asks of its driver in answer to an input.
#[derive(Debug)]
pub enum Action {
    /// Nothing is due: wait for the next input.
    Wait,
    /// An indicator value is due for the window handed out: compute it,
    /// publish the result, then wait for the next input.
    Compute(PendingEmission),
    /// The run is over: take no further input.
    Halt,
}

/// What an action stands for.
pub enum ActionView {
    Wait,
    Compute(PendingView),
    Halt,
}

impl View for Action {
    type V = ActionView;

    open spec fn view(&self) -> ActionView {
        match self {
            Action::Wait => ActionView::Wait,
            Action::Compute(pending) => ActionView::Compute(pending@),
            Action::Halt => ActionView::Halt,
        }
    }
}

/// The state of an engine as the contracts speak of it.
pub struct EngineState {
    /// The window of every asset key seen so far.
    pub windows: Windows,
    /// Whether the run is over.
    pub halted: bool,
}

/// The state of an engine that has seen nothing.
pub open spec fn initial() -> EngineState {
    EngineState { windows: Map::empty(), halted: false }
}

/// The state that follows `state` on `input`.
///
/// A trade is recorded in the window of its key.  The end of the stream and
/// a request to stop end the run.  Every other input leaves the state as it
/// is, and so does any input once the run is over.
pub open spec fn advanced(state: EngineState, input: Input) -> EngineState {
    if state.halted {
        state
    } else {
        match input {
            Input::Trade(event) => EngineState {
                windows: recorded(state.windows, event.asset_key@, event.price),
                halted: false,
            },
            Input::EndOfStream | Input::StopRequested => EngineState {
                windows: state.windows,
                halted: true,
            },
            _ => state,
        }
    }
}

/// The action that answers `input` in `state`.
///
/// A trade whose window, the trade included, holds enough history asks for
/// an indicator value over that window, under the key of the trade.  An
/// input that ends the run, or any input once the run is over, is answered
/// with `Halt`.  Everything else is answered with `Wait`.
pub open spec fn reaction(state: EngineState, input: Input) -> ActionView {
    if state.halted {
        ActionView::Halt
    } else {
        match input {
            Input::Trade(event) => {
                let window = window_of(advanced(state, input).windows, event.asset_key@);
                if enough_history(window.len()) {
                    ActionView::Compute(
                        PendingView { asset_key: event.asset_key@, window: window },
                    )
                } else {
                    ActionView::Wait
                }
            },
            Input::EndOfStream | Input::StopRequested => ActionView::Halt,
            _ => ActionView::Wait,
        }
    }
}

/// The streaming engine: the window store and whether the run goes on.
pub struct StreamEngine {
    store: WindowStore,
    halted: bool,
}

impl View for StreamEngine {
    type V = EngineState;

    closed spec fn view(&self) -> EngineState {
        EngineState { windows: self.store@, halted: self.halted }
    }
}

impl StreamEngine {
    /// An engine that has seen nothing.
    pub fn new() -> (engine: Self)
        ensures
            engine@ == initial(),
    {
        StreamEngine { store: WindowStore::new(), halted: false }
    }

    /// Takes one input and answers with the action that is due.
    pub fn step(&mut self, input: Input) -> (action: Action)
        ensures
            final(self)@ == advanced(old(self)@, input),
            action@ == reaction(old(self)@, input),
    {
        if self.halted {
            return Action::Halt;
        }
        match input {
            Input::Trade(event) => {
                let window = self.store.record(event.asset_key.as_str(), event.price);
                if should_emit(window.len()) {
                    let prices = window.to_vec();
                    Action::Compute(PendingEmission::new(event.asset_key, prices))
                } else {
                    Action::Wait
                }
            },
            Input::EndOfStream | Input::StopRequested => {
                self.halted = true;
                Action::Halt
            },
            Input::Malformed | Input::MissingPayload | Input::TransientError => Action::Wait,
        }
    }

    /// Whether the run is over.
    pub fn is_halted(&self) -> (halted: bool)
        ensures
            halted == self@.halted,
    {
        self.halted
    }

    /// The window store, to look at.
    pub fn store(&self) -> (store: &WindowStore)
        ensures
            store@ == self@.windows,
    {
        &self.store
    }
}

} // verus!
