//! Whole runs of the engine: what holds after any sequence of inputs.

use vstd::prelude::*;
use crate::binary64::Binary64;
use crate::engine::{advanced, initial, reaction, ActionView, EngineState, Input};
use crate::event::{PendingView, TradeEvent};
use crate::store::{
    bounded, lemma_recorded, lemma_store_holds_latest, prices_for, recorded, recorded_all,
    window_of,
};
use crate::window::{latest, lemma_appended_len, lemma_latest_push, WINDOW_CAPACITY};

verus! {

/// The state that an engine reaches from `state` once it has taken every
/// input of `inputs`, in order.
pub open spec fn ran(state: EngineState, inputs: Seq<Input>) -> EngineState
    decreases inputs.len(),
{
    if inputs.len() == 0 {
        state
    } else {
        advanced(ran(state, inputs.drop_last()), inputs.last())
    }
}

/// The actions that an engine starting in `state` answers the inputs of
/// `inputs` with, one for each, in order.
pub open spec fn reactions(state: EngineState, inputs: Seq<Input>) -> Seq<ActionView>
    decreases inputs.len(),
{
    if inputs.len() == 0 {
        Seq::empty()
    } else {
        reactions(state, inputs.drop_last()).push(
            reaction(ran(state, inputs.drop_last()), inputs.last()),
        )
    }
}

/// The trades among `inputs`, each as its key and its price, in order.
pub open spec fn trades_of(inputs: Seq<Input>) -> Seq<(Seq<char>, Binary64)>
    decreases inputs.len(),
{
    if inputs.len() == 0 {
        Seq::empty()
    } else {
        match inputs.last() {
            Input::Trade(event) => trades_of(inputs.drop_last()).push(
                (event.asset_key@, event.price),
            ),
            _ => trades_of(inputs.drop_last()),
        }
    }
}

/// Whether no input of `inputs` ends the run.
pub open spec fn goes_on(inputs: Seq<Input>) -> bool {
    forall|i: int| 0 <= i < inputs.len() ==> !(#[trigger] inputs[i]).ends_run()
}

/// Whether an input is one that the engine passes over: it is no trade and
/// does not end the run.
pub open spec fn passed_over(input: Input) -> bool {
    input is Malformed || input is MissingPayload || input is TransientError
}

/// One input in, one answer out: the answers are as many as the inputs, and
/// each is the reaction to its own input in the state that the inputs
/// before it have led to.
pub proof fn lemma_one_reaction_per_input(state: EngineState, inputs: Seq<Input>)
    ensures
        reactions(state, inputs).len() == inputs.len(),
        forall|i: int|
            0 <= i < inputs.len() ==> #[trigger] reactions(state, inputs)[i] == reaction(
                ran(state, inputs.take(i)),
                inputs[i],
            ),
    decreases inputs.len(),
{
    if inputs.len() > 0 {
        let earlier = inputs.drop_last();
        lemma_one_reaction_per_input(state, earlier);
        assert forall|i: int| 0 <= i < inputs.len() implies #[trigger] reactions(state, inputs)[i]
            == reaction(ran(state, inputs.take(i)), inputs[i]) by {
            if i < earlier.len() {
                assert(earlier.take(i) =~= inputs.take(i));
            } else {
                assert(inputs.take(i) =~= earlier);
            }
        }
    }
}

/// A request for an indicator value names the trade it answers: it comes
/// for a trade only, carries the key of that trade, and its window is the
/// window of that key as the trade left it, full, with the price of the
/// trade as its newest entry.
pub proof fn lemma_compute_names_its_trade(state: EngineState, input: Input)
    requires
        bounded(state.windows),
    ensures
        match reaction(state, input) {
            ActionView::Compute(pending) => match input {
                Input::Trade(event) => {
                    &&& !state.halted
                    &&& pending.asset_key == event.asset_key@
                    &&& pending.window == window_of(
                        advanced(state, input).windows,
                        event.asset_key@,
                    )
                    &&& pending.window.len() == WINDOW_CAPACITY
                    &&& pending.window.last() == event.price
                },
                _ => false,
            },
            _ => true,
        },
{
    match input {
        Input::Trade(event) => {
            lemma_recorded(state.windows, event.asset_key@, event.price);
            lemma_appended_len(window_of(state.windows, event.asset_key@), event.price);
        },
        _ => {},
    }
}

/// No run ever leaves a window empty or lets it grow beyond
/// `WINDOW_CAPACITY`.
pub proof fn lemma_run_keeps_windows_bounded(state: EngineState, inputs: Seq<Input>)
    requires
        bounded(state.windows),
    ensures
        bounded(ran(state, inputs).windows),
    decreases inputs.len(),
{
    if inputs.len() > 0 {
        let before = ran(state, inputs.drop_last());
        lemma_run_keeps_windows_bounded(state, inputs.drop_last());
        match inputs.last() {
            Input::Trade(event) => {
                lemma_recorded(before.windows, event.asset_key@, event.price);
            },
            _ => {},
        }
    }
}

/// A run can be taken in two parts.
pub proof fn lemma_ran_concat(state: EngineState, first: Seq<Input>, second: Seq<Input>)
    ensures
        ran(state, first + second) == ran(ran(state, first), second),
        reactions(state, first + second) == reactions(state, first) + reactions(
            ran(state, first),
            second,
        ),
    decreases second.len(),
{
    if second.len() == 0 {
        assert(first + second =~= first);
        assert(reactions(state, first) + reactions(ran(state, first), second) =~= reactions(
            state,
            first,
        ));
    } else {
        lemma_ran_concat(state, first, second.drop_last());
        assert((first + second).drop_last() =~= first + second.drop_last());
        assert((first + second).last() == second.last());
        assert(reactions(state, first + second) =~= reactions(state, first) + reactions(
            ran(state, first),
            second,
        ));
    }
}

/// Once the run is over nothing changes any more: every further input is
/// answered with `Halt` and leaves the state as it is.
pub proof fn lemma_halted_stays(state: EngineState, inputs: Seq<Input>)
    requires
        state.halted,
    ensures
        ran(state, inputs) == state,
        reactions(state, inputs).len() == inputs.len(),
        forall|i: int|
            0 <= i < inputs.len() ==> #[trigger] reactions(state, inputs)[i] == ActionView::Halt,
    decreases inputs.len(),
{
    if inputs.len() > 0 {
        lemma_halted_stays(state, inputs.drop_last());
    }
}

/// An input that the engine passes over leaves no trace: wherever it
/// arrives among other inputs, the state after the run is what it would be
/// without it, and so are the answers to all the other inputs.  The input
/// itself is answered with `Wait`, or with `Halt` where the run was over.
pub proof fn lemma_passed_over_leaves_no_trace(
    state: EngineState,
    before: Seq<Input>,
    input: Input,
    after: Seq<Input>,
)
    requires
        passed_over(input),
    ensures
        ran(state, before + seq![input] + after) == ran(state, before + after),
        ran(state, before.push(input)) == ran(state, before),
        reactions(state, before + seq![input] + after) == reactions(state, before) + seq![
            if ran(state, before).halted {
                ActionView::Halt
            } else {
                ActionView::Wait
            },
        ] + reactions(ran(state, before), after),
        reactions(state, before + after) == reactions(state, before) + reactions(
            ran(state, before),
            after,
        ),
{
    let middle = seq![input];
    assert(middle.drop_last() =~= Seq::<Input>::empty());
    assert(middle.last() == input);
    assert(ran(ran(state, before), middle) == ran(state, before)) by {
        assert(ran(ran(state, before), middle.drop_last()) == ran(state, before));
    }
    assert(reactions(ran(state, before), middle) =~= seq![
        reaction(ran(state, before), input),
    ]) by {
        assert(reactions(ran(state, before), middle.drop_last()) =~= Seq::<ActionView>::empty());
    }
    assert(before.push(input) =~= before + middle);
    lemma_ran_concat(state, before, middle);
    lemma_ran_concat(state, before + middle, after);
    lemma_ran_concat(state, before, after);
}

/// While no input ends the run, the windows are those of the trades among
/// the inputs, recorded in order: nothing else has any effect on them.
pub proof fn lemma_run_records_trades(state: EngineState, inputs: Seq<Input>)
    requires
        !state.halted,
        goes_on(inputs),
    ensures
        !ran(state, inputs).halted,
        ran(state, inputs).windows == recorded_all(state.windows, trades_of(inputs)),
    decreases inputs.len(),
{
    if inputs.len() > 0 {
        let earlier = inputs.drop_last();
        assert(goes_on(earlier)) by {
            assert forall|i: int| 0 <= i < earlier.len() implies !(#[trigger] earlier[i]).ends_run() by {
                assert(earlier[i] == inputs[i]);
            }
        }
        lemma_run_records_trades(state, earlier);
        assert(!inputs[inputs.len() - 1].ends_run());
        match inputs.last() {
            Input::Trade(event) => {
                assert(trades_of(inputs).drop_last() =~= trades_of(earlier));
            },
            _ => {},
        }
    }
}

/// A run is over with the first input that ends it: the windows are those
/// of the trades that came before that input, and nothing that comes after
/// it counts.
pub proof fn lemma_run_ends_at_first_end(state: EngineState, inputs: Seq<Input>, end: int)
    requires
        !state.halted,
        0 <= end < inputs.len(),
        goes_on(inputs.take(end)),
        inputs[end].ends_run(),
    ensures
        ran(state, inputs) == (EngineState {
            windows: recorded_all(state.windows, trades_of(inputs.take(end))),
            halted: true,
        }),
{
    let before = inputs.take(end);
    let ending = seq![inputs[end]];
    let after = inputs.skip(end + 1);
    assert(inputs =~= before + ending + after);
    lemma_run_records_trades(state, before);
    lemma_ran_concat(state, before, ending);
    lemma_ran_concat(state, before + ending, after);
    assert(ending.drop_last() =~= Seq::<Input>::empty());
    assert(ran(ran(state, before), ending) == advanced(ran(state, before), inputs[end])) by {
        assert(ran(ran(state, before), ending.drop_last()) == ran(state, before));
        assert(ending.last() == inputs[end]);
    }
    lemma_halted_stays(ran(state, before + ending), after);
}

/// After any run that started with an engine that had seen nothing and
/// that no input has ended, the window of a key holds the most recent
/// prices among the trades of that key, oldest first, never more than
/// `WINDOW_CAPACITY`, whatever else arrived in between.
pub proof fn lemma_engine_windows_hold_latest(inputs: Seq<Input>, key: Seq<char>)
    requires
        goes_on(inputs),
    ensures
        window_of(ran(initial(), inputs).windows, key) == latest(
            prices_for(trades_of(inputs), key),
        ),
        window_of(ran(initial(), inputs).windows, key).len() <= WINDOW_CAPACITY,
{
    lemma_run_records_trades(initial(), inputs);
    lemma_store_holds_latest(trades_of(inputs), key);
}

/// Emission starts with the fifteenth trade of a key and goes on: after
/// any run that started with an engine that had seen nothing and that no
/// input has ended, a trade is answered with `Compute` exactly if it is at
/// least the fifteenth of its key, and the window handed out then holds the
/// fifteen most recent prices of that key, the new one last.
pub proof fn lemma_emits_from_full_window(inputs: Seq<Input>, event: TradeEvent)
    requires
        goes_on(inputs),
    ensures
        ({
            let seen = prices_for(trades_of(inputs), event.asset_key@);
            reaction(ran(initial(), inputs), Input::Trade(event)) == if seen.len() + 1
                >= WINDOW_CAPACITY {
                ActionView::Compute(
                    PendingView {
                        asset_key: event.asset_key@,
                        window: latest(seen.push(event.price)),
                    },
                )
            } else {
                ActionView::Wait
            }
        }),
{
    let key = event.asset_key@;
    let state = ran(initial(), inputs);
    let seen = prices_for(trades_of(inputs), key);
    lemma_run_records_trades(initial(), inputs);
    lemma_store_holds_latest(trades_of(inputs), key);
    lemma_latest_push(seen, event.price);
    assert(window_of(recorded(state.windows, key, event.price), key) == latest(
        seen.push(event.price),
    ));
}

} // verus!
