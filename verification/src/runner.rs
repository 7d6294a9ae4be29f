use vstd::prelude::*;
use crate::cell::CellValue;
use crate::controller::{Command, Controller};
use crate::event::{Event, EventView, State};
use crate::grid::{lemma_step_wf, spec_alive_cells, spec_flips, spec_step, wf_grid};
use crate::params::Params;
use crate::worker::{lemma_partitioned_step_complete, spec_step_partitioned};

verus! {

/// The world after `t` turns.
pub open spec fn spec_run(g: Seq<Seq<CellValue>>, width: int, height: int, t: nat) -> Seq<
    Seq<CellValue>,
>
    decreases t,
{
    if t == 0 {
        g
    } else {
        spec_step(spec_run(g, width, height, (t - 1) as nat), width, height)
    }
}

/// Every turn keeps the world well formed.
pub proof fn lemma_run_wf(g: Seq<Seq<CellValue>>, width: int, height: int, t: nat)
    requires
        wf_grid(g, width, height),
    ensures
        wf_grid(spec_run(g, width, height, t), width, height),
    decreases t,
{
    if t > 0 {
        lemma_run_wf(g, width, height, (t - 1) as nat);
        lemma_step_wf(spec_run(g, width, height, (t - 1) as nat), width, height);
    }
}

/// The world after `t` turns, each computed by a pool of `workers` workers
/// in bands and reassembled.
pub open spec fn spec_run_partitioned(
    g: Seq<Seq<CellValue>>,
    width: int,
    height: int,
    workers: int,
    t: nat,
) -> Seq<Seq<CellValue>>
    decreases t,
{
    if t == 0 {
        g
    } else {
        spec_step_partitioned(
            spec_run_partitioned(g, width, height, workers, (t - 1) as nat),
            width,
            height,
            workers,
        )
    }
}

/// A partitioned run equals the whole-world run, turn for turn.
pub proof fn lemma_run_partitioned_complete(
    g: Seq<Seq<CellValue>>,
    width: int,
    height: int,
    workers: int,
    t: nat,
)
    requires
        wf_grid(g, width, height),
        workers >= 1,
    ensures
        spec_run_partitioned(g, width, height, workers, t) == spec_run(g, width, height, t),
    decreases t,
{
    if t > 0 {
        lemma_run_partitioned_complete(g, width, height, workers, (t - 1) as nat);
        lemma_run_wf(g, width, height, (t - 1) as nat);
        lemma_partitioned_step_complete(
            spec_run(g, width, height, (t - 1) as nat),
            width,
            height,
            workers,
        );
    }
}

/// For any fixed initial world and turn count, any two worker counts yield
/// bit-identical final worlds: the worker count affects only how a turn's
/// rows are split up, never the world it produces.
pub proof fn lemma_run_deterministic(
    g: Seq<Seq<CellValue>>,
    width: int,
    height: int,
    workers1: int,
    workers2: int,
    t: nat,
)
    requires
        wf_grid(g, width, height),
        workers1 >= 1,
        workers2 >= 1,
    ensures
        spec_run_partitioned(g, width, height, workers1, t) == spec_run_partitioned(
            g,
            width,
            height,
            workers2,
            t,
        ),
{
    lemma_run_partitioned_complete(g, width, height, workers1, t);
    lemma_run_partitioned_complete(g, width, height, workers2, t);
}

/// The two events turn `t` emits, in order: the batch of cells that flipped
/// in turn `t`, then the completion of turn `t`.
pub open spec fn spec_turn_events(g: Seq<Seq<CellValue>>, width: int, height: int, t: nat) -> Seq<
    EventView,
> {
    seq![
        EventView::CellsFlipped {
            completed_turns: t as u32,
            cells: spec_flips(
                spec_run(g, width, height, (t - 1) as nat),
                spec_run(g, width, height, t),
                width,
                height,
            ),
        },
        EventView::TurnComplete { completed_turns: t as u32 },
    ]
}

/// The events of the first `t` turns, in turn order.
pub open spec fn spec_turns_log(g: Seq<Seq<CellValue>>, width: int, height: int, t: nat) -> Seq<
    EventView,
>
    decreases t,
{
    if t == 0 {
        Seq::empty()
    } else {
        spec_turns_log(g, width, height, (t - 1) as nat) + spec_turn_events(g, width, height, t)
    }
}

/// The complete event log of an uninterrupted `n`-turn run: the opening
/// state change, the two events of each turn in order, the final enumeration
/// of alive cells, and the closing state change.
pub open spec fn spec_run_log(g: Seq<Seq<CellValue>>, width: int, height: int, n: nat) -> Seq<
    EventView,
> {
    seq![
        EventView::StateChange { completed_turns: 0, new_state: State::Executing },
    ] + spec_turns_log(g, width, height, n) + seq![
        EventView::FinalTurnComplete {
            completed_turns: n as u32,
            alive: spec_alive_cells(spec_run(g, width, height, n), width, height),
        },
        EventView::StateChange { completed_turns: n as u32, new_state: State::Quitting },
    ]
}

/// Event `idx` of the first `t` turns' log: turn `idx / 2 + 1`'s flip batch
/// at even indices, its completion at odd ones.
pub proof fn lemma_turns_log_form(g: Seq<Seq<CellValue>>, width: int, height: int, t: nat)
    ensures
        spec_turns_log(g, width, height, t).len() == 2 * t,
        forall|idx: int|
            0 <= idx < 2 * t ==> #[trigger] spec_turns_log(g, width, height, t)[idx]
                == spec_turn_events(g, width, height, (idx / 2 + 1) as nat)[if idx % 2 == 0 {
                0
            } else {
                1
            }],
    decreases t,
{
    if t > 0 {
        lemma_turns_log_form(g, width, height, (t - 1) as nat);
        assert forall|idx: int| 0 <= idx < 2 * t implies #[trigger] spec_turns_log(
            g,
            width,
            height,
            t,
        )[idx] == spec_turn_events(g, width, height, (idx / 2 + 1) as nat)[if idx % 2 == 0 {
            0
        } else {
            1
        }] by {
            if idx < 2 * (t - 1) {
                assert(spec_turns_log(g, width, height, t)[idx] == spec_turns_log(
                    g,
                    width,
                    height,
                    (t - 1) as nat,
                )[idx]);
            } else {
                assert(idx == 2 * t - 2 || idx == 2 * t - 1);
                assert(spec_turns_log(g, width, height, t)[idx] == spec_turn_events(
                    g,
                    width,
                    height,
                    t,
                )[idx - (2 * t - 2)]);
                assert(idx / 2 + 1 == t);
            }
        }
    }
}

/// Where every event of a complete run log stands: the opening state change
/// at index 0, turn `k`'s flip batch at `2k - 1` and its completion at `2k`,
/// the one `FinalTurnComplete` at `2n + 1`, and the closing `Quitting` state
/// change at `2n + 2`, with nothing after it.
pub proof fn lemma_run_log_form(g: Seq<Seq<CellValue>>, width: int, height: int, n: nat)
    ensures
        spec_run_log(g, width, height, n).len() == 2 * n + 3,
        spec_run_log(g, width, height, n)[0] == (EventView::StateChange {
            completed_turns: 0u32,
            new_state: State::Executing,
        }),
        forall|idx: int|
            1 <= idx <= 2 * n && idx % 2 == 1 ==> #[trigger] spec_run_log(g, width, height, n)[idx]
                == spec_turn_events(g, width, height, ((idx + 1) / 2) as nat)[0],
        forall|idx: int|
            1 <= idx <= 2 * n && idx % 2 == 0 ==> #[trigger] spec_run_log(g, width, height, n)[idx]
                == spec_turn_events(g, width, height, (idx / 2) as nat)[1],
        spec_run_log(g, width, height, n)[2 * (n as int) + 1] == (EventView::FinalTurnComplete {
            completed_turns: n as u32,
            alive: spec_alive_cells(spec_run(g, width, height, n), width, height),
        }),
        spec_run_log(g, width, height, n)[2 * (n as int) + 2] == (EventView::StateChange {
            completed_turns: n as u32,
            new_state: State::Quitting,
        }),
{
    lemma_turns_log_form(g, width, height, n);
    let log = spec_run_log(g, width, height, n);
    assert forall|idx: int| 1 <= idx <= 2 * n && idx % 2 == 1 implies #[trigger] log[idx]
        == spec_turn_events(g, width, height, ((idx + 1) / 2) as nat)[0] by {
        assert(log[idx] == spec_turns_log(g, width, height, n)[idx - 1]);
        assert((idx - 1) / 2 + 1 == (idx + 1) / 2);
    }
    assert forall|idx: int| 1 <= idx <= 2 * n && idx % 2 == 0 implies #[trigger] log[idx]
        == spec_turn_events(g, width, height, (idx / 2) as nat)[1] by {
        assert(log[idx] == spec_turns_log(g, width, height, n)[idx - 1]);
        assert((idx - 1) / 2 + 1 == idx / 2);
    }
}

/// Event ordering: in a complete run log, every flip batch for turn `t`
/// stands strictly before `TurnComplete` for turn `t` — the batch sits at
/// index `2t - 1` and the completion at `2t`, and neither appears anywhere
/// else.
pub proof fn lemma_flips_precede_turn_complete(
    g: Seq<Seq<CellValue>>,
    width: int,
    height: int,
    n: nat,
    t: nat,
    i: int,
    j: int,
)
    requires
        n <= u32::MAX,
        1 <= t <= n,
        0 <= i < spec_run_log(g, width, height, n).len(),
        0 <= j < spec_run_log(g, width, height, n).len(),
        spec_run_log(g, width, height, n)[i] matches EventView::CellsFlipped { completed_turns, .. }
            && completed_turns == t as u32,
        spec_run_log(g, width, height, n)[j] == (EventView::TurnComplete {
            completed_turns: t as u32,
        }),
    ensures
        i == 2 * t - 1,
        j == 2 * t,
        i < j,
{
    lemma_run_log_form(g, width, height, n);
    let log = spec_run_log(g, width, height, n);
    assert(i != 0 && i != 2 * n + 1 && i != 2 * n + 2);
    assert(i % 2 == 1) by {
        if i % 2 == 0 {
            assert(log[i] == spec_turn_events(g, width, height, (i / 2) as nat)[1]);
        }
    }
    assert(log[i] == spec_turn_events(g, width, height, ((i + 1) / 2) as nat)[0]);
    assert((i + 1) / 2 == t);
    assert(j != 0 && j != 2 * n + 1 && j != 2 * n + 2);
    assert(j % 2 == 0) by {
        if j % 2 == 1 {
            assert(log[j] == spec_turn_events(g, width, height, ((j + 1) / 2) as nat)[0]);
        }
    }
    assert(log[j] == spec_turn_events(g, width, height, (j / 2) as nat)[1]);
    assert(j / 2 == t);
}

/// Termination: an `n`-turn run emits exactly one `FinalTurnComplete`, and
/// it reports `n` completed turns; exactly one `StateChange` to `Quitting`
/// follows it; and no event at all comes after that.
pub proof fn lemma_run_terminates_once(g: Seq<Seq<CellValue>>, width: int, height: int, n: nat)
    requires
        n <= u32::MAX,
    ensures
        spec_run_log(g, width, height, n).len() == 2 * n + 3,
        spec_run_log(g, width, height, n)[2 * (n as int) + 1] == (EventView::FinalTurnComplete {
            completed_turns: n as u32,
            alive: spec_alive_cells(spec_run(g, width, height, n), width, height),
        }),
        spec_run_log(g, width, height, n)[2 * (n as int) + 2] == (EventView::StateChange {
            completed_turns: n as u32,
            new_state: State::Quitting,
        }),
        forall|i: int|
            0 <= i < spec_run_log(g, width, height, n).len() && i != 2 * n + 1 ==> !(
            #[trigger] spec_run_log(g, width, height, n)[i] is FinalTurnComplete),
        forall|i: int|
            0 <= i < spec_run_log(g, width, height, n).len() && i != 2 * n + 2 ==> !(
            #[trigger] spec_run_log(g, width, height, n)[i] matches EventView::StateChange {
                new_state: State::Quitting,
                ..
            }),
{
    lemma_run_log_form(g, width, height, n);
    let log = spec_run_log(g, width, height, n);
    assert forall|i: int| 0 <= i < log.len() && i != 2 * n + 1 implies !(
    #[trigger] log[i] is FinalTurnComplete) by {
        if 1 <= i <= 2 * n {
            if i % 2 == 1 {
                assert(log[i] == spec_turn_events(g, width, height, ((i + 1) / 2) as nat)[0]);
            } else {
                assert(log[i] == spec_turn_events(g, width, height, (i / 2) as nat)[1]);
            }
        }
    }
    assert forall|i: int| 0 <= i < log.len() && i != 2 * n + 2 implies !(
    #[trigger] log[i] matches EventView::StateChange { new_state: State::Quitting, .. }) by {
        if 1 <= i <= 2 * n {
            if i % 2 == 1 {
                assert(log[i] == spec_turn_events(g, width, height, ((i + 1) / 2) as nat)[0]);
            } else {
                assert(log[i] == spec_turn_events(g, width, height, (i / 2) as nat)[1]);
            }
        }
    }
}

/// Run a whole headless, uninterrupted game to its turn target: load nothing,
/// save nothing, apply the rule `params.turns` times with `params.threads`
/// workers per turn, and return the final world together with the complete
/// event log, exactly as `spec_run_log` lays it out.
#[verifier::rlimit(60)]
pub fn run_to_completion(params: Params, world: Vec<Vec<CellValue>>) -> (r: (
    Vec<Vec<CellValue>>,
    Vec<Event>,
))
    requires
        params.valid(),
        params.turns <= u32::MAX,
        params.image_width * params.image_height <= u32::MAX,
        wf_grid(world.deep_view(), params.image_width as int, params.image_height as int),
    ensures
        r.0.deep_view() == spec_run(
            world.deep_view(),
            params.image_width as int,
            params.image_height as int,
            params.turns as nat,
        ),
        r.1.deep_view() == spec_run_log(
            world.deep_view(),
            params.image_width as int,
            params.image_height as int,
            params.turns as nat,
        ),
{
    let ghost g0 = world.deep_view();
    let ghost w = params.image_width as int;
    let ghost h = params.image_height as int;
    let mut ctrl = Controller::new(params, world);
    let mut events: Vec<Event> = Vec::new();
    events.push(ctrl.initial_event());
    proof {
        assert(events.deep_view() =~= seq![
            EventView::StateChange { completed_turns: 0u32, new_state: State::Executing },
        ] + spec_turns_log(g0, w, h, 0));
    }
    let mut t: usize = 0;
    while t < params.turns
        invariant
            ctrl.wf(),
            ctrl@.params == params,
            ctrl@.state == State::Executing,
            t <= params.turns,
            ctrl@.turn == t,
            params.turns <= u32::MAX,
            w == params.image_width as int,
            h == params.image_height as int,
            ctrl@.world == spec_run(g0, w, h, t as nat),
            events.deep_view() == seq![
                EventView::StateChange { completed_turns: 0u32, new_state: State::Executing },
            ] + spec_turns_log(g0, w, h, t as nat),
        decreases params.turns - t,
    {
        let ghost before = events.deep_view();
        let mut evs = ctrl.turn_step();
        events.append(&mut evs);
        t += 1;
        proof {
            assert(events.deep_view() =~= before + spec_turn_events(g0, w, h, t as nat));
            assert(events.deep_view() =~= seq![
                EventView::StateChange { completed_turns: 0u32, new_state: State::Executing },
            ] + spec_turns_log(g0, w, h, t as nat));
        }
    }
    let ghost before_quit = events.deep_view();
    let (mut final_evs, _action) = ctrl.apply_command(Command::Quit);
    let ghost fe = final_evs.deep_view();
    events.append(&mut final_evs);
    proof {
        assert(events.deep_view() =~= before_quit + fe);
    }
    let ghost with_final = events.deep_view();
    let closing = ctrl.quitting_event();
    events.push(closing);
    proof {
        assert(events.deep_view() =~= with_final + seq![closing@]);
        assert(events.deep_view() =~= spec_run_log(g0, w, h, params.turns as nat));
    }
    (ctrl.world, events)
}

} // verus!
