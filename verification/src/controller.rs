use vstd::prelude::*;
use crate::cell::CellValue;
use crate::event::{Event, EventView, State};
use crate::grid::{
    alive_count, get_alive_cells, get_flipped_cells, flatten_world, lemma_alive_cells_bound,
    lemma_flat_index, spec_alive_cells, spec_flat, spec_flips, spec_step, wf_grid,
};
use crate::params::Params;
use crate::pgm::{encode_pgm, spec_encode_pgm};
use crate::text::{save_name, spec_save_name};
use crate::worker::calculate_new_alive_partitioned;

verus! {

/// A control input, as a keystroke delivers it: toggle pause, save a
/// snapshot, or quit.
#[derive(Debug, Clone, Copy, PartialEq, Eq, Structural)]
pub enum Command {
    Pause,
    Save,
    Quit,
}

/// What the surroundings must do after a command is applied: nothing more,
/// write the current snapshot out, or wind the run down.
#[derive(Debug, Clone, Copy, PartialEq, Eq, Structural)]
pub enum ControlAction {
    Continue,
    DoSave,
    Terminate,
}

/// The controller's mathematical state: the fixed run configuration, the
/// current world, the completed-turn counter, and the execution state.
pub ghost struct ControllerModel {
    pub params: Params,
    pub world: Seq<Seq<CellValue>>,
    pub turn: u32,
    pub state: State,
}

/// A well-formed controller: a valid configuration whose turn target and
/// world size fit the counters, a well-formed world of the configured
/// dimensions, and a turn counter that has not passed the target.
pub open spec fn ctrl_wf(m: ControllerModel) -> bool {
    &&& m.params.valid()
    &&& m.params.turns <= u32::MAX
    &&& m.params.image_width * m.params.image_height <= u32::MAX
    &&& wf_grid(m.world, m.params.image_width as int, m.params.image_height as int)
    &&& (m.turn as int) <= (m.params.turns as int)
}

/// One turn of the engine. While executing and short of the target, the
/// world advances by one application of the rule and the counter goes up by
/// one; while paused, quitting, or at the target, nothing changes.
pub open spec fn model_step(m: ControllerModel) -> ControllerModel {
    if m.state is Executing && (m.turn as int) < (m.params.turns as int) {
        ControllerModel {
            world: spec_step(m.world, m.params.image_width as int, m.params.image_height as int),
            turn: (m.turn + 1) as u32,
            ..m
        }
    } else {
        m
    }
}

/// The events one turn emits: the batch of flipped cells, then the turn's
/// completion, both tagged with the turn just completed. A turn that does
/// not run — paused, quitting, or at the target — emits nothing at all.
pub open spec fn model_step_events(m: ControllerModel) -> Seq<EventView> {
    if m.state is Executing && (m.turn as int) < (m.params.turns as int) {
        let w = m.params.image_width as int;
        let h = m.params.image_height as int;
        seq![
            EventView::CellsFlipped {
                completed_turns: (m.turn + 1) as u32,
                cells: spec_flips(m.world, spec_step(m.world, w, h), w, h),
            },
            EventView::TurnComplete { completed_turns: (m.turn + 1) as u32 },
        ]
    } else {
        Seq::empty()
    }
}

/// The state after a command. `Pause` toggles between executing and paused;
/// `Save` changes nothing; `Quit` moves to the terminal state. The world and
/// the turn counter never change.
pub open spec fn model_command(m: ControllerModel, c: Command) -> ControllerModel {
    match c {
        Command::Pause => if m.state is Executing {
            ControllerModel { state: State::Pause, ..m }
        } else if m.state is Pause {
            ControllerModel { state: State::Executing, ..m }
        } else {
            m
        },
        Command::Save => m,
        Command::Quit => ControllerModel { state: State::Quitting, ..m },
    }
}

/// The events a command emits at once: a state change for each pause toggle,
/// the final enumeration of alive cells for a quit, and nothing for a save,
/// whose own event follows only after the snapshot has been written.
pub open spec fn model_command_events(m: ControllerModel, c: Command) -> Seq<EventView> {
    match c {
        Command::Pause => if m.state is Executing {
            seq![
                EventView::StateChange { completed_turns: m.turn, new_state: State::Pause },
            ]
        } else if m.state is Pause {
            seq![
                EventView::StateChange { completed_turns: m.turn, new_state: State::Executing },
            ]
        } else {
            Seq::empty()
        },
        Command::Save => Seq::empty(),
        Command::Quit => seq![
            EventView::FinalTurnComplete {
                completed_turns: m.turn,
                alive: spec_alive_cells(
                    m.world,
                    m.params.image_width as int,
                    m.params.image_height as int,
                ),
            },
        ],
    }
}

/// What the surroundings must do after each command.
pub open spec fn model_command_action(c: Command) -> ControlAction {
    match c {
        Command::Pause => ControlAction::Continue,
        Command::Save => ControlAction::DoSave,
        Command::Quit => ControlAction::Terminate,
    }
}

/// The turn engine and control state machine of a run. It owns the world and
/// the turn counter; everything else sees them only through events.
pub struct Controller {
    pub params: Params,
    pub world: Vec<Vec<CellValue>>,
    pub turn: u32,
    pub state: State,
}

impl View for Controller {
    type V = ControllerModel;

    open spec fn view(&self) -> ControllerModel {
        ControllerModel {
            params: self.params,
            world: self.world.deep_view(),
            turn: self.turn,
            state: self.state,
        }
    }
}

impl Controller {
    pub open spec fn wf(self) -> bool {
        ctrl_wf(self@)
    }

    /// Begin a run on a freshly loaded world: zero completed turns,
    /// executing.
    pub fn new(params: Params, world: Vec<Vec<CellValue>>) -> (c: Self)
        requires
            params.valid(),
            params.turns <= u32::MAX,
            params.image_width * params.image_height <= u32::MAX,
            wf_grid(world.deep_view(), params.image_width as int, params.image_height as int),
        ensures
            c.wf(),
            c@.params == params,
            c@.world == world.deep_view(),
            c@.turn == 0,
            c@.state == State::Executing,
    {
        Controller { params, world, turn: 0, state: State::Executing }
    }

    /// The event that opens the run, sent once the initial world is in
    /// place.
    pub fn initial_event(&self) -> (ev: Event)
        ensures
            ev@ == (EventView::StateChange {
                completed_turns: self@.turn,
                new_state: self@.state,
            }),
    {
        Event::StateChange { completed_turns: self.turn, new_state: self.state }
    }

    /// Run one turn, if one is due: the world advances by the rule, computed
    /// in `params.threads` bands, and the turn's events come back in order —
    /// the flipped cells first, the completion second. While paused,
    /// quitting, or at the turn target, nothing changes and nothing is
    /// emitted.
    pub fn turn_step(&mut self) -> (events: Vec<Event>)
        requires
            old(self).wf(),
        ensures
            final(self)@ == model_step(old(self)@),
            final(self).wf(),
            events.deep_view() == model_step_events(old(self)@),
    {
        if self.state == State::Executing && (self.turn as usize) < self.params.turns {
            let new_world = calculate_new_alive_partitioned(&self.world, &self.params);
            let flips = get_flipped_cells(&self.world, &new_world, &self.params);
            self.world = new_world;
            self.turn = self.turn + 1;
            let mut events: Vec<Event> = Vec::new();
            events.push(Event::CellsFlipped { completed_turns: self.turn, cells: flips });
            events.push(Event::TurnComplete { completed_turns: self.turn });
            proof {
                assert(events.deep_view() =~= model_step_events(old(self)@));
            }
            events
        } else {
            let events: Vec<Event> = Vec::new();
            proof {
                assert(events.deep_view() =~= model_step_events(old(self)@));
            }
            events
        }
    }

    /// Apply one control command between turns: toggle pause, request a
    /// save, or begin quitting. The returned events are emitted at once; the
    /// returned action says what the surroundings must do next.
    pub fn apply_command(&mut self, cmd: Command) -> (r: (Vec<Event>, ControlAction))
        requires
            old(self).wf(),
            old(self)@.state != State::Quitting,
        ensures
            final(self)@ == model_command(old(self)@, cmd),
            final(self).wf(),
            r.0.deep_view() == model_command_events(old(self)@, cmd),
            r.1 == model_command_action(cmd),
    {
        let mut events: Vec<Event> = Vec::new();
        let action: ControlAction;
        match cmd {
            Command::Pause => {
                if self.state == State::Executing {
                    self.state = State::Pause;
                } else {
                    self.state = State::Executing;
                }
                events.push(
                    Event::StateChange { completed_turns: self.turn, new_state: self.state },
                );
                action = ControlAction::Continue;
            },
            Command::Save => {
                action = ControlAction::DoSave;
            },
            Command::Quit => {
                self.state = State::Quitting;
                let alive = get_alive_cells(&self.world, &self.params);
                events.push(
                    Event::FinalTurnComplete { completed_turns: self.turn, alive },
                );
                action = ControlAction::Terminate;
            },
        }
        proof {
            assert(events.deep_view() =~= model_command_events(old(self)@, cmd));
        }
        (events, action)
    }

    /// The name the current snapshot is saved under: derived from the
    /// world's dimensions and the completed turns.
    pub fn save_filename(&self) -> (name: String)
        ensures
            name@ == spec_save_name(
                self@.params.image_width as nat,
                self@.params.image_height as nat,
                self@.turn as nat,
            ),
    {
        save_name(self.params.image_width, self.params.image_height, self.turn as usize)
    }

    /// The bytes of the current world as a complete snapshot file.
    pub fn snapshot(&self) -> (bytes: Vec<u8>)
        requires
            self.wf(),
        ensures
            bytes@ == spec_encode_pgm(
                self@.params.image_width as nat,
                self@.params.image_height as nat,
                spec_flat(self@.world, self@.params.image_height as int),
            ),
    {
        let flat = flatten_world(&self.world, &self.params);
        proof {
            let w = self.params.image_width as int;
            let h = self.params.image_height as int;
            lemma_flat_index(self@.world, w, h, h);
            assert(h * w == w * h) by (nonlinear_arith);
        }
        encode_pgm(self.params.image_width, self.params.image_height, &flat)
    }

    /// The event that follows a completed save.
    pub fn save_complete_event(&self, filename: String) -> (ev: Event)
        ensures
            ev@ == (EventView::ImageOutputComplete {
                completed_turns: self@.turn,
                filename: filename@,
            }),
    {
        Event::ImageOutputComplete { completed_turns: self.turn, filename }
    }

    /// The periodic alive-count report, computed by scanning the current
    /// world.
    pub fn alive_report(&self) -> (ev: Event)
        requires
            self.wf(),
        ensures
            ev@ == (EventView::AliveCellsCount {
                completed_turns: self@.turn,
                cells_count: spec_alive_cells(
                    self@.world,
                    self@.params.image_width as int,
                    self@.params.image_height as int,
                ).len() as u32,
            }),
    {
        proof {
            let w = self.params.image_width as int;
            let h = self.params.image_height as int;
            lemma_alive_cells_bound(self@.world, w, h);
            assert(h * w == w * h) by (nonlinear_arith);
        }
        let n = alive_count(&self.world, &self.params);
        Event::AliveCellsCount { completed_turns: self.turn, cells_count: n as u32 }
    }

    /// The event that closes the run, once all I/O has drained.
    pub fn quitting_event(&self) -> (ev: Event)
        requires
            self@.state is Quitting,
        ensures
            ev@ == (EventView::StateChange {
                completed_turns: self@.turn,
                new_state: State::Quitting,
            }),
    {
        Event::StateChange { completed_turns: self.turn, new_state: State::Quitting }
    }

    /// Whether the run has reached its turn target, at which point it
    /// behaves as though `Quit` had been received.
    pub fn done(&self) -> (r: bool)
        requires
            self.wf(),
        ensures
            r == ((self@.turn as int) == (self@.params.turns as int)),
    {
        (self.turn as usize) == self.params.turns
    }
}

/// Pausing suspends the engine and resuming restores it exactly: a paused
/// controller runs no turn and emits no event at all — in particular no
/// `TurnComplete` — and a second `Pause` brings back precisely the state
/// before the first, so the next completed turn is the one that would have
/// completed had the pause never happened.
pub proof fn lemma_pause_resume(m: ControllerModel)
    requires
        ctrl_wf(m),
        m.state == State::Executing,
    ensures
        model_command(m, Command::Pause).state == State::Pause,
        model_command(m, Command::Pause).turn == m.turn,
        model_command(m, Command::Pause).world == m.world,
        model_step(model_command(m, Command::Pause)) == model_command(m, Command::Pause),
        model_step_events(model_command(m, Command::Pause)) == Seq::<EventView>::empty(),
        model_command(model_command(m, Command::Pause), Command::Pause) == m,
        (m.turn as int) < (m.params.turns as int) ==> model_step_events(
            model_command(model_command(m, Command::Pause), Command::Pause),
        )[1] == (EventView::TurnComplete { completed_turns: (m.turn + 1) as u32 }),
{
}

/// The controller after `j` turn steps.
pub open spec fn model_run_steps(m: ControllerModel, j: nat) -> ControllerModel
    decreases j,
{
    if j == 0 {
        m
    } else {
        model_step(model_run_steps(m, (j - 1) as nat))
    }
}

/// An executing controller that steps `j` turns completes exactly `j` more
/// turns, stays executing, and stays well formed.
pub proof fn lemma_steps_count_turns(m: ControllerModel, j: nat)
    requires
        ctrl_wf(m),
        m.state is Executing,
        (m.turn as int) + j <= (m.params.turns as int),
    ensures
        (model_run_steps(m, j).turn as int) == (m.turn as int) + j,
        model_run_steps(m, j).state == m.state,
        model_run_steps(m, j).params == m.params,
        ctrl_wf(model_run_steps(m, j)),
    decreases j,
{
    if j > 0 {
        lemma_steps_count_turns(m, (j - 1) as nat);
    }
}

/// Pausing and resuming, then running `j` turns, lands in exactly the state
/// that running `j` turns without the pause would have reached: the pause
/// contributes nothing to the turn count, and the `TurnComplete` events
/// after the resume report the pre-pause count plus exactly the turns run
/// since.
pub proof fn lemma_resume_counts_only_run_turns(m: ControllerModel, j: nat)
    requires
        ctrl_wf(m),
        m.state == State::Executing,
    ensures
        model_run_steps(model_command(model_command(m, Command::Pause), Command::Pause), j)
            == model_run_steps(m, j),
{
    lemma_pause_resume(m);
}

/// No control command ever emits a `TurnComplete`: only a turn that actually
/// ran reports completion.
pub proof fn lemma_commands_emit_no_turn_complete(m: ControllerModel, c: Command)
    ensures
        forall|k: int|
            0 <= k < model_command_events(m, c).len() ==> !(#[trigger] model_command_events(
                m,
                c,
            )[k] is TurnComplete),
{
}

} // verus!
