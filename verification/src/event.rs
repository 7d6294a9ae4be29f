use vstd::prelude::*;
use crate::cell::CellCoord;
use crate::text::{decimal_string, spec_decimal_chars};

verus! {

/// State represents a change in the state of execution.
#[derive(Debug, Clone, Copy, PartialEq, Eq, Structural)]
pub enum State {
    Executing,
    Pause,
    Quitting,
}

impl Default for State {
    fn default() -> (r: Self)
        ensures
            r == State::Executing,
    {
        State::Executing
    }
}

impl State {
    /// The name of the state, for logs.
    pub fn describe(&self) -> (r: &'static str)
        ensures
            *self is Executing ==> r@ == "Executing"@,
            *self is Pause ==> r@ == "Pause"@,
            *self is Quitting ==> r@ == "Quitting"@,
    {
        match self {
            State::Executing => "Executing",
            State::Pause => "Pause",
            State::Quitting => "Quitting",
        }
    }
}

/// Event represents any Game of Life event that needs to be communicated to
/// the user.
///
/// `AliveCellsCount` reports the number of currently alive cells; it is sent
/// about every two seconds of wall time, at a turn boundary.
///
/// `ImageOutputComplete` reports that a snapshot has been written out
/// completely.
///
/// `StateChange` reports that execution was paused, resumed or ended.
///
/// `CellFlipped` reports one cell that changed in a turn; `CellsFlipped`
/// reports all of a turn's changes in one batch. A run uses one of the two
/// forms, never both. Either way, the flip events of a turn are sent before
/// that turn's `TurnComplete`.
///
/// `TurnComplete` reports that a turn finished; the renderer presents a frame
/// when it arrives.
///
/// `FinalTurnComplete` reports the alive cells of the final world when the
/// run ends; it is followed by `StateChange` to `Quitting` and nothing else.
#[derive(Debug, Clone)]
pub enum Event {
    AliveCellsCount { completed_turns: u32, cells_count: u32 },
    ImageOutputComplete { completed_turns: u32, filename: String },
    StateChange { completed_turns: u32, new_state: State },
    CellFlipped { completed_turns: u32, cell: CellCoord },
    CellsFlipped { completed_turns: u32, cells: Vec<CellCoord> },
    TurnComplete { completed_turns: u32 },
    FinalTurnComplete { completed_turns: u32, alive: Vec<CellCoord> },
}

/// The mathematical value of an `Event`: the same variants, with the batched
/// coordinates as a sequence and the filename as its characters.
pub enum EventView {
    AliveCellsCount { completed_turns: u32, cells_count: u32 },
    ImageOutputComplete { completed_turns: u32, filename: Seq<char> },
    StateChange { completed_turns: u32, new_state: State },
    CellFlipped { completed_turns: u32, cell: CellCoord },
    CellsFlipped { completed_turns: u32, cells: Seq<CellCoord> },
    TurnComplete { completed_turns: u32 },
    FinalTurnComplete { completed_turns: u32, alive: Seq<CellCoord> },
}

impl View for Event {
    type V = EventView;

    open spec fn view(&self) -> EventView {
        match self {
            Event::AliveCellsCount { completed_turns, cells_count } => EventView::AliveCellsCount {
                completed_turns: *completed_turns,
                cells_count: *cells_count,
            },
            Event::ImageOutputComplete { completed_turns, filename } => EventView::ImageOutputComplete {
                completed_turns: *completed_turns,
                filename: filename@,
            },
            Event::StateChange { completed_turns, new_state } => EventView::StateChange {
                completed_turns: *completed_turns,
                new_state: *new_state,
            },
            Event::CellFlipped { completed_turns, cell } => EventView::CellFlipped {
                completed_turns: *completed_turns,
                cell: *cell,
            },
            Event::CellsFlipped { completed_turns, cells } => EventView::CellsFlipped {
                completed_turns: *completed_turns,
                cells: cells@,
            },
            Event::TurnComplete { completed_turns } => EventView::TurnComplete {
                completed_turns: *completed_turns,
            },
            Event::FinalTurnComplete { completed_turns, alive } => EventView::FinalTurnComplete {
                completed_turns: *completed_turns,
                alive: alive@,
            },
        }
    }
}

impl DeepView for Event {
    type V = EventView;

    open spec fn deep_view(&self) -> EventView {
        self.view()
    }
}

impl EventView {
    /// The number of completed turns an event reports.
    pub open spec fn completed_turns(self) -> u32 {
        match self {
            EventView::AliveCellsCount { completed_turns, .. } => completed_turns,
            EventView::ImageOutputComplete { completed_turns, .. } => completed_turns,
            EventView::StateChange { completed_turns, .. } => completed_turns,
            EventView::CellFlipped { completed_turns, .. } => completed_turns,
            EventView::CellsFlipped { completed_turns, .. } => completed_turns,
            EventView::TurnComplete { completed_turns } => completed_turns,
            EventView::FinalTurnComplete { completed_turns, .. } => completed_turns,
        }
    }
}

/// The text of an event, as the logs print it: the alive count, a finished
/// file, or the new state; the other events print nothing.
pub open spec fn spec_event_text(e: EventView) -> Seq<char> {
    match e {
        EventView::AliveCellsCount { cells_count, .. } => "Alive Cells "@ + spec_decimal_chars(
            cells_count as nat,
        ),
        EventView::ImageOutputComplete { filename, .. } => "File "@ + filename
            + " Output Done"@,
        EventView::StateChange { new_state, .. } => match new_state {
            State::Executing => "Executing"@,
            State::Pause => "Pause"@,
            State::Quitting => "Quitting"@,
        },
        _ => Seq::empty(),
    }
}

impl Event {
    /// The number of completed turns this event reports.
    pub fn get_completed_turns(&self) -> (t: u32)
        ensures
            t == self@.completed_turns(),
    {
        match self {
            Event::AliveCellsCount { completed_turns, .. }
            | Event::ImageOutputComplete { completed_turns, .. }
            | Event::StateChange { completed_turns, .. }
            | Event::CellFlipped { completed_turns, .. }
            | Event::TurnComplete { completed_turns, .. }
            | Event::FinalTurnComplete { completed_turns, .. }
            | Event::CellsFlipped { completed_turns, .. } => *completed_turns,
        }
    }

    /// The text of this event, for logs.
    pub fn describe(&self) -> (r: String)
        ensures
            r@ == spec_event_text(self@),
    {
        match self {
            Event::AliveCellsCount { cells_count, .. } => {
                let mut s = String::from_str("Alive Cells ");
                let count = decimal_string(*cells_count as usize);
                s.append(count.as_str());
                proof {
                    assert(s@ =~= spec_event_text(self@));
                }
                s
            },
            Event::ImageOutputComplete { filename, .. } => {
                let mut s = String::from_str("File ");
                s.append(filename.as_str());
                s.append(" Output Done");
                proof {
                    assert(s@ =~= spec_event_text(self@));
                }
                s
            },
            Event::StateChange { new_state, .. } => {
                let s = String::from_str(new_state.describe());
                proof {
                    assert(s@ =~= spec_event_text(self@));
                }
                s
            },
            _ => String::new(),
        }
    }
}

} // verus!
