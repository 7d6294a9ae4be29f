use gol_rs::cell::CellValue;
use gol_rs::controller::{Command, ControlAction, Controller};
use gol_rs::event::{Event, State};
use gol_rs::io_gateway::{IoAck, IoCommand, IoGateway, process_io_queue};
use gol_rs::params::Params;
use gol_rs::runner::run_to_completion;

fn params(width: usize, height: usize, threads: usize, turns: usize) -> Params {
    Params { turns, threads, image_width: width, image_height: height }
}

fn blinker_world() -> Vec<Vec<CellValue>> {
    let mut world = vec![vec![CellValue::Dead; 5]; 5];
    world[1][2] = CellValue::Alive;
    world[2][2] = CellValue::Alive;
    world[3][2] = CellValue::Alive;
    world
}

fn is_turn_complete(e: &Event) -> bool {
    matches!(e, Event::TurnComplete { .. })
}

fn is_flip_batch(e: &Event) -> bool {
    matches!(e, Event::CellsFlipped { .. })
}

#[test]
fn controller_starts_executing_at_turn_zero() {
    let ctrl = Controller::new(params(5, 5, 2, 10), blinker_world());
    assert_eq!(ctrl.turn, 0);
    assert_eq!(ctrl.state, State::Executing);
    let opening = ctrl.initial_event();
    assert!(matches!(
        opening,
        Event::StateChange { completed_turns: 0, new_state: State::Executing }
    ));
}

#[test]
fn each_turn_emits_flips_then_completion() {
    let mut ctrl = Controller::new(params(5, 5, 2, 10), blinker_world());
    for expected_turn in 1..=3u32 {
        let events = ctrl.turn_step();
        assert_eq!(events.len(), 2);
        assert!(is_flip_batch(&events[0]));
        assert!(is_turn_complete(&events[1]));
        assert_eq!(events[0].get_completed_turns(), expected_turn);
        assert_eq!(events[1].get_completed_turns(), expected_turn);
        assert_eq!(ctrl.turn, expected_turn);
    }
}

#[test]
fn paused_controller_runs_no_turn_and_reports_none() {
    let mut ctrl = Controller::new(params(5, 5, 1, 10), blinker_world());
    ctrl.turn_step();
    let world_before = ctrl.world.clone();
    let (events, action) = ctrl.apply_command(Command::Pause);
    assert_eq!(action, ControlAction::Continue);
    assert_eq!(events.len(), 1);
    assert!(matches!(
        events[0],
        Event::StateChange { completed_turns: 1, new_state: State::Pause }
    ));
    // While paused, stepping does nothing at all.
    for _ in 0..3 {
        let events = ctrl.turn_step();
        assert!(events.is_empty());
    }
    assert_eq!(ctrl.turn, 1);
    assert_eq!(ctrl.world, world_before);
}

#[test]
fn resume_continues_with_the_next_turn() {
    let mut ctrl = Controller::new(params(5, 5, 1, 10), blinker_world());
    ctrl.turn_step();
    ctrl.turn_step();
    let turn_before_pause = ctrl.turn;
    ctrl.apply_command(Command::Pause);
    ctrl.turn_step();
    ctrl.turn_step();
    let (events, _) = ctrl.apply_command(Command::Pause);
    assert!(matches!(
        events[0],
        Event::StateChange { completed_turns: 2, new_state: State::Executing }
    ));
    assert_eq!(ctrl.turn, turn_before_pause);
    let events = ctrl.turn_step();
    assert_eq!(events[1].get_completed_turns(), turn_before_pause + 1);
    assert_eq!(ctrl.turn, turn_before_pause + 1);
}

#[test]
fn save_requests_io_without_changing_state() {
    let mut ctrl = Controller::new(params(5, 5, 1, 10), blinker_world());
    ctrl.turn_step();
    let (events, action) = ctrl.apply_command(Command::Save);
    assert_eq!(action, ControlAction::DoSave);
    assert!(events.is_empty());
    assert_eq!(ctrl.state, State::Executing);
    assert_eq!(ctrl.turn, 1);
    let name = ctrl.save_filename();
    assert_eq!(name, "5x5x1");
    let done = ctrl.save_complete_event(name);
    assert!(matches!(
        done,
        Event::ImageOutputComplete { completed_turns: 1, .. }
    ));
}

#[test]
fn snapshot_is_a_complete_bitmap_of_the_world() {
    let ctrl = Controller::new(params(5, 5, 1, 10), blinker_world());
    let bytes = ctrl.snapshot();
    let mut expected = b"P5\n5 5\n255\n".to_vec();
    for row in &ctrl.world {
        for cell in row {
            expected.push(if *cell == CellValue::Alive { 255 } else { 0 });
        }
    }
    assert_eq!(bytes, expected);
}

#[test]
fn quit_reports_the_final_world_then_quits() {
    let mut ctrl = Controller::new(params(5, 5, 1, 10), blinker_world());
    ctrl.turn_step();
    let (events, action) = ctrl.apply_command(Command::Quit);
    assert_eq!(action, ControlAction::Terminate);
    assert_eq!(events.len(), 1);
    match &events[0] {
        Event::FinalTurnComplete { completed_turns, alive } => {
            assert_eq!(*completed_turns, 1);
            // The blinker has three alive cells in every generation.
            assert_eq!(alive.len(), 3);
        }
        other => panic!("expected FinalTurnComplete, got {:?}", other),
    }
    assert_eq!(ctrl.state, State::Quitting);
    let closing = ctrl.quitting_event();
    assert!(matches!(
        closing,
        Event::StateChange { completed_turns: 1, new_state: State::Quitting }
    ));
}

#[test]
fn alive_report_counts_the_current_world() {
    let mut ctrl = Controller::new(params(5, 5, 1, 10), blinker_world());
    let report = ctrl.alive_report();
    assert!(matches!(
        report,
        Event::AliveCellsCount { completed_turns: 0, cells_count: 3 }
    ));
    ctrl.turn_step();
    let report = ctrl.alive_report();
    assert!(matches!(
        report,
        Event::AliveCellsCount { completed_turns: 1, cells_count: 3 }
    ));
}

#[test]
fn full_run_emits_the_complete_ordered_log() {
    let (final_world, events) = run_to_completion(params(5, 5, 2, 4), blinker_world());
    // Opening state change first.
    assert!(matches!(
        events[0],
        Event::StateChange { completed_turns: 0, new_state: State::Executing }
    ));
    // Two events per turn: the turn's flips strictly before its completion.
    assert_eq!(events.len(), 2 + 2 * 4 + 1);
    for t in 1..=4u32 {
        let flip_idx = 2 * t as usize - 1;
        assert!(is_flip_batch(&events[flip_idx]));
        assert_eq!(events[flip_idx].get_completed_turns(), t);
        assert!(is_turn_complete(&events[flip_idx + 1]));
        assert_eq!(events[flip_idx + 1].get_completed_turns(), t);
    }
    // Exactly one FinalTurnComplete, reporting the configured turn count,
    // then exactly one closing state change, and nothing after.
    let final_count = events
        .iter()
        .filter(|e| matches!(e, Event::FinalTurnComplete { .. }))
        .count();
    assert_eq!(final_count, 1);
    match &events[events.len() - 2] {
        Event::FinalTurnComplete { completed_turns, alive } => {
            assert_eq!(*completed_turns, 4);
            assert_eq!(alive.len(), 3);
        }
        other => panic!("expected FinalTurnComplete, got {:?}", other),
    }
    let quitting_count = events
        .iter()
        .filter(|e| {
            matches!(e, Event::StateChange { new_state: State::Quitting, .. })
        })
        .count();
    assert_eq!(quitting_count, 1);
    assert!(matches!(
        events[events.len() - 1],
        Event::StateChange { completed_turns: 4, new_state: State::Quitting }
    ));
    // An even number of turns brings the blinker back to its start.
    assert_eq!(final_world, blinker_world());
}

#[test]
fn runs_with_different_worker_counts_match() {
    let mut finals = Vec::new();
    for threads in [1usize, 2, 4, 8] {
        let (world, _) = run_to_completion(params(5, 5, threads, 7), blinker_world());
        finals.push(world);
    }
    for other in &finals[1..] {
        assert_eq!(&finals[0], other);
    }
}

#[test]
fn io_worker_acknowledges_commands_in_queue_order() {
    let queue = vec![
        IoCommand::IoInput,
        IoCommand::IoOutput,
        IoCommand::IoCheckIdle,
    ];
    let log = process_io_queue(&queue);
    assert_eq!(
        log,
        vec![IoAck::LoadCompleted, IoAck::SaveCompleted, IoAck::IdleConfirmed]
    );
}

#[test]
fn save_completes_before_idle_is_confirmed() {
    // A save queued before an idle check is acknowledged before it.
    let queue = vec![IoCommand::IoOutput, IoCommand::IoCheckIdle];
    let log = process_io_queue(&queue);
    let save_pos = log.iter().position(|a| *a == IoAck::SaveCompleted).unwrap();
    let idle_pos = log.iter().position(|a| *a == IoAck::IdleConfirmed).unwrap();
    assert!(save_pos < idle_pos);
}

#[test]
fn gateway_holds_at_most_one_request() {
    let mut gate = IoGateway::new();
    assert!(gate.check_idle());
    gate.begin(IoCommand::IoOutput);
    assert!(!gate.check_idle());
    let ack = gate.complete();
    assert_eq!(ack, IoAck::SaveCompleted);
    assert!(gate.check_idle());
    gate.begin(IoCommand::IoInput);
    assert!(!gate.check_idle());
    assert_eq!(gate.complete(), IoAck::LoadCompleted);
    assert!(gate.check_idle());
}
