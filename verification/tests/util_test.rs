use gol_rs::args::{Args, PanicBehaviour};
use gol_rs::cell::{CellCoord, CellValue};
use gol_rs::errors::GolError;
use gol_rs::event::{Event, State};
use gol_rs::params::Params;
use gol_rs::text::{decimal_string, save_name, world_name};

#[test]
fn cells_serialize_to_their_bytes() {
    assert_eq!(CellValue::Alive.to_byte(), 255);
    assert_eq!(CellValue::Dead.to_byte(), 0);
}

#[test]
fn cell_bytes_round_trip_for_both_values() {
    assert_eq!(CellValue::from(CellValue::Alive.to_byte()), CellValue::Alive);
    assert_eq!(CellValue::from(CellValue::Dead.to_byte()), CellValue::Dead);
}

#[test]
fn any_byte_but_255_decodes_dead() {
    assert_eq!(CellValue::from(255), CellValue::Alive);
    assert_eq!(CellValue::from(0), CellValue::Dead);
    assert_eq!(CellValue::from(1), CellValue::Dead);
    assert_eq!(CellValue::from(254), CellValue::Dead);
    assert_eq!(CellValue::from(128), CellValue::Dead);
}

#[test]
fn cell_queries_match_the_value() {
    assert!(CellValue::Alive.is_alive());
    assert!(!CellValue::Alive.is_dead());
    assert!(CellValue::Dead.is_dead());
    assert!(!CellValue::Dead.is_alive());
}

#[test]
fn coordinates_keep_their_fields() {
    let c = CellCoord::new(3, 7);
    assert_eq!(c.x, 3);
    assert_eq!(c.y, 7);
    assert_eq!(c, CellCoord { x: 3, y: 7 });
}

#[test]
fn numbers_print_in_decimal() {
    assert_eq!(decimal_string(0), "0");
    assert_eq!(decimal_string(7), "7");
    assert_eq!(decimal_string(10), "10");
    assert_eq!(decimal_string(255), "255");
    assert_eq!(decimal_string(512), "512");
    assert_eq!(decimal_string(10000000), "10000000");
}

#[test]
fn snapshot_names_join_dimensions_and_turns() {
    assert_eq!(world_name(512, 512), "512x512");
    assert_eq!(world_name(16, 2), "16x2");
    assert_eq!(save_name(512, 512, 100), "512x512x100");
    assert_eq!(save_name(5, 5, 0), "5x5x0");
}

#[test]
fn params_take_their_values_from_args() {
    let args = Args {
        threads: 4,
        image_width: 64,
        image_height: 32,
        fps: 30,
        turns: 1000,
        headless: true,
        backtrace: false,
        panic_behaviour: PanicBehaviour::Ignore,
    };
    let p = Params::from(args);
    assert_eq!(p.threads, 4);
    assert_eq!(p.image_width, 64);
    assert_eq!(p.image_height, 32);
    assert_eq!(p.turns, 1000);
}

#[test]
fn default_args_match_the_usual_run() {
    let args = Args::default();
    assert_eq!(args.threads, 8);
    assert_eq!(args.image_width, 512);
    assert_eq!(args.image_height, 512);
    assert_eq!(args.fps, 60);
    assert_eq!(args.turns, 10000000);
    assert!(!args.headless);
    assert!(!args.backtrace);
    assert_eq!(args.panic_behaviour, PanicBehaviour::Exit);
}

#[test]
fn zero_configuration_is_rejected_before_the_run() {
    let good = Params { turns: 1, threads: 1, image_width: 1, image_height: 1 };
    assert!(good.validate().is_ok());
    let no_workers = Params { threads: 0, ..good };
    assert_eq!(no_workers.validate(), Err(GolError::ConfigurationError));
    let no_width = Params { image_width: 0, ..good };
    assert_eq!(no_width.validate(), Err(GolError::ConfigurationError));
    let no_height = Params { image_height: 0, ..good };
    assert_eq!(no_height.validate(), Err(GolError::ConfigurationError));
}

#[test]
fn errors_describe_themselves() {
    assert_eq!(
        GolError::IoError.describe(),
        "snapshot could not be read or written"
    );
    assert_eq!(
        GolError::TurnComputationFailed.describe(),
        "a worker failed while computing a turn"
    );
    assert_eq!(GolError::ChannelClosed.describe(), "a channel closed; shutting down");
    assert_eq!(
        GolError::ConfigurationError.describe(),
        "workers and dimensions must be at least 1"
    );
}

#[test]
fn every_event_reports_its_completed_turns() {
    let events = vec![
        Event::AliveCellsCount { completed_turns: 1, cells_count: 9 },
        Event::ImageOutputComplete { completed_turns: 2, filename: String::from("out") },
        Event::StateChange { completed_turns: 3, new_state: State::Pause },
        Event::CellFlipped { completed_turns: 4, cell: CellCoord::new(0, 0) },
        Event::CellsFlipped { completed_turns: 5, cells: vec![CellCoord::new(1, 1)] },
        Event::TurnComplete { completed_turns: 6 },
        Event::FinalTurnComplete { completed_turns: 7, alive: vec![] },
    ];
    for (i, event) in events.iter().enumerate() {
        assert_eq!(event.get_completed_turns(), (i + 1) as u32);
    }
}

#[test]
fn events_describe_themselves_for_the_logs() {
    let count = Event::AliveCellsCount { completed_turns: 1, cells_count: 42 };
    assert_eq!(count.describe(), "Alive Cells 42");
    let output = Event::ImageOutputComplete {
        completed_turns: 2,
        filename: String::from("512x512x2"),
    };
    assert_eq!(output.describe(), "File 512x512x2 Output Done");
    let change = Event::StateChange { completed_turns: 3, new_state: State::Quitting };
    assert_eq!(change.describe(), "Quitting");
    let silent = Event::TurnComplete { completed_turns: 4 };
    assert_eq!(silent.describe(), "");
}

#[test]
fn states_name_themselves() {
    assert_eq!(State::Executing.describe(), "Executing");
    assert_eq!(State::Pause.describe(), "Pause");
    assert_eq!(State::Quitting.describe(), "Quitting");
    assert_eq!(State::default(), State::Executing);
}
