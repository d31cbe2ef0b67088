use keypad_scan::debounce::Matrix;
use keypad_scan::pulse::Pulse;
use keypad_scan::scan::{after_cell, next_row, Action, Event, Phase, Scanner, SETTLE_MILLIS};

fn high() -> Pulse {
    Pulse::Bit { first_level: true, first_ticks: 50, second_level: false, second_ticks: 50 }
}

fn low() -> Pulse {
    Pulse::Bit { first_level: false, first_ticks: 50, second_level: false, second_ticks: 50 }
}

/// A keypad on the bench: the levels of its cells, and a record of what the
/// scanner had it do.
struct Bench {
    levels: [[bool; 3]; 4],
    driven: Option<usize>,
    in_flight: bool,
    log: Vec<Action>,
}

impl Bench {
    fn new() -> Bench {
        Bench { levels: [[false; 3]; 4], driven: None, in_flight: false, log: Vec::new() }
    }

    /// Performs one action as the hardware would and answers with its event.
    fn perform(&mut self, action: Action) -> Event {
        self.log.push(action);
        match action {
            Action::Strobe { row } => {
                assert_eq!(self.driven, None);
                self.driven = Some(row);
                Event::Done
            }
            Action::Settle { millis } => {
                assert_eq!(millis, 10);
                Event::Done
            }
            Action::Sample { column } => {
                let row = self.driven.expect("a column is read under a driven row");
                Event::Level(self.levels[row][column])
            }
            Action::Announce { .. } => Event::Done,
            Action::Transmit { .. } => {
                assert!(!self.in_flight);
                self.in_flight = true;
                Event::Done
            }
            Action::Await => {
                assert!(self.in_flight);
                self.in_flight = false;
                Event::Done
            }
            Action::Release { row } => {
                assert_eq!(self.driven, Some(row));
                self.driven = None;
                Event::Done
            }
            Action::Halt => panic!("the scanner halted"),
        }
    }

    /// Runs the scanner over `passes` full passes of the matrix.
    fn run(&mut self, scanner: &mut Scanner, passes: usize) {
        let mut released = 0;
        let mut action = scanner.pending();
        while released < 4 * passes {
            if let Action::Release { .. } = action {
                released += 1;
            }
            let event = self.perform(action);
            action = scanner.step(event);
        }
    }

    fn strobes(&self) -> Vec<usize> {
        self.log
            .iter()
            .filter_map(|action| match action {
                Action::Strobe { row } => Some(*row),
                _ => None,
            })
            .collect()
    }

    fn transmissions(&self) -> Vec<[Pulse; 5]> {
        self.log
            .iter()
            .filter_map(|action| match action {
                Action::Transmit { train } => Some(*train),
                _ => None,
            })
            .collect()
    }

    fn announcements(&self) -> Vec<char> {
        self.log
            .iter()
            .filter_map(|action| match action {
                Action::Announce { symbol } => Some(*symbol),
                _ => None,
            })
            .collect()
    }
}

#[test]
fn a_new_scanner_is_about_to_strobe_row_zero() {
    let scanner = Scanner::new();
    assert_eq!(scanner.phase(), Phase::Idle { row: 0 });
    assert_eq!(scanner.pending(), Action::Strobe { row: 0 });
    assert_eq!(*scanner.matrix(), Matrix::new());
    assert!(!scanner.is_halted());
}

#[test]
fn the_settle_delay_is_ten_milliseconds() {
    assert_eq!(SETTLE_MILLIS, 10);
    let mut scanner = Scanner::new();
    assert_eq!(scanner.step(Event::Done), Action::Settle { millis: 10 });
    assert_eq!(scanner.phase(), Phase::Settling { row: 0 });
}

#[test]
fn rows_follow_each_other_cyclically() {
    assert_eq!(next_row(0), 1);
    assert_eq!(next_row(1), 2);
    assert_eq!(next_row(2), 3);
    assert_eq!(next_row(3), 0);
}

#[test]
fn after_a_cell_comes_the_next_column_or_the_release() {
    assert_eq!(after_cell(2, 0), Phase::Sampling { row: 2, column: 1 });
    assert_eq!(after_cell(2, 1), Phase::Sampling { row: 2, column: 2 });
    assert_eq!(after_cell(2, 2), Phase::Releasing { row: 2 });
}

#[test]
fn an_idle_pass_strobes_settles_samples_and_releases_each_row() {
    let mut scanner = Scanner::new();
    let mut bench = Bench::new();
    bench.run(&mut scanner, 1);
    let mut expected = Vec::new();
    for row in 0..4 {
        expected.push(Action::Strobe { row });
        expected.push(Action::Settle { millis: 10 });
        expected.push(Action::Sample { column: 0 });
        expected.push(Action::Sample { column: 1 });
        expected.push(Action::Sample { column: 2 });
        expected.push(Action::Release { row });
    }
    assert_eq!(bench.log, expected);
    assert_eq!(scanner.phase(), Phase::Idle { row: 0 });
}

#[test]
fn rows_are_strobed_in_cyclic_order() {
    let mut scanner = Scanner::new();
    let mut bench = Bench::new();
    bench.levels[2][1] = true;
    bench.run(&mut scanner, 3);
    assert_eq!(bench.strobes(), vec![0, 1, 2, 3, 0, 1, 2, 3, 0, 1, 2, 3]);
}

#[test]
fn columns_are_sampled_in_order_under_each_row() {
    let mut scanner = Scanner::new();
    let mut bench = Bench::new();
    bench.levels[0][1] = true;
    bench.levels[3][2] = true;
    bench.run(&mut scanner, 2);
    let mut under: Option<usize> = None;
    let mut columns: Vec<(usize, usize)> = Vec::new();
    for action in bench.log.iter() {
        match action {
            Action::Strobe { row } => under = Some(*row),
            Action::Release { .. } => under = None,
            Action::Sample { column } => columns.push((under.unwrap(), *column)),
            _ => {}
        }
    }
    let mut expected = Vec::new();
    for _ in 0..2 {
        for row in 0..4 {
            for column in 0..3 {
                expected.push((row, column));
            }
        }
    }
    assert_eq!(columns, expected);
}

#[test]
fn a_press_at_row_one_column_two_announces_six_and_sends_five() {
    let mut scanner = Scanner::new();
    let mut bench = Bench::new();
    bench.levels[1][2] = true;
    bench.run(&mut scanner, 1);
    assert_eq!(bench.announcements(), vec!['6']);
    assert_eq!(bench.transmissions(), vec![[high(), low(), high(), low(), Pulse::End]]);
    let at = bench.log.iter().position(|a| matches!(a, Action::Announce { .. })).unwrap();
    assert_eq!(
        bench.log[at - 1..at + 4].to_vec(),
        vec![
            Action::Sample { column: 2 },
            Action::Announce { symbol: '6' },
            Action::Transmit { train: [high(), low(), high(), low(), Pulse::End] },
            Action::Await,
            Action::Release { row: 1 },
        ]
    );
    assert!(scanner.matrix().level(1, 2));
}

#[test]
fn a_press_then_a_release_sends_once() {
    let mut scanner = Scanner::new();
    let mut bench = Bench::new();
    bench.levels[0][0] = true;
    bench.run(&mut scanner, 1);
    assert!(scanner.matrix().level(0, 0));
    assert_eq!(bench.transmissions().len(), 1);
    bench.levels[0][0] = false;
    bench.run(&mut scanner, 1);
    assert!(!scanner.matrix().level(0, 0));
    assert_eq!(bench.announcements(), vec!['1']);
    assert_eq!(bench.transmissions(), vec![[low(), low(), low(), low(), Pulse::End]]);
    assert_eq!(*scanner.matrix(), Matrix::new());
}

#[test]
fn a_held_key_is_sent_once() {
    let mut scanner = Scanner::new();
    let mut bench = Bench::new();
    bench.levels[3][1] = true;
    bench.run(&mut scanner, 5);
    assert_eq!(bench.announcements(), vec!['0']);
    assert_eq!(bench.transmissions().len(), 1);
}

#[test]
fn a_key_pressed_again_is_sent_again() {
    let mut scanner = Scanner::new();
    let mut bench = Bench::new();
    for pass in 0..6 {
        bench.levels[2][0] = pass % 2 == 0;
        bench.run(&mut scanner, 1);
    }
    assert_eq!(bench.announcements(), vec!['7', '7', '7']);
}

#[test]
fn each_send_completes_before_the_next_column_is_read() {
    let mut scanner = Scanner::new();
    let mut bench = Bench::new();
    bench.levels[2] = [true, true, true];
    bench.run(&mut scanner, 1);
    assert_eq!(bench.announcements(), vec!['7', '8', '9']);
    let row: Vec<Action> = bench
        .log
        .iter()
        .copied()
        .skip_while(|a| *a != Action::Strobe { row: 2 })
        .take_while(|a| *a != Action::Strobe { row: 3 })
        .collect();
    let kinds: Vec<&str> = row
        .iter()
        .map(|a| match a {
            Action::Strobe { .. } => "strobe",
            Action::Settle { .. } => "settle",
            Action::Sample { .. } => "sample",
            Action::Announce { .. } => "announce",
            Action::Transmit { .. } => "transmit",
            Action::Await => "await",
            Action::Release { .. } => "release",
            Action::Halt => "halt",
        })
        .collect();
    assert_eq!(
        kinds,
        vec![
            "strobe", "settle", "sample", "announce", "transmit", "await", "sample", "announce",
            "transmit", "await", "sample", "announce", "transmit", "await", "release",
        ]
    );
}

#[test]
fn every_key_sends_its_own_symbol_and_index() {
    let symbols = [['1', '2', '3'], ['4', '5', '6'], ['7', '8', '9'], ['*', '0', '#']];
    for row in 0..4 {
        for column in 0..3 {
            let mut scanner = Scanner::new();
            let mut bench = Bench::new();
            bench.levels[row][column] = true;
            bench.run(&mut scanner, 1);
            assert_eq!(bench.announcements(), vec![symbols[row][column]]);
            let sent = bench.transmissions();
            assert_eq!(sent.len(), 1);
            let mut value = 0;
            for k in 0..4 {
                if let Pulse::Bit { first_level: true, .. } = sent[0][k] {
                    value += 1 << k;
                }
            }
            assert_eq!(value, row * 3 + column);
            assert_eq!(sent[0][4], Pulse::End);
        }
    }
}

#[test]
fn a_fault_while_sending_halts_the_scanner() {
    let mut scanner = Scanner::new();
    assert_eq!(scanner.step(Event::Done), Action::Settle { millis: 10 });
    assert_eq!(scanner.step(Event::Done), Action::Sample { column: 0 });
    assert_eq!(scanner.step(Event::Level(true)), Action::Announce { symbol: '1' });
    assert!(matches!(scanner.step(Event::Done), Action::Transmit { .. }));
    assert_eq!(scanner.step(Event::Fault), Action::Halt);
    assert!(scanner.is_halted());
    assert_eq!(scanner.phase(), Phase::Halted);
    assert_eq!(scanner.step(Event::Done), Action::Halt);
    assert_eq!(scanner.step(Event::Level(true)), Action::Halt);
    assert!(scanner.is_halted());
}

#[test]
fn a_fault_while_waiting_halts_the_scanner() {
    let mut scanner = Scanner::new();
    scanner.step(Event::Done);
    scanner.step(Event::Done);
    scanner.step(Event::Level(true));
    scanner.step(Event::Done);
    assert_eq!(scanner.step(Event::Done), Action::Await);
    assert_eq!(scanner.phase(), Phase::InFlight { row: 0, column: 0 });
    assert_eq!(scanner.step(Event::Fault), Action::Halt);
    assert_eq!(scanner.pending(), Action::Halt);
    assert!(scanner.is_halted());
}

#[test]
fn an_event_that_answers_no_pending_action_halts_the_scanner() {
    let mut scanner = Scanner::new();
    assert_eq!(scanner.step(Event::Level(true)), Action::Halt);
    let mut scanner = Scanner::new();
    scanner.step(Event::Done);
    scanner.step(Event::Done);
    assert_eq!(scanner.pending(), Action::Sample { column: 0 });
    assert_eq!(scanner.step(Event::Done), Action::Halt);
}

#[test]
fn a_failed_start_never_scans() {
    let mut scanner = Scanner::new();
    assert_eq!(keypad_scan::scan::panic(&mut scanner), Action::Halt);
    assert!(scanner.is_halted());
    assert_eq!(scanner.pending(), Action::Halt);
    let events = [Event::Done, Event::Level(true), Event::Level(false), Event::Fault];
    let mut reads = 0;
    let mut sends = 0;
    for round in 0..100 {
        match scanner.step(events[round % 4]) {
            Action::Sample { .. } => reads += 1,
            Action::Transmit { .. } => sends += 1,
            Action::Halt => {}
            other => panic!("a halted scanner asked for {:?}", other),
        }
    }
    assert_eq!(reads, 0);
    assert_eq!(sends, 0);
    assert_eq!(*scanner.matrix(), Matrix::new());
}

#[test]
fn halting_keeps_the_stored_levels() {
    let mut scanner = Scanner::new();
    let mut bench = Bench::new();
    bench.levels[1][1] = true;
    bench.run(&mut scanner, 1);
    let before = *scanner.matrix();
    keypad_scan::scan::panic(&mut scanner);
    assert_eq!(*scanner.matrix(), before);
    assert!(scanner.matrix().level(1, 1));
}
