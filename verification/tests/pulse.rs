use keypad_scan::pulse::{bit_pulse, encode, Pulse, CODE_BITS, HALF_PERIOD_TICKS, TRAIN_LEN};

fn high() -> Pulse {
    Pulse::Bit { first_level: true, first_ticks: 50, second_level: false, second_ticks: 50 }
}

fn low() -> Pulse {
    Pulse::Bit { first_level: false, first_ticks: 50, second_level: false, second_ticks: 50 }
}

/// Reads a train as a receiver would: the first-half level of each bit
/// pulse, least significant bit first.
fn read_back(train: &[Pulse; 5]) -> usize {
    let mut value = 0usize;
    for k in 0..CODE_BITS {
        match train[k] {
            Pulse::Bit { first_level, .. } => {
                if first_level {
                    value |= 1 << k;
                }
            }
            Pulse::End => panic!("end marker among the bits"),
        }
    }
    value
}

#[test]
fn constants_of_the_protocol() {
    assert_eq!(CODE_BITS, 4);
    assert_eq!(TRAIN_LEN, 5);
    assert_eq!(HALF_PERIOD_TICKS, 50);
}

#[test]
fn bit_pulse_carries_the_bit_in_its_first_half() {
    assert_eq!(bit_pulse(true), high());
    assert_eq!(bit_pulse(false), low());
}

#[test]
fn every_scan_index_round_trips() {
    for index in 0..12usize {
        let train = encode(index);
        assert_eq!(train.len(), 5);
        assert_eq!(train[4], Pulse::End);
        assert_eq!(read_back(&train), index);
    }
}

#[test]
fn every_four_bit_value_round_trips() {
    for index in 0..16usize {
        assert_eq!(read_back(&encode(index)), index);
    }
}

#[test]
fn encode_five_is_one_zero_one_zero() {
    assert_eq!(encode(5), [high(), low(), high(), low(), Pulse::End]);
}

#[test]
fn encode_zero_is_all_low() {
    assert_eq!(encode(0), [low(), low(), low(), low(), Pulse::End]);
}

#[test]
fn encode_eleven_is_one_one_zero_one() {
    assert_eq!(encode(11), [high(), high(), low(), high(), Pulse::End]);
}

#[test]
fn encode_eight_sets_only_the_last_bit() {
    assert_eq!(encode(8), [low(), low(), low(), high(), Pulse::End]);
}

#[test]
fn every_bit_has_the_fixed_timing_and_framing() {
    for index in 0..12usize {
        let train = encode(index);
        for k in 0..4 {
            match train[k] {
                Pulse::Bit { first_ticks, second_level, second_ticks, .. } => {
                    assert_eq!(first_ticks, 50);
                    assert_eq!(second_ticks, 50);
                    assert!(!second_level);
                }
                Pulse::End => panic!("end marker among the bits"),
            }
        }
    }
}

#[test]
fn only_the_four_low_bits_are_sent() {
    assert_eq!(encode(16), encode(0));
    assert_eq!(encode(21), encode(5));
    assert_eq!(encode(usize::MAX), encode(15));
}

#[test]
fn distinct_indices_have_distinct_trains() {
    for a in 0..12usize {
        for b in 0..12usize {
            if a != b {
                assert_ne!(encode(a), encode(b));
            }
        }
    }
}
