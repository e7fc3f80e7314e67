use co2mon::{
    conclude, read_recorded, Acquisition, CO2Reading, CaptureTime, Cipher, ErrorKind, Temperature,
};

const CO2_100: [u8; 8] = [0x82, 0xa3, 0x26, 0xe0, 0x7a, 0x09, 0x0f, 0x86];
const CO2_400: [u8; 8] = [0x63, 0xa3, 0x26, 0xe0, 0x00, 0x09, 0x0f, 0x6e];
const TEMP_4485: [u8; 8] = [0x8b, 0xa3, 0xb6, 0xe0, 0x81, 0x09, 0x0f, 0xa6];
const UNKNOWN_TYPE: [u8; 8] = [0xe6, 0xa3, 0xae, 0xe0, 0x7d, 0x09, 0x0f, 0x6e];
const NOISE: [u8; 8] = [0; 8];

fn reading(co2_ppm: u32, sixteenths_kelvin: u16) -> CO2Reading {
    CO2Reading { time: None, co2_ppm, temp: Temperature { sixteenths_kelvin } }
}

#[test]
fn zero_budget_reads_nothing() {
    let cipher = Cipher::new(false);
    let reports = vec![CO2_100; 5];
    assert_eq!(read_recorded(&cipher, &reports, false, 0), (Err(ErrorKind::MissingCO2), 0));
    assert_eq!(read_recorded(&cipher, &Vec::new(), false, 0), (Err(ErrorKind::MissingCO2), 0));
    assert!(!Acquisition::start(0).wants_frame());
}

#[test]
fn co2_only_source_misses_temperature() {
    let cipher = Cipher::new(false);
    let reports = vec![CO2_100; 10];
    assert_eq!(read_recorded(&cipher, &reports, false, 1), (Err(ErrorKind::MissingTemperature), 1));
    assert_eq!(read_recorded(&cipher, &reports, false, 4), (Err(ErrorKind::MissingTemperature), 4));
    assert_eq!(
        read_recorded(&cipher, &reports, false, 10),
        (Err(ErrorKind::MissingTemperature), 10)
    );
}

#[test]
fn temperature_only_source_misses_co2() {
    let cipher = Cipher::new(false);
    let reports = vec![TEMP_4485; 6];
    assert_eq!(read_recorded(&cipher, &reports, false, 6), (Err(ErrorKind::MissingCO2), 6));
}

#[test]
fn alternating_samples_take_two_reads() {
    let cipher = Cipher::new(false);
    let reports = vec![CO2_100, TEMP_4485, CO2_100, TEMP_4485, CO2_100, TEMP_4485];
    assert_eq!(read_recorded(&cipher, &reports, false, 10), (Ok(reading(100, 4485)), 2));
    assert_eq!(read_recorded(&cipher, &reports, false, 2), (Ok(reading(100, 4485)), 2));
}

#[test]
fn temperature_first_takes_two_reads() {
    let cipher = Cipher::new(false);
    let reports = vec![TEMP_4485, CO2_400, CO2_100];
    assert_eq!(read_recorded(&cipher, &reports, false, 10), (Ok(reading(400, 4485)), 2));
}

#[test]
fn budget_of_one_is_too_small_for_two_samples() {
    let cipher = Cipher::new(false);
    let reports = vec![CO2_100, TEMP_4485];
    assert_eq!(read_recorded(&cipher, &reports, false, 1), (Err(ErrorKind::MissingTemperature), 1));
}

#[test]
fn invalid_reports_use_the_whole_budget() {
    let cipher = Cipher::new(false);
    let reports = vec![NOISE; 20];
    assert_eq!(read_recorded(&cipher, &reports, false, 7), (Err(ErrorKind::MissingCO2), 7));
    assert_eq!(read_recorded(&cipher, &reports, false, 20), (Err(ErrorKind::MissingCO2), 20));
    let unknown = vec![UNKNOWN_TYPE; 3];
    assert_eq!(read_recorded(&cipher, &unknown, false, 3), (Err(ErrorKind::MissingCO2), 3));
}

#[test]
fn invalid_reports_change_no_slot() {
    let cipher = Cipher::new(false);
    let reports = vec![CO2_100, NOISE, UNKNOWN_TYPE, TEMP_4485, CO2_400];
    assert_eq!(read_recorded(&cipher, &reports, false, 50), (Ok(reading(100, 4485)), 4));
}

#[test]
fn latest_sample_wins() {
    let cipher = Cipher::new(false);
    let reports = vec![CO2_100, CO2_400, TEMP_4485];
    assert_eq!(read_recorded(&cipher, &reports, false, 50), (Ok(reading(400, 4485)), 3));
}

#[test]
fn reports_running_out_is_a_read_failure() {
    let cipher = Cipher::new(false);
    let reports = vec![CO2_100, NOISE];
    assert_eq!(
        read_recorded(&cipher, &reports, false, 50),
        (Err(ErrorKind::TransportReadFailed), 2)
    );
    assert_eq!(
        read_recorded(&cipher, &Vec::new(), true, 1),
        (Err(ErrorKind::TransportReadFailed), 0)
    );
}

#[test]
fn bypass_reads_clear_frames() {
    let cipher = Cipher::new(true);
    let reports =
        vec![[0x42, 0x11, 0x85, 0xd8, 0x0d, 0, 0, 0], [0x50, 0x00, 0x64, 0xb4, 0x0d, 0, 0, 0]];
    assert_eq!(read_recorded(&cipher, &reports, false, 5), (Ok(reading(100, 4485)), 2));
    let ciphered = vec![CO2_100, TEMP_4485];
    assert_eq!(read_recorded(&cipher, &ciphered, false, 2), (Err(ErrorKind::MissingCO2), 2));
}

#[test]
fn stepping_by_hand_counts_reads() {
    let cipher = Cipher::new(false);
    let source = [NOISE, CO2_100, NOISE, TEMP_4485, CO2_400, TEMP_4485];
    let mut reads = 0usize;
    let mut state = Acquisition::start(10);
    assert_eq!(state, Acquisition { co2: None, temp: None, request_num: 0, max_requests: 10 });
    while state.wants_frame() {
        let raw = source[reads];
        reads += 1;
        state.record(cipher.decrypt(raw));
    }
    assert_eq!(reads, 4);
    assert_eq!(state.request_num, 4);
    assert_eq!(state.finish(false), Ok(reading(100, 4485)));
}

#[test]
fn stepping_by_hand_stops_at_the_budget() {
    let cipher = Cipher::new(false);
    let mut reads = 0u32;
    let mut state = Acquisition::start(9);
    while state.wants_frame() {
        reads += 1;
        state.record(cipher.decrypt(NOISE));
    }
    assert_eq!(reads, 9);
    assert_eq!(state.finish(false), Err(ErrorKind::MissingCO2));
    assert_eq!(state.finish(true), Err(ErrorKind::MissingCO2));
}

#[test]
fn record_takes_a_deciphered_frame() {
    let mut state = Acquisition::start(3);
    state.record([0x50, 0x00, 0x64, 0xb4, 0x0d, 0, 0, 0]);
    assert_eq!(state, Acquisition { co2: Some(100), temp: None, request_num: 1, max_requests: 3 });
    state.record([0x50, 0x00, 0x64, 0xb5, 0x0d, 0, 0, 0]);
    assert_eq!(state, Acquisition { co2: Some(100), temp: None, request_num: 2, max_requests: 3 });
    assert!(state.wants_frame());
    assert_eq!(state.finish(false), Err(ErrorKind::MissingTemperature));
}

#[test]
fn finish_records_the_time_on_request() {
    let cipher = Cipher::new(false);
    let reports = vec![CO2_100, TEMP_4485];
    let (outcome, reads) = read_recorded(&cipher, &reports, true, 10);
    assert_eq!(reads, 2);
    let got = outcome.unwrap();
    assert_eq!(got.co2_ppm, 100);
    assert_eq!(got.temp, Temperature { sixteenths_kelvin: 4485 });
    let time = got.time.unwrap();
    assert!(time.unix_seconds > 1_500_000_000);
    let (without, _) = read_recorded(&cipher, &reports, false, 10);
    assert_eq!(without.unwrap().time, None);
}

#[test]
fn conclude_reports_missing_co2_first() {
    let temp = Temperature { sixteenths_kelvin: 4700 };
    let time = Some(CaptureTime { unix_seconds: 1_700_000_000, subsec_nanos: 5 });
    assert_eq!(conclude(None, None, None), Err(ErrorKind::MissingCO2));
    assert_eq!(conclude(None, Some(temp), time), Err(ErrorKind::MissingCO2));
    assert_eq!(conclude(Some(420), None, time), Err(ErrorKind::MissingTemperature));
    assert_eq!(conclude(Some(420), Some(temp), time), Ok(CO2Reading { time, co2_ppm: 420, temp }));
    assert_eq!(
        conclude(Some(420), Some(temp), None),
        Ok(CO2Reading { time: None, co2_ppm: 420, temp })
    );
}
