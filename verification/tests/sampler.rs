use energy_rate::sampler::{
    interpret, sample, CommandOutcome, SampleResult, DEVICE, INFO_FLAG, PROGRAM,
};

fn exited(code: i32, stdout: &str, stderr: &str) -> CommandOutcome {
    CommandOutcome::Exited {
        code: Some(code),
        stdout: stdout.as_bytes().to_vec(),
        stderr: stderr.as_bytes().to_vec(),
    }
}

fn reading(text: &str) -> SampleResult {
    SampleResult::Reading(text.to_string())
}

fn failed(text: &str) -> SampleResult {
    SampleResult::Failed(text.to_string())
}

#[test]
fn rate_line_gives_reading() {
    let outcome = exited(0, "energy-rate:  9.500 W\n", "");
    assert_eq!(sample(&outcome), reading("Energy Rate: 9.500 W"));
}

#[test]
fn failed_exit_reports_diagnostic_text() {
    let outcome = exited(1, "", "device not found");
    assert_eq!(sample(&outcome), failed("device not found"));
}

#[test]
fn output_without_rate_line_gives_empty_reading() {
    let outcome = exited(0, "voltage: 12.1 V\n", "");
    assert_eq!(sample(&outcome), reading(""));
}

#[test]
fn empty_output_gives_empty_reading() {
    assert_eq!(sample(&exited(0, "", "")), reading(""));
    assert_eq!(sample(&exited(0, "\n\n\n", "")), reading(""));
}

#[test]
fn first_of_several_rate_lines_is_used() {
    let outcome = exited(0, "energy-rate: 1 W\nenergy-rate: 2 W\n", "");
    assert_eq!(sample(&outcome), reading("Energy Rate: 1 W"));
}

#[test]
fn lines_before_the_rate_line_are_passed_over() {
    let out = "  native-path: BAT0\n  voltage: 12.1 V\n    energy-rate:          7.373 W\n  percentage: 80%\n";
    assert_eq!(sample(&exited(0, out, "")), reading("Energy Rate: 7.373 W"));
}

#[test]
fn device_report_is_read() {
    let out = "  native-path:          BAT0\n  vendor:               SMP\n  power supply:         yes\n  battery\n    present:             yes\n    state:               discharging\n    energy:              41.21 Wh\n    energy-full:         50.45 Wh\n    energy-rate:         11.165 W\n    voltage:             11.694 V\n    percentage:          81%\n";
    assert_eq!(sample(&exited(0, out, "")), reading("Energy Rate: 11.165 W"));
}

#[test]
fn white_space_around_label_and_value_is_stripped() {
    assert_eq!(
        interpret(Some(0), "\t \u{a0}energy-rate:\t 3 W \u{3000}\t\n", ""),
        reading("Energy Rate: 3 W")
    );
    assert_eq!(interpret(Some(0), "energy-rate:3 W", ""), reading("Energy Rate: 3 W"));
}

#[test]
fn white_space_inside_the_value_stays() {
    assert_eq!(
        interpret(Some(0), "energy-rate:  9.500   W  \n", ""),
        reading("Energy Rate: 9.500   W")
    );
}

#[test]
fn carriage_return_before_line_feed_is_stripped() {
    assert_eq!(
        interpret(Some(0), "voltage: 1 V\r\nenergy-rate: 4 W\r\nstate: ok\r\n", ""),
        reading("Energy Rate: 4 W")
    );
}

#[test]
fn last_line_needs_no_line_feed() {
    assert_eq!(interpret(Some(0), "a\nenergy-rate: 6 W", ""), reading("Energy Rate: 6 W"));
}

#[test]
fn rate_line_without_value_gives_bare_heading() {
    assert_eq!(interpret(Some(0), "energy-rate:\n", ""), reading("Energy Rate: "));
    assert_eq!(interpret(Some(0), "energy-rate:   \t", ""), reading("Energy Rate: "));
}

#[test]
fn label_is_matched_with_its_case() {
    assert_eq!(interpret(Some(0), "Energy-Rate: 5 W\n", ""), reading(""));
    assert_eq!(interpret(Some(0), "ENERGY-RATE: 5 W\n", ""), reading(""));
}

#[test]
fn label_counts_only_at_the_start_of_the_line() {
    assert_eq!(interpret(Some(0), "the energy-rate: 5 W\n", ""), reading(""));
    assert_eq!(interpret(Some(0), "energy-rate 5 W\n", ""), reading(""));
    assert_eq!(interpret(Some(0), "energy-rat\ne: 5 W\n", ""), reading(""));
}

#[test]
fn label_inside_the_value_is_part_of_the_value() {
    assert_eq!(
        interpret(Some(0), "energy-rate: 5 W energy-rate: 6 W\n", ""),
        reading("Energy Rate: 5 W energy-rate: 6 W")
    );
}

#[test]
fn value_may_hold_any_characters() {
    assert_eq!(
        interpret(Some(0), "energy-rate: 5,2 \u{b5}W \u{2713}\n", ""),
        reading("Energy Rate: 5,2 \u{b5}W \u{2713}")
    );
}

#[test]
fn failed_exit_ignores_the_output() {
    let outcome = exited(2, "energy-rate: 5 W\n", "no such device\n");
    assert_eq!(sample(&outcome), failed("no such device\n"));
}

#[test]
fn failed_exit_without_diagnostic_text_gives_generic_reason() {
    assert_eq!(sample(&exited(1, "", "")), failed("Error"));
    assert_eq!(sample(&exited(-1, "energy-rate: 5 W\n", "")), failed("Error"));
}

#[test]
fn every_exit_code_but_zero_fails() {
    for code in [i32::MIN, -1, 1, 2, 127, 255, 256, i32::MAX] {
        let result = sample(&exited(code, "energy-rate: 5 W\n", "x"));
        assert_eq!(result, failed("x"));
    }
}

#[test]
fn run_ended_by_signal_fails() {
    let outcome = CommandOutcome::Exited {
        code: None,
        stdout: b"energy-rate: 5 W\n".to_vec(),
        stderr: b"killed".to_vec(),
    };
    assert_eq!(sample(&outcome), failed("killed"));
}

#[test]
fn command_that_did_not_start_fails_with_detail() {
    let outcome = CommandOutcome::NotStarted { detail: "No such file or directory".to_string() };
    assert_eq!(sample(&outcome), failed("No such file or directory"));
    let silent = CommandOutcome::NotStarted { detail: String::new() };
    assert_eq!(sample(&silent), failed("Error"));
}

#[test]
fn invalid_bytes_are_replaced_not_rejected() {
    let outcome = CommandOutcome::Exited {
        code: Some(0),
        stdout: b"volt\xffage\nenergy-rate: 5\xff W\xc3\n".to_vec(),
        stderr: Vec::new(),
    };
    assert_eq!(sample(&outcome), reading("Energy Rate: 5\u{fffd} W\u{fffd}"));
    let broken = CommandOutcome::Exited {
        code: Some(1),
        stdout: Vec::new(),
        stderr: b"bad \xf0\x28 device".to_vec(),
    };
    assert_eq!(sample(&broken), failed("bad \u{fffd}( device"));
}

#[test]
fn multi_byte_output_is_decoded() {
    let outcome = exited(0, "\u{540d}\u{524d}: x\n\u{3000}energy-rate: 5 W\u{2003}\n", "");
    assert_eq!(sample(&outcome), reading("Energy Rate: 5 W"));
}

#[test]
fn text_of_a_reading_is_the_reading() {
    assert_eq!(reading("Energy Rate: 9.500 W").text(), "Energy Rate: 9.500 W");
    assert_eq!(reading("").text(), "");
}

#[test]
fn text_of_a_failure_is_the_placeholder() {
    assert_eq!(failed("device not found").text(), "Error");
    assert_eq!(failed("").text(), "Error");
}

#[test]
fn command_line_names_the_battery() {
    assert_eq!(PROGRAM, "upower");
    assert_eq!(INFO_FLAG, "-i");
    assert_eq!(DEVICE, "/org/freedesktop/UPower/devices/battery_BAT0");
}
