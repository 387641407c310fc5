use temp_converter::convert::{c_to_f, f_to_c};
use temp_converter::session::{
    on_scale, on_temperature, prompt, report, step, Phase, Scale, Step, EXIT_STATUS,
};
use temp_converter::text::{is_exit, parse_number, same_text, trim};

fn says(next: Phase, message: &str) -> Step {
    Step::Continue { next, message: Some(message.to_string()) }
}

fn silent(next: Phase) -> Step {
    Step::Continue { next, message: None }
}

#[test]
fn fahrenheit_to_celsius_truncates() {
    assert_eq!(f_to_c(100), 37);
    assert_eq!(f_to_c(212), 100);
    assert_eq!(f_to_c(32), 0);
    assert_eq!(f_to_c(41), 5);
    assert_eq!(f_to_c(50), 10);
}

#[test]
fn fahrenheit_below_freezing_goes_negative() {
    assert_eq!(f_to_c(31), 0);
    assert_eq!(f_to_c(30), -1);
    assert_eq!(f_to_c(0), -17);
}

#[test]
fn fahrenheit_largest_reading() {
    assert_eq!(f_to_c(u32::MAX), ((u32::MAX as i64 - 32) * 5) / 9);
}

#[test]
fn celsius_to_fahrenheit_adds_thirty_two() {
    assert_eq!(c_to_f(0), 32);
    assert_eq!(c_to_f(100), 132);
    assert_eq!(c_to_f(37), 69);
    assert_eq!(c_to_f(u32::MAX), u32::MAX as u64 + 32);
}

#[test]
fn exit_in_three_spellings_quits() {
    assert_eq!(step(Phase::AskTemperature, "exit"), Step::Quit);
    assert_eq!(step(Phase::AskTemperature, "EXIT"), Step::Quit);
    assert_eq!(step(Phase::AskTemperature, "Exit"), Step::Quit);
    assert_eq!(step(Phase::AskTemperature, "eXiT\n"), Step::Quit);
}

#[test]
fn exit_status_is_not_zero() {
    assert_ne!(EXIT_STATUS, 0);
}

#[test]
fn exit_at_scale_prompt_quits() {
    assert_eq!(step(Phase::AskScale(10), "exit"), Step::Quit);
    assert_eq!(step(Phase::AskScale(10), " EXIT \n"), Step::Quit);
}

#[test]
fn fahrenheit_spellings_select_fahrenheit() {
    let expected = says(Phase::AskTemperature, "100 degrees Fahrenheit is 37 degrees Celsius");
    for s in ["F", "f", "Fahrenheit", "FAHRENHEIT", "fahrenheit\n"] {
        assert_eq!(step(Phase::AskScale(100), s), expected);
    }
}

#[test]
fn celsius_spellings_select_celsius() {
    let expected = says(Phase::AskTemperature, "100 degrees Celsius is 132 degrees Fahrenheit");
    for s in ["c", "C", "Celsius", "CELSIUS", "cElSiUs"] {
        assert_eq!(step(Phase::AskScale(100), s), expected);
    }
}

#[test]
fn padded_temperature_reads_as_unpadded() {
    assert_eq!(step(Phase::AskTemperature, "  100  \n"), step(Phase::AskTemperature, "100"));
    assert_eq!(step(Phase::AskTemperature, "100"), silent(Phase::AskScale(100)));
    assert_eq!(step(Phase::AskScale(100), "\t f \r\n"), step(Phase::AskScale(100), "f"));
}

#[test]
fn non_numeric_temperature_restarts_silently() {
    assert_eq!(step(Phase::AskTemperature, "abc"), silent(Phase::AskTemperature));
    assert_eq!(step(Phase::AskTemperature, ""), silent(Phase::AskTemperature));
    assert_eq!(step(Phase::AskTemperature, "-5"), silent(Phase::AskTemperature));
    assert_eq!(step(Phase::AskTemperature, "1.5"), silent(Phase::AskTemperature));
}

#[test]
fn hundred_fahrenheit_scenario() {
    let first = step(Phase::AskTemperature, "100");
    assert_eq!(first, silent(Phase::AskScale(100)));
    assert_eq!(
        step(Phase::AskScale(100), "f"),
        says(Phase::AskTemperature, "100 degrees Fahrenheit is 37 degrees Celsius")
    );
}

#[test]
fn zero_celsius_scenario() {
    assert_eq!(step(Phase::AskTemperature, "0"), silent(Phase::AskScale(0)));
    assert_eq!(
        step(Phase::AskScale(0), "celsius"),
        says(Phase::AskTemperature, "0 degrees Celsius is 32 degrees Fahrenheit")
    );
}

#[test]
fn exit_at_first_prompt_scenario() {
    assert_eq!(step(Phase::AskTemperature, "exit\n"), Step::Quit);
}

#[test]
fn unknown_scale_scenario() {
    assert_eq!(step(Phase::AskTemperature, "50"), silent(Phase::AskScale(50)));
    assert_eq!(
        step(Phase::AskScale(50), "x"),
        says(Phase::AskTemperature, "Your input was invalid. Try again dummy.")
    );
    assert_eq!(prompt(Phase::AskTemperature), prompt(Phase::AskScale(50)).replace(
        "And what format is that temperature in? Celsius or Fahrenheit?",
        "Please input a temperature to convert. If you would like to cancel, do so at any time by typing 'exit'",
    ));
}

#[test]
fn report_of_negative_celsius() {
    assert_eq!(report(0, Scale::Fahrenheit), "0 degrees Fahrenheit is -17 degrees Celsius");
    assert_eq!(report(7, Scale::Celsius), "7 degrees Celsius is 39 degrees Fahrenheit");
}

#[test]
fn on_scale_takes_lowered_text() {
    assert_eq!(
        on_scale(212, "fahrenheit"),
        says(Phase::AskTemperature, "212 degrees Fahrenheit is 100 degrees Celsius")
    );
    assert_eq!(
        on_scale(212, "F"),
        says(Phase::AskTemperature, "Your input was invalid. Try again dummy.")
    );
    assert_eq!(on_temperature(" 7 "), silent(Phase::AskScale(7)));
}

#[test]
fn parse_number_cases() {
    assert_eq!(parse_number("0"), Some(0));
    assert_eq!(parse_number("+7"), Some(7));
    assert_eq!(parse_number("007"), Some(7));
    assert_eq!(parse_number("4294967295"), Some(u32::MAX));
    assert_eq!(parse_number("4294967296"), None);
    assert_eq!(parse_number("99999999999999999999"), None);
    assert_eq!(parse_number(""), None);
    assert_eq!(parse_number("+"), None);
    assert_eq!(parse_number("-1"), None);
    assert_eq!(parse_number("12a"), None);
    assert_eq!(parse_number(" 1"), None);
    for s in ["0", "+7", "123456", "4294967295", "4294967296", "", "+", "-0", "1_0", "٣"] {
        assert_eq!(parse_number(s), s.parse::<u32>().ok());
    }
}

#[test]
fn trim_cases() {
    assert_eq!(trim("  a b \n"), "a b");
    assert_eq!(trim("\u{3000}x\u{a0}"), "x");
    assert_eq!(trim(" \t\r\n"), "");
    assert_eq!(trim(""), "");
    for s in ["\u{2028}q\u{85}", "\u{200b}z", " ü ", "\u{1680}\u{205f}"] {
        assert_eq!(trim(s), s.trim());
    }
}

#[test]
fn word_checks() {
    assert!(is_exit("ExIt"));
    assert!(!is_exit("exits"));
    assert!(!is_exit("e x"));
    assert!(same_text("celsius", "celsius"));
    assert!(!same_text("celsius", "Celsius"));
    assert!(!same_text("c", "cc"));
}
