//! The decisions of the prompt loop. The loop asks for a temperature, then
//! for its scale; each console line read moves it from one phase to the next
//! and may give a line to print, or ends it.

use vstd::prelude::*;
use crate::convert::{c_to_f, celsius_to_fahrenheit, f_to_c, fahrenheit_to_celsius};
use crate::text::{
    all_white, decimal, is_exit, is_exit_word, lower_of, lowercase, parse_number, parse_u32,
    push_decimal, push_signed_decimal, same_text, signed_decimal, trim, trimmed,
    trimmed_ignores_padding,
};

verus! {

/// The status with which the program ends when the user types `exit`.
pub const EXIT_STATUS: i32 = 1;

/// The scale a temperature was given in.
#[derive(Clone, Copy, Debug, PartialEq, Eq, Structural)]
pub enum Scale {
    Fahrenheit,
    Celsius,
}

/// What the loop waits for: a temperature, or the scale of the temperature it holds.
#[derive(Clone, Copy, Debug, PartialEq, Eq, Structural)]
pub enum Phase {
    AskTemperature,
    AskScale(u32),
}

/// What the loop does after a line: end, or go on in a phase, printing a line first if one is given.
#[derive(Debug, PartialEq, Eq)]
pub enum Step {
    Quit,
    Continue { next: Phase, message: Option<String> },
}

/// A `Step` with its message as text.
pub enum Reply {
    Quit,
    Continue { next: Phase, message: Option<Seq<char>> },
}

impl View for Step {
    type V = Reply;

    open spec fn view(&self) -> Reply {
        match self {
            Step::Quit => Reply::Quit,
            Step::Continue { next, message } => Reply::Continue {
                next: *next,
                message: match message {
                    Some(m) => Some(m@),
                    None => None,
                },
            },
        }
    }
}

pub open spec fn temperature_prompt_text() -> Seq<char> {
    "Please input a temperature to convert. If you would like to cancel, do so at any time by typing 'exit'"@
}

pub open spec fn scale_prompt_text() -> Seq<char> {
    "And what format is that temperature in? Celsius or Fahrenheit?"@
}

pub open spec fn invalid_text() -> Seq<char> {
    "Your input was invalid. Try again dummy."@
}

/// The prompt printed before the line that a phase waits for.
pub open spec fn prompt_text(phase: Phase) -> Seq<char> {
    match phase {
        Phase::AskTemperature => temperature_prompt_text(),
        Phase::AskScale(_) => scale_prompt_text(),
    }
}

/// The line that reports a conversion of `temp`, read in `scale`.
pub open spec fn report_text(temp: u32, scale: Scale) -> Seq<char> {
    match scale {
        Scale::Fahrenheit => decimal(temp as nat) + " degrees Fahrenheit is "@ + signed_decimal(
            fahrenheit_to_celsius(temp as int),
        ) + " degrees Celsius"@,
        Scale::Celsius => decimal(temp as nat) + " degrees Celsius is "@ + decimal(
            celsius_to_fahrenheit(temp as int) as nat,
        ) + " degrees Fahrenheit"@,
    }
}

/// After a temperature line: `exit` in any case ends the loop; a number is
/// kept and its scale asked for; anything else starts over without a word.
pub open spec fn temperature_reply(line: Seq<char>) -> Reply {
    let t = trimmed(line);
    if is_exit_word(t) {
        Reply::Quit
    } else {
        match parse_u32(t) {
            Some(v) => Reply::Continue { next: Phase::AskScale(v), message: None },
            None => Reply::Continue { next: Phase::AskTemperature, message: None },
        }
    }
}

/// After a scale line, trimmed and lowered to `lowered`: report the
/// conversion of `temp`, end on `exit`, or say that the input was invalid.
pub open spec fn scale_reply(temp: u32, lowered: Seq<char>) -> Reply {
    if lowered == "fahrenheit"@ || lowered == "f"@ {
        Reply::Continue {
            next: Phase::AskTemperature,
            message: Some(report_text(temp, Scale::Fahrenheit)),
        }
    } else if lowered == "celsius"@ || lowered == "c"@ {
        Reply::Continue {
            next: Phase::AskTemperature,
            message: Some(report_text(temp, Scale::Celsius)),
        }
    } else if lowered == "exit"@ {
        Reply::Quit
    } else {
        Reply::Continue { next: Phase::AskTemperature, message: Some(invalid_text()) }
    }
}

/// What the loop does with `line` read in `phase`.
pub open spec fn reply(phase: Phase, line: Seq<char>) -> Reply {
    match phase {
        Phase::AskTemperature => temperature_reply(line),
        Phase::AskScale(temp) => scale_reply(temp, lower_of(trimmed(line))),
    }
}

/// The prompt to print before reading a line in `phase`.
pub fn prompt(phase: Phase) -> (r: String)
    ensures
        r@ == prompt_text(phase),
{
    match phase {
        Phase::AskTemperature => String::from_str(
            "Please input a temperature to convert. If you would like to cancel, do so at any time by typing 'exit'",
        ),
        Phase::AskScale(_) => String::from_str(
            "And what format is that temperature in? Celsius or Fahrenheit?",
        ),
    }
}

/// The line that reports the conversion of `temp`, read in `scale`.
pub fn report(temp: u32, scale: Scale) -> (r: String)
    ensures
        r@ == report_text(temp, scale),
{
    let mut out = String::new();
    push_decimal(&mut out, temp as u64);
    match scale {
        Scale::Fahrenheit => {
            out.append(" degrees Fahrenheit is ");
            push_signed_decimal(&mut out, f_to_c(temp));
            out.append(" degrees Celsius");
        },
        Scale::Celsius => {
            out.append(" degrees Celsius is ");
            push_decimal(&mut out, c_to_f(temp));
            out.append(" degrees Fahrenheit");
        },
    }
    out
}

/// Decides on a line read at the temperature prompt.
pub fn on_temperature(line: &str) -> (r: Step)
    ensures
        r@ == temperature_reply(line@),
{
    let t = trim(line);
    if is_exit(t) {
        Step::Quit
    } else {
        match parse_number(t) {
            Some(v) => Step::Continue { next: Phase::AskScale(v), message: None },
            None => Step::Continue { next: Phase::AskTemperature, message: None },
        }
    }
}

/// Decides on a scale line, given as already trimmed and lowered, for the temperature `temp`.
pub fn on_scale(temp: u32, lowered: &str) -> (r: Step)
    ensures
        r@ == scale_reply(temp, lowered@),
{
    if same_text(lowered, "fahrenheit") || same_text(lowered, "f") {
        Step::Continue { next: Phase::AskTemperature, message: Some(report(temp, Scale::Fahrenheit)) }
    } else if same_text(lowered, "celsius") || same_text(lowered, "c") {
        Step::Continue { next: Phase::AskTemperature, message: Some(report(temp, Scale::Celsius)) }
    } else if same_text(lowered, "exit") {
        Step::Quit
    } else {
        Step::Continue {
            next: Phase::AskTemperature,
            message: Some(String::from_str("Your input was invalid. Try again dummy.")),
        }
    }
}

/// Decides what the loop does with `line`, read in `phase`.
pub fn step(phase: Phase, line: &str) -> (r: Step)
    ensures
        r@ == reply(phase, line@),
{
    match phase {
        Phase::AskTemperature => on_temperature(line),
        Phase::AskScale(temp) => {
            let lowered = lowercase(trim(line));
            on_scale(temp, lowered.as_str())
        },
    }
}

/// A line padded with white space on either side is read as the line itself, in every phase.
pub proof fn padding_is_ignored(phase: Phase, pre: Seq<char>, line: Seq<char>, post: Seq<char>)
    requires
        all_white(pre),
        all_white(post),
    ensures
        reply(phase, pre + line + post) == reply(phase, line),
{
    trimmed_ignores_padding(pre, line, post);
}

/// At the temperature prompt, `exit` with its letters in any case ends the loop.
pub proof fn exit_in_any_case_quits(line: Seq<char>)
    requires
        is_exit_word(trimmed(line)),
    ensures
        reply(Phase::AskTemperature, line) == Reply::Quit,
{
}

/// A temperature line that is neither `exit` nor a number starts the loop
/// over: no message is printed and no scale is asked for.
pub proof fn unreadable_temperature_restarts(line: Seq<char>)
    requires
        !is_exit_word(trimmed(line)),
        parse_u32(trimmed(line)) is None,
    ensures
        reply(Phase::AskTemperature, line) == (Reply::Continue {
            next: Phase::AskTemperature,
            message: None,
        }),
{
}

/// Every spelling of a scale that lowers to its full name or its initial
/// selects that scale, and the loop then asks for a new temperature.
pub proof fn scale_spellings_select(temp: u32, line: Seq<char>)
    ensures
        lower_of(trimmed(line)) == "f"@ || lower_of(trimmed(line)) == "fahrenheit"@ ==> reply(
            Phase::AskScale(temp),
            line,
        ) == (Reply::Continue {
            next: Phase::AskTemperature,
            message: Some(report_text(temp, Scale::Fahrenheit)),
        }),
        lower_of(trimmed(line)) == "c"@ || lower_of(trimmed(line)) == "celsius"@ ==> reply(
            Phase::AskScale(temp),
            line,
        ) == (Reply::Continue {
            next: Phase::AskTemperature,
            message: Some(report_text(temp, Scale::Celsius)),
        }),
{
    reveal_strlit("f");
    reveal_strlit("fahrenheit");
    reveal_strlit("c");
    reveal_strlit("celsius");
    assert("c"@[0] != "f"@[0]);
    assert("celsius"@.len() != "fahrenheit"@.len());
}

} // verus!
