//! The session with a device: the command lines, the readers of typed
//! responses and the guarded write.
//!
//! The session holds no port. Every operation is a function from the
//! session's state and what the port did last to the next state and what the
//! port must do next; the caller owns the port and does what it is told.

use crate::color::{lemma_parse_all_index, naturals, parse_all, parse_words, RGB, RGBW};
use crate::enums::{led_mode_of, power_mode_of, Duration, LedMode, TimeUnit, WirelessPowerMode};
use crate::error::ProtocolError;
use crate::helpers::{
    lemma_numerical_vec_round_trip, numbers_text, numerical_vector, rgb_vector, rgbw_vector,
    string_to_numerical_vec, string_to_rgb_vec, string_to_rgbw_vec, values_of, Numerical,
};
use crate::text::{
    chars_of, decimal, decimal_string, lines, parse_decimal, parse_number, push_decimal,
    push_str, same_text, split_lines, split_whitespace, string_of, tokens, words_of,
};
use vstd::prelude::*;
use vstd::string::StrSliceExecFns;

verus! {

/// The number of the last of the ten layers of a device, counted from zero.
pub const MAX_LAYERS: u8 = 9;

/// The Dygma Focus API.
pub struct Focus {
    /// The bytes of the response that is being read.
    pub response_buffer: Vec<u8>,
    /// Whether the response awaited next confirms a write.
    pub awaiting_ack: bool,
    /// The position of a backup or restore among the settings.
    pub cursor: usize,
}

impl Focus {
    /// A session in which nothing has been read or asked yet.
    pub fn new() -> (focus: Focus)
        ensures
            focus.response_buffer@ == Seq::<u8>::empty(),
            !focus.awaiting_ack,
            focus.cursor == 0,
    {
        Focus { response_buffer: Vec::new(), awaiting_ack: false, cursor: 0 }
    }
}

/// A line to write to the device.
#[derive(Debug, Clone, PartialEq, Eq)]
pub struct Command {
    /// The text to write, with its ending.
    pub text: String,
    /// Whether one response is to be read after the text is written.
    pub wait_for_response: bool,
}

/// What the caller of an operation must do next.
#[derive(Debug, PartialEq, Eq)]
pub enum Step<T> {
    /// Write the command, read one response and call the operation again
    /// with that response.
    Send(Command),
    /// The operation has ended with this result.
    Done(Result<T, ProtocolError>),
}

/// What a step of an operation without a value says.
pub enum Outcome {
    /// Write this line and read one response.
    Send(Seq<char>),
    /// Write this line; no response follows it.
    Tell(Seq<char>),
    /// The operation has ended.
    Done(Result<(), ProtocolError>),
}

impl<T> Step<T> {
    /// The step asks to write `line` and to read one response.
    pub open spec fn asks(self, line: Seq<char>) -> bool {
        self matches Step::Send(c) && c.text@ == line && c.wait_for_response
    }

    /// The step ends the operation with the error `e`.
    pub open spec fn fails(self, e: ProtocolError) -> bool {
        self matches Step::Done(Err(x)) && x == e
    }
}

impl Step<()> {
    /// What the step says.
    pub open spec fn outcome(self) -> Outcome {
        match self {
            Step::Send(c) => if c.wait_for_response {
                Outcome::Send(c.text@)
            } else {
                Outcome::Tell(c.text@)
            },
            Step::Done(r) => Outcome::Done(r),
        }
    }
}

/// The text of the response that an operation was called with, if any.
pub open spec fn text_of(reply: Option<&str>) -> Option<Seq<char>> {
    match reply {
        Some(r) => Some(r@),
        None => None,
    }
}

/// The line that asks for the value of `command`.
pub open spec fn query_line(command: Seq<char>) -> Seq<char> {
    command.push('\n')
}

/// The line of a command: its name, then a space and its arguments where it
/// has any, then a line feed.
pub open spec fn command_line(name: Seq<char>, args: Seq<char>) -> Seq<char> {
    if args.len() == 0 {
        name.push('\n')
    } else {
        name.push(' ') + args.push('\n')
    }
}

/// The line that sets `command` to the value that `argument` denotes.
pub open spec fn update_line(command: Seq<char>, argument: Seq<char>) -> Seq<char> {
    command_line(command, argument)
}

/// The guarded write. `verdict` is nothing at the start of the operation;
/// later it tells whether the response just read holds the value that is to
/// be written.
///
/// At the start the value is asked for. Where the response holds the value
/// already, the operation ends without a write; where it holds another, the
/// new value is written and its confirmation awaited; where it cannot be
/// read, the operation fails. The response to the write ends the operation.
pub open spec fn guard(
    awaiting: bool,
    verdict: Option<Result<bool, ProtocolError>>,
    command: Seq<char>,
    argument: Seq<char>,
) -> (bool, Outcome) {
    match verdict {
        None => (false, Outcome::Send(query_line(command))),
        Some(v) => if awaiting {
            (false, Outcome::Done(Ok(())))
        } else {
            match v {
                Err(e) => (false, Outcome::Done(Err(e))),
                Ok(true) => (false, Outcome::Done(Ok(()))),
                Ok(false) => (true, Outcome::Send(update_line(command, argument))),
            }
        },
    }
}

/// A command that is written once and confirmed: the line at the start, the
/// end at its response.
pub open spec fn confirmed(reply: Option<Seq<char>>, command: Seq<char>) -> Outcome {
    match reply {
        None => Outcome::Send(query_line(command)),
        Some(_) => Outcome::Done(Ok(())),
    }
}

/// The truth value that a response denotes: `0` or `false`, `1` or `true`.
pub open spec fn flag_of(r: Seq<char>) -> Result<bool, ProtocolError> {
    if r == "0"@ || r == "false"@ {
        Ok(false)
    } else if r == "1"@ || r == "true"@ {
        Ok(true)
    } else {
        Err(ProtocolError::BadResponse)
    }
}

/// The number that a response denotes: the whole response is one decimal
/// numeral within the range of `T`.
pub open spec fn number_of<T: Numerical>(r: Seq<char>) -> Result<T, ProtocolError> {
    match parse_decimal(r, T::limit()) {
        Some(n) => Ok(T::of(n)),
        None => Err(ProtocolError::BadResponse),
    }
}

/// The span of time that a response denotes, a number of `unit`s.
pub open spec fn duration_of(r: Seq<char>, unit: TimeUnit) -> Result<Duration, ProtocolError> {
    match parse_decimal(r, 0xffff_ffff_ffff_ffff) {
        Some(n) => Ok(
            match unit {
                TimeUnit::Milliseconds => Duration {
                    secs: (n / 1000) as u64,
                    nanos: ((n % 1000) * 1_000_000) as u32,
                },
                TimeUnit::Seconds => Duration { secs: n as u64, nanos: 0 },
            },
        ),
        None => Err(ProtocolError::BadResponse),
    }
}

/// The LED mode that a response denotes by its number.
pub open spec fn led_mode_in(r: Seq<char>) -> Result<LedMode, ProtocolError> {
    match parse_decimal(r, 255) {
        Some(n) => match led_mode_of(n) {
            Some(m) => Ok(m),
            None => Err(ProtocolError::BadResponse),
        },
        None => Err(ProtocolError::BadResponse),
    }
}

/// The wireless power mode that a response denotes by its number.
pub open spec fn power_mode_in(r: Seq<char>) -> Result<WirelessPowerMode, ProtocolError> {
    match parse_decimal(r, 255) {
        Some(n) => match power_mode_of(n) {
            Some(m) => Ok(m),
            None => Err(ProtocolError::BadResponse),
        },
        None => Err(ProtocolError::BadResponse),
    }
}

/// The colour of one LED that a response denotes: not empty, exactly three
/// tokens, each a number of at most 255.
pub open spec fn led_color_of(r: Seq<char>) -> Result<RGB, ProtocolError> {
    if r.len() == 0 {
        Err(ProtocolError::BadResponse)
    } else if tokens(r).len() != 3 {
        Err(ProtocolError::MalformedVector)
    } else {
        match parse_all(tokens(r), 255) {
            None => Err(ProtocolError::BadResponse),
            Some(ns) => Ok(RGB { r: ns[0] as u8, g: ns[1] as u8, b: ns[2] as u8 }),
        }
    }
}

/// The characters of a text that are not carriage returns.
pub open spec fn without_returns(s: Seq<char>) -> Seq<char>
    decreases s.len(),
{
    if s.len() == 0 {
        s
    } else if s.last() != '\r' {
        without_returns(s.drop_last()).push(s.last())
    } else {
        without_returns(s.drop_last())
    }
}

/// The lines of a response, each without any carriage return.
pub open spec fn plain_lines(r: Seq<char>) -> Seq<Seq<char>> {
    Seq::new(lines(r).len(), |i: int| without_returns(lines(r)[i]))
}

/// The layers that a response reports as active: one truth value for each
/// token, true where the token is `1`.
pub open spec fn layer_flags(r: Seq<char>) -> Seq<bool> {
    Seq::new(tokens(r).len(), |i: int| tokens(r)[i] == seq!['1'])
}

/// The texts held by a vector of strings.
pub open spec fn texts_of(v: Seq<String>) -> Seq<Seq<char>> {
    Seq::new(v.len(), |i: int| v[i]@)
}

/// Reads a truth value: `0` or `false`, `1` or `true`.
pub fn read_flag(response: &str) -> (flag: Result<bool, ProtocolError>)
    ensures
        flag == flag_of(response@),
{
    if same_text(response, "0") || same_text(response, "false") {
        Ok(false)
    } else if same_text(response, "1") || same_text(response, "true") {
        Ok(true)
    } else {
        Err(ProtocolError::BadResponse)
    }
}

/// Reads a number: the whole response is one decimal numeral.
pub fn read_number<T: Numerical>(response: &str) -> (number: Result<T, ProtocolError>)
    ensures
        number == number_of::<T>(response@),
{
    let chars = chars_of(response);
    match parse_number(&chars, T::ceiling()) {
        Some(n) => Ok(T::narrow(n)),
        None => Err(ProtocolError::BadResponse),
    }
}

/// Reads a span of time given as a number of `unit`s.
pub fn read_duration(response: &str, unit: TimeUnit) -> (span: Result<Duration, ProtocolError>)
    ensures
        span == duration_of(response@, unit),
{
    let chars = chars_of(response);
    match parse_number(&chars, 0xffff_ffff_ffff_ffff) {
        Some(n) => Ok(
            match unit {
                TimeUnit::Milliseconds => Duration::from_millis(n),
                TimeUnit::Seconds => Duration::from_secs(n),
            },
        ),
        None => Err(ProtocolError::BadResponse),
    }
}

/// Reads an LED mode from its number.
pub fn read_led_mode(response: &str) -> (mode: Result<LedMode, ProtocolError>)
    ensures
        mode == led_mode_in(response@),
{
    match LedMode::from_str(response) {
        Ok(m) => Ok(m),
        Err(_) => Err(ProtocolError::BadResponse),
    }
}

/// Reads a wireless power mode from its number.
pub fn read_power_mode(response: &str) -> (mode: Result<WirelessPowerMode, ProtocolError>)
    ensures
        mode == power_mode_in(response@),
{
    match WirelessPowerMode::from_str(response) {
        Ok(m) => Ok(m),
        Err(_) => Err(ProtocolError::BadResponse),
    }
}

/// Reads the colour of one LED.
pub fn read_led_color(response: &str) -> (color: Result<RGB, ProtocolError>)
    ensures
        color == led_color_of(response@),
{
    if response.unicode_len() == 0 {
        return Err(ProtocolError::BadResponse);
    }
    let words = split_whitespace(response);
    if words.len() != 3 {
        return Err(ProtocolError::MalformedVector);
    }
    match parse_words(&words, 255) {
        None => Err(ProtocolError::BadResponse),
        Some(parts) => {
            proof {
                lemma_parse_all_index(tokens(response@), 255, 0);
                lemma_parse_all_index(tokens(response@), 255, 1);
                lemma_parse_all_index(tokens(response@), 255, 2);
                assert(naturals(parts@).len() == 3);
            }
            assert(naturals(parts@)[0] == parts[0]);
            assert(naturals(parts@)[1] == parts[1]);
            assert(naturals(parts@)[2] == parts[2]);
            Ok(RGB { r: parts[0] as u8, g: parts[1] as u8, b: parts[2] as u8 })
        },
    }
}

/// Reads the lines of a response, each without any carriage return.
pub fn read_lines(response: &str) -> (out: Vec<String>)
    ensures
        texts_of(out@) == plain_lines(response@),
{
    let all = split_lines(response);
    let mut out: Vec<String> = Vec::new();
    let mut i: usize = 0;
    while i < all.len()
        invariant
            0 <= i <= all.len(),
            words_of(all@) == lines(response@),
            out.len() == i,
            forall|j: int| 0 <= j < i ==> (#[trigger] out@[j])@ == without_returns(all@[j]@),
        decreases all.len() - i,
    {
        let line = &all[i];
        let mut kept: Vec<char> = Vec::new();
        let mut k: usize = 0;
        while k < line.len()
            invariant
                0 <= k <= line.len(),
                kept@ == without_returns(line@.take(k as int)),
            decreases line.len() - k,
        {
            assert(line@.take(k + 1).drop_last() == line@.take(k as int));
            if line[k] != '\r' {
                kept.push(line[k]);
            }
            k += 1;
        }
        assert(line@.take(line.len() as int) == line@);
        out.push(string_of(&kept));
        i += 1;
    }
    assert(texts_of(out@) == plain_lines(response@)) by {
        assert forall|j: int| 0 <= j < out.len() implies texts_of(out@)[j] == plain_lines(
            response@,
        )[j] by {
            assert(words_of(all@)[j] == all@[j]@);
        }
    }
    out
}

/// Reads which layers are active.
pub fn read_layer_flags(response: &str) -> (flags: Vec<bool>)
    ensures
        flags@ == layer_flags(response@),
{
    let words = split_whitespace(response);
    let mut flags: Vec<bool> = Vec::new();
    let mut i: usize = 0;
    while i < words.len()
        invariant
            0 <= i <= words.len(),
            words_of(words@) == tokens(response@),
            flags.len() == i,
            forall|j: int| 0 <= j < i ==> #[trigger] flags@[j] == (words@[j]@ == seq!['1']),
        decreases words.len() - i,
    {
        let word = &words[i];
        let one = word.len() == 1 && word[0] == '1';
        assert(one == (word@ == seq!['1'])) by {
            if one {
                assert(word@ == seq!['1']);
            }
        }
        flags.push(one);
        i += 1;
    }
    assert(flags@ == layer_flags(response@)) by {
        assert forall|j: int| 0 <= j < flags.len() implies flags@[j] == layer_flags(response@)[j] by {
            assert(words_of(words@)[j] == words@[j]@);
        }
    }
    flags
}

/// A command line: its name, a space, and its argument.
pub fn with_argument(command: &str, argument: &str) -> (line: String)
    ensures
        line@ == command@.push(' ') + argument@,
{
    let mut out: Vec<char> = Vec::new();
    push_str(&mut out, command);
    out.push(' ');
    push_str(&mut out, argument);
    string_of(&out)
}

/// A command line: its name, a space, and a number in decimal.
pub fn with_number(command: &str, number: u64) -> (line: String)
    ensures
        line@ == command@.push(' ') + decimal(number as nat),
{
    let mut out: Vec<char> = Vec::new();
    push_str(&mut out, command);
    out.push(' ');
    push_decimal(&mut out, number);
    string_of(&out)
}

impl Focus {
    /// The command `command` with `suffix` as its ending, if any.
    pub fn command_raw(command: &str, suffix: Option<char>, wait_for_response: bool) -> (c: Command)
        ensures
            c.text@ == match suffix {
                Some(ch) => command@.push(ch),
                None => command@,
            },
            c.wait_for_response == wait_for_response,
    {
        let mut out: Vec<char> = Vec::new();
        push_str(&mut out, command);
        match suffix {
            Some(ch) => {
                out.push(ch);
            },
            None => {},
        }
        Command { text: string_of(&out), wait_for_response }
    }

    /// The line of the command `name` with the arguments `args`: the name,
    /// then a space and the arguments where there are any, then a line feed.
    pub fn send_command(name: &str, args: &str, wait_for_response: bool) -> (c: Command)
        ensures
            c.text@ == command_line(name@, args@),
            c.wait_for_response == wait_for_response,
    {
        if args.unicode_len() == 0 {
            Self::command_raw(name, Some('\n'), wait_for_response)
        } else {
            let line = with_argument(name, args);
            let c = Self::command_raw(line.as_str(), Some('\n'), wait_for_response);
            assert(c.text@ == name@.push(' ') + args@.push('\n'));
            c
        }
    }

    /// The command `command` with a single new line ending.
    pub fn command_new_line(command: &str, wait_for_response: bool) -> (c: Command)
        ensures
            c.text@ == query_line(command@),
            c.wait_for_response == wait_for_response,
    {
        Self::command_raw(command, Some('\n'), wait_for_response)
    }

    /// The command `command` with a single whitespace ending. No response
    /// follows it.
    pub fn command_whitespace(command: &str) -> (c: Command)
        ensures
            c.text@ == command@.push(' '),
            !c.wait_for_response,
    {
        Self::command_raw(command, Some(' '), false)
    }

    /// Asks for the value of `command` and gives the response as it is.
    pub fn command_response_string(reply: Option<&str>, command: &str) -> (step: Step<String>)
        ensures
            match reply {
                None => step.asks(query_line(command@)),
                Some(r) => step matches Step::Done(Ok(text)) && text@ == r@,
            },
    {
        match reply {
            None => Step::Send(Self::command_new_line(command, true)),
            Some(r) => Step::Done(Ok(r.to_owned())),
        }
    }

    /// Asks for the value of `command` and reads the response as a number.
    pub fn command_response_numerical<T: Numerical>(reply: Option<&str>, command: &str) -> (step:
        Step<T>)
        ensures
            match reply {
                None => step.asks(query_line(command@)),
                Some(r) => step == Step::Done(number_of::<T>(r@)),
            },
    {
        match reply {
            None => Step::Send(Self::command_new_line(command, true)),
            Some(r) => Step::Done(read_number(r)),
        }
    }

    /// Asks for the value of `command` and reads the response as a span of
    /// time, a number of `time_unit`s.
    pub fn command_response_duration(reply: Option<&str>, command: &str, time_unit: TimeUnit) -> (step:
        Step<Duration>)
        ensures
            match reply {
                None => step.asks(query_line(command@)),
                Some(r) => step == Step::Done(duration_of(r@, time_unit)),
            },
    {
        match reply {
            None => Step::Send(Self::command_new_line(command, true)),
            Some(r) => Step::Done(read_duration(r, time_unit)),
        }
    }

    /// Asks for the value of `command` and reads the response as a truth
    /// value.
    pub fn command_response_bool(reply: Option<&str>, command: &str) -> (step: Step<bool>)
        ensures
            match reply {
                None => step.asks(query_line(command@)),
                Some(r) => step == Step::Done(flag_of(r@)),
            },
    {
        match reply {
            None => Step::Send(Self::command_new_line(command, true)),
            Some(r) => Step::Done(read_flag(r)),
        }
    }

    /// Asks for the value of `command` and gives the lines of the response,
    /// each without any carriage return.
    pub fn command_response_vec_string(reply: Option<&str>, command: &str) -> (step: Step<
        Vec<String>,
    >)
        ensures
            match reply {
                None => step.asks(query_line(command@)),
                Some(r) => step matches Step::Done(Ok(v)) && texts_of(v@) == plain_lines(r@),
            },
    {
        match reply {
            None => Step::Send(Self::command_new_line(command, true)),
            Some(r) => Step::Done(Ok(read_lines(r))),
        }
    }

    /// Asks for the value of `command` and reads the response as a list of
    /// numbers.
    pub fn query_numbers<T: Numerical>(reply: Option<&str>, command: &str) -> (step: Step<Vec<T>>)
        ensures
            match reply {
                None => step.asks(query_line(command@)),
                Some(r) => match numerical_vector::<T>(r@) {
                    Ok(seq) => step matches Step::Done(Ok(v)) && v@ == seq,
                    Err(e) => step.fails(e),
                },
            },
    {
        match reply {
            None => Step::Send(Self::command_new_line(command, true)),
            Some(r) => Step::Done(string_to_numerical_vec(r)),
        }
    }

    /// Asks for the value of `command` and reads the response as a list of
    /// colours of three components.
    pub fn query_colors(reply: Option<&str>, command: &str) -> (step: Step<Vec<RGB>>)
        ensures
            match reply {
                None => step.asks(query_line(command@)),
                Some(r) => match rgb_vector(r@) {
                    Ok(seq) => step matches Step::Done(Ok(v)) && v@ == seq,
                    Err(e) => step.fails(e),
                },
            },
    {
        match reply {
            None => Step::Send(Self::command_new_line(command, true)),
            Some(r) => Step::Done(string_to_rgb_vec(r)),
        }
    }

    /// Asks for the value of `command` and reads the response as a list of
    /// colours of four components.
    pub fn query_wide_colors(reply: Option<&str>, command: &str) -> (step: Step<Vec<RGBW>>)
        ensures
            match reply {
                None => step.asks(query_line(command@)),
                Some(r) => match rgbw_vector(r@) {
                    Ok(seq) => step matches Step::Done(Ok(v)) && v@ == seq,
                    Err(e) => step.fails(e),
                },
            },
    {
        match reply {
            None => Step::Send(Self::command_new_line(command, true)),
            Some(r) => Step::Done(string_to_rgbw_vec(r)),
        }
    }

    /// Writes `command` once and takes its response as the confirmation.
    pub fn command_confirmed(reply: Option<&str>, command: &str) -> (step: Step<()>)
        ensures
            step.outcome() == confirmed(text_of(reply), command@),
    {
        match reply {
            None => Step::Send(Self::command_new_line(command, true)),
            Some(_) => Step::Done(Ok(())),
        }
    }

    /// One step of a guarded write of `command`.
    ///
    /// `verdict` is nothing at the start of the operation; at a response it
    /// tells whether the response holds the value that is to be written, or
    /// why it cannot be read. `argument` is that value as the device takes it.
    pub fn command_guarded(
        &mut self,
        command: &str,
        verdict: Option<Result<bool, ProtocolError>>,
        argument: &str,
    ) -> (step: Step<()>)
        ensures
            (final(self).awaiting_ack, step.outcome()) == guard(
                old(self).awaiting_ack,
                verdict,
                command@,
                argument@,
            ),
            final(self).response_buffer == old(self).response_buffer,
            final(self).cursor == old(self).cursor,
    {
        match verdict {
            None => {
                self.awaiting_ack = false;
                Step::Send(Self::command_new_line(command, true))
            },
            Some(v) => {
                if self.awaiting_ack {
                    self.awaiting_ack = false;
                    Step::Done(Ok(()))
                } else {
                    match v {
                        Err(e) => Step::Done(Err(e)),
                        Ok(true) => Step::Done(Ok(())),
                        Ok(false) => {
                            self.awaiting_ack = true;
                            Step::Send(Self::send_command(command, argument, true))
                        },
                    }
                }
            },
        }
    }
}


/// Whether a response holds the list of numbers `data`.
pub open spec fn numbers_match<T: Numerical>(reply: Option<Seq<char>>, data: Seq<T>) -> Option<
    Result<bool, ProtocolError>,
> {
    match reply {
        None => None,
        Some(r) => Some(
            match numerical_vector::<T>(r) {
                Ok(current) => Ok(current == data),
                Err(e) => Err(e),
            },
        ),
    }
}

/// Whether a response holds the number `value`.
pub open spec fn number_match<T: Numerical>(reply: Option<Seq<char>>, value: T) -> Option<
    Result<bool, ProtocolError>,
> {
    match reply {
        None => None,
        Some(r) => Some(
            match number_of::<T>(r) {
                Ok(current) => Ok(current == value),
                Err(e) => Err(e),
            },
        ),
    }
}

/// Whether a response holds the truth value `state`.
pub open spec fn flag_match(reply: Option<Seq<char>>, state: bool) -> Option<
    Result<bool, ProtocolError>,
> {
    match reply {
        None => None,
        Some(r) => Some(
            match flag_of(r) {
                Ok(current) => Ok(current == state),
                Err(e) => Err(e),
            },
        ),
    }
}

/// Whether a response is the text `value`.
pub open spec fn text_match(reply: Option<Seq<char>>, value: Seq<char>) -> Option<
    Result<bool, ProtocolError>,
> {
    match reply {
        None => None,
        Some(r) => Some(Ok(r == value)),
    }
}

/// Whether a response holds the span of time `value`, as a number of
/// `unit`s.
pub open spec fn duration_match(reply: Option<Seq<char>>, unit: TimeUnit, value: Duration) -> Option<
    Result<bool, ProtocolError>,
> {
    match reply {
        None => None,
        Some(r) => Some(
            match duration_of(r, unit) {
                Ok(current) => Ok(current == value),
                Err(e) => Err(e),
            },
        ),
    }
}

/// Whether a response holds the list of colours `data`.
pub open spec fn colors_match(reply: Option<Seq<char>>, data: Seq<RGB>) -> Option<
    Result<bool, ProtocolError>,
> {
    match reply {
        None => None,
        Some(r) => Some(
            match rgb_vector(r) {
                Ok(current) => Ok(current == data),
                Err(e) => Err(e),
            },
        ),
    }
}

/// Whether a response holds the list of colours `data`.
pub open spec fn wide_colors_match(reply: Option<Seq<char>>, data: Seq<RGBW>) -> Option<
    Result<bool, ProtocolError>,
> {
    match reply {
        None => None,
        Some(r) => Some(
            match rgbw_vector(r) {
                Ok(current) => Ok(current == data),
                Err(e) => Err(e),
            },
        ),
    }
}

/// Whether a response holds the LED mode `mode`.
pub open spec fn led_mode_match(reply: Option<Seq<char>>, mode: LedMode) -> Option<
    Result<bool, ProtocolError>,
> {
    match reply {
        None => None,
        Some(r) => Some(
            match led_mode_in(r) {
                Ok(current) => Ok(current == mode),
                Err(e) => Err(e),
            },
        ),
    }
}

/// Whether a response holds the wireless power mode `mode`.
pub open spec fn power_mode_match(reply: Option<Seq<char>>, mode: WirelessPowerMode) -> Option<
    Result<bool, ProtocolError>,
> {
    match reply {
        None => None,
        Some(r) => Some(
            match power_mode_in(r) {
                Ok(current) => Ok(current == mode),
                Err(e) => Err(e),
            },
        ),
    }
}

/// Whether a response holds the colour `color` of one LED.
pub open spec fn led_color_match(reply: Option<Seq<char>>, color: RGB) -> Option<
    Result<bool, ProtocolError>,
> {
    match reply {
        None => None,
        Some(r) => Some(
            match led_color_of(r) {
                Ok(current) => Ok(current == color),
                Err(e) => Err(e),
            },
        ),
    }
}

/// The text of a truth value as the device takes it: `1` or `0`.
pub open spec fn flag_text(state: bool) -> Seq<char> {
    decimal(
        if state {
            1
        } else {
            0
        },
    )
}

/// The text of a span of time as the device takes it: its whole `unit`s.
pub open spec fn duration_text(unit: TimeUnit, value: Duration) -> Seq<char> {
    match unit {
        TimeUnit::Milliseconds => decimal(value.millis()),
        TimeUnit::Seconds => decimal(value.secs as nat),
    }
}

/// The result of a check of a value against the largest that the device
/// takes: the error where the value is above it, and `within` otherwise.
pub open spec fn ranged(
    field: &'static str,
    value: nat,
    max: nat,
    awaiting: bool,
    within: (bool, Outcome),
) -> (bool, Outcome) {
    if value > max {
        (
            awaiting,
            Outcome::Done(
                Err(ProtocolError::OutOfRange { field, value: value as u64, max: max as u64 }),
            ),
        )
    } else {
        within
    }
}

/// Tells whether two lists hold the same numbers.
pub fn same_numbers<T: Numerical>(a: &Vec<T>, b: &[T]) -> (same: bool)
    ensures
        same == (a@ == b@),
{
    if a.len() != b.len() {
        return false;
    }
    let mut i: usize = 0;
    while i < a.len()
        invariant
            0 <= i <= a.len(),
            a.len() == b.len(),
            a@.take(i as int) == b@.take(i as int),
        decreases a.len() - i,
    {
        if a[i].widen() != b[i].widen() {
            return false;
        }
        proof {
            T::lemma_value(a@[i as int]);
            T::lemma_value(b@[i as int]);
            assert(a@.take(i + 1) == a@.take(i as int).push(a@[i as int]));
            assert(b@.take(i + 1) == b@.take(i as int).push(b@[i as int]));
        }
        i += 1;
    }
    assert(a@ == a@.take(a.len() as int));
    assert(b@ == b@.take(b.len() as int));
    true
}

/// Tells whether two lists hold the same colours.
pub fn same_colors(a: &Vec<RGB>, b: &[RGB]) -> (same: bool)
    ensures
        same == (a@ == b@),
{
    if a.len() != b.len() {
        return false;
    }
    let mut i: usize = 0;
    while i < a.len()
        invariant
            0 <= i <= a.len(),
            a.len() == b.len(),
            a@.take(i as int) == b@.take(i as int),
        decreases a.len() - i,
    {
        if a[i] != b[i] {
            return false;
        }
        assert(a@.take(i + 1) == a@.take(i as int).push(a@[i as int]));
        assert(b@.take(i + 1) == b@.take(i as int).push(b@[i as int]));
        i += 1;
    }
    assert(a@ == a@.take(a.len() as int));
    assert(b@ == b@.take(b.len() as int));
    true
}

/// Tells whether two lists hold the same colours.
pub fn same_wide_colors(a: &Vec<RGBW>, b: &[RGBW]) -> (same: bool)
    ensures
        same == (a@ == b@),
{
    if a.len() != b.len() {
        return false;
    }
    let mut i: usize = 0;
    while i < a.len()
        invariant
            0 <= i <= a.len(),
            a.len() == b.len(),
            a@.take(i as int) == b@.take(i as int),
        decreases a.len() - i,
    {
        if a[i] != b[i] {
            return false;
        }
        assert(a@.take(i + 1) == a@.take(i as int).push(a@[i as int]));
        assert(b@.take(i + 1) == b@.take(i as int).push(b@[i as int]));
        i += 1;
    }
    assert(a@ == a@.take(a.len() as int));
    assert(b@ == b@.take(b.len() as int));
    true
}

/// Tells whether a response holds the list of numbers `data`.
pub fn numbers_verdict<T: Numerical>(reply: Option<&str>, data: &[T]) -> (verdict: Option<
    Result<bool, ProtocolError>,
>)
    ensures
        verdict == numbers_match::<T>(text_of(reply), data@),
{
    match reply {
        None => None,
        Some(r) => Some(
            match string_to_numerical_vec::<T>(r) {
                Ok(current) => Ok(same_numbers(&current, data)),
                Err(e) => Err(e),
            },
        ),
    }
}

/// Tells whether a response holds the number `value`.
pub fn number_verdict<T: Numerical>(reply: Option<&str>, value: T) -> (verdict: Option<
    Result<bool, ProtocolError>,
>)
    ensures
        verdict == number_match::<T>(text_of(reply), value),
{
    match reply {
        None => None,
        Some(r) => Some(
            match read_number::<T>(r) {
                Ok(current) => {
                    proof {
                        T::lemma_value(current);
                        T::lemma_value(value);
                    }
                    Ok(current.widen() == value.widen())
                },
                Err(e) => Err(e),
            },
        ),
    }
}

/// Tells whether a response holds the truth value `state`.
pub fn flag_verdict(reply: Option<&str>, state: bool) -> (verdict: Option<
    Result<bool, ProtocolError>,
>)
    ensures
        verdict == flag_match(text_of(reply), state),
{
    match reply {
        None => None,
        Some(r) => Some(
            match read_flag(r) {
                Ok(current) => Ok(current == state),
                Err(e) => Err(e),
            },
        ),
    }
}

/// Tells whether a response is the text `value`.
pub fn text_verdict(reply: Option<&str>, value: &str) -> (verdict: Option<
    Result<bool, ProtocolError>,
>)
    ensures
        verdict == text_match(text_of(reply), value@),
{
    match reply {
        None => None,
        Some(r) => Some(Ok(same_text(r, value))),
    }
}

/// Tells whether a response holds the span of time `value`.
pub fn duration_verdict(reply: Option<&str>, unit: TimeUnit, value: Duration) -> (verdict: Option<
    Result<bool, ProtocolError>,
>)
    ensures
        verdict == duration_match(text_of(reply), unit, value),
{
    match reply {
        None => None,
        Some(r) => Some(
            match read_duration(r, unit) {
                Ok(current) => Ok(current == value),
                Err(e) => Err(e),
            },
        ),
    }
}

/// Tells whether a response holds the list of colours `data`.
pub fn colors_verdict(reply: Option<&str>, data: &[RGB]) -> (verdict: Option<
    Result<bool, ProtocolError>,
>)
    ensures
        verdict == colors_match(text_of(reply), data@),
{
    match reply {
        None => None,
        Some(r) => Some(
            match string_to_rgb_vec(r) {
                Ok(current) => Ok(same_colors(&current, data)),
                Err(e) => Err(e),
            },
        ),
    }
}

/// Tells whether a response holds the list of colours `data`.
pub fn wide_colors_verdict(reply: Option<&str>, data: &[RGBW]) -> (verdict: Option<
    Result<bool, ProtocolError>,
>)
    ensures
        verdict == wide_colors_match(text_of(reply), data@),
{
    match reply {
        None => None,
        Some(r) => Some(
            match string_to_rgbw_vec(r) {
                Ok(current) => Ok(same_wide_colors(&current, data)),
                Err(e) => Err(e),
            },
        ),
    }
}

/// Tells whether a response holds the LED mode `mode`.
pub fn led_mode_verdict(reply: Option<&str>, mode: LedMode) -> (verdict: Option<
    Result<bool, ProtocolError>,
>)
    ensures
        verdict == led_mode_match(text_of(reply), mode),
{
    match reply {
        None => None,
        Some(r) => Some(
            match read_led_mode(r) {
                Ok(current) => Ok(current == mode),
                Err(e) => Err(e),
            },
        ),
    }
}

/// Tells whether a response holds the wireless power mode `mode`.
pub fn power_mode_verdict(reply: Option<&str>, mode: WirelessPowerMode) -> (verdict: Option<
    Result<bool, ProtocolError>,
>)
    ensures
        verdict == power_mode_match(text_of(reply), mode),
{
    match reply {
        None => None,
        Some(r) => Some(
            match read_power_mode(r) {
                Ok(current) => Ok(current == mode),
                Err(e) => Err(e),
            },
        ),
    }
}

/// Tells whether a response holds the colour `color` of one LED.
pub fn led_color_verdict(reply: Option<&str>, color: RGB) -> (verdict: Option<
    Result<bool, ProtocolError>,
>)
    ensures
        verdict == led_color_match(text_of(reply), color),
{
    match reply {
        None => None,
        Some(r) => Some(
            match read_led_color(r) {
                Ok(current) => Ok(current == color),
                Err(e) => Err(e),
            },
        ),
    }
}

/// The text of a truth value as the device takes it.
pub fn flag_string(state: bool) -> (s: String)
    ensures
        s@ == flag_text(state),
{
    decimal_string(
        if state {
            1
        } else {
            0
        },
    )
}

/// The text of a span of time as the device takes it.
pub fn duration_string(unit: TimeUnit, value: Duration) -> (s: String)
    ensures
        s@ == duration_text(unit, value),
{
    match unit {
        TimeUnit::Milliseconds => decimal_string(value.as_millis()),
        TimeUnit::Seconds => decimal_string(value.as_secs() as u128),
    }
}

/// A guarded write that finds its value on the device ends well at once: no
/// line is sent, and no confirmation is awaited.
pub proof fn lemma_guarded_write_is_idempotent(command: Seq<char>, argument: Seq<char>)
    ensures
        guard(false, Some(Ok(true)), command, argument) == (false, Outcome::Done(Ok(()))),
{
}

/// A device that answers with the very text that the write of a list of
/// numbers would send holds that list: the guarded write then sends
/// nothing.
pub proof fn lemma_numbers_write_is_idempotent<T: Numerical>(command: Seq<char>, data: Seq<T>)
    ensures
        guard(
            false,
            numbers_match::<T>(Some(numbers_text(values_of(data))), data),
            command,
            numbers_text(values_of(data)),
        ) == (false, Outcome::Done(Ok(()))),
{
    lemma_numerical_vec_round_trip::<T>(data);
}

/// A value above the largest that the device takes is refused whatever the
/// device says and whatever was awaited, and nothing is sent.
pub proof fn lemma_out_of_range_is_refused(
    field: &'static str,
    value: nat,
    max: nat,
    awaiting: bool,
    within: (bool, Outcome),
)
    requires
        value > max,
    ensures
        ranged(field, value, max, awaiting, within) == (
            awaiting,
            Outcome::Done(
                Err(ProtocolError::OutOfRange { field, value: value as u64, max: max as u64 }),
            ),
        ),
{
}

/// The name of the file that a backup of the settings of a device is saved
/// to: the name of the device, `-backup-`, the date, `.json`.
pub fn backup_file_name(device_name: &str, date: &str) -> (name: String)
    ensures
        name@ == device_name@ + "-backup-"@ + date@ + ".json"@,
{
    let mut out: Vec<char> = Vec::new();
    push_str(&mut out, device_name);
    push_str(&mut out, "-backup-");
    push_str(&mut out, date);
    push_str(&mut out, ".json");
    string_of(&out)
}

} // verus!
