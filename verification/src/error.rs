//! The failure kinds of the tracer, the exit code of each and its message.

use vstd::prelude::*;
use vstd::string::StringExecFns;

verus! {

/// Everything that can end a run or a render.
///
/// `ExitEvent` and `CancelEvent` are expected outcomes: the first ends the
/// program cleanly, the second unwinds a render that was asked to stop.
#[derive(Debug, PartialEq)]
pub enum TracerError {
    FailedToCreateWindow(String),
    FailedToUpdateWindow(String),
    Configuration(String, String),
    ArgumentParsingError(String),
    UnknownMaterial(String),
    FailedToAcquireLock(String),
    ExitEvent,
    CancelEvent,
    ImageSave(String),
    SceneLoad(String),
    KeyError(String),
    CreateLogError(String),
    RecieveError(String),
    SendError(String),
    ActionProtocolError(String),
    BusWriteError(String, String),
    BusReadError(String, String),
    BusUpdateError(String),
    BusTimeoutError(),
    NoObjectWithId(usize),
    FailedToOpenImage(String, String),
    FailedToParse(String, String),
}

/// The character that stands for one decimal digit.
pub open spec fn digit_char(d: nat) -> char {
    if d == 0 {
        '0'
    } else if d == 1 {
        '1'
    } else if d == 2 {
        '2'
    } else if d == 3 {
        '3'
    } else if d == 4 {
        '4'
    } else if d == 5 {
        '5'
    } else if d == 6 {
        '6'
    } else if d == 7 {
        '7'
    } else if d == 8 {
        '8'
    } else {
        '9'
    }
}

/// The decimal numeral of `n`, most significant digit first, no leading zero.
pub open spec fn decimal_text(n: nat) -> Seq<char>
    decreases n,
{
    if n < 10 {
        seq![digit_char(n)]
    } else {
        decimal_text(n / 10).push(digit_char(n % 10))
    }
}

fn digit_str(d: usize) -> (s: &'static str)
    requires
        d < 10,
    ensures
        s@ == seq![digit_char(d as nat)],
{
    proof {
        reveal_strlit("0");
        reveal_strlit("1");
        reveal_strlit("2");
        reveal_strlit("3");
        reveal_strlit("4");
        reveal_strlit("5");
        reveal_strlit("6");
        reveal_strlit("7");
        reveal_strlit("8");
        reveal_strlit("9");
    }
    let s = if d == 0 {
        "0"
    } else if d == 1 {
        "1"
    } else if d == 2 {
        "2"
    } else if d == 3 {
        "3"
    } else if d == 4 {
        "4"
    } else if d == 5 {
        "5"
    } else if d == 6 {
        "6"
    } else if d == 7 {
        "7"
    } else if d == 8 {
        "8"
    } else {
        "9"
    };
    assert(s@ =~= seq![digit_char(d as nat)]);
    s
}

/// Writes `n` in decimal.
pub fn decimal(n: usize) -> (s: String)
    ensures
        s@ == decimal_text(n as nat),
    decreases n,
{
    if n < 10 {
        String::from_str(digit_str(n))
    } else {
        let mut s = decimal(n / 10);
        s.append(digit_str(n % 10));
        assert(s@ =~= decimal_text(n as nat));
        s
    }
}

/// Builds `before`, then `a`.
fn lead_one(before: &str, a: &str) -> (s: String)
    ensures
        s@ == before@ + a@,
{
    let mut s = String::from_str(before);
    s.append(a);
    s
}

/// Builds `before`, `a`, `after` in that order.
fn frame_one(before: &str, a: &str, after: &str) -> (s: String)
    ensures
        s@ == before@ + a@ + after@,
{
    let mut s = String::from_str(before);
    s.append(a);
    s.append(after);
    s
}

/// Builds `before`, `a`, `between`, `b` in that order.
fn lead_two(before: &str, a: &str, between: &str, b: &str) -> (s: String)
    ensures
        s@ == before@ + a@ + between@ + b@,
{
    let mut s = String::from_str(before);
    s.append(a);
    s.append(between);
    s.append(b);
    s
}

impl TracerError {
    /// The process exit code of each failure kind. Codes are stable: a kind
    /// never changes its code, and no two kinds share one.
    pub open spec fn exit_code_spec(self) -> i32 {
        match self {
            TracerError::FailedToCreateWindow(_) => 1,
            TracerError::FailedToUpdateWindow(_) => 2,
            TracerError::Configuration(_, _) => 3,
            TracerError::UnknownMaterial(_) => 4,
            TracerError::FailedToAcquireLock(_) => 5,
            TracerError::ExitEvent => 6,
            TracerError::CancelEvent => 7,
            TracerError::ImageSave(_) => 8,
            TracerError::SceneLoad(_) => 9,
            TracerError::ArgumentParsingError(_) => 10,
            TracerError::KeyError(_) => 11,
            TracerError::CreateLogError(_) => 12,
            TracerError::RecieveError(_) => 13,
            TracerError::SendError(_) => 14,
            TracerError::ActionProtocolError(_) => 15,
            TracerError::BusWriteError(_, _) => 16,
            TracerError::BusReadError(_, _) => 17,
            TracerError::BusUpdateError(_) => 18,
            TracerError::BusTimeoutError() => 19,
            TracerError::NoObjectWithId(_) => 20,
            TracerError::FailedToOpenImage(_, _) => 21,
            TracerError::FailedToParse(_, _) => 22,
        }
    }

    /// The exit code of this failure.
    pub fn exit_code(&self) -> (code: i32)
        ensures
            code == self.exit_code_spec(),
            1 <= code <= 22,
    {
        match self {
            TracerError::FailedToCreateWindow(_) => 1,
            TracerError::FailedToUpdateWindow(_) => 2,
            TracerError::Configuration(_, _) => 3,
            TracerError::UnknownMaterial(_) => 4,
            TracerError::FailedToAcquireLock(_) => 5,
            TracerError::ExitEvent => 6,
            TracerError::CancelEvent => 7,
            TracerError::ImageSave(_) => 8,
            TracerError::SceneLoad(_) => 9,
            TracerError::ArgumentParsingError(_) => 10,
            TracerError::KeyError(_) => 11,
            TracerError::CreateLogError(_) => 12,
            TracerError::RecieveError(_) => 13,
            TracerError::SendError(_) => 14,
            TracerError::ActionProtocolError(_) => 15,
            TracerError::BusWriteError(_, _) => 16,
            TracerError::BusReadError(_, _) => 17,
            TracerError::BusUpdateError(_) => 18,
            TracerError::BusTimeoutError() => 19,
            TracerError::NoObjectWithId(_) => 20,
            TracerError::FailedToOpenImage(_, _) => 21,
            TracerError::FailedToParse(_, _) => 22,
        }
    }

    /// The text that describes this failure to the user.
    pub open spec fn message_spec(self) -> Seq<char> {
        match self {
            TracerError::FailedToCreateWindow(a) => "Failed to create window: "@ + a@,
            TracerError::FailedToUpdateWindow(a) => "Failed to update window: "@ + a@,
            TracerError::Configuration(a, b) => "Config Error ("@ + a@ + "): "@ + b@,
            TracerError::ArgumentParsingError(a) => "Argument parsing Error: "@ + a@,
            TracerError::UnknownMaterial(a) => "Unknown Material "@ + a@ + "."@,
            TracerError::FailedToAcquireLock(a) => "Failed to acquire lock \""@ + a@ + "\""@,
            TracerError::ExitEvent => "Exit event"@,
            TracerError::CancelEvent => "Cancel event"@,
            TracerError::ImageSave(a) => "Image save error: "@ + a@,
            TracerError::SceneLoad(a) => "Scene failed to load: "@ + a@,
            TracerError::KeyError(a) => "Key callback failed: "@ + a@,
            TracerError::CreateLogError(a) => "Failed to create log: "@ + a@,
            TracerError::RecieveError(a) => "Failed to recieve data: "@ + a@,
            TracerError::SendError(a) => "Failed to recieve data: "@ + a@,
            TracerError::ActionProtocolError(a) => "Action protocol error! Unsupported action for: "@ + a@,
            TracerError::BusWriteError(a, b) => "Failed to write data to bus \""@ + a@ + "\": "@ + b@,
            TracerError::BusReadError(a, b) => "Failed to read data from bus \""@ + a@ + "\": "@ + b@,
            TracerError::BusUpdateError(a) => "Failed to update databus \""@ + a@ + "\""@,
            TracerError::BusTimeoutError() => "Bus timeout error."@,
            TracerError::NoObjectWithId(id) => "No object with id: "@ + decimal_text(id as nat) + "."@,
            TracerError::FailedToOpenImage(a, b) => "Failed to open image "@ + a@ + ": "@ + b@,
            TracerError::FailedToParse(a, b) => "Failed to parse \""@ + a@ + "\" into a vector: "@ + b@,
        }
    }

    /// Writes the text that describes this failure to the user.
    pub fn message(&self) -> (text: String)
        ensures
            text@ == self.message_spec(),
    {
        match self {
            TracerError::FailedToCreateWindow(a) => lead_one("Failed to create window: ", a.as_str()),
            TracerError::FailedToUpdateWindow(a) => lead_one("Failed to update window: ", a.as_str()),
            TracerError::Configuration(a, b) => lead_two("Config Error (", a.as_str(), "): ", b.as_str()),
            TracerError::ArgumentParsingError(a) => lead_one("Argument parsing Error: ", a.as_str()),
            TracerError::UnknownMaterial(a) => frame_one("Unknown Material ", a.as_str(), "."),
            TracerError::FailedToAcquireLock(a) => frame_one("Failed to acquire lock \"", a.as_str(), "\""),
            TracerError::ExitEvent => String::from_str("Exit event"),
            TracerError::CancelEvent => String::from_str("Cancel event"),
            TracerError::ImageSave(a) => lead_one("Image save error: ", a.as_str()),
            TracerError::SceneLoad(a) => lead_one("Scene failed to load: ", a.as_str()),
            TracerError::KeyError(a) => lead_one("Key callback failed: ", a.as_str()),
            TracerError::CreateLogError(a) => lead_one("Failed to create log: ", a.as_str()),
            TracerError::RecieveError(a) => lead_one("Failed to recieve data: ", a.as_str()),
            TracerError::SendError(a) => lead_one("Failed to recieve data: ", a.as_str()),
            TracerError::ActionProtocolError(a) => lead_one("Action protocol error! Unsupported action for: ", a.as_str()),
            TracerError::BusWriteError(a, b) => lead_two("Failed to write data to bus \"", a.as_str(), "\": ", b.as_str()),
            TracerError::BusReadError(a, b) => lead_two("Failed to read data from bus \"", a.as_str(), "\": ", b.as_str()),
            TracerError::BusUpdateError(a) => frame_one("Failed to update databus \"", a.as_str(), "\""),
            TracerError::BusTimeoutError() => String::from_str("Bus timeout error."),
            TracerError::NoObjectWithId(id) => {
                let number = decimal(*id);
                frame_one("No object with id: ", number.as_str(), ".")
            },
            TracerError::FailedToOpenImage(a, b) => lead_two("Failed to open image ", a.as_str(), ": ", b.as_str()),
            TracerError::FailedToParse(a, b) => lead_two("Failed to parse \"", a.as_str(), "\" into a vector: ", b.as_str()),
        }
    }

    /// Whether this outcome is an expected way for work to stop rather than
    /// a fault: a requested exit or a cancelled render.
    pub open spec fn is_expected_spec(self) -> bool {
        self is ExitEvent || self is CancelEvent
    }

    /// Tells the expected outcomes from the faults.
    pub fn is_expected(&self) -> (b: bool)
        ensures
            b == self.is_expected_spec(),
    {
        match self {
            TracerError::ExitEvent => true,
            TracerError::CancelEvent => true,
            _ => false,
        }
    }
}

/// The exit status of a run that ended with `error`, or without one: a run
/// that ended well, or that was asked to exit, leaves with zero; every
/// other failure leaves with its exit code.
pub open spec fn exit_status_spec(error: Option<TracerError>) -> i32 {
    match error {
        None => 0,
        Some(TracerError::ExitEvent) => 0,
        Some(e) => e.exit_code_spec(),
    }
}

/// The exit status of a run that ended as `result` says.
pub fn exit_status(result: &Result<(), TracerError>) -> (status: i32)
    ensures
        status == exit_status_spec(
            match *result {
                Ok(()) => None,
                Err(e) => Some(e),
            },
        ),
        status == 0 <==> (*result is Ok || (*result matches Err(e) && e is ExitEvent)),
{
    match result {
        Ok(()) => 0,
        Err(TracerError::ExitEvent) => 0,
        Err(e) => e.exit_code(),
    }
}

/// Whether two failures are of one kind.
pub open spec fn same_kind(a: TracerError, b: TracerError) -> bool {
    match a {
        TracerError::FailedToCreateWindow(_) => b is FailedToCreateWindow,
        TracerError::FailedToUpdateWindow(_) => b is FailedToUpdateWindow,
        TracerError::Configuration(_, _) => b is Configuration,
        TracerError::ArgumentParsingError(_) => b is ArgumentParsingError,
        TracerError::UnknownMaterial(_) => b is UnknownMaterial,
        TracerError::FailedToAcquireLock(_) => b is FailedToAcquireLock,
        TracerError::ExitEvent => b is ExitEvent,
        TracerError::CancelEvent => b is CancelEvent,
        TracerError::ImageSave(_) => b is ImageSave,
        TracerError::SceneLoad(_) => b is SceneLoad,
        TracerError::KeyError(_) => b is KeyError,
        TracerError::CreateLogError(_) => b is CreateLogError,
        TracerError::RecieveError(_) => b is RecieveError,
        TracerError::SendError(_) => b is SendError,
        TracerError::ActionProtocolError(_) => b is ActionProtocolError,
        TracerError::BusWriteError(_, _) => b is BusWriteError,
        TracerError::BusReadError(_, _) => b is BusReadError,
        TracerError::BusUpdateError(_) => b is BusUpdateError,
        TracerError::BusTimeoutError() => b is BusTimeoutError,
        TracerError::NoObjectWithId(_) => b is NoObjectWithId,
        TracerError::FailedToOpenImage(_, _) => b is FailedToOpenImage,
        TracerError::FailedToParse(_, _) => b is FailedToParse,
    }
}

/// Exit codes tell the kinds of failure apart: two failures have the same
/// code exactly when they are of one kind, whatever they carry. No code is
/// zero, which is left for a run that ended well.
pub proof fn lemma_exit_codes_tell_kinds_apart(a: TracerError, b: TracerError)
    ensures
        a.exit_code_spec() == b.exit_code_spec() <==> same_kind(a, b),
        a.exit_code_spec() != 0,
{
}

impl From<TracerError> for i32 {
    fn from(tracer_error: TracerError) -> (code: i32) {
        tracer_error.exit_code()
    }
}

impl vstd::std_specs::convert::FromSpecImpl<TracerError> for i32 {
    open spec fn obeys_from_spec() -> bool {
        true
    }

    open spec fn from_spec(tracer_error: TracerError) -> i32 {
        tracer_error.exit_code_spec()
    }
}

} // verus!
