use vstd::prelude::*;

verus! {

/// The failures that scanning, parsing and evaluating can end in.
#[derive(Clone, Copy, Debug, PartialEq, Eq, Structural)]
pub enum ErrorKind {
    UnexpectedCharacter,
    UnterminatedString,
    ExpectedToken,
    UnexpectedExpression,
    TypeError,
}

/// A failure, with the 1-based source line it comes from, where in that
/// line it is (empty, or such as ` at ')'` or ` at end`) and a message.
#[derive(Debug, PartialEq)]
pub struct LoxError {
    pub kind: ErrorKind,
    pub line: usize,
    pub location: String,
    pub message: String,
}

pub ghost struct ErrorView {
    pub kind: ErrorKind,
    pub line: nat,
    pub location: Seq<char>,
    pub message: Seq<char>,
}

impl View for LoxError {
    type V = ErrorView;

    open spec fn view(&self) -> ErrorView {
        ErrorView {
            kind: self.kind,
            line: self.line as nat,
            location: self.location@,
            message: self.message@,
        }
    }
}

impl LoxError {
    /// An error that names no place within its line.
    pub fn new(kind: ErrorKind, line: usize, message: &str) -> (r: LoxError)
        ensures
            r@ == (ErrorView { kind, line: line as nat, location: Seq::empty(), message: message@ }),
    {
        LoxError { kind, line, location: String::new(), message: String::from_str(message) }
    }

    /// An error at a given place within its line.
    pub fn at(kind: ErrorKind, line: usize, location: String, message: &str) -> (r: LoxError)
        ensures
            r@ == (ErrorView { kind, line: line as nat, location: location@, message: message@ }),
    {
        LoxError { kind, line, location, message: String::from_str(message) }
    }

    /// The diagnostic line for this error.
    pub fn report(&self) -> (r: String)
        ensures
            r@ == report_text(self.line as nat, self.location@, self.message@),
    {
        report(self.line, self.location.as_str(), self.message.as_str())
    }
}

pub open spec fn digit_char(d: nat) -> char
    recommends
        d < 10,
{
    if d == 0 {
        '0'
    } else if d == 1 {
        '1'
    } else if d == 2 {
        '2'
    } else if d == 3 {
        '3'
    } else if d == 4 {
        '4'
    } else if d == 5 {
        '5'
    } else if d == 6 {
        '6'
    } else if d == 7 {
        '7'
    } else if d == 8 {
        '8'
    } else {
        '9'
    }
}

/// The decimal digits of `n`, most significant first.
pub open spec fn decimal(n: nat) -> Seq<char>
    decreases n,
{
    if n < 10 {
        seq![digit_char(n)]
    } else {
        decimal(n / 10).push(digit_char(n % 10))
    }
}

/// `[line <n>] Error<location>: <message>`.
pub open spec fn report_text(line: nat, location: Seq<char>, message: Seq<char>) -> Seq<char> {
    "[line "@ + decimal(line) + "] Error"@ + location + ": "@ + message
}

fn digit_str(d: usize) -> (r: &'static str)
    requires
        d < 10,
    ensures
        r@ == seq![digit_char(d as nat)],
{
    proof {
        reveal_strlit("0");
        reveal_strlit("1");
        reveal_strlit("2");
        reveal_strlit("3");
        reveal_strlit("4");
        reveal_strlit("5");
        reveal_strlit("6");
        reveal_strlit("7");
        reveal_strlit("8");
        reveal_strlit("9");
    }
    match d {
        0 => "0",
        1 => "1",
        2 => "2",
        3 => "3",
        4 => "4",
        5 => "5",
        6 => "6",
        7 => "7",
        8 => "8",
        _ => "9",
    }
}

fn decimal_text(n: usize) -> (r: String)
    ensures
        r@ == decimal(n as nat),
    decreases n,
{
    if n < 10 {
        String::from_str(digit_str(n))
    } else {
        let mut s = decimal_text(n / 10);
        s.append(digit_str(n % 10));
        s
    }
}

/// Formats a diagnostic: the line, where in it the error is, and what it is.
pub fn report(line: usize, where_: &str, message: &str) -> (r: String)
    ensures
        r@ == report_text(line as nat, where_@, message@),
{
    let mut s = String::from_str("[line ");
    let n = decimal_text(line);
    s.append(n.as_str());
    s.append("] Error");
    s.append(where_);
    s.append(": ");
    s.append(message);
    s
}

/// Formats a diagnostic that names no place within the line.
pub fn error(line: usize, message: &str) -> (r: String)
    ensures
        r@ == report_text(line as nat, Seq::empty(), message@),
{
    proof {
        reveal_strlit("");
    }
    report(line, "", message)
}

} // verus!
