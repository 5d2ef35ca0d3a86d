//! Plain descriptions of child processes: what is to be started, and what
//! came of it. The library decides; the caller starts the process and reports
//! back.

use crate::text::texts;
use vstd::prelude::*;
use vstd::string::*;

verus! {

/// A program to start with its arguments.
#[derive(Debug, Clone, PartialEq, Eq)]
pub struct ToolCall {
    pub program: String,
    pub args: Vec<String>,
}

/// The mathematical value of a [`ToolCall`].
pub struct ToolCallView {
    pub program: Seq<char>,
    pub args: Seq<Seq<char>>,
}

impl View for ToolCall {
    type V = ToolCallView;

    open spec fn view(&self) -> ToolCallView {
        ToolCallView { program: self.program@, args: texts(self.args@) }
    }
}

/// What came of starting a child process.
#[derive(Debug, Clone, PartialEq, Eq)]
pub enum ProcessOutcome {
    /// The process could not be started; the text says why.
    SpawnFailed(String),
    /// The process ran and ended. `code` is `None` when a signal ended it.
    Exited { code: Option<i32>, stdout: String, stderr: String },
}

impl ProcessOutcome {
    /// Whether the process ran and exited with code 0.
    pub open spec fn succeeded(self) -> bool {
        self matches ProcessOutcome::Exited { code, .. } && code == Some(0i32)
    }

    /// Whether the process ran and exited with code 0.
    pub fn is_success(&self) -> (r: bool)
        ensures
            r == self.succeeded(),
    {
        match self {
            ProcessOutcome::Exited { code: Some(c), .. } => *c == 0,
            _ => false,
        }
    }
}

/// The decimal digit for `d`.
pub open spec fn digit_char(d: int) -> char {
    if d == 0 {
        '0'
    } else if d == 1 {
        '1'
    } else if d == 2 {
        '2'
    } else if d == 3 {
        '3'
    } else if d == 4 {
        '4'
    } else if d == 5 {
        '5'
    } else if d == 6 {
        '6'
    } else if d == 7 {
        '7'
    } else if d == 8 {
        '8'
    } else {
        '9'
    }
}

/// The decimal digits of `n`, most significant first, without leading zeros.
pub open spec fn digits(n: nat) -> Seq<char>
    decreases n,
{
    if n < 10 {
        seq![digit_char(n as int)]
    } else {
        digits(n / 10).push(digit_char((n % 10) as int))
    }
}

/// `n` in decimal, with a leading `-` when it is negative.
pub open spec fn decimal(n: int) -> Seq<char> {
    if n < 0 {
        seq!['-'] + digits((-n) as nat)
    } else {
        digits(n as nat)
    }
}

fn digit_text(d: u32) -> (r: &'static str)
    requires
        d < 10,
    ensures
        r@ == seq![digit_char(d as int)],
{
    proof {
        reveal_strlit("0");
        reveal_strlit("1");
        reveal_strlit("2");
        reveal_strlit("3");
        reveal_strlit("4");
        reveal_strlit("5");
        reveal_strlit("6");
        reveal_strlit("7");
        reveal_strlit("8");
        reveal_strlit("9");
    }
    let r = if d == 0 {
        "0"
    } else if d == 1 {
        "1"
    } else if d == 2 {
        "2"
    } else if d == 3 {
        "3"
    } else if d == 4 {
        "4"
    } else if d == 5 {
        "5"
    } else if d == 6 {
        "6"
    } else if d == 7 {
        "7"
    } else if d == 8 {
        "8"
    } else {
        "9"
    };
    assert(r@ =~= seq![digit_char(d as int)]);
    r
}

fn digits_text(n: u32) -> (r: String)
    ensures
        r@ == digits(n as nat),
    decreases n,
{
    if n < 10 {
        String::from_str(digit_text(n))
    } else {
        let mut out = digits_text(n / 10);
        out.append(digit_text(n % 10));
        assert(out@ =~= digits(n as nat));
        out
    }
}

/// `n` written in decimal.
pub fn decimal_text(n: i32) -> (r: String)
    ensures
        r@ == decimal(n as int),
{
    if n < 0 {
        let magnitude: u32 = (-(n as i64)) as u32;
        proof {
            reveal_strlit("-");
            assert("-"@ =~= seq!['-']);
        }
        let mut out = String::from_str("-");
        let tail = digits_text(magnitude);
        out.append(tail.as_str());
        out
    } else {
        digits_text(n as u32)
    }
}

} // verus!
