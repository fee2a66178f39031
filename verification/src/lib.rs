mod hashing;
pub mod net;
mod random;
pub mod server;

use vstd::prelude::*;

verus! {

/// A player's hand of numbers.
pub struct Nums {
    pub nums: Vec<u8>,
}

impl Nums {
    /// Wraps the given numbers.
    pub fn new(nums: Vec<u8>) -> (r: Self)
        ensures
            r.nums@ == nums@,
    {
        Nums { nums }
    }
}

/// What went wrong.
#[derive(Debug, Clone, Copy, PartialEq, Eq, Structural)]
pub enum ErrorKind {
    CorrData,
    WrongNum,
    Disconnected(usize),
    OutOfBounds,
}

/// An error of the game: a message and its kind.
#[derive(Debug)]
pub struct Error {
    msg: String,
    error_kind: ErrorKind,
}

/// The character of a decimal digit.
pub open spec fn digit_char(d: nat) -> char {
    (48 + d) as char
}

/// The decimal notation of `n`, most significant digit first.
pub open spec fn decimal(n: nat) -> Seq<char>
    decreases n,
{
    if n < 10 {
        seq![digit_char(n)]
    } else {
        decimal(n / 10) + seq![digit_char(n % 10)]
    }
}

/// How an error kind is written in an error's text.
pub open spec fn kind_text(kind: ErrorKind) -> Seq<char> {
    match kind {
        ErrorKind::CorrData => seq!['C', 'o', 'r', 'r', 'D', 'a', 't', 'a'],
        ErrorKind::WrongNum => seq!['W', 'r', 'o', 'n', 'g', 'N', 'u', 'm'],
        ErrorKind::Disconnected(n) => seq![
            'D',
            'i',
            's',
            'c',
            'o',
            'n',
            'n',
            'e',
            'c',
            't',
            'e',
            'd',
            '(',
        ] + decimal(n as nat) + seq![')'],
        ErrorKind::OutOfBounds => seq!['O', 'u', 't', 'O', 'f', 'B', 'o', 'u', 'n', 'd', 's'],
    }
}

/// The text of an error: its message, " on ", and its kind.
pub open spec fn error_text(msg: Seq<char>, kind: ErrorKind) -> Seq<char> {
    msg + seq![' ', 'o', 'n', ' '] + kind_text(kind)
}

/// Appends the decimal digit `d` to `out`.
fn push_digit(out: &mut String, d: usize)
    requires
        d < 10,
    ensures
        final(out)@ == old(out)@ + seq![digit_char(d as nat)],
{
    let s: &str = match d {
        0 => "0",
        1 => "1",
        2 => "2",
        3 => "3",
        4 => "4",
        5 => "5",
        6 => "6",
        7 => "7",
        8 => "8",
        _ => "9",
    };
    proof {
        reveal_strlit("0");
        reveal_strlit("1");
        reveal_strlit("2");
        reveal_strlit("3");
        reveal_strlit("4");
        reveal_strlit("5");
        reveal_strlit("6");
        reveal_strlit("7");
        reveal_strlit("8");
        reveal_strlit("9");
    }
    assert(s@ =~= seq![digit_char(d as nat)]);
    out.append(s);
}

/// Appends the decimal notation of `n` to `out`.
fn push_decimal(out: &mut String, n: usize)
    ensures
        final(out)@ == old(out)@ + decimal(n as nat),
    decreases n,
{
    if n >= 10 {
        push_decimal(out, n / 10);
        push_digit(out, n % 10);
        assert(final(out)@ =~= old(out)@ + decimal(n as nat));
    } else {
        push_digit(out, n);
    }
}

impl ErrorKind {
    /// The name of the kind, with the number of a `Disconnected` in brackets.
    pub fn text(&self) -> (r: String)
        ensures
            r@ == kind_text(*self),
    {
        match self {
            ErrorKind::CorrData => {
                proof {
                    reveal_strlit("CorrData");
                }
                String::from_str("CorrData")
            },
            ErrorKind::WrongNum => {
                proof {
                    reveal_strlit("WrongNum");
                }
                String::from_str("WrongNum")
            },
            ErrorKind::Disconnected(n) => {
                proof {
                    reveal_strlit("Disconnected(");
                    reveal_strlit(")");
                }
                let mut r = String::from_str("Disconnected(");
                push_decimal(&mut r, *n);
                r.append(")");
                r
            },
            ErrorKind::OutOfBounds => {
                proof {
                    reveal_strlit("OutOfBounds");
                }
                String::from_str("OutOfBounds")
            },
        }
    }
}

impl Error {
    /// The message of this error.
    pub closed spec fn msg_view(&self) -> Seq<char> {
        self.msg@
    }

    /// The kind of this error.
    pub closed spec fn kind_view(&self) -> ErrorKind {
        self.error_kind
    }

    /// An error with the given message and kind.
    pub fn new(msg: String, error_kind: ErrorKind) -> (r: Self)
        ensures
            r.msg_view() == msg@,
            r.kind_view() == error_kind,
    {
        Self { msg, error_kind }
    }

    /// The message of this error.
    pub fn description(&self) -> (r: &str)
        ensures
            r@ == self.msg_view(),
    {
        self.msg.as_str()
    }

    /// The kind of this error.
    pub fn kind(&self) -> (r: &ErrorKind)
        ensures
            *r == self.kind_view(),
    {
        &self.error_kind
    }

    /// The text of this error: its message, " on ", and its kind.
    pub fn to_string(&self) -> (r: String)
        ensures
            r@ == error_text(self.msg_view(), self.kind_view()),
    {
        proof {
            reveal_strlit(" on ");
        }
        let mut r = self.msg.clone();
        r.append(" on ");
        let k = self.error_kind.text();
        r.append(k.as_str());
        assert(r@ =~= error_text(self.msg_view(), self.kind_view()));
        r
    }
}

} // verus!
