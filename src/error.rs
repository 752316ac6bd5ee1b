use vstd::prelude::*;
use vstd::string::StringExecFns;

verus! {

/// What went wrong.
#[derive(Debug, Clone, Copy, PartialEq, Eq, Structural)]
pub enum ErrorKind {
    /// The input holds no token at all.
    EmptyFile,
    /// A token (or the end of the input) that the grammar does not allow where it stands.
    UnexpectedToken,
    /// A "(", "{" or `if` that would nest deeper than the recognizer allows.
    TooDeep,
}

/// The first syntax error of an input: its kind, the text of the offending
/// token (empty at the end of the input) and the 1-based line of that token.
#[derive(Debug, Clone)]
pub struct SyntaxError {
    pub kind: ErrorKind,
    pub text: String,
    pub line: usize,
}

/// The decimal digit `d` as a character.
pub open spec fn digit_char(d: nat) -> char {
    if d == 0 {
        '0'
    } else if d == 1 {
        '1'
    } else if d == 2 {
        '2'
    } else if d == 3 {
        '3'
    } else if d == 4 {
        '4'
    } else if d == 5 {
        '5'
    } else if d == 6 {
        '6'
    } else if d == 7 {
        '7'
    } else if d == 8 {
        '8'
    } else {
        '9'
    }
}

/// `n` written in decimal, without leading zeros.
pub open spec fn decimal(n: nat) -> Seq<char>
    decreases n,
{
    if n < 10 {
        seq![digit_char(n)]
    } else {
        decimal(n / 10) + seq![digit_char(n % 10)]
    }
}

/// What an error of kind `k` is called in a message.
pub open spec fn description(k: ErrorKind) -> Seq<char> {
    match k {
        ErrorKind::EmptyFile => "Empty file"@,
        ErrorKind::UnexpectedToken => "Unexpected token"@,
        ErrorKind::TooDeep => "Nesting too deep"@,
    }
}

fn digit_str(d: usize) -> (r: &'static str)
    requires
        d < 10,
    ensures
        r@ == seq![digit_char(d as nat)],
{
    proof {
        reveal_strlit("0");
        reveal_strlit("1");
        reveal_strlit("2");
        reveal_strlit("3");
        reveal_strlit("4");
        reveal_strlit("5");
        reveal_strlit("6");
        reveal_strlit("7");
        reveal_strlit("8");
        reveal_strlit("9");
    }
    if d == 0 {
        "0"
    } else if d == 1 {
        "1"
    } else if d == 2 {
        "2"
    } else if d == 3 {
        "3"
    } else if d == 4 {
        "4"
    } else if d == 5 {
        "5"
    } else if d == 6 {
        "6"
    } else if d == 7 {
        "7"
    } else if d == 8 {
        "8"
    } else {
        "9"
    }
}

/// `n` in decimal.
pub fn decimal_string(n: usize) -> (r: String)
    ensures
        r@ == decimal(n as nat),
    decreases n,
{
    let mut s = if n >= 10 {
        decimal_string(n / 10)
    } else {
        String::new()
    };
    s.append(digit_str(n % 10));
    proof {
        if n < 10 {
            assert(s@ =~= decimal(n as nat));
        }
    }
    s
}

impl SyntaxError {
    /// The error as text: `<description> found: "<text>" at line <line>`.
    pub fn message(&self) -> (r: String)
        ensures
            r@ == description(self.kind) + " found: \""@ + self.text@ + "\" at line "@ + decimal(
                self.line as nat,
            ),
    {
        proof {
            reveal_strlit("Empty file");
            reveal_strlit("Unexpected token");
            reveal_strlit("Nesting too deep");
            reveal_strlit(" found: \"");
            reveal_strlit("\" at line ");
        }
        let mut m = match self.kind {
            ErrorKind::EmptyFile => String::from_str("Empty file"),
            ErrorKind::UnexpectedToken => String::from_str("Unexpected token"),
            ErrorKind::TooDeep => String::from_str("Nesting too deep"),
        };
        m.append(" found: \"");
        m.append(self.text.as_str());
        m.append("\" at line ");
        let n = decimal_string(self.line);
        m.append(n.as_str());
        m
    }
}

/// The outcome of a parse.
pub type ParseResult = Result<(), SyntaxError>;

} // verus!
