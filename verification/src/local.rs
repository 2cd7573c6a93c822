//! Error-site annotation: a source location appended to error messages.

use vstd::prelude::*;

verus! {

/// A source position: file, line and column.
#[derive(Clone, Copy, Debug)]
pub struct Location {
    pub file: &'static str,
    pub line: u32,
    pub column: u32,
}

/// The decimal digit character of `d`.
pub open spec fn digit_char(d: int) -> char {
    if d == 0 {
        '0'
    } else if d == 1 {
        '1'
    } else if d == 2 {
        '2'
    } else if d == 3 {
        '3'
    } else if d == 4 {
        '4'
    } else if d == 5 {
        '5'
    } else if d == 6 {
        '6'
    } else if d == 7 {
        '7'
    } else if d == 8 {
        '8'
    } else {
        '9'
    }
}

/// The decimal rendering of `n`, most significant digit first.
pub open spec fn dec_str(n: int) -> Seq<char>
    decreases n,
{
    if n < 10 {
        seq![digit_char(if n < 0 {
            0
        } else {
            n
        })]
    } else {
        dec_str(n / 10).push(digit_char(n % 10))
    }
}

/// One decimal digit as a string.
fn digit_str(d: u32) -> (r: String)
    requires
        d < 10,
    ensures
        r@ == seq![digit_char(d as int)],
{
    proof {
        reveal_strlit("0123456789");
    }
    let s = "0123456789";
    let r = s.substring_char(d as usize, d as usize + 1).to_owned();
    proof {
        assert(r@ =~= seq![digit_char(d as int)]);
    }
    r
}

/// The decimal rendering of `n`; see [`dec_str`].
pub fn fmt_u32(n: u32) -> (r: String)
    ensures
        r@ == dec_str(n as int),
    decreases n,
{
    if n < 10 {
        digit_str(n)
    } else {
        let head = fmt_u32(n / 10);
        let tail = digit_str(n % 10);
        let r = head.concat(tail.as_str());
        proof {
            assert(r@ =~= dec_str((n / 10) as int).push(digit_char((n % 10) as int)));
        }
        r
    }
}

/// Carries an error through with the location appended to its message.
pub trait ErrorLocation<T> {
    fn location(self, loc: &Location) -> Result<T, String>;
}

impl<T> ErrorLocation<T> for Result<T, String> {
    /// The same result; an error's message gains ` at {file} line {line}
    /// column {column}`.
    fn location(self, loc: &Location) -> (r: Result<T, String>)
        ensures
            self is Ok <==> r is Ok,
            r matches Err(m) ==> self matches Err(e) && m@ == e@ + " at "@ + loc.file@ + " line "@
                + dec_str(loc.line as int) + " column "@ + dec_str(loc.column as int),
    {
        match self {
            Ok(v) => Ok(v),
            Err(e) => {
                let line = fmt_u32(loc.line);
                let column = fmt_u32(loc.column);
                Err(
                    e.concat(" at ").concat(loc.file).concat(" line ").concat(
                        line.as_str(),
                    ).concat(" column ").concat(column.as_str()),
                )
            },
        }
    }
}

} // verus!
