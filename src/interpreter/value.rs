use crate::ast::{names_of, Tree, AST};
use crate::{push_char, Identifier};
use vstd::prelude::*;

verus! {

/// The built-in functions.
#[derive(Clone, Copy, Debug, PartialEq, Eq, Structural)]
pub enum Builtin {
    /// `+`
    Add,
    /// `-`
    Sub,
    /// `*`
    Mul,
    /// `=`
    Equals,
    /// `>`
    GreaterThan,
    /// `<`
    LessThan,
    /// `print`
    Print,
}

/// The representation of a value.
#[derive(Debug)]
pub enum Value {
    /// An integer.
    Integer(i64),
    /// A function.
    Function { arguments: Vec<Identifier>, value: AST },
    /// A built-in function.
    Builtin(Builtin),
}

/// The mathematical value of a `Value`.
pub enum Val {
    Integer(i64),
    Function { parameters: Seq<Seq<char>>, body: Tree },
    Builtin(Builtin),
}

impl View for Value {
    type V = Val;

    open spec fn view(&self) -> Val {
        match self {
            Value::Integer(v) => Val::Integer(*v),
            Value::Function { arguments, value } => Val::Function {
                parameters: names_of(arguments@),
                body: value@,
            },
            Value::Builtin(b) => Val::Builtin(*b),
        }
    }
}

/// The type tag of a value.
pub open spec fn type_tag_of(v: Val) -> Seq<char> {
    match v {
        Val::Integer(_) => "int"@,
        _ => "function"@,
    }
}

/// The decimal digits of `n`.
pub open spec fn digits(n: nat) -> Seq<char>
    decreases n,
{
    if n < 10 {
        seq![digit_char(n)]
    } else {
        digits(n / 10).push(digit_char(n % 10))
    }
}

/// The character of the decimal digit `d`.
pub open spec fn digit_char(d: nat) -> char {
    if d == 0 {
        '0'
    } else if d == 1 {
        '1'
    } else if d == 2 {
        '2'
    } else if d == 3 {
        '3'
    } else if d == 4 {
        '4'
    } else if d == 5 {
        '5'
    } else if d == 6 {
        '6'
    } else if d == 7 {
        '7'
    } else if d == 8 {
        '8'
    } else {
        '9'
    }
}

/// `v` written in decimal, with a `-` in front if it is negative.
pub open spec fn decimal(v: int) -> Seq<char> {
    if v < 0 {
        seq!['-'] + digits((-v) as nat)
    } else {
        digits(v as nat)
    }
}

/// What a value is displayed as: integers in decimal, functions as an opaque marker.
pub open spec fn display_of(v: Val) -> Seq<char> {
    match v {
        Val::Integer(i) => decimal(i as int),
        _ => "<function>"@,
    }
}

/// The character of the decimal digit `d`.
fn digit(d: u64) -> (c: char)
    requires
        d < 10,
    ensures
        c == digit_char(d as nat),
{
    match d {
        0 => '0',
        1 => '1',
        2 => '2',
        3 => '3',
        4 => '4',
        5 => '5',
        6 => '6',
        7 => '7',
        8 => '8',
        _ => '9',
    }
}

/// Append the decimal digits of `n` to `s`.
pub(crate) fn push_digits(s: &mut String, n: u64)
    ensures
        final(s)@ == old(s)@ + digits(n as nat),
    decreases n,
{
    if n >= 10 {
        push_digits(s, n / 10);
    }
    let c = digit(n % 10);
    push_char(s, c);
    proof {
        assert(digit_char((n % 10) as nat) == c);
        if n >= 10 {
            assert(old(s)@ + digits(n as nat) =~= old(s)@ + digits((n / 10) as nat) + seq![c]);
        } else {
            assert(old(s)@ + digits(n as nat) =~= old(s)@ + seq![c]);
        }
    }
}

/// Append `v` in decimal to `out`.
pub(crate) fn push_decimal(out: &mut String, v: i64)
    ensures
        final(out)@ == old(out)@ + decimal(v as int),
{
    if v < 0 {
        push_char(out, '-');
        let magnitude = (0 - (v as i128)) as u64;
        push_digits(out, magnitude);
        assert(old(out)@ + decimal(v as int) =~= old(out)@.push('-') + digits(magnitude as nat));
    } else {
        push_digits(out, v as u64);
    }
}

impl Value {
    /// Return the type tag of a value: `int` or `function`.
    pub fn type_tag(&self) -> (r: &'static str)
        ensures
            r@ == type_tag_of(self@),
    {
        match self {
            Value::Integer(_) => "int",
            Value::Function { .. } => "function",
            Value::Builtin(_) => "function",
        }
    }

    /// Append what the value is displayed as to `out`.
    pub fn write_to(&self, out: &mut String)
        ensures
            final(out)@ == old(out)@ + display_of(self@),
    {
        match self {
            Value::Integer(v) => push_decimal(out, *v),
            _ => {
                out.append("<function>");
            },
        }
    }

    /// The text that the value is displayed as.
    pub fn to_string(&self) -> (r: String)
        ensures
            r@ == display_of(self@),
    {
        let mut out = String::new();
        self.write_to(&mut out);
        assert(out@ =~= display_of(self@));
        out
    }
}

} // verus!
