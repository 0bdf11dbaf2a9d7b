//! `builtins` contains built-in function definitions.
use crate::interpreter::{
    display_of, type_tag_of, Builtin, Environment, Fault, InterpreterError, Val, Value,
};
use std::rc::Rc;
use vstd::prelude::*;

verus! {

/// The arguments of a built-in function.
pub type Arguments = Vec<Rc<Value>>;

/// What a built-in function returns.
pub type Return = Result<Rc<Value>, InterpreterError>;

/// The mathematical values of the arguments.
pub open spec fn vals_of(args: Seq<Rc<Value>>) -> Seq<Val> {
    args.map_values(|a: Rc<Value>| (*a)@)
}

/// The mathematical value of what a built-in function returns.
pub open spec fn return_view(r: Return) -> Result<Val, Fault> {
    match r {
        Ok(v) => Ok((*v)@),
        Err(e) => Err(e@),
    }
}

/// The name under which a built-in function is bound.
pub open spec fn builtin_name(b: Builtin) -> Seq<char> {
    match b {
        Builtin::Add => "+"@,
        Builtin::Sub => "-"@,
        Builtin::Mul => "*"@,
        Builtin::Equals => "="@,
        Builtin::GreaterThan => ">"@,
        Builtin::LessThan => "<"@,
        Builtin::Print => "print"@,
    }
}

/// The environment holding exactly the built-in functions, each under its name.
pub open spec fn builtins_added(env: Map<Seq<char>, Val>) -> Map<Seq<char>, Val> {
    env.insert("+"@, Val::Builtin(Builtin::Add)).insert("-"@, Val::Builtin(Builtin::Sub)).insert(
        "*"@,
        Val::Builtin(Builtin::Mul),
    ).insert("="@, Val::Builtin(Builtin::Equals)).insert(
        ">"@,
        Val::Builtin(Builtin::GreaterThan),
    ).insert("<"@, Val::Builtin(Builtin::LessThan)).insert("print"@, Val::Builtin(Builtin::Print))
}

/// `1` for true, `0` for false.
pub open spec fn truth(b: bool) -> Val {
    Val::Integer(if b {
        1
    } else {
        0
    })
}

/// The result of an arithmetic built-in: two integers combine by wrapping 64-bit arithmetic; any
/// other argument count is an error naming the built-in, and a non-integer argument is a type
/// error naming the built-in, `int`, and the type tag of the first such argument.
pub open spec fn arithmetic(b: Builtin, args: Seq<Val>) -> Result<Val, Fault> {
    let name = builtin_name(b);
    if args.len() != 2 {
        Err(Fault::BuiltinArgumentError(name, args.len(), "2"@))
    } else {
        match (args[0], args[1]) {
            (Val::Integer(l), Val::Integer(r)) => Ok(
                Val::Integer(
                    match b {
                        Builtin::Add => l.wrapping_add(r),
                        Builtin::Sub => l.wrapping_sub(r),
                        _ => l.wrapping_mul(r),
                    },
                ),
            ),
            (Val::Integer(_), invalid) => Err(
                Fault::BuiltinTypeError(name, "int"@, type_tag_of(invalid)),
            ),
            (invalid, _) => Err(Fault::BuiltinTypeError(name, "int"@, type_tag_of(invalid))),
        }
    }
}

/// The result of a comparison built-in: `1` if both arguments are integers in that relation,
/// else `0`; any argument count but two is an error naming the built-in.
pub open spec fn comparison(b: Builtin, args: Seq<Val>) -> Result<Val, Fault> {
    if args.len() != 2 {
        Err(Fault::BuiltinArgumentError(builtin_name(b), args.len(), "2"@))
    } else {
        Ok(
            truth(
                match (args[0], args[1]) {
                    (Val::Integer(l), Val::Integer(r)) => match b {
                        Builtin::Equals => l == r,
                        Builtin::GreaterThan => l > r,
                        _ => l < r,
                    },
                    _ => false,
                },
            ),
        )
    }
}

/// The line that `print` writes: the arguments displayed in order, separated by single spaces,
/// then a newline.
pub open spec fn print_line(args: Seq<Val>) -> Seq<char> {
    joined(args, args.len() as int).push('\n')
}

/// The first `n` arguments displayed and separated by single spaces.
pub open spec fn joined(args: Seq<Val>, n: int) -> Seq<char>
    decreases n,
{
    if n <= 0 {
        Seq::empty()
    } else if n == 1 {
        display_of(args[0])
    } else {
        joined(args, n - 1).push(' ') + display_of(args[n - 1])
    }
}

/// Calling built-in `b` on `args` with output `out` so far: the result and the output after.
pub open spec fn apply_builtin(b: Builtin, args: Seq<Val>, out: Seq<char>) -> (
    Result<Val, Fault>,
    Seq<char>,
) {
    match b {
        Builtin::Add | Builtin::Sub | Builtin::Mul => (arithmetic(b, args), out),
        Builtin::Print => (Ok(Val::Integer(0)), out + print_line(args)),
        _ => (comparison(b, args), out),
    }
}

/// Add the built-in functions (defined in this module – `builtin`) to an `Environment`.
pub fn add_builtins_to_environment(env: &mut Environment)
    requires
        old(env).wf(),
    ensures
        final(env).wf(),
        final(env)@ == builtins_added(old(env)@),
{
    env.set("+".to_string(), Rc::new(Value::Builtin(Builtin::Add)));
    env.set("-".to_string(), Rc::new(Value::Builtin(Builtin::Sub)));
    env.set("*".to_string(), Rc::new(Value::Builtin(Builtin::Mul)));
    env.set("=".to_string(), Rc::new(Value::Builtin(Builtin::Equals)));
    env.set(">".to_string(), Rc::new(Value::Builtin(Builtin::GreaterThan)));
    env.set("<".to_string(), Rc::new(Value::Builtin(Builtin::LessThan)));
    env.set("print".to_string(), Rc::new(Value::Builtin(Builtin::Print)));
}

/// The two integer arguments of an arithmetic built-in named `name`, or the error that
/// `arithmetic` gives.
fn integer_pair(b: Builtin, name: &'static str, args: &Arguments) -> (r: Result<
    (i64, i64),
    InterpreterError,
>)
    requires
        name@ == builtin_name(b),
        b == Builtin::Add || b == Builtin::Sub || b == Builtin::Mul,
    ensures
        match r {
            Ok((l, r)) => vals_of(args@).len() == 2 && vals_of(args@)[0] == Val::Integer(l)
                && vals_of(args@)[1] == Val::Integer(r),
            Err(e) => arithmetic(b, vals_of(args@)) == Err::<Val, Fault>(e@),
        },
{
    if args.len() != 2 {
        return Err(InterpreterError::BuiltinArgumentError { name, got: args.len(), takes: "2" });
    }
    match (&*args[0], &*args[1]) {
        (Value::Integer(l), Value::Integer(r)) => Ok((*l, *r)),
        (Value::Integer(_), invalid) => Err(
            InterpreterError::BuiltinTypeError { name, expected: "int", found: invalid.type_tag() },
        ),
        (invalid, _) => Err(
            InterpreterError::BuiltinTypeError { name, expected: "int", found: invalid.type_tag() },
        ),
    }
}

/// Name: "+".
pub fn builtin_add(args: Arguments) -> (r: Return)
    ensures
        return_view(r) == arithmetic(Builtin::Add, vals_of(args@)),
{
    let (l, r) = match integer_pair(Builtin::Add, "+", &args) {
        Ok(pair) => pair,
        Err(e) => return Err(e),
    };
    Ok(Rc::new(Value::Integer(l.wrapping_add(r))))
}

/// Name: "-".
pub fn builtin_sub(args: Arguments) -> (r: Return)
    ensures
        return_view(r) == arithmetic(Builtin::Sub, vals_of(args@)),
{
    let (l, r) = match integer_pair(Builtin::Sub, "-", &args) {
        Ok(pair) => pair,
        Err(e) => return Err(e),
    };
    Ok(Rc::new(Value::Integer(l.wrapping_sub(r))))
}

/// Name: "*".
pub fn builtin_mul(args: Arguments) -> (r: Return)
    ensures
        return_view(r) == arithmetic(Builtin::Mul, vals_of(args@)),
{
    let (l, r) = match integer_pair(Builtin::Mul, "*", &args) {
        Ok(pair) => pair,
        Err(e) => return Err(e),
    };
    Ok(Rc::new(Value::Integer(l.wrapping_mul(r))))
}

/// `Value::Integer(1)` for true, `Value::Integer(0)` for false.
fn truth_value(b: bool) -> (r: Rc<Value>)
    ensures
        (*r)@ == truth(b),
{
    Rc::new(Value::Integer(if b { 1 } else { 0 }))
}

/// Name: "=".
pub fn builtin_equals(args: Arguments) -> (r: Return)
    ensures
        return_view(r) == comparison(Builtin::Equals, vals_of(args@)),
{
    if args.len() != 2 {
        return Err(InterpreterError::BuiltinArgumentError { name: "=", got: args.len(), takes: "2" });
    }
    let equal = match (&*args[0], &*args[1]) {
        (Value::Integer(l), Value::Integer(r)) => *l == *r,
        _ => false,
    };
    Ok(truth_value(equal))
}

/// Name: ">".
pub fn builtin_is_greater_than(args: Arguments) -> (r: Return)
    ensures
        return_view(r) == comparison(Builtin::GreaterThan, vals_of(args@)),
{
    if args.len() != 2 {
        return Err(InterpreterError::BuiltinArgumentError { name: ">", got: args.len(), takes: "2" });
    }
    let is_greater = match (&*args[0], &*args[1]) {
        (Value::Integer(l), Value::Integer(r)) => *l > *r,
        _ => false,
    };
    Ok(truth_value(is_greater))
}

/// Name: "<".
pub fn builtin_is_less_than(args: Arguments) -> (r: Return)
    ensures
        return_view(r) == comparison(Builtin::LessThan, vals_of(args@)),
{
    if args.len() != 2 {
        return Err(InterpreterError::BuiltinArgumentError { name: "<", got: args.len(), takes: "2" });
    }
    let is_less = match (&*args[0], &*args[1]) {
        (Value::Integer(l), Value::Integer(r)) => *l < *r,
        _ => false,
    };
    Ok(truth_value(is_less))
}

/// Name: "print". Appends the line it prints to `out`.
pub fn builtin_print(args: Arguments, out: &mut String) -> (r: Return)
    ensures
        return_view(r) == Ok::<Val, Fault>(Val::Integer(0)),
        final(out)@ == old(out)@ + print_line(vals_of(args@)),
{
    let ghost start = out@;
    let mut i: usize = 0;
    while i < args.len()
        invariant
            0 <= i <= args@.len(),
            out@ == start + joined(vals_of(args@), i as int),
        decreases args.len() - i,
    {
        if i != 0 {
            out.append(" ");
        }
        let ghost before = out@;
        args[i].write_to(out);
        proof {
            reveal_strlit(" ");
            if i == 0 {
                assert(out@ =~= start + joined(vals_of(args@), 1));
            } else {
                assert(out@ =~= start + joined(vals_of(args@), i as int + 1));
            }
        }
        i = i + 1;
    }
    out.append("\n");
    proof {
        reveal_strlit("\n");
        assert(out@ =~= start + print_line(vals_of(args@)));
    }
    Ok(Rc::new(Value::Integer(0)))
}

/// Call built-in `b` on `args`, appending what it prints to `out`.
pub fn call_builtin(b: Builtin, args: Arguments, out: &mut String) -> (r: Return)
    ensures
        (return_view(r), final(out)@) == apply_builtin(b, vals_of(args@), old(out)@),
{
    match b {
        Builtin::Add => builtin_add(args),
        Builtin::Sub => builtin_sub(args),
        Builtin::Mul => builtin_mul(args),
        Builtin::Equals => builtin_equals(args),
        Builtin::GreaterThan => builtin_is_greater_than(args),
        Builtin::LessThan => builtin_is_less_than(args),
        Builtin::Print => builtin_print(args, out),
    }
}

} // verus!
