//! `interpreter` contains the `Interpreter`, which executes expressions.
pub mod builtins;
mod environment;
mod error;
mod value;

pub use self::environment::{keys_unique, map_of, Environment};
pub use self::error::{fault_message, Fault, InterpreterError};
pub(crate) use self::value::{push_decimal, push_digits};
pub use self::value::{decimal, digit_char, digits, display_of, type_tag_of, Builtin, Val, Value};

use self::builtins::{add_builtins_to_environment, apply_builtin, builtins_added, call_builtin, vals_of};
use crate::ast::{copy_names, lemma_trees_of, names_of, tree_of, trees_of, ASTType, Tree, TreeKind, AST};
use crate::{Identifier, Position};
use std::rc::Rc;
use vstd::prelude::*;

verus! {

/// The state that evaluation reads and changes: the bindings, and the text printed so far.
pub struct World {
    pub env: Map<Seq<char>, Val>,
    pub out: Seq<char>,
}

/// The mathematical value of what `Interpreter::eval` returns.
pub open spec fn result_view(r: Result<Rc<Value>, InterpreterError>) -> Result<Val, Fault> {
    match r {
        Ok(v) => Ok((*v)@),
        Err(e) => Err(e@),
    }
}

/// The depth of nested evaluations that `Interpreter::eval` allows. It bounds the evaluation so
/// that it is a terminating function of its input; the native stack runs out long before a
/// program could nest this deep, so in practice deep recursion ends as it would without it.
pub const MAX_DEPTH: u64 = 18446744073709551615;

/// `env` with each of `names[..n]` bound as in `saved`, or unbound where `saved` binds it not.
pub open spec fn restore(
    env: Map<Seq<char>, Val>,
    names: Seq<Seq<char>>,
    saved: Map<Seq<char>, Val>,
    n: int,
) -> Map<Seq<char>, Val>
    decreases n,
{
    if n <= 0 {
        env
    } else {
        let e = restore(env, names, saved, n - 1);
        let k = names[n - 1];
        if saved.contains_key(k) {
            e.insert(k, saved[k])
        } else {
            e.remove(k)
        }
    }
}

/// How deeply `if` expressions nest through their branches in `t`. A branch is evaluated with
/// the depth budget of its `if`, so this bounds that part of the evaluation.
pub open spec fn branch_depth(t: Tree) -> nat
    decreases t,
{
    match t.kind {
        TreeKind::If { consequence, alternative, .. } => {
            let a = branch_depth(*consequence);
            let b = branch_depth(*alternative);
            1 + if a > b {
                a
            } else {
                b
            }
        },
        _ => 0,
    }
}

/// Evaluate `t` in world `w`, with `depth` nested evaluations left: the result and the world
/// after.
pub open spec fn eval(w: World, t: Tree, depth: nat) -> (Result<Val, Fault>, World)
    decreases depth, 0int, branch_depth(t),
{
    if depth == 0 {
        (Err(Fault::RecursionLimit(t.position)), w)
    } else {
        let d = (depth - 1) as nat;
        match t.kind {
            TreeKind::Integer(v) => (Ok(Val::Integer(v)), w),
            TreeKind::Define { name, parameters, value } => match parameters {
                None => {
                    let (r, w1) = eval(w, *value, d);
                    match r {
                        Ok(v) => (Ok(Val::Integer(0)), World { env: w1.env.insert(name, v), out: w1.out }),
                        Err(f) => (Err(f), w1),
                    }
                },
                Some(ps) => (
                    Ok(Val::Integer(0)),
                    World {
                        env: w.env.insert(name, Val::Function { parameters: ps, body: *value }),
                        out: w.out,
                    },
                ),
            },
            TreeKind::If { condition, consequence, alternative } => {
                let (r, w1) = eval(w, *condition, d);
                match r {
                    Ok(Val::Integer(0)) => eval(w1, *alternative, depth),
                    Ok(_) => eval(w1, *consequence, depth),
                    Err(f) => (Err(f), w1),
                }
            },
            TreeKind::Identifier(name) => if w.env.contains_key(name) {
                (Ok(w.env[name]), w)
            } else {
                (Err(Fault::UnknownVariable(name, t.position)), w)
            },
            TreeKind::FunctionCall { name, arguments } => if !w.env.contains_key(name) {
                (Err(Fault::UnknownVariable(name, t.position)), w)
            } else {
                match w.env[name] {
                    Val::Function { parameters, body } => call_function(
                        w,
                        parameters,
                        arguments,
                        body,
                        t.position,
                        d,
                    ),
                    Val::Builtin(b) => builtin_call(w, b, arguments, d),
                    v => (
                        Err(
                            Fault::TypeError(
                                "function in function call"@,
                                type_tag_of(v),
                                t.position,
                            ),
                        ),
                        w,
                    ),
                }
            },
        }
    }
}

/// Call built-in `b` on the argument expressions `args`: they are evaluated left to right and
/// the built-in is applied to their values.
pub open spec fn builtin_call(w: World, b: Builtin, args: Seq<Tree>, depth: nat) -> (
    Result<Val, Fault>,
    World,
)
    decreases depth, 2int, 0int,
{
    let (r, w1) = eval_args(w, args, args.len() as int, depth);
    match r {
        Ok(vals) => {
            let (res, out) = apply_builtin(b, vals, w1.out);
            (res, World { env: w1.env, out })
        },
        Err(f) => (Err(f), w1),
    }
}

/// Evaluate `args[..n]` left to right: their values, or the first error.
pub open spec fn eval_args(w: World, args: Seq<Tree>, n: int, depth: nat) -> (
    Result<Seq<Val>, Fault>,
    World,
)
    decreases depth, 1int, n,
{
    if n <= 0 {
        (Ok(Seq::empty()), w)
    } else {
        let (r, w1) = eval_args(w, args, n - 1, depth);
        match r {
            Ok(vals) => {
                let (v, w2) = eval(w1, args[n - 1], depth);
                match v {
                    Ok(val) => (Ok(vals.push(val)), w2),
                    Err(f) => (Err(f), w2),
                }
            },
            Err(f) => (Err(f), w1),
        }
    }
}

/// Evaluate `args[..n]` left to right, binding each value to the parameter of the same index as
/// soon as it is computed.
pub open spec fn bind_args(w: World, names: Seq<Seq<char>>, args: Seq<Tree>, n: int, depth: nat) -> (
    Result<(), Fault>,
    World,
)
    decreases depth, 1int, n,
{
    if n <= 0 {
        (Ok(()), w)
    } else {
        let (r, w1) = bind_args(w, names, args, n - 1, depth);
        match r {
            Ok(_) => {
                let (v, w2) = eval(w1, args[n - 1], depth);
                match v {
                    Ok(val) => (Ok(()), World { env: w2.env.insert(names[n - 1], val), out: w2.out }),
                    Err(f) => (Err(f), w2),
                }
            },
            Err(f) => (Err(f), w1),
        }
    }
}

/// Call a user function with `parameters` and `body` on the argument expressions `args`: the
/// arity must match; the arguments are bound in turn, the body is evaluated, and then each
/// parameter name gets back the binding it had before the call, whether the call succeeded or
/// not.
pub open spec fn call_function(
    w: World,
    parameters: Seq<Seq<char>>,
    args: Seq<Tree>,
    body: Tree,
    position: Position,
    depth: nat,
) -> (Result<Val, Fault>, World)
    decreases depth, 2int, 0int,
{
    if parameters.len() != args.len() {
        (
            Err(
                Fault::ArgumentError {
                    got: args.len(),
                    takes: parameters.len(),
                    position,
                },
            ),
            w,
        )
    } else {
        let (r, w1) = bind_args(w, parameters, args, args.len() as int, depth);
        let (res, w2) = match r {
            Ok(_) => eval(w1, body, depth),
            Err(f) => (Err(f), w1),
        };
        (res, World { env: restore(w2.env, parameters, w.env, parameters.len() as int), out: w2.out })
    }
}

/// The tree of `(if condition consequence alternative)` at `position`.
pub open spec fn if_tree(condition: Tree, consequence: Tree, alternative: Tree, position: Position) -> Tree {
    Tree {
        kind: TreeKind::If {
            condition: Box::new(condition),
            consequence: Box::new(consequence),
            alternative: Box::new(alternative),
        },
        position,
    }
}

/// Zero is the only false value: `(if n a b)` evaluates exactly as `a` does, in the same world and
/// with the same depth budget, for every integer `n` but zero, and exactly as `b` does for zero.
/// The branch not chosen is never evaluated. This holds at every budget that lets the condition
/// be evaluated, `MAX_DEPTH` among them.
pub proof fn lemma_if_selects(
    w: World,
    n: i64,
    condition_position: Position,
    a: Tree,
    b: Tree,
    position: Position,
    depth: nat,
)
    requires
        depth >= 2,
    ensures
        n != 0 ==> eval(
            w,
            if_tree(Tree { kind: TreeKind::Integer(n), position: condition_position }, a, b, position),
            depth,
        ) == eval(w, a, depth),
        n == 0 ==> eval(
            w,
            if_tree(Tree { kind: TreeKind::Integer(n), position: condition_position }, a, b, position),
            depth,
        ) == eval(w, b, depth),
{
    let c = Tree { kind: TreeKind::Integer(n), position: condition_position };
    assert(eval(w, c, (depth - 1) as nat) == (Ok::<Val, Fault>(Val::Integer(n)), w));
}

/// Restoring from `saved` gives each of `names[..n]` the binding that `saved` has for it.
proof fn lemma_restore(
    env: Map<Seq<char>, Val>,
    names: Seq<Seq<char>>,
    saved: Map<Seq<char>, Val>,
    n: int,
    k: Seq<char>,
)
    requires
        0 <= n <= names.len(),
        exists|i: int| 0 <= i < n && names[i] == k,
    ensures
        restore(env, names, saved, n).contains_key(k) == saved.contains_key(k),
        saved.contains_key(k) ==> restore(env, names, saved, n)[k] == saved[k],
    decreases n,
{
    if names[n - 1] != k {
        let i = choose|i: int| 0 <= i < n && names[i] == k;
        assert(i < n - 1);
        lemma_restore(env, names, saved, n - 1, k);
    }
}

/// After a call of a user function completes, successfully or not, each name among its
/// parameters is bound exactly as it was before the call, or unbound if it was unbound.
pub proof fn lemma_call_restores_parameters(
    w: World,
    name: Seq<char>,
    arguments: Seq<Tree>,
    position: Position,
    depth: nat,
    k: Seq<char>,
)
    requires
        depth >= 1,
        w.env.contains_key(name),
        w.env[name] is Function,
        w.env[name]->parameters.contains(k),
    ensures
        ({
            let after = eval(
                w,
                Tree { kind: TreeKind::FunctionCall { name, arguments }, position },
                depth,
            ).1;
            &&& after.env.contains_key(k) == w.env.contains_key(k)
            &&& w.env.contains_key(k) ==> after.env[k] == w.env[k]
        }),
{
    let ps = w.env[name]->parameters;
    let body = w.env[name]->body;
    let d = (depth - 1) as nat;
    let t = Tree { kind: TreeKind::FunctionCall { name, arguments }, position };
    assert(w.env[name] == Val::Function { parameters: ps, body });
    assert(eval(w, t, depth) == call_function(w, ps, arguments, body, position, d));
    if ps.len() == arguments.len() {
        let (r, w1) = bind_args(w, ps, arguments, arguments.len() as int, d);
        let w2 = match r {
            Ok(_) => eval(w1, body, d).1,
            Err(_) => w1,
        };
        lemma_restore(w2.env, ps, w.env, ps.len() as int, k);
    }
}

/// Once binding the arguments has failed, binding more of them fails the same way.
proof fn lemma_bind_args_error(w: World, names: Seq<Seq<char>>, args: Seq<Tree>, k: int, n: int, depth: nat)
    requires
        0 <= k <= n,
        bind_args(w, names, args, k, depth).0 is Err,
    ensures
        bind_args(w, names, args, n, depth) == bind_args(w, names, args, k, depth),
    decreases n - k,
{
    if n > k {
        lemma_bind_args_error(w, names, args, k, n - 1, depth);
    }
}

/// `Interpreter` executes expressions (`AST`s). There is one environment, in which `define`
/// binds names and function calls temporarily bind their parameters. What `print` writes is
/// kept until `take_output` hands it out.
pub struct Interpreter {
    /// `env` contains the variable definitions.
    env: Environment,
    /// What `print` has written and nobody has taken yet.
    output: String,
}

impl Interpreter {
    /// The bindings and the text printed so far.
    pub closed spec fn world(&self) -> World {
        World { env: self.env@, out: self.output@ }
    }

    /// The environment binds no name twice.
    pub closed spec fn wf(&self) -> bool {
        self.env.wf()
    }

    /// Create a new `Interpreter`, whose environment holds the built-in functions.
    pub fn new() -> (r: Interpreter)
        ensures
            r.wf(),
            r.world() == (World {
                env: builtins_added(Map::empty()),
                out: Seq::empty(),
            }),
    {
        let mut env = Environment::new();
        add_builtins_to_environment(&mut env);
        Interpreter { env, output: String::new() }
    }

    /// Take the text that `print` has written since the last call.
    pub fn take_output(&mut self) -> (r: String)
        requires
            old(self).wf(),
        ensures
            final(self).wf(),
            r@ == old(self).world().out,
            final(self).world() == (World { env: old(self).world().env, out: Seq::empty() }),
    {
        let out = self.output.clone();
        self.output = String::new();
        out
    }

    /// Evaluate an expression.
    pub fn eval(&mut self, expression: AST) -> (r: Result<Rc<Value>, InterpreterError>)
        requires
            old(self).wf(),
        ensures
            final(self).wf(),
            (result_view(r), final(self).world()) == eval(
                old(self).world(),
                expression@,
                MAX_DEPTH as nat,
            ),
    {
        self.eval_at(&expression, MAX_DEPTH)
    }

    /// Evaluate an expression with `depth` nested evaluations left.
    fn eval_at(&mut self, expression: &AST, depth: u64) -> (r: Result<Rc<Value>, InterpreterError>)
        requires
            old(self).wf(),
        ensures
            final(self).wf(),
            (result_view(r), final(self).world()) == eval(old(self).world(), expression@, depth as nat),
        decreases depth, 0int, branch_depth(expression@),
    {
        let position = expression.position;
        if depth == 0 {
            return Err(InterpreterError::RecursionLimit { position });
        }
        let d = depth - 1;
        match &expression.ast {
            ASTType::Integer(v) => Ok(Rc::new(Value::Integer(*v))),
            ASTType::Define { name, arguments: None, value } => {
                let value = match self.eval_at(&**value, d) {
                    Ok(v) => v,
                    Err(e) => return Err(e),
                };
                self.env.set(name.clone(), value);
                Ok(Rc::new(Value::Integer(0)))
            },
            ASTType::Define { name, arguments: Some(arguments), value } => {
                let function = Value::Function {
                    arguments: copy_names(arguments),
                    value: (**value).deep_copy(),
                };
                self.env.set(name.clone(), Rc::new(function));
                Ok(Rc::new(Value::Integer(0)))
            },
            ASTType::If { condition, consequence, alternative } => {
                let condition = match self.eval_at(&**condition, d) {
                    Ok(c) => c,
                    Err(e) => return Err(e),
                };
                match &*condition {
                    Value::Integer(0) => self.eval_at(&**alternative, depth),
                    _ => self.eval_at(&**consequence, depth),
                }
            },
            ASTType::FunctionCall { name, arguments } => {
                let function = match self.env.get(name) {
                    Some(f) => f,
                    None => {
                        return Err(InterpreterError::UnknownVariable { name: name.clone(), position });
                    },
                };
                match &*function {
                    Value::Function { arguments: names, value } => self.eval_function(
                        names,
                        arguments,
                        value,
                        position,
                        d,
                    ),
                    Value::Builtin(b) => self.eval_builtin(*b, arguments, d),
                    v => Err(
                        InterpreterError::TypeError {
                            expected: "function in function call",
                            found: v.type_tag(),
                            position,
                        },
                    ),
                }
            },
            ASTType::Identifier(name) => match self.env.get(name) {
                Some(value) => Ok(value),
                None => Err(InterpreterError::UnknownVariable { name: name.clone(), position }),
            },
        }
    }

    /// Evaluate a built-in function.
    fn eval_builtin(&mut self, builtin: Builtin, arguments: &Vec<AST>, depth: u64) -> (r: Result<
        Rc<Value>,
        InterpreterError,
    >)
        requires
            old(self).wf(),
        ensures
            final(self).wf(),
            (result_view(r), final(self).world()) == builtin_call(
                old(self).world(),
                builtin,
                trees_of(arguments@),
                depth as nat,
            ),
        decreases depth, 1int, 0int,
    {
        let ghost w0 = self.world();
        let ghost trees = trees_of(arguments@);
        proof {
            lemma_trees_of(arguments@);
        }
        let mut values: Vec<Rc<Value>> = Vec::new();
        let mut i: usize = 0;
        assert(vals_of(values@) =~= Seq::<Val>::empty());
        while i < arguments.len()
            invariant
                self.wf(),
                w0 == old(self).world(),
                trees == trees_of(arguments@),
                trees.len() == arguments@.len(),
                forall|j: int| 0 <= j < arguments@.len() ==> #[trigger] trees[j] == tree_of(arguments@[j]),
                0 <= i <= arguments@.len(),
                (Ok::<Seq<Val>, Fault>(vals_of(values@)), self.world()) == eval_args(w0, trees, i as int, depth as nat),
            decreases arguments.len() - i,
        {
            match self.eval_at(&arguments[i], depth) {
                Ok(v) => {
                    proof {
                        assert(vals_of(values@.push(v)) =~= vals_of(values@).push((*v)@));
                    }
                    values.push(v);
                },
                Err(e) => {
                    proof {
                        lemma_eval_args_error(w0, trees, i as int + 1, trees.len() as int, depth as nat);
                    }
                    return Err(e);
                },
            }
            i = i + 1;
        }
        call_builtin(builtin, values, &mut self.output)
    }

    /// Evaluate a non-built-in function.
    fn eval_function(
        &mut self,
        names: &Vec<Identifier>,
        arguments: &Vec<AST>,
        body: &AST,
        position: Position,
        depth: u64,
    ) -> (r: Result<Rc<Value>, InterpreterError>)
        requires
            old(self).wf(),
        ensures
            final(self).wf(),
            (result_view(r), final(self).world()) == call_function(
                old(self).world(),
                names_of(names@),
                trees_of(arguments@),
                body@,
                position,
                depth as nat,
            ),
            forall|k: Seq<char>|
                #![trigger names_of(names@).contains(k)]
                names_of(names@).contains(k) ==> {
                    &&& final(self).world().env.contains_key(k) == old(self).world().env.contains_key(k)
                    &&& old(self).world().env.contains_key(k) ==> final(self).world().env[k]
                        == old(self).world().env[k]
                },
        decreases depth, 1int, 0int,
    {
        proof {
            lemma_trees_of(arguments@);
        }
        if names.len() != arguments.len() {
            return Err(
                InterpreterError::ArgumentError {
                    takes: names.len(),
                    got: arguments.len(),
                    position,
                },
            );
        }
        let ghost w0 = self.world();
        let ghost ps = names_of(names@);
        let ghost trees = trees_of(arguments@);
        // The bindings that the parameter names have before the call, to put back afterwards.
        let mut state: Vec<Option<Rc<Value>>> = Vec::new();
        let mut i: usize = 0;
        while i < names.len()
            invariant
                self.wf(),
                self.world() == w0,
                ps == names_of(names@),
                0 <= i <= names@.len(),
                state@.len() == i,
                forall|j: int|
                    0 <= j < i ==> (#[trigger] state@[j] is Some <==> w0.env.contains_key(ps[j])),
                forall|j: int|
                    0 <= j < i && state@[j] is Some ==> (*(#[trigger] state@[j])->Some_0)@
                        == w0.env[ps[j]],
            decreases names.len() - i,
        {
            state.push(self.env.get(&names[i]));
            i = i + 1;
        }
        let mut failure: Option<InterpreterError> = None;
        let mut i: usize = 0;
        while i < names.len()
            invariant_except_break
                (Ok::<(), Fault>(()), self.world()) == bind_args(w0, ps, trees, i as int, depth as nat),
                failure is None,
            invariant
                self.wf(),
                ps == names_of(names@),
                trees == trees_of(arguments@),
                trees.len() == arguments@.len(),
                names@.len() == arguments@.len(),
                forall|j: int| 0 <= j < arguments@.len() ==> #[trigger] trees[j] == tree_of(arguments@[j]),
                0 <= i <= names@.len(),
                w0 == old(self).world(),
            ensures
                self.wf(),
                failure is None ==> (Ok::<(), Fault>(()), self.world()) == bind_args(
                    w0,
                    ps,
                    trees,
                    trees.len() as int,
                    depth as nat,
                ),
                failure is Some ==> (Err::<(), Fault>(failure->Some_0@), self.world()) == bind_args(
                    w0,
                    ps,
                    trees,
                    trees.len() as int,
                    depth as nat,
                ),
            decreases names.len() - i,
        {
            match self.eval_at(&arguments[i], depth) {
                Ok(v) => {
                    self.env.set(names[i].clone(), v);
                },
                Err(e) => {
                    proof {
                        lemma_bind_args_error(w0, ps, trees, i as int + 1, trees.len() as int, depth as nat);
                    }
                    failure = Some(e);
                    break;
                },
            }
            i = i + 1;
        }
        let result = match failure {
            Some(e) => Err(e),
            None => self.eval_at(body, depth),
        };
        let ghost after = self.world();
        let mut i: usize = 0;
        while i < names.len()
            invariant
                self.wf(),
                ps == names_of(names@),
                0 <= i <= names@.len(),
                state@.len() == names@.len(),
                forall|j: int|
                    0 <= j < names@.len() ==> (#[trigger] state@[j] is Some <==> w0.env.contains_key(ps[j])),
                forall|j: int|
                    0 <= j < names@.len() && state@[j] is Some ==> (*(#[trigger] state@[j])->Some_0)@
                        == w0.env[ps[j]],
                self.world() == (World { env: restore(after.env, ps, w0.env, i as int), out: after.out }),
                w0 == old(self).world(),
            decreases names.len() - i,
        {
            match &state[i] {
                Some(value) => {
                    self.env.set(names[i].clone(), Rc::clone(value));
                },
                None => {
                    self.env.take(&names[i]);
                },
            }
            i = i + 1;
        }
        proof {
            assert forall|k: Seq<char>|
                #![trigger names_of(names@).contains(k)]
                names_of(names@).contains(k) implies {
                &&& self.world().env.contains_key(k) == w0.env.contains_key(k)
                &&& w0.env.contains_key(k) ==> self.world().env[k] == w0.env[k]
            } by {
                lemma_restore(after.env, ps, w0.env, ps.len() as int, k);
            }
        }
        result
    }
}

/// Once evaluating the arguments has failed, evaluating more of them fails the same way.
proof fn lemma_eval_args_error(w: World, args: Seq<Tree>, k: int, n: int, depth: nat)
    requires
        0 <= k <= n,
        eval_args(w, args, k, depth).0 is Err,
    ensures
        eval_args(w, args, n, depth) == eval_args(w, args, k, depth),
    decreases n - k,
{
    if n > k {
        lemma_eval_args_error(w, args, k, n - 1, depth);
    }
}

} // verus!
