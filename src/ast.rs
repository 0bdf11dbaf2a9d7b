//! `ast` contains the Abstract Syntax Tree (`AST`) representation.
use crate::{Identifier, Position};
use vstd::prelude::*;

verus! {

/// An Abstract Syntax Tree with the position in the file.
#[derive(Debug, PartialEq)]
pub struct AST {
    /// The `AST` type.
    pub ast: ASTType,
    /// The position in a file of the `AST`.
    pub position: Position,
}

/// The Abstract Syntax Tree (`AST`) representation.
#[derive(Debug, PartialEq)]
pub enum ASTType {
    /// A `define` expression. This expression has two forms:
    ///
    /// 1. `(define x foo)`, to give `x` the value of `foo`.
    /// 2. `(define (f x) (foo x))`, to give `f` the value of a function on `x`.
    Define { name: Identifier, arguments: Option<Vec<Identifier>>, value: Box<AST> },
    /// An `if` expression, in the form `(if condition consequence alternative)`.
    If { condition: Box<AST>, consequence: Box<AST>, alternative: Box<AST> },
    /// A function call, in the form `(function param1 param2 ...)`.
    FunctionCall { name: Identifier, arguments: Vec<AST> },
    /// An identifier.
    Identifier(Identifier),
    /// An integer.
    Integer(i64),
}

/// The mathematical value of an `AST`: names are character sequences.
pub struct Tree {
    pub kind: TreeKind,
    pub position: Position,
}

/// The mathematical value of an `ASTType`.
pub enum TreeKind {
    Define { name: Seq<char>, parameters: Option<Seq<Seq<char>>>, value: Box<Tree> },
    If { condition: Box<Tree>, consequence: Box<Tree>, alternative: Box<Tree> },
    FunctionCall { name: Seq<char>, arguments: Seq<Tree> },
    Identifier(Seq<char>),
    Integer(i64),
}

/// The characters of each name.
pub open spec fn names_of(v: Seq<Identifier>) -> Seq<Seq<char>> {
    v.map_values(|x: Identifier| x@)
}

/// The mathematical value of an `AST`.
pub open spec fn tree_of(a: AST) -> Tree
    decreases a,
{
    Tree { kind: kind_of(a.ast), position: a.position }
}

/// The mathematical value of an `ASTType`.
pub open spec fn kind_of(k: ASTType) -> TreeKind
    decreases k,
{
    match k {
        ASTType::Define { name, arguments, value } => TreeKind::Define {
            name: name@,
            parameters: match arguments {
                Some(v) => Some(names_of(v@)),
                None => None,
            },
            value: Box::new(tree_of(*value)),
        },
        ASTType::If { condition, consequence, alternative } => TreeKind::If {
            condition: Box::new(tree_of(*condition)),
            consequence: Box::new(tree_of(*consequence)),
            alternative: Box::new(tree_of(*alternative)),
        },
        ASTType::FunctionCall { name, arguments } => TreeKind::FunctionCall {
            name: name@,
            arguments: trees_of(arguments@),
        },
        ASTType::Identifier(name) => TreeKind::Identifier(name@),
        ASTType::Integer(v) => TreeKind::Integer(v),
    }
}

/// The mathematical values of a sequence of `AST`s.
pub open spec fn trees_of(s: Seq<AST>) -> Seq<Tree>
    decreases s,
{
    if s.len() == 0 {
        Seq::empty()
    } else {
        trees_of(s.subrange(0, s.len() - 1)).push(tree_of(s[s.len() - 1]))
    }
}

/// A copy of `names`.
pub fn copy_names(names: &Vec<Identifier>) -> (r: Vec<Identifier>)
    ensures
        names_of(r@) == names_of(names@),
{
    let mut r: Vec<Identifier> = Vec::new();
    let mut i: usize = 0;
    while i < names.len()
        invariant
            0 <= i <= names@.len(),
            r@.len() == i,
            forall|j: int| 0 <= j < i ==> #[trigger] r@[j]@ == names@[j]@,
        decreases names.len() - i,
    {
        r.push(names[i].clone());
        i = i + 1;
    }
    assert(names_of(r@) =~= names_of(names@));
    r
}

impl AST {
    /// A copy of the tree, with the same mathematical value.
    pub fn deep_copy(&self) -> (r: AST)
        ensures
            r@ == self@,
        decreases self,
    {
        let ast = match &self.ast {
            ASTType::Define { name, arguments, value } => ASTType::Define {
                name: name.clone(),
                arguments: match arguments {
                    Some(v) => Some(copy_names(v)),
                    None => None,
                },
                value: Box::new((**value).deep_copy()),
            },
            ASTType::If { condition, consequence, alternative } => ASTType::If {
                condition: Box::new((**condition).deep_copy()),
                consequence: Box::new((**consequence).deep_copy()),
                alternative: Box::new((**alternative).deep_copy()),
            },
            ASTType::FunctionCall { name, arguments } => {
                let mut copied: Vec<AST> = Vec::new();
                let mut i: usize = 0;
                proof {
                    assert(trees_of(copied@) =~= trees_of(arguments@.subrange(0, 0)));
                }
                while i < arguments.len()
                    invariant
                        0 <= i <= arguments@.len(),
                        trees_of(copied@) == trees_of(arguments@.subrange(0, i as int)),
                        self.ast == (ASTType::FunctionCall { name: *name, arguments: *arguments }),
                    decreases arguments.len() - i,
                {
                    proof {
                        assert(decreases_to!(*arguments => arguments[i as int]));
                        assert(self.ast is FunctionCall);
                        assert(decreases_to!(self.ast => self.ast->FunctionCall_arguments));
                        assert(decreases_to!(*self => self.ast));
                    }
                    let a = arguments[i].deep_copy();
                    proof {
                        lemma_trees_of_push(copied@, a);
                        assert(arguments@.subrange(0, i as int + 1).subrange(0, i as int)
                            =~= arguments@.subrange(0, i as int));
                    }
                    copied.push(a);
                    i = i + 1;
                }
                assert(arguments@.subrange(0, i as int) =~= arguments@);
                ASTType::FunctionCall { name: name.clone(), arguments: copied }
            },
            ASTType::Identifier(name) => ASTType::Identifier(name.clone()),
            ASTType::Integer(v) => ASTType::Integer(*v),
        };
        AST { ast, position: self.position }
    }
}

impl View for AST {
    type V = Tree;

    open spec fn view(&self) -> Tree {
        tree_of(*self)
    }
}

/// Appending an `AST` appends its mathematical value.
pub proof fn lemma_trees_of_push(s: Seq<AST>, a: AST)
    ensures
        trees_of(s.push(a)) == trees_of(s).push(tree_of(a)),
{
    assert(s.push(a).subrange(0, s.len() as int) =~= s);
}

/// The mathematical values of a sequence of `AST`s have one entry for each, in order.
pub proof fn lemma_trees_of(s: Seq<AST>)
    ensures
        trees_of(s).len() == s.len(),
        forall|i: int| 0 <= i < s.len() ==> #[trigger] trees_of(s)[i] == tree_of(s[i]),
    decreases s.len(),
{
    if s.len() > 0 {
        lemma_trees_of(s.subrange(0, s.len() - 1));
    }
}

} // verus!
