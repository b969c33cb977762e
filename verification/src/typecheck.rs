//! The type checker: a single post-order walk that infers the type of
//! every node, records bindings in a flat environment, and fails on the
//! first unknown type name, annotation mismatch, or unsupported node.

use vstd::prelude::*;

use crate::ast::deep_view_seq;
use crate::ast::Ast;
use crate::ast::AstNode;
use crate::types::Ty;
use crate::types::Type;
use crate::types::TypeEnvironment;

verus! {

/// A type-checking failure.
#[derive(Debug, PartialEq)]
pub enum TypeError {
    /// A type annotation named a type the language does not know.
    UnknownTypeName(String),
    /// The annotated type and the inferred type of the bound value differ.
    Mismatch { expected: Type, actual: Type },
    /// The node kind has no type-checking rule.
    UnsupportedNode,
}

/// The mathematical model of a type-checking failure.
pub enum TypeErrorModel {
    UnknownTypeName(Seq<char>),
    Mismatch { expected: Ty, actual: Ty },
    UnsupportedNode,
}

impl View for TypeError {
    type V = TypeErrorModel;

    open spec fn view(&self) -> TypeErrorModel {
        match self {
            TypeError::UnknownTypeName(name) => TypeErrorModel::UnknownTypeName(name@),
            TypeError::Mismatch { expected, actual } => TypeErrorModel::Mismatch {
                expected: expected.deep_view(),
                actual: actual.deep_view(),
            },
            TypeError::UnsupportedNode => TypeErrorModel::UnsupportedNode,
        }
    }
}

/// The type denoted by a type-annotation name, if the language knows
/// it. Both the bare names and the corresponding type keywords of the
/// grammar are accepted.
pub open spec fn spec_resolve_type_name(name: Seq<char>) -> Option<Ty> {
    if name == "int"@ || name == "i32"@ {
        Some(Ty::Int)
    } else if name == "float"@ || name == "f64"@ {
        Some(Ty::Float)
    } else if name == "string"@ {
        Some(Ty::String)
    } else if name == "bool"@ {
        Some(Ty::Bool)
    } else {
        None
    }
}

/// The result of type-checking a node under an environment: the node's
/// type or the failure, together with the environment afterwards.
pub open spec fn spec_check(env: Map<Seq<char>, Ty>, a: Ast) -> (Result<Ty, TypeErrorModel>, Map<
    Seq<char>,
    Ty,
>)
    decreases a,
{
    match a {
        Ast::Program(nodes) => spec_check_seq(env, nodes, Ty::Void),
        Ast::Function { name, params, body } => {
            let (r, env1) = spec_check(env, *body);
            match r {
                Ok(body_type) => (
                    Ok(body_type),
                    env1.insert(
                        name,
                        Ty::Function { params: Seq::empty(), return_type: Box::new(body_type) },
                    ),
                ),
                Err(e) => (Err(e), env1),
            }
        },
        Ast::Number(_) => (Ok(Ty::Int), env),
        Ast::StringLiteral(_) => (Ok(Ty::String), env),
        Ast::Boolean(_) => (Ok(Ty::Bool), env),
        Ast::Let { name, type_annotation, value } => {
            let (r, env1) = spec_check(env, *value);
            match r {
                Ok(value_type) => match type_annotation {
                    Some(annotation) => match spec_resolve_type_name(annotation) {
                        Some(expected) => if value_type != expected {
                            (
                                Err(
                                    TypeErrorModel::Mismatch { expected, actual: value_type },
                                ),
                                env1,
                            )
                        } else {
                            (Ok(value_type), env1.insert(name, value_type))
                        },
                        None => (Err(TypeErrorModel::UnknownTypeName(annotation)), env1),
                    },
                    None => (Ok(value_type), env1.insert(name, value_type)),
                },
                Err(e) => (Err(e), env1),
            }
        },
        Ast::Return(expr) => spec_check(env, *expr),
        _ => ((Err(TypeErrorModel::UnsupportedNode), env)),
    }
}

/// Checks the children of a `Program` node in order; the program's own
/// type is the type of its last child (`last` at the end of the fold,
/// `Void` for an empty program).
pub open spec fn spec_check_seq(env: Map<Seq<char>, Ty>, nodes: Seq<Ast>, last: Ty) -> (Result<
    Ty,
    TypeErrorModel,
>, Map<Seq<char>, Ty>)
    decreases nodes,
{
    if nodes.len() == 0 {
        (Ok(last), env)
    } else {
        proof {
            assert(decreases_to!(nodes => nodes[0]));
            assert(decreases_to!(nodes => nodes.subrange(1, nodes.len() as int)));
        }
        let (r, env1) = spec_check(env, nodes[0]);
        match r {
            Ok(t) => spec_check_seq(env1, nodes.subrange(1, nodes.len() as int), t),
            Err(e) => (Err(e), env1),
        }
    }
}

/// The type denoted by an annotation name, as an executable lookup.
fn resolve_type_name(name: &str) -> (r: Option<Type>)
    ensures
        match r {
            Some(t) => spec_resolve_type_name(name@) == Some(t.deep_view()),
            None => spec_resolve_type_name(name@) is None,
        },
{
    proof {
        reveal_strlit("int");
        reveal_strlit("i32");
        reveal_strlit("float");
        reveal_strlit("f64");
        reveal_strlit("string");
        reveal_strlit("bool");
    }
    let n = name.unicode_len();
    if n == 3 {
        let c0 = name.get_char(0);
        let c1 = name.get_char(1);
        let c2 = name.get_char(2);
        if c0 == 'i' && c1 == 'n' && c2 == 't' {
            proof {
                assert(name@ =~= "int"@);
            }
            Some(Type::Int)
        } else if c0 == 'i' && c1 == '3' && c2 == '2' {
            proof {
                assert(name@ =~= "i32"@);
            }
            Some(Type::Int)
        } else if c0 == 'f' && c1 == '6' && c2 == '4' {
            proof {
                assert(name@ =~= "f64"@);
            }
            Some(Type::Float)
        } else {
            None
        }
    } else if n == 4 {
        let c0 = name.get_char(0);
        let c1 = name.get_char(1);
        let c2 = name.get_char(2);
        let c3 = name.get_char(3);
        if c0 == 'b' && c1 == 'o' && c2 == 'o' && c3 == 'l' {
            proof {
                assert(name@ =~= "bool"@);
            }
            Some(Type::Bool)
        } else {
            None
        }
    } else if n == 5 {
        let c0 = name.get_char(0);
        let c1 = name.get_char(1);
        let c2 = name.get_char(2);
        let c3 = name.get_char(3);
        let c4 = name.get_char(4);
        if c0 == 'f' && c1 == 'l' && c2 == 'o' && c3 == 'a' && c4 == 't' {
            proof {
                assert(name@ =~= "float"@);
            }
            Some(Type::Float)
        } else {
            None
        }
    } else if n == 6 {
        let c0 = name.get_char(0);
        let c1 = name.get_char(1);
        let c2 = name.get_char(2);
        let c3 = name.get_char(3);
        let c4 = name.get_char(4);
        let c5 = name.get_char(5);
        if c0 == 's' && c1 == 't' && c2 == 'r' && c3 == 'i' && c4 == 'n' && c5 == 'g' {
            proof {
                assert(name@ =~= "string"@);
            }
            Some(Type::String)
        } else {
            None
        }
    } else {
        None
    }
}

/// Whether two types are structurally equal, when the second is not a
/// function type.
fn type_matches(a: &Type, b: &Type) -> (r: bool)
    requires
        !(b.deep_view() is Function),
    ensures
        r == (a.deep_view() == b.deep_view()),
{
    match (a, b) {
        (Type::Int, Type::Int) => true,
        (Type::Float, Type::Float) => true,
        (Type::Bool, Type::Bool) => true,
        (Type::String, Type::String) => true,
        (Type::Void, Type::Void) => true,
        _ => false,
    }
}

/// The type checker: one environment, filled by one checking pass.
pub struct TypeChecker {
    env: TypeEnvironment,
}

impl TypeChecker {
    /// The model of the checker's environment.
    pub closed spec fn env_map(&self) -> Map<Seq<char>, Ty> {
        self.env@
    }

    /// Creates a checker with an empty environment.
    pub fn new() -> (r: TypeChecker)
        ensures
            r.env_map() == Map::<Seq<char>, Ty>::empty(),
    {
        TypeChecker { env: TypeEnvironment::new() }
    }

    /// Infers and validates the type of `node`, recording the bindings
    /// that `let` and function declarations introduce.
    pub fn check(&mut self, node: &AstNode) -> (r: Result<Type, TypeError>)
        ensures
            ({
                let res = spec_check(old(self).env_map(), node.deep_view());
                final(self).env_map() == res.1 && match r {
                    Ok(t) => res.0 matches Ok(ty) && t.deep_view() == ty,
                    Err(e) => res.0 matches Err(em) && e@ == em,
                }
            }),
        decreases node,
    {
        match node {
            AstNode::Program(nodes) => {
                let ghost target = spec_check_seq(
                    self.env_map(),
                    deep_view_seq(nodes@),
                    Ty::Void,
                );
                let mut last: Type = Type::Void;
                let mut i: usize = 0;
                proof {
                    assert(nodes@.subrange(0, nodes@.len() as int) =~= nodes@);
                }
                while i < nodes.len()
                    invariant
                        *node is Program,
                        node->Program_0 == *nodes,
                        i <= nodes.len(),
                        target == spec_check_seq(
                            old(self).env_map(),
                            deep_view_seq(nodes@),
                            Ty::Void,
                        ),
                        spec_check_seq(
                            self.env_map(),
                            deep_view_seq(nodes@.subrange(i as int, nodes@.len() as int)),
                            last.deep_view(),
                        ) == target,
                    decreases nodes.len() - i,
                {
                    let ghost rest = nodes@.subrange(i as int, nodes@.len() as int);
                    let ghost rest_dv = deep_view_seq(rest);
                    proof {
                        assert(decreases_to!(*node => node->Program_0));
                        assert(decreases_to!(node->Program_0 => node->Program_0@));
                        assert(decreases_to!(node->Program_0@ => node->Program_0@[i as int]));
                        crate::ast::lemma_deep_view_seq(rest);
                        assert(rest[0] == nodes@[i as int]);
                        assert(rest_dv[0] == nodes@[i as int].deep_view());
                    }
                    let child_type = match self.check(&nodes[i]) {
                        Ok(t) => t,
                        Err(e) => {
                            return Err(e);
                        },
                    };
                    proof {
                        let sub2 = nodes@.subrange(i as int + 1, nodes@.len() as int);
                        assert(rest.subrange(1, rest.len() as int) =~= sub2);
                        crate::ast::lemma_deep_view_seq(rest.subrange(1, rest.len() as int));
                        assert(rest_dv.subrange(1, rest_dv.len() as int) =~= deep_view_seq(sub2));
                    }
                    last = child_type;
                    i = i + 1;
                }
                proof {
                    assert(nodes@.subrange(i as int, nodes@.len() as int)
                        =~= Seq::<AstNode>::empty());
                }
                Ok(last)
            },
            AstNode::Function { name, params: _, body } => {
                let body_type = match self.check(body) {
                    Ok(t) => t,
                    Err(e) => {
                        return Err(e);
                    },
                };
                let fn_type = Type::function(Vec::new(), body_type.duplicate());
                proof {
                    crate::types::lemma_deep_view_types(Seq::<Type>::empty());
                    assert(crate::types::deep_view_types(Seq::<Type>::empty())
                        =~= Seq::<Ty>::empty());
                }
                self.env.insert(name.clone(), fn_type);
                Ok(body_type)
            },
            AstNode::Number(_) => Ok(Type::Int),
            AstNode::StringLiteral(_) => Ok(Type::String),
            AstNode::Boolean(_) => Ok(Type::Bool),
            AstNode::Let { name, type_annotation, value } => {
                let value_type = match self.check(value) {
                    Ok(t) => t,
                    Err(e) => {
                        return Err(e);
                    },
                };
                match type_annotation {
                    Some(annotation) => {
                        match resolve_type_name(annotation.as_str()) {
                            Some(expected_type) => {
                                if !type_matches(&value_type, &expected_type) {
                                    return Err(
                                        TypeError::Mismatch {
                                            expected: expected_type,
                                            actual: value_type,
                                        },
                                    );
                                }
                            },
                            None => {
                                return Err(TypeError::UnknownTypeName(annotation.clone()));
                            },
                        }
                    },
                    None => {},
                }
                self.env.insert(name.clone(), value_type.duplicate());
                Ok(value_type)
            },
            AstNode::Return(expr) => self.check(expr),
            _ => Err(TypeError::UnsupportedNode),
        }
    }
}

} // verus!
