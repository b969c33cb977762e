//! Laws of the pipeline, stated over the specification functions that
//! the executable functions are proved against.

use vstd::prelude::*;

use crate::ast::Ast;
use crate::codegen::init_gen_state;
use crate::codegen::spec_gen;
use crate::codegen::spec_gen_seq;
use crate::codegen::BackendOpModel;
use crate::codegen::CodeGenErrorModel;
use crate::codegen::GenState;
use crate::codegen::OperandModel;
use crate::lexer::Lexeme;
use crate::parser::spec_parse;
use crate::parser::SyntaxErrorModel;
use crate::typecheck::spec_check;
use crate::typecheck::TypeErrorModel;
use crate::types::Ty;

verus! {

/// For every function name and integer literal, parsing the token
/// sequence of `fn name(): i32 { return n; }` produces exactly one
/// `Function` node whose body is a `Program` holding exactly one
/// `Return(Number(n))`, and type-checking the parsed program yields
/// `Int`.
pub proof fn lemma_single_return_function(name: Seq<char>, n: int)
    ensures
        ({
            let toks = seq![
                Lexeme::Function,
                Lexeme::Identifier(name),
                Lexeme::LeftParen,
                Lexeme::RightParen,
                Lexeme::Colon,
                Lexeme::TypeInt,
                Lexeme::LeftBrace,
                Lexeme::Return,
                Lexeme::Number(n),
                Lexeme::Semicolon,
                Lexeme::RightBrace,
            ];
            let body = Ast::Program(seq![Ast::Return(Box::new(Ast::Number(n)))]);
            let ast = Ast::Program(
                seq![
                    Ast::Function { name, params: Seq::empty(), body: Box::new(body) },
                ],
            );
            spec_parse(toks) == Ok::<Ast, SyntaxErrorModel>(ast) && spec_check(
                Map::empty(),
                ast,
            ).0 == Ok::<Ty, TypeErrorModel>(Ty::Int)
        }),
{
    let toks = seq![
        Lexeme::Function,
        Lexeme::Identifier(name),
        Lexeme::LeftParen,
        Lexeme::RightParen,
        Lexeme::Colon,
        Lexeme::TypeInt,
        Lexeme::LeftBrace,
        Lexeme::Return,
        Lexeme::Number(n),
        Lexeme::Semicolon,
        Lexeme::RightBrace,
    ];
    reveal_with_fuel(crate::parser::spec_parse_program_rest, 3);
    reveal_with_fuel(crate::parser::spec_parse_block_rest, 3);
    reveal_with_fuel(crate::parser::spec_parse_params_rest, 2);
    reveal_with_fuel(crate::parser::spec_parse_binary_rest, 2);
    reveal_with_fuel(crate::typecheck::spec_check, 6);
    reveal_with_fuel(crate::typecheck::spec_check_seq, 4);
    let ret = Ast::Return(Box::new(Ast::Number(n)));
    let body = Ast::Program(seq![ret]);
    let func = Ast::Function { name, params: Seq::empty(), body: Box::new(body) };
    let ast = Ast::Program(seq![func]);
    assert(Seq::<Ast>::empty().push(ret) =~= seq![ret]);
    assert(Seq::<Ast>::empty().push(func) =~= seq![func]);
    assert(spec_parse(toks) == Ok::<Ast, SyntaxErrorModel>(ast));
    assert(seq![ret].subrange(1, 1) =~= Seq::<Ast>::empty());
    assert(seq![func].subrange(1, 1) =~= Seq::<Ast>::empty());
    let env0 = Map::<Seq<char>, Ty>::empty();
    assert(spec_check(env0, Ast::Number(n)).0 == Ok::<Ty, TypeErrorModel>(Ty::Int));
    assert(spec_check(env0, ret).0 == Ok::<Ty, TypeErrorModel>(Ty::Int));
    assert(spec_check(env0, body).0 == Ok::<Ty, TypeErrorModel>(Ty::Int));
    assert(spec_check(env0, func).0 == Ok::<Ty, TypeErrorModel>(Ty::Int));
    assert(spec_check(Map::empty(), ast).0 == Ok::<Ty, TypeErrorModel>(Ty::Int));
}

/// The driver only ever appends backend calls: generating any node
/// extends the trace, leaving the calls already planned untouched.
pub proof fn lemma_gen_extends(st: GenState, a: Ast)
    ensures
        ({
            let (st2, r) = spec_gen(st, a);
            st.ops.len() <= st2.ops.len() && forall|i: int|
                0 <= i < st.ops.len() ==> st2.ops[i] == st.ops[i]
        }),
    decreases a,
{
    match a {
        Ast::Program(nodes) => {
            assert(decreases_to!(a => nodes));
            lemma_gen_seq_extends(st, nodes);
        },
        Ast::Function { name, params, body } => {
            let st1 = crate::codegen::emit(
                st,
                BackendOpModel::AddFunction { name, ret_bits: 32, param_bits: Seq::empty() },
            );
            let st2 = crate::codegen::emit(st1, BackendOpModel::AppendBlock { label: "entry"@ });
            let st3 = crate::codegen::emit(
                st2,
                BackendOpModel::PositionAtEnd { label: "entry"@ },
            );
            lemma_gen_extends(st3, *body);
        },
        _ => {},
    }
}

/// The driver only ever appends backend calls while generating a
/// sequence of nodes.
pub proof fn lemma_gen_seq_extends(st: GenState, nodes: Seq<Ast>)
    ensures
        ({
            let (st2, r) = spec_gen_seq(st, nodes);
            st.ops.len() <= st2.ops.len() && forall|i: int|
                0 <= i < st.ops.len() ==> st2.ops[i] == st.ops[i]
        }),
    decreases nodes,
{
    if nodes.len() > 0 {
        assert(decreases_to!(nodes => nodes[0]));
        assert(decreases_to!(nodes => nodes.subrange(1, nodes.len() as int)));
        lemma_gen_extends(st, nodes[0]);
        let (st1, r) = spec_gen(st, nodes[0]);
        if r is Ok {
            lemma_gen_seq_extends(st1, nodes.subrange(1, nodes.len() as int));
        }
    }
}

/// Every function whose generation succeeds leaves its block
/// terminated, and the last backend call made for it is its
/// verification.
pub proof fn lemma_generated_function_terminated(
    st: GenState,
    name: Seq<char>,
    params: Seq<(Seq<char>, Seq<char>)>,
    body: Ast,
)
    ensures
        ({
            let (st2, r) = spec_gen(st, Ast::Function { name, params, body: Box::new(body) });
            r is Ok ==> st2.terminated && !st2.poisoned && st2.ops.len() > st.ops.len()
                && st2.ops.last() == (BackendOpModel::VerifyFunction { name })
        }),
{
    reveal_with_fuel(spec_gen, 2);
    let st1 = crate::codegen::emit(
                st,
                BackendOpModel::AddFunction { name, ret_bits: 32, param_bits: Seq::empty() },
            );
    let st2 = crate::codegen::emit(st1, BackendOpModel::AppendBlock { label: "entry"@ });
    let st3 = crate::codegen::emit(st2, BackendOpModel::PositionAtEnd { label: "entry"@ });
    lemma_gen_extends(st3, body);
}

/// A function whose body holds no statement at all is generated with
/// an implicit `return 0`: its backend calls are exactly the function
/// and block creation, a 32-bit zero constant, the return of that
/// constant, and the verification request, and generation succeeds.
pub proof fn lemma_empty_body_gets_default_return(
    st: GenState,
    name: Seq<char>,
    params: Seq<(Seq<char>, Seq<char>)>,
)
    ensures
        ({
            let empty_body = Ast::Program(Seq::empty());
            let (st2, r) = spec_gen(
                st,
                Ast::Function { name, params, body: Box::new(empty_body) },
            );
            r is Ok && st2.ops =~= st.ops + seq![
                BackendOpModel::AddFunction { name, ret_bits: 32, param_bits: Seq::empty() },
                BackendOpModel::AppendBlock { label: "entry"@ },
                BackendOpModel::PositionAtEnd { label: "entry"@ },
                BackendOpModel::ConstInt { bits: 32, value: 0 },
                BackendOpModel::Ret { value: OperandModel::ConstInt { bits: 32, value: 0 } },
                BackendOpModel::VerifyFunction { name },
            ]
        }),
{
    reveal_with_fuel(spec_gen, 3);
    reveal_with_fuel(crate::codegen::spec_gen_seq, 2);
}

/// Generation is a function of the driver's state and the tree alone:
/// two drivers in equal states plan exactly the same backend calls for
/// equal trees, so re-generating a tree into a fresh module produces
/// structurally identical output.
pub proof fn lemma_generation_deterministic(st1: GenState, st2: GenState, a: Ast)
    requires
        st1 == st2,
    ensures
        spec_gen(st1, a) == spec_gen(st2, a),
{
}

/// Referencing an identifier that no binding declared fails generation
/// with `UndefinedVariable` naming it: a fresh driver, asked to
/// generate `fn fname(): i32 { return name; }` with `name` unbound,
/// reports exactly that error.
pub proof fn lemma_undeclared_identifier_fails(fname: Seq<char>, name: Seq<char>)
    ensures
        ({
            let body = Ast::Program(seq![Ast::Return(Box::new(Ast::Identifier(name)))]);
            let ast = Ast::Program(
                seq![
                    Ast::Function { name: fname, params: Seq::empty(), body: Box::new(body) },
                ],
            );
            spec_gen(init_gen_state(), ast).1 == Err::<(), CodeGenErrorModel>(
                CodeGenErrorModel::UndefinedVariable(name),
            )
        }),
{
    reveal_with_fuel(spec_gen, 5);
    reveal_with_fuel(crate::codegen::spec_gen_seq, 4);
    let ret = Ast::Return(Box::new(Ast::Identifier(name)));
    let body = Ast::Program(seq![ret]);
    let func = Ast::Function { name: fname, params: Seq::empty(), body: Box::new(body) };
    let ast = Ast::Program(seq![func]);
    let e = Err::<(), CodeGenErrorModel>(CodeGenErrorModel::UndefinedVariable(name));
    assert(seq![ret].subrange(1, 1) =~= Seq::<Ast>::empty());
    assert(seq![func].subrange(1, 1) =~= Seq::<Ast>::empty());
    let st0 = init_gen_state();
    let st1 = crate::codegen::emit(
        st0,
        BackendOpModel::AddFunction { name: fname, ret_bits: 32, param_bits: Seq::empty() },
    );
    let st2 = crate::codegen::emit(st1, BackendOpModel::AppendBlock { label: "entry"@ });
    let st3 = crate::codegen::emit(st2, BackendOpModel::PositionAtEnd { label: "entry"@ });
    assert(st3.vars == st0.vars);
    assert(!st3.vars.contains_key(name));
    assert(spec_gen(st3, ret).1 == e);
    assert(spec_gen_seq(st3, seq![ret]).1 == e);
    assert(spec_gen(st3, body).1 == e);
    assert(spec_gen(st0, func).1 == e);
    assert(spec_gen_seq(st0, seq![func]).1 == e);
}

} // verus!

