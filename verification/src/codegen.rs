//! The code-generation driver: walks a validated syntax tree and plans
//! the exact sequence of backend instructions for it.
//!
//! The driver does not construct native code itself; it produces the
//! ordered list of construction calls — module and function creation,
//! stack allocation, stores, loads, returns, verification — that a
//! native backend is asked to perform, together with the variable-slot
//! bookkeeping those calls need. The surrounding program replays that
//! list against the real backend and writes the object file.

use vstd::prelude::*;

use crate::ast::deep_view_seq;
use crate::ast::Ast;
use crate::ast::AstNode;
use crate::types::lemma_map_of_push;
use crate::types::map_of;

verus! {

/// A value operand handed to a backend instruction: a materialized
/// integer constant, the result of a load from a variable's slot, or
/// a parameter of the function being built.
#[derive(Debug, PartialEq)]
pub enum Operand {
    ConstInt { bits: u32, value: i64 },
    Load { bits: u32, slot: usize, name: String },
    Arg { index: usize, bits: u32 },
}

/// The mathematical model of an operand.
pub enum OperandModel {
    ConstInt { bits: u32, value: int },
    Load { bits: u32, slot: usize, name: Seq<char> },
    Arg { index: usize, bits: u32 },
}

impl DeepView for Operand {
    type V = OperandModel;

    open spec fn deep_view(&self) -> OperandModel {
        match self {
            Operand::ConstInt { bits, value } => OperandModel::ConstInt {
                bits: *bits,
                value: *value as int,
            },
            Operand::Load { bits, slot, name } => OperandModel::Load {
                bits: *bits,
                slot: *slot,
                name: name@,
            },
            Operand::Arg { index, bits } => OperandModel::Arg { index: *index, bits: *bits },
        }
    }
}

/// One backend construction call, in the order the driver requests it.
#[derive(Debug, PartialEq)]
pub enum BackendOp {
    /// Create the module that all functions are added to.
    CreateModule { name: String },
    /// Add an empty function whose return type is an integer of the
    /// given width and whose parameters are integers of the given
    /// widths.
    AddFunction { name: String, ret_bits: u32, param_bits: Vec<u32> },
    /// Append a basic block to the last added function.
    AppendBlock { label: String },
    /// Position instruction building at the end of that block.
    PositionAtEnd { label: String },
    /// Materialize an integer constant of the given width.
    ConstInt { bits: u32, value: i64 },
    /// Allocate a stack slot of the given width; slots are numbered in
    /// order of allocation.
    Alloca { bits: u32, name: String, slot: usize },
    /// Load a value of the given width from a slot.
    Load { bits: u32, slot: usize, name: String },
    /// Store an operand into a slot.
    Store { slot: usize, value: Operand },
    /// Return an operand from the current function.
    Ret { value: Operand },
    /// Ask the backend to verify the last generated function.
    VerifyFunction { name: String },
}

/// The mathematical model of a backend call.
pub enum BackendOpModel {
    CreateModule { name: Seq<char> },
    AddFunction { name: Seq<char>, ret_bits: u32, param_bits: Seq<u32> },
    AppendBlock { label: Seq<char> },
    PositionAtEnd { label: Seq<char> },
    ConstInt { bits: u32, value: int },
    Alloca { bits: u32, name: Seq<char>, slot: usize },
    Load { bits: u32, slot: usize, name: Seq<char> },
    Store { slot: usize, value: OperandModel },
    Ret { value: OperandModel },
    VerifyFunction { name: Seq<char> },
}

impl DeepView for BackendOp {
    type V = BackendOpModel;

    open spec fn deep_view(&self) -> BackendOpModel {
        match self {
            BackendOp::CreateModule { name } => BackendOpModel::CreateModule { name: name@ },
            BackendOp::AddFunction { name, ret_bits, param_bits } => BackendOpModel::AddFunction {
                name: name@,
                ret_bits: *ret_bits,
                param_bits: param_bits.deep_view(),
            },
            BackendOp::AppendBlock { label } => BackendOpModel::AppendBlock { label: label@ },
            BackendOp::PositionAtEnd { label } => BackendOpModel::PositionAtEnd { label: label@ },
            BackendOp::ConstInt { bits, value } => BackendOpModel::ConstInt {
                bits: *bits,
                value: *value as int,
            },
            BackendOp::Alloca { bits, name, slot } => BackendOpModel::Alloca {
                bits: *bits,
                name: name@,
                slot: *slot,
            },
            BackendOp::Load { bits, slot, name } => BackendOpModel::Load {
                bits: *bits,
                slot: *slot,
                name: name@,
            },
            BackendOp::Store { slot, value } => BackendOpModel::Store {
                slot: *slot,
                value: value.deep_view(),
            },
            BackendOp::Ret { value } => BackendOpModel::Ret { value: value.deep_view() },
            BackendOp::VerifyFunction { name } => BackendOpModel::VerifyFunction { name: name@ },
        }
    }
}

/// A code-generation failure.
#[derive(Debug, PartialEq)]
pub enum CodeGenError {
    /// The backend could not allocate a stack slot.
    BackendAllocationFailed,
    /// The backend could not store a value.
    BackendStoreFailed,
    /// The backend could not load a value.
    BackendLoadFailed,
    /// An identifier was referenced that no `let` or parameter bound.
    UndefinedVariable(String),
    /// A generated function failed the backend's structural check.
    VerificationFailed(String),
    /// The native target machinery could not be initialized.
    TargetInitFailed,
    /// The host target could not be resolved.
    TargetResolutionFailed,
    /// The target machine could not be created.
    MachineCreationFailed,
    /// The object file could not be written.
    ObjectWriteFailed,
    /// The node kind has no rule for producing a value operand.
    UnsupportedValue,
}

/// The mathematical model of a code-generation failure.
pub enum CodeGenErrorModel {
    BackendAllocationFailed,
    BackendStoreFailed,
    BackendLoadFailed,
    UndefinedVariable(Seq<char>),
    VerificationFailed(Seq<char>),
    TargetInitFailed,
    TargetResolutionFailed,
    MachineCreationFailed,
    ObjectWriteFailed,
    UnsupportedValue,
}

impl View for CodeGenError {
    type V = CodeGenErrorModel;

    open spec fn view(&self) -> CodeGenErrorModel {
        match self {
            CodeGenError::BackendAllocationFailed => CodeGenErrorModel::BackendAllocationFailed,
            CodeGenError::BackendStoreFailed => CodeGenErrorModel::BackendStoreFailed,
            CodeGenError::BackendLoadFailed => CodeGenErrorModel::BackendLoadFailed,
            CodeGenError::UndefinedVariable(name) => CodeGenErrorModel::UndefinedVariable(name@),
            CodeGenError::VerificationFailed(name) => CodeGenErrorModel::VerificationFailed(name@),
            CodeGenError::TargetInitFailed => CodeGenErrorModel::TargetInitFailed,
            CodeGenError::TargetResolutionFailed => CodeGenErrorModel::TargetResolutionFailed,
            CodeGenError::MachineCreationFailed => CodeGenErrorModel::MachineCreationFailed,
            CodeGenError::ObjectWriteFailed => CodeGenErrorModel::ObjectWriteFailed,
            CodeGenError::UnsupportedValue => CodeGenErrorModel::UnsupportedValue,
        }
    }
}

/// The driver's state as generation proceeds: the backend calls made so
/// far, the name-to-slot map, the next free slot number, and whether
/// the block being built has a terminator, or holds instructions built
/// after one (`poisoned`).
#[verifier::ext_equal]
pub struct GenState {
    pub ops: Seq<BackendOpModel>,
    pub vars: Map<Seq<char>, usize>,
    pub next_slot: usize,
    pub terminated: bool,
    pub poisoned: bool,
}

/// The state of a freshly created driver: one module has been created
/// and nothing else.
pub open spec fn init_gen_state() -> GenState {
    GenState {
        ops: seq![BackendOpModel::CreateModule { name: "nova"@ }],
        vars: Map::empty(),
        next_slot: 0,
        terminated: false,
        poisoned: false,
    }
}

/// Whether a backend call builds an instruction into the current block.
pub open spec fn is_block_instr(op: BackendOpModel) -> bool {
    match op {
        BackendOpModel::Alloca { .. } => true,
        BackendOpModel::Load { .. } => true,
        BackendOpModel::Store { .. } => true,
        BackendOpModel::Ret { .. } => true,
        _ => false,
    }
}

/// The width of the stack slot allocated for an operand: a constant's
/// own width, but a loaded value always occupies its load width.
pub open spec fn spec_width_of(v: OperandModel) -> u32 {
    match v {
        OperandModel::ConstInt { bits, .. } => bits,
        OperandModel::Load { bits, .. } => bits,
        OperandModel::Arg { bits, .. } => bits,
    }
}

/// One backend call: appended to the trace, with the block-state flags
/// updated. A return terminates the block; positioning at a new block
/// starts it fresh; an instruction built after a terminator poisons the
/// block, which its function's verification will report.
pub open spec fn emit(st: GenState, op: BackendOpModel) -> GenState {
    GenState {
        ops: st.ops.push(op),
        vars: st.vars,
        next_slot: st.next_slot,
        terminated: match op {
            BackendOpModel::Ret { .. } => true,
            BackendOpModel::PositionAtEnd { .. } => false,
            _ => st.terminated,
        },
        poisoned: match op {
            BackendOpModel::PositionAtEnd { .. } => false,
            _ => st.poisoned || (st.terminated && is_block_instr(op)),
        },
    }
}

/// Computes the operand for an expression in value position: a 32-bit
/// constant for a number literal, a 64-bit load for an identifier bound
/// to a slot. An unbound identifier or any other node kind fails.
pub open spec fn spec_gen_value(st: GenState, a: Ast) -> Result<
    (GenState, OperandModel),
    CodeGenErrorModel,
> {
    match a {
        Ast::Number(n) => Ok((st, OperandModel::ConstInt { bits: 32, value: n })),
        Ast::Identifier(name) => {
            if st.vars.contains_key(name) {
                let slot = st.vars[name];
                let operand = OperandModel::Load { bits: 64, slot, name };
                Ok((emit(st, BackendOpModel::Load { bits: 64, slot, name }), operand))
            } else {
                Err(CodeGenErrorModel::UndefinedVariable(name))
            }
        },
        _ => Err(CodeGenErrorModel::UnsupportedValue),
    }
}

/// Generates one statement-position node, extending the state. Nodes
/// with no generation rule are accepted as no-ops.
pub open spec fn spec_gen(st: GenState, a: Ast) -> (GenState, Result<(), CodeGenErrorModel>)
    decreases a,
{
    match a {
        Ast::Program(nodes) => spec_gen_seq(st, nodes),
        Ast::Number(n) => (emit(st, BackendOpModel::ConstInt { bits: 64, value: n }), Ok(())),
        Ast::Let { name, type_annotation: _, value } => {
            match spec_gen_value(st, *value) {
                Ok((st1, operand)) => {
                    let slot = st1.next_slot;
                    let st2 = emit(
                        st1,
                        BackendOpModel::Alloca { bits: spec_width_of(operand), name, slot },
                    );
                    let st3 = emit(st2, BackendOpModel::Store { slot, value: operand });
                    let st4 = GenState {
                        vars: st3.vars.insert(name, slot),
                        next_slot: (st3.next_slot + 1) as usize,
                        ..st3
                    };
                    (st4, Ok(()))
                },
                Err(e) => (st, Err(e)),
            }
        },
        Ast::Function { name, params: _, body } => {
            let st1 = emit(
                st,
                BackendOpModel::AddFunction { name, ret_bits: 32, param_bits: Seq::empty() },
            );
            let st2 = emit(st1, BackendOpModel::AppendBlock { label: "entry"@ });
            let st3 = emit(st2, BackendOpModel::PositionAtEnd { label: "entry"@ });
            let (st4, r) = spec_gen(st3, *body);
            match r {
                Ok(_) => {
                    let st6 = if !st4.terminated {
                        let st5 = emit(st4, BackendOpModel::ConstInt { bits: 32, value: 0 });
                        emit(
                            st5,
                            BackendOpModel::Ret {
                                value: OperandModel::ConstInt { bits: 32, value: 0 },
                            },
                        )
                    } else {
                        st4
                    };
                    let st7 = emit(st6, BackendOpModel::VerifyFunction { name });
                    if st7.poisoned {
                        (st7, Err(CodeGenErrorModel::VerificationFailed(name)))
                    } else {
                        (st7, Ok(()))
                    }
                },
                Err(e) => (st4, Err(e)),
            }
        },
        Ast::Return(expr) => {
            match spec_gen_value(st, *expr) {
                Ok((st1, operand)) => (emit(st1, BackendOpModel::Ret { value: operand }), Ok(())),
                Err(e) => (st, Err(e)),
            }
        },
        _ => (st, Ok(())),
    }
}

/// Generates the children of a `Program` node in order, stopping at
/// the first failure.
pub open spec fn spec_gen_seq(st: GenState, nodes: Seq<Ast>) -> (GenState, Result<
    (),
    CodeGenErrorModel,
>)
    decreases nodes,
{
    if nodes.len() == 0 {
        (st, Ok(()))
    } else {
        proof {
            assert(decreases_to!(nodes => nodes[0]));
            assert(decreases_to!(nodes => nodes.subrange(1, nodes.len() as int)));
        }
        let (st1, r) = spec_gen(st, nodes[0]);
        match r {
            Ok(_) => spec_gen_seq(st1, nodes.subrange(1, nodes.len() as int)),
            Err(e) => (st1, Err(e)),
        }
    }
}

/// The backend calls that open a function with the given integer
/// parameter and return widths: the function and its entry block are
/// created, and each parameter is bound to a fresh stack slot.
pub open spec fn spec_create_function(
    st: GenState,
    name: Seq<char>,
    args: Seq<(Seq<char>, u32)>,
    ret_bits: u32,
) -> GenState {
    let st1 = emit(
        st,
        BackendOpModel::AddFunction {
            name,
            ret_bits,
            param_bits: Seq::new(args.len(), |k: int| args[k].1),
        },
    );
    let st2 = emit(st1, BackendOpModel::AppendBlock { label: "entry"@ });
    let st3 = emit(st2, BackendOpModel::PositionAtEnd { label: "entry"@ });
    spec_store_args(st3, args, 0)
}

/// Binds the parameters from index `i` on: for each, an allocation of
/// its width, a store of the parameter into the slot, and the
/// name-to-slot binding.
pub open spec fn spec_store_args(st: GenState, args: Seq<(Seq<char>, u32)>, i: int) -> GenState
    decreases args.len() - i,
{
    if i < 0 || i >= args.len() {
        st
    } else {
        let slot = st.next_slot;
        let st1 = emit(st, BackendOpModel::Alloca { bits: args[i].1, name: args[i].0, slot });
        let st2 = emit(
            st1,
            BackendOpModel::Store {
                slot,
                value: OperandModel::Arg { index: i as usize, bits: args[i].1 },
            },
        );
        let st3 = GenState {
            vars: st2.vars.insert(args[i].0, slot),
            next_slot: (st2.next_slot + 1) as usize,
            ..st2
        };
        spec_store_args(st3, args, i + 1)
    }
}

/// The width of the slot an operand occupies.
fn width_of(v: &Operand) -> (r: u32)
    ensures
        r == spec_width_of(v.deep_view()),
{
    match v {
        Operand::ConstInt { bits, .. } => *bits,
        Operand::Load { bits, .. } => *bits,
        Operand::Arg { bits, .. } => *bits,
    }
}

/// The code-generation driver. It accumulates the planned backend
/// calls, the variable-storage map from names to slots, and the state
/// of the block being built.
pub struct CodeGen {
    ops: Vec<BackendOp>,
    variables: Vec<(String, usize)>,
    next_slot: usize,
    terminated: bool,
    poisoned: bool,
}

impl CodeGen {
    /// The model of the driver's state.
    pub closed spec fn state(&self) -> GenState {
        GenState {
            ops: self.ops.deep_view(),
            vars: map_of(self.variables.deep_view()),
            next_slot: self.next_slot,
            terminated: self.terminated,
            poisoned: self.poisoned,
        }
    }

    /// Slots are numbered by allocations already in the trace.
    pub open spec fn wf(&self) -> bool {
        self.state().next_slot <= self.state().ops.len()
    }

    /// Creates a driver whose first planned call creates the module.
    pub fn new() -> (r: CodeGen)
        ensures
            r.state() == init_gen_state(),
            r.wf(),
    {
        let mut ops: Vec<BackendOp> = Vec::new();
        ops.push(BackendOp::CreateModule { name: "nova".to_owned() });
        let r = CodeGen {
            ops,
            variables: Vec::new(),
            next_slot: 0,
            terminated: false,
            poisoned: false,
        };
        proof {
            assert(r.state().ops =~= init_gen_state().ops);
            assert(r.variables.deep_view() =~= Seq::<(Seq<char>, usize)>::empty());
            assert(r.state().vars =~= init_gen_state().vars);
            assert(r.state() =~= init_gen_state());
        }
        r
    }

    /// The backend calls planned so far, in order.
    pub fn ops(&self) -> (r: &Vec<BackendOp>)
        ensures
            r.deep_view() == self.state().ops,
    {
        &self.ops
    }

    /// Appends one backend call, updating the block-state flags.
    fn emit_op(&mut self, op: BackendOp)
        ensures
            final(self).state() == emit(old(self).state(), op.deep_view()),
    {
        let is_instr = match &op {
            BackendOp::Alloca { .. } => true,
            BackendOp::Load { .. } => true,
            BackendOp::Store { .. } => true,
            BackendOp::Ret { .. } => true,
            _ => false,
        };
        if self.terminated && is_instr {
            self.poisoned = true;
        }
        match &op {
            BackendOp::Ret { .. } => {
                self.terminated = true;
            },
            BackendOp::PositionAtEnd { .. } => {
                self.terminated = false;
                self.poisoned = false;
            },
            _ => {},
        }
        let ghost ops_before = self.ops.deep_view();
        let ghost opdv = op.deep_view();
        self.ops.push(op);
        proof {
            assert(self.ops.deep_view() =~= ops_before.push(opdv));
            assert(self.state() =~= emit(old(self).state(), opdv));
        }
    }

    /// The slot bound to `name`, if any; the latest binding wins.
    fn lookup_variable(&self, name: &str) -> (r: Option<usize>)
        ensures
            match r {
                Some(slot) => self.state().vars.contains_key(name@) && self.state().vars[name@]
                    == slot,
                None => !self.state().vars.contains_key(name@),
            },
    {
        let key: String = name.to_owned();
        let ghost entries = self.variables.deep_view();
        let mut i: usize = self.variables.len();
        while i > 0
            invariant
                key@ == name@,
                i <= self.variables.len(),
                entries == self.variables.deep_view(),
                forall|j: int| i <= j < entries.len() ==> (#[trigger] entries[j]).0 != name@,
            decreases i,
        {
            i = i - 1;
            if self.variables[i].0 == key {
                proof {
                    crate::types::lemma_map_of_absent_suffix(entries, i + 1, name@);
                    let pre = entries.subrange(0, i as int + 1);
                    assert(pre.drop_last() =~= entries.subrange(0, i as int));
                    assert(pre.last() == entries[i as int]);
                }
                return Some(self.variables[i].1);
            }
        }
        proof {
            crate::types::lemma_map_of_absent_suffix(entries, 0, name@);
            assert(entries.subrange(0, 0) =~= Seq::<(Seq<char>, usize)>::empty());
        }
        None
    }

    /// Binds `name` to `slot`, overriding any earlier binding.
    fn bind_variable(&mut self, name: String, slot: usize)
        ensures
            final(self).state() == (GenState {
                vars: old(self).state().vars.insert(name@, slot),
                ..old(self).state()
            }),
    {
        let ghost entries = self.variables.deep_view();
        let ghost pair = (name@, slot);
        self.variables.push((name, slot));
        proof {
            assert(self.variables.deep_view() =~= entries.push(pair));
            lemma_map_of_push(entries, pair.0, pair.1);
            assert(self.state() =~= (GenState {
                vars: old(self).state().vars.insert(pair.0, slot),
                ..old(self).state()
            }));
        }
    }

    /// Emits the load of a variable and returns its operand, or fails
    /// with `UndefinedVariable` when no slot is bound to `name`.
    fn load_variable(&mut self, name: &str) -> (r: Result<Operand, CodeGenError>)
        ensures
            ({
                let res = spec_gen_value(old(self).state(), Ast::Identifier(name@));
                match r {
                    Ok(operand) => res matches Ok(p) && final(self).state() == p.0
                        && operand.deep_view() == p.1,
                    Err(e) => res matches Err(em) && e@ == em && final(self).state() == old(
                        self,
                    ).state(),
                }
            }),
    {
        match self.lookup_variable(name) {
            Some(slot) => {
                self.emit_op(BackendOp::Load { bits: 64, slot, name: name.to_owned() });
                Ok(Operand::Load { bits: 64, slot, name: name.to_owned() })
            },
            None => Err(CodeGenError::UndefinedVariable(name.to_owned())),
        }
    }

    /// Computes the operand for an expression in value position.
    fn generate_value(&mut self, expr: &AstNode) -> (r: Result<Operand, CodeGenError>)
        ensures
            ({
                let res = spec_gen_value(old(self).state(), expr.deep_view());
                match r {
                    Ok(operand) => res matches Ok(p) && final(self).state() == p.0
                        && operand.deep_view() == p.1,
                    Err(e) => res matches Err(em) && e@ == em && final(self).state() == old(
                        self,
                    ).state(),
                }
            }),
    {
        match expr {
            AstNode::Number(n) => Ok(Operand::ConstInt { bits: 32, value: *n }),
            AstNode::Identifier(name) => self.load_variable(name.as_str()),
            _ => Err(CodeGenError::UnsupportedValue),
        }
    }


    /// Opens a function whose parameters and return value are integers
    /// of the given widths and binds each parameter to a fresh stack
    /// slot, ready for statements to be generated into its entry block.
    pub fn create_function(&mut self, name: &str, args: &Vec<(String, u32)>, ret_bits: u32)
        requires
            old(self).wf(),
        ensures
            final(self).wf(),
            final(self).state() == spec_create_function(
                old(self).state(),
                name@,
                args.deep_view(),
                ret_bits,
            ),
    {
        let ghost args_dv = args.deep_view();
        let mut param_bits: Vec<u32> = Vec::new();
        let mut i: usize = 0;
        while i < args.len()
            invariant
                args_dv == args.deep_view(),
                i <= args.len(),
                param_bits@.len() == i,
                forall|j: int| 0 <= j < i ==> param_bits@[j] == args_dv[j].1,
            decreases args.len() - i,
        {
            param_bits.push(args[i].1);
            i = i + 1;
        }
        proof {
            assert(param_bits.deep_view() =~= Seq::new(args_dv.len(), |k: int| args_dv[k].1));
        }
        self.emit_op(BackendOp::AddFunction { name: name.to_owned(), ret_bits, param_bits });
        self.emit_op(BackendOp::AppendBlock { label: "entry".to_owned() });
        self.emit_op(BackendOp::PositionAtEnd { label: "entry".to_owned() });
        let ghost entered = self.state();
        let mut k: usize = 0;
        while k < args.len()
            invariant
                args_dv == args.deep_view(),
                k <= args.len(),
                self.wf(),
                spec_store_args(entered, args_dv, 0) == spec_store_args(
                    self.state(),
                    args_dv,
                    k as int,
                ),
            decreases args.len() - k,
        {
            let slot = self.next_slot;
            let bits = args[k].1;
            self.emit_op(BackendOp::Alloca { bits, name: args[k].0.clone(), slot });
            self.emit_op(BackendOp::Store { slot, value: Operand::Arg { index: k, bits } });
            self.bind_variable(args[k].0.clone(), slot);
            let _n = self.ops.len();
            proof {
                assert(self.state().ops.len() == self.ops@.len());
                assert(slot + 2 <= self.state().ops.len());
            }
            self.next_slot = slot + 1;
            k = k + 1;
        }
    }

    /// Plans the backend calls for a validated syntax tree.
    pub fn generate(&mut self, ast: &AstNode) -> (r: Result<(), CodeGenError>)
        requires
            old(self).wf(),
        ensures
            final(self).wf(),
            ({
                let (st2, res) = spec_gen(old(self).state(), ast.deep_view());
                final(self).state() == st2 && match r {
                    Ok(_) => res is Ok,
                    Err(e) => res matches Err(em) && e@ == em,
                }
            }),
    {
        self.generate_expression(ast)
    }

    /// Plans the backend calls for one statement-position node.
    fn generate_expression(&mut self, expr: &AstNode) -> (r: Result<(), CodeGenError>)
        requires
            old(self).wf(),
        ensures
            final(self).wf(),
            ({
                let (st2, res) = spec_gen(old(self).state(), expr.deep_view());
                final(self).state() == st2 && match r {
                    Ok(_) => res is Ok,
                    Err(e) => res matches Err(em) && e@ == em,
                }
            }),
        decreases expr,
    {
        match expr {
            AstNode::Program(nodes) => {
                let ghost target = spec_gen_seq(old(self).state(), deep_view_seq(nodes@));
                let mut i: usize = 0;
                proof {
                    assert(nodes@.subrange(0, nodes@.len() as int) =~= nodes@);
                }
                while i < nodes.len()
                    invariant
                        *expr is Program,
                        expr->Program_0 == *nodes,
                        i <= nodes.len(),
                        self.wf(),
                        target == spec_gen_seq(old(self).state(), deep_view_seq(nodes@)),
                        spec_gen_seq(
                            self.state(),
                            deep_view_seq(nodes@.subrange(i as int, nodes@.len() as int)),
                        ) == target,
                    decreases nodes.len() - i,
                {
                    let ghost rest = nodes@.subrange(i as int, nodes@.len() as int);
                    let ghost rest_dv = deep_view_seq(rest);
                    proof {
                        assert(decreases_to!(*expr => expr->Program_0));
                        assert(decreases_to!(expr->Program_0 => expr->Program_0@));
                        assert(decreases_to!(expr->Program_0@ => expr->Program_0@[i as int]));
                        crate::ast::lemma_deep_view_seq(rest);
                        assert(rest[0] == nodes@[i as int]);
                        assert(rest_dv[0] == nodes@[i as int].deep_view());
                    }
                    match self.generate_expression(&nodes[i]) {
                        Ok(_) => {},
                        Err(e) => {
                            return Err(e);
                        },
                    }
                    proof {
                        let sub2 = nodes@.subrange(i as int + 1, nodes@.len() as int);
                        assert(rest.subrange(1, rest.len() as int) =~= sub2);
                        crate::ast::lemma_deep_view_seq(rest.subrange(1, rest.len() as int));
                        assert(rest_dv.subrange(1, rest_dv.len() as int) =~= deep_view_seq(sub2));
                    }
                    i = i + 1;
                }
                proof {
                    assert(nodes@.subrange(i as int, nodes@.len() as int)
                        =~= Seq::<AstNode>::empty());
                }
                Ok(())
            },
            AstNode::Number(n) => {
                self.emit_op(BackendOp::ConstInt { bits: 64, value: *n });
                Ok(())
            },
            AstNode::Let { name, type_annotation: _, value } => {
                let operand = match self.generate_value(value) {
                    Ok(v) => v,
                    Err(e) => {
                        return Err(e);
                    },
                };
                let slot = self.next_slot;
                let bits = width_of(&operand);
                self.emit_op(BackendOp::Alloca { bits, name: name.clone(), slot });
                let ghost operand_dv = operand.deep_view();
                self.emit_op(BackendOp::Store { slot, value: operand });
                self.bind_variable(name.clone(), slot);
                let _n = self.ops.len();
                proof {
                    assert(self.state().ops.len() == self.ops@.len());
                    assert(slot + 2 <= self.state().ops.len());
                }
                self.next_slot = slot + 1;
                proof {
                    assert(self.state() =~= spec_gen(old(self).state(), expr.deep_view()).0);
                }
                Ok(())
            },
            AstNode::Function { name, params: _, body } => {
                let no_params: Vec<u32> = Vec::new();
                proof {
                    assert(no_params.deep_view() =~= Seq::<u32>::empty());
                }
                self.emit_op(
                    BackendOp::AddFunction { name: name.clone(), ret_bits: 32, param_bits: no_params },
                );
                self.emit_op(BackendOp::AppendBlock { label: "entry".to_owned() });
                self.emit_op(BackendOp::PositionAtEnd { label: "entry".to_owned() });
                match self.generate_expression(body) {
                    Ok(_) => {},
                    Err(e) => {
                        return Err(e);
                    },
                }
                if !self.terminated {
                    self.emit_op(BackendOp::ConstInt { bits: 32, value: 0 });
                    self.emit_op(
                        BackendOp::Ret { value: Operand::ConstInt { bits: 32, value: 0 } },
                    );
                }
                self.emit_op(BackendOp::VerifyFunction { name: name.clone() });
                if self.poisoned {
                    Err(CodeGenError::VerificationFailed(name.clone()))
                } else {
                    Ok(())
                }
            },
            AstNode::Return(inner) => {
                let operand = match self.generate_value(inner) {
                    Ok(v) => v,
                    Err(e) => {
                        return Err(e);
                    },
                };
                self.emit_op(BackendOp::Ret { value: operand });
                Ok(())
            },
            _ => Ok(()),
        }
    }
}

} // verus!
