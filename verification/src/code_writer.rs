//! The generator: consumes commands in order and appends target
//! instructions to its output, maintaining translation state across files.
//!
//! Scratch storage for arithmetic and for the call/return protocol lives in
//! the reserved registers above the segment pointers, strictly outside every
//! address the intermediate language can itself address; in particular the
//! visible `temp` block is never used as a scratch pad.

use vstd::prelude::*;

use crate::error::{err_is, ErrorKind, TranslateError};
use crate::instr::{code_of, program_text_of, AValue, Comp, Dest, Instr, Jump, SpecAValue,
    SpecInstr};
use crate::instr::instrs_to_text;
use crate::parser::is_arith_op;
use crate::text::{all_digits, dec_str, is_digit_char, lemma_dec_str_digits, lemma_dec_str_injective,
    lemma_dec_str_len, str_eq, u64_to_string};

verus! {

/// An address instruction on a symbol.
pub open spec fn at_sym(s: Seq<char>) -> SpecInstr {
    SpecInstr::A(SpecAValue::Sym(s))
}

/// An address instruction on a literal.
pub open spec fn at_num(n: nat) -> SpecInstr {
    SpecInstr::A(SpecAValue::Num(n))
}

/// A compute instruction with a destination and no jump.
pub open spec fn compute(d: Dest, c: Comp) -> SpecInstr {
    SpecInstr::C { dest: Some(d), comp: c, jump: None }
}

/// A compute instruction with a jump and no destination.
pub open spec fn branch(c: Comp, j: Jump) -> SpecInstr {
    SpecInstr::C { dest: None, comp: c, jump: Some(j) }
}

/// A label declaration.
pub open spec fn decl(s: Seq<char>) -> SpecInstr {
    SpecInstr::L(s)
}

/// Pushes the D register onto the operand stack and increments the stack
/// pointer.
pub open spec fn push_d() -> Seq<SpecInstr> {
    seq![
        at_sym("SP"@),
        compute(Dest::A, Comp::M),
        compute(Dest::M, Comp::D),
        at_sym("SP"@),
        compute(Dest::M, Comp::MPlusOne),
    ]
}

/// Decrements the stack pointer and loads the popped value into D.
pub open spec fn pop_to_d() -> Seq<SpecInstr> {
    seq![at_sym("SP"@), compute(Dest::AM, Comp::MMinusOne), compute(Dest::D, Comp::M)]
}

/// A jump-target symbol scoped by the enclosing function, so the same bare
/// label text used in two different functions never collides.
pub open spec fn scoped_label(func: Seq<char>, label: Seq<char>) -> Seq<char> {
    func + "$"@ + label
}

/// The return-address symbol of the `k`-th call site of `func`.
pub open spec fn ret_sym(func: Seq<char>, k: nat) -> Seq<char> {
    func + "$ret."@ + dec_str(k)
}

/// The storage symbol of `static idx` in the given module: two modules with
/// the same index never alias.
pub open spec fn static_sym(module: Seq<char>, idx: nat) -> Seq<char> {
    module + "."@ + dec_str(idx)
}

/// The true-branch target of the comparison at call site `id`.
pub open spec fn hit_label(id: Seq<char>) -> Seq<char> {
    "HIT_"@ + id
}

/// The fall-through target of the comparison at call site `id`.
pub open spec fn continue_label(id: Seq<char>) -> Seq<char> {
    "CONTINUE_"@ + id
}

/// The four indexed segments reached through a base-address register.
pub open spec fn is_indexed_seg(seg: Seq<char>) -> bool {
    ||| seg == "local"@
    ||| seg == "argument"@
    ||| seg == "this"@
    ||| seg == "that"@
}

/// Base-address register symbol of an indexed segment.
pub open spec fn seg_base_sym(seg: Seq<char>) -> Seq<char> {
    if seg == "local"@ {
        "LCL"@
    } else if seg == "argument"@ {
        "ARG"@
    } else if seg == "this"@ {
        "THIS"@
    } else {
        "THAT"@
    }
}

/// Segments a value can be popped into; constants are not addressable
/// storage.
pub open spec fn is_pop_seg(seg: Seq<char>) -> bool {
    ||| seg == "temp"@
    ||| seg == "pointer"@
    ||| seg == "static"@
    ||| is_indexed_seg(seg)
}

/// Segments a value can be pushed from.
pub open spec fn is_push_seg(seg: Seq<char>) -> bool {
    seg == "constant"@ || is_pop_seg(seg)
}

/// Pushes the literal `k`.
pub open spec fn push_const(k: nat) -> Seq<SpecInstr> {
    seq![at_num(k), compute(Dest::D, Comp::A)] + push_d()
}

/// Instructions of `push seg idx` emitted for a module.
pub open spec fn push_seq(seg: Seq<char>, idx: nat, module: Seq<char>) -> Seq<SpecInstr> {
    if seg == "constant"@ {
        push_const(idx)
    } else if seg == "temp"@ {
        seq![at_num(idx + 5), compute(Dest::D, Comp::M)] + push_d()
    } else if seg == "pointer"@ {
        seq![
            at_num(
                if idx == 0 {
                    3nat
                } else {
                    4nat
                },
            ),
            compute(Dest::D, Comp::M),
        ] + push_d()
    } else if seg == "static"@ {
        seq![at_sym(static_sym(module, idx)), compute(Dest::D, Comp::M)] + push_d()
    } else {
        seq![
            at_sym(seg_base_sym(seg)),
            compute(Dest::D, Comp::M),
            at_num(idx),
            compute(Dest::D, Comp::DPlusA),
            compute(Dest::A, Comp::D),
            compute(Dest::D, Comp::M),
        ] + push_d()
    }
}

/// Instructions of `pop seg idx` emitted for a module.
pub open spec fn pop_seq(seg: Seq<char>, idx: nat, module: Seq<char>) -> Seq<SpecInstr> {
    if seg == "temp"@ {
        seq![at_num(idx + 5), compute(Dest::D, Comp::A), at_sym("R13"@), compute(Dest::M, Comp::D)]
            + pop_to_d() + seq![
            at_sym("R13"@),
            compute(Dest::A, Comp::M),
            compute(Dest::M, Comp::D),
        ]
    } else if seg == "pointer"@ {
        pop_to_d() + seq![
            at_num(
                if idx == 0 {
                    3nat
                } else {
                    4nat
                },
            ),
            compute(Dest::M, Comp::D),
        ]
    } else if seg == "static"@ {
        pop_to_d() + seq![at_sym(static_sym(module, idx)), compute(Dest::M, Comp::D)]
    } else {
        seq![
            at_sym(seg_base_sym(seg)),
            compute(Dest::D, Comp::M),
            at_num(idx),
            compute(Dest::D, Comp::DPlusA),
            at_sym("R13"@),
            compute(Dest::M, Comp::D),
        ] + pop_to_d() + seq![
            at_sym("R13"@),
            compute(Dest::A, Comp::M),
            compute(Dest::M, Comp::D),
        ]
    }
}

/// A binary operator: pops operand B into scratch, pops operand A into D,
/// computes `A op B` and pushes it. Operand order is preserved exactly.
pub open spec fn binary_seq(c: Comp) -> Seq<SpecInstr> {
    pop_to_d() + seq![at_sym("R13"@), compute(Dest::M, Comp::D)] + pop_to_d() + seq![
        at_sym("R13"@),
        compute(Dest::D, c),
    ] + push_d()
}

/// A unary operator: pops one operand, applies `c` to it and pushes it.
pub open spec fn unary_seq(c: Comp) -> Seq<SpecInstr> {
    pop_to_d() + seq![compute(Dest::D, c)] + push_d()
}

/// A comparison: computes `A - B`, then pushes all-one-bits if the jump
/// condition holds of it and all-zero-bits otherwise, through the two branch
/// targets of call site `id`.
pub open spec fn compare_seq(j: Jump, id: Seq<char>) -> Seq<SpecInstr> {
    pop_to_d() + seq![at_sym("R13"@), compute(Dest::M, Comp::D)] + pop_to_d() + seq![
        at_sym("R13"@),
        compute(Dest::D, Comp::DMinusM),
        at_sym(hit_label(id)),
        branch(Comp::D, j),
        compute(Dest::D, Comp::Zero),
        at_sym(continue_label(id)),
        branch(Comp::Zero, Jump::JMP),
        decl(hit_label(id)),
        compute(Dest::D, Comp::NegOne),
        decl(continue_label(id)),
    ] + push_d()
}

/// Instructions of an arithmetic command at call site `id`.
pub open spec fn arith_seq(op: Seq<char>, id: Seq<char>) -> Seq<SpecInstr> {
    if op == "add"@ {
        binary_seq(Comp::DPlusM)
    } else if op == "sub"@ {
        binary_seq(Comp::DMinusM)
    } else if op == "and"@ {
        binary_seq(Comp::DAndM)
    } else if op == "or"@ {
        binary_seq(Comp::DOrM)
    } else if op == "neg"@ {
        unary_seq(Comp::NegD)
    } else if op == "not"@ {
        unary_seq(Comp::NotD)
    } else if op == "eq"@ {
        compare_seq(Jump::JEQ, id)
    } else if op == "gt"@ {
        compare_seq(Jump::JGT, id)
    } else if op == "lt"@ {
        compare_seq(Jump::JLT, id)
    } else {
        Seq::empty()
    }
}

/// `n` pushes of the constant 0, zero-initializing local slots.
pub open spec fn push_zeros(n: nat) -> Seq<SpecInstr>
    decreases n,
{
    if n == 0 {
        Seq::empty()
    } else {
        push_zeros((n - 1) as nat) + push_const(0)
    }
}

/// Instructions of `function name n_vars`: the global entry label followed
/// by local-slot initialization.
pub open spec fn function_seq(name: Seq<char>, n_vars: nat) -> Seq<SpecInstr> {
    seq![decl(name)] + push_zeros(n_vars)
}

/// Instructions of `goto` to an already scoped label.
pub open spec fn goto_seq(l: Seq<char>) -> Seq<SpecInstr> {
    seq![at_sym(l), branch(Comp::Zero, Jump::JMP)]
}

/// Instructions of `if-goto`: pops the top of stack and jumps if non-zero.
pub open spec fn if_seq(l: Seq<char>) -> Seq<SpecInstr> {
    pop_to_d() + seq![at_sym(l), branch(Comp::D, Jump::JNE)]
}

/// Instructions of `call name n_args` with return-address symbol `ret`:
/// pushes the return address and the caller's four segment registers,
/// repositions ARG and LCL, jumps, and declares the landing point.
pub open spec fn call_seq(fname: Seq<char>, n_args: nat, ret: Seq<char>) -> Seq<SpecInstr> {
    seq![at_sym(ret), compute(Dest::D, Comp::A)] + push_d() + seq![
        at_sym("LCL"@),
        compute(Dest::D, Comp::M),
    ] + push_d() + seq![at_sym("ARG"@), compute(Dest::D, Comp::M)] + push_d() + seq![
        at_sym("THIS"@),
        compute(Dest::D, Comp::M),
    ] + push_d() + seq![at_sym("THAT"@), compute(Dest::D, Comp::M)] + push_d() + seq![
        at_sym("SP"@),
        compute(Dest::D, Comp::M),
        at_num(5),
        compute(Dest::D, Comp::DMinusA),
        at_num(n_args),
        compute(Dest::D, Comp::DMinusA),
        at_sym("ARG"@),
        compute(Dest::M, Comp::D),
        at_sym("SP"@),
        compute(Dest::D, Comp::M),
        at_sym("LCL"@),
        compute(Dest::M, Comp::D),
        at_sym(fname),
        branch(Comp::Zero, Jump::JMP),
        decl(ret),
    ]
}

/// Instructions of `return`: recovers the return address from the frame,
/// places the result at the caller's new top of stack, repositions the stack
/// pointer, restores the caller's segment registers from the frame in order
/// THAT, THIS, ARG, LCL, and jumps back.
pub open spec fn return_seq() -> Seq<SpecInstr> {
    seq![
        at_sym("LCL"@),
        compute(Dest::D, Comp::M),
        at_sym("R13"@),
        compute(Dest::M, Comp::D),
        at_sym("R13"@),
        compute(Dest::D, Comp::M),
        at_num(5),
        compute(Dest::A, Comp::DMinusA),
        compute(Dest::D, Comp::M),
        at_sym("R14"@),
        compute(Dest::M, Comp::D),
        at_sym("SP"@),
        compute(Dest::AM, Comp::MMinusOne),
        compute(Dest::D, Comp::M),
        at_sym("ARG"@),
        compute(Dest::A, Comp::M),
        compute(Dest::M, Comp::D),
        at_sym("ARG"@),
        compute(Dest::D, Comp::MPlusOne),
        at_sym("SP"@),
        compute(Dest::M, Comp::D),
        at_sym("R13"@),
        compute(Dest::D, Comp::M),
        at_num(1),
        compute(Dest::A, Comp::DMinusA),
        compute(Dest::D, Comp::M),
        at_sym("THAT"@),
        compute(Dest::M, Comp::D),
        at_sym("R13"@),
        compute(Dest::D, Comp::M),
        at_num(2),
        compute(Dest::A, Comp::DMinusA),
        compute(Dest::D, Comp::M),
        at_sym("THIS"@),
        compute(Dest::M, Comp::D),
        at_sym("R13"@),
        compute(Dest::D, Comp::M),
        at_num(3),
        compute(Dest::A, Comp::DMinusA),
        compute(Dest::D, Comp::M),
        at_sym("ARG"@),
        compute(Dest::M, Comp::D),
        at_sym("R13"@),
        compute(Dest::D, Comp::M),
        at_num(4),
        compute(Dest::A, Comp::DMinusA),
        compute(Dest::D, Comp::M),
        at_sym("LCL"@),
        compute(Dest::M, Comp::D),
        at_sym("R14"@),
        compute(Dest::A, Comp::M),
        branch(Comp::Zero, Jump::JMP),
    ]
}

/// Instructions of the terminating halt loop.
pub open spec fn close_seq() -> Seq<SpecInstr> {
    seq![decl("END"@), at_sym("END"@), branch(Comp::Zero, Jump::JMP)]
}

/// The program bootstrap: initializes the stack pointer past the reserved
/// registers and calls the entry function with zero arguments.
pub open spec fn bootstrap_seq() -> Seq<SpecInstr> {
    seq![at_num(256), compute(Dest::D, Comp::A), at_sym("SP"@), compute(Dest::M, Comp::D)]
        + call_seq("Sys.init"@, 0, ret_sym("Bootstrap"@, 0))
}

/// The generator. Owns the structured output and the translation state:
/// current module, current function and call-site counter.
pub struct CodeWriter {
    pub out: Vec<Instr>,
    pub source_filename: Option<String>,
    pub current_function: Option<String>,
    /// Call sites seen in the current function, numbering return addresses.
    pub current_function_call_count: u32,
}

/// Holds when the translation state of `a` and `b` agree; the output may
/// differ.
pub open spec fn same_state(a: CodeWriter, b: CodeWriter) -> bool {
    &&& a.source_filename == b.source_filename
    &&& a.current_function == b.current_function
    &&& a.current_function_call_count == b.current_function_call_count
}

impl CodeWriter {
    /// The models of the instructions emitted so far.
    pub open spec fn code(self) -> Seq<SpecInstr> {
        code_of(self.out@)
    }

    /// Name of the current module; empty before `set_source_file`.
    pub open spec fn module_name(self) -> Seq<char> {
        match self.source_filename {
            Some(s) => s@,
            None => Seq::empty(),
        }
    }

    /// Name of the function whose body is being emitted; the synthetic
    /// bootstrap context before any user function is seen.
    pub open spec fn func_name(self) -> Seq<char> {
        match self.current_function {
            Some(f) => f@,
            None => Seq::empty(),
        }
    }

    fn emit(&mut self, ins: Instr)
        ensures
            final(self).code() == old(self).code().push(ins@),
            same_state(*old(self), *final(self)),
    {
        let ghost v = ins@;
        self.out.push(ins);
        proof {
            assert(self.code() =~= old(self).code().push(v));
        }
    }

    fn emit_at_sym(&mut self, s: &str)
        ensures
            final(self).code() == old(self).code().push(at_sym(s@)),
            same_state(*old(self), *final(self)),
    {
        self.emit(Instr::A(AValue::Sym(s.to_owned())));
    }

    fn emit_at_string(&mut self, s: String)
        ensures
            final(self).code() == old(self).code().push(at_sym(s@)),
            same_state(*old(self), *final(self)),
    {
        self.emit(Instr::A(AValue::Sym(s)));
    }

    fn emit_at_num(&mut self, n: u32)
        ensures
            final(self).code() == old(self).code().push(at_num(n as nat)),
            same_state(*old(self), *final(self)),
    {
        self.emit(Instr::A(AValue::Num(n)));
    }

    fn emit_c(&mut self, d: Dest, c: Comp)
        ensures
            final(self).code() == old(self).code().push(compute(d, c)),
            same_state(*old(self), *final(self)),
    {
        self.emit(Instr::C { dest: Some(d), comp: c, jump: None });
    }

    fn emit_b(&mut self, c: Comp, j: Jump)
        ensures
            final(self).code() == old(self).code().push(branch(c, j)),
            same_state(*old(self), *final(self)),
    {
        self.emit(Instr::C { dest: None, comp: c, jump: Some(j) });
    }

    fn emit_decl(&mut self, s: String)
        ensures
            final(self).code() == old(self).code().push(decl(s@)),
            same_state(*old(self), *final(self)),
    {
        self.emit(Instr::L(s));
    }

    fn emit_push_d(&mut self)
        ensures
            final(self).code() == old(self).code() + push_d(),
            same_state(*old(self), *final(self)),
    {
        self.emit_at_sym("SP");
        self.emit_c(Dest::A, Comp::M);
        self.emit_c(Dest::M, Comp::D);
        self.emit_at_sym("SP");
        self.emit_c(Dest::M, Comp::MPlusOne);
        proof {
            assert(self.code() =~= old(self).code() + push_d());
        }
    }

    fn emit_pop_to_d(&mut self)
        ensures
            final(self).code() == old(self).code() + pop_to_d(),
            same_state(*old(self), *final(self)),
    {
        self.emit_at_sym("SP");
        self.emit_c(Dest::AM, Comp::MMinusOne);
        self.emit_c(Dest::D, Comp::M);
        proof {
            assert(self.code() =~= old(self).code() + pop_to_d());
        }
    }

    /// Records the module that subsequent static references are scoped to.
    pub fn set_source_file(&mut self, source_file: &str)
        ensures
            final(self).code() == old(self).code(),
            final(self).current_function == old(self).current_function,
            final(self).current_function_call_count == old(
                self,
            ).current_function_call_count,
            match final(self).source_filename {
                Some(s) => s@ == source_file@,
                None => false,
            },
    {
        self.source_filename = Some(source_file.to_owned());
    }

    /// The current function's name as a string.
    fn current_func_string(&self) -> (r: String)
        ensures
            r@ == self.func_name(),
    {
        match &self.current_function {
            Some(f) => f.clone(),
            None => String::new(),
        }
    }

    /// Builds the jump-target symbol for `label`, scoped by the current
    /// function.
    fn gen_label(&self, label: &str) -> (r: String)
        ensures
            r@ == scoped_label(self.func_name(), label@),
    {
        let mut s = self.current_func_string();
        s.append("$");
        s.append(label);
        s
    }

    /// Emits a jump target scoped by the current function.
    pub fn write_label(&mut self, label: &str)
        ensures
            final(self).code() == old(self).code() + seq![
                decl(scoped_label(old(self).func_name(), label@)),
            ],
            same_state(*old(self), *final(self)),
    {
        let l = self.gen_label(label);
        self.emit_decl(l);
        proof {
            assert(self.code() =~= old(self).code() + seq![
                decl(scoped_label(old(self).func_name(), label@)),
            ]);
        }
    }

    /// Emits an unconditional jump to the scoped label.
    pub fn write_goto(&mut self, label: &str)
        ensures
            final(self).code() == old(self).code() + goto_seq(
                scoped_label(old(self).func_name(), label@),
            ),
            same_state(*old(self), *final(self)),
    {
        let l = self.gen_label(label);
        self.emit_at_string(l);
        self.emit_b(Comp::Zero, Jump::JMP);
        proof {
            assert(self.code() =~= old(self).code() + goto_seq(
                scoped_label(old(self).func_name(), label@),
            ));
        }
    }

    /// Base-address register of an indexed segment.
    fn seg_base_str(seg: &str) -> (r: &'static str)
        requires
            is_indexed_seg(seg@),
        ensures
            r@ == seg_base_sym(seg@),
    {
        if str_eq(seg, "local") {
            "LCL"
        } else if str_eq(seg, "argument") {
            "ARG"
        } else if str_eq(seg, "this") {
            "THIS"
        } else {
            "THAT"
        }
    }

    /// The storage symbol of `static idx`, scoped to the current module.
    fn static_symbol(&self, idx: u32) -> (r: String)
        requires
            self.source_filename is Some,
        ensures
            r@ == static_sym(self.module_name(), idx as nat),
    {
        match &self.source_filename {
            Some(m) => {
                let mut s = m.clone();
                s.append(".");
                let num = u64_to_string(idx as u64);
                s.append(num.as_str());
                s
            },
            None => {
                assert(false);
                String::new()
            },
        }
    }

    fn emit_push_const(&mut self, k: u32)
        ensures
            final(self).code() == old(self).code() + push_const(k as nat),
            same_state(*old(self), *final(self)),
    {
        self.emit_at_num(k);
        self.emit_c(Dest::D, Comp::A);
        self.emit_push_d();
        proof {
            assert(self.code() =~= old(self).code() + push_const(k as nat));
        }
    }

    fn write_push(&mut self, seg: &str, idx: u32) -> (r: Result<(), TranslateError>)
        requires
            idx <= 0x7fff_ffff,
            seg@ == "static"@ ==> old(self).source_filename is Some,
        ensures
            same_state(*old(self), *final(self)),
            if is_push_seg(seg@) {
                &&& r is Ok
                &&& final(self).code() == old(self).code() + push_seq(
                    seg@,
                    idx as nat,
                    old(self).module_name(),
                )
            } else {
                &&& err_is(r, ErrorKind::SyntaxError, seg@)
                &&& final(self).code() == old(self).code()
            },
    {
        let ghost want = push_seq(seg@, idx as nat, old(self).module_name());
        if str_eq(seg, "constant") {
            self.emit_push_const(idx);
            Ok(())
        } else if str_eq(seg, "temp") {
            self.emit_at_num(idx + 5);
            self.emit_c(Dest::D, Comp::M);
            self.emit_push_d();
            proof {
                assert(self.code() =~= old(self).code() + want);
            }
            Ok(())
        } else if str_eq(seg, "pointer") {
            let a: u32 = if idx == 0 {
                3
            } else {
                4
            };
            self.emit_at_num(a);
            self.emit_c(Dest::D, Comp::M);
            self.emit_push_d();
            proof {
                assert(self.code() =~= old(self).code() + want);
            }
            Ok(())
        } else if str_eq(seg, "static") {
            let sym = self.static_symbol(idx);
            self.emit_at_string(sym);
            self.emit_c(Dest::D, Comp::M);
            self.emit_push_d();
            proof {
                assert(self.code() =~= old(self).code() + want);
            }
            Ok(())
        } else if str_eq(seg, "local") || str_eq(seg, "argument") || str_eq(seg, "this") || str_eq(
            seg,
            "that",
        ) {
            let base = Self::seg_base_str(seg);
            self.emit_at_sym(base);
            self.emit_c(Dest::D, Comp::M);
            self.emit_at_num(idx);
            self.emit_c(Dest::D, Comp::DPlusA);
            self.emit_c(Dest::A, Comp::D);
            self.emit_c(Dest::D, Comp::M);
            self.emit_push_d();
            proof {
                assert(self.code() =~= old(self).code() + want);
            }
            Ok(())
        } else {
            Err(TranslateError { kind: ErrorKind::SyntaxError, text: seg.to_owned() })
        }
    }

    fn write_pop(&mut self, seg: &str, idx: u32) -> (r: Result<(), TranslateError>)
        requires
            idx <= 0x7fff_ffff,
            seg@ == "static"@ ==> old(self).source_filename is Some,
        ensures
            same_state(*old(self), *final(self)),
            if is_pop_seg(seg@) {
                &&& r is Ok
                &&& final(self).code() == old(self).code() + pop_seq(
                    seg@,
                    idx as nat,
                    old(self).module_name(),
                )
            } else {
                &&& err_is(r, ErrorKind::SyntaxError, seg@)
                &&& final(self).code() == old(self).code()
            },
    {
        let ghost want = pop_seq(seg@, idx as nat, old(self).module_name());
        if str_eq(seg, "temp") {
            self.emit_at_num(idx + 5);
            self.emit_c(Dest::D, Comp::A);
            self.emit_at_sym("R13");
            self.emit_c(Dest::M, Comp::D);
            self.emit_pop_to_d();
            self.emit_at_sym("R13");
            self.emit_c(Dest::A, Comp::M);
            self.emit_c(Dest::M, Comp::D);
            proof {
                assert(self.code() =~= old(self).code() + want);
            }
            Ok(())
        } else if str_eq(seg, "pointer") {
            self.emit_pop_to_d();
            let a: u32 = if idx == 0 {
                3
            } else {
                4
            };
            self.emit_at_num(a);
            self.emit_c(Dest::M, Comp::D);
            proof {
                assert(self.code() =~= old(self).code() + want);
            }
            Ok(())
        } else if str_eq(seg, "static") {
            self.emit_pop_to_d();
            let sym = self.static_symbol(idx);
            self.emit_at_string(sym);
            self.emit_c(Dest::M, Comp::D);
            proof {
                assert(self.code() =~= old(self).code() + want);
            }
            Ok(())
        } else if str_eq(seg, "local") || str_eq(seg, "argument") || str_eq(seg, "this") || str_eq(
            seg,
            "that",
        ) {
            let base = Self::seg_base_str(seg);
            self.emit_at_sym(base);
            self.emit_c(Dest::D, Comp::M);
            self.emit_at_num(idx);
            self.emit_c(Dest::D, Comp::DPlusA);
            self.emit_at_sym("R13");
            self.emit_c(Dest::M, Comp::D);
            self.emit_pop_to_d();
            self.emit_at_sym("R13");
            self.emit_c(Dest::A, Comp::M);
            self.emit_c(Dest::M, Comp::D);
            proof {
                assert(self.code() =~= old(self).code() + want);
            }
            Ok(())
        } else {
            Err(TranslateError { kind: ErrorKind::SyntaxError, text: seg.to_owned() })
        }
    }

    fn emit_binary(&mut self, c: Comp)
        ensures
            final(self).code() == old(self).code() + binary_seq(c),
            same_state(*old(self), *final(self)),
    {
        self.emit_pop_to_d();
        self.emit_at_sym("R13");
        self.emit_c(Dest::M, Comp::D);
        self.emit_pop_to_d();
        self.emit_at_sym("R13");
        self.emit_c(Dest::D, c);
        self.emit_push_d();
        proof {
            assert(self.code() =~= old(self).code() + binary_seq(c));
        }
    }

    fn emit_unary(&mut self, c: Comp)
        ensures
            final(self).code() == old(self).code() + unary_seq(c),
            same_state(*old(self), *final(self)),
    {
        self.emit_pop_to_d();
        self.emit_c(Dest::D, c);
        self.emit_push_d();
        proof {
            assert(self.code() =~= old(self).code() + unary_seq(c));
        }
    }

    fn emit_compare(&mut self, j: Jump, id: &str)
        ensures
            final(self).code() == old(self).code() + compare_seq(j, id@),
            same_state(*old(self), *final(self)),
    {
        let mut hit = String::from_str("HIT_");
        hit.append(id);
        let mut cont = String::from_str("CONTINUE_");
        cont.append(id);
        self.emit_pop_to_d();
        self.emit_at_sym("R13");
        self.emit_c(Dest::M, Comp::D);
        self.emit_pop_to_d();
        self.emit_at_sym("R13");
        self.emit_c(Dest::D, Comp::DMinusM);
        self.emit_at_string(hit.clone());
        self.emit_b(Comp::D, j);
        self.emit_c(Dest::D, Comp::Zero);
        self.emit_at_string(cont.clone());
        self.emit_b(Comp::Zero, Jump::JMP);
        self.emit_decl(hit);
        self.emit_c(Dest::D, Comp::NegOne);
        self.emit_decl(cont);
        self.emit_push_d();
        proof {
            assert(self.code() =~= old(self).code() + compare_seq(j, id@));
        }
    }

    /// Emits the instructions of an arithmetic command; `id` scopes the
    /// branch labels a comparison needs to this call site. An operator
    /// outside the recognized set is a fatal syntax error.
    pub fn write_arithmetic(&mut self, cmd: &str, id: &str) -> (r: Result<(), TranslateError>)
        ensures
            same_state(*old(self), *final(self)),
            if is_arith_op(cmd@) {
                &&& r is Ok
                &&& final(self).code() == old(self).code() + arith_seq(cmd@, id@)
            } else {
                &&& err_is(r, ErrorKind::SyntaxError, cmd@)
                &&& final(self).code() == old(self).code()
            },
    {
        if str_eq(cmd, "add") {
            self.emit_binary(Comp::DPlusM);
            Ok(())
        } else if str_eq(cmd, "sub") {
            self.emit_binary(Comp::DMinusM);
            Ok(())
        } else if str_eq(cmd, "and") {
            self.emit_binary(Comp::DAndM);
            Ok(())
        } else if str_eq(cmd, "or") {
            self.emit_binary(Comp::DOrM);
            Ok(())
        } else if str_eq(cmd, "neg") {
            self.emit_unary(Comp::NegD);
            Ok(())
        } else if str_eq(cmd, "not") {
            self.emit_unary(Comp::NotD);
            Ok(())
        } else if str_eq(cmd, "eq") {
            self.emit_compare(Jump::JEQ, id);
            Ok(())
        } else if str_eq(cmd, "gt") {
            self.emit_compare(Jump::JGT, id);
            Ok(())
        } else if str_eq(cmd, "lt") {
            self.emit_compare(Jump::JLT, id);
            Ok(())
        } else {
            Err(TranslateError { kind: ErrorKind::SyntaxError, text: cmd.to_owned() })
        }
    }

    /// Emits the instructions of a push or pop command. A segment outside
    /// the recognized set, and any pop from `constant`, is a fatal syntax
    /// error; a static reference requires the module to have been set.
    pub fn write_push_pop(&mut self, cmd: &str, arg1: &str, arg2: i32) -> (r: Result<
        (),
        TranslateError,
    >)
        requires
            arg2 >= 0,
            arg1@ == "static"@ ==> old(self).source_filename is Some,
        ensures
            same_state(*old(self), *final(self)),
            if cmd@ == "push"@ {
                if is_push_seg(arg1@) {
                    &&& r is Ok
                    &&& final(self).code() == old(self).code() + push_seq(
                        arg1@,
                        arg2 as nat,
                        old(self).module_name(),
                    )
                } else {
                    &&& err_is(r, ErrorKind::SyntaxError, arg1@)
                    &&& final(self).code() == old(self).code()
                }
            } else if cmd@ == "pop"@ {
                if is_pop_seg(arg1@) {
                    &&& r is Ok
                    &&& final(self).code() == old(self).code() + pop_seq(
                        arg1@,
                        arg2 as nat,
                        old(self).module_name(),
                    )
                } else {
                    &&& err_is(r, ErrorKind::SyntaxError, arg1@)
                    &&& final(self).code() == old(self).code()
                }
            } else {
                &&& err_is(r, ErrorKind::SyntaxError, cmd@)
                &&& final(self).code() == old(self).code()
            },
    {
        if str_eq(cmd, "push") {
            self.write_push(arg1, arg2 as u32)
        } else if str_eq(cmd, "pop") {
            self.write_pop(arg1, arg2 as u32)
        } else {
            Err(TranslateError { kind: ErrorKind::SyntaxError, text: cmd.to_owned() })
        }
    }

    /// Emits a pop of the top of stack and a jump to the scoped label if the
    /// popped value is non-zero.
    pub fn write_if(&mut self, label: &str)
        ensures
            final(self).code() == old(self).code() + if_seq(
                scoped_label(old(self).func_name(), label@),
            ),
            same_state(*old(self), *final(self)),
    {
        self.emit_pop_to_d();
        let l = self.gen_label(label);
        self.emit_at_string(l);
        self.emit_b(Comp::D, Jump::JNE);
        proof {
            assert(self.code() =~= old(self).code() + if_seq(
                scoped_label(old(self).func_name(), label@),
            ));
        }
    }

    /// Emits the global entry point of `function_name`, zero-initializes its
    /// `n_vars` local slots, resets the call-site counter, and makes it the
    /// current function.
    pub fn write_function(&mut self, function_name: &str, n_vars: u32)
        ensures
            final(self).code() == old(self).code() + function_seq(function_name@, n_vars as nat),
            final(self).source_filename == old(self).source_filename,
            match final(self).current_function {
                Some(f) => f@ == function_name@,
                None => false,
            },
            final(self).current_function_call_count == 0,
    {
        self.emit_decl(function_name.to_owned());
        proof {
            assert(self.code() =~= old(self).code() + seq![decl(function_name@)] + push_zeros(0));
        }
        let mut k: u32 = 0;
        while k < n_vars
            invariant
                k <= n_vars,
                self.code() == old(self).code() + seq![decl(function_name@)] + push_zeros(
                    k as nat,
                ),
                same_state(*old(self), *self),
            decreases n_vars - k,
        {
            self.emit_push_const(0);
            proof {
                assert(push_zeros((k + 1) as nat) == push_zeros(k as nat) + push_const(0));
                assert(old(self).code() + seq![decl(function_name@)] + push_zeros((k + 1) as nat)
                    =~= old(self).code() + seq![decl(function_name@)] + push_zeros(k as nat)
                    + push_const(0));
            }
            k = k + 1;
        }
        self.current_function_call_count = 0;
        self.current_function = Some(function_name.to_owned());
        proof {
            assert(self.code() =~= old(self).code() + function_seq(function_name@, n_vars as nat));
        }
    }

    /// Mints the return-address symbol of this call site and advances the
    /// call-site counter.
    fn gen_return_address(&mut self) -> (r: String)
        requires
            old(self).current_function_call_count < u32::MAX,
        ensures
            r@ == ret_sym(
                old(self).func_name(),
                old(self).current_function_call_count as nat,
            ),
            final(self).code() == old(self).code(),
            final(self).source_filename == old(self).source_filename,
            final(self).current_function == old(self).current_function,
            final(self).current_function_call_count == old(self).current_function_call_count
                + 1,
    {
        let mut s = self.current_func_string();
        s.append("$ret.");
        let num = u64_to_string(self.current_function_call_count as u64);
        s.append(num.as_str());
        self.current_function_call_count = self.current_function_call_count + 1;
        s
    }

    /// Emits the call protocol for `call function_name n_args`, minting a
    /// return-address label unique within the current function.
    pub fn write_call(&mut self, function_name: &str, n_args: u32)
        requires
            old(self).current_function_call_count < u32::MAX,
        ensures
            final(self).code() == old(self).code() + call_seq(
                function_name@,
                n_args as nat,
                ret_sym(old(self).func_name(), old(self).current_function_call_count as nat),
            ),
            final(self).source_filename == old(self).source_filename,
            final(self).current_function == old(self).current_function,
            final(self).current_function_call_count == old(self).current_function_call_count
                + 1,
    {
        let ghost ret = ret_sym(
            old(self).func_name(),
            old(self).current_function_call_count as nat,
        );
        let return_address = self.gen_return_address();
        self.emit_at_string(return_address.clone());
        self.emit_c(Dest::D, Comp::A);
        self.emit_push_d();
        self.emit_at_sym("LCL");
        self.emit_c(Dest::D, Comp::M);
        self.emit_push_d();
        self.emit_at_sym("ARG");
        self.emit_c(Dest::D, Comp::M);
        self.emit_push_d();
        self.emit_at_sym("THIS");
        self.emit_c(Dest::D, Comp::M);
        self.emit_push_d();
        self.emit_at_sym("THAT");
        self.emit_c(Dest::D, Comp::M);
        self.emit_push_d();
        self.emit_at_sym("SP");
        self.emit_c(Dest::D, Comp::M);
        self.emit_at_num(5);
        self.emit_c(Dest::D, Comp::DMinusA);
        self.emit_at_num(n_args);
        self.emit_c(Dest::D, Comp::DMinusA);
        self.emit_at_sym("ARG");
        self.emit_c(Dest::M, Comp::D);
        self.emit_at_sym("SP");
        self.emit_c(Dest::D, Comp::M);
        self.emit_at_sym("LCL");
        self.emit_c(Dest::M, Comp::D);
        self.emit_at_sym(function_name);
        self.emit_b(Comp::Zero, Jump::JMP);
        self.emit_decl(return_address);
        proof {
            assert(self.code() =~= old(self).code() + call_seq(
                function_name@,
                n_args as nat,
                ret,
            ));
        }
    }

    /// Emits the return protocol.
    #[verifier::rlimit(60)]
    pub fn write_return(&mut self)
        ensures
            final(self).code() == old(self).code() + return_seq(),
            same_state(*old(self), *final(self)),
    {
        self.emit_at_sym("LCL");
        self.emit_c(Dest::D, Comp::M);
        self.emit_at_sym("R13");
        self.emit_c(Dest::M, Comp::D);
        self.emit_at_sym("R13");
        self.emit_c(Dest::D, Comp::M);
        self.emit_at_num(5);
        self.emit_c(Dest::A, Comp::DMinusA);
        self.emit_c(Dest::D, Comp::M);
        self.emit_at_sym("R14");
        self.emit_c(Dest::M, Comp::D);
        self.emit_at_sym("SP");
        self.emit_c(Dest::AM, Comp::MMinusOne);
        self.emit_c(Dest::D, Comp::M);
        self.emit_at_sym("ARG");
        self.emit_c(Dest::A, Comp::M);
        self.emit_c(Dest::M, Comp::D);
        self.emit_at_sym("ARG");
        self.emit_c(Dest::D, Comp::MPlusOne);
        self.emit_at_sym("SP");
        self.emit_c(Dest::M, Comp::D);
        self.emit_at_sym("R13");
        self.emit_c(Dest::D, Comp::M);
        self.emit_at_num(1);
        self.emit_c(Dest::A, Comp::DMinusA);
        self.emit_c(Dest::D, Comp::M);
        self.emit_at_sym("THAT");
        self.emit_c(Dest::M, Comp::D);
        self.emit_at_sym("R13");
        self.emit_c(Dest::D, Comp::M);
        self.emit_at_num(2);
        self.emit_c(Dest::A, Comp::DMinusA);
        self.emit_c(Dest::D, Comp::M);
        self.emit_at_sym("THIS");
        self.emit_c(Dest::M, Comp::D);
        self.emit_at_sym("R13");
        self.emit_c(Dest::D, Comp::M);
        self.emit_at_num(3);
        self.emit_c(Dest::A, Comp::DMinusA);
        self.emit_c(Dest::D, Comp::M);
        self.emit_at_sym("ARG");
        self.emit_c(Dest::M, Comp::D);
        self.emit_at_sym("R13");
        self.emit_c(Dest::D, Comp::M);
        self.emit_at_num(4);
        self.emit_c(Dest::A, Comp::DMinusA);
        self.emit_c(Dest::D, Comp::M);
        self.emit_at_sym("LCL");
        self.emit_c(Dest::M, Comp::D);
        self.emit_at_sym("R14");
        self.emit_c(Dest::A, Comp::M);
        self.emit_b(Comp::Zero, Jump::JMP);
        proof {
            assert(self.code() =~= old(self).code() + return_seq());
        }
    }

    /// Appends the terminating halt loop, giving the program a defined
    /// halting state.
    pub fn close(&mut self)
        ensures
            final(self).code() == old(self).code() + close_seq(),
            same_state(*old(self), *final(self)),
    {
        self.emit_decl(String::from_str("END"));
        self.emit_at_sym("END");
        self.emit_b(Comp::Zero, Jump::JMP);
        proof {
            assert(self.code() =~= old(self).code() + close_seq());
        }
    }

    /// A fresh generator: emits the stack-pointer initialization and the
    /// call to the program's entry function.
    pub fn new() -> (w: CodeWriter)
        ensures
            w.code() == bootstrap_seq(),
            w.source_filename is None,
            match w.current_function {
                Some(f) => f@ == "Bootstrap"@,
                None => false,
            },
            w.current_function_call_count == 1,
    {
        let mut w = CodeWriter {
            out: Vec::new(),
            source_filename: None,
            current_function: Some(String::from_str("Bootstrap")),
            current_function_call_count: 0,
        };
        proof {
            assert(w.code() =~= Seq::<SpecInstr>::empty());
        }
        w.emit_at_num(256);
        w.emit_c(Dest::D, Comp::A);
        w.emit_at_sym("SP");
        w.emit_c(Dest::M, Comp::D);
        w.write_call("Sys.init", 0);
        proof {
            assert(w.code() =~= bootstrap_seq());
        }
        w
    }

    /// The instructions emitted so far.
    pub fn instructions(&self) -> (r: &Vec<Instr>)
        ensures
            code_of(r@) == self.code(),
    {
        &self.out
    }

    /// The emitted program as assembly text, one instruction per line.
    pub fn output_text(&self) -> (r: String)
        ensures
            r@ == program_text_of(self.code()),
    {
        instrs_to_text(&self.out)
    }
}

proof fn lemma_cancel_prefix(a: Seq<char>, x: Seq<char>, y: Seq<char>)
    requires
        a + x == a + y,
    ensures
        x == y,
{
    assert((a + x).len() == a.len() + x.len());
    assert((a + y).len() == a.len() + y.len());
    assert(x.len() == y.len());
    assert forall|i: int| 0 <= i < x.len() implies x[i] == y[i] by {
        assert((a + x)[a.len() + i] == x[i]);
        assert((a + y)[a.len() + i] == y[i]);
    }
    assert(x =~= y);
}

/// A symbol of the form `prefix + "." + digits` decomposes uniquely: the
/// digits hold no dot, so the last dot separates.
proof fn lemma_dotted_suffix_unique(m1: Seq<char>, d1: Seq<char>, m2: Seq<char>, d2: Seq<char>)
    requires
        m1 + "."@ + d1 == m2 + "."@ + d2,
        d1.len() >= 1,
        d2.len() >= 1,
        all_digits(d1),
        all_digits(d2),
    ensures
        m1 == m2,
        d1 == d2,
{
    reveal_strlit(".");
    let s = m1 + "."@ + d1;
    assert(s.len() == m1.len() + 1 + d1.len());
    assert(s.len() == m2.len() + 1 + d2.len());
    if d1.len() == d2.len() {
        assert(m1.len() == m2.len());
        assert forall|i: int| 0 <= i < d1.len() implies d1[i] == d2[i] by {
            assert(s[m1.len() + 1 + i] == d1[i]);
            assert((m2 + "."@ + d2)[m2.len() + 1 + i] == d2[i]);
        }
        assert(d1 =~= d2);
        assert forall|i: int| 0 <= i < m1.len() implies m1[i] == m2[i] by {
            assert(s[i] == m1[i]);
            assert((m2 + "."@ + d2)[i] == m2[i]);
        }
        assert(m1 =~= m2);
    } else if d1.len() < d2.len() {
        let p = s.len() - d1.len() - 1;
        assert(s[p] == "."@[0]);
        assert(p - m2.len() - 1 >= 0);
        assert((m2 + "."@ + d2)[p] == d2[p - m2.len() - 1]);
        assert(is_digit_char(d2[p - m2.len() - 1]));
        assert('.' as u32 == 46);
        assert(false);
    } else {
        let p = s.len() - d2.len() - 1;
        assert((m2 + "."@ + d2)[p] == "."@[0]);
        assert(p - m1.len() - 1 >= 0);
        assert(s[p] == d1[p - m1.len() - 1]);
        assert(is_digit_char(d1[p - m1.len() - 1]));
        assert(false);
    }
}

/// Static symbols are module-scoped: `static` references from two different
/// modules never alias the same storage symbol, whatever their indices.
pub proof fn lemma_static_symbols_module_scoped(m1: Seq<char>, i1: nat, m2: Seq<char>, i2: nat)
    requires
        m1 != m2,
    ensures
        static_sym(m1, i1) != static_sym(m2, i2),
{
    if static_sym(m1, i1) == static_sym(m2, i2) {
        lemma_dec_str_len(i1);
        lemma_dec_str_len(i2);
        lemma_dec_str_digits(i1);
        lemma_dec_str_digits(i2);
        lemma_dotted_suffix_unique(m1, dec_str(i1), m2, dec_str(i2));
    }
}

/// Within one module, distinct static indices get distinct storage symbols.
pub proof fn lemma_static_symbols_index_distinct(m: Seq<char>, i1: nat, i2: nat)
    requires
        i1 != i2,
    ensures
        static_sym(m, i1) != static_sym(m, i2),
{
    if static_sym(m, i1) == static_sym(m, i2) {
        lemma_cancel_prefix(m + "."@, dec_str(i1), dec_str(i2));
        lemma_dec_str_injective(i1, i2);
    }
}

/// Two comparison call sites never share a branch label: both the
/// true-branch and fall-through targets differ between distinct call-site
/// ids, and a true-branch target never equals a fall-through target at all.
pub proof fn lemma_branch_labels_distinct(id1: Seq<char>, id2: Seq<char>)
    requires
        id1 != id2,
    ensures
        hit_label(id1) != hit_label(id2),
        continue_label(id1) != continue_label(id2),
        hit_label(id1) != continue_label(id2),
{
    if hit_label(id1) == hit_label(id2) {
        lemma_cancel_prefix("HIT_"@, id1, id2);
    }
    if continue_label(id1) == continue_label(id2) {
        lemma_cancel_prefix("CONTINUE_"@, id1, id2);
    }
    lemma_hit_continue_differ(id1, id2);
}

/// A true-branch target is never a fall-through target, even across call
/// sites.
pub proof fn lemma_hit_continue_differ(id1: Seq<char>, id2: Seq<char>)
    ensures
        hit_label(id1) != continue_label(id2),
{
    reveal_strlit("HIT_");
    reveal_strlit("CONTINUE_");
    if hit_label(id1) == continue_label(id2) {
        assert(hit_label(id1)[0] == 'H');
        assert(continue_label(id2)[0] == 'C');
    }
}

} // verus!
