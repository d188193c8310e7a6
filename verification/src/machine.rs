//! A model of the target machine, as far as the translated code's
//! correctness depends on it: the two registers, the shared address space,
//! and the effect of one instruction. Straight-line instruction sequences
//! are executed by a fold, which is enough to state what the push/pop and
//! call/return protocols do to memory.
//!
//! Words are 16-bit two's-complement values; sums and differences of two
//! words wrap by one period at most, which `wrap16` captures exactly.

use vstd::prelude::*;

use crate::code_writer::{arith_seq, branch, call_seq, is_indexed_seg, is_pop_seg, pop_seq,
    push_seq, return_seq, static_sym};
use crate::instr::{Comp, Dest, Jump, SpecAValue, SpecInstr};

verus! {

/// One period of wrapping, exact for any sum or difference of two words.
pub open spec fn wrap16(x: int) -> int {
    if x < -0x8000 {
        x + 0x10000
    } else if x > 0x7fff {
        x - 0x10000
    } else {
        x
    }
}

/// Bit pattern of a word value.
pub open spec fn word_bits(x: int) -> u16 {
    (if x < 0 {
        x + 0x10000
    } else {
        x
    }) as u16
}

/// Word value of a bit pattern.
pub open spec fn from_bits(w: u16) -> int {
    if w >= 0x8000 {
        w - 0x10000
    } else {
        w as int
    }
}

/// Machine state: address register, data register, and the address space.
pub struct MachineState {
    pub a: int,
    pub d: int,
    pub mem: Map<int, int>,
}

/// Value an instruction's computation part denotes in state `s`.
pub open spec fn eval_comp(c: Comp, s: MachineState) -> int {
    match c {
        Comp::Zero => 0,
        Comp::NegOne => -1,
        Comp::D => s.d,
        Comp::A => s.a,
        Comp::M => s.mem[s.a],
        Comp::NotD => wrap16(-s.d - 1),
        Comp::NotM => wrap16(-s.mem[s.a] - 1),
        Comp::NegD => wrap16(-s.d),
        Comp::NegM => wrap16(-s.mem[s.a]),
        Comp::APlusOne => wrap16(s.a + 1),
        Comp::MPlusOne => wrap16(s.mem[s.a] + 1),
        Comp::MMinusOne => wrap16(s.mem[s.a] - 1),
        Comp::DPlusM => wrap16(s.d + s.mem[s.a]),
        Comp::DMinusM => wrap16(s.d - s.mem[s.a]),
        Comp::DPlusA => wrap16(s.d + s.a),
        Comp::DMinusA => wrap16(s.d - s.a),
        Comp::DAndM => from_bits(word_bits(s.d) & word_bits(s.mem[s.a])),
        Comp::DOrM => from_bits(word_bits(s.d) | word_bits(s.mem[s.a])),
    }
}

/// Stores a computed value into the named destinations; a store to M uses
/// the address register's value from before the same instruction.
pub open spec fn apply_dest(dst: Option<Dest>, v: int, s: MachineState) -> MachineState {
    match dst {
        None => s,
        Some(Dest::M) => MachineState { a: s.a, d: s.d, mem: s.mem.insert(s.a, v) },
        Some(Dest::D) => MachineState { a: s.a, d: v, mem: s.mem },
        Some(Dest::A) => MachineState { a: v, d: s.d, mem: s.mem },
        Some(Dest::AM) => MachineState { a: v, d: s.d, mem: s.mem.insert(s.a, v) },
    }
}

/// Effect of one instruction on the state, under an assignment `env` of
/// symbols to addresses. A jump never changes the state, and a label
/// declaration occupies no cell, so a straight-line fold over this function
/// describes any execution that runs a sequence from start to end.
pub open spec fn step_ins(s: MachineState, i: SpecInstr, env: Map<Seq<char>, int>) -> MachineState {
    match i {
        SpecInstr::A(SpecAValue::Num(n)) => MachineState {
            a: if n < 0x8000 {
                n as int
            } else {
                (n % 0x8000) as int
            },
            d: s.d,
            mem: s.mem,
        },
        SpecInstr::A(SpecAValue::Sym(v)) => MachineState { a: env[v], d: s.d, mem: s.mem },
        SpecInstr::C { dest, comp, jump } => apply_dest(dest, eval_comp(comp, s), s),
        SpecInstr::L(_) => s,
    }
}

pub open spec fn run_from(
    s: MachineState,
    code: Seq<SpecInstr>,
    i: int,
    env: Map<Seq<char>, int>,
) -> MachineState
    decreases code.len() - i,
    when 0 <= i <= code.len()
{
    if i >= code.len() {
        s
    } else {
        run_from(step_ins(s, code[i], env), code, i + 1, env)
    }
}

/// Runs a straight-line sequence from start to end.
pub open spec fn run_line(
    s: MachineState,
    code: Seq<SpecInstr>,
    env: Map<Seq<char>, int>,
) -> MachineState {
    run_from(s, code, 0, env)
}

/// The fixed addresses of the control registers: the stack pointer, the
/// four segment-base registers, and the two protocol scratch registers.
pub open spec fn env_regs(env: Map<Seq<char>, int>) -> bool {
    &&& env["SP"@] == 0
    &&& env["LCL"@] == 1
    &&& env["ARG"@] == 2
    &&& env["THIS"@] == 3
    &&& env["THAT"@] == 4
    &&& env["R13"@] == 13
    &&& env["R14"@] == 14
}

/// Address of an indexed segment's base register.
pub open spec fn seg_base_addr(seg: Seq<char>) -> int {
    if seg == "local"@ {
        1
    } else if seg == "argument"@ {
        2
    } else if seg == "this"@ {
        3
    } else {
        4
    }
}

/// The storage cell that `seg i` denotes in state `s` under `env`.
pub open spec fn pop_target_addr(
    seg: Seq<char>,
    i: nat,
    m: Seq<char>,
    s: MachineState,
    env: Map<Seq<char>, int>,
) -> int {
    if seg == "temp"@ {
        5 + i as int
    } else if seg == "pointer"@ {
        if i == 0 {
            3
        } else {
            4
        }
    } else if seg == "static"@ {
        env[static_sym(m, i)]
    } else {
        s.mem[seg_base_addr(seg)] + i as int
    }
}

/// Sane bounds under which `pop seg i` addresses real storage: indices in
/// the segment's range, static symbols placed in the variable area, and
/// indexed cells inside the address space.
pub open spec fn pop_target_ok(
    seg: Seq<char>,
    i: nat,
    m: Seq<char>,
    s: MachineState,
    env: Map<Seq<char>, int>,
) -> bool {
    &&& (seg == "temp"@ ==> i <= 7)
    &&& (seg == "pointer"@ ==> i <= 1)
    &&& (seg == "static"@ ==> 16 <= env[static_sym(m, i)] <= 0x7fff)
    &&& (is_indexed_seg(seg) ==> i <= 0x7fff && 16 <= s.mem[seg_base_addr(seg)] + i <= 0x7fff)
}


/// Makes the segment keywords' contents available, so that the branches of
/// `pop_seq` and `seg_base_sym` can be told apart.
proof fn reveal_segment_keywords()
    ensures
        "temp"@ != "pointer"@,
        "temp"@ != "static"@,
        "pointer"@ != "static"@,
        forall|seg: Seq<char>|
            is_indexed_seg(seg) ==> seg != "temp"@ && seg != "pointer"@ && seg != "static"@
                && seg != "constant"@,
{
    reveal_strlit("constant");
    reveal_strlit("temp");
    reveal_strlit("pointer");
    reveal_strlit("static");
    reveal_strlit("local");
    reveal_strlit("argument");
    reveal_strlit("this");
    reveal_strlit("that");
    assert("temp"@.len() == 4);
    assert("pointer"@.len() == 7);
    assert("static"@.len() == 6);
    assert("constant"@.len() == 8);
    assert("local"@.len() == 5);
    assert("argument"@.len() == 8);
    assert("this"@.len() == 4);
    assert("that"@.len() == 4);
    assert forall|seg: Seq<char>|
        is_indexed_seg(seg) implies seg != "temp"@ && seg != "pointer"@ && seg != "static"@ && seg
        != "constant"@ by {
        assert("local"@[0] == 'l');
        assert("argument"@[0] == 'a');
        assert("this"@[1] == 'h');
        assert("that"@[1] == 'h');
        assert("temp"@[1] == 'e');
        assert("pointer"@[0] == 'p');
        assert("static"@[0] == 's');
        assert("constant"@[0] == 'c');
    }
}

proof fn lemma_pcp_temp(s: MachineState, env: Map<Seq<char>, int>, seg: Seq<char>, k: nat, i: nat, m: Seq<char>)
    requires
        env_regs(env),
        k <= 0x7fff,
        16 <= s.mem[0] <= 0x7ffe,
        pop_target_ok(seg, i, m, s, env),
        seg == "temp"@,
    ensures
        ({
            let t = run_line(s, push_seq("constant"@, k, m) + pop_seq(seg, i, m), env);
            &&& t.mem[pop_target_addr(seg, i, m, s, env)] == k
            &&& t.mem[0] == s.mem[0]
        }),
{
    let c = push_seq("constant"@, k, m) + pop_seq(seg, i, m);
    assert(c.len() == 17);
    let s0 = s;
    let s1 = step_ins(s0, c[0], env);
    let s2 = step_ins(s1, c[1], env);
    let s3 = step_ins(s2, c[2], env);
    let s4 = step_ins(s3, c[3], env);
    let s5 = step_ins(s4, c[4], env);
    let s6 = step_ins(s5, c[5], env);
    let s7 = step_ins(s6, c[6], env);
    let s8 = step_ins(s7, c[7], env);
    let s9 = step_ins(s8, c[8], env);
    let s10 = step_ins(s9, c[9], env);
    let s11 = step_ins(s10, c[10], env);
    let s12 = step_ins(s11, c[11], env);
    let s13 = step_ins(s12, c[12], env);
    let s14 = step_ins(s13, c[13], env);
    let s15 = step_ins(s14, c[14], env);
    let s16 = step_ins(s15, c[15], env);
    let s17 = step_ins(s16, c[16], env);
    assert(run_from(s0, c, 0, env) == run_from(s1, c, 1, env));
    assert(run_from(s1, c, 1, env) == run_from(s2, c, 2, env));
    assert(run_from(s2, c, 2, env) == run_from(s3, c, 3, env));
    assert(run_from(s3, c, 3, env) == run_from(s4, c, 4, env));
    assert(run_from(s4, c, 4, env) == run_from(s5, c, 5, env));
    assert(run_from(s5, c, 5, env) == run_from(s6, c, 6, env));
    assert(run_from(s6, c, 6, env) == run_from(s7, c, 7, env));
    assert(run_from(s7, c, 7, env) == run_from(s8, c, 8, env));
    assert(run_from(s8, c, 8, env) == run_from(s9, c, 9, env));
    assert(run_from(s9, c, 9, env) == run_from(s10, c, 10, env));
    assert(run_from(s10, c, 10, env) == run_from(s11, c, 11, env));
    assert(run_from(s11, c, 11, env) == run_from(s12, c, 12, env));
    assert(run_from(s12, c, 12, env) == run_from(s13, c, 13, env));
    assert(run_from(s13, c, 13, env) == run_from(s14, c, 14, env));
    assert(run_from(s14, c, 14, env) == run_from(s15, c, 15, env));
    assert(run_from(s15, c, 15, env) == run_from(s16, c, 16, env));
    assert(run_from(s16, c, 16, env) == run_from(s17, c, 17, env));
    assert(run_from(s17, c, 17, env) == s17);
    assert(run_line(s, c, env) == s17);
}

proof fn lemma_pcp_pointer(s: MachineState, env: Map<Seq<char>, int>, seg: Seq<char>, k: nat, i: nat, m: Seq<char>)
    requires
        env_regs(env),
        k <= 0x7fff,
        16 <= s.mem[0] <= 0x7ffe,
        pop_target_ok(seg, i, m, s, env),
        seg == "pointer"@,
    ensures
        ({
            let t = run_line(s, push_seq("constant"@, k, m) + pop_seq(seg, i, m), env);
            &&& t.mem[pop_target_addr(seg, i, m, s, env)] == k
            &&& t.mem[0] == s.mem[0]
        }),
{
    reveal_segment_keywords();
    let c = push_seq("constant"@, k, m) + pop_seq(seg, i, m);
    assert(c.len() == 12);
    let s0 = s;
    let s1 = step_ins(s0, c[0], env);
    let s2 = step_ins(s1, c[1], env);
    let s3 = step_ins(s2, c[2], env);
    let s4 = step_ins(s3, c[3], env);
    let s5 = step_ins(s4, c[4], env);
    let s6 = step_ins(s5, c[5], env);
    let s7 = step_ins(s6, c[6], env);
    let s8 = step_ins(s7, c[7], env);
    let s9 = step_ins(s8, c[8], env);
    let s10 = step_ins(s9, c[9], env);
    let s11 = step_ins(s10, c[10], env);
    let s12 = step_ins(s11, c[11], env);
    assert(run_from(s0, c, 0, env) == run_from(s1, c, 1, env));
    assert(run_from(s1, c, 1, env) == run_from(s2, c, 2, env));
    assert(run_from(s2, c, 2, env) == run_from(s3, c, 3, env));
    assert(run_from(s3, c, 3, env) == run_from(s4, c, 4, env));
    assert(run_from(s4, c, 4, env) == run_from(s5, c, 5, env));
    assert(run_from(s5, c, 5, env) == run_from(s6, c, 6, env));
    assert(run_from(s6, c, 6, env) == run_from(s7, c, 7, env));
    assert(run_from(s7, c, 7, env) == run_from(s8, c, 8, env));
    assert(run_from(s8, c, 8, env) == run_from(s9, c, 9, env));
    assert(run_from(s9, c, 9, env) == run_from(s10, c, 10, env));
    assert(run_from(s10, c, 10, env) == run_from(s11, c, 11, env));
    assert(run_from(s11, c, 11, env) == run_from(s12, c, 12, env));
    assert(run_from(s12, c, 12, env) == s12);
    assert(run_line(s, c, env) == s12);
}

proof fn lemma_pcp_static(s: MachineState, env: Map<Seq<char>, int>, seg: Seq<char>, k: nat, i: nat, m: Seq<char>)
    requires
        env_regs(env),
        k <= 0x7fff,
        16 <= s.mem[0] <= 0x7ffe,
        pop_target_ok(seg, i, m, s, env),
        seg == "static"@,
    ensures
        ({
            let t = run_line(s, push_seq("constant"@, k, m) + pop_seq(seg, i, m), env);
            &&& t.mem[pop_target_addr(seg, i, m, s, env)] == k
            &&& t.mem[0] == s.mem[0]
        }),
{
    reveal_segment_keywords();
    let c = push_seq("constant"@, k, m) + pop_seq(seg, i, m);
    assert(c.len() == 12);
    let s0 = s;
    let s1 = step_ins(s0, c[0], env);
    let s2 = step_ins(s1, c[1], env);
    let s3 = step_ins(s2, c[2], env);
    let s4 = step_ins(s3, c[3], env);
    let s5 = step_ins(s4, c[4], env);
    let s6 = step_ins(s5, c[5], env);
    let s7 = step_ins(s6, c[6], env);
    let s8 = step_ins(s7, c[7], env);
    let s9 = step_ins(s8, c[8], env);
    let s10 = step_ins(s9, c[9], env);
    let s11 = step_ins(s10, c[10], env);
    let s12 = step_ins(s11, c[11], env);
    assert(run_from(s0, c, 0, env) == run_from(s1, c, 1, env));
    assert(run_from(s1, c, 1, env) == run_from(s2, c, 2, env));
    assert(run_from(s2, c, 2, env) == run_from(s3, c, 3, env));
    assert(run_from(s3, c, 3, env) == run_from(s4, c, 4, env));
    assert(run_from(s4, c, 4, env) == run_from(s5, c, 5, env));
    assert(run_from(s5, c, 5, env) == run_from(s6, c, 6, env));
    assert(run_from(s6, c, 6, env) == run_from(s7, c, 7, env));
    assert(run_from(s7, c, 7, env) == run_from(s8, c, 8, env));
    assert(run_from(s8, c, 8, env) == run_from(s9, c, 9, env));
    assert(run_from(s9, c, 9, env) == run_from(s10, c, 10, env));
    assert(run_from(s10, c, 10, env) == run_from(s11, c, 11, env));
    assert(run_from(s11, c, 11, env) == run_from(s12, c, 12, env));
    assert(run_from(s12, c, 12, env) == s12);
    assert(run_line(s, c, env) == s12);
}

proof fn lemma_pcp_indexed(s: MachineState, env: Map<Seq<char>, int>, seg: Seq<char>, k: nat, i: nat, m: Seq<char>)
    requires
        env_regs(env),
        k <= 0x7fff,
        16 <= s.mem[0] <= 0x7ffe,
        pop_target_ok(seg, i, m, s, env),
        is_indexed_seg(seg),
    ensures
        ({
            let t = run_line(s, push_seq("constant"@, k, m) + pop_seq(seg, i, m), env);
            &&& t.mem[pop_target_addr(seg, i, m, s, env)] == k
            &&& t.mem[0] == s.mem[0]
        }),
{
    reveal_segment_keywords();
    let c = push_seq("constant"@, k, m) + pop_seq(seg, i, m);
    assert(c.len() == 19);
    let s0 = s;
    let s1 = step_ins(s0, c[0], env);
    let s2 = step_ins(s1, c[1], env);
    let s3 = step_ins(s2, c[2], env);
    let s4 = step_ins(s3, c[3], env);
    let s5 = step_ins(s4, c[4], env);
    let s6 = step_ins(s5, c[5], env);
    let s7 = step_ins(s6, c[6], env);
    let s8 = step_ins(s7, c[7], env);
    let s9 = step_ins(s8, c[8], env);
    let s10 = step_ins(s9, c[9], env);
    let s11 = step_ins(s10, c[10], env);
    let s12 = step_ins(s11, c[11], env);
    let s13 = step_ins(s12, c[12], env);
    let s14 = step_ins(s13, c[13], env);
    let s15 = step_ins(s14, c[14], env);
    let s16 = step_ins(s15, c[15], env);
    let s17 = step_ins(s16, c[16], env);
    let s18 = step_ins(s17, c[17], env);
    let s19 = step_ins(s18, c[18], env);
    assert(run_from(s0, c, 0, env) == run_from(s1, c, 1, env));
    assert(run_from(s1, c, 1, env) == run_from(s2, c, 2, env));
    assert(run_from(s2, c, 2, env) == run_from(s3, c, 3, env));
    assert(run_from(s3, c, 3, env) == run_from(s4, c, 4, env));
    assert(run_from(s4, c, 4, env) == run_from(s5, c, 5, env));
    assert(run_from(s5, c, 5, env) == run_from(s6, c, 6, env));
    assert(run_from(s6, c, 6, env) == run_from(s7, c, 7, env));
    assert(run_from(s7, c, 7, env) == run_from(s8, c, 8, env));
    assert(run_from(s8, c, 8, env) == run_from(s9, c, 9, env));
    assert(run_from(s9, c, 9, env) == run_from(s10, c, 10, env));
    assert(run_from(s10, c, 10, env) == run_from(s11, c, 11, env));
    assert(run_from(s11, c, 11, env) == run_from(s12, c, 12, env));
    assert(run_from(s12, c, 12, env) == run_from(s13, c, 13, env));
    assert(run_from(s13, c, 13, env) == run_from(s14, c, 14, env));
    assert(run_from(s14, c, 14, env) == run_from(s15, c, 15, env));
    assert(run_from(s15, c, 15, env) == run_from(s16, c, 16, env));
    assert(run_from(s16, c, 16, env) == run_from(s17, c, 17, env));
    assert(run_from(s17, c, 17, env) == run_from(s18, c, 18, env));
    assert(run_from(s18, c, 18, env) == run_from(s19, c, 19, env));
    assert(run_from(s19, c, 19, env) == s19);
    assert(run_line(s, c, env) == s19);
}

/// `push constant k` followed by `pop seg i` leaves `k` in the storage
/// cell that `seg i` denotes, for every supported segment, and leaves the
/// stack pointer where it began.
pub proof fn lemma_push_constant_then_pop(
    s: MachineState,
    env: Map<Seq<char>, int>,
    seg: Seq<char>,
    k: nat,
    i: nat,
    m: Seq<char>,
)
    requires
        env_regs(env),
        k <= 0x7fff,
        16 <= s.mem[0] <= 0x7ffe,
        pop_target_ok(seg, i, m, s, env),
        is_pop_seg(seg),
    ensures
        ({
            let t = run_line(s, push_seq("constant"@, k, m) + pop_seq(seg, i, m), env);
            &&& t.mem[pop_target_addr(seg, i, m, s, env)] == k
            &&& t.mem[0] == s.mem[0]
        }),
{
    if seg == "temp"@ {
        lemma_pcp_temp(s, env, seg, k, i, m);
    } else if seg == "pointer"@ {
        lemma_pcp_pointer(s, env, seg, k, i, m);
    } else if seg == "static"@ {
        lemma_pcp_static(s, env, seg, k, i, m);
    } else {
        lemma_pcp_indexed(s, env, seg, k, i, m);
    }
}

/// The call protocol: pushes the return address and the caller's four
/// segment registers in order, repositions ARG below the pushed frame and
/// LCL at the new stack top, and touches nothing else.
pub proof fn lemma_run_call(
    s: MachineState,
    env: Map<Seq<char>, int>,
    fname: Seq<char>,
    ret: Seq<char>,
    n_args: nat,
)
    requires
        env_regs(env),
        16 <= s.mem[0],
        s.mem[0] + 5 <= 0x7fff,
        n_args <= s.mem[0] - 16,
    ensures
        ({
            let sp = s.mem[0];
            let t = run_line(s, call_seq(fname, n_args, ret), env);
            &&& t.mem[0] == sp + 5
            &&& t.mem[1] == sp + 5
            &&& t.mem[2] == sp - n_args
            &&& t.mem[3] == s.mem[3]
            &&& t.mem[4] == s.mem[4]
            &&& t.mem[sp] == env[ret]
            &&& t.mem[sp + 1] == s.mem[1]
            &&& t.mem[sp + 2] == s.mem[2]
            &&& t.mem[sp + 3] == s.mem[3]
            &&& t.mem[sp + 4] == s.mem[4]
            &&& forall|x: int|
                x != 0 && x != 1 && x != 2 && !(sp <= x < sp + 5) ==> t.mem[x] == s.mem[x]
        }),
{
    let c = call_seq(fname, n_args, ret);
    assert(c.len() == 50);
    let s0 = s;
    let s1 = step_ins(s0, c[0], env);
    let s2 = step_ins(s1, c[1], env);
    let s3 = step_ins(s2, c[2], env);
    let s4 = step_ins(s3, c[3], env);
    let s5 = step_ins(s4, c[4], env);
    let s6 = step_ins(s5, c[5], env);
    let s7 = step_ins(s6, c[6], env);
    let s8 = step_ins(s7, c[7], env);
    let s9 = step_ins(s8, c[8], env);
    let s10 = step_ins(s9, c[9], env);
    let s11 = step_ins(s10, c[10], env);
    let s12 = step_ins(s11, c[11], env);
    let s13 = step_ins(s12, c[12], env);
    let s14 = step_ins(s13, c[13], env);
    let s15 = step_ins(s14, c[14], env);
    let s16 = step_ins(s15, c[15], env);
    let s17 = step_ins(s16, c[16], env);
    let s18 = step_ins(s17, c[17], env);
    let s19 = step_ins(s18, c[18], env);
    let s20 = step_ins(s19, c[19], env);
    let s21 = step_ins(s20, c[20], env);
    let s22 = step_ins(s21, c[21], env);
    let s23 = step_ins(s22, c[22], env);
    let s24 = step_ins(s23, c[23], env);
    let s25 = step_ins(s24, c[24], env);
    let s26 = step_ins(s25, c[25], env);
    let s27 = step_ins(s26, c[26], env);
    let s28 = step_ins(s27, c[27], env);
    let s29 = step_ins(s28, c[28], env);
    let s30 = step_ins(s29, c[29], env);
    let s31 = step_ins(s30, c[30], env);
    let s32 = step_ins(s31, c[31], env);
    let s33 = step_ins(s32, c[32], env);
    let s34 = step_ins(s33, c[33], env);
    let s35 = step_ins(s34, c[34], env);
    let s36 = step_ins(s35, c[35], env);
    let s37 = step_ins(s36, c[36], env);
    let s38 = step_ins(s37, c[37], env);
    let s39 = step_ins(s38, c[38], env);
    let s40 = step_ins(s39, c[39], env);
    let s41 = step_ins(s40, c[40], env);
    let s42 = step_ins(s41, c[41], env);
    let s43 = step_ins(s42, c[42], env);
    let s44 = step_ins(s43, c[43], env);
    let s45 = step_ins(s44, c[44], env);
    let s46 = step_ins(s45, c[45], env);
    let s47 = step_ins(s46, c[46], env);
    let s48 = step_ins(s47, c[47], env);
    let s49 = step_ins(s48, c[48], env);
    let s50 = step_ins(s49, c[49], env);
    assert(run_from(s0, c, 0, env) == run_from(s1, c, 1, env));
    assert(run_from(s1, c, 1, env) == run_from(s2, c, 2, env));
    assert(run_from(s2, c, 2, env) == run_from(s3, c, 3, env));
    assert(run_from(s3, c, 3, env) == run_from(s4, c, 4, env));
    assert(run_from(s4, c, 4, env) == run_from(s5, c, 5, env));
    assert(run_from(s5, c, 5, env) == run_from(s6, c, 6, env));
    assert(run_from(s6, c, 6, env) == run_from(s7, c, 7, env));
    assert(run_from(s7, c, 7, env) == run_from(s8, c, 8, env));
    assert(run_from(s8, c, 8, env) == run_from(s9, c, 9, env));
    assert(run_from(s9, c, 9, env) == run_from(s10, c, 10, env));
    assert(run_from(s10, c, 10, env) == run_from(s11, c, 11, env));
    assert(run_from(s11, c, 11, env) == run_from(s12, c, 12, env));
    assert(run_from(s12, c, 12, env) == run_from(s13, c, 13, env));
    assert(run_from(s13, c, 13, env) == run_from(s14, c, 14, env));
    assert(run_from(s14, c, 14, env) == run_from(s15, c, 15, env));
    assert(run_from(s15, c, 15, env) == run_from(s16, c, 16, env));
    assert(run_from(s16, c, 16, env) == run_from(s17, c, 17, env));
    assert(run_from(s17, c, 17, env) == run_from(s18, c, 18, env));
    assert(run_from(s18, c, 18, env) == run_from(s19, c, 19, env));
    assert(run_from(s19, c, 19, env) == run_from(s20, c, 20, env));
    assert(run_from(s20, c, 20, env) == run_from(s21, c, 21, env));
    assert(run_from(s21, c, 21, env) == run_from(s22, c, 22, env));
    assert(run_from(s22, c, 22, env) == run_from(s23, c, 23, env));
    assert(run_from(s23, c, 23, env) == run_from(s24, c, 24, env));
    assert(run_from(s24, c, 24, env) == run_from(s25, c, 25, env));
    assert(run_from(s25, c, 25, env) == run_from(s26, c, 26, env));
    assert(run_from(s26, c, 26, env) == run_from(s27, c, 27, env));
    assert(run_from(s27, c, 27, env) == run_from(s28, c, 28, env));
    assert(run_from(s28, c, 28, env) == run_from(s29, c, 29, env));
    assert(run_from(s29, c, 29, env) == run_from(s30, c, 30, env));
    assert(run_from(s30, c, 30, env) == run_from(s31, c, 31, env));
    assert(run_from(s31, c, 31, env) == run_from(s32, c, 32, env));
    assert(run_from(s32, c, 32, env) == run_from(s33, c, 33, env));
    assert(run_from(s33, c, 33, env) == run_from(s34, c, 34, env));
    assert(run_from(s34, c, 34, env) == run_from(s35, c, 35, env));
    assert(run_from(s35, c, 35, env) == run_from(s36, c, 36, env));
    assert(run_from(s36, c, 36, env) == run_from(s37, c, 37, env));
    assert(run_from(s37, c, 37, env) == run_from(s38, c, 38, env));
    assert(run_from(s38, c, 38, env) == run_from(s39, c, 39, env));
    assert(run_from(s39, c, 39, env) == run_from(s40, c, 40, env));
    assert(run_from(s40, c, 40, env) == run_from(s41, c, 41, env));
    assert(run_from(s41, c, 41, env) == run_from(s42, c, 42, env));
    assert(run_from(s42, c, 42, env) == run_from(s43, c, 43, env));
    assert(run_from(s43, c, 43, env) == run_from(s44, c, 44, env));
    assert(run_from(s44, c, 44, env) == run_from(s45, c, 45, env));
    assert(run_from(s45, c, 45, env) == run_from(s46, c, 46, env));
    assert(run_from(s46, c, 46, env) == run_from(s47, c, 47, env));
    assert(run_from(s47, c, 47, env) == run_from(s48, c, 48, env));
    assert(run_from(s48, c, 48, env) == run_from(s49, c, 49, env));
    assert(run_from(s49, c, 49, env) == run_from(s50, c, 50, env));
    assert(run_from(s50, c, 50, env) == s50);
    assert(run_line(s, c, env) == s50);
}

/// The return protocol: recovers the return address from the frame, places
/// the result at the cell ARG points to, repositions the stack pointer just
/// above it, restores THAT, THIS, ARG and LCL from the frame in that order,
/// and leaves the address register on the recovered return address.
pub proof fn lemma_run_return(t: MachineState, env: Map<Seq<char>, int>)
    requires
        env_regs(env),
        21 <= t.mem[1] <= 0x7fff,
        16 <= t.mem[2] <= t.mem[1] - 5,
        t.mem[2] < t.mem[0] <= 0x7fff,
    ensures
        ({
            let lcl = t.mem[1];
            let arg = t.mem[2];
            let spc = t.mem[0];
            let u = run_line(t, return_seq(), env);
            &&& u.mem[4] == t.mem[lcl - 1]
            &&& u.mem[3] == t.mem[lcl - 2]
            &&& u.mem[2] == t.mem[lcl - 3]
            &&& u.mem[1] == t.mem[lcl - 4]
            &&& u.mem[0] == arg + 1
            &&& u.mem[arg] == t.mem[spc - 1]
            &&& u.a == t.mem[lcl - 5]
        }),
{
    let s = t;
    let c = return_seq();
    assert(c.len() == 52);
    let s0 = s;
    let s1 = step_ins(s0, c[0], env);
    let s2 = step_ins(s1, c[1], env);
    let s3 = step_ins(s2, c[2], env);
    let s4 = step_ins(s3, c[3], env);
    let s5 = step_ins(s4, c[4], env);
    let s6 = step_ins(s5, c[5], env);
    let s7 = step_ins(s6, c[6], env);
    let s8 = step_ins(s7, c[7], env);
    let s9 = step_ins(s8, c[8], env);
    let s10 = step_ins(s9, c[9], env);
    let s11 = step_ins(s10, c[10], env);
    let s12 = step_ins(s11, c[11], env);
    let s13 = step_ins(s12, c[12], env);
    let s14 = step_ins(s13, c[13], env);
    let s15 = step_ins(s14, c[14], env);
    let s16 = step_ins(s15, c[15], env);
    let s17 = step_ins(s16, c[16], env);
    let s18 = step_ins(s17, c[17], env);
    let s19 = step_ins(s18, c[18], env);
    let s20 = step_ins(s19, c[19], env);
    let s21 = step_ins(s20, c[20], env);
    let s22 = step_ins(s21, c[21], env);
    let s23 = step_ins(s22, c[22], env);
    let s24 = step_ins(s23, c[23], env);
    let s25 = step_ins(s24, c[24], env);
    let s26 = step_ins(s25, c[25], env);
    let s27 = step_ins(s26, c[26], env);
    let s28 = step_ins(s27, c[27], env);
    let s29 = step_ins(s28, c[28], env);
    let s30 = step_ins(s29, c[29], env);
    let s31 = step_ins(s30, c[30], env);
    let s32 = step_ins(s31, c[31], env);
    let s33 = step_ins(s32, c[32], env);
    let s34 = step_ins(s33, c[33], env);
    let s35 = step_ins(s34, c[34], env);
    let s36 = step_ins(s35, c[35], env);
    let s37 = step_ins(s36, c[36], env);
    let s38 = step_ins(s37, c[37], env);
    let s39 = step_ins(s38, c[38], env);
    let s40 = step_ins(s39, c[39], env);
    let s41 = step_ins(s40, c[40], env);
    let s42 = step_ins(s41, c[41], env);
    let s43 = step_ins(s42, c[42], env);
    let s44 = step_ins(s43, c[43], env);
    let s45 = step_ins(s44, c[44], env);
    let s46 = step_ins(s45, c[45], env);
    let s47 = step_ins(s46, c[46], env);
    let s48 = step_ins(s47, c[47], env);
    let s49 = step_ins(s48, c[48], env);
    let s50 = step_ins(s49, c[49], env);
    let s51 = step_ins(s50, c[50], env);
    let s52 = step_ins(s51, c[51], env);
    assert(run_from(s0, c, 0, env) == run_from(s1, c, 1, env));
    assert(run_from(s1, c, 1, env) == run_from(s2, c, 2, env));
    assert(run_from(s2, c, 2, env) == run_from(s3, c, 3, env));
    assert(run_from(s3, c, 3, env) == run_from(s4, c, 4, env));
    assert(run_from(s4, c, 4, env) == run_from(s5, c, 5, env));
    assert(run_from(s5, c, 5, env) == run_from(s6, c, 6, env));
    assert(run_from(s6, c, 6, env) == run_from(s7, c, 7, env));
    assert(run_from(s7, c, 7, env) == run_from(s8, c, 8, env));
    assert(run_from(s8, c, 8, env) == run_from(s9, c, 9, env));
    assert(run_from(s9, c, 9, env) == run_from(s10, c, 10, env));
    assert(run_from(s10, c, 10, env) == run_from(s11, c, 11, env));
    assert(run_from(s11, c, 11, env) == run_from(s12, c, 12, env));
    assert(run_from(s12, c, 12, env) == run_from(s13, c, 13, env));
    assert(run_from(s13, c, 13, env) == run_from(s14, c, 14, env));
    assert(run_from(s14, c, 14, env) == run_from(s15, c, 15, env));
    assert(run_from(s15, c, 15, env) == run_from(s16, c, 16, env));
    assert(run_from(s16, c, 16, env) == run_from(s17, c, 17, env));
    assert(run_from(s17, c, 17, env) == run_from(s18, c, 18, env));
    assert(run_from(s18, c, 18, env) == run_from(s19, c, 19, env));
    assert(run_from(s19, c, 19, env) == run_from(s20, c, 20, env));
    assert(run_from(s20, c, 20, env) == run_from(s21, c, 21, env));
    assert(run_from(s21, c, 21, env) == run_from(s22, c, 22, env));
    assert(run_from(s22, c, 22, env) == run_from(s23, c, 23, env));
    assert(run_from(s23, c, 23, env) == run_from(s24, c, 24, env));
    assert(run_from(s24, c, 24, env) == run_from(s25, c, 25, env));
    assert(run_from(s25, c, 25, env) == run_from(s26, c, 26, env));
    assert(run_from(s26, c, 26, env) == run_from(s27, c, 27, env));
    assert(run_from(s27, c, 27, env) == run_from(s28, c, 28, env));
    assert(run_from(s28, c, 28, env) == run_from(s29, c, 29, env));
    assert(run_from(s29, c, 29, env) == run_from(s30, c, 30, env));
    assert(run_from(s30, c, 30, env) == run_from(s31, c, 31, env));
    assert(run_from(s31, c, 31, env) == run_from(s32, c, 32, env));
    assert(run_from(s32, c, 32, env) == run_from(s33, c, 33, env));
    assert(run_from(s33, c, 33, env) == run_from(s34, c, 34, env));
    assert(run_from(s34, c, 34, env) == run_from(s35, c, 35, env));
    assert(run_from(s35, c, 35, env) == run_from(s36, c, 36, env));
    assert(run_from(s36, c, 36, env) == run_from(s37, c, 37, env));
    assert(run_from(s37, c, 37, env) == run_from(s38, c, 38, env));
    assert(run_from(s38, c, 38, env) == run_from(s39, c, 39, env));
    assert(run_from(s39, c, 39, env) == run_from(s40, c, 40, env));
    assert(run_from(s40, c, 40, env) == run_from(s41, c, 41, env));
    assert(run_from(s41, c, 41, env) == run_from(s42, c, 42, env));
    assert(run_from(s42, c, 42, env) == run_from(s43, c, 43, env));
    assert(run_from(s43, c, 43, env) == run_from(s44, c, 44, env));
    assert(run_from(s44, c, 44, env) == run_from(s45, c, 45, env));
    assert(run_from(s45, c, 45, env) == run_from(s46, c, 46, env));
    assert(run_from(s46, c, 46, env) == run_from(s47, c, 47, env));
    assert(run_from(s47, c, 47, env) == run_from(s48, c, 48, env));
    assert(run_from(s48, c, 48, env) == run_from(s49, c, 49, env));
    assert(run_from(s49, c, 49, env) == run_from(s50, c, 50, env));
    assert(run_from(s50, c, 50, env) == run_from(s51, c, 51, env));
    assert(run_from(s51, c, 51, env) == run_from(s52, c, 52, env));
    assert(run_from(s52, c, 52, env) == s52);
    assert(run_line(s, c, env) == s52);
}

/// Nested and recursive calls preserve caller state: however the callee
/// ran, if at its `return` the local-base register and the five-word frame
/// are as the call left them and the argument-base register is untouched,
/// then after the return the caller's four segment-base registers equal
/// their values immediately before the call, the stack pointer equals the
/// pre-call stack pointer minus the argument count plus one, and control
/// goes back to the return address the call minted.
pub proof fn lemma_call_return_preserves_caller(
    s: MachineState,
    t: MachineState,
    env: Map<Seq<char>, int>,
    fname: Seq<char>,
    ret: Seq<char>,
    n_args: nat,
)
    requires
        env_regs(env),
        16 <= s.mem[0],
        s.mem[0] + 5 <= 0x7fff,
        n_args <= s.mem[0] - 16,
        ({
            let sc = run_line(s, call_seq(fname, n_args, ret), env);
            &&& t.mem[1] == sc.mem[1]
            &&& t.mem[2] == sc.mem[2]
            &&& forall|x: int| s.mem[0] <= x < s.mem[0] + 5 ==> t.mem[x] == sc.mem[x]
        }),
        t.mem[2] < t.mem[0] <= 0x7fff,
    ensures
        ({
            let u = run_line(t, return_seq(), env);
            &&& u.mem[1] == s.mem[1]
            &&& u.mem[2] == s.mem[2]
            &&& u.mem[3] == s.mem[3]
            &&& u.mem[4] == s.mem[4]
            &&& u.mem[0] == s.mem[0] - n_args + 1
            &&& u.a == env[ret]
        }),
{
    lemma_run_call(s, env, fname, ret, n_args);
    lemma_run_return(t, env);
}

/// What a binary operator computes from operand A (pushed first) and
/// operand B (pushed second), in that order.
pub open spec fn binary_op_result(op: Seq<char>, x: int, y: int) -> int {
    if op == "add"@ {
        wrap16(x + y)
    } else if op == "sub"@ {
        wrap16(x - y)
    } else if op == "and"@ {
        from_bits(word_bits(x) & word_bits(y))
    } else {
        from_bits(word_bits(x) | word_bits(y))
    }
}

/// Binary arithmetic preserves operand order exactly: with operand A on the
/// stack below operand B, the emitted instructions replace the pair by
/// `A op B` — `sub` computes A - B, never B - A — and pop one stack slot.
pub proof fn lemma_binary_arith_operand_order(
    s: MachineState,
    env: Map<Seq<char>, int>,
    op: Seq<char>,
    id: Seq<char>,
)
    requires
        env_regs(env),
        op == "add"@ || op == "sub"@ || op == "and"@ || op == "or"@,
        18 <= s.mem[0] <= 0x7fff,
        -0x8000 <= s.mem[s.mem[0] - 2] <= 0x7fff,
        -0x8000 <= s.mem[s.mem[0] - 1] <= 0x7fff,
    ensures
        ({
            let sp = s.mem[0];
            let t = run_line(s, arith_seq(op, id), env);
            &&& t.mem[sp - 2] == binary_op_result(op, s.mem[sp - 2], s.mem[sp - 1])
            &&& t.mem[0] == sp - 1
        }),
{
    reveal_strlit("add");
    reveal_strlit("sub");
    reveal_strlit("and");
    reveal_strlit("or");
    assert("add"@.len() == 3);
    assert("sub"@.len() == 3);
    assert("and"@.len() == 3);
    assert("or"@.len() == 2);
    assert("add"@[0] == 'a');
    assert("sub"@[0] == 's');
    assert("and"@[1] == 'n');
    assert("add"@[1] == 'd');
    let c = arith_seq(op, id);
    assert(c.len() == 15);
    let s0 = s;
    let s1 = step_ins(s0, c[0], env);
    let s2 = step_ins(s1, c[1], env);
    let s3 = step_ins(s2, c[2], env);
    let s4 = step_ins(s3, c[3], env);
    let s5 = step_ins(s4, c[4], env);
    let s6 = step_ins(s5, c[5], env);
    let s7 = step_ins(s6, c[6], env);
    let s8 = step_ins(s7, c[7], env);
    let s9 = step_ins(s8, c[8], env);
    let s10 = step_ins(s9, c[9], env);
    let s11 = step_ins(s10, c[10], env);
    let s12 = step_ins(s11, c[11], env);
    let s13 = step_ins(s12, c[12], env);
    let s14 = step_ins(s13, c[13], env);
    let s15 = step_ins(s14, c[14], env);
    assert(run_from(s0, c, 0, env) == run_from(s1, c, 1, env));
    assert(run_from(s1, c, 1, env) == run_from(s2, c, 2, env));
    assert(run_from(s2, c, 2, env) == run_from(s3, c, 3, env));
    assert(run_from(s3, c, 3, env) == run_from(s4, c, 4, env));
    assert(run_from(s4, c, 4, env) == run_from(s5, c, 5, env));
    assert(run_from(s5, c, 5, env) == run_from(s6, c, 6, env));
    assert(run_from(s6, c, 6, env) == run_from(s7, c, 7, env));
    assert(run_from(s7, c, 7, env) == run_from(s8, c, 8, env));
    assert(run_from(s8, c, 8, env) == run_from(s9, c, 9, env));
    assert(run_from(s9, c, 9, env) == run_from(s10, c, 10, env));
    assert(run_from(s10, c, 10, env) == run_from(s11, c, 11, env));
    assert(run_from(s11, c, 11, env) == run_from(s12, c, 12, env));
    assert(run_from(s12, c, 12, env) == run_from(s13, c, 13, env));
    assert(run_from(s13, c, 13, env) == run_from(s14, c, 14, env));
    assert(run_from(s14, c, 14, env) == run_from(s15, c, 15, env));
    assert(run_from(s15, c, 15, env) == s15);
    assert(run_line(s, c, env) == s15);
}

/// Whether a jump condition holds of a computed value.
pub open spec fn jump_taken(j: Jump, v: int) -> bool {
    match j {
        Jump::JGT => v > 0,
        Jump::JEQ => v == 0,
        Jump::JLT => v < 0,
        Jump::JNE => v != 0,
        Jump::JMP => true,
    }
}

/// The jump condition a comparison operator tests.
pub open spec fn comparison_jump(op: Seq<char>) -> Jump {
    if op == "eq"@ {
        Jump::JEQ
    } else if op == "gt"@ {
        Jump::JGT
    } else {
        Jump::JLT
    }
}

/// Comparisons yield exactly all-one-bits or all-zero-bits. The emitted
/// sequence branches once, at its conditional jump on `A - B`: control
/// either jumps to the true-branch target and continues from there, or
/// falls through and then jumps over it to the fall-through target. Both
/// paths are contiguous runs of the sequence; on the first the code pushes
/// all-one-bits, on the second all-zero-bits, and each pops one stack
/// slot. Whenever the subtraction `A - B` does not overflow a word, the
/// true branch is taken exactly when the comparison holds.
pub proof fn lemma_comparison_all_ones_or_zeros(
    s: MachineState,
    env: Map<Seq<char>, int>,
    op: Seq<char>,
    id: Seq<char>,
)
    requires
        env_regs(env),
        op == "eq"@ || op == "gt"@ || op == "lt"@,
        18 <= s.mem[0] <= 0x7fff,
        -0x8000 <= s.mem[s.mem[0] - 2] <= 0x7fff,
        -0x8000 <= s.mem[s.mem[0] - 1] <= 0x7fff,
    ensures
        ({
            let sp = s.mem[0];
            let x = s.mem[sp - 2];
            let y = s.mem[sp - 1];
            let c = arith_seq(op, id);
            let v = wrap16(x - y);
            let taken = run_line(run_line(s, c.subrange(0, 12), env), c.subrange(15, 23), env);
            let fall = run_line(run_line(s, c.subrange(0, 15), env), c.subrange(17, 23), env);
            &&& c[11] == branch(Comp::D, comparison_jump(op))
            &&& run_line(s, c.subrange(0, 12), env).d == v
            &&& taken.mem[sp - 2] == -1 && taken.mem[0] == sp - 1
            &&& fall.mem[sp - 2] == 0 && fall.mem[0] == sp - 1
            &&& -0x8000 <= x - y <= 0x7fff ==> (jump_taken(comparison_jump(op), v) <==> (if op
                == "eq"@ {
                x == y
            } else if op == "gt"@ {
                x > y
            } else {
                x < y
            }))
        }),
{
    reveal_strlit("eq");
    reveal_strlit("gt");
    reveal_strlit("lt");
    reveal_strlit("add");
    reveal_strlit("sub");
    reveal_strlit("and");
    reveal_strlit("or");
    reveal_strlit("neg");
    reveal_strlit("not");
    assert("eq"@.len() == 2);
    assert("gt"@.len() == 2);
    assert("lt"@.len() == 2);
    assert("add"@.len() == 3);
    assert("sub"@.len() == 3);
    assert("and"@.len() == 3);
    assert("neg"@.len() == 3);
    assert("not"@.len() == 3);
    assert("or"@.len() == 2);
    assert("eq"@[0] == 'e');
    assert("gt"@[0] == 'g');
    assert("lt"@[0] == 'l');
    assert("or"@[0] == 'o');
    let c = arith_seq(op, id);
    assert(c.len() == 23);
    let c1 = c.subrange(0, 12);
    let c2 = c.subrange(15, 23);
    let c3 = c.subrange(0, 15);
    let c4 = c.subrange(17, 23);
    assert(c1.len() == 12);
    assert(c2.len() == 8);
    assert(c3.len() == 15);
    assert(c4.len() == 6);
    let p0 = s;
    let p1 = step_ins(p0, c1[0], env);
    let p2 = step_ins(p1, c1[1], env);
    let p3 = step_ins(p2, c1[2], env);
    let p4 = step_ins(p3, c1[3], env);
    let p5 = step_ins(p4, c1[4], env);
    let p6 = step_ins(p5, c1[5], env);
    let p7 = step_ins(p6, c1[6], env);
    let p8 = step_ins(p7, c1[7], env);
    let p9 = step_ins(p8, c1[8], env);
    let p10 = step_ins(p9, c1[9], env);
    let p11 = step_ins(p10, c1[10], env);
    let p12 = step_ins(p11, c1[11], env);
    assert(run_from(p0, c1, 0, env) == run_from(p1, c1, 1, env));
    assert(run_from(p1, c1, 1, env) == run_from(p2, c1, 2, env));
    assert(run_from(p2, c1, 2, env) == run_from(p3, c1, 3, env));
    assert(run_from(p3, c1, 3, env) == run_from(p4, c1, 4, env));
    assert(run_from(p4, c1, 4, env) == run_from(p5, c1, 5, env));
    assert(run_from(p5, c1, 5, env) == run_from(p6, c1, 6, env));
    assert(run_from(p6, c1, 6, env) == run_from(p7, c1, 7, env));
    assert(run_from(p7, c1, 7, env) == run_from(p8, c1, 8, env));
    assert(run_from(p8, c1, 8, env) == run_from(p9, c1, 9, env));
    assert(run_from(p9, c1, 9, env) == run_from(p10, c1, 10, env));
    assert(run_from(p10, c1, 10, env) == run_from(p11, c1, 11, env));
    assert(run_from(p11, c1, 11, env) == run_from(p12, c1, 12, env));
    assert(run_from(p12, c1, 12, env) == p12);
    assert(run_line(s, c1, env) == p12);
    let q0 = p12;
    let q1 = step_ins(q0, c2[0], env);
    let q2 = step_ins(q1, c2[1], env);
    let q3 = step_ins(q2, c2[2], env);
    let q4 = step_ins(q3, c2[3], env);
    let q5 = step_ins(q4, c2[4], env);
    let q6 = step_ins(q5, c2[5], env);
    let q7 = step_ins(q6, c2[6], env);
    let q8 = step_ins(q7, c2[7], env);
    assert(run_from(q0, c2, 0, env) == run_from(q1, c2, 1, env));
    assert(run_from(q1, c2, 1, env) == run_from(q2, c2, 2, env));
    assert(run_from(q2, c2, 2, env) == run_from(q3, c2, 3, env));
    assert(run_from(q3, c2, 3, env) == run_from(q4, c2, 4, env));
    assert(run_from(q4, c2, 4, env) == run_from(q5, c2, 5, env));
    assert(run_from(q5, c2, 5, env) == run_from(q6, c2, 6, env));
    assert(run_from(q6, c2, 6, env) == run_from(q7, c2, 7, env));
    assert(run_from(q7, c2, 7, env) == run_from(q8, c2, 8, env));
    assert(run_from(q8, c2, 8, env) == q8);
    assert(run_line(p12, c2, env) == q8);
    let r0 = s;
    let r1 = step_ins(r0, c3[0], env);
    let r2 = step_ins(r1, c3[1], env);
    let r3 = step_ins(r2, c3[2], env);
    let r4 = step_ins(r3, c3[3], env);
    let r5 = step_ins(r4, c3[4], env);
    let r6 = step_ins(r5, c3[5], env);
    let r7 = step_ins(r6, c3[6], env);
    let r8 = step_ins(r7, c3[7], env);
    let r9 = step_ins(r8, c3[8], env);
    let r10 = step_ins(r9, c3[9], env);
    let r11 = step_ins(r10, c3[10], env);
    let r12 = step_ins(r11, c3[11], env);
    let r13 = step_ins(r12, c3[12], env);
    let r14 = step_ins(r13, c3[13], env);
    let r15 = step_ins(r14, c3[14], env);
    assert(run_from(r0, c3, 0, env) == run_from(r1, c3, 1, env));
    assert(run_from(r1, c3, 1, env) == run_from(r2, c3, 2, env));
    assert(run_from(r2, c3, 2, env) == run_from(r3, c3, 3, env));
    assert(run_from(r3, c3, 3, env) == run_from(r4, c3, 4, env));
    assert(run_from(r4, c3, 4, env) == run_from(r5, c3, 5, env));
    assert(run_from(r5, c3, 5, env) == run_from(r6, c3, 6, env));
    assert(run_from(r6, c3, 6, env) == run_from(r7, c3, 7, env));
    assert(run_from(r7, c3, 7, env) == run_from(r8, c3, 8, env));
    assert(run_from(r8, c3, 8, env) == run_from(r9, c3, 9, env));
    assert(run_from(r9, c3, 9, env) == run_from(r10, c3, 10, env));
    assert(run_from(r10, c3, 10, env) == run_from(r11, c3, 11, env));
    assert(run_from(r11, c3, 11, env) == run_from(r12, c3, 12, env));
    assert(run_from(r12, c3, 12, env) == run_from(r13, c3, 13, env));
    assert(run_from(r13, c3, 13, env) == run_from(r14, c3, 14, env));
    assert(run_from(r14, c3, 14, env) == run_from(r15, c3, 15, env));
    assert(run_from(r15, c3, 15, env) == r15);
    assert(run_line(s, c3, env) == r15);
    let w0 = r15;
    let w1 = step_ins(w0, c4[0], env);
    let w2 = step_ins(w1, c4[1], env);
    let w3 = step_ins(w2, c4[2], env);
    let w4 = step_ins(w3, c4[3], env);
    let w5 = step_ins(w4, c4[4], env);
    let w6 = step_ins(w5, c4[5], env);
    assert(run_from(w0, c4, 0, env) == run_from(w1, c4, 1, env));
    assert(run_from(w1, c4, 1, env) == run_from(w2, c4, 2, env));
    assert(run_from(w2, c4, 2, env) == run_from(w3, c4, 3, env));
    assert(run_from(w3, c4, 3, env) == run_from(w4, c4, 4, env));
    assert(run_from(w4, c4, 4, env) == run_from(w5, c4, 5, env));
    assert(run_from(w5, c4, 5, env) == run_from(w6, c4, 6, env));
    assert(run_from(w6, c4, 6, env) == w6);
    assert(run_line(r15, c4, env) == w6);
}

} // verus!
