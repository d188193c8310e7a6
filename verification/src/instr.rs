//! Structured target instructions. The generator emits records of this
//! type; they are assembled into text only at final serialization, so the
//! translation can be stated over structured output instead of whitespace.

use vstd::prelude::*;

use crate::text::{dec_str, u64_to_string};

verus! {

/// Destination register(s) of a compute instruction.
#[derive(Debug, Clone, Copy, PartialEq, Eq, Structural)]
pub enum Dest {
    M,
    D,
    A,
    AM,
}

/// Computation of a compute instruction.
#[derive(Debug, Clone, Copy, PartialEq, Eq, Structural)]
pub enum Comp {
    Zero,
    NegOne,
    D,
    A,
    M,
    NotD,
    NotM,
    NegD,
    NegM,
    APlusOne,
    MPlusOne,
    MMinusOne,
    DPlusM,
    DMinusM,
    DPlusA,
    DMinusA,
    DAndM,
    DOrM,
}

/// Jump condition of a compute instruction, on the computed value.
#[derive(Debug, Clone, Copy, PartialEq, Eq, Structural)]
pub enum Jump {
    JGT,
    JEQ,
    JLT,
    JNE,
    JMP,
}

/// Operand of an address instruction: a literal or a symbol.
#[derive(Debug, Clone, PartialEq, Eq)]
pub enum AValue {
    Num(u32),
    Sym(String),
}

/// One target instruction: an address directive, a compute directive, or a
/// label declaration.
#[derive(Debug, Clone, PartialEq, Eq)]
pub enum Instr {
    A(AValue),
    C { dest: Option<Dest>, comp: Comp, jump: Option<Jump> },
    L(String),
}

/// Mathematical model of an address operand.
pub enum SpecAValue {
    Num(nat),
    Sym(Seq<char>),
}

/// Mathematical model of one target instruction.
pub enum SpecInstr {
    A(SpecAValue),
    C { dest: Option<Dest>, comp: Comp, jump: Option<Jump> },
    L(Seq<char>),
}

impl View for AValue {
    type V = SpecAValue;

    open spec fn view(&self) -> SpecAValue {
        match self {
            AValue::Num(n) => SpecAValue::Num(*n as nat),
            AValue::Sym(s) => SpecAValue::Sym(s@),
        }
    }
}

impl View for Instr {
    type V = SpecInstr;

    open spec fn view(&self) -> SpecInstr {
        match self {
            Instr::A(v) => SpecInstr::A(v@),
            Instr::C { dest, comp, jump } => SpecInstr::C { dest: *dest, comp: *comp, jump: *jump },
            Instr::L(s) => SpecInstr::L(s@),
        }
    }
}

/// The models of a sequence of instructions.
pub open spec fn code_of(v: Seq<Instr>) -> Seq<SpecInstr> {
    v.map_values(|i: Instr| i@)
}

pub open spec fn dest_text(d: Dest) -> Seq<char> {
    match d {
        Dest::M => "M"@,
        Dest::D => "D"@,
        Dest::A => "A"@,
        Dest::AM => "AM"@,
    }
}

pub open spec fn comp_text(c: Comp) -> Seq<char> {
    match c {
        Comp::Zero => "0"@,
        Comp::NegOne => "-1"@,
        Comp::D => "D"@,
        Comp::A => "A"@,
        Comp::M => "M"@,
        Comp::NotD => "!D"@,
        Comp::NotM => "!M"@,
        Comp::NegD => "-D"@,
        Comp::NegM => "-M"@,
        Comp::APlusOne => "A+1"@,
        Comp::MPlusOne => "M+1"@,
        Comp::MMinusOne => "M-1"@,
        Comp::DPlusM => "D+M"@,
        Comp::DMinusM => "D-M"@,
        Comp::DPlusA => "D+A"@,
        Comp::DMinusA => "D-A"@,
        Comp::DAndM => "D&M"@,
        Comp::DOrM => "D|M"@,
    }
}

pub open spec fn jump_text(j: Jump) -> Seq<char> {
    match j {
        Jump::JGT => "JGT"@,
        Jump::JEQ => "JEQ"@,
        Jump::JLT => "JLT"@,
        Jump::JNE => "JNE"@,
        Jump::JMP => "JMP"@,
    }
}

/// The assembly text of one instruction, without its line break.
pub open spec fn ins_text(i: SpecInstr) -> Seq<char> {
    match i {
        SpecInstr::A(SpecAValue::Num(n)) => "@"@ + dec_str(n),
        SpecInstr::A(SpecAValue::Sym(s)) => "@"@ + s,
        SpecInstr::C { dest, comp, jump } => (match dest {
            Some(d) => dest_text(d) + "="@,
            None => Seq::empty(),
        }) + comp_text(comp) + (match jump {
            Some(j) => ";"@ + jump_text(j),
            None => Seq::empty(),
        }),
        SpecInstr::L(s) => "("@ + s + ")"@,
    }
}

/// The assembly text of a program: each instruction on its own line.
pub open spec fn program_text_of(code: Seq<SpecInstr>) -> Seq<char>
    decreases code.len(),
{
    if code.len() == 0 {
        Seq::empty()
    } else {
        program_text_of(code.drop_last()) + ins_text(code.last()) + "\n"@
    }
}

fn dest_str(d: Dest) -> (r: &'static str)
    ensures
        r@ == dest_text(d),
{
    match d {
        Dest::M => "M",
        Dest::D => "D",
        Dest::A => "A",
        Dest::AM => "AM",
    }
}

fn comp_str(c: Comp) -> (r: &'static str)
    ensures
        r@ == comp_text(c),
{
    match c {
        Comp::Zero => "0",
        Comp::NegOne => "-1",
        Comp::D => "D",
        Comp::A => "A",
        Comp::M => "M",
        Comp::NotD => "!D",
        Comp::NotM => "!M",
        Comp::NegD => "-D",
        Comp::NegM => "-M",
        Comp::APlusOne => "A+1",
        Comp::MPlusOne => "M+1",
        Comp::MMinusOne => "M-1",
        Comp::DPlusM => "D+M",
        Comp::DMinusM => "D-M",
        Comp::DPlusA => "D+A",
        Comp::DMinusA => "D-A",
        Comp::DAndM => "D&M",
        Comp::DOrM => "D|M",
    }
}

fn jump_str(j: Jump) -> (r: &'static str)
    ensures
        r@ == jump_text(j),
{
    match j {
        Jump::JGT => "JGT",
        Jump::JEQ => "JEQ",
        Jump::JLT => "JLT",
        Jump::JNE => "JNE",
        Jump::JMP => "JMP",
    }
}

/// Serializes one instruction to its assembly text.
pub fn instr_to_string(i: &Instr) -> (r: String)
    ensures
        r@ == ins_text(i@),
{
    match i {
        Instr::A(AValue::Num(n)) => {
            let mut s = String::from_str("@");
            let num = u64_to_string(*n as u64);
            s.append(num.as_str());
            s
        },
        Instr::A(AValue::Sym(sym)) => {
            let mut s = String::from_str("@");
            s.append(sym.as_str());
            s
        },
        Instr::C { dest, comp, jump } => {
            let mut s = String::new();
            match dest {
                Some(d) => {
                    s.append(dest_str(*d));
                    s.append("=");
                },
                None => {},
            }
            s.append(comp_str(*comp));
            match jump {
                Some(j) => {
                    s.append(";");
                    s.append(jump_str(*j));
                },
                None => {},
            }
            s
        },
        Instr::L(sym) => {
            let mut s = String::from_str("(");
            s.append(sym.as_str());
            s.append(")");
            s
        },
    }
}

/// Serializes a program: each instruction's text followed by a line break.
pub fn instrs_to_text(instrs: &Vec<Instr>) -> (r: String)
    ensures
        r@ == program_text_of(code_of(instrs@)),
{
    let mut s = String::new();
    let mut i: usize = 0;
    proof {
        assert(code_of(instrs@.subrange(0, 0)) =~= Seq::<SpecInstr>::empty());
    }
    while i < instrs.len()
        invariant
            i <= instrs@.len(),
            s@ == program_text_of(code_of(instrs@.subrange(0, i as int))),
        decreases instrs@.len() - i,
    {
        let line = instr_to_string(&instrs[i]);
        s.append(line.as_str());
        s.append("\n");
        proof {
            let pre = code_of(instrs@.subrange(0, i as int));
            let cur = code_of(instrs@.subrange(0, i + 1));
            assert(cur.drop_last() =~= pre);
            assert(cur.last() == instrs@[i as int]@);
        }
        i = i + 1;
    }
    proof {
        assert(instrs@.subrange(0, instrs@.len() as int) =~= instrs@);
    }
    s
}

} // verus!
