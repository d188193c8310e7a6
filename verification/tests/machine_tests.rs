//! End-to-end runs: translated programs executed on a small model of the
//! target machine.

use std::collections::HashMap;

use vm_translator::code_writer::CodeWriter;
use vm_translator::instr::{AValue, Comp, Dest, Instr, Jump};
use vm_translator::parser::Parser;
use vm_translator::translate::translate_file;

enum SimIns {
    At(i16),
    C(Option<Dest>, Comp, Option<Jump>),
}

/// Resolves label declarations and variable symbols to addresses:
/// predefined registers first, then fresh variables from 16 up.
fn assemble(instrs: &[Instr]) -> Vec<SimIns> {
    let mut labels: HashMap<String, i16> = HashMap::new();
    let mut pc: i16 = 0;
    for ins in instrs {
        match ins {
            Instr::L(s) => {
                labels.insert(s.clone(), pc);
            }
            _ => pc += 1,
        }
    }
    let mut syms: HashMap<String, i16> = HashMap::new();
    for (name, addr) in [("SP", 0), ("LCL", 1), ("ARG", 2), ("THIS", 3), ("THAT", 4)] {
        syms.insert(name.to_string(), addr);
    }
    for r in 0..16 {
        syms.insert(format!("R{}", r), r);
    }
    let mut next_var: i16 = 16;
    let mut prog = Vec::new();
    for ins in instrs {
        match ins {
            Instr::L(_) => {}
            Instr::A(AValue::Num(n)) => prog.push(SimIns::At(*n as i16)),
            Instr::A(AValue::Sym(s)) => {
                let v = if let Some(&x) = labels.get(s) {
                    x
                } else if let Some(&x) = syms.get(s) {
                    x
                } else {
                    let x = next_var;
                    syms.insert(s.clone(), x);
                    next_var += 1;
                    x
                };
                prog.push(SimIns::At(v));
            }
            Instr::C { dest, comp, jump } => prog.push(SimIns::C(*dest, *comp, *jump)),
        }
    }
    prog
}

fn comp_value(c: Comp, a: i16, d: i16, m: i16) -> i16 {
    match c {
        Comp::Zero => 0,
        Comp::NegOne => -1,
        Comp::D => d,
        Comp::A => a,
        Comp::M => m,
        Comp::NotD => !d,
        Comp::NotM => !m,
        Comp::NegD => d.wrapping_neg(),
        Comp::NegM => m.wrapping_neg(),
        Comp::APlusOne => a.wrapping_add(1),
        Comp::MPlusOne => m.wrapping_add(1),
        Comp::MMinusOne => m.wrapping_sub(1),
        Comp::DPlusM => d.wrapping_add(m),
        Comp::DMinusM => d.wrapping_sub(m),
        Comp::DPlusA => d.wrapping_add(a),
        Comp::DMinusA => d.wrapping_sub(a),
        Comp::DAndM => d & m,
        Comp::DOrM => d | m,
    }
}

/// Runs the program for at most `max_steps` instructions and returns the
/// memory. The terminating halt loop simply spins until the budget ends.
fn run(instrs: &[Instr], max_steps: usize) -> Vec<i16> {
    let prog = assemble(instrs);
    let mut a: i16 = 0;
    let mut d: i16 = 0;
    let mut pc: usize = 0;
    let mut mem = vec![0i16; 32768];
    let mut steps: usize = 0;
    while pc < prog.len() && steps < max_steps {
        steps += 1;
        match &prog[pc] {
            SimIns::At(v) => {
                a = *v;
                pc += 1;
            }
            SimIns::C(dest, comp, jump) => {
                let addr = (a as u16 & 0x7fff) as usize;
                let v = comp_value(*comp, a, d, mem[addr]);
                if let Some(ds) = dest {
                    match ds {
                        Dest::M => mem[addr] = v,
                        Dest::D => d = v,
                        Dest::A => a = v,
                        Dest::AM => {
                            mem[addr] = v;
                            a = v;
                        }
                    }
                }
                let mut jumped = false;
                if let Some(j) = jump {
                    let taken = match j {
                        Jump::JGT => v > 0,
                        Jump::JEQ => v == 0,
                        Jump::JLT => v < 0,
                        Jump::JNE => v != 0,
                        Jump::JMP => true,
                    };
                    if taken {
                        pc = (a as u16 & 0x7fff) as usize;
                        jumped = true;
                    }
                }
                if !jumped {
                    pc += 1;
                }
            }
        }
    }
    mem
}

/// Translates the given modules, closes the output, and runs it.
fn translate_and_run(modules: &[(&str, &[&str])]) -> Vec<i16> {
    let mut writer = CodeWriter::new();
    for (name, lines) in modules {
        let mut parser = Parser::new(lines.iter().map(|s| s.to_string()).collect());
        translate_file(&mut writer, &mut parser, name).unwrap();
    }
    writer.close();
    run(writer.instructions(), 100000)
}

#[test]
fn end_to_end_add_program() {
    let mem = translate_and_run(&[(
        "Test.vm",
        &["function Sys.init 0", "push constant 7", "push constant 8", "add"],
    )]);
    assert_eq!(mem[261], 15);
    assert_eq!(mem[0], 262);
}

#[test]
fn binary_arithmetic_preserves_operand_order() {
    let mem = translate_and_run(&[(
        "Test.vm",
        &["function Sys.init 0", "push constant 7", "push constant 2", "sub"],
    )]);
    assert_eq!(mem[261], 5);

    let mem = translate_and_run(&[(
        "Test.vm",
        &["function Sys.init 0", "push constant 2", "push constant 7", "sub"],
    )]);
    assert_eq!(mem[261], -5);
}

#[test]
fn comparison_yields_all_ones_or_all_zeros() {
    let mem = translate_and_run(&[(
        "Test.vm",
        &["function Sys.init 0", "push constant 5", "push constant 3", "gt"],
    )]);
    assert_eq!(mem[261], -1);

    let mem = translate_and_run(&[(
        "Test.vm",
        &["function Sys.init 0", "push constant 3", "push constant 5", "gt"],
    )]);
    assert_eq!(mem[261], 0);

    let mem = translate_and_run(&[(
        "Test.vm",
        &["function Sys.init 0", "push constant 4", "push constant 4", "eq"],
    )]);
    assert_eq!(mem[261], -1);

    let mem = translate_and_run(&[(
        "Test.vm",
        &["function Sys.init 0", "push constant 4", "push constant 9", "lt"],
    )]);
    assert_eq!(mem[261], -1);
}

#[test]
fn unary_and_bitwise_operators() {
    let mem = translate_and_run(&[(
        "Test.vm",
        &["function Sys.init 0", "push constant 21", "neg"],
    )]);
    assert_eq!(mem[261], -21);

    let mem = translate_and_run(&[(
        "Test.vm",
        &["function Sys.init 0", "push constant 12", "push constant 10", "and"],
    )]);
    assert_eq!(mem[261], 8);

    let mem = translate_and_run(&[(
        "Test.vm",
        &["function Sys.init 0", "push constant 12", "push constant 10", "or"],
    )]);
    assert_eq!(mem[261], 14);

    let mem = translate_and_run(&[("Test.vm", &["function Sys.init 0", "push constant 0", "not"])]);
    assert_eq!(mem[261], -1);
}

#[test]
fn push_constant_then_pop_reaches_every_segment() {
    let mem = translate_and_run(&[(
        "Test.vm",
        &[
            "function Sys.init 3",
            "push constant 42",
            "pop local 2",
            "push constant 9",
            "pop temp 3",
            "push constant 8",
            "pop pointer 1",
            "push constant 5",
            "pop static 7",
            "push constant 6",
            "pop argument 0",
        ],
    )]);
    assert_eq!(mem[263], 42); // local 2: LCL = 261
    assert_eq!(mem[8], 9); // temp 3
    assert_eq!(mem[4], 8); // pointer 1 is the that-base register
    assert_eq!(mem[16], 5); // the module's static 7, first variable slot
    assert_eq!(mem[256], 6); // argument 0 of the bootstrap call
    assert_eq!(mem[0], 264); // stack pointer back where the pops left it
}

#[test]
fn branching_and_scoped_labels() {
    let mem = translate_and_run(&[(
        "Test.vm",
        &[
            "function Sys.init 0",
            "push constant 1",
            "if-goto TAKEN",
            "push constant 111",
            "pop temp 0",
            "goto DONE",
            "label TAKEN",
            "push constant 222",
            "pop temp 0",
            "label DONE",
        ],
    )]);
    assert_eq!(mem[5], 222);
}

#[test]
fn end_to_end_function_call() {
    let mem = translate_and_run(&[(
        "Test.vm",
        &[
            "function Sys.init 0",
            "push constant 3",
            "push constant 4",
            "call Sum.two 2",
            "label HALT",
            "goto HALT",
            "function Sum.two 0",
            "push argument 0",
            "push argument 1",
            "add",
            "return",
        ],
    )]);
    assert_eq!(mem[261], 7);
    assert_eq!(mem[0], 262);
}

#[test]
fn call_preserves_caller_state() {
    let mem = translate_and_run(&[(
        "Test.vm",
        &[
            "function Sys.init 0",
            "push constant 11",
            "pop pointer 0",
            "push constant 22",
            "pop pointer 1",
            "call Noop.f 0",
            "label HALT",
            "goto HALT",
            "function Noop.f 2",
            "push constant 0",
            "return",
        ],
    )]);
    assert_eq!(mem[3], 11); // this-base survives the call
    assert_eq!(mem[4], 22); // that-base survives the call
    assert_eq!(mem[0], 262); // pre-call stack pointer - 0 args + 1
    assert_eq!(mem[1], 261); // caller's local base restored
    assert_eq!(mem[2], 256); // caller's argument base restored
}

#[test]
fn static_symbols_never_alias_across_modules() {
    let mem = translate_and_run(&[
        (
            "A.vm",
            &[
                "function Sys.init 0",
                "push constant 1",
                "pop static 3",
                "call B.go 0",
                "label HALT",
                "goto HALT",
            ],
        ),
        (
            "B.vm",
            &["function B.go 0", "push constant 2", "pop static 3", "push constant 0", "return"],
        ),
    ]);
    assert_eq!(mem[16], 1); // A.vm's static 3
    assert_eq!(mem[17], 2); // B.vm's static 3, a distinct cell
}

#[test]
fn nested_calls_return_in_order() {
    let mem = translate_and_run(&[(
        "Test.vm",
        &[
            "function Sys.init 0",
            "push constant 10",
            "call Outer.f 1",
            "label HALT",
            "goto HALT",
            "function Outer.f 0",
            "push argument 0",
            "push constant 1",
            "call Inner.g 2",
            "push constant 100",
            "add",
            "return",
            "function Inner.g 0",
            "push argument 0",
            "push argument 1",
            "add",
            "return",
        ],
    )]);
    // Inner.g gives 10 + 1; Outer.f adds 100; the result lands at the
    // caller's new top of stack.
    assert_eq!(mem[261], 111);
    assert_eq!(mem[0], 262);
}
