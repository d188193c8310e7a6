//! Translation of one module: feeds every command the reader produces to
//! the generator, in source order, threading the translation state.

use vstd::prelude::*;

use crate::code_writer::{arith_seq, call_seq, function_seq, goto_seq, if_seq, is_pop_seg,
    is_push_seg, pop_seq, push_seq, ret_sym, return_seq, scoped_label, CodeWriter, decl};
use crate::error::{err_is, ErrorKind, TranslateError};
use crate::instr::SpecInstr;
use crate::parser::{next_command_line, spec_classify, CommandType, Parser};
use crate::text::{clean_line, dec_str, spec_parse_i32, spec_starts_with, split_tokens,
    u64_to_string};

verus! {

/// The label id of the command numbered `n` of a module: qualifies the
/// branch labels of comparisons so that no two call sites share one.
pub open spec fn site_id(module: Seq<char>, n: nat) -> Seq<char> {
    module + "."@ + dec_str(n)
}

fn site_id_string(module: &str, n: u64) -> (r: String)
    ensures
        r@ == site_id(module@, n as nat),
{
    let mut s = module.to_owned();
    s.append(".");
    let num = u64_to_string(n);
    s.append(num.as_str());
    s
}

/// Outcome of translating one command: instructions to emit and the new
/// translation state, or a fatal error.
pub enum CmdStep {
    Emit { code: Seq<SpecInstr>, func: Seq<char>, count: nat },
    Fail { kind: ErrorKind, text: Seq<char> },
}

/// Outcome of translating a module from some point on: the instructions
/// emitted and the final translation state, or the instructions emitted up
/// to the first fatal error together with that error.
pub enum TransResult {
    Done { code: Seq<SpecInstr>, func: Seq<char>, count: nat },
    Fail { code: Seq<SpecInstr>, kind: ErrorKind, text: Seq<char> },
}

/// What one classified command `c` (the `n`-th of module `m`), translates
/// to, given the current function `func` and call-site counter `count`.
pub open spec fn step_command(
    kind: CommandType,
    c: Seq<char>,
    n: nat,
    func: Seq<char>,
    count: nat,
    m: Seq<char>,
) -> CmdStep {
    let toks = split_tokens(c);
    match kind {
        CommandType::Arithmetic => CmdStep::Emit {
            code: arith_seq(toks[0], site_id(m, n)),
            func,
            count,
        },
        CommandType::Push | CommandType::Pop => {
            if toks.len() < 3 {
                CmdStep::Fail { kind: ErrorKind::ArityError, text: c }
            } else {
                match spec_parse_i32(toks[2]) {
                    None => CmdStep::Fail { kind: ErrorKind::ArityError, text: c },
                    Some(v) => {
                        if v < 0 {
                            CmdStep::Fail { kind: ErrorKind::ArityError, text: c }
                        } else if kind == CommandType::Push {
                            if toks[0] == "push"@ {
                                if is_push_seg(toks[1]) {
                                    CmdStep::Emit {
                                        code: push_seq(toks[1], v as nat, m),
                                        func,
                                        count,
                                    }
                                } else {
                                    CmdStep::Fail { kind: ErrorKind::SyntaxError, text: toks[1] }
                                }
                            } else {
                                CmdStep::Fail { kind: ErrorKind::SyntaxError, text: toks[0] }
                            }
                        } else {
                            if toks[0] == "pop"@ {
                                if is_pop_seg(toks[1]) {
                                    CmdStep::Emit {
                                        code: pop_seq(toks[1], v as nat, m),
                                        func,
                                        count,
                                    }
                                } else {
                                    CmdStep::Fail { kind: ErrorKind::SyntaxError, text: toks[1] }
                                }
                            } else {
                                CmdStep::Fail { kind: ErrorKind::SyntaxError, text: toks[0] }
                            }
                        }
                    },
                }
            }
        },
        CommandType::Label => {
            if toks.len() < 2 {
                CmdStep::Fail { kind: ErrorKind::ArityError, text: c }
            } else {
                CmdStep::Emit { code: seq![decl(scoped_label(func, toks[1]))], func, count }
            }
        },
        CommandType::Goto => {
            if toks.len() < 2 {
                CmdStep::Fail { kind: ErrorKind::ArityError, text: c }
            } else {
                CmdStep::Emit { code: goto_seq(scoped_label(func, toks[1])), func, count }
            }
        },
        CommandType::If => {
            if toks.len() < 2 {
                CmdStep::Fail { kind: ErrorKind::ArityError, text: c }
            } else {
                CmdStep::Emit { code: if_seq(scoped_label(func, toks[1])), func, count }
            }
        },
        CommandType::Function => {
            if toks.len() < 3 {
                CmdStep::Fail { kind: ErrorKind::ArityError, text: c }
            } else {
                match spec_parse_i32(toks[2]) {
                    None => CmdStep::Fail { kind: ErrorKind::ArityError, text: c },
                    Some(v) => {
                        if v < 0 {
                            CmdStep::Fail { kind: ErrorKind::ArityError, text: c }
                        } else {
                            CmdStep::Emit {
                                code: function_seq(toks[1], v as nat),
                                func: toks[1],
                                count: 0,
                            }
                        }
                    },
                }
            }
        },
        CommandType::Call => {
            if toks.len() < 3 {
                CmdStep::Fail { kind: ErrorKind::ArityError, text: c }
            } else {
                match spec_parse_i32(toks[2]) {
                    None => CmdStep::Fail { kind: ErrorKind::ArityError, text: c },
                    Some(v) => {
                        if v < 0 {
                            CmdStep::Fail { kind: ErrorKind::ArityError, text: c }
                        } else {
                            CmdStep::Emit {
                                code: call_seq(toks[1], v as nat, ret_sym(func, count)),
                                func,
                                count: count + 1,
                            }
                        }
                    },
                }
            }
        },
        CommandType::Return => CmdStep::Emit { code: return_seq(), func, count },
    }
}

pub proof fn lemma_next_command_line_bounds(lines: Seq<Seq<char>>, i: int)
    requires
        0 <= i <= lines.len(),
    ensures
        i <= next_command_line(lines, i) <= lines.len(),
    decreases lines.len() - i,
{
    if i < lines.len() && clean_line(lines[i]).len() == 0 {
        lemma_next_command_line_bounds(lines, i + 1);
    }
}

/// What translating the lines from index `i` on produces, starting from
/// command number `n`, current function `func` and call-site counter
/// `count`, in module `m`.
pub open spec fn spec_translate(
    lines: Seq<Seq<char>>,
    i: int,
    n: nat,
    func: Seq<char>,
    count: nat,
    m: Seq<char>,
) -> TransResult
    decreases lines.len() - i,
    when 0 <= i <= lines.len()
    via spec_translate_dec
{
    let j = next_command_line(lines, i);
    if j >= lines.len() {
        TransResult::Done { code: Seq::empty(), func, count }
    } else {
        let c = clean_line(lines[j]);
        match spec_classify(split_tokens(c)[0]) {
            None => TransResult::Fail {
                code: Seq::empty(),
                kind: ErrorKind::SyntaxError,
                text: c,
            },
            Some(k) => match step_command(k, c, n, func, count, m) {
                CmdStep::Fail { kind, text } => TransResult::Fail {
                    code: Seq::empty(),
                    kind,
                    text,
                },
                CmdStep::Emit { code: e, func: f2, count: c2 } => match spec_translate(
                    lines,
                    j + 1,
                    n + 1,
                    f2,
                    c2,
                    m,
                ) {
                    TransResult::Done { code, func, count } => TransResult::Done {
                        code: e + code,
                        func,
                        count,
                    },
                    TransResult::Fail { code, kind, text } => TransResult::Fail {
                        code: e + code,
                        kind,
                        text,
                    },
                },
            },
        }
    }
}

#[via_fn]
proof fn spec_translate_dec(
    lines: Seq<Seq<char>>,
    i: int,
    n: nat,
    func: Seq<char>,
    count: nat,
    m: Seq<char>,
) {
    lemma_next_command_line_bounds(lines, i);
}

proof fn lemma_prepend_assoc(whole: TransResult, rest: TransResult, a: Seq<SpecInstr>, b: Seq<
    SpecInstr>)
    requires
        match rest {
            TransResult::Done { code, func, count } => whole == (TransResult::Done {
                code: a + (b + code),
                func,
                count,
            }),
            TransResult::Fail { code, kind, text } => whole == (TransResult::Fail {
                code: a + (b + code),
                kind,
                text,
            }),
        },
    ensures
        match rest {
            TransResult::Done { code, func, count } => whole == (TransResult::Done {
                code: (a + b) + code,
                func,
                count,
            }),
            TransResult::Fail { code, kind, text } => whole == (TransResult::Fail {
                code: (a + b) + code,
                kind,
                text,
            }),
        },
{
    match rest {
        TransResult::Done { code, func, count } => {
            assert(a + (b + code) =~= (a + b) + code);
        },
        TransResult::Fail { code, kind, text } => {
            assert(a + (b + code) =~= (a + b) + code);
        },
    }
}

/// Translates the command currently held by the reader, updating the
/// generator's state as the command demands.
fn translate_command(writer: &mut CodeWriter, parser: &Parser, module: &str) -> (r: Result<
    (),
    TranslateError,
>)
    requires
        parser.wf(),
        parser.current_cmd is Some,
        parser.next_cmd_number >= 1,
        old(writer).current_function_call_count < u32::MAX,
        match old(writer).source_filename {
            Some(s) => s@ == module@,
            None => false,
        },
    ensures
        final(writer).source_filename == old(writer).source_filename,
        ({
            let cmd = parser.current_cmd->Some_0;
            let step = step_command(
                cmd.cmd_type,
                cmd.cmd_raw@,
                (parser.next_cmd_number - 1) as nat,
                old(writer).func_name(),
                old(writer).current_function_call_count as nat,
                module@,
            );
            match step {
                CmdStep::Emit { code, func, count } => {
                    &&& r is Ok
                    &&& final(writer).code() == old(writer).code() + code
                    &&& final(writer).func_name() == func
                    &&& final(writer).current_function_call_count as nat == count
                },
                CmdStep::Fail { kind, text } => {
                    &&& err_is(r, kind, text)
                    &&& final(writer).code() == old(writer).code()
                    &&& final(writer).func_name() == old(writer).func_name()
                    &&& final(writer).current_function_call_count == old(
                        writer,
                    ).current_function_call_count
                },
            }
        }),
{
    let ghost c = parser.current_cmd->Some_0.cmd_raw@;
    let ghost toks = split_tokens(c);
    let ghost st_n = (parser.next_cmd_number - 1) as nat;
    let ghost st_f = old(writer).func_name();
    let ghost st_c = old(writer).current_function_call_count as nat;
    let kt = match parser.get_cmd_type() {
        Some(k) => k,
        None => {
            proof {
                assert(false);
            }
            CommandType::Return
        },
    };
    let ghost step = step_command(kt, c, st_n, st_f, st_c, module@);
    match kt {
        CommandType::Arithmetic => {
            let cmd_s = match parser.cmd() {
                Ok(v) => v,
                Err(e) => {
                    proof {
                        assert(false);
                    }
                    return Err(e);
                },
            };
            let id = site_id_string(module, (parser.next_cmd_number - 1) as u64);
            match writer.write_arithmetic(cmd_s.as_str(), id.as_str()) {
                Ok(()) => {},
                Err(e) => {
                    proof {
                        assert(false);
                    }
                    return Err(e);
                },
            }
            proof {
                assert(step == (CmdStep::Emit {
                    code: arith_seq(toks[0], site_id(module@, st_n)),
                    func: st_f,
                    count: st_c,
                }));
            }
            Ok(())
        },
        CommandType::Push | CommandType::Pop => {
            let cmd_s = match parser.cmd() {
                Ok(v) => v,
                Err(e) => {
                    proof {
                        assert(false);
                    }
                    return Err(e);
                },
            };
            let a1 = match parser.arg1() {
                Ok(v) => v,
                Err(e) => {
                    return Err(e);
                },
            };
            let a2 = match parser.arg2() {
                Ok(v) => v,
                Err(e) => {
                    return Err(e);
                },
            };
            if a2 < 0 {
                let text = match &parser.current_cmd {
                    Some(cc) => cc.cmd_raw.clone(),
                    None => String::new(),
                };
                return Err(TranslateError { kind: ErrorKind::ArityError, text });
            }
            let w = writer.write_push_pop(cmd_s.as_str(), a1.as_str(), a2);
            proof {
                reveal_strlit("push");
                reveal_strlit("pop");
            }
            match w {
                Ok(()) => {
                    proof {
                        assert(toks.len() >= 3);
                        assert(spec_parse_i32(toks[2]) == Some(a2 as int));
                        assert(cmd_s@ == toks[0]);
                        assert(cmd_s@ == "push"@ || cmd_s@ == "pop"@);
                        if kt == CommandType::Push {
                            assert(spec_starts_with(toks[0], "push"@));
                            assert(toks[0] != "pop"@) by {
                                if toks[0] == "pop"@ {
                                    assert("push"@.len() == 4);
                                    assert("pop"@.len() == 3);
                                }
                            }
                            assert(toks[0] == "push"@);
                            assert(is_push_seg(toks[1]));
                        } else {
                            assert(!spec_starts_with(toks[0], "push"@));
                            assert(toks[0] != "push"@) by {
                                if toks[0] == "push"@ {
                                    assert(toks[0].subrange(0, 4) =~= "push"@);
                                }
                            }
                            assert(toks[0] == "pop"@);
                            assert(is_pop_seg(toks[1]));
                        }
                        let e = if kt == CommandType::Push {
                            push_seq(toks[1], a2 as nat, module@)
                        } else {
                            pop_seq(toks[1], a2 as nat, module@)
                        };
                        assert(step == (CmdStep::Emit { code: e, func: st_f, count: st_c }));
                    }
                    Ok(())
                },
                Err(e) => {
                    return Err(e);
                },
            }
        },
        CommandType::Label => {
            let a1 = match parser.arg1() {
                Ok(v) => v,
                Err(e) => {
                    return Err(e);
                },
            };
            writer.write_label(a1.as_str());
            proof {
                assert(step == (CmdStep::Emit {
                    code: seq![decl(scoped_label(st_f, toks[1]))],
                    func: st_f,
                    count: st_c,
                }));
            }
            Ok(())
        },
        CommandType::Goto => {
            let a1 = match parser.arg1() {
                Ok(v) => v,
                Err(e) => {
                    return Err(e);
                },
            };
            writer.write_goto(a1.as_str());
            proof {
                assert(step == (CmdStep::Emit {
                    code: goto_seq(scoped_label(st_f, toks[1])),
                    func: st_f,
                    count: st_c,
                }));
            }
            Ok(())
        },
        CommandType::If => {
            let a1 = match parser.arg1() {
                Ok(v) => v,
                Err(e) => {
                    return Err(e);
                },
            };
            writer.write_if(a1.as_str());
            proof {
                assert(step == (CmdStep::Emit {
                    code: if_seq(scoped_label(st_f, toks[1])),
                    func: st_f,
                    count: st_c,
                }));
            }
            Ok(())
        },
        CommandType::Function => {
            let a1 = match parser.arg1() {
                Ok(v) => v,
                Err(e) => {
                    return Err(e);
                },
            };
            let a2 = match parser.arg2() {
                Ok(v) => v,
                Err(e) => {
                    return Err(e);
                },
            };
            if a2 < 0 {
                let text = match &parser.current_cmd {
                    Some(cc) => cc.cmd_raw.clone(),
                    None => String::new(),
                };
                return Err(TranslateError { kind: ErrorKind::ArityError, text });
            }
            writer.write_function(a1.as_str(), a2 as u32);
            proof {
                assert(step == (CmdStep::Emit {
                    code: function_seq(toks[1], a2 as nat),
                    func: toks[1],
                    count: 0,
                }));
            }
            Ok(())
        },
        CommandType::Call => {
            let a1 = match parser.arg1() {
                Ok(v) => v,
                Err(e) => {
                    return Err(e);
                },
            };
            let a2 = match parser.arg2() {
                Ok(v) => v,
                Err(e) => {
                    return Err(e);
                },
            };
            if a2 < 0 {
                let text = match &parser.current_cmd {
                    Some(cc) => cc.cmd_raw.clone(),
                    None => String::new(),
                };
                return Err(TranslateError { kind: ErrorKind::ArityError, text });
            }
            writer.write_call(a1.as_str(), a2 as u32);
            proof {
                assert(step == (CmdStep::Emit {
                    code: call_seq(toks[1], a2 as nat, ret_sym(st_f, st_c)),
                    func: st_f,
                    count: st_c + 1,
                }));
            }
            Ok(())
        },
        CommandType::Return => {
            writer.write_return();
            proof {
                assert(step == (CmdStep::Emit {
                    code: return_seq(),
                    func: st_f,
                    count: st_c,
                }));
            }
            Ok(())
        },
    }
}

/// Translates one module: records its name for static scoping, then feeds
/// every command from the reader to the generator in source order. Stops at
/// the first fatal error, leaving the output as emitted up to it.
#[verifier::rlimit(100)]
pub fn translate_file(writer: &mut CodeWriter, parser: &mut Parser, source_file_name: &str) -> (r:
    Result<(), TranslateError>)
    requires
        old(parser).wf(),
        old(writer).current_function_call_count as int + old(parser).lines@.len() - old(
            parser,
        ).next_line_number <= u32::MAX,
    ensures
        final(parser).wf(),
        final(parser).lines == old(parser).lines,
        match final(writer).source_filename {
            Some(s) => s@ == source_file_name@,
            None => false,
        },
        ({
            let t = spec_translate(
                old(parser).line_views(),
                old(parser).next_line_number as int,
                old(parser).next_cmd_number as nat,
                old(writer).func_name(),
                old(writer).current_function_call_count as nat,
                source_file_name@,
            );
            match t {
                TransResult::Done { code, func, count } => {
                    &&& r is Ok
                    &&& final(writer).code() == old(writer).code() + code
                    &&& final(writer).func_name() == func
                    &&& final(writer).current_function_call_count as nat == count
                },
                TransResult::Fail { code, kind, text } => {
                    &&& err_is(r, kind, text)
                    &&& final(writer).code() == old(writer).code() + code
                },
            }
        }),
{
    writer.set_source_file(source_file_name);
    let ghost m = source_file_name@;
    let ghost lines_v = old(parser).line_views();
    let ghost f0 = old(writer).func_name();
    let ghost c0 = old(writer).current_function_call_count as nat;
    let ghost whole = spec_translate(
        lines_v,
        old(parser).next_line_number as int,
        old(parser).next_cmd_number as nat,
        f0,
        c0,
        m,
    );
    let ghost mut emitted: Seq<SpecInstr> = Seq::empty();
    proof {
        assert(old(writer).code() + emitted =~= writer.code());
    }
    loop
        invariant
            parser.wf(),
            parser.lines == old(parser).lines,
            writer.current_function_call_count as int + parser.lines@.len()
                - parser.next_line_number <= u32::MAX,
            match writer.source_filename {
                Some(s) => s@ == source_file_name@,
                None => false,
            },
            writer.code() == old(writer).code() + emitted,
            ({
                let rest = spec_translate(
                    lines_v,
                    parser.next_line_number as int,
                    parser.next_cmd_number as nat,
                    writer.func_name(),
                    writer.current_function_call_count as nat,
                    m,
                );
                match rest {
                    TransResult::Done { code, func, count } => whole == (TransResult::Done {
                        code: emitted + code,
                        func,
                        count,
                    }),
                    TransResult::Fail { code, kind, text } => whole == (TransResult::Fail {
                        code: emitted + code,
                        kind,
                        text,
                    }),
                }
            }),

            whole == spec_translate(
                lines_v,
                old(parser).next_line_number as int,
                old(parser).next_cmd_number as nat,
                f0,
                c0,
                m,
            ),
            lines_v == old(parser).line_views(),
            f0 == old(writer).func_name(),
            c0 == old(writer).current_function_call_count as nat,
            m == source_file_name@,
        decreases parser.lines@.len() - parser.next_line_number,
    {
        let ghost st_f = writer.func_name();
        let ghost st_c = writer.current_function_call_count as nat;
        let ghost st_n = parser.next_cmd_number as nat;
        let ghost nln0 = parser.next_line_number as int;
        let ghost rest0 = spec_translate(lines_v, nln0, st_n, st_f, st_c, m);
        proof {
            assert(parser.lines@.len() == lines_v.len());
            lemma_next_command_line_bounds(lines_v, nln0);
        }
        if !parser.has_more_lines() {
            proof {
                assert(nln0 == lines_v.len());
                assert(next_command_line(lines_v, nln0) == lines_v.len());
                assert(rest0 == (TransResult::Done {
                    code: Seq::<SpecInstr>::empty(),
                    func: st_f,
                    count: st_c,
                }));
                assert(emitted + Seq::<SpecInstr>::empty() =~= emitted);
                assert(old(writer).code() + (emitted + Seq::<SpecInstr>::empty()) =~= old(
                    writer,
                ).code() + emitted);
            }
            return Ok(());
        }
        let ghost j = next_command_line(lines_v, nln0);
        let before_count: usize = parser.next_cmd_number;
        match parser.advance() {
            Err(e) => {
                proof {
                    assert(j < lines_v.len());
                    let copt = spec_classify(split_tokens(clean_line(lines_v[j]))[0]);
                    if copt is Some {
                        assert(false);
                    }
                    let cerr = clean_line(lines_v[j]);
                    assert(rest0 == (TransResult::Fail {
                        code: Seq::<SpecInstr>::empty(),
                        kind: ErrorKind::SyntaxError,
                        text: cerr,
                    }));
                    assert(emitted + Seq::<SpecInstr>::empty() =~= emitted);
                    assert(old(writer).code() + (emitted + Seq::<SpecInstr>::empty()) =~= old(
                        writer,
                    ).code() + emitted);
                }
                return Err(e);
            },
            Ok(()) => {},
        }
        if parser.next_cmd_number != before_count {
            let ghost c = clean_line(lines_v[j]);
            let ghost toks = split_tokens(c);
            let ghost step = step_command(
                parser.current_cmd->Some_0.cmd_type,
                c,
                st_n,
                st_f,
                st_c,
                m,
            );
            match translate_command(writer, parser, source_file_name) {
                Ok(()) => {
                    proof {
                        match step {
                            CmdStep::Emit { code: e, func: f2, count: c2 } => {
                                let rest_next = spec_translate(
                                    lines_v,
                                    j + 1,
                                    (st_n + 1) as nat,
                                    f2,
                                    c2,
                                    m,
                                );
                                lemma_prepend_assoc(whole, rest_next, emitted, e);
                                assert(old(writer).code() + (emitted + e) =~= (old(writer).code()
                                    + emitted) + e);
                                emitted = emitted + e;
                            },
                            CmdStep::Fail { .. } => {
                                assert(false);
                            },
                        }
                    }
                },
                Err(e) => {
                    proof {
                        match step {
                            CmdStep::Fail { kind, text } => {
                                assert(rest0 == (TransResult::Fail {
                                    code: Seq::<SpecInstr>::empty(),
                                    kind,
                                    text,
                                }));
                            },
                            CmdStep::Emit { .. } => {
                                assert(false);
                            },
                        }
                        assert(emitted + Seq::<SpecInstr>::empty() =~= emitted);
                        assert(old(writer).code() + (emitted + Seq::<SpecInstr>::empty()) =~= old(
                            writer,
                        ).code() + emitted);
                    }
                    return Err(e);
                },
            }
        }
    }
}

} // verus!
