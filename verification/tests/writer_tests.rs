use vm_translator::code_writer::CodeWriter;
use vm_translator::error::ErrorKind;
use vm_translator::instr::{AValue, Instr};
use vm_translator::parser::Parser;
use vm_translator::translate::translate_file;

fn lines_of(texts: &[&str]) -> Vec<String> {
    texts.iter().map(|s| s.to_string()).collect()
}

fn declared_labels(instrs: &[Instr]) -> Vec<String> {
    let mut out = Vec::new();
    for i in instrs {
        if let Instr::L(s) = i {
            out.push(s.clone());
        }
    }
    out
}

fn symbol_refs(instrs: &[Instr]) -> Vec<String> {
    let mut out = Vec::new();
    for i in instrs {
        if let Instr::A(AValue::Sym(s)) = i {
            out.push(s.clone());
        }
    }
    out
}

#[test]
fn bootstrap_initializes_stack_and_calls_entry() {
    let writer = CodeWriter::new();
    let text = writer.output_text();
    assert!(text.starts_with("@256\nD=A\n@SP\nM=D\n"));
    assert!(symbol_refs(writer.instructions()).contains(&"Sys.init".to_string()));
    assert!(declared_labels(writer.instructions()).contains(&"Bootstrap$ret.0".to_string()));
}

#[test]
fn push_constant_instruction_text() {
    let mut writer = CodeWriter::new();
    let before = writer.output_text();
    writer.write_push_pop("push", "constant", 7).unwrap();
    let text = writer.output_text();
    assert_eq!(&text[before.len()..], "@7\nD=A\n@SP\nA=M\nM=D\n@SP\nM=M+1\n");
}

#[test]
fn large_constant_renders_in_decimal() {
    let mut writer = CodeWriter::new();
    writer.write_push_pop("push", "constant", 2147483647).unwrap();
    assert!(writer.output_text().contains("@2147483647\n"));
}

#[test]
fn pop_constant_is_syntax_error() {
    let mut writer = CodeWriter::new();
    let e = writer.write_push_pop("pop", "constant", 0).unwrap_err();
    assert_eq!(e.kind, ErrorKind::SyntaxError);
    assert_eq!(e.text, "constant");
}

#[test]
fn unknown_segment_is_syntax_error() {
    let mut writer = CodeWriter::new();
    let e = writer.write_push_pop("push", "heap", 0).unwrap_err();
    assert_eq!(e.kind, ErrorKind::SyntaxError);
    assert_eq!(e.text, "heap");
}

#[test]
fn unknown_push_pop_keyword_is_syntax_error() {
    let mut writer = CodeWriter::new();
    let e = writer.write_push_pop("pushx", "local", 0).unwrap_err();
    assert_eq!(e.kind, ErrorKind::SyntaxError);
    assert_eq!(e.text, "pushx");
}

#[test]
fn unknown_arithmetic_operator_is_syntax_error() {
    let mut writer = CodeWriter::new();
    let e = writer.write_arithmetic("mul", "1").unwrap_err();
    assert_eq!(e.kind, ErrorKind::SyntaxError);
    assert_eq!(e.text, "mul");
}

#[test]
fn labels_are_scoped_by_function() {
    let mut writer = CodeWriter::new();
    writer.write_function("Main.loop", 0);
    writer.write_label("TOP");
    writer.write_goto("TOP");
    let labels = declared_labels(writer.instructions());
    assert!(labels.contains(&"Main.loop$TOP".to_string()));
    assert!(symbol_refs(writer.instructions()).contains(&"Main.loop$TOP".to_string()));

    writer.write_function("Other.f", 0);
    writer.write_label("TOP");
    let labels = declared_labels(writer.instructions());
    assert!(labels.contains(&"Other.f$TOP".to_string()));
}

#[test]
fn static_symbols_are_module_scoped() {
    let mut writer = CodeWriter::new();
    writer.set_source_file("A.vm");
    writer.write_push_pop("push", "static", 3).unwrap();
    writer.set_source_file("B.vm");
    writer.write_push_pop("push", "static", 3).unwrap();
    let refs = symbol_refs(writer.instructions());
    assert!(refs.contains(&"A.vm.3".to_string()));
    assert!(refs.contains(&"B.vm.3".to_string()));
}

#[test]
fn comparison_call_sites_never_share_branch_labels() {
    let mut writer = CodeWriter::new();
    writer.write_arithmetic("gt", "M.0").unwrap();
    writer.write_arithmetic("gt", "M.1").unwrap();
    let labels = declared_labels(writer.instructions());
    assert!(labels.contains(&"HIT_M.0".to_string()));
    assert!(labels.contains(&"CONTINUE_M.0".to_string()));
    assert!(labels.contains(&"HIT_M.1".to_string()));
    assert!(labels.contains(&"CONTINUE_M.1".to_string()));
    let mut sorted = labels.clone();
    sorted.sort();
    sorted.dedup();
    assert_eq!(sorted.len(), labels.len());
}

#[test]
fn call_counter_numbers_return_addresses_per_function() {
    let mut writer = CodeWriter::new();
    writer.write_function("f", 0);
    writer.write_call("g", 0);
    writer.write_call("g", 0);
    writer.write_function("h", 0);
    writer.write_call("g", 1);
    let labels = declared_labels(writer.instructions());
    assert!(labels.contains(&"f$ret.0".to_string()));
    assert!(labels.contains(&"f$ret.1".to_string()));
    assert!(labels.contains(&"h$ret.0".to_string()));
}

#[test]
fn close_emits_halt_loop() {
    let mut writer = CodeWriter::new();
    writer.close();
    assert!(writer.output_text().ends_with("(END)\n@END\n0;JMP\n"));
}

#[test]
fn translate_simple_program() {
    let mut writer = CodeWriter::new();
    let mut parser = Parser::new(lines_of(&[
        "// a small program",
        "push constant 7",
        "push constant 8",
        "add",
        "",
    ]));
    translate_file(&mut writer, &mut parser, "Prog.vm").unwrap();
    writer.close();
    let text = writer.output_text();
    assert!(text.contains("@7\n"));
    assert!(text.contains("@8\n"));
    assert!(text.ends_with("(END)\n@END\n0;JMP\n"));
}

#[test]
fn translate_reports_syntax_error() {
    let mut writer = CodeWriter::new();
    let mut parser = Parser::new(lines_of(&["push constant 1", "???"]));
    let e = translate_file(&mut writer, &mut parser, "Prog.vm").unwrap_err();
    assert_eq!(e.kind, ErrorKind::SyntaxError);
    assert_eq!(e.text, "???");
}

#[test]
fn translate_reports_missing_operand() {
    let mut writer = CodeWriter::new();
    let mut parser = Parser::new(lines_of(&["push local"]));
    let e = translate_file(&mut writer, &mut parser, "Prog.vm").unwrap_err();
    assert_eq!(e.kind, ErrorKind::ArityError);
}

#[test]
fn translate_trailing_blanks_emit_nothing_extra() {
    let mut writer = CodeWriter::new();
    let mut parser = Parser::new(lines_of(&["push constant 1234", "", "   ", "// done"]));
    translate_file(&mut writer, &mut parser, "Prog.vm").unwrap();
    let text = writer.output_text();
    assert_eq!(text.matches("@1234\n").count(), 1);
}
