use vm_translator::parser::{CommandType, Parser};

/// Ten numbered lines, as the default test input.
fn numbered_lines() -> Vec<String> {
    (0..10).map(|i| i.to_string()).collect()
}

fn lines_of(texts: &[&str]) -> Vec<String> {
    texts.iter().map(|s| s.to_string()).collect()
}

#[test]
fn test_lines() {
    let lines = numbered_lines();
    let parser = Parser::new(lines.clone());

    assert_eq!(parser.lines.len(), lines.len());
}

#[test]
fn test_has_more_lines() {
    let lines = numbered_lines();
    let mut parser = Parser::new(lines.clone());

    assert_eq!(parser.next_line_number, 0);

    parser.next_line_number = lines.len() - 1;
    assert!(parser.has_more_lines());

    parser.next_line_number = lines.len();
    assert!(!parser.has_more_lines());
}

#[test]
fn test_empty_file() {
    let parser = Parser::new(Vec::new());

    assert_eq!(parser.current_cmd, None);
    assert_eq!(parser.next_line_number, 0);
    assert_eq!(parser.next_cmd_number, 0);
    assert!(!parser.has_more_lines());
}

#[test]
fn test_advance_skip_comment() {
    let mut parser = Parser::new(lines_of(&["add", "//comment1", "push local 1"]));

    assert_eq!(parser.current_cmd, None);

    parser.advance().unwrap();
    assert_eq!(parser.current_cmd.clone().unwrap().cmd_raw, "add");

    parser.advance().unwrap();
    assert_eq!(parser.current_cmd.clone().unwrap().cmd_raw, "push local 1");
}

#[test]
fn test_advance_next_cmd_and_line_number() {
    let mut parser = Parser::new(lines_of(&["add", "//comment1", "push local 1"]));

    assert_eq!(parser.next_cmd_number, 0);
    assert_eq!(parser.next_line_number, 0);

    parser.advance().unwrap();
    assert_eq!(parser.next_cmd_number, 1);
    assert_eq!(parser.next_line_number, 1);

    parser.advance().unwrap();
    assert_eq!(parser.next_cmd_number, 2);
    assert_eq!(parser.next_line_number, 3);
}

#[test]
fn test_get_cmd_type_arithmetic() {
    let mut parser = Parser::new(lines_of(&[
        "add", "sub", "neg", "eq", "gt", "lt", "and", "or", "not",
    ]));

    assert_eq!(parser.get_cmd_type(), None);

    loop {
        if !parser.has_more_lines() {
            return;
        }
        parser.advance().unwrap();
        assert_eq!(parser.get_cmd_type(), Some(CommandType::Arithmetic));
    }
}

#[test]
fn test_get_cmd_type_push() {
    let mut parser = Parser::new(lines_of(&["push local 1", "push static 2"]));

    assert_eq!(parser.get_cmd_type(), None);

    loop {
        if !parser.has_more_lines() {
            return;
        }
        parser.advance().unwrap();
        assert_eq!(parser.get_cmd_type(), Some(CommandType::Push));
    }
}

#[test]
fn test_get_cmd_type_pop() {
    let mut parser = Parser::new(lines_of(&["pop local 1", "pop static 2"]));

    assert_eq!(parser.get_cmd_type(), None);

    loop {
        if !parser.has_more_lines() {
            return;
        }
        parser.advance().unwrap();
        assert_eq!(parser.get_cmd_type(), Some(CommandType::Pop));
    }
}

#[test]
fn test_get_cmd_type_label() {
    let mut parser = Parser::new(lines_of(&["label LABEL1", "label LABEL2"]));

    assert_eq!(parser.get_cmd_type(), None);

    loop {
        if !parser.has_more_lines() {
            return;
        }
        parser.advance().unwrap();
        assert_eq!(parser.get_cmd_type(), Some(CommandType::Label));
    }
}

#[test]
fn test_get_cmd_type_goto() {
    let mut parser = Parser::new(lines_of(&["goto LABEL1", "goto LABEL2"]));

    assert_eq!(parser.get_cmd_type(), None);

    loop {
        if !parser.has_more_lines() {
            return;
        }
        parser.advance().unwrap();
        assert_eq!(parser.get_cmd_type(), Some(CommandType::Goto));
    }
}

#[test]
fn test_get_cmd_type_if() {
    let mut parser = Parser::new(lines_of(&["if-goto LABEL1", "if-goto LABEL2"]));

    assert_eq!(parser.get_cmd_type(), None);

    loop {
        if !parser.has_more_lines() {
            return;
        }
        parser.advance().unwrap();
        assert_eq!(parser.get_cmd_type(), Some(CommandType::If));
    }
}

#[test]
fn test_get_cmd_type_function() {
    let mut parser = Parser::new(lines_of(&["function f1 0", "function f2 3"]));

    assert_eq!(parser.get_cmd_type(), None);

    loop {
        if !parser.has_more_lines() {
            return;
        }
        parser.advance().unwrap();
        assert_eq!(parser.get_cmd_type(), Some(CommandType::Function));
    }
}

#[test]
fn test_get_cmd_type_call() {
    let mut parser = Parser::new(lines_of(&["call f1 0", "call f2 3"]));

    assert_eq!(parser.get_cmd_type(), None);

    loop {
        if !parser.has_more_lines() {
            return;
        }
        parser.advance().unwrap();
        assert_eq!(parser.get_cmd_type(), Some(CommandType::Call));
    }
}

#[test]
fn test_get_cmd_type_return() {
    let mut parser = Parser::new(lines_of(&["return"]));

    assert_eq!(parser.get_cmd_type(), None);

    parser.advance().unwrap();
    assert_eq!(parser.get_cmd_type(), Some(CommandType::Return));
}

#[test]
fn test_arg1_arithmetic() {
    let mut parser = Parser::new(lines_of(&["add", "not"]));

    parser.advance().unwrap();
    assert_eq!(parser.arg1().unwrap(), "add");

    parser.advance().unwrap();
    assert_eq!(parser.arg1().unwrap(), "not");
}

#[test]
fn test_arg1_not_arithmetic() {
    let mut parser = Parser::new(lines_of(&[
        "push local 1",
        "pop static 2",
        "label LABEL1",
        "goto LABEL2",
        "if-goto LABEL3",
        "function functionName 3",
        "call functionName 3",
    ]));

    parser.advance().unwrap();
    assert_eq!(parser.arg1().unwrap(), "local");

    parser.advance().unwrap();
    assert_eq!(parser.arg1().unwrap(), "static");

    parser.advance().unwrap();
    assert_eq!(parser.arg1().unwrap(), "LABEL1");

    parser.advance().unwrap();
    assert_eq!(parser.arg1().unwrap(), "LABEL2");

    parser.advance().unwrap();
    assert_eq!(parser.arg1().unwrap(), "LABEL3");

    parser.advance().unwrap();
    assert_eq!(parser.arg1().unwrap(), "functionName");

    parser.advance().unwrap();
    assert_eq!(parser.arg1().unwrap(), "functionName");
}

#[test]
fn test_arg2_in_push_and_pop() {
    let mut parser = Parser::new(lines_of(&["push local 1", "pop static 2"]));

    parser.advance().unwrap();
    assert_eq!(parser.arg2().unwrap(), 1);

    parser.advance().unwrap();
    assert_eq!(parser.arg2().unwrap(), 2);
}

#[test]
fn test_arg2_in_function_and_call() {
    let mut parser = Parser::new(lines_of(&["function functionName 3", "call functionName 3"]));

    parser.advance().unwrap();
    assert_eq!(parser.arg2().unwrap(), 3);

    parser.advance().unwrap();
    assert_eq!(parser.arg2().unwrap(), 3);
}

#[test]
fn test_cmd() {
    let mut parser = Parser::new(lines_of(&["push local 1", "pop static 2"]));

    parser.advance().unwrap();
    assert_eq!(parser.cmd().unwrap(), "push");

    parser.advance().unwrap();
    assert_eq!(parser.cmd().unwrap(), "pop");
}
