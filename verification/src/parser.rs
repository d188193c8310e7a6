//! The reader: turns raw source lines into classified commands.
//!
//! A source line is stripped of everything from its first `//` onward and
//! trimmed; a non-empty remainder is classified into a command by its first
//! whitespace-delimited token. The kind is fixed at classification time and
//! never re-derived from text.

use vstd::prelude::*;

use crate::error::{err_is, ok_str_is, ErrorKind, TranslateError};
use crate::text::{
    clean_line, clean_of_line, first_token, is_space_char, lemma_clean_head, lemma_first_token,
    lemma_token_len_chars, parse_i32, spec_parse_i32, spec_starts_with, split_tokens, split_ws,
    str_eq, str_starts_with, token_len, views_of,
};

verus! {

/// The kind of an intermediate command: a closed tagged variant, fixed when
/// the line is classified.
#[derive(Debug, PartialEq, Eq, Clone, Copy, Structural)]
pub enum CommandType {
    Arithmetic,
    Push,
    Pop,
    Label,
    Goto,
    If,
    Function,
    Return,
    Call,
}

/// Holds when `op` is one of the nine arithmetic operator keywords.
pub open spec fn is_arith_op(op: Seq<char>) -> bool {
    ||| op == "add"@
    ||| op == "sub"@
    ||| op == "neg"@
    ||| op == "eq"@
    ||| op == "gt"@
    ||| op == "lt"@
    ||| op == "and"@
    ||| op == "or"@
    ||| op == "not"@
}

/// The command kind an operator token denotes, or `None` for an operator
/// outside the grammar.
pub open spec fn spec_classify(op: Seq<char>) -> Option<CommandType> {
    if is_arith_op(op) {
        Some(CommandType::Arithmetic)
    } else if spec_starts_with(op, "push"@) {
        Some(CommandType::Push)
    } else if spec_starts_with(op, "pop"@) {
        Some(CommandType::Pop)
    } else if spec_starts_with(op, "label"@) {
        Some(CommandType::Label)
    } else if spec_starts_with(op, "goto"@) {
        Some(CommandType::Goto)
    } else if spec_starts_with(op, "if-goto"@) {
        Some(CommandType::If)
    } else if spec_starts_with(op, "function"@) {
        Some(CommandType::Function)
    } else if spec_starts_with(op, "return"@) {
        Some(CommandType::Return)
    } else if spec_starts_with(op, "call"@) {
        Some(CommandType::Call)
    } else {
        None
    }
}

impl CommandType {
    /// Decides `is_arith_op`.
    pub fn is_arithmetic(cmd: &str) -> (r: bool)
        ensures
            r == is_arith_op(cmd@),
    {
        str_eq(cmd, "add") || str_eq(cmd, "sub") || str_eq(cmd, "neg") || str_eq(cmd, "eq")
            || str_eq(cmd, "gt") || str_eq(cmd, "lt") || str_eq(cmd, "and") || str_eq(cmd, "or")
            || str_eq(cmd, "not")
    }

    pub fn is_push(cmd: &str) -> (r: bool)
        ensures
            r == spec_starts_with(cmd@, "push"@),
    {
        str_starts_with(cmd, "push")
    }

    pub fn is_pop(cmd: &str) -> (r: bool)
        ensures
            r == spec_starts_with(cmd@, "pop"@),
    {
        str_starts_with(cmd, "pop")
    }

    pub fn is_label(cmd: &str) -> (r: bool)
        ensures
            r == spec_starts_with(cmd@, "label"@),
    {
        str_starts_with(cmd, "label")
    }

    pub fn is_goto(cmd: &str) -> (r: bool)
        ensures
            r == spec_starts_with(cmd@, "goto"@),
    {
        str_starts_with(cmd, "goto")
    }

    pub fn is_if(cmd: &str) -> (r: bool)
        ensures
            r == spec_starts_with(cmd@, "if-goto"@),
    {
        str_starts_with(cmd, "if-goto")
    }

    pub fn is_function(cmd: &str) -> (r: bool)
        ensures
            r == spec_starts_with(cmd@, "function"@),
    {
        str_starts_with(cmd, "function")
    }

    pub fn is_return(cmd: &str) -> (r: bool)
        ensures
            r == spec_starts_with(cmd@, "return"@),
    {
        str_starts_with(cmd, "return")
    }

    pub fn is_call(cmd: &str) -> (r: bool)
        ensures
            r == spec_starts_with(cmd@, "call"@),
    {
        str_starts_with(cmd, "call")
    }

    /// Classifies an operator token; `None` is a fatal syntax error.
    pub fn get_type(cmd: &str) -> (r: Option<CommandType>)
        ensures
            r == spec_classify(cmd@),
    {
        if Self::is_arithmetic(cmd) {
            return Some(CommandType::Arithmetic);
        }
        if Self::is_push(cmd) {
            return Some(CommandType::Push);
        }
        if Self::is_pop(cmd) {
            return Some(CommandType::Pop);
        }
        if Self::is_label(cmd) {
            return Some(CommandType::Label);
        }
        if Self::is_goto(cmd) {
            return Some(CommandType::Goto);
        }
        if Self::is_if(cmd) {
            return Some(CommandType::If);
        }
        if Self::is_function(cmd) {
            return Some(CommandType::Function);
        }
        if Self::is_return(cmd) {
            return Some(CommandType::Return);
        }
        if Self::is_call(cmd) {
            return Some(CommandType::Call);
        }
        None
    }
}

/// An immutable command produced by the reader.
#[derive(Debug, PartialEq, Eq, Clone)]
pub struct Canmand {
    pub cmd_type: CommandType,
    /// The original comment-stripped, trimmed source line.
    pub cmd_raw: String,
}

impl Canmand {
    /// The command text is non-empty, starts with its operator, and its kind
    /// is the one its operator was classified to.
    pub open spec fn wf(self) -> bool {
        &&& self.cmd_raw@.len() > 0
        &&& !is_space_char(self.cmd_raw@[0])
        &&& spec_classify(split_tokens(self.cmd_raw@)[0]) == Some(self.cmd_type)
    }
}

/// The reader over one module's source lines.
pub struct Parser {
    /// Count of commands read so far.
    pub next_cmd_number: usize,
    pub lines: Vec<String>,
    pub next_line_number: usize,
    pub current_cmd: Option<Canmand>,
}

/// Index of the first line at or after `i` whose cleaned text is non-empty,
/// or the number of lines if every remaining line is blank.
pub open spec fn next_command_line(lines: Seq<Seq<char>>, i: int) -> int
    decreases lines.len() - i,
    when i <= lines.len()
{
    if i >= lines.len() {
        lines.len() as int
    } else if clean_line(lines[i]).len() > 0 {
        i
    } else {
        next_command_line(lines, i + 1)
    }
}

impl Parser {
    /// The character sequences of the source lines.
    pub open spec fn line_views(self) -> Seq<Seq<char>> {
        views_of(self.lines@)
    }

    pub open spec fn wf(self) -> bool {
        &&& self.next_line_number <= self.lines@.len()
        &&& self.next_cmd_number <= self.next_line_number
        &&& match self.current_cmd {
            Some(c) => c.wf(),
            None => true,
        }
    }

    /// A fresh reader over `lines`: nothing read yet.
    pub fn new(lines: Vec<String>) -> (p: Parser)
        ensures
            p.wf(),
            p.lines == lines,
            p.next_line_number == 0,
            p.next_cmd_number == 0,
            p.current_cmd is None,
    {
        Parser { next_cmd_number: 0, lines, next_line_number: 0, current_cmd: None }
    }

    /// True while unconsumed lines remain.
    pub fn has_more_lines(&self) -> (r: bool)
        ensures
            r == (self.next_line_number < self.lines@.len()),
    {
        self.next_line_number < self.lines.len()
    }

    /// Consumes lines until one is non-empty after comment stripping and
    /// trimming, and classifies it; a no-op once input is exhausted. An
    /// operator outside the grammar is a fatal syntax error.
    pub fn advance(&mut self) -> (r: Result<(), TranslateError>)
        requires
            old(self).wf(),
        ensures
            final(self).wf(),
            final(self).lines == old(self).lines,
            r is Err ==> ({
                let j = next_command_line(old(self).line_views(), old(self).next_line_number as int);
                &&& j < old(self).line_views().len()
                &&& spec_classify(split_tokens(clean_line(old(self).line_views()[j]))[0]) is None
            }),
            ({
                let j = next_command_line(old(self).line_views(), old(self).next_line_number as int);
                if j == old(self).line_views().len() {
                    &&& r is Ok
                    &&& final(self).next_line_number == j
                    &&& final(self).next_cmd_number == old(self).next_cmd_number
                    &&& final(self).current_cmd == old(self).current_cmd
                } else {
                    let c = clean_line(old(self).line_views()[j]);
                    match spec_classify(split_tokens(c)[0]) {
                        Some(k) => {
                            &&& r is Ok
                            &&& final(self).next_line_number == j + 1
                            &&& final(self).next_cmd_number == old(self).next_cmd_number + 1
                            &&& match final(self).current_cmd {
                                Some(cmd) => cmd.cmd_type == k && cmd.cmd_raw@ == c,
                                None => false,
                            }
                        },
                        None => {
                            &&& err_is(r, ErrorKind::SyntaxError, c)
                            &&& final(self).next_line_number == j + 1
                            &&& final(self).next_cmd_number == old(self).next_cmd_number
                            &&& final(self).current_cmd == old(self).current_cmd
                        },
                    }
                }
            }),
    {
        loop
            invariant
                self.wf(),
                self.lines == old(self).lines,
                self.next_cmd_number == old(self).next_cmd_number,
                self.current_cmd == old(self).current_cmd,
                old(self).next_line_number <= self.next_line_number,
                next_command_line(old(self).line_views(), old(self).next_line_number as int)
                    == next_command_line(self.line_views(), self.next_line_number as int),
            decreases self.lines@.len() - self.next_line_number,
        {
            if !self.has_more_lines() {
                return Ok(());
            }
            let n = self.lines.len();
            assert(self.next_line_number < n);
            let ghost nln = self.next_line_number as int;
            let cleaned = clean_of_line(self.lines[self.next_line_number].as_str());
            self.next_line_number = self.next_line_number + 1;
            if cleaned.unicode_len() != 0 {
                proof {
                    lemma_clean_head(self.line_views()[nln]);
                    lemma_first_token(cleaned@);
                }
                let op = first_token(cleaned.as_str());
                match CommandType::get_type(op.as_str()) {
                    Some(k) => {
                        self.next_cmd_number = self.next_cmd_number + 1;
                        self.current_cmd = Some(Canmand { cmd_type: k, cmd_raw: cleaned });
                        return Ok(());
                    },
                    None => {
                        return Err(
                            TranslateError { kind: ErrorKind::SyntaxError, text: cleaned },
                        );
                    },
                }
            }
        }
    }

    /// Kind of the command currently held, if any.
    pub fn get_cmd_type(&self) -> (r: Option<CommandType>)
        ensures
            r == match self.current_cmd {
                Some(c) => Some(c.cmd_type),
                None => None,
            },
    {
        match &self.current_cmd {
            Some(c) => Some(c.cmd_type),
            None => None,
        }
    }

    /// The current command's operator: the first whitespace-delimited token
    /// of its comment-stripped, trimmed text. Fails with a context error
    /// before any command has been read.
    pub fn cmd(&self) -> (r: Result<String, TranslateError>)
        requires
            self.wf(),
        ensures
            match self.current_cmd {
                Some(c) => ok_str_is(r, split_tokens(c.cmd_raw@)[0]),
                None => err_is(r, ErrorKind::ContextError, Seq::empty()),
            },
    {
        match &self.current_cmd {
            Some(c) => Ok(first_token(c.cmd_raw.as_str())),
            None => Err(TranslateError { kind: ErrorKind::ContextError, text: String::new() }),
        }
    }

    /// The current command's symbol operand: the command text itself for an
    /// arithmetic command, otherwise the second token. Fails with a context
    /// error on a return command or before any command has been read, and
    /// with an arity error when the operand token is missing.
    pub fn arg1(&self) -> (r: Result<String, TranslateError>)
        requires
            self.wf(),
        ensures
            match self.current_cmd {
                Some(c) => match c.cmd_type {
                    CommandType::Arithmetic => ok_str_is(r, c.cmd_raw@),
                    CommandType::Return => err_is(r, ErrorKind::ContextError, c.cmd_raw@),
                    _ => {
                        let toks = split_tokens(c.cmd_raw@);
                        if toks.len() >= 2 {
                            ok_str_is(r, toks[1])
                        } else {
                            err_is(r, ErrorKind::ArityError, c.cmd_raw@)
                        }
                    },
                },
                None => err_is(r, ErrorKind::ContextError, Seq::empty()),
            },
    {
        match &self.current_cmd {
            Some(c) => match c.cmd_type {
                CommandType::Arithmetic => Ok(c.cmd_raw.clone()),
                CommandType::Return => Err(
                    TranslateError { kind: ErrorKind::ContextError, text: c.cmd_raw.clone() },
                ),
                _ => {
                    let toks = split_ws(c.cmd_raw.as_str());
                    if toks.len() < 2 {
                        Err(TranslateError { kind: ErrorKind::ArityError, text: c.cmd_raw.clone() })
                    } else {
                        proof {
                            assert(views_of(toks@)[1] == toks@[1]@);
                        }
                        Ok(toks[1].clone())
                    }
                },
            },
            None => Err(TranslateError { kind: ErrorKind::ContextError, text: String::new() }),
        }
    }

    /// The current command's numeric operand: the third token parsed as a
    /// 32-bit integer. Supported only by push, pop, function and call
    /// commands; anything else fails with a context error, and a missing or
    /// non-numeric token with an arity error.
    pub fn arg2(&self) -> (r: Result<i32, TranslateError>)
        requires
            self.wf(),
        ensures
            match self.current_cmd {
                Some(c) => match c.cmd_type {
                    CommandType::Push | CommandType::Pop | CommandType::Function
                        | CommandType::Call => {
                        let toks = split_tokens(c.cmd_raw@);
                        if toks.len() >= 3 {
                            match spec_parse_i32(toks[2]) {
                                Some(v) => r matches Ok(x) && x as int == v,
                                None => err_is(r, ErrorKind::ArityError, c.cmd_raw@),
                            }
                        } else {
                            err_is(r, ErrorKind::ArityError, c.cmd_raw@)
                        }
                    },
                    _ => err_is(r, ErrorKind::ContextError, c.cmd_raw@),
                },
                None => err_is(r, ErrorKind::ContextError, Seq::empty()),
            },
    {
        match &self.current_cmd {
            Some(c) => match c.cmd_type {
                CommandType::Push | CommandType::Pop | CommandType::Function
                    | CommandType::Call => {
                    let toks = split_ws(c.cmd_raw.as_str());
                    if toks.len() < 3 {
                        Err(TranslateError { kind: ErrorKind::ArityError, text: c.cmd_raw.clone() })
                    } else {
                        proof {
                            assert(views_of(toks@)[2] == toks@[2]@);
                        }
                        match parse_i32(toks[2].as_str()) {
                            Some(v) => Ok(v),
                            None => Err(
                                TranslateError {
                                    kind: ErrorKind::ArityError,
                                    text: c.cmd_raw.clone(),
                                },
                            ),
                        }
                    }
                },
                _ => Err(TranslateError { kind: ErrorKind::ContextError, text: c.cmd_raw.clone() }),
            },
            None => Err(TranslateError { kind: ErrorKind::ContextError, text: String::new() }),
        }
    }
}

/// For every source line that yields a command, the command's operator —
/// what `cmd` returns — is the first whitespace-delimited token of the
/// comment-stripped, trimmed line: the maximal whitespace-free prefix of
/// the cleaned text.
pub proof fn lemma_operator_is_first_token(line: Seq<char>)
    ensures
        clean_line(line).len() > 0 ==> ({
            let c = clean_line(line);
            let t = split_tokens(c)[0];
            &&& split_tokens(c).len() >= 1
            &&& t == c.subrange(0, t.len() as int)
            &&& forall|k: int| 0 <= k < t.len() ==> !is_space_char(c[k])
            &&& t.len() == c.len() || is_space_char(c[t.len() as int])
        }),
{
    if clean_line(line).len() > 0 {
        let c = clean_line(line);
        lemma_clean_head(line);
        lemma_first_token(c);
        lemma_token_len_chars(c);
        assert(split_tokens(c)[0] == c.subrange(0, token_len(c) as int));
        assert(c.subrange(0, token_len(c) as int).len() == token_len(c));
    }
}

} // verus!
