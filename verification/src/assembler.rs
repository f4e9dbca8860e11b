//! A thin line-oriented assembly front-end: it tokenizes source lines, maps
//! human-readable labels to allocated binding ids, drives the builder's
//! emission operations, patches forward block references once every label is
//! known, and hands the finished stream to the interpreter.
//!
//! The front-end is a collaborator around the core: it performs no
//! computation of its own beyond tokenizing and label bookkeeping, and every
//! fault is surfaced as a message rather than a panic.

use vstd::prelude::*;

verus! {

use vstd::string::StrSliceExecFns;
use vstd::string::StringExecFns;
use crate::builder::BytecodeBuilder;
use crate::exec::Executor;
use crate::text::{Order, str_compare, parse_u32, push_char};

/// The text and next index a quoted-literal scan produces, starting just
/// past the opening quote with `acc` already decoded: a backslash arms an
/// escape; an armed escape turns the letters for newline, tab, carriage
/// return and the zero character, and the quote itself, into those
/// characters; an unescaped quote ends the literal; an unterminated literal
/// ends with the line.
pub open spec fn scan_text(line: Seq<char>, i: int, escape: bool, acc: Seq<char>) -> (Seq<
    char,
>, int)
    decreases line.len() - i,
{
    if i < 0 || i >= line.len() {
        (acc, i)
    } else {
        let c = line[i];
        if c == '\\' {
            scan_text(line, i + 1, true, acc)
        } else if c == '"' {
            if escape {
                scan_text(line, i + 1, false, acc.push('"'))
            } else {
                (acc, i + 1)
            }
        } else if c == 'n' && escape {
            scan_text(line, i + 1, false, acc.push('\n'))
        } else if c == 't' && escape {
            scan_text(line, i + 1, false, acc.push('\t'))
        } else if c == 'r' && escape {
            scan_text(line, i + 1, false, acc.push('\r'))
        } else if c == '0' && escape {
            scan_text(line, i + 1, false, acc.push('\0'))
        } else {
            scan_text(line, i + 1, escape, acc.push(c))
        }
    }
}

proof fn lemma_scan_text_bounds(line: Seq<char>, i: int, escape: bool, acc: Seq<char>)
    requires
        0 <= i <= line.len(),
    ensures
        i <= scan_text(line, i, escape, acc).1 <= line.len(),
    decreases line.len() - i,
{
    if i < line.len() {
        let c = line[i];
        if c == '\\' {
            lemma_scan_text_bounds(line, i + 1, true, acc);
        } else if c == '"' {
            if escape {
                lemma_scan_text_bounds(line, i + 1, false, acc.push('"'));
            }
        } else if c == 'n' && escape {
            lemma_scan_text_bounds(line, i + 1, false, acc.push('\n'));
        } else if c == 't' && escape {
            lemma_scan_text_bounds(line, i + 1, false, acc.push('\t'));
        } else if c == 'r' && escape {
            lemma_scan_text_bounds(line, i + 1, false, acc.push('\r'));
        } else if c == '0' && escape {
            lemma_scan_text_bounds(line, i + 1, false, acc.push('\0'));
        } else {
            lemma_scan_text_bounds(line, i + 1, escape, acc.push(c));
        }
    }
}

/// True for the characters that separate tokens.
pub open spec fn is_blank_char(c: char) -> bool {
    c == ' ' || c == '\t' || c == '\r' || c == '\n'
}

/// The tokens an instruction line splits into, scanning from `i` with the
/// pending word `buff` and the tokens `acc` already split off: whitespace
/// ends the pending word (possibly empty), a quoted literal becomes a token
/// of its own, and a non-empty pending word at the end of the line becomes
/// the last token.
pub open spec fn tokenize(line: Seq<char>, i: int, buff: Seq<char>, acc: Seq<Seq<char>>) -> Seq<
    Seq<char>,
>
    decreases line.len() - i,
    when 0 <= i
    via tokenize_decreases
{
    if i >= line.len() {
        if buff.len() > 0 {
            acc.push(buff)
        } else {
            acc
        }
    } else {
        let c = line[i];
        if c == '"' {
            let scanned = scan_text(line, i + 1, false, Seq::empty());
            tokenize(line, scanned.1, buff, acc.push(scanned.0))
        } else if is_blank_char(c) {
            tokenize(line, i + 1, Seq::empty(), acc.push(buff))
        } else {
            tokenize(line, i + 1, buff.push(c), acc)
        }
    }
}

#[via_fn]
proof fn tokenize_decreases(line: Seq<char>, i: int, buff: Seq<char>, acc: Seq<Seq<char>>) {
    if 0 <= i < line.len() && line[i] == '"' {
        lemma_scan_text_bounds(line, i + 1, false, Seq::empty());
    }
}

/// The parser: raw source text and the label-to-binding-id table.
pub struct Parser {
    src: String,
    vars: Vec<(String, u32)>,
}

fn tok_is(t: &str, lit: &str) -> (r: bool)
    ensures
        r == (t@ == lit@),
{
    str_compare(t, lit) == Order::Equal
}

fn split_lines(s: &str) -> (r: Vec<String>) {
    let n = s.unicode_len();
    let mut lines: Vec<String> = Vec::new();
    let mut cur = String::new();
    let mut i: usize = 0;
    while i < n
        invariant
            n == s@.len(),
            0 <= i <= n,
        decreases n - i,
    {
        let c = s.get_char(i);
        if c == '\n' {
            lines.push(cur);
            cur = String::new();
        } else {
            push_char(&mut cur, c);
        }
        i = i + 1;
    }
    lines.push(cur);
    lines
}

fn is_blank(c: char) -> (r: bool)
    ensures
        r == is_blank_char(c),
{
    c == ' ' || c == '\t' || c == '\r' || c == '\n'
}

fn trim_blanks(s: &str) -> (r: String) {
    let n = s.unicode_len();
    let mut start: usize = 0;
    while start < n && is_blank(s.get_char(start))
        invariant
            n == s@.len(),
            0 <= start <= n,
        decreases n - start,
    {
        start = start + 1;
    }
    let mut end: usize = n;
    while end > start && is_blank(s.get_char(end - 1))
        invariant
            n == s@.len(),
            start <= end <= n,
        decreases end,
    {
        end = end - 1;
    }
    s.substring_char(start, end).to_owned()
}

impl Parser {
    /// A parser over the given source text, with an empty label table.
    pub fn new(src: String) -> (r: Parser) {
        Parser { src, vars: Vec::new() }
    }

    fn lookup(&self, name: &String) -> (r: Option<u32>) {
        let n = self.vars.len();
        let mut i: usize = 0;
        while i < n
            invariant
                n == self.vars.len(),
                0 <= i <= n,
            decreases n - i,
        {
            if &self.vars[i].0 == name {
                return Some(self.vars[i].1);
            }
            i = i + 1;
        }
        None
    }

    /// Scans a quoted string literal from `i` (just past the opening quote)
    /// to its closing quote, decoding the backslash escapes for newline,
    /// tab, carriage return, the zero character and the quote itself.
    /// Returns the decoded text and the index just past the closing quote.
    fn parse_str(line: &str, from: usize) -> (r: (String, usize))
        requires
            from <= line@.len(),
        ensures
            from <= r.1 <= line@.len(),
            (r.0@, r.1 as int) == scan_text(line@, from as int, false, Seq::empty()),
    {
        let n = line.unicode_len();
        let mut out = String::new();
        let mut escape = false;
        let mut i: usize = from;
        while i < n
            invariant
                n == line@.len(),
                from <= i <= n,
                scan_text(line@, from as int, false, Seq::empty()) == scan_text(
                    line@,
                    i as int,
                    escape,
                    out@,
                ),
            decreases n - i,
        {
            let c = line.get_char(i);
            i = i + 1;
            if c == '\\' {
                escape = true;
            } else if c == '"' {
                if escape {
                    push_char(&mut out, '"');
                    escape = false;
                } else {
                    return (out, i);
                }
            } else if c == 'n' && escape {
                push_char(&mut out, '\n');
                escape = false;
            } else if c == 't' && escape {
                push_char(&mut out, '\t');
                escape = false;
            } else if c == 'r' && escape {
                push_char(&mut out, '\r');
                escape = false;
            } else if c == '0' && escape {
                push_char(&mut out, '\0');
                escape = false;
            } else {
                push_char(&mut out, c);
            }
        }
        (out, i)
    }

    /// Splits one instruction line into its parts: whitespace separates
    /// tokens and a quoted literal forms one token of its own.
    fn parse_instr(&mut self, instr: &String) -> (r: Vec<String>)
        ensures
            r.deep_view() == tokenize(instr@, 0, Seq::empty(), Seq::empty()),
    {
        let n = instr.as_str().unicode_len();
        let mut ret: Vec<String> = Vec::new();
        let mut buff = String::new();
        let mut i: usize = 0;
        proof {
            assert(ret.deep_view() =~= Seq::<Seq<char>>::empty());
        }
        while i < n
            invariant
                n == instr@.len(),
                0 <= i <= n,
                tokenize(instr@, 0, Seq::empty(), Seq::empty()) == tokenize(
                    instr@,
                    i as int,
                    buff@,
                    ret.deep_view(),
                ),
            decreases n - i,
        {
            let ghost pre_acc = ret.deep_view();
            let c = instr.as_str().get_char(i);
            i = i + 1;
            if c == '"' {
                let ghost qi = i as int;
                let scanned = Self::parse_str(instr.as_str(), i);
                let ghost tok = scanned.0@;
                ret.push(scanned.0);
                i = scanned.1;
                proof {
                    assert(tok == scan_text(instr@, qi, false, Seq::empty()).0);
                    assert(ret.deep_view() =~= pre_acc.push(tok));
                }
            } else if is_blank(c) {
                let ghost b = buff@;
                ret.push(buff);
                buff = String::new();
                proof {
                    assert(ret.deep_view() =~= pre_acc.push(b));
                }
            } else {
                push_char(&mut buff, c);
            }
        }
        if !buff.as_str().is_empty() {
            ret.push(buff);
            proof {
                assert(ret.deep_view() =~= tokenize(instr@, 0, Seq::empty(), Seq::empty()));
            }
        }
        ret
    }

    fn arg(parts: &Vec<String>, i: usize) -> (r: Result<&String, String>) {
        if i < parts.len() {
            Ok(&parts[i])
        } else {
            Err("missing operand".to_owned())
        }
    }

    fn var_of(&self, parts: &Vec<String>, i: usize) -> (r: Result<u32, String>) {
        let name = match Self::arg(parts, i) {
            Ok(n) => n,
            Err(e) => {
                return Err(e);
            },
        };
        match self.lookup(name) {
            Some(id) => Ok(id),
            None => {
                let mut msg = "unknown label ".to_owned();
                msg.append(name.as_str());
                Err(msg)
            },
        }
    }

    fn emit_binary(
        &mut self,
        bb: &mut BytecodeBuilder,
        op: u32,
        parts: &Vec<String>,
    ) -> (r: Result<(), String>)
        requires
            old(bb).wf(),
        ensures
            final(bb).wf(),
    {
        let lhs = match self.var_of(parts, 2) {
            Ok(v) => v,
            Err(e) => {
                return Err(e);
            },
        };
        let rhs = match self.var_of(parts, 3) {
            Ok(v) => v,
            Err(e) => {
                return Err(e);
            },
        };
        let dest = match Self::arg(parts, 1) {
            Ok(n) => n.clone(),
            Err(e) => {
                return Err(e);
            },
        };
        let known = self.lookup(&dest);
        let want = known;
        let emitted = if op == crate::opcodes::ADD {
            bb.write_add(lhs, rhs, want)
        } else if op == crate::opcodes::SUB {
            bb.write_sub(lhs, rhs, want)
        } else if op == crate::opcodes::MUL {
            bb.write_mul(lhs, rhs, want)
        } else if op == crate::opcodes::DIV {
            bb.write_div(lhs, rhs, want)
        } else if op == crate::opcodes::MOD {
            bb.write_mod(lhs, rhs, want)
        } else if op == crate::opcodes::EXP {
            bb.write_exp(lhs, rhs, want)
        } else if op == crate::opcodes::EQ {
            bb.write_eq(lhs, rhs, want)
        } else if op == crate::opcodes::NEQ {
            bb.write_neq(lhs, rhs, want)
        } else if op == crate::opcodes::GT {
            bb.write_gt(lhs, rhs, want)
        } else if op == crate::opcodes::LT {
            bb.write_lt(lhs, rhs, want)
        } else if op == crate::opcodes::GTE {
            bb.write_gte(lhs, rhs, want)
        } else if op == crate::opcodes::LTE {
            bb.write_lte(lhs, rhs, want)
        } else {
            return Err("unsupported operator".to_owned());
        };
        match emitted {
            Ok(cid) => {
                if known.is_none() {
                    self.vars.push((dest, cid));
                }
                Ok(())
            },
            Err(e) => Err(e.message()),
        }
    }

    /// Assembles the source and runs the program under the given step
    /// budget, returning the program's console output; input lines for the
    /// program's console reads are taken from `input` in order.
    pub fn run(&mut self, fuel: u64, input: Vec<String>) -> (r: Result<String, String>) {
        let mut bb = BytecodeBuilder::new();
        let mut jumps: Vec<(usize, String)> = Vec::new();
        let lines = split_lines(self.src.clone().as_str());
        let nlines = lines.len();
        let mut li: usize = 0;
        while li < nlines
            invariant
                nlines == lines.len(),
                0 <= li <= nlines,
                bb.wf(),
            decreases nlines - li,
        {
            let instr = trim_blanks(lines[li].as_str());
            li = li + 1;
            if instr.as_str().is_empty() {
                continue ;
            }
            if instr.as_str().get_char(0) == '#' {
                continue ;
            }
            let parts = self.parse_instr(&instr);
            if parts.len() == 0 {
                continue ;
            }
            let head = parts[0].clone();
            let op = head.as_str();
            if tok_is(op, "START") {
                bb.write_start();
            } else if tok_is(op, "ALLOCA") {
                let dest = match Self::arg(&parts, 1) {
                    Ok(n) => n.clone(),
                    Err(e) => {
                        return Err(e);
                    },
                };
                match bb.write_alloca(None) {
                    Ok(cid) => {
                        self.vars.push((dest, cid));
                    },
                    Err(e) => {
                        return Err(e.message());
                    },
                }
            } else if tok_is(op, "STR") {
                let dest = match Self::arg(&parts, 1) {
                    Ok(n) => n.clone(),
                    Err(e) => {
                        return Err(e);
                    },
                };
                let text = match Self::arg(&parts, 2) {
                    Ok(n) => n.clone(),
                    Err(e) => {
                        return Err(e);
                    },
                };
                let known = self.lookup(&dest);
                let emitted = match known {
                    Some(cid) => bb.write_str(text, Some(cid)),
                    None => bb.write_str(text, None),
                };
                match emitted {
                    Ok(cid) => {
                        if known.is_none() {
                            self.vars.push((dest, cid));
                        }
                    },
                    Err(e) => {
                        return Err(e.message());
                    },
                }
            } else if tok_is(op, "NUM") {
                let dest = match Self::arg(&parts, 1) {
                    Ok(n) => n.clone(),
                    Err(e) => {
                        return Err(e);
                    },
                };
                let lit = match Self::arg(&parts, 2) {
                    Ok(n) => n,
                    Err(e) => {
                        return Err(e);
                    },
                };
                let value = match parse_u32(lit.as_str()) {
                    Some(v) => v,
                    None => {
                        return Err("malformed numeric literal".to_owned());
                    },
                };
                let known = self.lookup(&dest);
                let emitted = match known {
                    Some(cid) => bb.write_num(value, Some(cid)),
                    None => bb.write_num(value, None),
                };
                match emitted {
                    Ok(cid) => {
                        if known.is_none() {
                            self.vars.push((dest, cid));
                        }
                    },
                    Err(e) => {
                        return Err(e.message());
                    },
                }
            } else if tok_is(op, "BOOL") {
                let dest = match Self::arg(&parts, 1) {
                    Ok(n) => n.clone(),
                    Err(e) => {
                        return Err(e);
                    },
                };
                let lit = match Self::arg(&parts, 2) {
                    Ok(n) => n,
                    Err(e) => {
                        return Err(e);
                    },
                };
                let value = if tok_is(lit.as_str(), "true") {
                    true
                } else if tok_is(lit.as_str(), "false") {
                    false
                } else {
                    return Err("BOOL value must be either `true` or `false`.".to_owned());
                };
                let known = self.lookup(&dest);
                let emitted = match known {
                    Some(cid) => bb.write_bool(value, Some(cid)),
                    None => bb.write_bool(value, None),
                };
                match emitted {
                    Ok(cid) => {
                        if known.is_none() {
                            self.vars.push((dest, cid));
                        }
                    },
                    Err(e) => {
                        return Err(e.message());
                    },
                }
            } else if tok_is(op, "ADD") {
                match self.emit_binary(&mut bb, crate::opcodes::ADD, &parts) {
                    Ok(()) => {},
                    Err(e) => {
                        return Err(e);
                    },
                }
            } else if tok_is(op, "SUB") {
                match self.emit_binary(&mut bb, crate::opcodes::SUB, &parts) {
                    Ok(()) => {},
                    Err(e) => {
                        return Err(e);
                    },
                }
            } else if tok_is(op, "MUL") {
                match self.emit_binary(&mut bb, crate::opcodes::MUL, &parts) {
                    Ok(()) => {},
                    Err(e) => {
                        return Err(e);
                    },
                }
            } else if tok_is(op, "DIV") {
                match self.emit_binary(&mut bb, crate::opcodes::DIV, &parts) {
                    Ok(()) => {},
                    Err(e) => {
                        return Err(e);
                    },
                }
            } else if tok_is(op, "MOD") {
                match self.emit_binary(&mut bb, crate::opcodes::MOD, &parts) {
                    Ok(()) => {},
                    Err(e) => {
                        return Err(e);
                    },
                }
            } else if tok_is(op, "EXP") {
                match self.emit_binary(&mut bb, crate::opcodes::EXP, &parts) {
                    Ok(()) => {},
                    Err(e) => {
                        return Err(e);
                    },
                }
            } else if tok_is(op, "EQ") {
                match self.emit_binary(&mut bb, crate::opcodes::EQ, &parts) {
                    Ok(()) => {},
                    Err(e) => {
                        return Err(e);
                    },
                }
            } else if tok_is(op, "NEQ") {
                match self.emit_binary(&mut bb, crate::opcodes::NEQ, &parts) {
                    Ok(()) => {},
                    Err(e) => {
                        return Err(e);
                    },
                }
            } else if tok_is(op, "GT") {
                match self.emit_binary(&mut bb, crate::opcodes::GT, &parts) {
                    Ok(()) => {},
                    Err(e) => {
                        return Err(e);
                    },
                }
            } else if tok_is(op, "LT") {
                match self.emit_binary(&mut bb, crate::opcodes::LT, &parts) {
                    Ok(()) => {},
                    Err(e) => {
                        return Err(e);
                    },
                }
            } else if tok_is(op, "GTE") {
                match self.emit_binary(&mut bb, crate::opcodes::GTE, &parts) {
                    Ok(()) => {},
                    Err(e) => {
                        return Err(e);
                    },
                }
            } else if tok_is(op, "LTE") {
                match self.emit_binary(&mut bb, crate::opcodes::LTE, &parts) {
                    Ok(()) => {},
                    Err(e) => {
                        return Err(e);
                    },
                }
            } else if tok_is(op, "STDOUT") {
                let id = match self.var_of(&parts, 1) {
                    Ok(v) => v,
                    Err(e) => {
                        return Err(e);
                    },
                };
                bb.write_stdout(id);
            } else if tok_is(op, "STDIN") {
                let dest = match Self::arg(&parts, 1) {
                    Ok(n) => n.clone(),
                    Err(e) => {
                        return Err(e);
                    },
                };
                let known = self.lookup(&dest);
                let emitted = match known {
                    Some(cid) => bb.write_stdin(Some(cid)),
                    None => bb.write_stdin(None),
                };
                match emitted {
                    Ok(cid) => {
                        if known.is_none() {
                            self.vars.push((dest, cid));
                        }
                    },
                    Err(e) => {
                        return Err(e.message());
                    },
                }
            } else if tok_is(op, "CAST_NUM") || tok_is(op, "CAST_STR") {
                let src = match self.var_of(&parts, 2) {
                    Ok(v) => v,
                    Err(e) => {
                        return Err(e);
                    },
                };
                let dest = match Self::arg(&parts, 1) {
                    Ok(n) => n.clone(),
                    Err(e) => {
                        return Err(e);
                    },
                };
                let known = self.lookup(&dest);
                let emitted = if tok_is(op, "CAST_NUM") {
                    bb.write_cast_num(src, known)
                } else {
                    bb.write_cast_str(src, known)
                };
                match emitted {
                    Ok(cid) => {
                        if known.is_none() {
                            self.vars.push((dest, cid));
                        }
                    },
                    Err(e) => {
                        return Err(e.message());
                    },
                }
            } else if tok_is(op, "FMT_NUM") {
                let num = match self.var_of(&parts, 2) {
                    Ok(v) => v,
                    Err(e) => {
                        return Err(e);
                    },
                };
                let prec = match self.var_of(&parts, 3) {
                    Ok(v) => v,
                    Err(e) => {
                        return Err(e);
                    },
                };
                let dest = match Self::arg(&parts, 1) {
                    Ok(n) => n.clone(),
                    Err(e) => {
                        return Err(e);
                    },
                };
                let known = self.lookup(&dest);
                match bb.write_fmt_num(num, prec, known) {
                    Ok(cid) => {
                        if known.is_none() {
                            self.vars.push((dest, cid));
                        }
                    },
                    Err(e) => {
                        return Err(e.message());
                    },
                }
            } else if tok_is(op, "FMT") {
                let tpl = match self.var_of(&parts, 2) {
                    Ok(v) => v,
                    Err(e) => {
                        return Err(e);
                    },
                };
                let mut items: Vec<u32> = Vec::new();
                let nparts = parts.len();
                let mut ai: usize = 3;
                while ai < nparts
                    invariant
                        nparts == parts.len(),
                        3 <= ai,
                    decreases nparts - ai,
                {
                    match self.var_of(&parts, ai) {
                        Ok(v) => {
                            items.push(v);
                        },
                        Err(e) => {
                            return Err(e);
                        },
                    }
                    ai = ai + 1;
                }
                let dest = match Self::arg(&parts, 1) {
                    Ok(n) => n.clone(),
                    Err(e) => {
                        return Err(e);
                    },
                };
                let known = self.lookup(&dest);
                match bb.write_fmt(tpl, items, known) {
                    Ok(cid) => {
                        if known.is_none() {
                            self.vars.push((dest, cid));
                        }
                    },
                    Err(e) => {
                        return Err(e.message());
                    },
                }
            } else if tok_is(op, "BLOCK") {
                let dest = match Self::arg(&parts, 1) {
                    Ok(n) => n.clone(),
                    Err(e) => {
                        return Err(e);
                    },
                };
                let known = self.lookup(&dest);
                let emitted = match known {
                    Some(cid) => bb.write_block(Some(cid)),
                    None => bb.write_block(None),
                };
                match emitted {
                    Ok(cid) => {
                        if known.is_none() {
                            self.vars.push((dest, cid));
                        }
                    },
                    Err(e) => {
                        return Err(e.message());
                    },
                }
            } else if tok_is(op, "JUMP") {
                let label = match Self::arg(&parts, 1) {
                    Ok(n) => n.clone(),
                    Err(e) => {
                        return Err(e);
                    },
                };
                match self.lookup(&label) {
                    Some(id) => {
                        bb.write_jump(id);
                    },
                    None => {
                        bb.write_jump(0);
                        let at = bb.src.len();
                        if at == 0 {
                            return Err("empty stream after jump".to_owned());
                        }
                        jumps.push((at - 1, label));
                    },
                }
            } else if tok_is(op, "COND_JUMP") {
                let cond = match self.var_of(&parts, 1) {
                    Ok(v) => v,
                    Err(e) => {
                        return Err(e);
                    },
                };
                let label = match Self::arg(&parts, 2) {
                    Ok(n) => n.clone(),
                    Err(e) => {
                        return Err(e);
                    },
                };
                match self.lookup(&label) {
                    Some(id) => {
                        bb.write_cond_jump(id, cond);
                    },
                    None => {
                        bb.write_cond_jump(0, cond);
                        let at = bb.src.len();
                        if at < 3 {
                            return Err("short stream after conditional jump".to_owned());
                        }
                        jumps.push((at - 3, label));
                    },
                }
            }
        }
        let njumps = jumps.len();
        let mut ji: usize = 0;
        while ji < njumps
            invariant
                njumps == jumps.len(),
                0 <= ji <= njumps,
                bb.wf(),
            decreases njumps - ji,
        {
            let key = jumps[ji].0;
            let target = match self.lookup(&jumps[ji].1) {
                Some(id) => id,
                None => {
                    let mut msg = "unknown block label ".to_owned();
                    msg.append(jumps[ji].1.as_str());
                    return Err(msg);
                },
            };
            if key >= bb.src.len() {
                return Err("jump patch out of range".to_owned());
            }
            bb.src.set(key, target);
            ji = ji + 1;
        }
        if bb.src.len() > 0x7FFF_FFFFusize {
            return Err("program too large".to_owned());
        }
        let mut exec = Executor::new(bb.src);
        let ninp = input.len();
        let mut inp = input;
        let mut ii: usize = 0;
        while ii < ninp
            invariant
                ninp == inp.len(),
                0 <= ii <= ninp,
                exec.wf(),
            decreases ninp - ii,
        {
            exec.feed_line(inp[ii].clone());
            ii = ii + 1;
        }
        match exec.run(fuel) {
            Ok(()) => Ok(exec.output().clone()),
            Err(e) => Err(e.message()),
        }
    }
}

} // verus!
