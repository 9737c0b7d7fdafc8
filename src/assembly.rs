use vstd::prelude::*;
use vstd::string::StringSliceAdditionalSpecFns;
use crate::basic_op::BasicOp;
use crate::command::{Command, all_wf, program_words, spec_decode_program};
use crate::register::Register;
use crate::special_op::SpecialOp;
use crate::value::Value;

verus! {

// The grammar, over the bytes of the source text:
//
//   program  := command*
//   command  := (basic | special) ';'
//   basic    := basic_op value ',' value
//   special  := special_op value
//   value    := simple | register | number | '[' register ']'
//             | '[' register '+' number ']' | '[' number ']'
//   simple   := 'stack' | 'peek' | 'pick' | 'sp' | 'pc' | 'ex'
//   register := 'a' | 'b' | 'c' | 'x' | 'y' | 'z' | 'i' | 'j'
//   number   := decimal digits, at most 65535
//
// Whitespace may stand before and after every token.

/// Space, tab, line feed or carriage return.
pub open spec fn is_space(c: u8) -> bool {
    c == 32 || c == 9 || c == 10 || c == 13
}

pub open spec fn is_digit(c: u8) -> bool {
    48 <= c <= 57
}

/// The first position at or after `i` that holds no whitespace.
pub open spec fn skip_spaces(s: Seq<u8>, i: int) -> int
    decreases s.len() - i,
{
    if 0 <= i < s.len() && is_space(s[i]) {
        skip_spaces(s, i + 1)
    } else {
        i
    }
}

/// The end of the run of digits that starts at `i`.
pub open spec fn digits_end(s: Seq<u8>, i: int) -> int
    decreases s.len() - i,
{
    if 0 <= i < s.len() && is_digit(s[i]) {
        digits_end(s, i + 1)
    } else {
        i
    }
}

/// The number that a string of decimal digits writes.
pub open spec fn decimal(d: Seq<u8>) -> nat
    decreases d.len(),
{
    if d.len() == 0 {
        0
    } else {
        decimal(d.drop_last()) * 10 + (d.last() - 48) as nat
    }
}

/// Whether `kw` stands in `s` at `i`.
pub open spec fn has_at(s: Seq<u8>, i: int, kw: Seq<u8>) -> bool {
    0 <= i && i + kw.len() <= s.len() && s.subrange(i, i + kw.len()) == kw
}

pub open spec fn byte_at(s: Seq<u8>, i: int, c: char) -> bool {
    0 <= i < s.len() && s[i] == c as u8
}

/// A number at `i`: its value and where it ends.
pub open spec fn number_at(s: Seq<u8>, i: int) -> Option<(u16, int)> {
    let j = digits_end(s, i);
    if j > i && decimal(s.subrange(i, j)) <= 0xffff {
        Some((decimal(s.subrange(i, j)) as u16, j))
    } else {
        None
    }
}

/// A register letter at `i`.
pub open spec fn register_at(s: Seq<u8>, i: int) -> Option<Register> {
    if 0 <= i < s.len() {
        Register::spec_from_letter(s[i])
    } else {
        None
    }
}

pub open spec fn kw_stack() -> Seq<u8> {
    seq!['s' as u8, 't' as u8, 'a' as u8, 'c' as u8, 'k' as u8]
}

pub open spec fn kw_peek() -> Seq<u8> {
    seq!['p' as u8, 'e' as u8, 'e' as u8, 'k' as u8]
}

pub open spec fn kw_pick() -> Seq<u8> {
    seq!['p' as u8, 'i' as u8, 'c' as u8, 'k' as u8]
}

pub open spec fn kw_sp() -> Seq<u8> {
    seq!['s' as u8, 'p' as u8]
}

pub open spec fn kw_pc() -> Seq<u8> {
    seq!['p' as u8, 'c' as u8]
}

pub open spec fn kw_ex() -> Seq<u8> {
    seq!['e' as u8, 'x' as u8]
}

/// One of the named operands at `i`: the operand and where its name ends.
pub open spec fn simple_at(s: Seq<u8>, i: int) -> Option<(Value, int)> {
    if has_at(s, i, kw_stack()) {
        Some((Value::STACK, i + 5))
    } else if has_at(s, i, kw_peek()) {
        Some((Value::PEEK, i + 4))
    } else if has_at(s, i, kw_pick()) {
        Some((Value::PICK(0), i + 4))
    } else if has_at(s, i, kw_sp()) {
        Some((Value::SP, i + 2))
    } else if has_at(s, i, kw_pc()) {
        Some((Value::PC, i + 2))
    } else if has_at(s, i, kw_ex()) {
        Some((Value::EX, i + 2))
    } else {
        None
    }
}

/// The bracketed operand whose `[` stands just before `i`: the operand and where it ends.
pub open spec fn bracketed_at(s: Seq<u8>, i: int) -> Option<(Value, int)> {
    let j = skip_spaces(s, i);
    match register_at(s, j) {
        Some(r) => {
            let k = skip_spaces(s, j + 1);
            if byte_at(s, k, ']') {
                Some((Value::DerefReg(r), k + 1))
            } else if byte_at(s, k, '+') {
                match number_at(s, skip_spaces(s, k + 1)) {
                    Some((n, e)) => {
                        let e2 = skip_spaces(s, e);
                        if byte_at(s, e2, ']') {
                            Some((Value::IndexReg(r, n), e2 + 1))
                        } else {
                            None
                        }
                    },
                    None => None,
                }
            } else {
                None
            }
        },
        None => match number_at(s, j) {
            Some((n, e)) => {
                let e2 = skip_spaces(s, e);
                if byte_at(s, e2, ']') {
                    Some((Value::DerefNextWord(n), e2 + 1))
                } else {
                    None
                }
            },
            None => None,
        },
    }
}

/// An operand at `i`: the operand and where it ends.
pub open spec fn value_at(s: Seq<u8>, i: int) -> Option<(Value, int)> {
    if simple_at(s, i) is Some {
        simple_at(s, i)
    } else if register_at(s, i) is Some {
        Some((Value::Reg(register_at(s, i).unwrap()), i + 1))
    } else if number_at(s, i) is Some {
        let (n, e) = number_at(s, i).unwrap();
        Some((Value::NextWord(n), e))
    } else if byte_at(s, i, '[') {
        bracketed_at(s, i + 1)
    } else {
        None
    }
}

/// The basic operation whose mnemonic stands at `i`.
pub open spec fn basic_op_at(s: Seq<u8>, i: int) -> Option<BasicOp> {
    if exists|op: BasicOp| has_at(s, i, op.mnemonic()) {
        Some(choose|op: BasicOp| has_at(s, i, op.mnemonic()))
    } else {
        None
    }
}

/// The special operation whose mnemonic stands at `i`.
pub open spec fn special_op_at(s: Seq<u8>, i: int) -> Option<SpecialOp> {
    if exists|op: SpecialOp| has_at(s, i, op.mnemonic()) {
        Some(choose|op: SpecialOp| has_at(s, i, op.mnemonic()))
    } else {
        None
    }
}

/// The `;` that ends a statement, looked for at `i`: where the whitespace after it ends.
pub open spec fn terminator_at(s: Seq<u8>, i: int) -> Option<int> {
    let j = skip_spaces(s, i);
    if byte_at(s, j, ';') {
        Some(skip_spaces(s, j + 1))
    } else {
        None
    }
}

/// A statement whose mnemonic stands at `i`: the instruction and where the statement ends.
pub open spec fn command_at(s: Seq<u8>, i: int) -> Option<(Command, int)> {
    match basic_op_at(s, i) {
        Some(op) => match value_at(s, skip_spaces(s, i + 3)) {
            Some((b, e1)) => {
                let c = skip_spaces(s, e1);
                if byte_at(s, c, ',') {
                    match value_at(s, skip_spaces(s, c + 1)) {
                        Some((a, e2)) => match terminator_at(s, e2) {
                            Some(end) => Some((Command::Basic { op, b, a }, end)),
                            None => None,
                        },
                        None => None,
                    }
                } else {
                    None
                }
            },
            None => None,
        },
        None => match special_op_at(s, i) {
            Some(op) => match value_at(s, skip_spaces(s, i + 3)) {
                Some((a, e)) => match terminator_at(s, e) {
                    Some(end) => Some((Command::Special { op, a }, end)),
                    None => None,
                },
                None => None,
            },
            None => None,
        },
    }
}

/// The program that the source from `i` on writes, or the position of the first statement
/// that does not parse.
pub open spec fn program_at(s: Seq<u8>, i: int) -> Result<Seq<Command>, int>
    decreases s.len() - i,
{
    let j = skip_spaces(s, i);
    if j < i || j >= s.len() {
        Ok(seq![])
    } else {
        match command_at(s, j) {
            Some((c, k)) => if j < k <= s.len() {
                match program_at(s, k) {
                    Ok(cs) => Ok(seq![c] + cs),
                    Err(p) => Err(p),
                }
            } else {
                Err(j)
            },
            None => Err(j),
        }
    }
}


/// A source text that does not parse: the byte position of the first statement that fails.
#[derive(Debug, Clone, Copy, PartialEq, Eq, Structural)]
pub struct ParseError {
    pub position: usize,
}

fn is_space_byte(c: u8) -> (r: bool)
    ensures
        r == is_space(c),
{
    c == 32 || c == 9 || c == 10 || c == 13
}

fn skip_spaces_from(s: &[u8], i: usize) -> (r: usize)
    requires
        i <= s@.len(),
    ensures
        r == skip_spaces(s@, i as int),
        i <= r <= s@.len(),
{
    let mut j = i;
    while j < s.len() && is_space_byte(s[j])
        invariant
            i <= j <= s@.len(),
            skip_spaces(s@, i as int) == skip_spaces(s@, j as int),
        decreases s@.len() - j,
    {
        j = j + 1;
    }
    j
}

proof fn lemma_decimal_step(s: Seq<u8>, i: int, k: int)
    requires
        0 <= i <= k < s.len(),
    ensures
        s.subrange(i, k + 1).drop_last() == s.subrange(i, k),
        s.subrange(i, k + 1).last() == s[k],
        decimal(s.subrange(i, k + 1)) == decimal(s.subrange(i, k)) * 10 + (s[k] - 48) as nat,
{
    assert(s.subrange(i, k + 1).drop_last() =~= s.subrange(i, k));
}

/// A decimal number at `i`, of at most 65535: its value and where its digits end.
fn parse_number(s: &[u8], i: usize) -> (r: Option<(u16, usize)>)
    requires
        i <= s@.len(),
    ensures
        match r {
            Some((n, e)) => number_at(s@, i as int) == Some((n, e as int)) && i < e <= s@.len(),
            None => number_at(s@, i as int) is None,
        },
{
    let mut k = i;
    let mut acc: u32 = 0;
    let mut over = false;
    assert(s@.subrange(i as int, i as int) =~= Seq::<u8>::empty());
    while k < s.len() && 48 <= s[k] && s[k] <= 57
        invariant
            i <= k <= s@.len(),
            digits_end(s@, i as int) == digits_end(s@, k as int),
            over == (decimal(s@.subrange(i as int, k as int)) > 0xffff),
            !over ==> acc == decimal(s@.subrange(i as int, k as int)),
        decreases s@.len() - k,
    {
        proof {
            lemma_decimal_step(s@, i as int, k as int);
        }
        if !over {
            acc = acc * 10 + (s[k] - 48) as u32;
            if acc > 0xffff {
                over = true;
            }
        }
        k = k + 1;
    }
    if k > i && !over {
        Some((acc as u16, k))
    } else {
        None
    }
}

/// Whether the bytes of `kw` stand in `s` at `i`.
fn looking_at(s: &[u8], i: usize, kw: &[u8]) -> (r: bool)
    requires
        i <= s@.len(),
    ensures
        r == has_at(s@, i as int, kw@),
{
    let len = s.len();
    if kw.len() > len - i {
        return false;
    }
    let mut m: usize = 0;
    while m < kw.len()
        invariant
            len == s@.len(),
            m <= kw@.len(),
            i + kw@.len() <= s@.len(),
            forall|t: int| 0 <= t < m ==> s@[i + t] == kw@[t],
        decreases kw@.len() - m,
    {
        if s[i + m] != kw[m] {
            assert(s@.subrange(i as int, i + kw@.len())[m as int] != kw@[m as int]);
            return false;
        }
        m = m + 1;
    }
    assert(s@.subrange(i as int, i + kw@.len()) =~= kw@);
    true
}

/// One of the named operands at `i`.
fn simple_value(s: &[u8], i: usize) -> (r: Option<(Value, usize)>)
    requires
        i <= s@.len(),
    ensures
        match r {
            Some((v, e)) => simple_at(s@, i as int) == Some((v, e as int)),
            None => simple_at(s@, i as int) is None,
        },
{
    // Positions below the length of s fit in usize, so one past them does too.
    let _len = s.len();
    let stack = ['s' as u8, 't' as u8, 'a' as u8, 'c' as u8, 'k' as u8];
    let peek = ['p' as u8, 'e' as u8, 'e' as u8, 'k' as u8];
    let pick = ['p' as u8, 'i' as u8, 'c' as u8, 'k' as u8];
    let sp = ['s' as u8, 'p' as u8];
    let pc = ['p' as u8, 'c' as u8];
    let ex = ['e' as u8, 'x' as u8];
    assert(stack@ =~= kw_stack());
    assert(peek@ =~= kw_peek());
    assert(pick@ =~= kw_pick());
    assert(sp@ =~= kw_sp());
    assert(pc@ =~= kw_pc());
    assert(ex@ =~= kw_ex());
    if looking_at(s, i, stack.as_slice()) {
        Some((Value::STACK, i + 5))
    } else if looking_at(s, i, peek.as_slice()) {
        Some((Value::PEEK, i + 4))
    } else if looking_at(s, i, pick.as_slice()) {
        Some((Value::PICK(0), i + 4))
    } else if looking_at(s, i, sp.as_slice()) {
        Some((Value::SP, i + 2))
    } else if looking_at(s, i, pc.as_slice()) {
        Some((Value::PC, i + 2))
    } else if looking_at(s, i, ex.as_slice()) {
        Some((Value::EX, i + 2))
    } else {
        None
    }
}

fn parse_register(s: &[u8], i: usize) -> (r: Option<Register>)
    requires
        i <= s@.len(),
    ensures
        r == register_at(s@, i as int),
        r is Some ==> i < s@.len(),
{
    if i < s.len() {
        Register::from_letter(s[i])
    } else {
        None
    }
}

fn byte_is(s: &[u8], i: usize, c: u8) -> (r: bool)
    ensures
        r == (i < s@.len() && s@[i as int] == c),
{
    i < s.len() && s[i] == c
}

/// The bracketed operand whose `[` stands just before `i`.
fn parse_bracketed(s: &[u8], i: usize) -> (r: Option<(Value, usize)>)
    requires
        i <= s@.len(),
    ensures
        match r {
            Some((v, e)) => bracketed_at(s@, i as int) == Some((v, e as int)) && i < e <= s@.len(),
            None => bracketed_at(s@, i as int) is None,
        },
{
    // Positions below the length of s fit in usize, so one past them does too.
    let _len = s.len();
    let j = skip_spaces_from(s, i);
    match parse_register(s, j) {
        Some(r) => {
            let k = skip_spaces_from(s, j + 1);
            if byte_is(s, k, ']' as u8) {
                Some((Value::DerefReg(r), k + 1))
            } else if byte_is(s, k, '+' as u8) {
                let m = skip_spaces_from(s, k + 1);
                match parse_number(s, m) {
                    Some((n, e)) => {
                        let e2 = skip_spaces_from(s, e);
                        if byte_is(s, e2, ']' as u8) {
                            Some((Value::IndexReg(r, n), e2 + 1))
                        } else {
                            None
                        }
                    },
                    None => None,
                }
            } else {
                None
            }
        },
        None => match parse_number(s, j) {
            Some((n, e)) => {
                let e2 = skip_spaces_from(s, e);
                if byte_is(s, e2, ']' as u8) {
                    Some((Value::DerefNextWord(n), e2 + 1))
                } else {
                    None
                }
            },
            None => None,
        },
    }
}

/// An operand at `i`.
fn parse_value(s: &[u8], i: usize) -> (r: Option<(Value, usize)>)
    requires
        i <= s@.len(),
    ensures
        match r {
            Some((v, e)) => value_at(s@, i as int) == Some((v, e as int)) && i < e <= s@.len(),
            None => value_at(s@, i as int) is None,
        },
{
    // Positions below the length of s fit in usize, so one past them does too.
    let _len = s.len();
    if let Some((v, e)) = simple_value(s, i) {
        return Some((v, e));
    }
    if let Some(r) = parse_register(s, i) {
        return Some((Value::Reg(r), i + 1));
    }
    if let Some((n, e)) = parse_number(s, i) {
        return Some((Value::NextWord(n), e));
    }
    if byte_is(s, i, '[' as u8) {
        parse_bracketed(s, i + 1)
    } else {
        None
    }
}


proof fn lemma_basic_mnemonic(o1: BasicOp, o2: BasicOp)
    ensures
        o1.mnemonic().len() == 3,
        o1.mnemonic() == o2.mnemonic() ==> o1 == o2,
{
    if o1.mnemonic() == o2.mnemonic() {
        assert(o1.mnemonic()[0] == o2.mnemonic()[0]);
        assert(o1.mnemonic()[1] == o2.mnemonic()[1]);
        assert(o1.mnemonic()[2] == o2.mnemonic()[2]);
    }
}

proof fn lemma_special_mnemonic(o1: SpecialOp, o2: SpecialOp)
    ensures
        o1.mnemonic().len() == 3,
        o1.mnemonic() == o2.mnemonic() ==> o1 == o2,
{
    if o1.mnemonic() == o2.mnemonic() {
        assert(o1.mnemonic()[0] == o2.mnemonic()[0]);
        assert(o1.mnemonic()[1] == o2.mnemonic()[1]);
        assert(o1.mnemonic()[2] == o2.mnemonic()[2]);
    }
}

/// The basic operation whose mnemonic stands at `i`.
fn parse_basic_op(s: &[u8], i: usize) -> (r: Option<BasicOp>)
    requires
        i <= s@.len(),
    ensures
        r == basic_op_at(s@, i as int),
        r is Some ==> i + 3 <= s@.len(),
{
    if s.len() - i < 3 {
        assert forall|op: BasicOp| !has_at(s@, i as int, op.mnemonic()) by {
            lemma_basic_mnemonic(op, op);
        }
        return None;
    }
    let r = BasicOp::from_mnemonic(s[i], s[i + 1], s[i + 2]);
    proof {
        let t = seq![s@[i as int], s@[i + 1], s@[i + 2]];
        assert(s@.subrange(i as int, i + 3) =~= t);
        assert forall|op: BasicOp| has_at(s@, i as int, op.mnemonic()) <==> op.mnemonic() == t by {
            lemma_basic_mnemonic(op, op);
        }
        if let Some(op) = r {
            assert(has_at(s@, i as int, op.mnemonic()));
            let o2 = choose|o: BasicOp| has_at(s@, i as int, o.mnemonic());
            lemma_basic_mnemonic(op, o2);
        }
    }
    r
}

/// The special operation whose mnemonic stands at `i`.
fn parse_special_op(s: &[u8], i: usize) -> (r: Option<SpecialOp>)
    requires
        i <= s@.len(),
    ensures
        r == special_op_at(s@, i as int),
        r is Some ==> i + 3 <= s@.len(),
{
    if s.len() - i < 3 {
        assert forall|op: SpecialOp| !has_at(s@, i as int, op.mnemonic()) by {
            lemma_special_mnemonic(op, op);
        }
        return None;
    }
    let r = SpecialOp::from_mnemonic(s[i], s[i + 1], s[i + 2]);
    proof {
        let t = seq![s@[i as int], s@[i + 1], s@[i + 2]];
        assert(s@.subrange(i as int, i + 3) =~= t);
        assert forall|op: SpecialOp| has_at(s@, i as int, op.mnemonic()) <==> op.mnemonic() == t by {
            lemma_special_mnemonic(op, op);
        }
        if let Some(op) = r {
            assert(has_at(s@, i as int, op.mnemonic()));
            let o2 = choose|o: SpecialOp| has_at(s@, i as int, o.mnemonic());
            lemma_special_mnemonic(op, o2);
        }
    }
    r
}

/// The `;` that ends a statement, looked for at `i`.
fn parse_terminator(s: &[u8], i: usize) -> (r: Option<usize>)
    requires
        i <= s@.len(),
    ensures
        match r {
            Some(e) => terminator_at(s@, i as int) == Some(e as int) && i < e <= s@.len(),
            None => terminator_at(s@, i as int) is None,
        },
{
    // Positions below the length of s fit in usize, so one past them does too.
    let _len = s.len();
    let j = skip_spaces_from(s, i);
    if byte_is(s, j, ';' as u8) {
        Some(skip_spaces_from(s, j + 1))
    } else {
        None
    }
}

/// The statement whose mnemonic stands at `i`.
fn parse_command(s: &[u8], i: usize) -> (r: Option<(Command, usize)>)
    requires
        i <= s@.len(),
    ensures
        match r {
            Some((c, e)) => command_at(s@, i as int) == Some((c, e as int)) && i < e <= s@.len(),
            None => command_at(s@, i as int) is None,
        },
{
    // Positions below the length of s fit in usize, so one past them does too.
    let _len = s.len();
    if let Some(op) = parse_basic_op(s, i) {
        let (b, e1) = match parse_value(s, skip_spaces_from(s, i + 3)) {
            Some(v) => v,
            None => return None,
        };
        let c = skip_spaces_from(s, e1);
        if !byte_is(s, c, ',' as u8) {
            return None;
        }
        let (a, e2) = match parse_value(s, skip_spaces_from(s, c + 1)) {
            Some(v) => v,
            None => return None,
        };
        match parse_terminator(s, e2) {
            Some(end) => Some((Command::Basic { op, b, a }, end)),
            None => None,
        }
    } else if let Some(op) = parse_special_op(s, i) {
        let (a, e) = match parse_value(s, skip_spaces_from(s, i + 3)) {
            Some(v) => v,
            None => return None,
        };
        match parse_terminator(s, e) {
            Some(end) => Some((Command::Special { op, a }, end)),
            None => None,
        }
    } else {
        None
    }
}

/// Parses a source text into its program, or reports where the first statement that does
/// not parse begins.
pub fn parse_program(s: &str) -> (r: Result<Vec<Command>, ParseError>)
    ensures
        match r {
            Ok(v) => program_at(s.spec_bytes(), 0) == Ok::<Seq<Command>, int>(v@),
            Err(e) => program_at(s.spec_bytes(), 0) == Err::<Seq<Command>, int>(e.position as int),
        },
{
    let bytes = s.as_bytes();
    let n = bytes.len();
    let mut result: Vec<Command> = Vec::new();
    let mut i: usize = 0;
    proof {
        match program_at(bytes@, 0) {
            Ok(cs) => assert(result@ + cs =~= cs),
            Err(_) => {},
        }
    }
    loop
        invariant
            n == bytes@.len(),
            bytes@ == s.spec_bytes(),
            i <= n,
            program_at(bytes@, 0) == match program_at(bytes@, i as int) {
                Ok(cs) => Ok::<Seq<Command>, int>(result@ + cs),
                Err(p) => Err::<Seq<Command>, int>(p),
            },
        decreases n - i,
    {
        let j = skip_spaces_from(bytes, i);
        if j >= n {
            assert(result@ + Seq::<Command>::empty() =~= result@);
            return Ok(result);
        }
        match parse_command(bytes, j) {
            Some((c, k)) => {
                let ghost before = result@;
                result.push(c);
                proof {
                    match program_at(bytes@, k as int) {
                        Ok(cs) => assert(before + (seq![c] + cs) =~= result@ + cs),
                        Err(_) => {},
                    }
                }
                i = k;
            },
            None => {
                return Err(ParseError { position: j });
            },
        }
    }
}

/// Operands that the grammar writes never hold an inline literal.
proof fn lemma_value_at_no_literal(s: Seq<u8>, i: int)
    ensures
        value_at(s, i) matches Some((v, _)) ==> !(v is Literal),
{
}

/// Every instruction that parsing gives is well-formed.
pub proof fn lemma_parsed_wf(s: Seq<u8>, i: int)
    ensures
        program_at(s, i) matches Ok(cs) ==> all_wf(cs),
    decreases s.len() - i,
{
    let j = skip_spaces(s, i);
    if j < i || j >= s.len() {
    } else {
        match command_at(s, j) {
            Some((c, k)) => if j < k <= s.len() {
                lemma_parsed_wf(s, k);
                let e1 = skip_spaces(s, j + 3);
                lemma_value_at_no_literal(s, e1);
                if let Some((_, e)) = value_at(s, e1) {
                    lemma_value_at_no_literal(s, skip_spaces(s, skip_spaces(s, e) + 1));
                }
                assert(c.wf());
                if let Ok(cs) = program_at(s, k) {
                    let all = seq![c] + cs;
                    assert forall|t: int| 0 <= t < all.len() implies #[trigger] all[t].wf() by {
                        if t > 0 {
                            assert(all[t] == cs[t - 1]);
                        }
                    }
                }
            },
            None => {},
        }
    }
}

/// Parses a source text into its program; `None` where it does not parse.
pub fn parse(s: &str) -> (r: Option<Vec<Command>>)
    ensures
        match r {
            Some(v) => program_at(s.spec_bytes(), 0) == Ok::<Seq<Command>, int>(v@) && all_wf(v@),
            None => program_at(s.spec_bytes(), 0) is Err,
        },
{
    proof {
        lemma_parsed_wf(s.spec_bytes(), 0);
    }
    match parse_program(s) {
        Ok(program) => Some(program),
        _ => None,
    }
}

/// Encodes a program as words: each instruction word followed by its next words, a's
/// before b's.
pub fn generate_code(program: Vec<Command>) -> (r: Vec<u16>)
    ensures
        r@ == program_words(program@),
{
    let mut result: Vec<u16> = Vec::new();
    let mut i: usize = 0;
    assert(program@.take(0) =~= Seq::<Command>::empty());
    while i < program.len()
        invariant
            i <= program@.len(),
            result@ == program_words(program@.take(i as int)),
        decreases program@.len() - i,
    {
        let command = program[i];
        let ghost before = result@;
        result.push(command.code());
        match command {
            Command::Special { op: _, a } => {
                if let Some(word) = crate::value::get_next_word(&a) {
                    result.push(word);
                }
            },
            Command::Basic { op: _, b, a } => {
                if let Some(word) = crate::value::get_next_word(&a) {
                    result.push(word);
                }
                if let Some(word) = crate::value::get_next_word(&b) {
                    result.push(word);
                }
            },
        }
        proof {
            assert(result@ =~= before + command.words());
            crate::command::lemma_program_words_push(program@.take(i as int), command);
            assert(program@.take(i + 1) =~= program@.take(i as int).push(command));
        }
        i = i + 1;
    }
    assert(program@.take(program@.len() as int) =~= program@);
    result
}

/// Assembling a source text, encoding the program as words and decoding the words gives
/// back the program that parsing gave.
pub proof fn lemma_assemble_round_trip(src: Seq<u8>)
    ensures
        program_at(src, 0) matches Ok(cs) ==> spec_decode_program(program_words(cs)) == Some(cs),
{
    lemma_parsed_wf(src, 0);
    if let Ok(cs) = program_at(src, 0) {
        crate::command::lemma_program_round_trip(cs);
    }
}

} // verus!
