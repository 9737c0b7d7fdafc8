use vstd::prelude::*;
use crate::basic_op::BasicOp;
use crate::special_op::SpecialOp;
use crate::value::Value;

verus! {

/// One instruction: a two-operand basic operation or a one-operand special operation.
///
/// An instruction word packs `aaaaaa bbbbb ooooo`: `o` is the basic opcode, `b` the second
/// operand, `a` the first. Where `o` is zero, `b` holds the special opcode.
#[allow(inconsistent_fields)]
#[derive(Debug, Clone, Copy, PartialEq, Eq, Structural)]
pub enum Command {
    Basic { op: BasicOp, b: Value, a: Value },
    Special { op: SpecialOp, a: Value },
}

pub const B_SHIFT: u16 = 5;

pub const A_SHIFT: u16 = 10;

/// The word at index `i` of `ws`, or 0 past its end.
pub open spec fn word_at(ws: Seq<u16>, i: int) -> u16 {
    if 0 <= i < ws.len() {
        ws[i]
    } else {
        0
    }
}

impl Command {
    /// The operand fields and opcode packed into one instruction word.
    pub open spec fn spec_code(self) -> u16 {
        match self {
            Command::Basic { op, b, a } => (a.spec_code() << A_SHIFT) | (b.spec_code() << B_SHIFT)
                | op.spec_code(),
            Command::Special { op, a } => (a.spec_code() << A_SHIFT) | (op.spec_code() << B_SHIFT),
        }
    }

    /// The instruction that word `val` encodes, next words taken as zero.
    pub open spec fn spec_new(val: u16) -> Option<Command> {
        let op_code = val & 0x1f;
        let b_code = (val >> B_SHIFT) & 0x1f;
        let a_code = val >> A_SHIFT;
        if op_code == 0 {
            match (SpecialOp::spec_new(b_code), Value::spec_new(a_code)) {
                (Some(op), Some(a)) => Some(Command::Special { op, a }),
                _ => None,
            }
        } else {
            match (BasicOp::spec_new(op_code), Value::spec_new(b_code), Value::spec_new(a_code)) {
                (Some(op), Some(b), Some(a)) => Some(Command::Basic { op, b, a }),
                _ => None,
            }
        }
    }

    /// Well-formed: every operand fits its slot.
    pub open spec fn wf(self) -> bool {
        match self {
            Command::Basic { op, b, a } => b.valid_in_b() && a.valid_in_a(),
            Command::Special { op, a } => a.valid_in_a(),
        }
    }

    /// The words that follow the instruction word: a's next word first, then b's.
    pub open spec fn next_words(self) -> Seq<u16> {
        match self {
            Command::Basic { op, b, a } => (if a.has_next_word() {
                seq![a.next_word_of()]
            } else {
                seq![]
            }) + (if b.has_next_word() {
                seq![b.next_word_of()]
            } else {
                seq![]
            }),
            Command::Special { op, a } => if a.has_next_word() {
                seq![a.next_word_of()]
            } else {
                seq![]
            },
        }
    }

    /// The full encoding: the instruction word, then its next words.
    pub open spec fn words(self) -> Seq<u16> {
        seq![self.spec_code()] + self.next_words()
    }

    /// The number of words the instruction occupies.
    pub open spec fn size(self) -> nat {
        1 + self.next_words().len()
    }

    /// The same instruction with its next words taken from `n1` and `n2`, in fetch order.
    pub open spec fn with_next_words(self, n1: u16, n2: u16) -> Command {
        match self {
            Command::Basic { op, b, a } => Command::Basic {
                op,
                a: a.with_next_word(n1),
                b: b.with_next_word(
                    if a.has_next_word() {
                        n2
                    } else {
                        n1
                    },
                ),
            },
            Command::Special { op, a } => Command::Special { op, a: a.with_next_word(n1) },
        }
    }

    /// Whether the instruction is one of the conditional basic operations.
    pub open spec fn is_conditional(self) -> bool {
        self matches Command::Basic { op, .. } && op.is_conditional()
    }

    /// Decodes one instruction word; operands that read a next word get 0 as a placeholder.
    pub fn new(val: u16) -> (r: Option<Command>)
        ensures
            r == Command::spec_new(val),
    {
        let op_code = val & 0x1f;
        let b_code = (val >> B_SHIFT) & 0x1f;
        let a_code = val >> A_SHIFT;
        if op_code == 0x0000 {
            let op = match SpecialOp::new(b_code) {
                Some(op) => op,
                None => return None,
            };
            let a = match Value::new(a_code) {
                Some(a) => a,
                None => return None,
            };
            Some(Command::Special { op, a })
        } else {
            let op = match BasicOp::new(op_code) {
                Some(op) => op,
                None => return None,
            };
            let b = match Value::new(b_code) {
                Some(b) => b,
                None => return None,
            };
            let a = match Value::new(a_code) {
                Some(a) => a,
                None => return None,
            };
            Some(Command::Basic { op, b, a })
        }
    }

    /// Encodes the instruction word.
    pub fn code(&self) -> (r: u16)
        ensures
            r == self.spec_code(),
    {
        match self {
            Command::Basic { op, b, a } => {
                let op_code = op.code();
                let b_code = b.code();
                let a_code = a.code();
                (a_code << A_SHIFT) | (b_code << B_SHIFT) | op_code
            },
            Command::Special { op, a } => {
                let a_code = a.code();
                let special_op_code = op.code();
                (a_code << A_SHIFT) | (special_op_code << B_SHIFT)
            },
        }
    }

    /// The number of words the instruction occupies: one, two or three.
    pub fn get_size(&self) -> (r: u16)
        ensures
            r == self.size(),
            1 <= r <= 3,
    {
        let next_words_size: u16 = match self {
            Command::Special { op: _, a } => get_next_word_count(a),
            Command::Basic { op: _, b, a } => get_next_word_count(b) + get_next_word_count(a),
        };
        1 + next_words_size
    }

    /// The same instruction with its next words taken from `n1` and `n2`, in fetch order.
    pub fn set_next_words(self, n1: u16, n2: u16) -> (r: Command)
        ensures
            r == self.with_next_words(n1, n2),
    {
        match self {
            Command::Basic { op, b, a } => {
                let nb = if value_has_next_word(&a) {
                    n2
                } else {
                    n1
                };
                Command::Basic { op, a: value_set_next_word(a, n1), b: value_set_next_word(b, nb) }
            },
            Command::Special { op, a } => Command::Special { op, a: value_set_next_word(a, n1) },
        }
    }
}

fn get_next_word_count(v: &Value) -> (r: u16)
    ensures
        r == (if v.has_next_word() {
            1u16
        } else {
            0u16
        }),
{
    match crate::value::get_next_word(v) {
        Some(_) => 1,
        None => 0,
    }
}

fn value_has_next_word(v: &Value) -> (r: bool)
    ensures
        r == v.has_next_word(),
{
    crate::value::get_next_word(v).is_some()
}

fn value_set_next_word(v: Value, w: u16) -> (r: Value)
    ensures
        r == v.with_next_word(w),
{
    match v {
        Value::IndexReg(reg, _) => Value::IndexReg(reg, w),
        Value::PICK(_) => Value::PICK(w),
        Value::DerefNextWord(_) => Value::DerefNextWord(w),
        Value::NextWord(_) => Value::NextWord(w),
        _ => v,
    }
}


/// Decodes the instruction at the start of `ws`: its word, then the next words its operands read.
pub open spec fn decode_at(ws: Seq<u16>) -> Option<Command> {
    if ws.len() == 0 {
        None
    } else {
        match Command::spec_new(ws[0]) {
            Some(c) => if c.size() <= ws.len() {
                Some(c.with_next_words(word_at(ws, 1), word_at(ws, 2)))
            } else {
                None
            },
            None => None,
        }
    }
}

/// Decodes a whole word stream into instructions; `None` where a word does not decode or the
/// stream ends inside an instruction.
pub open spec fn spec_decode_program(ws: Seq<u16>) -> Option<Seq<Command>>
    decreases ws.len(),
{
    if ws.len() == 0 {
        Some(seq![])
    } else {
        match Command::spec_new(ws[0]) {
            Some(c) => if c.size() <= ws.len() {
                match spec_decode_program(ws.subrange(c.size() as int, ws.len() as int)) {
                    Some(rest) => Some(
                        seq![c.with_next_words(word_at(ws, 1), word_at(ws, 2))] + rest,
                    ),
                    None => None,
                }
            } else {
                None
            },
            None => None,
        }
    }
}

/// The word stream of a list of instructions, each encoded in turn.
pub open spec fn program_words(cs: Seq<Command>) -> Seq<u16>
    decreases cs.len(),
{
    if cs.len() == 0 {
        seq![]
    } else {
        cs[0].words() + program_words(cs.drop_first())
    }
}

/// Every instruction of the list is well-formed.
pub open spec fn all_wf(cs: Seq<Command>) -> bool {
    forall|i: int| 0 <= i < cs.len() ==> #[trigger] cs[i].wf()
}

proof fn lemma_unpack(w: u16)
    ensures
        ((w >> 10u16) << 10u16) | (((w >> 5u16) & 0x1f) << 5u16) | (w & 0x1f) == w,
        (w & 0x1f) == 0 ==> ((w >> 10u16) << 10u16) | (((w >> 5u16) & 0x1f) << 5u16) == w,
        w >> 10u16 < 64,
{
    assert(((w >> 10u16) << 10u16) | (((w >> 5u16) & 0x1f) << 5u16) | (w & 0x1f) == w)
        by (bit_vector);
    assert((w & 0x1f) == 0 ==> ((w >> 10u16) << 10u16) | (((w >> 5u16) & 0x1f) << 5u16) == w)
        by (bit_vector);
    assert(w >> 10u16 < 64) by (bit_vector);
}

proof fn lemma_pack(op: u16, b: u16, a: u16)
    requires
        op < 32,
        b < 32,
        a < 64,
    ensures
        ((a << 10u16) | (b << 5u16) | op) & 0x1f == op,
        (((a << 10u16) | (b << 5u16) | op) >> 5u16) & 0x1f == b,
        ((a << 10u16) | (b << 5u16) | op) >> 10u16 == a,
        ((a << 10u16) | (b << 5u16)) & 0x1f == 0,
        (((a << 10u16) | (b << 5u16)) >> 5u16) & 0x1f == b,
        ((a << 10u16) | (b << 5u16)) >> 10u16 == a,
{
    assert(((a << 10u16) | (b << 5u16) | op) & 0x1f == op) by (bit_vector)
        requires op < 32, b < 32, a < 64;
    assert((((a << 10u16) | (b << 5u16) | op) >> 5u16) & 0x1f == b) by (bit_vector)
        requires op < 32, b < 32, a < 64;
    assert(((a << 10u16) | (b << 5u16) | op) >> 10u16 == a) by (bit_vector)
        requires op < 32, b < 32, a < 64;
    assert(((a << 10u16) | (b << 5u16)) & 0x1f == 0) by (bit_vector)
        requires b < 32, a < 64;
    assert((((a << 10u16) | (b << 5u16)) >> 5u16) & 0x1f == b) by (bit_vector)
        requires b < 32, a < 64;
    assert(((a << 10u16) | (b << 5u16)) >> 10u16 == a) by (bit_vector)
        requires b < 32, a < 64;
}

/// Every word that decodes is the encoding of what it decodes to.
pub proof fn lemma_decode_then_encode(w: u16)
    requires
        Command::spec_new(w) is Some,
    ensures
        Command::spec_new(w).unwrap().spec_code() == w,
{
    lemma_unpack(w);
    let a_code = w >> A_SHIFT;
    let b_code = (w >> B_SHIFT) & 0x1f;
    crate::value::lemma_value_decode_encode(a_code);
    if w & 0x1f != 0 {
        crate::value::lemma_value_decode_encode(b_code);
    }
}

/// A well-formed instruction, encoded and followed by any words, decodes back to itself.
pub proof fn lemma_encode_then_decode(c: Command, rest: Seq<u16>)
    requires
        c.wf(),
    ensures
        Command::spec_new(c.spec_code()) == Some(c.with_next_words(0, 0)),
        c.with_next_words(0, 0).size() == c.size(),
        decode_at(c.words() + rest) == Some(c),
        (c.words() + rest).subrange(c.size() as int, (c.words() + rest).len() as int) == rest,
{
    let ws = c.words() + rest;
    match c {
        Command::Basic { op, b, a } => {
            crate::value::lemma_value_encode_decode(a);
            crate::value::lemma_value_encode_decode(b);
            lemma_pack(op.spec_code(), b.spec_code(), a.spec_code());
        },
        Command::Special { op, a } => {
            crate::value::lemma_value_encode_decode(a);
            lemma_pack(0, op.spec_code(), a.spec_code());
        },
    }
    assert(ws.subrange(c.size() as int, ws.len() as int) =~= rest);
}

/// A well-formed instruction, encoded, decodes back to itself.
pub proof fn lemma_command_round_trip(c: Command)
    requires
        c.wf(),
    ensures
        decode_at(c.words()) == Some(c),
        spec_decode_program(c.words()) == Some(seq![c]),
{
    lemma_encode_then_decode(c, seq![]);
    assert(c.words() + seq![] =~= c.words());
    let ws = c.words();
    assert(ws.subrange(c.size() as int, ws.len() as int) =~= Seq::<u16>::empty());
    assert(spec_decode_program(Seq::<u16>::empty()) == Some(Seq::<Command>::empty()));
    assert(seq![c] + Seq::<Command>::empty() =~= seq![c]);
}

/// A list of well-formed instructions, encoded as a word stream, decodes back to the list.
pub proof fn lemma_program_round_trip(cs: Seq<Command>)
    requires
        all_wf(cs),
    ensures
        spec_decode_program(program_words(cs)) == Some(cs),
    decreases cs.len(),
{
    if cs.len() == 0 {
    } else {
        let c = cs[0];
        let tail = cs.drop_first();
        assert(c.wf());
        assert(all_wf(tail)) by {
            assert forall|i: int| 0 <= i < tail.len() implies #[trigger] tail[i].wf() by {
                assert(tail[i] == cs[i + 1]);
            }
        }
        lemma_program_round_trip(tail);
        let ws = program_words(cs);
        assert(ws == c.words() + program_words(tail));
        lemma_encode_then_decode(c, program_words(tail));
        assert(seq![c] + tail =~= cs);
    }
}


/// Encoding one more instruction appends its words to the stream.
pub proof fn lemma_program_words_push(cs: Seq<Command>, c: Command)
    ensures
        program_words(cs.push(c)) == program_words(cs) + c.words(),
    decreases cs.len(),
{
    if cs.len() == 0 {
        assert(cs.push(c).drop_first() =~= Seq::<Command>::empty());
        assert(program_words(cs.push(c)) =~= c.words() + program_words(Seq::<Command>::empty()));
        assert(c.words() + Seq::<u16>::empty() =~= c.words());
        assert(Seq::<u16>::empty() + c.words() =~= c.words());
    } else {
        lemma_program_words_push(cs.drop_first(), c);
        assert(cs.push(c).drop_first() =~= cs.drop_first().push(c));
        assert(program_words(cs.push(c)) == cs[0].words() + program_words(cs.drop_first().push(c)));
        assert(cs[0].words() + (program_words(cs.drop_first()) + c.words()) =~= (cs[0].words()
            + program_words(cs.drop_first())) + c.words());
    }
}

/// Decodes a whole word stream into instructions, each with the next words it reads.
///
/// Returns `None` where a word does not decode, or where the stream ends inside an instruction.
pub fn decode_program(words: &Vec<u16>) -> (r: Option<Vec<Command>>)
    ensures
        match r {
            Some(v) => spec_decode_program(words@) == Some(v@),
            None => spec_decode_program(words@) is None,
        },
{
    let mut result: Vec<Command> = Vec::new();
    let mut i: usize = 0;
    let len = words.len();
    assert(words@.subrange(0, len as int) =~= words@);
    proof {
        match spec_decode_program(words@) {
            Some(all) => assert(result@ + all =~= all),
            None => {},
        }
    }
    while i < len
        invariant
            len == words.len(),
            i <= len,
            spec_decode_program(words@) == match spec_decode_program(
                words@.subrange(i as int, len as int),
            ) {
                Some(rest) => Some(result@ + rest),
                None => None,
            },
        decreases len - i,
    {
        let ghost ws = words@.subrange(i as int, len as int);
        assert(ws[0] == words@[i as int]);
        let c = match Command::new(words[i]) {
            Some(c) => c,
            None => return None,
        };
        let size = c.get_size() as usize;
        if len - i < size {
            return None;
        }
        let n1: u16 = if len - i > 1 {
            words[i + 1]
        } else {
            0
        };
        let n2: u16 = if len - i > 2 {
            words[i + 2]
        } else {
            0
        };
        assert(n1 == word_at(ws, 1));
        assert(n2 == word_at(ws, 2));
        let full = c.set_next_words(n1, n2);
        let ghost before = result@;
        result.push(full);
        assert(ws.subrange(size as int, ws.len() as int) =~= words@.subrange(
            (i + size) as int,
            len as int,
        ));
        proof {
            match spec_decode_program(words@.subrange((i + size) as int, len as int)) {
                Some(rest) => {
                    assert(before + (seq![full] + rest) =~= result@ + rest);
                },
                None => {},
            }
        }
        i = i + size;
    }
    assert(words@.subrange(len as int, len as int) =~= Seq::<u16>::empty());
    assert(result@ + Seq::<Command>::empty() =~= result@);
    Some(result)
}


impl Command {
    /// Whether the instruction is one of the conditional basic operations.
    pub fn is_conditional_op(&self) -> (r: bool)
        ensures
            r == self.is_conditional(),
    {
        match self {
            Command::Basic { op, .. } => op.conditional(),
            Command::Special { .. } => false,
        }
    }
}


/// Packs an opcode and two operand codes into an instruction word.
pub fn cmd(op: u16, b: u16, a: u16) -> (r: u16)
    ensures
        r == (a << A_SHIFT) | (b << B_SHIFT) | op,
        op < 32 && b < 32 && a < 64 ==> r & 0x1f == op && (r >> B_SHIFT) & 0x1f == b && r
            >> A_SHIFT == a,
{
    proof {
        if op < 32 && b < 32 && a < 64 {
            lemma_pack(op, b, a);
        }
    }
    (a << A_SHIFT) | (b << B_SHIFT) | op
}

} // verus!
