use vstd::prelude::*;
use crate::alu::{alu, condition, spec_alu, spec_condition};
use crate::basic_op::BasicOp;
use crate::command::Command;
use crate::register::Register;
use crate::special_op::SpecialOp;
use crate::value::Value;

verus! {

/// The number of words of memory.
pub const MEMORY_WORDS: usize = 0x10000;

/// The capacity of the interrupt queue.
pub const MAX_INT_QUEUE_SIZE: usize = 256;

/// The longest chain of conditionals that one failed test skips.
pub const SKIP_LIMIT: u32 = 0x10000;

/// What stops `step` (and an interrupt trigger).
#[derive(Debug, Clone, Copy, PartialEq, Eq, Structural)]
pub enum StepError {
    /// The word at PC holds an unassigned opcode.
    Decode,
    /// HWQ or HWI named a device that is not attached.
    Device,
    /// An interrupt arrived while the queue already held its capacity.
    QueueOverflow,
}

/// Where an operand reads from and writes to.
#[derive(Debug, Clone, Copy, PartialEq, Eq, Structural)]
pub enum Target {
    Register(Register),
    Memory(u16),
    Pc,
    Sp,
    Ex,
    /// A literal: it reads as the value it carries, and writes to it are dropped.
    Discard(u16),
}

/// `x + d` modulo 2^16.
pub open spec fn wadd(x: u16, d: int) -> u16 {
    ((x + d) % 0x10000) as u16
}

/// The machine as a mathematical value.
pub struct MachineState {
    /// The general-purpose registers, indexed by register code.
    pub reg: Seq<u16>,
    pub pc: u16,
    pub sp: u16,
    pub ex: u16,
    pub ia: u16,
    pub queueing: bool,
    /// Interrupt messages waiting, oldest first.
    pub queue: Seq<u16>,
    pub mem: Seq<u16>,
    pub cycles: u64,
}

impl MachineState {
    pub open spec fn wf(self) -> bool {
        &&& self.reg.len() == 8
        &&& self.mem.len() == MEMORY_WORDS
        &&& self.queue.len() <= MAX_INT_QUEUE_SIZE
    }

    pub open spec fn get_reg(self, r: Register) -> u16 {
        self.reg[r.spec_code() as int]
    }

    pub open spec fn set_reg(self, r: Register, v: u16) -> MachineState {
        MachineState { reg: self.reg.update(r.spec_code() as int, v), ..self }
    }

    pub open spec fn read(self, addr: u16) -> u16 {
        self.mem[addr as int]
    }

    pub open spec fn write_mem(self, addr: u16, v: u16) -> MachineState {
        MachineState { mem: self.mem.update(addr as int, v), ..self }
    }

    pub open spec fn with_pc(self, pc: u16) -> MachineState {
        MachineState { pc, ..self }
    }

    pub open spec fn add_cycles(self, k: int) -> MachineState {
        MachineState { cycles: ((self.cycles + k) % 0x1_0000_0000_0000_0000) as u64, ..self }
    }

    /// Pushes `v`: SP goes down by one, then `v` is stored at SP.
    pub open spec fn push(self, v: u16) -> MachineState {
        let sp = wadd(self.sp, -1);
        MachineState { sp, mem: self.mem.update(sp as int, v), ..self }
    }

    /// The word at SP, and the state with SP up by one.
    pub open spec fn pop(self) -> (MachineState, u16) {
        (MachineState { sp: wadd(self.sp, 1), ..self }, self.read(self.sp))
    }

    /// Resolves an operand to where it reads and writes; `in_a` selects the a-slot meaning
    /// of STACK (POP) over the b-slot meaning (PUSH).
    pub open spec fn resolve(self, v: Value, in_a: bool) -> (MachineState, Target) {
        match v {
            Value::Reg(r) => (self, Target::Register(r)),
            Value::DerefReg(r) => (self, Target::Memory(self.get_reg(r))),
            Value::IndexReg(r, w) => (self, Target::Memory(wadd(self.get_reg(r), w as int))),
            Value::STACK => if in_a {
                (MachineState { sp: wadd(self.sp, 1), ..self }, Target::Memory(self.sp))
            } else {
                let sp = wadd(self.sp, -1);
                (MachineState { sp, ..self }, Target::Memory(sp))
            },
            Value::PEEK => (self, Target::Memory(self.sp)),
            Value::PICK(w) => (self, Target::Memory(wadd(self.sp, w as int))),
            Value::SP => (self, Target::Sp),
            Value::PC => (self, Target::Pc),
            Value::EX => (self, Target::Ex),
            Value::DerefNextWord(w) => (self, Target::Memory(w)),
            Value::NextWord(w) => (self, Target::Discard(w)),
            Value::Literal(w) => (self, Target::Discard(w)),
        }
    }

    pub open spec fn target_value(self, t: Target) -> u16 {
        match t {
            Target::Register(r) => self.get_reg(r),
            Target::Memory(addr) => self.read(addr),
            Target::Pc => self.pc,
            Target::Sp => self.sp,
            Target::Ex => self.ex,
            Target::Discard(w) => w,
        }
    }

    pub open spec fn write(self, t: Target, v: u16) -> MachineState {
        match t {
            Target::Register(r) => self.set_reg(r, v),
            Target::Memory(addr) => self.write_mem(addr, v),
            Target::Pc => MachineState { pc: v, ..self },
            Target::Sp => MachineState { sp: v, ..self },
            Target::Ex => MachineState { ex: v, ..self },
            Target::Discard(_) => self,
        }
    }

    /// Reads an a-slot operand: its value, and the state after its side effect.
    pub open spec fn read_a(self, v: Value) -> (MachineState, u16) {
        let (s, t) = self.resolve(v, true);
        (s, s.target_value(t))
    }

    /// An interrupt with message `msg` arrives (IA is assumed non-zero).
    pub open spec fn trigger(self, msg: u16) -> (MachineState, Result<(), StepError>) {
        if !self.queueing {
            let s = self.push(self.pc);
            let s = s.push(s.get_reg(Register::A));
            (MachineState { pc: self.ia, queueing: true, ..s.set_reg(Register::A, msg) }, Ok(()))
        } else if self.queue.len() >= MAX_INT_QUEUE_SIZE {
            (self, Err(StepError::QueueOverflow))
        } else {
            (MachineState { queue: self.queue.push(msg), ..self }, Ok(()))
        }
    }

    /// Between instructions: with queueing off, the oldest waiting interrupt is taken.
    pub open spec fn dispatch_pending(self) -> MachineState {
        if !self.queueing && self.queue.len() > 0 {
            let s = MachineState { queue: self.queue.drop_first(), ..self };
            if s.ia != 0 {
                s.trigger(self.queue[0]).0
            } else {
                s
            }
        } else {
            self
        }
    }

    /// The instruction at PC, with the next words that follow it.
    pub open spec fn fetch(self) -> Option<Command> {
        match Command::spec_new(self.read(self.pc)) {
            Some(c) => Some(
                c.with_next_words(self.read(wadd(self.pc, 1)), self.read(wadd(self.pc, 2))),
            ),
            None => None,
        }
    }

    /// Skips the instruction at PC, one cycle each, and goes on past conditionals while
    /// `fuel` lasts.
    pub open spec fn skip(self, fuel: nat) -> MachineState
        decreases fuel,
    {
        match Command::spec_new(self.read(self.pc)) {
            Some(c) => {
                let s = self.with_pc(wadd(self.pc, c.size() as int)).add_cycles(1);
                if c.is_conditional() && fuel > 0 {
                    s.skip((fuel - 1) as nat)
                } else {
                    s
                }
            },
            None => self.with_pc(wadd(self.pc, 1)).add_cycles(1),
        }
    }

    /// Executes a basic instruction whose words have been fetched.
    #[verifier::opaque]
    pub open spec fn exec_basic(self, op: BasicOp, b: Value, a: Value) -> MachineState {
        let (s1, av) = self.read_a(a);
        let (s2, tb) = s1.resolve(b, false);
        let bv = s2.target_value(tb);
        if op.is_conditional() {
            if spec_condition(op, bv, av) {
                s2
            } else {
                s2.skip(SKIP_LIMIT as nat)
            }
        } else if tb is Discard {
            s2
        } else {
            let (nb, nex) = spec_alu(op, bv, av, s2.ex);
            let s3 = s2.write(tb, nb);
            let s4 = match nex {
                Some(e) => MachineState { ex: e, ..s3 },
                None => s3,
            };
            match op {
                BasicOp::STI => s4.set_reg(Register::I, wadd(s4.get_reg(Register::I), 1)).set_reg(
                    Register::J,
                    wadd(s4.get_reg(Register::J), 1),
                ),
                BasicOp::STD => s4.set_reg(Register::I, wadd(s4.get_reg(Register::I), -1)).set_reg(
                    Register::J,
                    wadd(s4.get_reg(Register::J), -1),
                ),
                _ => s4,
            }
        }
    }

    /// Executes a special instruction whose words have been fetched.
    #[verifier::opaque]
    pub open spec fn exec_special(self, op: SpecialOp, a: Value) -> (MachineState, Result<(), StepError>) {
        let (s1, ta) = self.resolve(a, true);
        let av = s1.target_value(ta);
        match op {
            SpecialOp::JSR => (s1.push(s1.pc).with_pc(av), Ok(())),
            SpecialOp::INT => if s1.ia != 0 {
                s1.trigger(av)
            } else {
                (s1, Ok(()))
            },
            SpecialOp::IAG => (s1.write(ta, s1.ia), Ok(())),
            SpecialOp::IAS => (MachineState { ia: av, ..s1 }, Ok(())),
            SpecialOp::RFI => {
                let s2 = MachineState { queueing: false, ..s1 };
                let (s3, new_a) = s2.pop();
                let (s4, new_pc) = s3.pop();
                (s4.set_reg(Register::A, new_a).with_pc(new_pc).dispatch_pending(), Ok(()))
            },
            SpecialOp::IAQ => (MachineState { queueing: av != 0, ..s1 }, Ok(())),
            SpecialOp::HWN => (s1.write(ta, 0), Ok(())),
            SpecialOp::HWQ | SpecialOp::HWI => (s1, Err(StepError::Device)),
        }
    }

    /// The base cost of an instruction: its operation's plus one per next word.
    pub open spec fn base_cycles(c: Command) -> int {
        match c {
            Command::Basic { op, b, a } => op.spec_cycles() + b.spec_cycles() + a.spec_cycles(),
            Command::Special { op, a } => op.spec_cycles() + a.spec_cycles(),
        }
    }

    /// One step: take a waiting interrupt if queueing is off, then fetch, decode and execute
    /// the instruction at PC. The result is the new PC, or the error that stopped the step.
    pub open spec fn step(self) -> (MachineState, Result<u16, StepError>) {
        let s0 = self.dispatch_pending();
        match s0.fetch() {
            None => (s0, Err(StepError::Decode)),
            Some(c) => {
                let s1 = s0.with_pc(wadd(s0.pc, c.size() as int)).add_cycles(
                    MachineState::base_cycles(c),
                );
                match c {
                    Command::Basic { op, b, a } => {
                        let s2 = s1.exec_basic(op, b, a);
                        (s2, Ok(s2.pc))
                    },
                    Command::Special { op, a } => {
                        let (s2, r) = s1.exec_special(op, a);
                        match r {
                            Ok(_) => (s2, Ok(s2.pc)),
                            Err(e) => (s2, Err(e)),
                        }
                    },
                }
            },
        }
    }
}


/// `x + d` modulo 2^16.
fn add16(x: u16, d: u16) -> (r: u16)
    ensures
        r == wadd(x, d as int),
{
    ((x as u32 + d as u32) % 0x10000) as u16
}

/// `x - 1` modulo 2^16.
fn dec16(x: u16) -> (r: u16)
    ensures
        r == wadd(x, -1),
{
    if x == 0 {
        0xffff
    } else {
        x - 1
    }
}

/// A DCPU-16: eight registers, PC, SP, EX, IA, 65 536 words of memory, an interrupt queue
/// and the queueing flag, and a count of elapsed cycles.
pub struct DCPU16 {
    reg: Vec<u16>,
    pc: u16,
    sp: u16,
    ex: u16,
    ia: u16,
    interrupt_queueing: bool,
    int_queue: Vec<u16>,
    mem: Vec<u16>,
    cycles: u64,
}

impl View for DCPU16 {
    type V = MachineState;

    closed spec fn view(&self) -> MachineState {
        MachineState {
            reg: self.reg@,
            pc: self.pc,
            sp: self.sp,
            ex: self.ex,
            ia: self.ia,
            queueing: self.interrupt_queueing,
            queue: self.int_queue@,
            mem: self.mem@,
            cycles: self.cycles,
        }
    }
}

/// The machine as constructed: every register, every word of memory and the cycle count
/// zero, queueing off and no interrupt waiting.
pub open spec fn zeroed() -> MachineState {
    MachineState {
        reg: Seq::new(8, |i: int| 0u16),
        pc: 0,
        sp: 0,
        ex: 0,
        ia: 0,
        queueing: false,
        queue: seq![],
        mem: Seq::new(MEMORY_WORDS as nat, |i: int| 0u16),
        cycles: 0,
    }
}

fn zeros(n: usize) -> (r: Vec<u16>)
    ensures
        r@ == Seq::new(n as nat, |i: int| 0u16),
{
    let mut v: Vec<u16> = Vec::new();
    let mut i: usize = 0;
    while i < n
        invariant
            i <= n,
            v@ == Seq::new(i as nat, |j: int| 0u16),
        decreases n - i,
    {
        v.push(0);
        i = i + 1;
        assert(v@ =~= Seq::new(i as nat, |j: int| 0u16));
    }
    v
}

impl DCPU16 {
    pub open spec fn wf(&self) -> bool {
        self@.wf()
    }

    /// A machine with all state zero.
    pub fn new() -> (r: DCPU16)
        ensures
            r.wf(),
            r@ == zeroed(),
    {
        DCPU16 {
            reg: zeros(8),
            pc: 0x0000,
            sp: 0x0000,
            ex: 0x0000,
            ia: 0x0000,
            interrupt_queueing: false,
            int_queue: Vec::new(),
            mem: zeros(MEMORY_WORDS),
            cycles: 0,
        }
    }

    /// Installs a full memory image.
    pub fn load(&mut self, rom: [u16; 0x10000])
        requires
            old(self).wf(),
        ensures
            final(self).wf(),
            final(self)@ == (MachineState { mem: rom@, ..old(self)@ }),
    {
        self.mem = vstd::slice::slice_to_vec(rom.as_slice());
    }

    pub fn pc(&self) -> (r: u16)
        ensures
            r == self@.pc,
    {
        self.pc
    }

    pub fn sp(&self) -> (r: u16)
        ensures
            r == self@.sp,
    {
        self.sp
    }

    pub fn ex(&self) -> (r: u16)
        ensures
            r == self@.ex,
    {
        self.ex
    }

    pub fn ia(&self) -> (r: u16)
        ensures
            r == self@.ia,
    {
        self.ia
    }

    pub fn cycles(&self) -> (r: u64)
        ensures
            r == self@.cycles,
    {
        self.cycles
    }

    pub fn interrupt_queueing(&self) -> (r: bool)
        ensures
            r == self@.queueing,
    {
        self.interrupt_queueing
    }

    /// The number of interrupts waiting in the queue.
    pub fn queued_interrupts(&self) -> (r: usize)
        ensures
            r == self@.queue.len(),
    {
        self.int_queue.len()
    }

    /// The value of a general-purpose register.
    pub fn reg(&self, r: Register) -> (v: u16)
        requires
            self.wf(),
        ensures
            v == self@.get_reg(r),
    {
        self.reg[r.code() as usize]
    }

    /// The word of memory at `addr`.
    pub fn mem(&self, addr: u16) -> (v: u16)
        requires
            self.wf(),
        ensures
            v == self@.read(addr),
    {
        self.mem[addr as usize]
    }

    /// Sets a general-purpose register.
    pub fn set_reg(&mut self, r: Register, v: u16)
        requires
            old(self).wf(),
        ensures
            final(self).wf(),
            final(self)@ == old(self)@.set_reg(r, v),
    {
        self.reg.set(r.code() as usize, v);
    }

    fn write_mem(&mut self, addr: u16, v: u16)
        requires
            old(self).wf(),
        ensures
            final(self)@ == old(self)@.write_mem(addr, v),
    {
        self.mem.set(addr as usize, v);
    }

    fn push(&mut self, v: u16)
        requires
            old(self).wf(),
        ensures
            final(self)@ == old(self)@.push(v),
    {
        self.sp = dec16(self.sp);
        self.mem.set(self.sp as usize, v);
    }

    fn pop(&mut self) -> (v: u16)
        requires
            old(self).wf(),
        ensures
            (final(self)@, v) == old(self)@.pop(),
    {
        let v = self.mem[self.sp as usize];
        self.sp = add16(self.sp, 1);
        v
    }

    /// Reads the word at PC and moves PC past it.
    pub fn next_word(&mut self) -> (r: u16)
        requires
            old(self).wf(),
        ensures
            r == old(self)@.read(old(self)@.pc),
            final(self)@ == old(self)@.with_pc(wadd(old(self)@.pc, 1)),
    {
        let word = self.mem[self.pc as usize];
        self.pc = add16(self.pc, 1);
        word
    }

    fn resolve(&mut self, val: &Value, in_a: bool) -> (t: Target)
        requires
            old(self).wf(),
        ensures
            (final(self)@, t) == old(self)@.resolve(*val, in_a),
    {
        match val {
            Value::Reg(reg) => Target::Register(*reg),
            Value::DerefReg(reg) => Target::Memory(self.reg[reg.code() as usize]),
            Value::IndexReg(reg, w) => Target::Memory(add16(self.reg[reg.code() as usize], *w)),
            Value::STACK => if in_a {
                let addr = self.sp;
                self.sp = add16(self.sp, 1);
                Target::Memory(addr)
            } else {
                self.sp = dec16(self.sp);
                Target::Memory(self.sp)
            },
            Value::PEEK => Target::Memory(self.sp),
            Value::PICK(w) => Target::Memory(add16(self.sp, *w)),
            Value::SP => Target::Sp,
            Value::PC => Target::Pc,
            Value::EX => Target::Ex,
            Value::DerefNextWord(w) => Target::Memory(*w),
            Value::NextWord(w) => Target::Discard(*w),
            Value::Literal(w) => Target::Discard(*w),
        }
    }

    fn target_value(&self, t: Target) -> (v: u16)
        requires
            self.wf(),
        ensures
            v == self@.target_value(t),
    {
        match t {
            Target::Register(r) => self.reg[r.code() as usize],
            Target::Memory(addr) => self.mem[addr as usize],
            Target::Pc => self.pc,
            Target::Sp => self.sp,
            Target::Ex => self.ex,
            Target::Discard(w) => w,
        }
    }

    fn write(&mut self, t: Target, v: u16)
        requires
            old(self).wf(),
        ensures
            final(self)@ == old(self)@.write(t, v),
    {
        match t {
            Target::Register(r) => self.set_reg(r, v),
            Target::Memory(addr) => self.write_mem(addr, v),
            Target::Pc => self.pc = v,
            Target::Sp => self.sp = v,
            Target::Ex => self.ex = v,
            Target::Discard(_) => {},
        }
    }

    /// Evaluates an operand on the read path (the a slot, where STACK pops).
    pub fn value(&mut self, val: &Value) -> (r: u16)
        requires
            old(self).wf(),
        ensures
            final(self).wf(),
            (final(self)@, r) == old(self)@.read_a(*val),
    {
        let t = self.resolve(val, true);
        self.target_value(t)
    }

    /// Resolves an operand on the write path (the b slot, where STACK pushes) to where it
    /// is written.
    pub fn mut_value(&mut self, val: &Value) -> (r: Target)
        requires
            old(self).wf(),
        ensures
            final(self).wf(),
            (final(self)@, r) == old(self)@.resolve(*val, false),
    {
        self.resolve(val, false)
    }
}


impl DCPU16 {
    fn trigger(&mut self, msg: u16) -> (r: Result<(), StepError>)
        requires
            old(self).wf(),
        ensures
            final(self).wf(),
            (final(self)@, r) == old(self)@.trigger(msg),
    {
        if !self.interrupt_queueing {
            let pc = self.pc;
            self.push(pc);
            let a = self.reg(Register::A);
            self.push(a);
            self.set_reg(Register::A, msg);
            self.pc = self.ia;
            self.interrupt_queueing = true;
            Ok(())
        } else if self.int_queue.len() >= MAX_INT_QUEUE_SIZE {
            Err(StepError::QueueOverflow)
        } else {
            self.int_queue.push(msg);
            Ok(())
        }
    }

    fn dispatch_pending(&mut self)
        requires
            old(self).wf(),
        ensures
            final(self).wf(),
            final(self)@ == old(self)@.dispatch_pending(),
    {
        if !self.interrupt_queueing && self.int_queue.len() > 0 {
            let msg = self.int_queue.remove(0);
            assert(self.int_queue@ =~= old(self)@.queue.drop_first());
            if self.ia != 0 {
                let _ = self.trigger(msg);
            }
        }
    }

    /// An interrupt with message `msg` arrives from outside: with IA zero it is dropped,
    /// else it is taken at once (queueing off) or queued.
    pub fn interrupt(&mut self, msg: u16) -> (r: Result<(), StepError>)
        requires
            old(self).wf(),
        ensures
            final(self).wf(),
            (final(self)@, r) == (if old(self)@.ia != 0 {
                old(self)@.trigger(msg)
            } else {
                (old(self)@, Ok(()))
            }),
    {
        if self.ia != 0 {
            self.trigger(msg)
        } else {
            Ok(())
        }
    }

    /// Decodes the instruction at PC with its next words and moves PC past it; on a word
    /// that does not decode nothing changes.
    fn fetch(&mut self) -> (r: Option<Command>)
        requires
            old(self).wf(),
        ensures
            final(self).wf(),
            r == old(self)@.fetch(),
            match r {
                Some(c) => final(self)@ == old(self)@.with_pc(wadd(old(self)@.pc, c.size() as int)),
                None => final(self)@ == old(self)@,
            },
    {
        let pc = self.pc;
        let c = match Command::new(self.mem[pc as usize]) {
            Some(c) => c,
            None => return None,
        };
        let ghost n1 = self@.read(wadd(pc, 1));
        let ghost n2 = self@.read(wadd(pc, 2));
        self.pc = add16(pc, 1);
        let c = match c {
            Command::Basic { op, b, a } => {
                let has_a = crate::value::get_next_word(&a).is_some();
                let has_b = crate::value::get_next_word(&b).is_some();
                let w1 = if has_a || has_b {
                    self.next_word()
                } else {
                    0
                };
                let w2 = if has_a && has_b {
                    self.next_word()
                } else {
                    0
                };
                assert(c.with_next_words(w1, w2) == c.with_next_words(n1, n2));
                c.set_next_words(w1, w2)
            },
            Command::Special { op, a } => {
                let wa = if crate::value::get_next_word(&a).is_some() {
                    self.next_word()
                } else {
                    0
                };
                c.set_next_words(wa, 0)
            },
        };
        Some(c)
    }

    /// Skips the instruction at PC, and the ones after it while they are conditionals.
    fn skip(&mut self)
        requires
            old(self).wf(),
        ensures
            final(self).wf(),
            final(self)@ == old(self)@.skip(SKIP_LIMIT as nat),
    {
        let mut fuel: u32 = SKIP_LIMIT;
        loop
            invariant
                self.wf(),
                old(self)@.skip(SKIP_LIMIT as nat) == self@.skip(fuel as nat),
            decreases fuel,
        {
            match Command::new(self.mem[self.pc as usize]) {
                Some(c) => {
                    self.pc = add16(self.pc, c.get_size());
                    self.cycles = self.cycles.wrapping_add(1);
                    if c.is_conditional_op() && fuel > 0 {
                        fuel = fuel - 1;
                    } else {
                        return;
                    }
                },
                None => {
                    self.pc = add16(self.pc, 1);
                    self.cycles = self.cycles.wrapping_add(1);
                    return;
                },
            }
        }
    }
}


impl DCPU16 {
    fn exec_basic(&mut self, op: BasicOp, b: &Value, a: &Value)
        requires
            old(self).wf(),
        ensures
            final(self).wf(),
            final(self)@ == old(self)@.exec_basic(op, *b, *a),
    {
        reveal(MachineState::exec_basic);
        // a is read first: popping it may move SP before b is resolved.
        let av = self.value(a);
        let tb = self.mut_value(b);
        let bv = self.target_value(tb);
        if op.conditional() {
            if !condition(op, bv, av) {
                self.skip();
            }
        } else if let Target::Discard(_) = tb {
        } else {
            let (nb, nex) = alu(op, bv, av, self.ex);
            self.write(tb, nb);
            if let Some(e) = nex {
                self.ex = e;
            }
            match op {
                BasicOp::STI => {
                    let i = self.reg(Register::I);
                    self.set_reg(Register::I, add16(i, 1));
                    let j = self.reg(Register::J);
                    self.set_reg(Register::J, add16(j, 1));
                },
                BasicOp::STD => {
                    let i = self.reg(Register::I);
                    self.set_reg(Register::I, dec16(i));
                    let j = self.reg(Register::J);
                    self.set_reg(Register::J, dec16(j));
                },
                _ => {},
            }
        }
    }

    fn exec_special(&mut self, op: SpecialOp, a: &Value) -> (r: Result<(), StepError>)
        requires
            old(self).wf(),
        ensures
            final(self).wf(),
            (final(self)@, r) == old(self)@.exec_special(op, *a),
    {
        reveal(MachineState::exec_special);
        let ta = self.resolve(a, true);
        let av = self.target_value(ta);
        match op {
            SpecialOp::JSR => {
                let pc = self.pc;
                self.push(pc);
                self.pc = av;
                Ok(())
            },
            SpecialOp::INT => if self.ia != 0 {
                self.trigger(av)
            } else {
                Ok(())
            },
            SpecialOp::IAG => {
                let ia = self.ia;
                self.write(ta, ia);
                Ok(())
            },
            SpecialOp::IAS => {
                self.ia = av;
                Ok(())
            },
            SpecialOp::RFI => {
                self.interrupt_queueing = false;
                let new_a = self.pop();
                let new_pc = self.pop();
                self.set_reg(Register::A, new_a);
                self.pc = new_pc;
                self.dispatch_pending();
                Ok(())
            },
            SpecialOp::IAQ => {
                self.interrupt_queueing = av != 0;
                Ok(())
            },
            SpecialOp::HWN => {
                // No device table is attached: no devices are connected.
                self.write(ta, 0);
                Ok(())
            },
            SpecialOp::HWQ | SpecialOp::HWI => Err(StepError::Device),
        }
    }

    /// Runs one instruction. A waiting interrupt is taken first if queueing is off; then the
    /// instruction at PC is fetched with its next words, its base cycles are counted, and it
    /// is executed. Returns the new PC, or the error that stopped the step.
    pub fn step(&mut self) -> (r: Result<u16, StepError>)
        requires
            old(self).wf(),
        ensures
            final(self).wf(),
            (final(self)@, r) == old(self)@.step(),
    {
        self.dispatch_pending();
        let c = match self.fetch() {
            Some(c) => c,
            None => return Err(StepError::Decode),
        };
        let cost: u64 = match c {
            Command::Basic { op, b, a } => (op.cycles() + b.cycles() + a.cycles()) as u64,
            Command::Special { op, a } => (op.cycles() + a.cycles()) as u64,
        };
        self.cycles = self.cycles.wrapping_add(cost);
        match c {
            Command::Basic { op, b, a } => {
                self.exec_basic(op, &b, &a);
                Ok(self.pc)
            },
            Command::Special { op, a } => match self.exec_special(op, &a) {
                Ok(()) => Ok(self.pc),
                Err(e) => Err(e),
            },
        }
    }
}


/// Whether `v` is a literal operand (an inline literal or a next word read as one) whose
/// value is `x`.
pub open spec fn is_constant(v: Value, x: u16) -> bool {
    v == Value::NextWord(x) || v == Value::Literal(x)
}

/// A write to a literal is dropped: a non-conditional basic instruction whose b operand is a
/// literal changes nothing but what reading its a operand changes.
pub proof fn lemma_read_only_destination(s: MachineState, op: BasicOp, b: Value, a: Value)
    requires
        !op.is_conditional(),
        b is NextWord || b is Literal,
    ensures
        s.exec_basic(op, b, a) == s.read_a(a).0,
{
    reveal(MachineState::exec_basic);
}

/// The same holds of the special operations that write their operand (IAG, HWN): with a
/// literal operand they change nothing.
pub proof fn lemma_read_only_special_destination(s: MachineState, op: SpecialOp, a: Value)
    requires
        op == SpecialOp::IAG || op == SpecialOp::HWN,
        a is NextWord || a is Literal,
    ensures
        s.exec_special(op, a) == (s, Ok::<(), StepError>(())),
{
    reveal(MachineState::exec_special);
}

/// A whole step of such an instruction, with an a operand that has no side effect, only
/// moves PC past it and counts its cycles.
pub proof fn lemma_read_only_step(s: MachineState, op: BasicOp, b: Value, a: Value)
    requires
        s.wf(),
        s.queueing || s.queue.len() == 0,
        s.fetch() == Some(Command::Basic { op, b, a }),
        !op.is_conditional(),
        b is NextWord || b is Literal,
        !(a is STACK),
    ensures
        s.step().0 == s.with_pc(wadd(s.pc, Command::Basic { op, b, a }.size() as int)).add_cycles(
            MachineState::base_cycles(Command::Basic { op, b, a }),
        ),
{
    reveal(MachineState::exec_basic);
}

/// A conditional whose test fails skips the next instruction entirely, its next words
/// included, where that instruction is not itself a conditional.
pub proof fn lemma_failed_test_skips(
    s: MachineState,
    op: BasicOp,
    b: Value,
    a: Value,
    x: u16,
    y: u16,
    next: Command,
)
    requires
        s.wf(),
        s.queueing || s.queue.len() == 0,
        s.fetch() == Some(Command::Basic { op, b, a }),
        op.is_conditional(),
        is_constant(b, x),
        is_constant(a, y),
        !spec_condition(op, x, y),
        Command::spec_new(s.read(wadd(s.pc, Command::Basic { op, b, a }.size() as int)))
            == Some(next),
        !next.is_conditional(),
    ensures
        ({
            let (t, r) = s.step();
            let pc = wadd(wadd(s.pc, Command::Basic { op, b, a }.size() as int), next.size() as int);
            &&& r == Ok::<u16, StepError>(pc)
            &&& t.pc == pc
            &&& t.reg == s.reg
            &&& t.mem == s.mem
            &&& t.sp == s.sp
            &&& t.ex == s.ex
        }),
{
    reveal(MachineState::exec_basic);
}

/// `INT` with IA zero changes nothing but PC and the cycle count.
pub proof fn lemma_int_without_handler(s: MachineState, a: Value, msg: u16)
    requires
        s.wf(),
        s.queueing || s.queue.len() == 0,
        s.ia == 0,
        s.fetch() == Some(Command::Special { op: SpecialOp::INT, a }),
        is_constant(a, msg),
    ensures
        ({
            let c = Command::Special { op: SpecialOp::INT, a };
            let t = s.with_pc(wadd(s.pc, c.size() as int)).add_cycles(
                MachineState::base_cycles(c),
            );
            s.step() == (t, Ok::<u16, StepError>(t.pc))
        }),
{
    reveal(MachineState::exec_special);
}

/// `INT` with a handler set and queueing off pushes the return address, then A, and enters
/// the handler with the message in A.
#[verifier::rlimit(40)]
pub proof fn lemma_int_enters_handler(s: MachineState, a: Value, msg: u16)
    requires
        s.wf(),
        !s.queueing,
        s.queue.len() == 0,
        s.ia != 0,
        s.fetch() == Some(Command::Special { op: SpecialOp::INT, a }),
        is_constant(a, msg),
    ensures
        ({
            let (t, r) = s.step();
            let ret = wadd(s.pc, Command::Special { op: SpecialOp::INT, a }.size() as int);
            &&& r == Ok::<u16, StepError>(s.ia)
            &&& t.pc == s.ia
            &&& t.sp == wadd(s.sp, -2)
            &&& t.read(wadd(s.sp, -1)) == ret
            &&& t.read(wadd(s.sp, -2)) == s.get_reg(Register::A)
            &&& t.get_reg(Register::A) == msg
            &&& t.queueing
        }),
{
    reveal(MachineState::exec_special);
    let c = Command::Special { op: SpecialOp::INT, a };
    let s1 = s.with_pc(wadd(s.pc, c.size() as int)).add_cycles(MachineState::base_cycles(c));
    assert(s.dispatch_pending() == s);
    assert(s1.resolve(a, true) == (s1, Target::Discard(msg)));
    assert(s1.exec_special(SpecialOp::INT, a) == s1.trigger(msg));
    assert(wadd(s.sp, -1) != wadd(s.sp, -2));
}


impl Default for DCPU16 {
    fn default() -> (r: DCPU16)
        ensures
            r.wf(),
            r@ == zeroed(),
    {
        DCPU16::new()
    }
}


/// Skipping moves only PC and the cycle count.
proof fn lemma_skip_frame(s: MachineState, fuel: nat)
    ensures
        ({
            let t = s.skip(fuel);
            &&& t.reg == s.reg
            &&& t.mem == s.mem
            &&& t.sp == s.sp
            &&& t.ex == s.ex
            &&& t.ia == s.ia
            &&& t.queueing == s.queueing
            &&& t.queue == s.queue
        }),
    decreases fuel,
{
    if let Some(c) = Command::spec_new(s.read(s.pc)) {
        if c.is_conditional() && fuel > 0 {
            lemma_skip_frame(s.with_pc(wadd(s.pc, c.size() as int)).add_cycles(1), (fuel - 1) as nat);
        }
    }
}

proof fn lemma_trigger_keeps_wf(s: MachineState, msg: u16)
    requires
        s.wf(),
    ensures
        s.trigger(msg).0.wf(),
{
}

proof fn lemma_dispatch_keeps_wf(s: MachineState)
    requires
        s.wf(),
    ensures
        s.dispatch_pending().wf(),
{
    if !s.queueing && s.queue.len() > 0 {
        let t = MachineState { queue: s.queue.drop_first(), ..s };
        lemma_trigger_keeps_wf(t, s.queue[0]);
    }
}

proof fn lemma_basic_keeps_wf(s: MachineState, op: BasicOp, b: Value, a: Value)
    requires
        s.wf(),
    ensures
        s.exec_basic(op, b, a).wf(),
{
    reveal(MachineState::exec_basic);
    let (s1, av) = s.read_a(a);
    let (s2, tb) = s1.resolve(b, false);
    lemma_skip_frame(s2, SKIP_LIMIT as nat);
}

proof fn lemma_special_keeps_wf(s: MachineState, op: SpecialOp, a: Value)
    requires
        s.wf(),
    ensures
        s.exec_special(op, a).0.wf(),
{
    reveal(MachineState::exec_special);
    let (s1, ta) = s.resolve(a, true);
    let av = s1.target_value(ta);
    lemma_trigger_keeps_wf(s1, av);
    let s2 = MachineState { queueing: false, ..s1 };
    let (s3, new_a) = s2.pop();
    let (s4, new_pc) = s3.pop();
    lemma_dispatch_keeps_wf(s4.set_reg(Register::A, new_a).with_pc(new_pc));
}

/// Every step keeps the machine well-formed: eight registers, 65 536 words of memory, and
/// at most the queue's capacity of waiting interrupts. (PC, SP, the registers and every
/// address are words, so they lie in 0..0x10000.)
pub proof fn lemma_step_keeps_wf(s: MachineState)
    requires
        s.wf(),
    ensures
        s.step().0.wf(),
{
    let s0 = s.dispatch_pending();
    lemma_dispatch_keeps_wf(s);
    if let Some(c) = s0.fetch() {
        let s1 = s0.with_pc(wadd(s0.pc, c.size() as int)).add_cycles(MachineState::base_cycles(c));
        match c {
            Command::Basic { op, b, a } => lemma_basic_keeps_wf(s1, op, b, a),
            Command::Special { op, a } => lemma_special_keeps_wf(s1, op, a),
        }
    }
}

} // verus!
