//! The execution engine: memory, flags, instruction pointer, and the
//! fetch-decode-execute cycle.

use vstd::prelude::*;
use crate::isa::{decode, decode_spec, Instr};
use crate::image::{read_words_into, words_of};

verus! {

/// The three flag registers.
#[derive(Clone, Copy, Debug, PartialEq, Eq, Structural)]
pub struct Flags {
    /// Execution should stop; never cleared once set.
    pub halt: bool,
    /// Set by a comparison of equal words or a subtraction that reached zero.
    pub zero: bool,
    /// Set by an addition, subtraction or multiplication that left the word range.
    pub overflow: bool,
}

/// A fatal condition that stops the engine.
#[derive(Clone, Copy, Debug, PartialEq, Eq, Structural)]
pub enum Fault {
    /// The instruction at `ip` referenced `addr`, which is not below the capacity.
    Address { ip: usize, addr: usize },
    /// The instruction at `ip` divided by zero.
    Arithmetic { ip: usize },
}

#[derive(Clone, Copy, Debug, PartialEq, Eq, Structural)]
pub enum EngineState {
    Running,
    Halted,
    Faulted(Fault),
}

/// What one cycle produced, for the tasks around the engine.
#[derive(Clone, Copy, Debug, PartialEq, Eq, Structural)]
pub enum Event {
    /// The instruction ran; nothing to hand out.
    Continue,
    /// A character for the output channel.
    Print(char),
    /// `eof` ran: the engine halted.
    Halt,
    /// The engine stopped on a fault.
    Fault(Fault),
    /// The engine had already stopped; nothing ran.
    Stopped,
}

/// The machine as a mathematical value.
pub struct MachineModel {
    pub mem: Seq<u32>,
    pub ip: usize,
    pub flags: Flags,
    pub state: EngineState,
}

pub open spec fn fresh(capacity: nat) -> MachineModel {
    MachineModel {
        mem: Seq::new(capacity, |i: int| 0u32),
        ip: 0,
        flags: Flags { halt: false, zero: false, overflow: false },
        state: EngineState::Running,
    }
}

pub open spec fn in_range(m: MachineModel, a: int) -> bool {
    0 <= a < m.mem.len()
}

/// Stop on a fault; memory and the instruction pointer stay as they were.
pub open spec fn faulted(m: MachineModel, f: Fault) -> (MachineModel, Event) {
    (
        MachineModel {
            flags: Flags { halt: true, ..m.flags },
            state: EngineState::Faulted(f),
            ..m
        },
        Event::Fault(f),
    )
}

pub open spec fn address_fault(m: MachineModel, a: int) -> (MachineModel, Event) {
    faulted(m, Fault::Address { ip: m.ip, addr: a as usize })
}

/// Go on at `next` with the given memory and flags, handing out `e`.
pub open spec fn proceed(
    m: MachineModel,
    mem: Seq<u32>,
    flags: Flags,
    next: usize,
    e: Event,
) -> (MachineModel, Event) {
    (MachineModel { mem, ip: next, flags, state: m.state }, e)
}

pub open spec fn next_ip(m: MachineModel) -> usize {
    (m.ip + 1) as usize
}

pub open spec fn set_overflow(f: Flags) -> Flags {
    Flags { overflow: true, ..f }
}

/// The effect of one decoded instruction on a running machine whose
/// instruction pointer is in range. Operand addresses are checked in the order
/// `op1`, then the other operand, then (for `mop`) the loaded pointer.
pub open spec fn execute(m: MachineModel, i: Instr) -> (MachineModel, Event) {
    let next = next_ip(m);
    let mem = m.mem;
    let flags = m.flags;
    match i {
        Instr::Eof => (
            MachineModel { flags: Flags { halt: true, ..flags }, state: EngineState::Halted, ..m },
            Event::Halt,
        ),
        Instr::Mov { dst, src } => {
            if !in_range(m, dst as int) {
                address_fault(m, dst as int)
            } else if !in_range(m, src as int) {
                address_fault(m, src as int)
            } else {
                proceed(m, mem.update(dst as int, mem[src as int]), flags, next, Event::Continue)
            }
        },
        Instr::Mop { dst, src } => {
            if !in_range(m, dst as int) {
                address_fault(m, dst as int)
            } else if !in_range(m, src as int) {
                address_fault(m, src as int)
            } else if !in_range(m, mem[src as int] as int) {
                address_fault(m, mem[src as int] as int)
            } else {
                proceed(
                    m,
                    mem.update(dst as int, mem[mem[src as int] as int]),
                    flags,
                    next,
                    Event::Continue,
                )
            }
        },
        Instr::Str { dst, imm } => {
            if !in_range(m, dst as int) {
                address_fault(m, dst as int)
            } else {
                proceed(m, mem.update(dst as int, imm as u32), flags, next, Event::Continue)
            }
        },
        Instr::Adi { dst, imm } => {
            if !in_range(m, dst as int) {
                address_fault(m, dst as int)
            } else if mem[dst as int] + imm > u32::MAX {
                proceed(m, mem, set_overflow(flags), next, Event::Continue)
            } else {
                proceed(
                    m,
                    mem.update(dst as int, (mem[dst as int] + imm) as u32),
                    flags,
                    next,
                    Event::Continue,
                )
            }
        },
        Instr::Sui { dst, imm } => {
            if !in_range(m, dst as int) {
                address_fault(m, dst as int)
            } else if mem[dst as int] < imm {
                proceed(m, mem, set_overflow(flags), next, Event::Continue)
            } else {
                let d = (mem[dst as int] - imm) as u32;
                proceed(
                    m,
                    mem.update(dst as int, d),
                    if d == 0 { Flags { zero: true, ..flags } } else { flags },
                    next,
                    Event::Continue,
                )
            }
        },
        Instr::Jmp { target } => proceed(m, mem, flags, target as usize, Event::Continue),
        Instr::Jz { target } => proceed(
            m,
            mem,
            flags,
            if flags.zero { target as usize } else { next },
            Event::Continue,
        ),
        Instr::Cmp { a, b } => {
            if !in_range(m, a as int) {
                address_fault(m, a as int)
            } else if !in_range(m, b as int) {
                address_fault(m, b as int)
            } else {
                proceed(
                    m,
                    mem,
                    Flags { zero: mem[a as int] == mem[b as int], ..flags },
                    next,
                    Event::Continue,
                )
            }
        },
        Instr::Prn { addr } => {
            if !in_range(m, addr as int) {
                address_fault(m, addr as int)
            } else {
                proceed(m, mem, flags, next, Event::Print(low_char(mem[addr as int])))
            }
        },
        Instr::Mul { dst, src } => {
            if !in_range(m, dst as int) {
                address_fault(m, dst as int)
            } else if !in_range(m, src as int) {
                address_fault(m, src as int)
            } else if mem[dst as int] * mem[src as int] > u32::MAX {
                proceed(m, mem, set_overflow(flags), next, Event::Continue)
            } else {
                proceed(
                    m,
                    mem.update(dst as int, (mem[dst as int] * mem[src as int]) as u32),
                    flags,
                    next,
                    Event::Continue,
                )
            }
        },
        Instr::Div { dst, src } => {
            if !in_range(m, dst as int) {
                address_fault(m, dst as int)
            } else if !in_range(m, src as int) {
                address_fault(m, src as int)
            } else if mem[src as int] == 0 {
                faulted(m, Fault::Arithmetic { ip: m.ip })
            } else {
                proceed(
                    m,
                    mem.update(dst as int, (mem[dst as int] / mem[src as int]) as u32),
                    flags,
                    next,
                    Event::Continue,
                )
            }
        },
        Instr::Unknown { .. } => proceed(m, mem, flags, next, Event::Continue),
    }
}

/// The character whose code is the low byte of `w`.
pub open spec fn low_char(w: u32) -> char {
    ((w as u8) as u32) as char
}

/// Running, with the instruction pointer on a word of memory.
pub open spec fn ready(m: MachineModel) -> bool {
    m.state == EngineState::Running && m.ip < m.mem.len()
}

/// One fetch-decode-execute cycle.
pub open spec fn step(m: MachineModel) -> (MachineModel, Event) {
    if m.state != EngineState::Running {
        (m, Event::Stopped)
    } else if m.ip >= m.mem.len() {
        address_fault(m, m.ip as int)
    } else {
        execute(m, decode_spec(m.mem[m.ip as int]))
    }
}

/// Why a program could not be loaded.
#[derive(Clone, Copy, Debug, PartialEq, Eq, Structural)]
pub enum LoadError {
    /// The program holds more words than the memory.
    TooLarge { words: usize, capacity: usize },
    /// The program's length is not a whole number of words.
    PartialWord { len: usize },
}

/// Loading `bytes`: its words replace the prefix of memory; on an error the
/// machine is unchanged.
pub open spec fn load_spec(m: MachineModel, bytes: Seq<u8>) -> (MachineModel, Result<(), LoadError>) {
    let k = bytes.len() / 4;
    if bytes.len() % 4 != 0 {
        (m, Err(LoadError::PartialWord { len: bytes.len() as usize }))
    } else if k > m.mem.len() {
        (m, Err(LoadError::TooLarge { words: k as usize, capacity: m.mem.len() as usize }))
    } else {
        (MachineModel { mem: words_of(bytes) + m.mem.subrange(k as int, m.mem.len() as int), ..m }, Ok(()))
    }
}

/// The characters that an event hands to the output channel.
pub open spec fn printed(e: Event) -> Seq<char> {
    match e {
        Event::Print(c) => seq![c],
        _ => Seq::empty(),
    }
}

/// At most `fuel` cycles, stopping early once the engine stops: the final
/// machine and the characters printed, in order.
pub open spec fn run_spec(m: MachineModel, fuel: nat) -> (MachineModel, Seq<char>)
    decreases fuel,
{
    if fuel == 0 || m.state != EngineState::Running {
        (m, Seq::empty())
    } else {
        let (m2, e) = step(m);
        let (m3, out) = run_spec(m2, (fuel - 1) as nat);
        (m3, printed(e) + out)
    }
}

/// The virtual CPU: a fixed-capacity memory of words, the instruction pointer,
/// the flag registers and whether the engine still runs.
pub struct Virtmachine {
    mem: Vec<u32>,
    ip: usize,
    flags: Flags,
    state: EngineState,
}

impl View for Virtmachine {
    type V = MachineModel;

    closed spec fn view(&self) -> MachineModel {
        MachineModel { mem: self.mem@, ip: self.ip, flags: self.flags, state: self.state }
    }
}

impl Virtmachine {
    /// A running machine with `memsize` zero words, all flags clear and `ip` at 0.
    pub fn new(memsize: usize) -> (r: Virtmachine)
        ensures
            r@ == fresh(memsize as nat),
    {
        let mem = vec![0u32; memsize];
        let r = Virtmachine {
            mem,
            ip: 0,
            flags: Flags { halt: false, zero: false, overflow: false },
            state: EngineState::Running,
        };
        assert(r@.mem =~= fresh(memsize as nat).mem);
        r
    }

    pub fn capacity(&self) -> (r: usize)
        ensures
            r == self@.mem.len(),
    {
        self.mem.len()
    }

    pub fn ip(&self) -> (r: usize)
        ensures
            r == self@.ip,
    {
        self.ip
    }

    pub fn flags(&self) -> (r: Flags)
        ensures
            r == self@.flags,
    {
        self.flags
    }

    pub fn state(&self) -> (r: EngineState)
        ensures
            r == self@.state,
    {
        self.state
    }

    /// The word at `index`.
    pub fn get_mem(&self, index: usize) -> (r: u32)
        requires
            index < self@.mem.len(),
        ensures
            r == self@.mem[index as int],
    {
        self.mem[index]
    }

    /// The words `mem[start..=end]`, for inspection.
    pub fn print_mem(&self, start: usize, end: usize) -> (r: Vec<u32>)
        requires
            start <= end < self@.mem.len(),
        ensures
            r@ == self@.mem.subrange(start as int, end + 1),
    {
        let mut r: Vec<u32> = Vec::new();
        let mut i: usize = start;
        while i <= end
            invariant
                start <= i <= end + 1,
                end < self.mem.len(),
                r@ == self.mem@.subrange(start as int, i as int),
            decreases end + 1 - i,
        {
            r.push(self.mem[i]);
            i += 1;
        }
        r
    }

    fn set_mem(&mut self, index: usize, value: u32)
        requires
            index < old(self).mem@.len(),
        ensures
            final(self).mem@ == old(self).mem@.update(index as int, value),
            final(self).ip == old(self).ip,
            final(self).flags == old(self).flags,
            final(self).state == old(self).state,
    {
        self.mem.set(index, value);
    }

    /// Leave the machine stopped on `f`.
    fn fault(&mut self, f: Fault) -> (e: Event)
        ensures
            (final(self)@, e) == faulted(old(self)@, f),
    {
        self.flags.halt = true;
        self.state = EngineState::Faulted(f);
        Event::Fault(f)
    }

    /// Checked addition into `mem[index]`.
    fn add(&mut self, index: usize, value: u32)
        requires
            index < old(self).mem@.len(),
        ensures
            final(self).ip == old(self).ip,
            final(self).state == old(self).state,
            old(self).mem@[index as int] + value > u32::MAX ==> final(self).mem@
                == old(self).mem@ && final(self).flags == set_overflow(old(self).flags),
            old(self).mem@[index as int] + value <= u32::MAX ==> final(self).mem@
                == old(self).mem@.update(index as int, (old(self).mem@[index as int] + value) as u32)
                && final(self).flags == old(self).flags,
    {
        let cur = self.mem[index];
        match cur.checked_add(value) {
            Some(s) => self.set_mem(index, s),
            None => self.flags.overflow = true,
        }
    }

    /// Checked subtraction from `mem[index]`; a result of zero sets the zero flag.
    fn sub(&mut self, index: usize, value: u32)
        requires
            index < old(self).mem@.len(),
        ensures
            final(self).ip == old(self).ip,
            final(self).state == old(self).state,
            old(self).mem@[index as int] < value ==> final(self).mem@ == old(self).mem@
                && final(self).flags == set_overflow(old(self).flags),
            old(self).mem@[index as int] >= value ==> final(self).mem@
                == old(self).mem@.update(index as int, (old(self).mem@[index as int] - value) as u32)
                && final(self).flags == (if old(self).mem@[index as int] == value {
                Flags { zero: true, ..old(self).flags }
            } else {
                old(self).flags
            }),
    {
        let cur = self.mem[index];
        match cur.checked_sub(value) {
            Some(d) => {
                self.set_mem(index, d);
                if d == 0 {
                    self.flags.zero = true;
                }
            },
            None => self.flags.overflow = true,
        }
    }
    fn address_fault(&mut self, addr: usize) -> (e: Event)
        ensures
            (final(self)@, e) == address_fault(old(self)@, addr as int),
    {
        let ip = self.ip;
        self.fault(Fault::Address { ip, addr })
    }

    /// Move on to the next instruction.
    fn advance(&mut self)
        requires
            old(self).ip < old(self).mem.len(),
        ensures
            final(self).ip == old(self).ip + 1,
            final(self).mem == old(self).mem,
            final(self).flags == old(self).flags,
            final(self).state == old(self).state,
    {
        self.ip = self.ip + 1;
    }

    fn op_eof(&mut self) -> (e: Event)
        requires
            ready(old(self)@),
        ensures
            (final(self)@, e) == execute(old(self)@, Instr::Eof),
    {
        self.flags.halt = true;
        self.state = EngineState::Halted;
        Event::Halt
    }

    fn op_mov(&mut self, dst: u8, src: u8) -> (e: Event)
        requires
            ready(old(self)@),
        ensures
            (final(self)@, e) == execute(old(self)@, Instr::Mov { dst, src }),
    {
        let (d, s) = (dst as usize, src as usize);
        if d >= self.mem.len() {
            return self.address_fault(d);
        }
        if s >= self.mem.len() {
            return self.address_fault(s);
        }
        let v = self.mem[s];
        self.set_mem(d, v);
        self.advance();
        Event::Continue
    }

    fn op_mop(&mut self, dst: u8, src: u8) -> (e: Event)
        requires
            ready(old(self)@),
        ensures
            (final(self)@, e) == execute(old(self)@, Instr::Mop { dst, src }),
    {
        let (d, s) = (dst as usize, src as usize);
        if d >= self.mem.len() {
            return self.address_fault(d);
        }
        if s >= self.mem.len() {
            return self.address_fault(s);
        }
        let p = self.mem[s] as usize;
        if p >= self.mem.len() {
            return self.address_fault(p);
        }
        let v = self.mem[p];
        self.set_mem(d, v);
        self.advance();
        Event::Continue
    }

    fn op_str(&mut self, dst: u8, imm: u16) -> (e: Event)
        requires
            ready(old(self)@),
        ensures
            (final(self)@, e) == execute(old(self)@, Instr::Str { dst, imm }),
    {
        let d = dst as usize;
        if d >= self.mem.len() {
            return self.address_fault(d);
        }
        self.set_mem(d, imm as u32);
        self.advance();
        Event::Continue
    }

    fn op_adi(&mut self, dst: u8, imm: u16) -> (e: Event)
        requires
            ready(old(self)@),
        ensures
            (final(self)@, e) == execute(old(self)@, Instr::Adi { dst, imm }),
    {
        let d = dst as usize;
        if d >= self.mem.len() {
            return self.address_fault(d);
        }
        self.add(d, imm as u32);
        self.advance();
        Event::Continue
    }

    fn op_sui(&mut self, dst: u8, imm: u16) -> (e: Event)
        requires
            ready(old(self)@),
        ensures
            (final(self)@, e) == execute(old(self)@, Instr::Sui { dst, imm }),
    {
        let d = dst as usize;
        if d >= self.mem.len() {
            return self.address_fault(d);
        }
        self.sub(d, imm as u32);
        self.advance();
        Event::Continue
    }

    /// Continue at `target`.
    fn op_jmp(&mut self, target: u8) -> (e: Event)
        requires
            ready(old(self)@),
        ensures
            (final(self)@, e) == execute(old(self)@, Instr::Jmp { target }),
    {
        self.ip = target as usize;
        Event::Continue
    }

    /// Continue at `target` if the zero flag is set, else at the next word.
    fn op_jz(&mut self, target: u8) -> (e: Event)
        requires
            ready(old(self)@),
        ensures
            (final(self)@, e) == execute(old(self)@, Instr::Jz { target }),
    {
        if self.flags.zero {
            self.op_jmp(target)
        } else {
            self.advance();
            Event::Continue
        }
    }

    /// Set the zero flag to whether the two words are equal; memory is untouched.
    fn op_cmp(&mut self, a: u8, b: u8) -> (e: Event)
        requires
            ready(old(self)@),
        ensures
            (final(self)@, e) == execute(old(self)@, Instr::Cmp { a, b }),
    {
        let (x, y) = (a as usize, b as usize);
        if x >= self.mem.len() {
            return self.address_fault(x);
        }
        if y >= self.mem.len() {
            return self.address_fault(y);
        }
        self.flags.zero = self.mem[x] == self.mem[y];
        self.advance();
        Event::Continue
    }

    fn op_prn(&mut self, addr: u8) -> (e: Event)
        requires
            ready(old(self)@),
        ensures
            (final(self)@, e) == execute(old(self)@, Instr::Prn { addr }),
    {
        let x = addr as usize;
        if x >= self.mem.len() {
            return self.address_fault(x);
        }
        let c = (self.mem[x] as u8) as char;
        self.advance();
        Event::Print(c)
    }

    fn op_mul(&mut self, dst: u8, src: u8) -> (e: Event)
        requires
            ready(old(self)@),
        ensures
            (final(self)@, e) == execute(old(self)@, Instr::Mul { dst, src }),
    {
        let (d, s) = (dst as usize, src as usize);
        if d >= self.mem.len() {
            return self.address_fault(d);
        }
        if s >= self.mem.len() {
            return self.address_fault(s);
        }
        match self.mem[d].checked_mul(self.mem[s]) {
            Some(p) => self.set_mem(d, p),
            None => self.flags.overflow = true,
        }
        self.advance();
        Event::Continue
    }

    fn op_div(&mut self, dst: u8, src: u8) -> (e: Event)
        requires
            ready(old(self)@),
        ensures
            (final(self)@, e) == execute(old(self)@, Instr::Div { dst, src }),
    {
        let (d, s) = (dst as usize, src as usize);
        if d >= self.mem.len() {
            return self.address_fault(d);
        }
        if s >= self.mem.len() {
            return self.address_fault(s);
        }
        let divisor = self.mem[s];
        if divisor == 0 {
            let ip = self.ip;
            return self.fault(Fault::Arithmetic { ip });
        }
        let q = self.mem[d] / divisor;
        self.set_mem(d, q);
        self.advance();
        Event::Continue
    }

    /// Load a program image: a sequence of big-endian words copied into memory
    /// from index 0. The rest of memory keeps its words.
    pub fn load(&mut self, program: &[u8]) -> (r: Result<(), LoadError>)
        ensures
            (final(self)@, r) == load_spec(old(self)@, program@),
    {
        let n = program.len();
        if n % 4 != 0 {
            return Err(LoadError::PartialWord { len: n });
        }
        let k = n / 4;
        if k > self.mem.len() {
            return Err(LoadError::TooLarge { words: k, capacity: self.mem.len() });
        }
        let mut words = vec![0u32; k];
        read_words_into(program, &mut words);
        let mut i: usize = 0;
        while i < k
            invariant
                k <= self.mem@.len(),
                words@ == words_of(program@),
                words@.len() == k,
                self.mem@.len() == old(self).mem@.len(),
                self.ip == old(self).ip,
                self.flags == old(self).flags,
                self.state == old(self).state,
                0 <= i <= k,
                forall|j: int| 0 <= j < i ==> self.mem@[j] == words@[j],
                forall|j: int| k <= j < self.mem@.len() ==> self.mem@[j] == old(self).mem@[j],
            decreases k - i,
        {
            self.mem.set(i, words[i]);
            i += 1;
        }
        assert(self.mem@ =~= words_of(program@) + old(self).mem@.subrange(k as int, old(self).mem@.len() as int));
        Ok(())
    }

    /// Run at most `max_cycles` cycles, stopping once the engine halts or
    /// faults, and return the characters printed, in program order.
    pub fn run(&mut self, max_cycles: u64) -> (out: Vec<char>)
        ensures
            (final(self)@, out@) == run_spec(old(self)@, max_cycles as nat),
    {
        let mut out: Vec<char> = Vec::new();
        let mut left: u64 = max_cycles;
        while left > 0 && self.state == EngineState::Running
            invariant
                run_spec(old(self)@, max_cycles as nat) == (
                    run_spec(self@, left as nat).0,
                    out@ + run_spec(self@, left as nat).1,
                ),
            decreases left,
        {
            let ghost old_out = out@;
            let e = self.cycle();
            if let Event::Print(c) = e {
                out.push(c);
            }
            assert(out@ + run_spec(self@, (left - 1) as nat).1 =~= old_out + printed(e) + run_spec(self@, (left - 1) as nat).1);
            left = left - 1;
        }
        out
    }

    /// Fetch the word at `ip`, decode it and execute it. A stopped machine is
    /// left as it is.
    pub fn cycle(&mut self) -> (e: Event)
        ensures
            (final(self)@, e) == step(old(self)@),
    {
        if self.state != EngineState::Running {
            return Event::Stopped;
        }
        if self.ip >= self.mem.len() {
            let ip = self.ip;
            return self.address_fault(ip);
        }
        match decode(self.mem[self.ip]) {
            Instr::Eof => self.op_eof(),
            Instr::Mov { dst, src } => self.op_mov(dst, src),
            Instr::Mop { dst, src } => self.op_mop(dst, src),
            Instr::Str { dst, imm } => self.op_str(dst, imm),
            Instr::Adi { dst, imm } => self.op_adi(dst, imm),
            Instr::Sui { dst, imm } => self.op_sui(dst, imm),
            Instr::Jmp { target } => self.op_jmp(target),
            Instr::Jz { target } => self.op_jz(target),
            Instr::Cmp { a, b } => self.op_cmp(a, b),
            Instr::Prn { addr } => self.op_prn(addr),
            Instr::Mul { dst, src } => self.op_mul(dst, src),
            Instr::Div { dst, src } => self.op_div(dst, src),
            Instr::Unknown { .. } => {
                self.advance();
                Event::Continue
            },
        }
    }
}

} // verus!
