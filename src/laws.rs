//! Properties of the engine, stated over its model and proved from the
//! semantics that `Virtmachine::cycle` and `Virtmachine::load` implement.

use vstd::prelude::*;
use crate::isa::{decode_spec, encode_spec, lemma_encode_decode_round_trip, Instr};
use crate::image::words_of;
use crate::machine::{
    fresh, load_spec, ready, run_spec, step, EngineState, Event, Fault, LoadError,
    MachineModel,
};

verus! {

/// Loading an image of `k` whole words into a fresh machine of the given
/// capacity: when `k` fits, memory begins with the image's words and is zero
/// after them; when it does not, the load fails with `TooLarge`.
pub proof fn lemma_load_into_fresh(capacity: nat, bytes: Seq<u8>)
    requires
        bytes.len() % 4 == 0,
        capacity <= usize::MAX,
        bytes.len() <= usize::MAX,
    ensures
        bytes.len() / 4 <= capacity ==> {
            let (m, r) = load_spec(fresh(capacity), bytes);
            &&& r is Ok
            &&& m.mem.len() == capacity
            &&& forall|i: int| 0 <= i < bytes.len() / 4 ==> m.mem[i] == words_of(bytes)[i]
            &&& forall|i: int| bytes.len() / 4 <= i < capacity ==> m.mem[i] == 0
        },
        bytes.len() / 4 > capacity ==> load_spec(fresh(capacity), bytes).1 == Err::<(), LoadError>(
            LoadError::TooLarge { words: (bytes.len() / 4) as usize, capacity: capacity as usize },
        ),
{
}

/// `str dst imm` stores the zero-extended immediate and leaves every flag as it was.
pub proof fn lemma_str_stores_immediate(m: MachineModel, dst: u8, imm: u16)
    requires
        ready(m),
        m.mem.len() <= usize::MAX,
        m.mem[m.ip as int] == encode_spec(Instr::Str { dst, imm }),
        (dst as int) < m.mem.len(),
    ensures
        step(m).0.mem[dst as int] == imm as u32,
        step(m).0.flags == m.flags,
        step(m).0.state == EngineState::Running,
{
    lemma_encode_decode_round_trip(Instr::Str { dst, imm });
}

/// An `adi` whose sum leaves the word range keeps memory unchanged, sets the
/// overflow flag and lets execution continue.
pub proof fn lemma_adi_overflow(m: MachineModel, dst: u8, imm: u16)
    requires
        ready(m),
        m.mem.len() <= usize::MAX,
        m.mem[m.ip as int] == encode_spec(Instr::Adi { dst, imm }),
        (dst as int) < m.mem.len(),
        m.mem[dst as int] + imm > u32::MAX,
    ensures
        step(m).0.mem == m.mem,
        step(m).0.flags.overflow,
        step(m).0.state == EngineState::Running,
        step(m).0.ip == m.ip + 1,
{
    lemma_encode_decode_round_trip(Instr::Adi { dst, imm });
}

/// `cmp a b` sets the zero flag exactly when the two words are equal and
/// writes no memory.
pub proof fn lemma_cmp_sets_zero_iff_equal(m: MachineModel, a: u8, b: u8)
    requires
        ready(m),
        m.mem.len() <= usize::MAX,
        m.mem[m.ip as int] == encode_spec(Instr::Cmp { a, b }),
        (a as int) < m.mem.len(),
        (b as int) < m.mem.len(),
    ensures
        step(m).0.flags.zero <==> m.mem[a as int] == m.mem[b as int],
        step(m).0.mem == m.mem,
        step(m).0.ip == m.ip + 1,
{
    lemma_encode_decode_round_trip(Instr::Cmp { a, b });
}

/// `jz target` continues at `target` when the zero flag is set, and at the
/// next word otherwise.
pub proof fn lemma_jz_jumps_iff_zero(m: MachineModel, target: u8)
    requires
        ready(m),
        m.mem.len() <= usize::MAX,
        m.mem[m.ip as int] == encode_spec(Instr::Jz { target }),
    ensures
        m.flags.zero ==> step(m).0.ip == target,
        !m.flags.zero ==> step(m).0.ip == m.ip + 1,
        step(m).0.mem == m.mem,
        step(m).0.flags == m.flags,
{
    lemma_encode_decode_round_trip(Instr::Jz { target });
}

/// `div` by a zero word stops the engine with an arithmetic fault at that
/// instruction and leaves memory untouched.
pub proof fn lemma_div_by_zero_faults(m: MachineModel, dst: u8, src: u8)
    requires
        ready(m),
        m.mem.len() <= usize::MAX,
        m.mem[m.ip as int] == encode_spec(Instr::Div { dst, src }),
        (dst as int) < m.mem.len(),
        (src as int) < m.mem.len(),
        m.mem[src as int] == 0,
    ensures
        step(m).0.state == EngineState::Faulted(Fault::Arithmetic { ip: m.ip }),
        step(m).0.flags.halt,
        step(m).0.mem == m.mem,
        step(m).1 == Event::Fault(Fault::Arithmetic { ip: m.ip }),
        step(step(m).0) == (step(m).0, Event::Stopped),
{
    lemma_encode_decode_round_trip(Instr::Div { dst, src });
}

/// The halt flag, once set, is never cleared.
pub proof fn lemma_halt_is_sticky(m: MachineModel)
    requires
        m.flags.halt,
    ensures
        step(m).0.flags.halt,
{
}

/// Only `cmp` can clear the zero flag: no cycle clears it on its own.
pub proof fn lemma_zero_cleared_only_by_cmp(m: MachineModel)
    requires
        m.flags.zero,
        !step(m).0.flags.zero,
    ensures
        ready(m),
        decode_spec(m.mem[m.ip as int]) is Cmp,
{
}

/// Once stopped, the engine stays as it is and prints nothing more.
pub proof fn lemma_stopped_is_final(m: MachineModel, fuel: nat)
    requires
        m.state != EngineState::Running,
    ensures
        run_spec(m, fuel) == (m, Seq::<char>::empty()),
{
}

} // verus!
