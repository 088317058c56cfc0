use vstd::prelude::*;
use crate::status::StatusRegister;

verus! {

/// Size of the console's internal RAM; the low 8 KiB of the address space mirror it.
pub const RAM_SIZE: usize = 2048;
/// First address past the mirrored RAM window.
pub const RAM_WINDOW_END: u16 = 0x2000;
/// Base of the stack page.
pub const STACK_BASE: u16 = 0x0100;
/// Stack pointer value after power-on.
pub const SP_POWER_ON: u8 = 0xFD;

pub const NES_NMI_VECTOR: u16 = 0xFFFA;
pub const NES_RESET_VECTOR: u16 = 0xFFFC;
pub const NES_IRQ_VECTOR: u16 = 0xFFFE;

/// Processor registers, RAM and the bus cycle counter.
#[allow(non_snake_case)]
pub struct NES {
    pub cycles: u64,
    pub A: u8,
    pub X: u8,
    pub Y: u8,
    /// An 'empty' stack that grows downwards in 0x0100 - 0x01FF:
    /// SP points to the next free location.
    pub SP: u8,
    pub SR: StatusRegister,
    pub PC: u16,
    pub ram: [u8; 2048],
}

/// The RAM cell that `addr` reaches, if it lies in the RAM window.
pub open spec fn ram_index(addr: u16) -> int {
    addr as int % 2048
}

/// What a bus read of `addr` returns for RAM contents `ram`.
pub open spec fn bus_value(ram: Seq<u8>, addr: u16) -> u8 {
    if addr < 0x2000 { ram[ram_index(addr)] } else { 0 }
}

/// Little-endian composition of two bytes.
pub open spec fn word(low: u8, high: u8) -> u16 {
    (high as int * 256 + low as int) as u16
}

/// The 16-bit successor of `a`, wrapping.
pub open spec fn next_addr(a: u16) -> u16 {
    ((a as int + 1) % 65536) as u16
}

/// The stack pointer after one push.
pub open spec fn sp_down(sp: u8) -> u8 {
    ((sp as int + 255) % 256) as u8
}

/// The stack pointer before one pop reads.
pub open spec fn sp_up(sp: u8) -> u8 {
    ((sp as int + 1) % 256) as u8
}

/// The RAM cell of stack slot `sp`.
pub open spec fn stack_cell(sp: u8) -> int {
    256 + sp as int
}

/// RAM after pushing `value` high byte first, starting from stack pointer `sp`.
pub open spec fn pushed16(ram: Seq<u8>, sp: u8, value: u16) -> Seq<u8> {
    ram.update(stack_cell(sp), (value / 256) as u8).update(stack_cell(sp_down(sp)), (value % 256) as u8)
}

/// The word that two pops read from stack pointer `sp`: low byte first.
pub open spec fn popped16(ram: Seq<u8>, sp: u8) -> u16 {
    word(ram[stack_cell(sp_up(sp))], ram[stack_cell(sp_up(sp_up(sp)))])
}

/// The stack pointer after `n` pushes from `sp`.
pub open spec fn sp_after_pushes(sp: u8, n: nat) -> u8
    decreases n,
{
    if n == 0 { sp } else { sp_down(sp_after_pushes(sp, (n - 1) as nat)) }
}

proof fn lemma_word_bits(low: u8, high: u8)
    ensures
        ((high as u16) << 8u16 | (low as u16)) == word(low, high),
{
    assert(((high as u16) << 8u16 | (low as u16)) == (high as u16) * 256 + (low as u16)) by (bit_vector);
}

impl NES {
    /// Everything but the cycle counter and RAM is equal.
    pub open spec fn same_registers(&self, other: &NES) -> bool {
        self.A == other.A && self.X == other.X && self.Y == other.Y && self.SP == other.SP
            && self.SR == other.SR && self.PC == other.PC
    }

    /// A powered-on system with zeroed registers and RAM.
    pub fn new() -> (r: NES)
        ensures
            r.cycles == 0,
            r.A == 0 && r.X == 0 && r.Y == 0 && r.PC == 0,
            r.SP == SP_POWER_ON,
            forall|i: int| 0 <= i < 2048 ==> r.ram@[i] == 0,
    {
        NES {
            cycles: 0,
            A: 0,
            X: 0,
            Y: 0,
            SP: SP_POWER_ON,
            SR: StatusRegister { C: false, Z: false, I: false, D: false, V: false, N: false },
            PC: 0,
            ram: [0u8; 2048],
        }
    }

    /// One bus read: counts a cycle and returns the mirrored RAM byte, or 0
    /// outside the RAM window.
    pub fn read8(&mut self, addr: u16) -> (r: u8)
        requires
            old(self).cycles < u64::MAX,
        ensures
            r == bus_value(old(self).ram@, addr),
            final(self).cycles == old(self).cycles + 1,
            final(self).ram == old(self).ram,
            final(self).same_registers(old(self)),
    {
        self.cycles = self.cycles + 1;
        if addr < RAM_WINDOW_END {
            return self.ram[addr as usize % RAM_SIZE];
        }
        0
    }

    /// One bus write: counts a cycle and stores into the mirrored RAM cell;
    /// outside the RAM window the write is dropped.
    pub fn write8(&mut self, addr: u16, val: u8)
        requires
            old(self).cycles < u64::MAX,
        ensures
            final(self).cycles == old(self).cycles + 1,
            final(self).ram@ == (if addr < 0x2000 {
                old(self).ram@.update(ram_index(addr), val)
            } else {
                old(self).ram@
            }),
            final(self).same_registers(old(self)),
    {
        self.cycles = self.cycles + 1;
        if addr < RAM_WINDOW_END {
            self.ram[addr as usize % RAM_SIZE] = val;
        }
    }

    /// Reads a little-endian word at `addr` and the byte after it (wrapping).
    pub fn read_addr(&mut self, addr: u16) -> (r: u16)
        requires
            old(self).cycles < u64::MAX - 1,
        ensures
            r == word(bus_value(old(self).ram@, addr), bus_value(old(self).ram@, next_addr(addr))),
            final(self).cycles == old(self).cycles + 2,
            final(self).ram == old(self).ram,
            final(self).same_registers(old(self)),
    {
        let low = self.read8(addr);
        let high = self.read8(addr.wrapping_add(1));
        proof { lemma_word_bits(low, high); }
        (high as u16) << 8u16 | (low as u16)
    }

    /// Fetches the byte at the program counter and advances it (wrapping).
    pub fn read_code(&mut self) -> (r: u8)
        requires
            old(self).cycles < u64::MAX,
        ensures
            r == bus_value(old(self).ram@, old(self).PC),
            final(self).PC == next_addr(old(self).PC),
            final(self).cycles == old(self).cycles + 1,
            final(self).ram == old(self).ram,
            final(self).A == old(self).A && final(self).X == old(self).X && final(self).Y == old(self).Y,
            final(self).SP == old(self).SP && final(self).SR == old(self).SR,
    {
        let val = self.read8(self.PC);
        self.PC = self.PC.wrapping_add(1);
        val
    }

    /// Fetches a little-endian word at the program counter, advancing it twice.
    pub fn read_code_addr(&mut self) -> (r: u16)
        requires
            old(self).cycles < u64::MAX - 1,
        ensures
            r == word(bus_value(old(self).ram@, old(self).PC),
                bus_value(old(self).ram@, next_addr(old(self).PC))),
            final(self).PC == next_addr(next_addr(old(self).PC)),
            final(self).cycles == old(self).cycles + 2,
            final(self).ram == old(self).ram,
            final(self).A == old(self).A && final(self).X == old(self).X && final(self).Y == old(self).Y,
            final(self).SP == old(self).SP && final(self).SR == old(self).SR,
    {
        let low = self.read_code();
        let high = self.read_code();
        proof { lemma_word_bits(low, high); }
        (high as u16) << 8u16 | (low as u16)
    }

    /// Sets the stack pointer to its power-on value.
    pub fn reset_state(&mut self)
        ensures
            *final(self) == (NES { SP: SP_POWER_ON, ..*old(self) }),
    {
        self.SP = SP_POWER_ON;
    }

    /// Replaces the status flags with those packed in `value`.
    pub fn set_status_register(&mut self, value: u8)
        ensures
            final(self).SR == StatusRegister::decoded(value),
            *final(self) == (NES { SR: final(self).SR, ..*old(self) }),
    {
        self.SR = StatusRegister::from_byte(value);
    }

    /// The status flags packed into a byte.
    pub fn get_status_register(&mut self) -> (r: u8)
        ensures
            r == old(self).SR.packed(),
            *final(self) == *old(self),
    {
        self.SR.to_byte()
    }

    /// Stores `value` at the stack slot and moves the stack pointer down (wrapping).
    pub fn push8(&mut self, value: u8)
        requires
            old(self).cycles < u64::MAX,
        ensures
            final(self).ram@ == old(self).ram@.update(stack_cell(old(self).SP), value),
            final(self).SP == sp_down(old(self).SP),
            final(self).cycles == old(self).cycles + 1,
            final(self).A == old(self).A && final(self).X == old(self).X && final(self).Y == old(self).Y,
            final(self).PC == old(self).PC && final(self).SR == old(self).SR,
    {
        self.write8(STACK_BASE + self.SP as u16, value);
        self.SP = self.SP.wrapping_sub(1);
    }

    /// Moves the stack pointer up (wrapping) and reads the slot it then names.
    pub fn pop8(&mut self) -> (r: u8)
        requires
            old(self).cycles < u64::MAX,
        ensures
            r == old(self).ram@[stack_cell(sp_up(old(self).SP))],
            final(self).SP == sp_up(old(self).SP),
            final(self).cycles == old(self).cycles + 1,
            final(self).ram == old(self).ram,
            final(self).A == old(self).A && final(self).X == old(self).X && final(self).Y == old(self).Y,
            final(self).PC == old(self).PC && final(self).SR == old(self).SR,
    {
        self.SP = self.SP.wrapping_add(1);
        self.read8(STACK_BASE + self.SP as u16)
    }

    /// Pushes a word, high byte first.
    pub fn push16(&mut self, value: u16)
        requires
            old(self).cycles < u64::MAX - 1,
        ensures
            final(self).ram@ == pushed16(old(self).ram@, old(self).SP, value),
            final(self).SP == sp_down(sp_down(old(self).SP)),
            final(self).cycles == old(self).cycles + 2,
            final(self).A == old(self).A && final(self).X == old(self).X && final(self).Y == old(self).Y,
            final(self).PC == old(self).PC && final(self).SR == old(self).SR,
    {
        proof {
            assert((value >> 8u16) as u8 == (value / 256) as u8) by (bit_vector);
            assert((value & 0xFFu16) as u8 == (value % 256) as u8) by (bit_vector);
        }
        self.push8((value >> 8u16) as u8);
        self.push8((value & 0xFFu16) as u8);
    }

    /// Pops a word: low byte first, then high byte.
    pub fn pop16(&mut self) -> (r: u16)
        requires
            old(self).cycles < u64::MAX - 1,
        ensures
            r == popped16(old(self).ram@, old(self).SP),
            final(self).SP == sp_up(sp_up(old(self).SP)),
            final(self).cycles == old(self).cycles + 2,
            final(self).ram == old(self).ram,
            final(self).A == old(self).A && final(self).X == old(self).X && final(self).Y == old(self).Y,
            final(self).PC == old(self).PC && final(self).SR == old(self).SR,
    {
        let low = self.pop8();
        let high = self.pop8();
        proof { lemma_word_bits(low, high); }
        (high as u16) << 8u16 | (low as u16)
    }
}

/// A RAM-window write is seen by a read of any address that mirrors the
/// same cell.
pub proof fn lemma_ram_mirroring(ram: Seq<u8>, a: u16, b: u16, v: u8)
    requires
        ram.len() == 2048,
        a < 0x2000,
        b < 0x2000,
        a % 2048 == b % 2048,
    ensures
        bus_value(ram.update(ram_index(a), v), b) == v,
{
}

/// Popping a word right after pushing it gives the word back, and leaves the
/// stack pointer where it started.
pub proof fn lemma_push16_pop16(ram: Seq<u8>, sp: u8, value: u16)
    requires
        ram.len() == 2048,
    ensures
        popped16(pushed16(ram, sp, value), sp_down(sp_down(sp))) == value,
        sp_up(sp_up(sp_down(sp_down(sp)))) == sp,
{
    let r = pushed16(ram, sp, value);
    let s2 = sp_down(sp_down(sp));
    assert(sp_up(s2) == sp_down(sp));
    assert(sp_up(sp_up(s2)) == sp);
    assert(stack_cell(sp) != stack_cell(sp_down(sp)));
    assert(r[stack_cell(sp_down(sp))] == (value % 256) as u8);
    assert(r[stack_cell(sp)] == (value / 256) as u8);
}

/// After 256 pushes with no pops the stack pointer is back where it started.
pub proof fn lemma_stack_pointer_wraps(sp: u8)
    ensures
        sp_after_pushes(sp, 256) == sp,
{
    lemma_sp_after_pushes(sp, 256);
}

proof fn lemma_sp_after_pushes(sp: u8, n: nat)
    ensures
        sp_after_pushes(sp, n) as int == (sp as int - n as int) % 256,
    decreases n,
{
    if n > 0 {
        lemma_sp_after_pushes(sp, (n - 1) as nat);
    }
}

} // verus!
