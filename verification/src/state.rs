//! The machine state: 4096 bytes of memory holding the built-in font and
//! the loaded program, sixteen 8-bit registers, the 12-bit address
//! register, the call stack, both timers, the instruction pointer and the
//! latched key.

use vstd::prelude::*;

verus! {

use crate::screen::{Screen, ScreenView};
use vstd::pervasive::VecAdditionalExecFns;

/// Memory size in bytes.
pub const MEMORY_SIZE: usize = 4096;

/// Address at which the loaded program begins.
pub const PROGRAM_START: usize = 512;

/// Largest loadable program: the memory that lies past the program start.
pub const PROGRAM_CAPACITY: usize = 3584;

/// Key-latch value meaning "no key is pressed"; real keys are 0..15.
pub const NO_KEY: u8 = 16;

/// A fatal condition: a malformed program or an oversized load.  Anything
/// else the machine tolerates as a no-op.
#[derive(Clone, Copy, PartialEq, Eq, Structural, Debug)]
pub enum Fault {
    /// A return instruction ran with an empty call stack.
    EmptyStackReturn,
    /// The instruction pointer came within two bytes of the end of memory,
    /// so no full instruction word can be fetched.
    FetchOutOfBounds,
    /// A memory access computed from the address register would reach past
    /// the end of memory.
    MemoryOutOfBounds,
    /// The byte sequence handed to the loader does not fit in memory.
    ProgramTooLarge,
}

/// Mathematical model of the machine state.
#[verifier::ext_equal]
pub struct StateView {
    pub memory: Seq<u8>,
    pub registers: Seq<u8>,
    pub address_register: u16,
    pub stack: Seq<u16>,
    pub current_op_index: u16,
    pub delay_timer: u8,
    pub sound_timer: u8,
    pub screen: ScreenView,
    pub key: u8,
}

impl StateView {
    /// The machine invariant: full-size memory and register file, the
    /// address register and instruction pointer masked to 12 bits, every
    /// stacked return address in range, a valid key latch, and a
    /// well-formed display.
    pub open spec fn wf(self) -> bool {
        &&& self.memory.len() == 4096
        &&& self.registers.len() == 16
        &&& self.address_register < 4096
        &&& self.current_op_index < 4096
        &&& self.key <= 16
        &&& (forall|i: int| 0 <= i < self.stack.len() ==> self.stack[i] < 4096)
        &&& self.screen.wf()
    }
}

/// The machine state.
pub struct State {
    pub memory: Vec<u8>,
    pub registers: Vec<u8>,
    pub address_register: u16,
    pub stack: Vec<u16>,
    pub current_op_index: u16,
    pub delay_timer: u8,
    pub sound_timer: u8,
    pub screen: Screen,
    pub key: u8,
}

impl View for State {
    type V = StateView;

    open spec fn view(&self) -> StateView {
        StateView {
            memory: self.memory@,
            registers: self.registers@,
            address_register: self.address_register,
            stack: self.stack@,
            current_op_index: self.current_op_index,
            delay_timer: self.delay_timer,
            sound_timer: self.sound_timer,
            screen: self.screen@,
            key: self.key,
        }
    }
}

/// The built-in font: 16 glyphs for the hex digits 0-F, 5 bytes per
/// glyph, each byte one 4-pixel-wide sprite row.
pub open spec fn font_seq() -> Seq<u8> {
    seq![
        0xF0u8, 0x90, 0x90, 0x90, 0xF0,  // 0
        0x20, 0x60, 0x20, 0x20, 0x70,  // 1
        0xF0, 0x10, 0xF0, 0x80, 0xF0,  // 2
        0xF0, 0x10, 0xF0, 0x10, 0xF0,  // 3
        0x90, 0x90, 0xF0, 0x10, 0x10,  // 4
        0xF0, 0x80, 0xF0, 0x10, 0xF0,  // 5
        0xF0, 0x80, 0xF0, 0x90, 0xF0,  // 6
        0xF0, 0x10, 0x20, 0x40, 0x40,  // 7
        0xF0, 0x90, 0xF0, 0x90, 0xF0,  // 8
        0xF0, 0x90, 0xF0, 0x10, 0xF0,  // 9
        0xF0, 0x90, 0xF0, 0x90, 0x90,  // A
        0xE0, 0x90, 0xE0, 0x90, 0xE0,  // B
        0xF0, 0x80, 0x80, 0x80, 0xF0,  // C
        0xE0, 0x90, 0x90, 0x90, 0xE0,  // D
        0xF0, 0x80, 0xF0, 0x80, 0xF0,  // E
        0xF0, 0x80, 0xF0, 0x80, 0x80,  // F
    ]
}

/// The font table as a byte vector, for the installer and for tests.
pub fn font_vec() -> (r: Vec<u8>)
    ensures
        r@ == font_seq(),
        r@.len() == 80,
{
    let mut v: Vec<u8> = Vec::new();
    v.push(0xF0);
    v.push(0x90);
    v.push(0x90);
    v.push(0x90);
    v.push(0xF0);
    v.push(0x20);
    v.push(0x60);
    v.push(0x20);
    v.push(0x20);
    v.push(0x70);
    v.push(0xF0);
    v.push(0x10);
    v.push(0xF0);
    v.push(0x80);
    v.push(0xF0);
    v.push(0xF0);
    v.push(0x10);
    v.push(0xF0);
    v.push(0x10);
    v.push(0xF0);
    v.push(0x90);
    v.push(0x90);
    v.push(0xF0);
    v.push(0x10);
    v.push(0x10);
    v.push(0xF0);
    v.push(0x80);
    v.push(0xF0);
    v.push(0x10);
    v.push(0xF0);
    v.push(0xF0);
    v.push(0x80);
    v.push(0xF0);
    v.push(0x90);
    v.push(0xF0);
    v.push(0xF0);
    v.push(0x10);
    v.push(0x20);
    v.push(0x40);
    v.push(0x40);
    v.push(0xF0);
    v.push(0x90);
    v.push(0xF0);
    v.push(0x90);
    v.push(0xF0);
    v.push(0xF0);
    v.push(0x90);
    v.push(0xF0);
    v.push(0x10);
    v.push(0xF0);
    v.push(0xF0);
    v.push(0x90);
    v.push(0xF0);
    v.push(0x90);
    v.push(0x90);
    v.push(0xE0);
    v.push(0x90);
    v.push(0xE0);
    v.push(0x90);
    v.push(0xE0);
    v.push(0xF0);
    v.push(0x80);
    v.push(0x80);
    v.push(0x80);
    v.push(0xF0);
    v.push(0xE0);
    v.push(0x90);
    v.push(0x90);
    v.push(0x90);
    v.push(0xE0);
    v.push(0xF0);
    v.push(0x80);
    v.push(0xF0);
    v.push(0x80);
    v.push(0xF0);
    v.push(0xF0);
    v.push(0x80);
    v.push(0xF0);
    v.push(0x80);
    v.push(0x80);
    proof {
        assert(v@ =~= font_seq());
    }
    v
}

/// Copy `bytes` into `memory` starting at `offset`; everything outside the
/// written range keeps its value.  The copy is refused whole when it would
/// reach past the end of memory.
pub fn load_program_bytes(memory: &mut Vec<u8>, offset: usize, bytes: &[u8]) -> (r: Result<
    (),
    Fault,
>)
    ensures
        final(memory)@.len() == old(memory)@.len(),
        match r {
            Ok(()) => {
                &&& offset + bytes@.len() <= old(memory)@.len()
                &&& forall|i: int|
                    0 <= i < bytes@.len() ==> final(memory)@[offset + i] == bytes@[i]
                &&& forall|i: int|
                    0 <= i < old(memory)@.len() && !(offset <= i < offset + bytes@.len())
                        ==> final(memory)@[i] == old(memory)@[i]
            },
            Err(f) => {
                &&& f == Fault::ProgramTooLarge
                &&& offset + bytes@.len() > old(memory)@.len()
                &&& final(memory)@ == old(memory)@
            },
        },
{
    if bytes.len() > memory.len() || offset > memory.len() - bytes.len() {
        return Err(Fault::ProgramTooLarge);
    }
    let mut i: usize = 0;
    while i < bytes.len()
        invariant
            offset + bytes@.len() <= old(memory)@.len(),
            offset + bytes@.len() <= usize::MAX,
            i <= bytes@.len(),
            memory@.len() == old(memory)@.len(),
            forall|k: int| 0 <= k < i ==> memory@[offset + k] == bytes@[k],
            forall|k: int|
                0 <= k < old(memory)@.len() && !(offset <= k < offset + i) ==> memory@[k] == old(
                    memory,
                )@[k],
        decreases bytes@.len() - i,
    {
        memory.set(offset + i, bytes[i]);
        i += 1;
    }
    Ok(())
}

/// The 16-bit big-endian word held at addresses `i` and `i + 1`.
pub open spec fn spec_op_at(mem: Seq<u8>, i: int) -> u16 {
    (mem[i] * 256 + mem[i + 1]) as u16
}

/// Fetch the big-endian instruction word at `index`.  An index within two
/// bytes of the end of memory is the fatal out-of-bounds fetch.
pub fn get_op_at(memory: &Vec<u8>, index: u16) -> (r: Result<u16, Fault>)
    requires
        memory@.len() == 4096,
    ensures
        match r {
            Ok(op) => index <= 4094 && op == spec_op_at(memory@, index as int),
            Err(f) => index > 4094 && f == Fault::FetchOutOfBounds,
        },
{
    let i = index as usize;
    if i > 4094 {
        return Err(Fault::FetchOutOfBounds);
    }
    let hi = memory[i];
    let lo = memory[i + 1];
    proof {
        assert(((hi as u16) << 8 | (lo as u16)) == hi as u16 * 256 + lo as u16) by (bit_vector);
    }
    Ok((hi as u16) << 8 | (lo as u16))
}

/// One tick of both timers: each decrements once when nonzero and never
/// drops below zero.
pub open spec fn spec_tick_timers(s: StateView) -> StateView {
    StateView {
        delay_timer: if s.delay_timer > 0 {
            (s.delay_timer - 1) as u8
        } else {
            0
        },
        sound_timer: if s.sound_timer > 0 {
            (s.sound_timer - 1) as u8
        } else {
            0
        },
        ..s
    }
}

impl State {
    /// Power-on state: memory and registers all zero, instruction pointer
    /// at the program start, empty call stack, no key latched, blank
    /// display.  The font is installed separately.
    pub fn new() -> (s: State)
        ensures
            s@.wf(),
            s@.memory == Seq::new(4096, |i: int| 0u8),
            s@.registers == Seq::new(16, |i: int| 0u8),
            s@.address_register == 0,
            s@.stack == Seq::<u16>::empty(),
            s@.current_op_index == 512,
            s@.delay_timer == 0,
            s@.sound_timer == 0,
            s@.key == NO_KEY,
            s@.screen.pixels == Seq::new(2048, |i: int| false),
            s@.screen.dirty == Seq::new(2048, |i: int| true),
            s@.screen.first_render,
            s@ == power_on_view(),
    {
        let mut memory: Vec<u8> = Vec::new();
        let mut k: usize = 0;
        while k < MEMORY_SIZE
            invariant
                k <= 4096,
                memory@.len() == k as int,
                forall|i: int| 0 <= i < k ==> memory@[i] == 0u8,
            decreases 4096 - k,
        {
            memory.push(0);
            k += 1;
        }
        let mut registers: Vec<u8> = Vec::new();
        let mut r: usize = 0;
        while r < 16
            invariant
                r <= 16,
                registers@.len() == r as int,
                forall|i: int| 0 <= i < r ==> registers@[i] == 0u8,
            decreases 16 - r,
        {
            registers.push(0);
            r += 1;
        }
        proof {
            assert(memory@ =~= Seq::new(4096, |i: int| 0u8));
            assert(registers@ =~= Seq::new(16, |i: int| 0u8));
        }
        let s = State {
            memory,
            registers,
            address_register: 0,
            stack: Vec::new(),
            current_op_index: 512,
            delay_timer: 0,
            sound_timer: 0,
            screen: Screen::new(),
            key: NO_KEY,
        };
        proof {
            assert(s@ =~= power_on_view());
        }
        s
    }

    /// Copy the built-in font into addresses 0..80; nothing else changes.
    pub fn install_font(&mut self)
        requires
            old(self)@.wf(),
        ensures
            final(self)@ == (StateView { memory: final(self)@.memory, ..old(self)@ }),
            forall|i: int| 0 <= i < 80 ==> final(self)@.memory[i] == font_seq()[i],
            forall|i: int| 80 <= i < 4096 ==> final(self)@.memory[i] == old(self)@.memory[i],
            final(self)@.wf(),
    {
        let font = font_vec();
        let r = load_program_bytes(&mut self.memory, 0, font.as_slice());
        proof {
            assert(r is Ok);
            assert(self@ =~= (StateView { memory: self@.memory, ..old(self)@ }));
        }
    }

    /// Load a program image: its bytes go to addresses 512 and onward, in
    /// order; the font region and all memory past the image keep their
    /// values.  An image over 3584 bytes is rejected whole.
    pub fn load_program(&mut self, program: &[u8]) -> (r: Result<(), Fault>)
        requires
            old(self)@.wf(),
        ensures
            final(self)@ == (StateView { memory: final(self)@.memory, ..old(self)@ }),
            final(self)@.wf(),
            match r {
                Ok(()) => {
                    &&& program@.len() <= 3584
                    &&& forall|i: int|
                        0 <= i < program@.len() ==> final(self)@.memory[512 + i] == program@[i]
                    &&& forall|i: int|
                        0 <= i < 4096 && !(512 <= i < 512 + program@.len())
                            ==> final(self)@.memory[i] == old(self)@.memory[i]
                },
                Err(f) => {
                    &&& f == Fault::ProgramTooLarge
                    &&& program@.len() > 3584
                    &&& final(self)@ == old(self)@
                },
            },
    {
        let r = load_program_bytes(&mut self.memory, PROGRAM_START, program);
        proof {
            assert(self@ =~= (StateView { memory: self@.memory, ..old(self)@ }));
            if r is Err {
                assert(self@ =~= old(self)@);
            }
        }
        r
    }

    /// Whether the sound indicator should show: the sound timer's nonzero
    /// state is the sole signal the output boundary consumes.
    pub fn sound_on(&self) -> (r: bool)
        ensures
            r == (self@.sound_timer > 0),
    {
        self.sound_timer > 0
    }

    /// One tick of both timers: each decrements once when nonzero and
    /// never drops below zero.
    pub fn tick_timers(&mut self)
        ensures
            final(self)@ == spec_tick_timers(old(self)@),
    {
        if self.delay_timer > 0 {
            self.delay_timer = self.delay_timer - 1;
        }
        if self.sound_timer > 0 {
            self.sound_timer = self.sound_timer - 1;
        }
        proof {
            assert(self@ =~= spec_tick_timers(old(self)@));
        }
    }
}

impl Default for State {
    /// Same as `State::new`.
    fn default() -> (s: Self)
        ensures
            s@.wf(),
            s@ == power_on_view(),
    {
        State::new()
    }
}

/// The power-on state as a model value: everything zero except the
/// instruction pointer, no key latched, a blank display awaiting its
/// first render.
pub open spec fn power_on_view() -> StateView {
    StateView {
        memory: Seq::new(4096, |i: int| 0u8),
        registers: Seq::new(16, |i: int| 0u8),
        address_register: 0,
        stack: Seq::empty(),
        current_op_index: 512,
        delay_timer: 0,
        sound_timer: 0,
        screen: ScreenView {
            pixels: Seq::new(2048, |i: int| false),
            dirty: Seq::new(2048, |i: int| true),
            first_render: true,
        },
        key: 16,
    }
}

} // verus!
