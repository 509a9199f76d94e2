//! The decoder/executor and the tick driver: one fetch-decode-execute
//! step per tick, then a timer tick and the polled input, exactly as the
//! model transition functions say.

use vstd::prelude::*;

verus! {

use crate::isa::{decode, spec_decode, Instr};
use crate::screen::{spec_draw, ScreenView};
use crate::state::{spec_op_at, spec_tick_timers, Fault, State, StateView};
use vstd::pervasive::VecAdditionalExecFns;

/// What the input provider reported when polled for one tick.
#[derive(Clone, Copy, PartialEq, Eq, Structural, Debug)]
pub enum InputEvent {
    /// No mapped key event arrived.
    Idle,
    /// The quit key arrived: the host stops the machine.
    Quit,
    /// The key with this code, 0 to 15, is pressed.
    Key(u8),
}

impl InputEvent {
    /// Key codes fit the 16-key pad.
    pub open spec fn wf(self) -> bool {
        match self {
            InputEvent::Key(k) => k < 16,
            _ => true,
        }
    }
}

/// What one decode-execute step asks of the driver.
#[derive(Clone, Copy, PartialEq, Eq, Structural, Debug)]
pub enum StepEvent {
    /// An instruction ran; carry on.
    Executed,
    /// The machine sits in the wait-for-key instruction for this
    /// register: nothing ran, and nothing will until a key arrives.
    WaitingForKey(u8),
}

/// What a full tick asks of the host.
#[derive(Clone, Copy, PartialEq, Eq, Structural, Debug)]
pub enum TickOutcome {
    /// Keep ticking.
    Running,
    /// The machine waits in the wait-for-key instruction: block for a
    /// key and hand it to `State::resume_with_key` for this register.
    WaitingForKey(u8),
    /// The input provider requested quit: stop immediately.
    QuitRequested,
}

/// Execute one decoded instruction on the machine model.  The instruction
/// pointer advances two bytes unless control flow overrides it; skips
/// advance four.  All 8-bit arithmetic wraps modulo 256; the address
/// register and instruction pointer are masked to 12 bits after any
/// arithmetic.  A fault leaves the model unchanged.  The wait-for-key
/// instruction is the tick driver's business and changes nothing here.
pub open spec fn spec_execute(s: StateView, instr: Instr, rand: u8) -> Result<StateView, Fault> {
    let next = ((s.current_op_index + 2) % 4096) as u16;
    let skip = ((s.current_op_index + 4) % 4096) as u16;
    match instr {
        Instr::ClearScreen => Ok(
            StateView {
                screen: ScreenView {
                    pixels: Seq::new(2048, |i: int| false),
                    dirty: Seq::new(2048, |i: int| true),
                    first_render: s.screen.first_render,
                },
                current_op_index: next,
                ..s
            },
        ),
        Instr::Return => if s.stack.len() == 0 {
            Err(Fault::EmptyStackReturn)
        } else {
            Ok(StateView { stack: s.stack.drop_last(), current_op_index: s.stack.last(), ..s })
        },
        Instr::Jump(nnn) => Ok(StateView { current_op_index: nnn, ..s }),
        Instr::Call(nnn) => Ok(
            StateView { stack: s.stack.push(next), current_op_index: nnn, ..s },
        ),
        Instr::SkipEqImm(x, nn) => Ok(
            StateView {
                current_op_index: if s.registers[x as int] == nn {
                    skip
                } else {
                    next
                },
                ..s
            },
        ),
        Instr::SkipNeImm(x, nn) => Ok(
            StateView {
                current_op_index: if s.registers[x as int] != nn {
                    skip
                } else {
                    next
                },
                ..s
            },
        ),
        Instr::SkipEqReg(x, y) => Ok(
            StateView {
                current_op_index: if s.registers[x as int] == s.registers[y as int] {
                    skip
                } else {
                    next
                },
                ..s
            },
        ),
        Instr::SetImm(x, nn) => Ok(
            StateView { registers: s.registers.update(x as int, nn), current_op_index: next, ..s },
        ),
        Instr::AddImm(x, nn) => Ok(
            StateView {
                registers: s.registers.update(
                    x as int,
                    ((s.registers[x as int] + nn) % 256) as u8,
                ),
                current_op_index: next,
                ..s
            },
        ),
        Instr::Assign(x, y) => Ok(
            StateView {
                registers: s.registers.update(x as int, s.registers[y as int]),
                current_op_index: next,
                ..s
            },
        ),
        Instr::Or(x, y) => Ok(
            StateView {
                registers: s.registers.update(
                    x as int,
                    s.registers[x as int] | s.registers[y as int],
                ),
                current_op_index: next,
                ..s
            },
        ),
        Instr::And(x, y) => Ok(
            StateView {
                registers: s.registers.update(
                    x as int,
                    s.registers[x as int] & s.registers[y as int],
                ),
                current_op_index: next,
                ..s
            },
        ),
        Instr::Xor(x, y) => Ok(
            StateView {
                registers: s.registers.update(
                    x as int,
                    s.registers[x as int] ^ s.registers[y as int],
                ),
                current_op_index: next,
                ..s
            },
        ),
        Instr::Add(x, y) => {
            let a = s.registers[x as int];
            let b = s.registers[y as int];
            Ok(
                StateView {
                    registers: s.registers.update(x as int, ((a + b) % 256) as u8).update(
                        15,
                        if a + b >= 256 {
                            1u8
                        } else {
                            0u8
                        },
                    ),
                    current_op_index: next,
                    ..s
                },
            )
        },
        Instr::Sub(x, y) => {
            let a = s.registers[x as int];
            let b = s.registers[y as int];
            Ok(
                StateView {
                    registers: s.registers.update(x as int, ((a - b) % 256) as u8).update(
                        15,
                        if a >= b {
                            1u8
                        } else {
                            0u8
                        },
                    ),
                    current_op_index: next,
                    ..s
                },
            )
        },
        Instr::ShiftRight(x) => {
            let v = s.registers[x as int];
            Ok(
                StateView {
                    registers: s.registers.update(x as int, (v / 2) as u8).update(
                        15,
                        (v % 2) as u8,
                    ),
                    current_op_index: next,
                    ..s
                },
            )
        },
        Instr::SubReverse(x, y) => {
            let a = s.registers[x as int];
            let b = s.registers[y as int];
            Ok(
                StateView {
                    registers: s.registers.update(x as int, ((b - a) % 256) as u8).update(
                        15,
                        if b >= a {
                            1u8
                        } else {
                            0u8
                        },
                    ),
                    current_op_index: next,
                    ..s
                },
            )
        },
        Instr::ShiftLeft(x) => {
            let v = s.registers[x as int];
            Ok(
                StateView {
                    registers: s.registers.update(x as int, ((v * 2) % 256) as u8).update(
                        15,
                        (v / 128) as u8,
                    ),
                    current_op_index: next,
                    ..s
                },
            )
        },
        Instr::SkipNeReg(x, y) => Ok(
            StateView {
                current_op_index: if s.registers[x as int] != s.registers[y as int] {
                    skip
                } else {
                    next
                },
                ..s
            },
        ),
        Instr::SetAddr(nnn) => Ok(
            StateView { address_register: nnn, current_op_index: next, ..s },
        ),
        Instr::JumpOffset(nnn) => Ok(
            StateView { current_op_index: ((nnn + s.registers[0]) % 4096) as u16, ..s },
        ),
        Instr::Random(x, nn) => Ok(
            StateView {
                registers: s.registers.update(x as int, nn & rand),
                current_op_index: next,
                ..s
            },
        ),
        Instr::Draw(x, y, n) => {
            if s.address_register + n > 4096 {
                Err(Fault::MemoryOutOfBounds)
            } else {
                let rows = s.memory.subrange(
                    s.address_register as int,
                    s.address_register + n,
                );
                let d = spec_draw(
                    s.screen,
                    s.registers[x as int] as int,
                    s.registers[y as int] as int,
                    rows,
                );
                Ok(
                    StateView {
                        screen: d.0,
                        registers: s.registers.update(
                            15,
                            if d.1 {
                                1u8
                            } else {
                                0u8
                            },
                        ),
                        current_op_index: next,
                        ..s
                    },
                )
            }
        },
        Instr::SkipKeyPressed(x) => Ok(
            StateView {
                current_op_index: if s.key < 16 && s.key == s.registers[x as int] {
                    skip
                } else {
                    next
                },
                ..s
            },
        ),
        Instr::SkipKeyNotPressed(x) => Ok(
            StateView {
                current_op_index: if !(s.key < 16 && s.key == s.registers[x as int]) {
                    skip
                } else {
                    next
                },
                ..s
            },
        ),
        Instr::GetDelay(x) => Ok(
            StateView {
                registers: s.registers.update(x as int, s.delay_timer),
                current_op_index: next,
                ..s
            },
        ),
        Instr::WaitKey(_x) => Ok(s),
        Instr::SetDelay(x) => Ok(
            StateView { delay_timer: s.registers[x as int], current_op_index: next, ..s },
        ),
        Instr::SetSound(x) => Ok(
            StateView { sound_timer: s.registers[x as int], current_op_index: next, ..s },
        ),
        Instr::AddAddr(x) => {
            let sum = s.address_register + s.registers[x as int];
            Ok(
                StateView {
                    address_register: (sum % 4096) as u16,
                    registers: s.registers.update(
                        15,
                        if sum > 4095 {
                            1u8
                        } else {
                            0u8
                        },
                    ),
                    current_op_index: next,
                    ..s
                },
            )
        },
        Instr::FontAddr(x) => Ok(
            StateView {
                address_register: ((s.registers[x as int] & 15) * 5) as u16,
                current_op_index: next,
                ..s
            },
        ),
        Instr::StoreBcd(x) => {
            if s.address_register + 2 > 4095 {
                Err(Fault::MemoryOutOfBounds)
            } else {
                let v = s.registers[x as int];
                let a = s.address_register as int;
                Ok(
                    StateView {
                        memory: s.memory.update(a, (v / 100) as u8).update(
                            a + 1,
                            ((v / 10) % 10) as u8,
                        ).update(a + 2, (v % 10) as u8),
                        current_op_index: next,
                        ..s
                    },
                )
            }
        },
        Instr::DumpRegs(x) => {
            if s.address_register + x > 4095 {
                Err(Fault::MemoryOutOfBounds)
            } else {
                let a = s.address_register as int;
                Ok(
                    StateView {
                        memory: Seq::new(
                            4096,
                            |i: int|
                                if a <= i <= a + x {
                                    s.registers[i - a]
                                } else {
                                    s.memory[i]
                                },
                        ),
                        current_op_index: next,
                        ..s
                    },
                )
            }
        },
        Instr::LoadRegs(x) => {
            if s.address_register + x > 4095 {
                Err(Fault::MemoryOutOfBounds)
            } else {
                let a = s.address_register as int;
                Ok(
                    StateView {
                        registers: Seq::new(
                            16,
                            |i: int|
                                if i <= x {
                                    s.memory[a + i]
                                } else {
                                    s.registers[i]
                                },
                        ),
                        current_op_index: next,
                        ..s
                    },
                )
            }
        },
        Instr::Nop => Ok(StateView { current_op_index: next, ..s }),
    }
}

impl State {
    /// Execute one decoded instruction: exactly the model transition.  On
    /// a fault the machine is unchanged.
    #[verifier::rlimit(100)]
    pub fn execute(&mut self, instr: Instr, rand: u8) -> (r: Result<(), Fault>)
        requires
            old(self)@.wf(),
            instr.wf(),
        ensures
            final(self)@.wf(),
            match spec_execute(old(self)@, instr, rand) {
                Ok(v) => r == Ok::<(), Fault>(()) && final(self)@ == v,
                Err(f) => r == Err::<(), Fault>(f) && final(self)@ == old(self)@,
            },
    {
        let next = (self.current_op_index + 2) % 4096;
        let skip = (self.current_op_index + 4) % 4096;
        match instr {
            Instr::ClearScreen => {
                self.screen.clear_screen();
                self.current_op_index = next;
                proof {
                    assert(self@ =~~= spec_execute(old(self)@, instr, rand)->Ok_0);
                }
                Ok(())
            },
            Instr::Return => {
                match self.stack.pop() {
                    Some(ret) => {
                        self.current_op_index = ret;
                        proof {
                            assert(self@ =~= spec_execute(old(self)@, instr, rand)->Ok_0);
                        }
                        Ok(())
                    },
                    None => Err(Fault::EmptyStackReturn),
                }
            },
            Instr::Jump(nnn) => {
                self.current_op_index = nnn;
                Ok(())
            },
            Instr::Call(nnn) => {
                self.stack.push(next);
                self.current_op_index = nnn;
                proof {
                    assert(self@ =~= spec_execute(old(self)@, instr, rand)->Ok_0);
                }
                Ok(())
            },
            Instr::SkipEqImm(x, nn) => {
                self.current_op_index = if self.registers[x as usize] == nn {
                    skip
                } else {
                    next
                };
                Ok(())
            },
            Instr::SkipNeImm(x, nn) => {
                self.current_op_index = if self.registers[x as usize] != nn {
                    skip
                } else {
                    next
                };
                Ok(())
            },
            Instr::SkipEqReg(x, y) => {
                self.current_op_index = if self.registers[x as usize] == self.registers[y as usize] {
                    skip
                } else {
                    next
                };
                Ok(())
            },
            Instr::SetImm(x, nn) => {
                self.registers.set(x as usize, nn);
                self.current_op_index = next;
                proof {
                    assert(self@ =~= spec_execute(old(self)@, instr, rand)->Ok_0);
                }
                Ok(())
            },
            Instr::AddImm(x, nn) => {
                let sum = (self.registers[x as usize] as u16 + nn as u16) % 256;
                self.registers.set(x as usize, sum as u8);
                self.current_op_index = next;
                proof {
                    assert(self@ =~= spec_execute(old(self)@, instr, rand)->Ok_0);
                }
                Ok(())
            },
            Instr::Assign(x, y) => {
                let v = self.registers[y as usize];
                self.registers.set(x as usize, v);
                self.current_op_index = next;
                proof {
                    assert(self@ =~= spec_execute(old(self)@, instr, rand)->Ok_0);
                }
                Ok(())
            },
            Instr::Or(x, y) => {
                let v = self.registers[x as usize] | self.registers[y as usize];
                self.registers.set(x as usize, v);
                self.current_op_index = next;
                proof {
                    assert(self@ =~= spec_execute(old(self)@, instr, rand)->Ok_0);
                }
                Ok(())
            },
            Instr::And(x, y) => {
                let v = self.registers[x as usize] & self.registers[y as usize];
                self.registers.set(x as usize, v);
                self.current_op_index = next;
                proof {
                    assert(self@ =~= spec_execute(old(self)@, instr, rand)->Ok_0);
                }
                Ok(())
            },
            Instr::Xor(x, y) => {
                let v = self.registers[x as usize] ^ self.registers[y as usize];
                self.registers.set(x as usize, v);
                self.current_op_index = next;
                proof {
                    assert(self@ =~= spec_execute(old(self)@, instr, rand)->Ok_0);
                }
                Ok(())
            },
            Instr::Add(x, y) => {
                let a = self.registers[x as usize];
                let b = self.registers[y as usize];
                let sum = a as u16 + b as u16;
                self.registers.set(x as usize, (sum % 256) as u8);
                let carry: u8 = if sum >= 256 {
                    1
                } else {
                    0
                };
                self.registers.set(15, carry);
                self.current_op_index = next;
                proof {
                    assert(self@ =~= spec_execute(old(self)@, instr, rand)->Ok_0);
                }
                Ok(())
            },
            Instr::Sub(x, y) => {
                let a = self.registers[x as usize];
                let b = self.registers[y as usize];
                let diff: u8 = if a >= b {
                    a - b
                } else {
                    ((256 + a as u16) - b as u16) as u8
                };
                self.registers.set(x as usize, diff);
                let no_borrow: u8 = if a >= b {
                    1
                } else {
                    0
                };
                self.registers.set(15, no_borrow);
                self.current_op_index = next;
                proof {
                    assert(diff == ((a - b) % 256) as u8);
                    assert(self@ =~= spec_execute(old(self)@, instr, rand)->Ok_0);
                }
                Ok(())
            },
            Instr::ShiftRight(x) => {
                let v = self.registers[x as usize];
                proof {
                    assert(v >> 1u8 == v / 2) by (bit_vector);
                    assert(v & 1 == v % 2) by (bit_vector);
                }
                let dropped = v & 1;
                self.registers.set(x as usize, v >> 1u8);
                self.registers.set(15, dropped);
                self.current_op_index = next;
                proof {
                    assert(self@ =~= spec_execute(old(self)@, instr, rand)->Ok_0);
                }
                Ok(())
            },
            Instr::SubReverse(x, y) => {
                let a = self.registers[x as usize];
                let b = self.registers[y as usize];
                let diff: u8 = if b >= a {
                    b - a
                } else {
                    ((256 + b as u16) - a as u16) as u8
                };
                self.registers.set(x as usize, diff);
                let no_borrow: u8 = if b >= a {
                    1
                } else {
                    0
                };
                self.registers.set(15, no_borrow);
                self.current_op_index = next;
                proof {
                    assert(diff == ((b - a) % 256) as u8);
                    assert(self@ =~= spec_execute(old(self)@, instr, rand)->Ok_0);
                }
                Ok(())
            },
            Instr::ShiftLeft(x) => {
                let v = self.registers[x as usize];
                proof {
                    assert(v << 1u8 == ((v * 2) % 256) as u8) by (bit_vector);
                    assert(v >> 7u8 == v / 128) by (bit_vector);
                }
                let dropped = v >> 7u8;
                self.registers.set(x as usize, v << 1u8);
                self.registers.set(15, dropped);
                self.current_op_index = next;
                proof {
                    assert(self@ =~= spec_execute(old(self)@, instr, rand)->Ok_0);
                }
                Ok(())
            },
            Instr::SkipNeReg(x, y) => {
                self.current_op_index = if self.registers[x as usize] != self.registers[y as usize] {
                    skip
                } else {
                    next
                };
                Ok(())
            },
            Instr::SetAddr(nnn) => {
                self.address_register = nnn;
                self.current_op_index = next;
                Ok(())
            },
            Instr::JumpOffset(nnn) => {
                self.current_op_index = (nnn + self.registers[0] as u16) % 4096;
                Ok(())
            },
            Instr::Random(x, nn) => {
                self.registers.set(x as usize, nn & rand);
                self.current_op_index = next;
                proof {
                    assert(self@ =~= spec_execute(old(self)@, instr, rand)->Ok_0);
                }
                Ok(())
            },
            Instr::Draw(x, y, n) => {
                let addr = self.address_register as usize;
                let height = n as usize;
                if addr + height > 4096 {
                    return Err(Fault::MemoryOutOfBounds);
                }
                let mut rows: Vec<u8> = Vec::new();
                let mut k: usize = 0;
                while k < height
                    invariant
                        k <= height,
                        addr + height <= 4096,
                        self@.memory.len() == 4096,
                        rows@.len() == k as int,
                        forall|i: int| 0 <= i < k ==> rows@[i] == self@.memory[addr + i],
                    decreases height - k,
                {
                    let b = self.memory[addr + k];
                    rows.push(b);
                    k += 1;
                }
                proof {
                    assert(rows@ =~= self@.memory.subrange(addr as int, addr + height));
                }
                let px = self.registers[x as usize] as usize;
                let py = self.registers[y as usize] as usize;
                let collided = self.screen.render_sprite(px, py, rows.as_slice());
                let flag: u8 = if collided {
                    1
                } else {
                    0
                };
                self.registers.set(15, flag);
                self.current_op_index = next;
                proof {
                    assert(self@ =~~= spec_execute(old(self)@, instr, rand)->Ok_0);
                }
                Ok(())
            },
            Instr::SkipKeyPressed(x) => {
                let reg = self.registers[x as usize];
                self.current_op_index = if self.key < 16 && self.key == reg {
                    skip
                } else {
                    next
                };
                Ok(())
            },
            Instr::SkipKeyNotPressed(x) => {
                let reg = self.registers[x as usize];
                self.current_op_index = if !(self.key < 16 && self.key == reg) {
                    skip
                } else {
                    next
                };
                Ok(())
            },
            Instr::GetDelay(x) => {
                let v = self.delay_timer;
                self.registers.set(x as usize, v);
                self.current_op_index = next;
                proof {
                    assert(self@ =~= spec_execute(old(self)@, instr, rand)->Ok_0);
                }
                Ok(())
            },
            Instr::WaitKey(_x) => Ok(()),
            Instr::SetDelay(x) => {
                self.delay_timer = self.registers[x as usize];
                self.current_op_index = next;
                Ok(())
            },
            Instr::SetSound(x) => {
                self.sound_timer = self.registers[x as usize];
                self.current_op_index = next;
                Ok(())
            },
            Instr::AddAddr(x) => {
                let sum = self.address_register + self.registers[x as usize] as u16;
                self.address_register = sum % 4096;
                let flag: u8 = if sum > 4095 {
                    1
                } else {
                    0
                };
                self.registers.set(15, flag);
                self.current_op_index = next;
                proof {
                    assert(self@ =~= spec_execute(old(self)@, instr, rand)->Ok_0);
                }
                Ok(())
            },
            Instr::FontAddr(x) => {
                self.address_register = (self.registers[x as usize] & 15) as u16 * 5;
                self.current_op_index = next;
                Ok(())
            },
            Instr::StoreBcd(x) => {
                if self.address_register > 4093 {
                    return Err(Fault::MemoryOutOfBounds);
                }
                let v = self.registers[x as usize];
                let a = self.address_register as usize;
                self.memory.set(a, v / 100);
                self.memory.set(a + 1, (v / 10) % 10);
                self.memory.set(a + 2, v % 10);
                self.current_op_index = next;
                proof {
                    assert(self@ =~= spec_execute(old(self)@, instr, rand)->Ok_0);
                }
                Ok(())
            },
            Instr::DumpRegs(x) => {
                let a = self.address_register as usize;
                let top = x as usize;
                if a + top > 4095 {
                    return Err(Fault::MemoryOutOfBounds);
                }
                let mut k: usize = 0;
                while k < top + 1
                    invariant
                        k <= top + 1,
                        top < 16,
                        a + top <= 4095,
                        self@.registers.len() == 16,
                        self@.memory.len() == 4096,
                        self@ == (StateView { memory: self@.memory, ..old(self)@ }),
                        forall|i: int|
                            0 <= i < k ==> self@.memory[a + i] == old(self)@.registers[i],
                        forall|i: int|
                            0 <= i < 4096 && !(a <= i < a + k) ==> self@.memory[i] == old(
                                self,
                            )@.memory[i],
                    decreases top + 1 - k,
                {
                    let v = self.registers[k];
                    self.memory.set(a + k, v);
                    proof {
                        assert(self@ =~= (StateView { memory: self@.memory, ..old(self)@ }));
                    }
                    k += 1;
                }
                self.current_op_index = next;
                proof {
                    assert(self@.memory =~= spec_execute(old(self)@, instr, rand)->Ok_0.memory);
                    assert(self@ =~= spec_execute(old(self)@, instr, rand)->Ok_0);
                }
                Ok(())
            },
            Instr::LoadRegs(x) => {
                let a = self.address_register as usize;
                let top = x as usize;
                if a + top > 4095 {
                    return Err(Fault::MemoryOutOfBounds);
                }
                let mut k: usize = 0;
                while k < top + 1
                    invariant
                        k <= top + 1,
                        top < 16,
                        a + top <= 4095,
                        self@.registers.len() == 16,
                        self@.memory.len() == 4096,
                        self@ == (StateView { registers: self@.registers, ..old(self)@ }),
                        forall|i: int|
                            0 <= i < k ==> self@.registers[i] == old(self)@.memory[a + i],
                        forall|i: int|
                            k <= i < 16 ==> self@.registers[i] == old(self)@.registers[i],
                    decreases top + 1 - k,
                {
                    let v = self.memory[a + k];
                    self.registers.set(k, v);
                    proof {
                        assert(self@ =~= (StateView { registers: self@.registers, ..old(self)@ }));
                    }
                    k += 1;
                }
                self.current_op_index = next;
                proof {
                    assert(self@.registers =~= spec_execute(
                        old(self)@,
                        instr,
                        rand,
                    )->Ok_0.registers);
                    assert(self@ =~= spec_execute(old(self)@, instr, rand)->Ok_0);
                }
                Ok(())
            },
            Instr::Nop => {
                self.current_op_index = next;
                Ok(())
            },
        }
    }

    /// Fetch, decode and execute one instruction.  Fetching within two
    /// bytes of the end of memory is the fatal out-of-bounds fetch; the
    /// wait-for-key instruction runs nothing and reports itself instead.
    pub fn step(&mut self, rand: u8) -> (r: Result<StepEvent, Fault>)
        requires
            old(self)@.wf(),
        ensures
            final(self)@.wf(),
            (final(self)@, r) == spec_step(old(self)@, rand),
    {
        let op = match crate::state::get_op_at(&self.memory, self.current_op_index) {
            Ok(op) => op,
            Err(f) => {
                return Err(f);
            },
        };
        let instr = decode(op);
        if let Instr::WaitKey(x) = instr {
            return Ok(StepEvent::WaitingForKey(x));
        }
        match self.execute(instr, rand) {
            Ok(()) => Ok(StepEvent::Executed),
            Err(f) => Err(f),
        }
    }

    /// Complete the wait-for-key instruction: the pressed key goes to
    /// register x and the instruction pointer moves on.  Timers, display
    /// and key latch do not move while the machine waits.
    pub fn resume_with_key(&mut self, x: u8, key: u8)
        requires
            old(self)@.wf(),
            x < 16,
            key < 16,
        ensures
            final(self)@ == (StateView {
                registers: old(self)@.registers.update(x as int, key),
                current_op_index: ((old(self)@.current_op_index + 2) % 4096) as u16,
                ..old(self)@
            }),
            final(self)@.wf(),
    {
        self.registers.set(x as usize, key);
        self.current_op_index = (self.current_op_index + 2) % 4096;
        proof {
            assert(self@ =~= (StateView {
                registers: old(self)@.registers.update(x as int, key),
                current_op_index: ((old(self)@.current_op_index + 2) % 4096) as u16,
                ..old(self)@
            }));
        }
    }

    /// One full tick with the random byte supplied by the caller: exactly
    /// the model transition, whatever the byte.
    pub fn tick_with_random(&mut self, input: InputEvent, rand: u8) -> (r: Result<
        TickOutcome,
        Fault,
    >)
        requires
            old(self)@.wf(),
            input.wf(),
        ensures
            final(self)@.wf(),
            (final(self)@, r) == spec_tick(old(self)@, input, rand),
    {
        match self.step(rand) {
            Err(f) => Err(f),
            Ok(StepEvent::WaitingForKey(x)) => Ok(TickOutcome::WaitingForKey(x)),
            Ok(StepEvent::Executed) => {
                self.tick_timers();
                match input {
                    InputEvent::Idle => {
                        self.key = crate::state::NO_KEY;
                        proof {
                            assert((self@, Ok::<TickOutcome, Fault>(TickOutcome::Running))
                                =~~= spec_tick(old(self)@, input, rand));
                        }
                        Ok(TickOutcome::Running)
                    },
                    InputEvent::Quit => {
                        proof {
                            assert((self@, Ok::<TickOutcome, Fault>(TickOutcome::QuitRequested))
                                =~~= spec_tick(old(self)@, input, rand));
                        }
                        Ok(TickOutcome::QuitRequested)
                    },
                    InputEvent::Key(k) => {
                        self.key = k;
                        proof {
                            assert((self@, Ok::<TickOutcome, Fault>(TickOutcome::Running))
                                =~~= spec_tick(old(self)@, input, rand));
                        }
                        Ok(TickOutcome::Running)
                    },
                }
            },
        }
    }

    /// One full tick of the driver: one decode-execute step with a fresh
    /// random byte, one timer tick, then the polled input is latched.
    /// Whatever byte the generator produced, the machine landed on the
    /// model transition for it.
    pub fn tick(&mut self, input: InputEvent) -> (r: Result<TickOutcome, Fault>)
        requires
            old(self)@.wf(),
            input.wf(),
        ensures
            final(self)@.wf(),
            exists|rand: u8| (final(self)@, r) == #[trigger] spec_tick(old(self)@, input, rand),
    {
        let rand = random_byte();
        let r = self.tick_with_random(input, rand);
        proof {
            assert((self@, r) == spec_tick(old(self)@, input, rand));
        }
        r
    }
}

/// Relies on rand::random: one byte from the thread-local generator.
/// Nothing can be promised of its value.
#[verifier::external_body]
fn random_byte() -> u8 {
    rand::random::<u8>()
}

/// One fetch-decode-execute step on the machine model.
pub open spec fn spec_step(s: StateView, rand: u8) -> (StateView, Result<StepEvent, Fault>) {
    if s.current_op_index > 4094 {
        (s, Err(Fault::FetchOutOfBounds))
    } else {
        let instr = spec_decode(spec_op_at(s.memory, s.current_op_index as int));
        match instr {
            Instr::WaitKey(x) => (s, Ok(StepEvent::WaitingForKey(x))),
            _ => match spec_execute(s, instr, rand) {
                Ok(v) => (v, Ok(StepEvent::Executed)),
                Err(f) => (s, Err(f)),
            },
        }
    }
}

/// Latch the polled input: a pressed key's code, or the no-key value; the
/// quit signal changes nothing.
pub open spec fn spec_apply_input(s: StateView, input: InputEvent) -> StateView {
    match input {
        InputEvent::Idle => StateView { key: 16, ..s },
        InputEvent::Quit => s,
        InputEvent::Key(k) => StateView { key: k, ..s },
    }
}

/// One full tick of the driver on the model: one decode-execute step,
/// then one timer tick, then the polled input is latched.  A fault stops
/// the tick with the machine unchanged, and the wait-for-key instruction
/// suspends the whole tick: no timer tick, no input latch.
pub open spec fn spec_tick(s: StateView, input: InputEvent, rand: u8) -> (
    StateView,
    Result<TickOutcome, Fault>,
) {
    let stepped = spec_step(s, rand);
    match stepped.1 {
        Err(f) => (s, Err(f)),
        Ok(StepEvent::WaitingForKey(x)) => (s, Ok(TickOutcome::WaitingForKey(x))),
        Ok(StepEvent::Executed) => (
            spec_apply_input(spec_tick_timers(stepped.0), input),
            Ok(
                if input is Quit {
                    TickOutcome::QuitRequested
                } else {
                    TickOutcome::Running
                },
            ),
        ),
    }
}

} // verus!
