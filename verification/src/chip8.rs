use vstd::prelude::*;

use crate::isa::{Fault, OpCode};
use crate::ROM_START;

verus! {

/// The mathematical value of a machine state: every field as a plain
/// sequence or integer. Contracts and the `step` function speak of this.
#[verifier::ext_equal]
pub ghost struct Chip8View {
    pub regs: Seq<u8>,
    pub i: u16,
    pub pc: u16,
    pub sp: u8,
    pub dt: u8,
    pub st: u8,
    pub fb: Seq<bool>,
    pub stack: Seq<u16>,
    pub mem: Seq<u8>,
    pub keys: Seq<bool>,
    pub quirk_index_advance: bool,
}

impl Chip8View {
    /// Fixed sizes of the machine's parts, and a stack pointer that
    /// never leaves the stack (16 slots, so `sp` ranges over 0..=16).
    pub open spec fn wf(self) -> bool {
        &&& self.regs.len() == 16
        &&& self.fb.len() == 2048
        &&& self.stack.len() == 16
        &&& self.mem.len() == 4096
        &&& self.keys.len() == 16
        &&& self.sp <= 16
    }

    /// The state a machine starts in: everything zeroed, the screen
    /// blank, and the program counter at `ROM_START`.
    pub open spec fn init() -> Chip8View {
        Chip8View {
            regs: Seq::new(16, |j: int| 0u8),
            i: 0,
            pc: ROM_START,
            sp: 0,
            dt: 0,
            st: 0,
            fb: Seq::new(2048, |j: int| false),
            stack: Seq::new(16, |j: int| 0u16),
            mem: Seq::new(4096, |j: int| 0u8),
            keys: Seq::new(16, |j: int| false),
            quirk_index_advance: true,
        }
    }
}

/// The interpreter state: 16 registers, index register, program counter,
/// stack pointer, the two 60 Hz timers, the 64x32 framebuffer (row-major,
/// pixel `(x, y)` at `y * 64 + x`), the 16-slot call stack, 4096 bytes of
/// memory, and the 16-key input latch.
///
/// `quirk_index_advance` pins down one historically ambiguous behavior:
/// when it is on (the default), register dump and load advance the index
/// register past the bytes they copied; when it is off, the index
/// register is left unchanged, as the original 1970s machines did.
pub struct Chip8 {
    pub registers: Vec<u8>,
    pub i: u16,
    pub pc: u16,
    pub sp: u8,
    pub dt: u8,
    pub st: u8,
    pub fb: Vec<bool>,
    pub stack: Vec<u16>,
    pub memory: Vec<u8>,
    pub keypad: Vec<bool>,
    pub quirk_index_advance: bool,
}

impl View for Chip8 {
    type V = Chip8View;

    open spec fn view(&self) -> Chip8View {
        Chip8View {
            regs: self.registers@,
            i: self.i,
            pc: self.pc,
            sp: self.sp,
            dt: self.dt,
            st: self.st,
            fb: self.fb@,
            stack: self.stack@,
            mem: self.memory@,
            keys: self.keypad@,
            quirk_index_advance: self.quirk_index_advance,
        }
    }
}

impl Chip8 {
    pub open spec fn wf(&self) -> bool {
        self@.wf()
    }
}

/// `s` with `data` written over the span starting at `at`; everything
/// else is untouched. Spans are assumed in bounds by the caller.
pub open spec fn write_span<T>(s: Seq<T>, at: int, data: Seq<T>) -> Seq<T> {
    Seq::new(s.len(), |j: int| if at <= j < at + data.len() { data[j - at] } else { s[j] })
}

/// The lowest pressed key at index `k` or above, if any.
pub open spec fn first_key_from(keys: Seq<bool>, k: int) -> Option<u8>
    decreases 16 - k,
{
    if k < 0 || k >= 16 {
        None
    } else if keys[k] {
        Some(k as u8)
    } else {
        first_key_from(keys, k + 1)
    }
}

/// The lowest-indexed pressed key, if any key is pressed.
pub open spec fn first_key(keys: Seq<bool>) -> Option<u8> {
    first_key_from(keys, 0)
}

/// Whether the key a register selects is latched pressed. A register
/// value beyond the 16-key pad counts as "not pressed".
pub open spec fn key_down(keys: Seq<bool>, v: u8) -> bool {
    v < 16 && keys[v as int]
}

/// Whether sprite-row byte `b` has its pixel set at column offset `bit`
/// (bit 7 is the leftmost pixel).
pub open spec fn sprite_pixel_on(b: u8, bit: int) -> bool {
    (b >> ((7 - bit) as u8)) & 1 == 1
}

/// One sprite row XORed onto the framebuffer: the first `bits` pixels of
/// `byte`, drawn in screen row `y` starting at column `x0`, wrapping at
/// the right edge. Returns the new framebuffer and whether any pixel was
/// switched off (a collision).
pub open spec fn draw_row(fb: Seq<bool>, byte: u8, x0: int, y: int, bits: int) -> (Seq<bool>, bool)
    decreases bits,
{
    if bits <= 0 {
        (fb, false)
    } else {
        let bit = bits - 1;
        let prior = draw_row(fb, byte, x0, y, bit);
        if sprite_pixel_on(byte, bit) {
            let idx = y * 64 + (x0 + bit) % 64;
            (prior.0.update(idx, !prior.0[idx]), prior.1 || prior.0[idx])
        } else {
            prior
        }
    }
}

/// The first `rows` sprite rows, read from `mem` starting at `i`, XORed
/// onto the framebuffer at `(x0, y0)` with wraparound on both axes.
pub open spec fn draw_rows(
    fb: Seq<bool>,
    mem: Seq<u8>,
    i: int,
    x0: int,
    y0: int,
    rows: int,
) -> (Seq<bool>, bool)
    decreases rows,
{
    if rows <= 0 {
        (fb, false)
    } else {
        let row = rows - 1;
        let prior = draw_rows(fb, mem, i, x0, y0, row);
        let this = draw_row(prior.0, mem[i + row], x0, (y0 + row) % 32, 8);
        (this.0, prior.1 || this.1)
    }
}

/// The whole effect of a sprite draw: `n` rows at `(vx mod 64, vy mod 32)`,
/// with the flag register set to 1 exactly when some pixel collided.
pub open spec fn draw(s: Chip8View, vx: u8, vy: u8, n: u8) -> Chip8View {
    let drawn = draw_rows(s.fb, s.mem, s.i as int, vx as int % 64, vy as int % 32, n as int);
    Chip8View {
        fb: drawn.0,
        regs: s.regs.update(15, if drawn.1 { 1u8 } else { 0u8 }),
        ..s
    }
}

/// The fault an instruction raises in state `s`, if any: stack misuse on
/// `CALL`/`RET`, and memory accesses that would leave the 4096 bytes.
/// An instruction that faults changes nothing.
pub open spec fn fault_of(s: Chip8View, op: OpCode) -> Option<Fault> {
    match op {
        OpCode::Ret => if s.sp == 0 {
            Some(Fault::StackUnderflow)
        } else {
            None
        },
        OpCode::Call { .. } => if s.sp >= 16 {
            Some(Fault::StackOverflow)
        } else {
            None
        },
        OpCode::DRW_x_y_nibble { n, .. } => if s.i + n > 4096 {
            Some(Fault::MemoryFault)
        } else {
            None
        },
        OpCode::LD_B_vx { .. } => if s.i + 3 > 4096 {
            Some(Fault::MemoryFault)
        } else {
            None
        },
        OpCode::LD_I_vx { x } => if s.i + x + 1 > 4096 {
            Some(Fault::MemoryFault)
        } else {
            None
        },
        OpCode::LD_vx_I { x } => if s.i + x + 1 > 4096 {
            Some(Fault::MemoryFault)
        } else {
            None
        },
        _ => None,
    }
}

/// The state after one non-faulting instruction. `rnd` is the byte the
/// random source produced; every instruction but `RND` ignores it.
/// Meaningful only when `s.wf()`, `op.wf()` and `fault_of(s, op)` is
/// `None`.
pub open spec fn step(s: Chip8View, op: OpCode, rnd: u8) -> Chip8View {
    match op {
        OpCode::Cls => Chip8View { fb: Seq::new(2048, |j: int| false), ..s },
        OpCode::Ret => Chip8View { sp: (s.sp - 1) as u8, pc: s.stack[s.sp - 1], ..s },
        OpCode::Jp { addr } => Chip8View { pc: addr, ..s },
        OpCode::Call { addr } => Chip8View {
            stack: s.stack.update(s.sp as int, s.pc),
            sp: (s.sp + 1) as u8,
            pc: addr,
            ..s
        },
        OpCode::SE_vx_byte { x, kk } => Chip8View {
            pc: if s.regs[x as int] == kk { s.pc.wrapping_add(2) } else { s.pc },
            ..s
        },
        OpCode::SNE_vx_byte { x, kk } => Chip8View {
            pc: if s.regs[x as int] != kk { s.pc.wrapping_add(2) } else { s.pc },
            ..s
        },
        OpCode::SE_vx_vy { x, y } => Chip8View {
            pc: if s.regs[x as int] == s.regs[y as int] { s.pc.wrapping_add(2) } else { s.pc },
            ..s
        },
        OpCode::SNE_vx_vy { x, y } => Chip8View {
            pc: if s.regs[x as int] != s.regs[y as int] { s.pc.wrapping_add(2) } else { s.pc },
            ..s
        },
        OpCode::LD_vx_byte { x, kk } => Chip8View { regs: s.regs.update(x as int, kk), ..s },
        OpCode::ADD_vx_byte { x, kk } => Chip8View {
            regs: s.regs.update(x as int, s.regs[x as int].wrapping_add(kk)),
            ..s
        },
        OpCode::LD_vx_vy { x, y } => Chip8View {
            regs: s.regs.update(x as int, s.regs[y as int]),
            ..s
        },
        OpCode::OR_vx_vy { x, y } => Chip8View {
            regs: s.regs.update(x as int, s.regs[x as int] | s.regs[y as int]).update(15, 0u8),
            ..s
        },
        OpCode::AND_vx_vy { x, y } => Chip8View {
            regs: s.regs.update(x as int, s.regs[x as int] & s.regs[y as int]).update(15, 0u8),
            ..s
        },
        OpCode::XOR_vx_vy { x, y } => Chip8View {
            regs: s.regs.update(x as int, s.regs[x as int] ^ s.regs[y as int]).update(15, 0u8),
            ..s
        },
        OpCode::ADD_vx_vy { x, y } => Chip8View {
            regs: s.regs.update(
                x as int,
                s.regs[x as int].wrapping_add(s.regs[y as int]),
            ).update(15, if s.regs[x as int] + s.regs[y as int] > 0xFF { 1u8 } else { 0u8 }),
            ..s
        },
        OpCode::SUB_vx_vy { x, y } => Chip8View {
            regs: s.regs.update(
                15,
                if s.regs[x as int] >= s.regs[y as int] { 1u8 } else { 0u8 },
            ).update(x as int, s.regs[x as int].wrapping_sub(s.regs[y as int])),
            ..s
        },
        OpCode::SHR_vx_vy { x, y } => Chip8View {
            regs: s.regs.update(15, s.regs[x as int] & 1).update(x as int, s.regs[x as int] >> 1),
            ..s
        },
        OpCode::SUBN_vx_vy { x, y } => Chip8View {
            regs: s.regs.update(
                15,
                if s.regs[y as int] >= s.regs[x as int] { 1u8 } else { 0u8 },
            ).update(x as int, s.regs[y as int].wrapping_sub(s.regs[x as int])),
            ..s
        },
        OpCode::SHL_vx_vy { x, y } => Chip8View {
            regs: s.regs.update(15, (s.regs[x as int] >> 7) & 1).update(
                x as int,
                s.regs[x as int] << 1,
            ),
            ..s
        },
        OpCode::LD_I_addr { addr } => Chip8View { i: addr, ..s },
        OpCode::JP_v0_addr { addr } => Chip8View {
            pc: addr.wrapping_add(s.regs[0] as u16),
            ..s
        },
        OpCode::RND_vx_byte { x, kk } => Chip8View {
            regs: s.regs.update(x as int, rnd & kk),
            ..s
        },
        OpCode::DRW_x_y_nibble { x, y, n } => draw(s, s.regs[x as int], s.regs[y as int], n),
        OpCode::SKP_vx { x } => Chip8View {
            pc: if key_down(s.keys, s.regs[x as int]) { s.pc.wrapping_add(2) } else { s.pc },
            ..s
        },
        OpCode::SKNP_vx { x } => Chip8View {
            pc: if !key_down(s.keys, s.regs[x as int]) { s.pc.wrapping_add(2) } else { s.pc },
            ..s
        },
        OpCode::LD_vx_dt { x } => Chip8View { regs: s.regs.update(x as int, s.dt), ..s },
        OpCode::LD_vx_k { x } => match first_key(s.keys) {
            Some(k) => Chip8View { regs: s.regs.update(x as int, k), ..s },
            None => Chip8View { pc: s.pc.wrapping_sub(2), ..s },
        },
        OpCode::LD_dt_vx { x } => Chip8View { dt: s.regs[x as int], ..s },
        OpCode::LD_st_vx { x } => Chip8View { st: s.regs[x as int], ..s },
        OpCode::ADD_I_vx { x } => Chip8View {
            i: s.i.wrapping_add(s.regs[x as int] as u16),
            ..s
        },
        OpCode::LD_F_vx { x } => Chip8View { i: (s.regs[x as int] * 5) as u16, ..s },
        OpCode::LD_B_vx { x } => Chip8View {
            mem: s.mem.update(s.i as int, s.regs[x as int] / 100).update(
                s.i + 1,
                (s.regs[x as int] / 10) % 10,
            ).update(s.i + 2, s.regs[x as int] % 10),
            ..s
        },
        OpCode::LD_I_vx { x } => Chip8View {
            mem: write_span(s.mem, s.i as int, s.regs.take(x + 1)),
            i: if s.quirk_index_advance { (s.i + x + 1) as u16 } else { s.i },
            ..s
        },
        OpCode::LD_vx_I { x } => Chip8View {
            regs: write_span(s.regs, 0, s.mem.subrange(s.i as int, s.i + x + 1)),
            i: if s.quirk_index_advance { (s.i + x + 1) as u16 } else { s.i },
            ..s
        },
    }
}

/// `CLS` turns every one of the 2048 framebuffer cells off, whatever
/// was on the screen before.
pub proof fn lemma_cls_clears(s: Chip8View, b: u8)
    ensures
        step(s, OpCode::Cls, b).fb.len() == 2048,
        forall|j: int| 0 <= j < 2048 ==> !step(s, OpCode::Cls, b).fb[j],
{
}

/// `SHR` and `SHL` capture the dropped bit — bit 0, or bit 7 — in the
/// flag register, independent of the shifted value that lands in the
/// target register. Stated for targets other than the flag register
/// itself, which the shifted result would overwrite.
pub proof fn lemma_shift_flag(s: Chip8View, x: u8, y: u8, b: u8)
    requires
        s.wf(),
        x < 15,
        y < 16,
    ensures
        step(s, OpCode::SHR_vx_vy { x, y }, b).regs[15] == s.regs[x as int] & 1,
        step(s, OpCode::SHR_vx_vy { x, y }, b).regs[x as int] == s.regs[x as int] >> 1,
        step(s, OpCode::SHL_vx_vy { x, y }, b).regs[15] == (s.regs[x as int] >> 7) & 1,
        step(s, OpCode::SHL_vx_vy { x, y }, b).regs[x as int] == s.regs[x as int] << 1,
{
}

/// A `CALL` followed by a `RET` comes back: the `RET` restores the
/// program counter that was current just after the `CALL` was fetched —
/// the instruction after the `CALL` — and the stack pointer returns to
/// its pre-`CALL` value.
pub proof fn lemma_call_ret(s: Chip8View, addr: u16, b1: u8, b2: u8)
    requires
        s.wf(),
        s.sp < 16,
    ensures
        fault_of(s, OpCode::Call { addr }) is None,
        fault_of(step(s, OpCode::Call { addr }, b1), OpCode::Ret) is None,
        step(step(s, OpCode::Call { addr }, b1), OpCode::Ret, b2).pc == s.pc,
        step(step(s, OpCode::Call { addr }, b1), OpCode::Ret, b2).sp == s.sp,
{
}

/// Scanning for the lowest pressed key from `k` on finds none exactly
/// when no key at index `k` or above is pressed, and otherwise the
/// lowest such index.
proof fn lemma_first_key_from(keys: Seq<bool>, k: int)
    requires
        keys.len() == 16,
        0 <= k <= 16,
    ensures
        (forall|j: int| k <= j < 16 ==> !keys[j]) ==> first_key_from(keys, k) is None,
        (exists|j: int| k <= j < 16 && keys[j]) ==> (first_key_from(keys, k) matches Some(r)
            && k <= r < 16 && keys[r as int] && (forall|j: int| k <= j < r ==> !keys[j])),
    decreases 16 - k,
{
    if k < 16 {
        lemma_first_key_from(keys, k + 1);
    }
}

/// The blocking key read busy-polls. With no key pressed it rewinds the
/// program counter over its own fetch, so across a whole
/// fetch-then-execute cycle `pc` is unchanged and the instruction runs
/// again; once some key is pressed, `pc` is left alone and the target
/// register receives the lowest-indexed pressed key.
pub proof fn lemma_key_wait(s: Chip8View, x: u8, b: u8)
    requires
        s.wf(),
        x < 16,
    ensures
        (forall|k: int| 0 <= k < 16 ==> !s.keys[k]) ==> step(s, OpCode::LD_vx_k { x }, b)
            == (Chip8View { pc: s.pc.wrapping_sub(2), ..s }),
        (exists|k: int| 0 <= k < 16 && s.keys[k]) ==> (first_key(s.keys) matches Some(r)
            && step(s, OpCode::LD_vx_k { x }, b) == (Chip8View {
            regs: s.regs.update(x as int, r),
            ..s
        }) && s.keys[r as int] && (forall|j: int| 0 <= j < r ==> !s.keys[j])),
        s.pc.wrapping_add(2).wrapping_sub(2) == s.pc,
{
    lemma_first_key_from(s.keys, 0);
}

/// Relies on rand::random: one byte from the process-wide generator.
/// Nothing can be promised of the value; callers state what holds of
/// every outcome.
#[verifier::external_body]
fn random_byte() -> u8 {
    rand::random()
}

/// A vector holding `n` copies of `val`.
fn filled<T: Copy>(n: usize, val: T) -> (v: Vec<T>)
    ensures
        v@.len() == n,
        forall|j: int| 0 <= j < n ==> v@[j] == val,
{
    let mut v: Vec<T> = Vec::new();
    let mut k: usize = 0;
    while k < n
        invariant
            k <= n,
            v@.len() == k,
            forall|j: int| 0 <= j < k ==> v@[j] == val,
        decreases n - k,
    {
        v.push(val);
        k = k + 1;
    }
    v
}

impl Chip8 {
    /// Copies a program image into memory at `ROM_START` and resets the
    /// program counter there. An image longer than the 3584 bytes of
    /// program memory is rejected before any byte is copied.
    #[allow(non_snake_case)]
    pub fn ROM_loader(&mut self, rom: &[u8]) -> (r: Result<(), Fault>)
        requires
            old(self).wf(),
        ensures
            final(self).wf(),
            rom@.len() > 3584 ==> r == Err::<(), Fault>(Fault::RomTooLarge) && final(self)@ == old(
                self,
            )@,
            rom@.len() <= 3584 ==> r == Ok::<(), Fault>(()) && final(self)@ == (Chip8View {
                pc: ROM_START,
                mem: write_span(old(self)@.mem, ROM_START as int, rom@),
                ..old(self)@
            }),
    {
        if rom.len() > 3584 {
            return Err(Fault::RomTooLarge);
        }
        let mut k: usize = 0;
        while k < rom.len()
            invariant
                old(self).wf(),
                k <= rom@.len() <= 3584,
                self@ == (Chip8View {
                    mem: write_span(old(self)@.mem, ROM_START as int, rom@.take(k as int)),
                    ..old(self)@
                }),
            decreases rom@.len() - k,
        {
            self.memory[0x200 + k] = rom[k];
            proof {
                assert(self@.mem =~= write_span(
                    old(self)@.mem,
                    ROM_START as int,
                    rom@.take(k as int + 1),
                ));
            }
            k = k + 1;
        }
        proof {
            assert(rom@.take(rom@.len() as int) =~= rom@);
        }
        self.pc = ROM_START;
        Ok(())
    }

    /// Reads the two bytes at `pc` as one big-endian opcode and advances
    /// `pc` past them.
    pub fn fetch(&mut self) -> (op: u16)
        requires
            old(self).wf(),
            old(self).pc + 1 < 4096,
        ensures
            final(self).wf(),
            op == old(self)@.mem[old(self).pc as int] * 256 + old(self)@.mem[old(self).pc + 1],
            final(self)@ == (Chip8View { pc: old(self).pc.wrapping_add(2), ..old(self)@ }),
    {
        let byte_1 = self.memory[self.pc as usize];
        let byte_2 = self.memory[self.pc as usize + 1];
        self.pc = self.pc.wrapping_add(2);
        let op = ((byte_1 as u16) << 8) | (byte_2 as u16);
        proof {
            assert(((byte_1 as u16) << 8) | (byte_2 as u16) == byte_1 * 256 + byte_2)
                by (bit_vector);
        }
        op
    }

    /// Advances `pc` over the next instruction, as a taken conditional
    /// skip does.
    fn skip_next(&mut self)
        ensures
            final(self)@ == (Chip8View { pc: old(self).pc.wrapping_add(2), ..old(self)@ }),
    {
        self.pc = self.pc.wrapping_add(2);
    }

    /// One 60 Hz tick: each timer moves one step toward zero and stops
    /// there.
    pub fn tick_timers(&mut self)
        ensures
            final(self)@ == (Chip8View {
                dt: if old(self).dt > 0 { (old(self).dt - 1) as u8 } else { 0u8 },
                st: if old(self).st > 0 { (old(self).st - 1) as u8 } else { 0u8 },
                ..old(self)@
            }),
    {
        if self.dt > 0 {
            self.dt = self.dt - 1;
        }
        if self.st > 0 {
            self.st = self.st - 1;
        }
    }

    /// The lowest-indexed key currently latched pressed, if any.
    fn first_pressed_key(&self) -> (r: Option<u8>)
        requires
            self.wf(),
        ensures
            r == first_key(self@.keys),
    {
        let mut k: usize = 0;
        while k < 16
            invariant
                self.wf(),
                k <= 16,
                first_key(self@.keys) == first_key_from(self@.keys, k as int),
            decreases 16 - k,
        {
            if self.keypad[k] {
                return Some(k as u8);
            }
            k = k + 1;
        }
        None
    }

    /// XORs an `n`-row sprite, read from memory at the index register,
    /// onto the framebuffer at `(vx mod 64, vy mod 32)`, wrapping at both
    /// screen edges; the flag register records whether any pixel was
    /// switched off.
    pub fn draw_sprite(&mut self, vx: u8, vy: u8, n: u8)
        requires
            old(self).wf(),
            old(self).i + n <= 4096,
        ensures
            final(self).wf(),
            final(self)@ == draw(old(self)@, vx, vy, n),
    {
        let x0 = (vx as usize) % 64;
        let y0 = (vy as usize) % 32;
        let mut collided = false;
        let mut row: usize = 0;
        while row < n as usize
            invariant
                old(self).wf(),
                row <= n,
                x0 == vx as int % 64,
                y0 == vy as int % 32,
                old(self).i + n <= 4096,
                self@ == (Chip8View { fb: self@.fb, ..old(self)@ }),
                self@.fb.len() == 2048,
                self@.fb == draw_rows(
                    old(self)@.fb,
                    old(self)@.mem,
                    old(self).i as int,
                    x0 as int,
                    y0 as int,
                    row as int,
                ).0,
                collided == draw_rows(
                    old(self)@.fb,
                    old(self)@.mem,
                    old(self).i as int,
                    x0 as int,
                    y0 as int,
                    row as int,
                ).1,
            decreases n - row,
        {
            let sprite_byte = self.memory[self.i as usize + row];
            let y = (y0 + row) % 32;
            let ghost fb_at_row = self@.fb;
            let ghost hit_at_row = collided;
            let mut bit: usize = 0;
            while bit < 8
                invariant
                    old(self).wf(),
                    bit <= 8,
                    y < 32,
                    x0 < 64,
                    row < n,
                    old(self).i + n <= 4096,
                    self@ == (Chip8View { fb: self@.fb, ..old(self)@ }),
                    self@.fb.len() == 2048,
                    sprite_byte == old(self)@.mem[old(self).i + row],
                    y == (y0 as int + row) % 32,
                    self@.fb == draw_row(fb_at_row, sprite_byte, x0 as int, y as int, bit as int).0,
                    collided == (hit_at_row || draw_row(
                        fb_at_row,
                        sprite_byte,
                        x0 as int,
                        y as int,
                        bit as int,
                    ).1),
                decreases 8 - bit,
            {
                let shift = (7 - bit) as u8;
                let pixel_on = (sprite_byte >> shift) & 1 == 1;
                if pixel_on {
                    let x = (x0 + bit) % 64;
                    let idx = y * 64 + x;
                    let prev = self.fb[idx];
                    self.fb[idx] = !prev;
                    if prev {
                        collided = true;
                    }
                }
                bit = bit + 1;
            }
            row = row + 1;
        }
        let flag: u8 = if collided {
            1
        } else {
            0
        };
        self.registers[15] = flag;
        proof {
            assert(self@ =~= draw(old(self)@, vx, vy, n));
        }
    }

    /// Copies registers `0..=x` into memory starting at the index
    /// register.
    fn store_regs(&mut self, x: u8)
        requires
            old(self).wf(),
            x < 16,
            old(self).i + x + 1 <= 4096,
        ensures
            final(self).wf(),
            final(self)@ == (Chip8View {
                mem: write_span(old(self)@.mem, old(self).i as int, old(self)@.regs.take(x + 1)),
                ..old(self)@
            }),
    {
        let mut r: usize = 0;
        while r < x as usize + 1
            invariant
                old(self).wf(),
                x < 16,
                r <= x + 1,
                old(self).i + x + 1 <= 4096,
                self@ == (Chip8View {
                    mem: write_span(old(self)@.mem, old(self).i as int, old(self)@.regs.take(
                        r as int,
                    )),
                    ..old(self)@
                }),
            decreases x + 1 - r,
        {
            let addr = self.i as usize + r;
            self.memory[addr] = self.registers[r];
            proof {
                assert(self@.mem =~= write_span(
                    old(self)@.mem,
                    old(self).i as int,
                    old(self)@.regs.take(r as int + 1),
                ));
            }
            r = r + 1;
        }
    }

    /// Fills registers `0..=x` from memory starting at the index
    /// register.
    fn load_regs(&mut self, x: u8)
        requires
            old(self).wf(),
            x < 16,
            old(self).i + x + 1 <= 4096,
        ensures
            final(self).wf(),
            final(self)@ == (Chip8View {
                regs: write_span(old(self)@.regs, 0, old(self)@.mem.subrange(
                    old(self).i as int,
                    old(self).i + x + 1,
                )),
                ..old(self)@
            }),
    {
        let mut r: usize = 0;
        while r < x as usize + 1
            invariant
                old(self).wf(),
                x < 16,
                r <= x + 1,
                old(self).i + x + 1 <= 4096,
                self@ == (Chip8View {
                    regs: write_span(old(self)@.regs, 0, old(self)@.mem.subrange(
                        old(self).i as int,
                        old(self).i + r,
                    )),
                    ..old(self)@
                }),
            decreases x + 1 - r,
        {
            let addr = self.i as usize + r;
            self.registers[r] = self.memory[addr];
            proof {
                assert(self@.regs =~= write_span(
                    old(self)@.regs,
                    0,
                    old(self)@.mem.subrange(old(self).i as int, old(self).i + r + 1),
                ));
            }
            r = r + 1;
        }
    }

    /// Applies a `RND` instruction with `rnd` standing in for the drawn
    /// byte, so the random source is replaceable: a host or a test can
    /// hand in a byte from a deterministic or seeded generator and get
    /// exactly the `step` outcome for it.
    pub fn execute_rnd(&mut self, op: OpCode, rnd: u8)
        requires
            old(self).wf(),
            op.wf(),
            op is RND_vx_byte,
        ensures
            final(self).wf(),
            final(self)@ == step(old(self)@, op, rnd),
    {
        if let OpCode::RND_vx_byte { x, kk } = op {
            self.registers[x as usize] = rnd & kk;
        }
    }

    /// Applies one decoded instruction to the machine. On success the
    /// state becomes exactly `step` of the old state; on a fault the
    /// state is left exactly as it was, so a failed instruction is
    /// reportable and restartable. Every instruction except `RND` is
    /// deterministic; of `RND` only the mask is promised.
    pub fn execute(&mut self, op: OpCode) -> (r: Result<(), Fault>)
        requires
            old(self).wf(),
            op.wf(),
        ensures
            final(self).wf(),
            r is Ok <==> fault_of(old(self)@, op) is None,
            r matches Err(f) ==> Some(f) == fault_of(old(self)@, op) && final(self)@ == old(
                self,
            )@,
            r is Ok && !(op is RND_vx_byte) ==> final(self)@ == step(old(self)@, op, 0),
            r is Ok && op is RND_vx_byte ==> (exists|b: u8|
                final(self)@ == step(old(self)@, op, b)),
    {
        match op {
            OpCode::Cls => {
                self.fb = filled(2048, false);
                proof {
                    assert(self@ =~= step(old(self)@, op, 0));
                }
                Ok(())
            },
            OpCode::Ret => {
                if self.sp == 0 {
                    return Err(Fault::StackUnderflow);
                }
                self.sp = self.sp - 1;
                self.pc = self.stack[self.sp as usize];
                Ok(())
            },
            OpCode::Jp { addr } => {
                self.pc = addr;
                Ok(())
            },
            OpCode::Call { addr } => {
                if self.sp >= 16 {
                    return Err(Fault::StackOverflow);
                }
                self.stack[self.sp as usize] = self.pc;
                self.sp = self.sp + 1;
                self.pc = addr;
                Ok(())
            },
            OpCode::SE_vx_byte { x, kk } => {
                if self.registers[x as usize] == kk {
                    self.skip_next();
                }
                Ok(())
            },
            OpCode::SNE_vx_byte { x, kk } => {
                if self.registers[x as usize] != kk {
                    self.skip_next();
                }
                Ok(())
            },
            OpCode::SE_vx_vy { x, y } => {
                if self.registers[x as usize] == self.registers[y as usize] {
                    self.skip_next();
                }
                Ok(())
            },
            OpCode::SNE_vx_vy { x, y } => {
                if self.registers[x as usize] != self.registers[y as usize] {
                    self.skip_next();
                }
                Ok(())
            },
            OpCode::LD_vx_byte { x, kk } => {
                self.registers[x as usize] = kk;
                Ok(())
            },
            OpCode::ADD_vx_byte { x, kk } => {
                let vx = self.registers[x as usize];
                self.registers[x as usize] = vx.wrapping_add(kk);
                Ok(())
            },
            OpCode::LD_vx_vy { x, y } => {
                self.registers[x as usize] = self.registers[y as usize];
                Ok(())
            },
            OpCode::OR_vx_vy { x, y } => {
                let vx = self.registers[x as usize];
                let vy = self.registers[y as usize];
                self.registers[x as usize] = vx | vy;
                self.registers[15] = 0;
                Ok(())
            },
            OpCode::AND_vx_vy { x, y } => {
                let vx = self.registers[x as usize];
                let vy = self.registers[y as usize];
                self.registers[x as usize] = vx & vy;
                self.registers[15] = 0;
                Ok(())
            },
            OpCode::XOR_vx_vy { x, y } => {
                let vx = self.registers[x as usize];
                let vy = self.registers[y as usize];
                self.registers[x as usize] = vx ^ vy;
                self.registers[15] = 0;
                Ok(())
            },
            OpCode::ADD_vx_vy { x, y } => {
                let vx = self.registers[x as usize];
                let vy = self.registers[y as usize];
                let sum = vx as u16 + vy as u16;
                self.registers[x as usize] = vx.wrapping_add(vy);
                self.registers[15] = if sum > 0xFF {
                    1
                } else {
                    0
                };
                Ok(())
            },
            OpCode::SUB_vx_vy { x, y } => {
                let vx = self.registers[x as usize];
                let vy = self.registers[y as usize];
                self.registers[15] = if vx >= vy {
                    1
                } else {
                    0
                };
                self.registers[x as usize] = vx.wrapping_sub(vy);
                Ok(())
            },
            OpCode::SHR_vx_vy { x, .. } => {
                let vx = self.registers[x as usize];
                self.registers[15] = vx & 1;
                self.registers[x as usize] = vx >> 1;
                Ok(())
            },
            OpCode::SUBN_vx_vy { x, y } => {
                let vx = self.registers[x as usize];
                let vy = self.registers[y as usize];
                self.registers[15] = if vy >= vx {
                    1
                } else {
                    0
                };
                self.registers[x as usize] = vy.wrapping_sub(vx);
                Ok(())
            },
            OpCode::SHL_vx_vy { x, .. } => {
                let vx = self.registers[x as usize];
                self.registers[15] = (vx >> 7) & 1;
                self.registers[x as usize] = vx << 1;
                Ok(())
            },
            OpCode::LD_I_addr { addr } => {
                self.i = addr;
                Ok(())
            },
            OpCode::JP_v0_addr { addr } => {
                self.pc = addr.wrapping_add(self.registers[0] as u16);
                Ok(())
            },
            OpCode::RND_vx_byte { .. } => {
                let b = random_byte();
                self.execute_rnd(op, b);
                proof {
                    assert(self@ == step(old(self)@, op, b));
                }
                Ok(())
            },
            OpCode::DRW_x_y_nibble { x, y, n } => {
                if (self.i as u32) + (n as u32) > 4096 {
                    return Err(Fault::MemoryFault);
                }
                let vx = self.registers[x as usize];
                let vy = self.registers[y as usize];
                self.draw_sprite(vx, vy, n);
                Ok(())
            },
            OpCode::SKP_vx { x } => {
                let v = self.registers[x as usize];
                let pressed = (v as usize) < 16 && self.keypad[v as usize];
                if pressed {
                    self.skip_next();
                }
                Ok(())
            },
            OpCode::SKNP_vx { x } => {
                let v = self.registers[x as usize];
                let pressed = (v as usize) < 16 && self.keypad[v as usize];
                if !pressed {
                    self.skip_next();
                }
                Ok(())
            },
            OpCode::LD_vx_dt { x } => {
                self.registers[x as usize] = self.dt;
                Ok(())
            },
            OpCode::LD_vx_k { x } => {
                match self.first_pressed_key() {
                    Some(k) => {
                        self.registers[x as usize] = k;
                    },
                    None => {
                        self.pc = self.pc.wrapping_sub(2);
                    },
                }
                Ok(())
            },
            OpCode::LD_dt_vx { x } => {
                self.dt = self.registers[x as usize];
                Ok(())
            },
            OpCode::LD_st_vx { x } => {
                self.st = self.registers[x as usize];
                Ok(())
            },
            OpCode::ADD_I_vx { x } => {
                self.i = self.i.wrapping_add(self.registers[x as usize] as u16);
                Ok(())
            },
            OpCode::LD_F_vx { x } => {
                self.i = (self.registers[x as usize] as u16) * 5;
                Ok(())
            },
            OpCode::LD_B_vx { x } => {
                if (self.i as u32) + 3 > 4096 {
                    return Err(Fault::MemoryFault);
                }
                let v = self.registers[x as usize];
                let at = self.i as usize;
                self.memory[at] = v / 100;
                self.memory[at + 1] = (v / 10) % 10;
                self.memory[at + 2] = v % 10;
                Ok(())
            },
            OpCode::LD_I_vx { x } => {
                if (self.i as u32) + (x as u32) + 1 > 4096 {
                    return Err(Fault::MemoryFault);
                }
                self.store_regs(x);
                if self.quirk_index_advance {
                    self.i = self.i + (x as u16) + 1;
                }
                Ok(())
            },
            OpCode::LD_vx_I { x } => {
                if (self.i as u32) + (x as u32) + 1 > 4096 {
                    return Err(Fault::MemoryFault);
                }
                self.load_regs(x);
                if self.quirk_index_advance {
                    self.i = self.i + (x as u16) + 1;
                }
                Ok(())
            },
        }
    }

    /// A fresh machine in the initial state.
    pub fn new() -> (c: Chip8)
        ensures
            c.wf(),
            c@ == Chip8View::init(),
    {
        let c = Chip8 {
            registers: filled(16, 0u8),
            i: 0x000,
            pc: ROM_START,
            sp: 0x00,
            dt: 0x00,
            st: 0x00,
            fb: filled(2048, false),
            stack: filled(16, 0u16),
            memory: filled(4096, 0u8),
            keypad: filled(16, false),
            quirk_index_advance: true,
        };
        proof {
            assert(c@ =~= Chip8View::init());
        }
        c
    }
}

} // verus!
