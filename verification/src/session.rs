use vstd::prelude::*;

use crate::chip8::{write_span, Chip8, Chip8View};
use crate::isa::OpCode;
use crate::ROM_START;

verus! {

/// A front end's session state: the machine, a rolling history of the
/// instructions it ran, and whether the host loop should stop. The host
/// loop itself — pacing, rendering, key polling — lives outside this
/// crate and only reads and drives this state.
pub struct App {
    pub chip8: Chip8,
    pub instruction_history: Vec<OpCode>,
    pub exit: bool,
}

impl App {
    /// A session around a fresh machine with `rom` loaded at `ROM_START`.
    pub fn new(rom: &[u8]) -> (a: App)
        requires
            rom@.len() <= 3584,
        ensures
            a.chip8.wf(),
            a.chip8@ == (Chip8View {
                pc: ROM_START,
                mem: write_span(Chip8View::init().mem, ROM_START as int, rom@),
                ..Chip8View::init()
            }),
            a.instruction_history@.len() == 0,
            a.exit == false,
    {
        let mut chip8 = Chip8::new();
        let _loaded = chip8.ROM_loader(rom);
        App { chip8, instruction_history: Vec::new(), exit: false }
    }

    /// Appends one instruction to the rolling history, which keeps only
    /// the 15 most recent entries.
    pub fn add_instruction(&mut self, opcode: OpCode)
        ensures
            final(self).chip8 == old(self).chip8,
            final(self).exit == old(self).exit,
            final(self).instruction_history@ == if old(self).instruction_history@.len() < 15 {
                old(self).instruction_history@.push(opcode)
            } else {
                old(self).instruction_history@.push(opcode).drop_first()
            },
    {
        self.instruction_history.push(opcode);
        if self.instruction_history.len() > 15 {
            self.instruction_history.remove(0);
            proof {
                assert(self.instruction_history@ =~= old(
                    self,
                ).instruction_history@.push(opcode).drop_first());
            }
        }
    }
}

} // verus!
