use vstd::prelude::*;

verus! {

/// The ways a cycle can fail: loading, decoding, or executing an instruction.
#[derive(Clone, Copy, Debug, PartialEq, Eq, Structural)]
pub enum Fault {
    /// The program image does not fit between `ROM_START` and the end of memory.
    RomTooLarge,
    /// No instruction pattern matches the fetched opcode.
    UnknownOpcode,
    /// An instruction's computed address falls outside the 4096-byte memory.
    MemoryFault,
    /// `CALL` with all 16 stack slots in use.
    StackOverflow,
    /// `RET` with an empty stack.
    StackUnderflow,
}

/// A decoded instruction, carrying only the operand fields its opcode needs:
/// register indices `x`/`y` (0-15), an immediate byte `kk`, a 12-bit
/// address `addr`, or a sprite height `n` (0-15).
#[allow(non_camel_case_types)]
#[derive(Clone, Copy, Debug, PartialEq, Eq, Structural)]
pub enum OpCode {
    Cls,
    Ret,
    Jp { addr: u16 },
    Call { addr: u16 },
    SE_vx_byte { x: u8, kk: u8 },
    SNE_vx_byte { x: u8, kk: u8 },
    SE_vx_vy { x: u8, y: u8 },
    LD_vx_byte { x: u8, kk: u8 },
    ADD_vx_byte { x: u8, kk: u8 },
    LD_vx_vy { x: u8, y: u8 },
    OR_vx_vy { x: u8, y: u8 },
    AND_vx_vy { x: u8, y: u8 },
    XOR_vx_vy { x: u8, y: u8 },
    ADD_vx_vy { x: u8, y: u8 },
    SUB_vx_vy { x: u8, y: u8 },
    SHR_vx_vy { x: u8, y: u8 },
    SUBN_vx_vy { x: u8, y: u8 },
    SHL_vx_vy { x: u8, y: u8 },
    SNE_vx_vy { x: u8, y: u8 },
    LD_I_addr { addr: u16 },
    JP_v0_addr { addr: u16 },
    RND_vx_byte { x: u8, kk: u8 },
    DRW_x_y_nibble { x: u8, y: u8, n: u8 },
    SKP_vx { x: u8 },
    SKNP_vx { x: u8 },
    LD_vx_dt { x: u8 },
    LD_vx_k { x: u8 },
    LD_dt_vx { x: u8 },
    LD_st_vx { x: u8 },
    ADD_I_vx { x: u8 },
    LD_F_vx { x: u8 },
    LD_B_vx { x: u8 },
    LD_I_vx { x: u8 },
    LD_vx_I { x: u8 },
}

impl OpCode {
    /// Every operand is within the range its 4-bit (or 12-bit) field allows.
    /// Decoding guarantees this; the executor relies on it.
    pub open spec fn wf(self) -> bool {
        match self {
            OpCode::Cls => true,
            OpCode::Ret => true,
            OpCode::Jp { addr } => addr <= 0xFFF,
            OpCode::Call { addr } => addr <= 0xFFF,
            OpCode::SE_vx_byte { x, kk } => x < 16,
            OpCode::SNE_vx_byte { x, kk } => x < 16,
            OpCode::SE_vx_vy { x, y } => x < 16 && y < 16,
            OpCode::LD_vx_byte { x, kk } => x < 16,
            OpCode::ADD_vx_byte { x, kk } => x < 16,
            OpCode::LD_vx_vy { x, y } => x < 16 && y < 16,
            OpCode::OR_vx_vy { x, y } => x < 16 && y < 16,
            OpCode::AND_vx_vy { x, y } => x < 16 && y < 16,
            OpCode::XOR_vx_vy { x, y } => x < 16 && y < 16,
            OpCode::ADD_vx_vy { x, y } => x < 16 && y < 16,
            OpCode::SUB_vx_vy { x, y } => x < 16 && y < 16,
            OpCode::SHR_vx_vy { x, y } => x < 16 && y < 16,
            OpCode::SUBN_vx_vy { x, y } => x < 16 && y < 16,
            OpCode::SHL_vx_vy { x, y } => x < 16 && y < 16,
            OpCode::SNE_vx_vy { x, y } => x < 16 && y < 16,
            OpCode::LD_I_addr { addr } => addr <= 0xFFF,
            OpCode::JP_v0_addr { addr } => addr <= 0xFFF,
            OpCode::RND_vx_byte { x, kk } => x < 16,
            OpCode::DRW_x_y_nibble { x, y, n } => x < 16 && y < 16 && n < 16,
            OpCode::SKP_vx { x } => x < 16,
            OpCode::SKNP_vx { x } => x < 16,
            OpCode::LD_vx_dt { x } => x < 16,
            OpCode::LD_vx_k { x } => x < 16,
            OpCode::LD_dt_vx { x } => x < 16,
            OpCode::LD_st_vx { x } => x < 16,
            OpCode::ADD_I_vx { x } => x < 16,
            OpCode::LD_F_vx { x } => x < 16,
            OpCode::LD_B_vx { x } => x < 16,
            OpCode::LD_I_vx { x } => x < 16,
            OpCode::LD_vx_I { x } => x < 16,
        }
    }
}

/// The instruction table: which `OpCode` a raw 16-bit opcode stands for,
/// or `None` where no pattern matches. Dispatch is on the top nibble,
/// with secondary dispatch on the low nibble or byte for the `0x0`,
/// `0x5`, `0x8`, `0x9`, `0xE` and `0xF` families.
pub open spec fn spec_decode(op: u16) -> Option<OpCode> {
    let x = ((op >> 8) & 0xF) as u8;
    let y = ((op >> 4) & 0xF) as u8;
    let n = (op & 0xF) as u8;
    let kk = (op & 0xFF) as u8;
    let addr = op & 0xFFF;
    match (op >> 12) & 0xF {
        0x0 => if op == 0x00E0 {
            Some(OpCode::Cls)
        } else if op == 0x00EE {
            Some(OpCode::Ret)
        } else {
            None
        },
        0x1 => Some(OpCode::Jp { addr }),
        0x2 => Some(OpCode::Call { addr }),
        0x3 => Some(OpCode::SE_vx_byte { x, kk }),
        0x4 => Some(OpCode::SNE_vx_byte { x, kk }),
        0x5 => if n == 0x0 {
            Some(OpCode::SE_vx_vy { x, y })
        } else {
            None
        },
        0x6 => Some(OpCode::LD_vx_byte { x, kk }),
        0x7 => Some(OpCode::ADD_vx_byte { x, kk }),
        0x8 => match n {
            0x0 => Some(OpCode::LD_vx_vy { x, y }),
            0x1 => Some(OpCode::OR_vx_vy { x, y }),
            0x2 => Some(OpCode::AND_vx_vy { x, y }),
            0x3 => Some(OpCode::XOR_vx_vy { x, y }),
            0x4 => Some(OpCode::ADD_vx_vy { x, y }),
            0x5 => Some(OpCode::SUB_vx_vy { x, y }),
            0x6 => Some(OpCode::SHR_vx_vy { x, y }),
            0x7 => Some(OpCode::SUBN_vx_vy { x, y }),
            0xE => Some(OpCode::SHL_vx_vy { x, y }),
            _ => None,
        },
        0x9 => if n == 0x0 {
            Some(OpCode::SNE_vx_vy { x, y })
        } else {
            None
        },
        0xA => Some(OpCode::LD_I_addr { addr }),
        0xB => Some(OpCode::JP_v0_addr { addr }),
        0xC => Some(OpCode::RND_vx_byte { x, kk }),
        0xD => Some(OpCode::DRW_x_y_nibble { x, y, n }),
        0xE => match kk {
            0x9E => Some(OpCode::SKP_vx { x }),
            0xA1 => Some(OpCode::SKNP_vx { x }),
            _ => None,
        },
        0xF => match kk {
            0x07 => Some(OpCode::LD_vx_dt { x }),
            0x0A => Some(OpCode::LD_vx_k { x }),
            0x15 => Some(OpCode::LD_dt_vx { x }),
            0x18 => Some(OpCode::LD_st_vx { x }),
            0x1E => Some(OpCode::ADD_I_vx { x }),
            0x29 => Some(OpCode::LD_F_vx { x }),
            0x33 => Some(OpCode::LD_B_vx { x }),
            0x55 => Some(OpCode::LD_I_vx { x }),
            0x65 => Some(OpCode::LD_vx_I { x }),
            _ => None,
        },
        _ => None,
    }
}

/// Every decoded instruction has well-formed operand fields.
pub proof fn lemma_decode_wf(op: u16)
    ensures
        spec_decode(op) matches Some(o) ==> o.wf(),
{
    assert(((op >> 8) & 0xF) < 16 && ((op >> 4) & 0xF) < 16 && (op & 0xF) < 16 && (op & 0xFFF)
        <= 0xFFF) by (bit_vector);
}

impl OpCode {
    /// Decoding is pure: the same opcode always yields the same, well-formed
    /// `OpCode`, and an opcode outside the instruction table is rejected.
    pub fn from_u16(opcode: u16) -> (r: Result<OpCode, Fault>)
        ensures
            match r {
                Ok(o) => spec_decode(opcode) == Some(o) && o.wf(),
                Err(f) => spec_decode(opcode) is None && f == Fault::UnknownOpcode,
            },
    {
        proof {
            lemma_decode_wf(opcode);
        }
        let x = ((opcode >> 8) & 0xF) as u8;
        let y = ((opcode >> 4) & 0xF) as u8;
        let n = (opcode & 0xF) as u8;
        let kk = (opcode & 0xFF) as u8;
        let addr = opcode & 0xFFF;
        match (opcode >> 12) & 0xF {
            0x0 => if opcode == 0x00E0 {
                Ok(OpCode::Cls)
            } else if opcode == 0x00EE {
                Ok(OpCode::Ret)
            } else {
                Err(Fault::UnknownOpcode)
            },
            0x1 => Ok(OpCode::Jp { addr }),
            0x2 => Ok(OpCode::Call { addr }),
            0x3 => Ok(OpCode::SE_vx_byte { x, kk }),
            0x4 => Ok(OpCode::SNE_vx_byte { x, kk }),
            0x5 => if n == 0x0 {
                Ok(OpCode::SE_vx_vy { x, y })
            } else {
                Err(Fault::UnknownOpcode)
            },
            0x6 => Ok(OpCode::LD_vx_byte { x, kk }),
            0x7 => Ok(OpCode::ADD_vx_byte { x, kk }),
            0x8 => match n {
                0x0 => Ok(OpCode::LD_vx_vy { x, y }),
                0x1 => Ok(OpCode::OR_vx_vy { x, y }),
                0x2 => Ok(OpCode::AND_vx_vy { x, y }),
                0x3 => Ok(OpCode::XOR_vx_vy { x, y }),
                0x4 => Ok(OpCode::ADD_vx_vy { x, y }),
                0x5 => Ok(OpCode::SUB_vx_vy { x, y }),
                0x6 => Ok(OpCode::SHR_vx_vy { x, y }),
                0x7 => Ok(OpCode::SUBN_vx_vy { x, y }),
                0xE => Ok(OpCode::SHL_vx_vy { x, y }),
                _ => Err(Fault::UnknownOpcode),
            },
            0x9 => if n == 0x0 {
                Ok(OpCode::SNE_vx_vy { x, y })
            } else {
                Err(Fault::UnknownOpcode)
            },
            0xA => Ok(OpCode::LD_I_addr { addr }),
            0xB => Ok(OpCode::JP_v0_addr { addr }),
            0xC => Ok(OpCode::RND_vx_byte { x, kk }),
            0xD => Ok(OpCode::DRW_x_y_nibble { x, y, n }),
            0xE => match kk {
                0x9E => Ok(OpCode::SKP_vx { x }),
                0xA1 => Ok(OpCode::SKNP_vx { x }),
                _ => Err(Fault::UnknownOpcode),
            },
            0xF => match kk {
                0x07 => Ok(OpCode::LD_vx_dt { x }),
                0x0A => Ok(OpCode::LD_vx_k { x }),
                0x15 => Ok(OpCode::LD_dt_vx { x }),
                0x18 => Ok(OpCode::LD_st_vx { x }),
                0x1E => Ok(OpCode::ADD_I_vx { x }),
                0x29 => Ok(OpCode::LD_F_vx { x }),
                0x33 => Ok(OpCode::LD_B_vx { x }),
                0x55 => Ok(OpCode::LD_I_vx { x }),
                0x65 => Ok(OpCode::LD_vx_I { x }),
                _ => Err(Fault::UnknownOpcode),
            },
            _ => Err(Fault::UnknownOpcode),
        }
    }
}

} // verus!
