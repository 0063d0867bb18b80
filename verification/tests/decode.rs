use chip8::isa::{Fault, OpCode};

#[test]
fn decodes_screen_and_flow_control() {
    assert_eq!(OpCode::from_u16(0x00E0), Ok(OpCode::Cls));
    assert_eq!(OpCode::from_u16(0x00EE), Ok(OpCode::Ret));
    assert_eq!(OpCode::from_u16(0x1ABC), Ok(OpCode::Jp { addr: 0xABC }));
    assert_eq!(OpCode::from_u16(0x2123), Ok(OpCode::Call { addr: 0x123 }));
    assert_eq!(OpCode::from_u16(0xB765), Ok(OpCode::JP_v0_addr { addr: 0x765 }));
}

#[test]
fn decodes_conditional_skips() {
    assert_eq!(OpCode::from_u16(0x3A42), Ok(OpCode::SE_vx_byte { x: 0xA, kk: 0x42 }));
    assert_eq!(OpCode::from_u16(0x4B99), Ok(OpCode::SNE_vx_byte { x: 0xB, kk: 0x99 }));
    assert_eq!(OpCode::from_u16(0x5120), Ok(OpCode::SE_vx_vy { x: 1, y: 2 }));
    assert_eq!(OpCode::from_u16(0x9340), Ok(OpCode::SNE_vx_vy { x: 3, y: 4 }));
    assert_eq!(OpCode::from_u16(0xE29E), Ok(OpCode::SKP_vx { x: 2 }));
    assert_eq!(OpCode::from_u16(0xE3A1), Ok(OpCode::SKNP_vx { x: 3 }));
}

#[test]
fn decodes_loads_and_arithmetic() {
    assert_eq!(OpCode::from_u16(0x6105), Ok(OpCode::LD_vx_byte { x: 1, kk: 0x05 }));
    assert_eq!(OpCode::from_u16(0x77FF), Ok(OpCode::ADD_vx_byte { x: 7, kk: 0xFF }));
    assert_eq!(OpCode::from_u16(0x8120), Ok(OpCode::LD_vx_vy { x: 1, y: 2 }));
    assert_eq!(OpCode::from_u16(0x8341), Ok(OpCode::OR_vx_vy { x: 3, y: 4 }));
    assert_eq!(OpCode::from_u16(0x8562), Ok(OpCode::AND_vx_vy { x: 5, y: 6 }));
    assert_eq!(OpCode::from_u16(0x8783), Ok(OpCode::XOR_vx_vy { x: 7, y: 8 }));
    assert_eq!(OpCode::from_u16(0x89A4), Ok(OpCode::ADD_vx_vy { x: 9, y: 0xA }));
    assert_eq!(OpCode::from_u16(0x8BC5), Ok(OpCode::SUB_vx_vy { x: 0xB, y: 0xC }));
    assert_eq!(OpCode::from_u16(0x8D06), Ok(OpCode::SHR_vx_vy { x: 0xD, y: 0 }));
    assert_eq!(OpCode::from_u16(0x8EF7), Ok(OpCode::SUBN_vx_vy { x: 0xE, y: 0xF }));
    assert_eq!(OpCode::from_u16(0x801E), Ok(OpCode::SHL_vx_vy { x: 0, y: 1 }));
}

#[test]
fn decodes_index_random_draw_and_key_family() {
    assert_eq!(OpCode::from_u16(0xA2F0), Ok(OpCode::LD_I_addr { addr: 0x2F0 }));
    assert_eq!(OpCode::from_u16(0xC47F), Ok(OpCode::RND_vx_byte { x: 4, kk: 0x7F }));
    assert_eq!(OpCode::from_u16(0xD125), Ok(OpCode::DRW_x_y_nibble { x: 1, y: 2, n: 5 }));
    assert_eq!(OpCode::from_u16(0xF107), Ok(OpCode::LD_vx_dt { x: 1 }));
    assert_eq!(OpCode::from_u16(0xF20A), Ok(OpCode::LD_vx_k { x: 2 }));
    assert_eq!(OpCode::from_u16(0xF315), Ok(OpCode::LD_dt_vx { x: 3 }));
    assert_eq!(OpCode::from_u16(0xF418), Ok(OpCode::LD_st_vx { x: 4 }));
    assert_eq!(OpCode::from_u16(0xF51E), Ok(OpCode::ADD_I_vx { x: 5 }));
    assert_eq!(OpCode::from_u16(0xF629), Ok(OpCode::LD_F_vx { x: 6 }));
    assert_eq!(OpCode::from_u16(0xF733), Ok(OpCode::LD_B_vx { x: 7 }));
    assert_eq!(OpCode::from_u16(0xF855), Ok(OpCode::LD_I_vx { x: 8 }));
    assert_eq!(OpCode::from_u16(0xF965), Ok(OpCode::LD_vx_I { x: 9 }));
}

#[test]
fn rejects_unknown_patterns() {
    assert_eq!(OpCode::from_u16(0x0000), Err(Fault::UnknownOpcode));
    assert_eq!(OpCode::from_u16(0x00E1), Err(Fault::UnknownOpcode));
    assert_eq!(OpCode::from_u16(0x0123), Err(Fault::UnknownOpcode));
    assert_eq!(OpCode::from_u16(0x5121), Err(Fault::UnknownOpcode));
    assert_eq!(OpCode::from_u16(0x8128), Err(Fault::UnknownOpcode));
    assert_eq!(OpCode::from_u16(0x812F), Err(Fault::UnknownOpcode));
    assert_eq!(OpCode::from_u16(0x9341), Err(Fault::UnknownOpcode));
    assert_eq!(OpCode::from_u16(0xE200), Err(Fault::UnknownOpcode));
    assert_eq!(OpCode::from_u16(0xE2FF), Err(Fault::UnknownOpcode));
    assert_eq!(OpCode::from_u16(0xF100), Err(Fault::UnknownOpcode));
    assert_eq!(OpCode::from_u16(0xF166), Err(Fault::UnknownOpcode));
}
