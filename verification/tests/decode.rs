use prisma::ir::{AluFlags, BinOp, BinOpKind, Bswap, CallReg, CallRel, CmpFlags, CondCode, CondJumpRel, Constant, Cpuid, Crc32c, Extend, Fence, FenceKind, Gpr, JumpReg, JumpRel, LoadMem, LoadReg, Lzcnt, Op, OpSize, Popcnt, Rdtsc, RetAdjusted, Return, RspAdjust, Select, Stmt, StoreMem, StoreReg, Syscall, Trap, TrapKind, Tzcnt, WriteFlagsCountZero, WriteFlagsPopcnt, Xgetbv};
use prisma::decoder::{decode_one, decode_one_at, DecodeError};

#[test]
fn decode_nop() {
    let d = decode_one(b"\x90", 0).unwrap();
    assert_eq!(d.stmts.len(), 0);
    assert_eq!(d.bytes_consumed, 1);

    let pause = decode_one(b"\xF3\x90", 0).unwrap();
    assert_eq!(pause.bytes_consumed, 2);
    assert!(pause.stmts.is_empty());

    assert_eq!(
        decode_one(b"\xF2\x90", 0),
        Err(DecodeError::UnsupportedOpcode(0x90))
    );
}

#[test]
fn decode_fwait_as_noop() {
    let d = decode_one(b"\x9B", 0).unwrap();
    assert_eq!(d.bytes_consumed, 1);
    assert!(d.stmts.is_empty());

    assert_eq!(
        decode_one(b"\xF3\x9B", 0),
        Err(DecodeError::UnsupportedOpcode(0x9B))
    );
}

#[test]
fn decode_cld_as_forward_string_noop() {
    let d = decode_one(b"\xFC", 0).unwrap();
    assert_eq!(d.bytes_consumed, 1);
    assert!(d.stmts.is_empty());

    assert_eq!(
        decode_one(b"\xF3\xFC", 0),
        Err(DecodeError::UnsupportedOpcode(0xFC))
    );
}

#[test]
fn decode_multibyte_nop_rm() {
    let d = decode_one(b"\x0F\x1F\x00", 0).unwrap();
    assert_eq!(d.bytes_consumed, 3);
    assert!(d.stmts.is_empty());

    let d = decode_one(b"\x0F\x1F\x44\x00\x00", 0).unwrap();
    assert_eq!(d.bytes_consumed, 5);
    assert!(d.stmts.is_empty());

    assert_eq!(
        decode_one(b"\x0F\x1F\xC8", 0),
        Err(DecodeError::UnsupportedOpcode(0x1F))
    );
}

#[test]
fn decode_prefetch_consumes_memory_operand_as_noop() {
    let simple = decode_one(b"\x0F\x18\x08", 0).unwrap();
    assert_eq!(simple.bytes_consumed, 3);
    assert!(simple.stmts.is_empty());

    let sib_disp = decode_one(b"\x0F\x18\x94\x88\x78\x56\x34\x12", 0).unwrap();
    assert_eq!(sib_disp.bytes_consumed, 8);
    assert!(sib_disp.stmts.is_empty());

    assert_eq!(
        decode_one(b"\x0F\x18\x20", 0),
        Err(DecodeError::UnsupportedOpcode(0x18))
    );
    assert_eq!(
        decode_one(b"\x0F\x18\xC0", 0),
        Err(DecodeError::UnsupportedOpcode(0x18))
    );
}

#[test]
fn decode_xgetbv_writes_eax_edx_from_xcr_value() {
    let d = decode_one(b"\x0F\x01\xD0", 0).unwrap();
    assert_eq!(d.bytes_consumed, 3);
    assert_eq!(
        d.stmts,
        vec![
            Stmt::new(Some(0), Op::Xgetbv(Xgetbv)),
            Stmt::new(
                None,
                Op::StoreReg(StoreReg {
                    reg: Gpr::Rax,
                    value: 0,
                    size: OpSize::I32,
                }),
            ),
            Stmt::new(
                Some(2),
                Op::Constant(Constant {
                    value: 32,
                    size: OpSize::I64,
                }),
            ),
            Stmt::new(
                Some(3),
                Op::BinOp(BinOp {
                    op: BinOpKind::Shr,
                    lhs: 0,
                    rhs: 2,
                    size: OpSize::I64,
                }),
            ),
            Stmt::new(
                None,
                Op::StoreReg(StoreReg {
                    reg: Gpr::Rdx,
                    value: 3,
                    size: OpSize::I32,
                }),
            ),
        ]
    );

    assert_eq!(
        decode_one(b"\x0F\x01\xD2", 0),
        Err(DecodeError::UnsupportedOpcode(0x01))
    );
    assert_eq!(
        decode_one(b"\x66\x0F\x01\xD0", 0),
        Err(DecodeError::UnsupportedOpcode(0x01))
    );
}

#[test]
fn decode_syscall_emits_syscall_op() {
    let d = decode_one(b"\x0F\x05", 0).unwrap();
    assert_eq!(d.bytes_consumed, 2);
    assert_eq!(d.stmts, vec![Stmt::new(None, Op::Syscall(Syscall))]);

    assert_eq!(
        decode_one(b"\xF3\x0F\x05", 0),
        Err(DecodeError::UnsupportedOpcode(0x05))
    );
}

#[test]
fn decode_ud2_emits_sigill_trap() {
    let d = decode_one(b"\x0F\x0B", 0).unwrap();
    assert_eq!(d.bytes_consumed, 2);
    assert_eq!(
        d.stmts,
        vec![Stmt::new(
            None,
            Op::Trap(Trap {
                kind: TrapKind::Sigill,
            }),
        )]
    );

    assert_eq!(
        decode_one(b"\xF3\x0F\x0B", 0),
        Err(DecodeError::UnsupportedOpcode(0x0B))
    );
}

#[test]
fn decode_invd_wbinvd_emit_sigill_traps() {
    for bytes in [
        b"\x0F\x08".as_slice(),
        b"\x0F\x09".as_slice(),
        b"\xF3\x0F\x09".as_slice(),
    ] {
        let d = decode_one(bytes, 0).unwrap();
        assert_eq!(d.bytes_consumed, bytes.len());
        assert_eq!(
            d.stmts,
            vec![Stmt::new(
                None,
                Op::Trap(Trap {
                    kind: TrapKind::Sigill,
                }),
            )]
        );
    }

    assert_eq!(
        decode_one(b"\xF3\x0F\x08", 0),
        Err(DecodeError::UnsupportedOpcode(0x08))
    );
}

#[test]
fn decode_int3_and_hlt_emit_traps() {
    let int3 = decode_one(b"\xCC", 0).unwrap();
    assert_eq!(int3.bytes_consumed, 1);
    assert_eq!(
        int3.stmts,
        vec![Stmt::new(
            None,
            Op::Trap(Trap {
                kind: TrapKind::Sigtrap,
            }),
        )]
    );

    let hlt = decode_one(b"\xF4", 0).unwrap();
    assert_eq!(hlt.bytes_consumed, 1);
    assert_eq!(
        hlt.stmts,
        vec![Stmt::new(
            None,
            Op::Trap(Trap {
                kind: TrapKind::Sigill,
            }),
        )]
    );

    assert_eq!(
        decode_one(b"\xF3\xCC", 0),
        Err(DecodeError::UnsupportedOpcode(0xCC))
    );
}

#[test]
fn decode_icebp_emits_sigtrap() {
    let d = decode_one(b"\xF1", 0).unwrap();
    assert_eq!(d.bytes_consumed, 1);
    assert_eq!(
        d.stmts,
        vec![Stmt::new(
            None,
            Op::Trap(Trap {
                kind: TrapKind::Sigtrap,
            }),
        )]
    );

    assert_eq!(
        decode_one(b"\xF3\xF1", 0),
        Err(DecodeError::UnsupportedOpcode(0xF1))
    );
}

#[test]
fn decode_cli_sti_emit_sigill_traps() {
    for bytes in [b"\xFA".as_slice(), b"\xFB".as_slice()] {
        let d = decode_one(bytes, 0).unwrap();
        assert_eq!(d.bytes_consumed, 1);
        assert_eq!(
            d.stmts,
            vec![Stmt::new(
                None,
                Op::Trap(Trap {
                    kind: TrapKind::Sigill,
                }),
            )]
        );
    }

    assert_eq!(
        decode_one(b"\xF3\xFA", 0),
        Err(DecodeError::UnsupportedOpcode(0xFA))
    );
}

#[test]
fn decode_int_imm8_emits_sigtrap_and_consumes_vector() {
    let d = decode_one(b"\xCD\x80", 0).unwrap();
    assert_eq!(d.bytes_consumed, 2);
    assert_eq!(
        d.stmts,
        vec![Stmt::new(
            None,
            Op::Trap(Trap {
                kind: TrapKind::Sigtrap,
            }),
        )]
    );

    assert_eq!(decode_one(b"\xCD", 0), Err(DecodeError::Truncated));
    assert_eq!(
        decode_one(b"\xF3\xCD\x80", 0),
        Err(DecodeError::UnsupportedOpcode(0xCD))
    );
}

#[test]
fn decode_legacy_long_mode_invalids_emit_sigill_traps() {
    for bytes in [
        b"\x06".as_slice(),
        b"\x07".as_slice(),
        b"\x0E".as_slice(),
        b"\x16".as_slice(),
        b"\x17".as_slice(),
        b"\x1E".as_slice(),
        b"\x1F".as_slice(),
        b"\x27".as_slice(),
        b"\x2F".as_slice(),
        b"\x37".as_slice(),
        b"\x3F".as_slice(),
        b"\x60".as_slice(),
        b"\x61".as_slice(),
        b"\x9A".as_slice(),
        b"\xCE".as_slice(),
        b"\xD6".as_slice(),
        b"\xEA".as_slice(),
        b"\xD4\x0A".as_slice(),
        b"\xD5\x0A".as_slice(),
    ] {
        let d = decode_one(bytes, 0).unwrap();
        assert_eq!(d.bytes_consumed, bytes.len());
        assert_eq!(
            d.stmts,
            vec![Stmt::new(
                None,
                Op::Trap(Trap {
                    kind: TrapKind::Sigill,
                }),
            )]
        );
    }

    assert_eq!(decode_one(b"\xD4", 0), Err(DecodeError::Truncated));
    assert_eq!(
        decode_one(b"\x66\x27", 0),
        Err(DecodeError::UnsupportedOpcode(0x27))
    );
    assert_eq!(
        decode_one(b"\xF3\xD5\x0A", 0),
        Err(DecodeError::UnsupportedOpcode(0xD5))
    );
}

#[test]
fn decode_io_instructions_emit_sigill_traps() {
    for bytes in [
        b"\xE4\x20".as_slice(),
        b"\xE5\x20".as_slice(),
        b"\xE6\x20".as_slice(),
        b"\xE7\x20".as_slice(),
    ] {
        let d = decode_one(bytes, 0).unwrap();
        assert_eq!(d.bytes_consumed, 2);
        assert_eq!(
            d.stmts,
            vec![Stmt::new(
                None,
                Op::Trap(Trap {
                    kind: TrapKind::Sigill,
                }),
            )]
        );
    }

    for bytes in [
        b"\xEC".as_slice(),
        b"\xED".as_slice(),
        b"\xEE".as_slice(),
        b"\xEF".as_slice(),
    ] {
        let d = decode_one(bytes, 0).unwrap();
        assert_eq!(d.bytes_consumed, 1);
        assert_eq!(
            d.stmts,
            vec![Stmt::new(
                None,
                Op::Trap(Trap {
                    kind: TrapKind::Sigill,
                }),
            )]
        );
    }

    assert_eq!(decode_one(b"\xE4", 0), Err(DecodeError::Truncated));
    assert_eq!(
        decode_one(b"\xF3\xEC", 0),
        Err(DecodeError::UnsupportedOpcode(0xEC))
    );
}

#[test]
fn decode_cpuid_emits_cpuid_op() {
    let d = decode_one(b"\x0F\xA2", 0).unwrap();
    assert_eq!(d.bytes_consumed, 2);
    assert_eq!(d.stmts, vec![Stmt::new(None, Op::Cpuid(Cpuid))]);

    assert_eq!(
        decode_one(b"\xF3\x0F\xA2", 0),
        Err(DecodeError::UnsupportedOpcode(0xA2))
    );
}

#[test]
fn decode_prefetchw_consumes_memory_operand_as_noop() {
    let simple = decode_one(b"\x0F\x0D\x08", 0).unwrap();
    assert_eq!(simple.bytes_consumed, 3);
    assert!(simple.stmts.is_empty());

    let sib_disp = decode_one(b"\x0F\x0D\x84\x88\x78\x56\x34\x12", 0).unwrap();
    assert_eq!(sib_disp.bytes_consumed, 8);
    assert!(sib_disp.stmts.is_empty());

    assert_eq!(
        decode_one(b"\x0F\x0D\x10", 0),
        Err(DecodeError::UnsupportedOpcode(0x0D))
    );
    assert_eq!(
        decode_one(b"\x0F\x0D\xC8", 0),
        Err(DecodeError::UnsupportedOpcode(0x0D))
    );
}

#[test]
fn decode_emms_and_femms_as_noops() {
    let emms = decode_one(b"\x0F\x77", 0).unwrap();
    assert_eq!(emms.bytes_consumed, 2);
    assert!(emms.stmts.is_empty());

    let femms = decode_one(b"\x0F\x0E", 0).unwrap();
    assert_eq!(femms.bytes_consumed, 2);
    assert!(femms.stmts.is_empty());

    assert_eq!(
        decode_one(b"\x66\x0F\x77", 0),
        Err(DecodeError::UnsupportedOpcode(0x77))
    );
    assert_eq!(
        decode_one(b"\xF3\x0F\x0E", 0),
        Err(DecodeError::UnsupportedOpcode(0x0E))
    );
}

#[test]
fn decode_endbr_instructions_as_noops() {
    let endbr64 = decode_one(b"\xF3\x0F\x1E\xFA", 0).unwrap();
    assert_eq!(endbr64.bytes_consumed, 4);
    assert!(endbr64.stmts.is_empty());

    let endbr32 = decode_one(b"\xF3\x0F\x1E\xFB", 0).unwrap();
    assert_eq!(endbr32.bytes_consumed, 4);
    assert!(endbr32.stmts.is_empty());

    assert_eq!(
        decode_one(b"\x0F\x1E\xFA", 0),
        Err(DecodeError::UnsupportedOpcode(0x1E))
    );
    assert_eq!(
        decode_one(b"\xF3\x0F\x1E\xFC", 0),
        Err(DecodeError::UnsupportedOpcode(0x1E))
    );
    assert_eq!(
        decode_one(b"\xF3\x0F\x1E", 0),
        Err(DecodeError::Truncated)
    );
}

#[test]
fn decode_fence_instructions_emit_fence_ops() {
    for (bytes, kind) in [
        (b"\x0F\xAE\xE8".as_slice(), FenceKind::Lfence),
        (b"\x0F\xAE\xF0".as_slice(), FenceKind::Mfence),
        (b"\x0F\xAE\xF8".as_slice(), FenceKind::Sfence),
    ] {
        let d = decode_one(bytes, 0).unwrap();
        assert_eq!(d.bytes_consumed, 3);
        assert_eq!(d.stmts, vec![Stmt::new(None, Op::Fence(Fence { kind }))]);
    }

    assert_eq!(
        decode_one(b"\x0F\xAE\xE9", 0),
        Err(DecodeError::UnsupportedOpcode(0xAE))
    );
    assert_eq!(
        decode_one(b"\x0F\xAE\x20", 0),
        Err(DecodeError::UnsupportedOpcode(0xAE))
    );
}

#[test]
fn decode_rdtsc_writes_eax_edx_from_counter() {
    let d = decode_one(b"\x0F\x31", 0).unwrap();
    assert_eq!(d.bytes_consumed, 2);
    assert_eq!(
        d.stmts,
        vec![
            Stmt::new(Some(0), Op::Rdtsc(Rdtsc)),
            Stmt::new(
                None,
                Op::StoreReg(StoreReg {
                    reg: Gpr::Rax,
                    value: 0,
                    size: OpSize::I32,
                }),
            ),
            Stmt::new(
                Some(2),
                Op::Constant(Constant {
                    value: 32,
                    size: OpSize::I64,
                }),
            ),
            Stmt::new(
                Some(3),
                Op::BinOp(BinOp {
                    op: BinOpKind::Shr,
                    lhs: 0,
                    rhs: 2,
                    size: OpSize::I64,
                }),
            ),
            Stmt::new(
                None,
                Op::StoreReg(StoreReg {
                    reg: Gpr::Rdx,
                    value: 3,
                    size: OpSize::I32,
                }),
            ),
        ]
    );

    assert_eq!(
        decode_one(b"\xF3\x0F\x31", 0),
        Err(DecodeError::UnsupportedOpcode(0x31))
    );
}

#[test]
fn decode_clflush_consumes_memory_operand_as_noop() {
    let simple = decode_one(b"\x0F\xAE\x38", 0).unwrap();
    assert_eq!(simple.bytes_consumed, 3);
    assert!(simple.stmts.is_empty());

    let sib_disp = decode_one(b"\x0F\xAE\xBC\x88\x78\x56\x34\x12", 0).unwrap();
    assert_eq!(sib_disp.bytes_consumed, 8);
    assert!(sib_disp.stmts.is_empty());

    let clwb = decode_one(b"\x66\x0F\xAE\x30", 0).unwrap();
    assert_eq!(clwb.bytes_consumed, 4);
    assert!(clwb.stmts.is_empty());

    let clflushopt = decode_one(b"\x66\x0F\xAE\x38", 0).unwrap();
    assert_eq!(clflushopt.bytes_consumed, 4);
    assert!(clflushopt.stmts.is_empty());

    assert_eq!(
        decode_one(b"\x0F\xAE\x30", 0),
        Err(DecodeError::UnsupportedOpcode(0xAE))
    );
    assert_eq!(
        decode_one(b"\xF3\x0F\xAE\x38", 0),
        Err(DecodeError::UnsupportedOpcode(0xAE))
    );
}

#[test]
fn decode_mov_ri_rax() {
    // mov rax, 0x42 (48 B8 42 00 00 00 00 00 00 00)
    let d = decode_one(b"\x48\xB8\x42\x00\x00\x00\x00\x00\x00\x00", 0).unwrap();
    assert_eq!(d.bytes_consumed, 10);
    assert_eq!(
        d.stmts,
        vec![
            Stmt::new(
                Some(0),
                Op::Constant(Constant {
                    value: 0x42,
                    size: OpSize::I64,
                }),
            ),
            Stmt::new(
                None,
                Op::StoreReg(StoreReg {
                    reg: Gpr::Rax,
                    value: 0,
                    size: OpSize::I64,
                }),
            ),
        ]
    );
}

#[test]
fn decode_mov_r8_i8() {
    let d = decode_one(b"\xB1\x7F", 0).unwrap();
    assert_eq!(d.bytes_consumed, 2);
    assert_eq!(
        d.stmts,
        vec![
            Stmt::new(
                Some(0),
                Op::Constant(Constant {
                    value: 0x7F,
                    size: OpSize::I8,
                }),
            ),
            Stmt::new(
                None,
                Op::StoreReg(StoreReg {
                    reg: Gpr::Rcx,
                    value: 0,
                    size: OpSize::I8,
                }),
            ),
        ]
    );

    let d = decode_one(b"\x41\xB1\x80", 0).unwrap();
    assert_eq!(d.bytes_consumed, 3);
    assert!(matches!(
        d.stmts.last().unwrap().op,
        Op::StoreReg(StoreReg {
            reg: Gpr::R9,
            size: OpSize::I8,
            ..
        })
    ));
}

#[test]
fn decode_mov_ri_operand_override_uses_imm16() {
    let d = decode_one(b"\x66\xB8\x34\x12", 0).unwrap();
    assert_eq!(d.bytes_consumed, 4);
    assert_eq!(
        d.stmts,
        vec![
            Stmt::new(
                Some(0),
                Op::Constant(Constant {
                    value: 0x1234,
                    size: OpSize::I16,
                }),
            ),
            Stmt::new(
                None,
                Op::StoreReg(StoreReg {
                    reg: Gpr::Rax,
                    value: 0,
                    size: OpSize::I16,
                }),
            ),
        ]
    );
}

#[test]
fn decode_mov_ri_rex_b_extends_opcode_register() {
    let d = decode_one(b"\x49\xB8\x78\x56\x34\x12\x00\x00\x00\x00", 0).unwrap();
    assert_eq!(d.bytes_consumed, 10);
    assert_eq!(
        d.stmts[1],
        Stmt::new(
            None,
            Op::StoreReg(StoreReg {
                reg: Gpr::R8,
                value: 0,
                size: OpSize::I64,
            }),
        )
    );
}

#[test]
fn decode_mov_ri_imm64_covers_all_sixteen_registers() {
    // B8+rd with REX.W (and REX.B for the high eight) must reach every GPR.
    const REGS: [Gpr; 16] = [
        Gpr::Rax,
        Gpr::Rcx,
        Gpr::Rdx,
        Gpr::Rbx,
        Gpr::Rsp,
        Gpr::Rbp,
        Gpr::Rsi,
        Gpr::Rdi,
        Gpr::R8,
        Gpr::R9,
        Gpr::R10,
        Gpr::R11,
        Gpr::R12,
        Gpr::R13,
        Gpr::R14,
        Gpr::R15,
    ];
    for (idx, expected) in REGS.into_iter().enumerate() {
        // REX prefix: 0x48 (W) for low 8, 0x49 (W|B) for high 8.
        let rex = if idx < 8 { 0x48u8 } else { 0x49u8 };
        let opcode = 0xB8u8 + (idx as u8 & 0x7);
        let bytes = [rex, opcode, 0x42, 0, 0, 0, 0, 0, 0, 0];
        let d = decode_one(&bytes, 0).unwrap();
        assert_eq!(d.bytes_consumed, 10, "reg idx {idx}");
        assert_eq!(
            d.stmts.last().unwrap().op,
            Op::StoreReg(StoreReg {
                reg: expected,
                value: 0,
                size: OpSize::I64,
            }),
            "reg idx {idx}",
        );
    }
}

#[test]
fn decode_mov_ri_imm32_without_rex_w_uses_i32_store() {
    // B8+rd, no REX.W, no 0x66 => MOV r32, imm32 (zero-extends to 64).
    let d = decode_one(b"\xB8\xEF\xBE\xAD\xDE", 0).unwrap();
    assert_eq!(d.bytes_consumed, 5);
    assert_eq!(
        d.stmts,
        vec![
            Stmt::new(
                Some(0),
                Op::Constant(Constant {
                    value: 0xDEAD_BEEF,
                    size: OpSize::I32,
                }),
            ),
            Stmt::new(
                None,
                Op::StoreReg(StoreReg {
                    reg: Gpr::Rax,
                    value: 0,
                    size: OpSize::I32,
                }),
            ),
        ]
    );

    // REX.B selects r13d; still an I32 store.
    let d = decode_one(b"\x41\xBD\x01\x00\x00\x00", 0).unwrap();
    assert_eq!(d.bytes_consumed, 6);
    assert_eq!(
        d.stmts.last().unwrap().op,
        Op::StoreReg(StoreReg {
            reg: Gpr::R13,
            value: 0,
            size: OpSize::I32,
        }),
    );
}

#[test]
fn decode_mov_rm32_imm32_register_form() {
    // C7 /0 without REX.W => MOV r/m32, imm32 (no sign-extension to 64).
    let d = decode_one(b"\xC7\xC1\x78\x56\x34\x12", 0).unwrap();
    assert_eq!(d.bytes_consumed, 6);
    assert_eq!(
        d.stmts,
        vec![
            Stmt::new(
                Some(0),
                Op::Constant(Constant {
                    value: 0x1234_5678,
                    size: OpSize::I32,
                }),
            ),
            Stmt::new(
                None,
                Op::StoreReg(StoreReg {
                    reg: Gpr::Rcx,
                    value: 0,
                    size: OpSize::I32,
                }),
            ),
        ]
    );
}

#[test]
fn decode_mov_rm_imm_register_sign_extends_i64_imm32() {
    let d = decode_one(b"\x48\xC7\xC0\xFF\xFF\xFF\xFF", 0).unwrap();
    assert_eq!(d.bytes_consumed, 7);
    assert_eq!(
        d.stmts,
        vec![
            Stmt::new(
                Some(0),
                Op::Constant(Constant {
                    value: u64::MAX,
                    size: OpSize::I64,
                }),
            ),
            Stmt::new(
                None,
                Op::StoreReg(StoreReg {
                    reg: Gpr::Rax,
                    value: 0,
                    size: OpSize::I64,
                }),
            ),
        ]
    );
}

#[test]
fn decode_mov_rm_imm_memory_byte_form() {
    let d = decode_one(b"\xC6\x00\x7F", 0).unwrap();
    assert_eq!(d.bytes_consumed, 3);
    assert!(d.stmts.iter().any(|stmt| matches!(
        stmt.op,
        Op::Constant(Constant {
            value: 0x7F,
            size: OpSize::I8
        })
    )));
    assert!(matches!(
        d.stmts.last().unwrap().op,
        Op::StoreMem(StoreMem {
            size: OpSize::I8,
            ..
        })
    ));
}

#[test]
fn decode_mov_rm_imm_rejects_nonzero_group_subop() {
    let r = decode_one(b"\xC7\xC8\x01\x00\x00\x00", 0);
    assert_eq!(r.unwrap_err(), DecodeError::UnsupportedOpcode(0xC7));
}

#[test]
fn decode_accumulator_add_immediate_stores_result() {
    let d = decode_one(b"\x48\x05\x34\x12\x00\x00", 0).unwrap();
    assert_eq!(d.bytes_consumed, 6);
    assert_eq!(
        d.stmts,
        vec![
            Stmt::new(
                Some(0),
                Op::LoadReg(LoadReg {
                    reg: Gpr::Rax,
                    size: OpSize::I64,
                }),
            ),
            Stmt::new(
                Some(1),
                Op::Constant(Constant {
                    value: 0x1234,
                    size: OpSize::I64,
                }),
            ),
            Stmt::new(
                Some(2),
                Op::BinOp(BinOp {
                    op: BinOpKind::Add,
                    lhs: 0,
                    rhs: 1,
                    size: OpSize::I64,
                }),
            ),
            Stmt::new(
                None,
                Op::StoreReg(StoreReg {
                    reg: Gpr::Rax,
                    value: 2,
                    size: OpSize::I64,
                }),
            ),
        ]
    );
}

#[test]
fn decode_accumulator_cmp_immediate_sets_flags_only() {
    let d = decode_one(b"\x3D\x78\x56\x34\x12", 0).unwrap();
    assert_eq!(d.bytes_consumed, 5);
    assert_eq!(
        d.stmts,
        vec![
            Stmt::new(
                Some(0),
                Op::LoadReg(LoadReg {
                    reg: Gpr::Rax,
                    size: OpSize::I32,
                }),
            ),
            Stmt::new(
                Some(1),
                Op::Constant(Constant {
                    value: 0x1234_5678,
                    size: OpSize::I32,
                }),
            ),
            Stmt::new(
                Some(2),
                Op::CmpFlags(CmpFlags {
                    lhs: 0,
                    rhs: 1,
                    size: OpSize::I32,
                }),
            ),
        ]
    );
}

#[test]
fn decode_accumulator_test_immediate_sets_alu_flags() {
    let d = decode_one(b"\xA8\x80", 0).unwrap();
    assert_eq!(d.bytes_consumed, 2);
    assert_eq!(
        d.stmts,
        vec![
            Stmt::new(
                Some(0),
                Op::LoadReg(LoadReg {
                    reg: Gpr::Rax,
                    size: OpSize::I8,
                }),
            ),
            Stmt::new(
                Some(1),
                Op::Constant(Constant {
                    value: 0x80,
                    size: OpSize::I8,
                }),
            ),
            Stmt::new(
                None,
                Op::AluFlags(AluFlags {
                    op: BinOpKind::And,
                    lhs: 0,
                    rhs: 1,
                    size: OpSize::I8,
                }),
            ),
        ]
    );
}

#[test]
fn decode_mov_rm_r_reg() {
    // mov rax, rcx (48 89 C8)
    let d = decode_one(b"\x48\x89\xC8", 0).unwrap();
    assert_eq!(d.bytes_consumed, 3);
    assert_eq!(
        d.stmts,
        vec![
            Stmt::new(
                Some(0),
                Op::LoadReg(LoadReg {
                    reg: Gpr::Rcx,
                    size: OpSize::I64,
                }),
            ),
            Stmt::new(
                None,
                Op::StoreReg(StoreReg {
                    reg: Gpr::Rax,
                    value: 0,
                    size: OpSize::I64,
                }),
            ),
        ]
    );
}

#[test]
fn decode_mov_rm8_r8_reg() {
    let d = decode_one(b"\x88\xC8", 0).unwrap();
    assert_eq!(d.bytes_consumed, 2);
    assert_eq!(
        d.stmts,
        vec![
            Stmt::new(
                Some(0),
                Op::LoadReg(LoadReg {
                    reg: Gpr::Rcx,
                    size: OpSize::I8,
                }),
            ),
            Stmt::new(
                None,
                Op::StoreReg(StoreReg {
                    reg: Gpr::Rax,
                    value: 0,
                    size: OpSize::I8,
                }),
            ),
        ]
    );
}

#[test]
fn decode_mov_moffs_to_acc_and_acc_to_moffs() {
    let load = decode_one(b"\x48\xA1\x78\x56\x34\x12\x00\x00\x00\x00", 0).unwrap();
    assert_eq!(load.bytes_consumed, 10);
    assert_eq!(
        load.stmts,
        vec![
            Stmt::new(
                Some(0),
                Op::Constant(Constant {
                    value: 0x1234_5678,
                    size: OpSize::I64,
                }),
            ),
            Stmt::new(
                Some(1),
                Op::LoadMem(LoadMem {
                    addr: 0,
                    size: OpSize::I64,
                }),
            ),
            Stmt::new(
                None,
                Op::StoreReg(StoreReg {
                    reg: Gpr::Rax,
                    value: 1,
                    size: OpSize::I64,
                }),
            ),
        ]
    );

    let store = decode_one(b"\x67\xA2\x78\x56\x34\x12", 0).unwrap();
    assert_eq!(store.bytes_consumed, 6);
    assert_eq!(
        store.stmts[0],
        Stmt::new(
            Some(0),
            Op::Constant(Constant {
                value: 0x1234_5678,
                size: OpSize::I64,
            }),
        )
    );
    assert!(matches!(
        store.stmts.last().unwrap().op,
        Op::StoreMem(StoreMem {
            addr: 0,
            value: 1,
            size: OpSize::I8,
        })
    ));
}

#[test]
fn decode_xchg_accumulator_opcode() {
    let d = decode_one(b"\x48\x91", 0).unwrap();
    assert_eq!(d.bytes_consumed, 2);
    assert_eq!(
        d.stmts,
        vec![
            Stmt::new(
                Some(0),
                Op::LoadReg(LoadReg {
                    reg: Gpr::Rax,
                    size: OpSize::I64,
                }),
            ),
            Stmt::new(
                Some(1),
                Op::LoadReg(LoadReg {
                    reg: Gpr::Rcx,
                    size: OpSize::I64,
                }),
            ),
            Stmt::new(
                None,
                Op::StoreReg(StoreReg {
                    reg: Gpr::Rax,
                    value: 1,
                    size: OpSize::I64,
                }),
            ),
            Stmt::new(
                None,
                Op::StoreReg(StoreReg {
                    reg: Gpr::Rcx,
                    value: 0,
                    size: OpSize::I64,
                }),
            ),
        ]
    );

    let d = decode_one(b"\x41\x91", 0).unwrap();
    assert!(matches!(
        d.stmts[1].op,
        Op::LoadReg(LoadReg { reg: Gpr::R9, .. })
    ));
}

#[test]
fn decode_xchg_byte_register_form() {
    let d = decode_one(b"\x86\xC8", 0).unwrap();
    assert_eq!(d.bytes_consumed, 2);
    assert_eq!(
        d.stmts,
        vec![
            Stmt::new(
                Some(0),
                Op::LoadReg(LoadReg {
                    reg: Gpr::Rcx,
                    size: OpSize::I8,
                }),
            ),
            Stmt::new(
                Some(1),
                Op::LoadReg(LoadReg {
                    reg: Gpr::Rax,
                    size: OpSize::I8,
                }),
            ),
            Stmt::new(
                None,
                Op::StoreReg(StoreReg {
                    reg: Gpr::Rcx,
                    value: 1,
                    size: OpSize::I8,
                }),
            ),
            Stmt::new(
                None,
                Op::StoreReg(StoreReg {
                    reg: Gpr::Rax,
                    value: 0,
                    size: OpSize::I8,
                }),
            ),
        ]
    );
}

#[test]
fn decode_xchg_memory_form() {
    let d = decode_one(b"\x48\x87\x08", 0).unwrap();
    assert_eq!(d.bytes_consumed, 3);
    assert!(matches!(
        d.stmts.last().unwrap().op,
        Op::StoreMem(StoreMem {
            addr: 1,
            value: 0,
            size: OpSize::I64,
        })
    ));
}

#[test]
fn decode_xlat_loads_byte_from_rbx_plus_al_into_al() {
    let d = decode_one(b"\xD7", 0).unwrap();
    assert_eq!(d.bytes_consumed, 1);
    assert_eq!(
        d.stmts,
        vec![
            Stmt::new(
                Some(0),
                Op::LoadReg(LoadReg {
                    reg: Gpr::Rax,
                    size: OpSize::I8,
                }),
            ),
            Stmt::new(
                Some(1),
                Op::Extend(Extend {
                    value: 0,
                    from_size: OpSize::I8,
                    to_size: OpSize::I64,
                    is_signed: false,
                }),
            ),
            Stmt::new(
                Some(2),
                Op::LoadReg(LoadReg {
                    reg: Gpr::Rbx,
                    size: OpSize::I64,
                }),
            ),
            Stmt::new(
                Some(3),
                Op::BinOp(BinOp {
                    op: BinOpKind::Add,
                    lhs: 2,
                    rhs: 1,
                    size: OpSize::I64,
                }),
            ),
            Stmt::new(
                Some(4),
                Op::LoadMem(LoadMem {
                    addr: 3,
                    size: OpSize::I8,
                }),
            ),
            Stmt::new(
                None,
                Op::StoreReg(StoreReg {
                    reg: Gpr::Rax,
                    value: 4,
                    size: OpSize::I8,
                }),
            ),
        ]
    );
}

#[test]
fn decode_fnop_as_noop() {
    let d = decode_one(b"\xD9\xD0", 0).unwrap();
    assert_eq!(d.bytes_consumed, 2);
    assert!(d.stmts.is_empty());

    assert_eq!(decode_one(b"\xD9", 0), Err(DecodeError::Truncated));
    assert_eq!(
        decode_one(b"\xD9\xD1", 0),
        Err(DecodeError::UnsupportedOpcode(0xD9))
    );
    assert_eq!(
        decode_one(b"\x66\xD9\xD0", 0),
        Err(DecodeError::UnsupportedOpcode(0xD9))
    );
}

#[test]
fn decode_fnclex_and_fninit_as_noops() {
    let fnclex = decode_one(b"\xDB\xE2", 0).unwrap();
    assert_eq!(fnclex.bytes_consumed, 2);
    assert!(fnclex.stmts.is_empty());

    let fninit = decode_one(b"\xDB\xE3", 0).unwrap();
    assert_eq!(fninit.bytes_consumed, 2);
    assert!(fninit.stmts.is_empty());

    assert_eq!(decode_one(b"\xDB", 0), Err(DecodeError::Truncated));
    assert_eq!(
        decode_one(b"\xDB\xE4", 0),
        Err(DecodeError::UnsupportedOpcode(0xDB))
    );
    assert_eq!(
        decode_one(b"\x66\xDB\xE3", 0),
        Err(DecodeError::UnsupportedOpcode(0xDB))
    );
}

#[test]
fn decode_lodsb_loads_byte_from_rsi_and_advances_rsi() {
    let d = decode_one(b"\xAC", 0).unwrap();
    assert_eq!(d.bytes_consumed, 1);
    assert_eq!(
        d.stmts,
        vec![
            Stmt::new(
                Some(0),
                Op::LoadReg(LoadReg {
                    reg: Gpr::Rsi,
                    size: OpSize::I64,
                }),
            ),
            Stmt::new(
                Some(1),
                Op::LoadMem(LoadMem {
                    addr: 0,
                    size: OpSize::I8,
                }),
            ),
            Stmt::new(
                None,
                Op::StoreReg(StoreReg {
                    reg: Gpr::Rax,
                    value: 1,
                    size: OpSize::I8,
                }),
            ),
            Stmt::new(
                Some(3),
                Op::Constant(Constant {
                    value: 1,
                    size: OpSize::I64,
                }),
            ),
            Stmt::new(
                Some(4),
                Op::BinOp(BinOp {
                    op: BinOpKind::Add,
                    lhs: 0,
                    rhs: 3,
                    size: OpSize::I64,
                }),
            ),
            Stmt::new(
                None,
                Op::StoreReg(StoreReg {
                    reg: Gpr::Rsi,
                    value: 4,
                    size: OpSize::I64,
                }),
            ),
        ]
    );
}

#[test]
fn decode_stosb_stores_al_to_rdi_and_advances_rdi() {
    let d = decode_one(b"\xAA", 0).unwrap();
    assert_eq!(d.bytes_consumed, 1);
    assert_eq!(
        d.stmts,
        vec![
            Stmt::new(
                Some(0),
                Op::LoadReg(LoadReg {
                    reg: Gpr::Rdi,
                    size: OpSize::I64,
                }),
            ),
            Stmt::new(
                Some(1),
                Op::LoadReg(LoadReg {
                    reg: Gpr::Rax,
                    size: OpSize::I8,
                }),
            ),
            Stmt::new(
                None,
                Op::StoreMem(StoreMem {
                    addr: 0,
                    value: 1,
                    size: OpSize::I8,
                }),
            ),
            Stmt::new(
                Some(3),
                Op::Constant(Constant {
                    value: 1,
                    size: OpSize::I64,
                }),
            ),
            Stmt::new(
                Some(4),
                Op::BinOp(BinOp {
                    op: BinOpKind::Add,
                    lhs: 0,
                    rhs: 3,
                    size: OpSize::I64,
                }),
            ),
            Stmt::new(
                None,
                Op::StoreReg(StoreReg {
                    reg: Gpr::Rdi,
                    value: 4,
                    size: OpSize::I64,
                }),
            ),
        ]
    );
}

#[test]
fn decode_scasb_compares_al_with_rdi_byte_and_advances_rdi() {
    let d = decode_one(b"\xAE", 0).unwrap();
    assert_eq!(d.bytes_consumed, 1);
    assert_eq!(
        d.stmts,
        vec![
            Stmt::new(
                Some(0),
                Op::LoadReg(LoadReg {
                    reg: Gpr::Rdi,
                    size: OpSize::I64,
                }),
            ),
            Stmt::new(
                Some(1),
                Op::LoadReg(LoadReg {
                    reg: Gpr::Rax,
                    size: OpSize::I8,
                }),
            ),
            Stmt::new(
                Some(2),
                Op::LoadMem(LoadMem {
                    addr: 0,
                    size: OpSize::I8,
                }),
            ),
            Stmt::new(
                Some(3),
                Op::CmpFlags(CmpFlags {
                    lhs: 1,
                    rhs: 2,
                    size: OpSize::I8,
                }),
            ),
            Stmt::new(
                Some(4),
                Op::Constant(Constant {
                    value: 1,
                    size: OpSize::I64,
                }),
            ),
            Stmt::new(
                Some(5),
                Op::BinOp(BinOp {
                    op: BinOpKind::Add,
                    lhs: 0,
                    rhs: 4,
                    size: OpSize::I64,
                }),
            ),
            Stmt::new(
                None,
                Op::StoreReg(StoreReg {
                    reg: Gpr::Rdi,
                    value: 5,
                    size: OpSize::I64,
                }),
            ),
        ]
    );
}

#[test]
fn decode_cmpsb_compares_rsi_byte_with_rdi_byte_and_advances_both() {
    let d = decode_one(b"\xA6", 0).unwrap();
    assert_eq!(d.bytes_consumed, 1);
    assert_eq!(
        d.stmts,
        vec![
            Stmt::new(
                Some(0),
                Op::LoadReg(LoadReg {
                    reg: Gpr::Rsi,
                    size: OpSize::I64,
                }),
            ),
            Stmt::new(
                Some(1),
                Op::LoadReg(LoadReg {
                    reg: Gpr::Rdi,
                    size: OpSize::I64,
                }),
            ),
            Stmt::new(
                Some(2),
                Op::LoadMem(LoadMem {
                    addr: 0,
                    size: OpSize::I8,
                }),
            ),
            Stmt::new(
                Some(3),
                Op::LoadMem(LoadMem {
                    addr: 1,
                    size: OpSize::I8,
                }),
            ),
            Stmt::new(
                Some(4),
                Op::CmpFlags(CmpFlags {
                    lhs: 2,
                    rhs: 3,
                    size: OpSize::I8,
                }),
            ),
            Stmt::new(
                Some(5),
                Op::Constant(Constant {
                    value: 1,
                    size: OpSize::I64,
                }),
            ),
            Stmt::new(
                Some(6),
                Op::BinOp(BinOp {
                    op: BinOpKind::Add,
                    lhs: 0,
                    rhs: 5,
                    size: OpSize::I64,
                }),
            ),
            Stmt::new(
                None,
                Op::StoreReg(StoreReg {
                    reg: Gpr::Rsi,
                    value: 6,
                    size: OpSize::I64,
                }),
            ),
            Stmt::new(
                Some(8),
                Op::BinOp(BinOp {
                    op: BinOpKind::Add,
                    lhs: 1,
                    rhs: 5,
                    size: OpSize::I64,
                }),
            ),
            Stmt::new(
                None,
                Op::StoreReg(StoreReg {
                    reg: Gpr::Rdi,
                    value: 8,
                    size: OpSize::I64,
                }),
            ),
        ]
    );
}

#[test]
fn decode_movsb_copies_rsi_byte_to_rdi_byte_and_advances_both() {
    let d = decode_one(b"\xA4", 0).unwrap();
    assert_eq!(d.bytes_consumed, 1);
    assert_eq!(
        d.stmts,
        vec![
            Stmt::new(
                Some(0),
                Op::LoadReg(LoadReg {
                    reg: Gpr::Rsi,
                    size: OpSize::I64,
                }),
            ),
            Stmt::new(
                Some(1),
                Op::LoadReg(LoadReg {
                    reg: Gpr::Rdi,
                    size: OpSize::I64,
                }),
            ),
            Stmt::new(
                Some(2),
                Op::LoadMem(LoadMem {
                    addr: 0,
                    size: OpSize::I8,
                }),
            ),
            Stmt::new(
                None,
                Op::StoreMem(StoreMem {
                    addr: 1,
                    value: 2,
                    size: OpSize::I8,
                }),
            ),
            Stmt::new(
                Some(4),
                Op::Constant(Constant {
                    value: 1,
                    size: OpSize::I64,
                }),
            ),
            Stmt::new(
                Some(5),
                Op::BinOp(BinOp {
                    op: BinOpKind::Add,
                    lhs: 0,
                    rhs: 4,
                    size: OpSize::I64,
                }),
            ),
            Stmt::new(
                None,
                Op::StoreReg(StoreReg {
                    reg: Gpr::Rsi,
                    value: 5,
                    size: OpSize::I64,
                }),
            ),
            Stmt::new(
                Some(7),
                Op::BinOp(BinOp {
                    op: BinOpKind::Add,
                    lhs: 1,
                    rhs: 4,
                    size: OpSize::I64,
                }),
            ),
            Stmt::new(
                None,
                Op::StoreReg(StoreReg {
                    reg: Gpr::Rdi,
                    value: 7,
                    size: OpSize::I64,
                }),
            ),
        ]
    );
}

#[test]
fn decode_string_full_width_forms_use_operand_size_and_step() {
    let movsq = decode_one(b"\x48\xA5", 0).unwrap();
    assert_eq!(movsq.bytes_consumed, 2);
    assert!(matches!(
        movsq.stmts[2].op,
        Op::LoadMem(LoadMem {
            size: OpSize::I64,
            ..
        })
    ));
    assert!(matches!(
        movsq.stmts[4].op,
        Op::Constant(Constant {
            value: 8,
            size: OpSize::I64,
        })
    ));

    let lodsw = decode_one(b"\x66\xAD", 0).unwrap();
    assert_eq!(lodsw.bytes_consumed, 2);
    assert!(matches!(
        lodsw.stmts[1].op,
        Op::LoadMem(LoadMem {
            size: OpSize::I16,
            ..
        })
    ));
    assert!(matches!(
        lodsw.stmts[3].op,
        Op::Constant(Constant {
            value: 2,
            size: OpSize::I64,
        })
    ));

    let stosq = decode_one(b"\x48\xAB", 0).unwrap();
    assert_eq!(stosq.bytes_consumed, 2);
    assert!(matches!(
        stosq.stmts[2].op,
        Op::StoreMem(StoreMem {
            size: OpSize::I64,
            ..
        })
    ));

    let scasw = decode_one(b"\x66\xAF", 0).unwrap();
    assert_eq!(scasw.bytes_consumed, 2);
    assert!(matches!(
        scasw.stmts[3].op,
        Op::CmpFlags(CmpFlags {
            size: OpSize::I16,
            ..
        })
    ));

    let cmpsd = decode_one(b"\xA7", 0).unwrap();
    assert_eq!(cmpsd.bytes_consumed, 1);
    assert!(matches!(
        cmpsd.stmts[4].op,
        Op::CmpFlags(CmpFlags {
            size: OpSize::I32,
            ..
        })
    ));
}

#[test]
fn decode_sign_extend_accumulator_opcode() {
    let cdqe = decode_one(b"\x48\x98", 0).unwrap();
    assert_eq!(cdqe.bytes_consumed, 2);
    assert_eq!(
        cdqe.stmts,
        vec![
            Stmt::new(
                Some(0),
                Op::LoadReg(LoadReg {
                    reg: Gpr::Rax,
                    size: OpSize::I32,
                }),
            ),
            Stmt::new(
                Some(1),
                Op::Extend(Extend {
                    value: 0,
                    from_size: OpSize::I32,
                    to_size: OpSize::I64,
                    is_signed: true,
                }),
            ),
            Stmt::new(
                None,
                Op::StoreReg(StoreReg {
                    reg: Gpr::Rax,
                    value: 1,
                    size: OpSize::I64,
                }),
            ),
        ]
    );

    let cwde = decode_one(b"\x98", 0).unwrap();
    assert!(matches!(
        cwde.stmts[1].op,
        Op::Extend(Extend {
            from_size: OpSize::I16,
            to_size: OpSize::I32,
            ..
        })
    ));

    let cbw = decode_one(b"\x66\x98", 0).unwrap();
    assert!(matches!(
        cbw.stmts[1].op,
        Op::Extend(Extend {
            from_size: OpSize::I8,
            to_size: OpSize::I16,
            ..
        })
    ));
}

#[test]
fn decode_sign_extend_accumulator_to_dx_opcode() {
    let cqo = decode_one(b"\x48\x99", 0).unwrap();
    assert_eq!(cqo.bytes_consumed, 2);
    assert_eq!(
        cqo.stmts,
        vec![
            Stmt::new(
                Some(0),
                Op::LoadReg(LoadReg {
                    reg: Gpr::Rax,
                    size: OpSize::I64,
                }),
            ),
            Stmt::new(
                Some(1),
                Op::Constant(Constant {
                    value: 63,
                    size: OpSize::I64,
                }),
            ),
            Stmt::new(
                Some(2),
                Op::BinOp(BinOp {
                    op: BinOpKind::Sar,
                    lhs: 0,
                    rhs: 1,
                    size: OpSize::I64,
                }),
            ),
            Stmt::new(
                None,
                Op::StoreReg(StoreReg {
                    reg: Gpr::Rdx,
                    value: 2,
                    size: OpSize::I64,
                }),
            ),
        ]
    );

    let cdq = decode_one(b"\x99", 0).unwrap();
    assert!(matches!(
        cdq.stmts[2].op,
        Op::BinOp(BinOp {
            op: BinOpKind::Sar,
            size: OpSize::I32,
            ..
        })
    ));

    let cwd = decode_one(b"\x66\x99", 0).unwrap();
    assert!(matches!(
        cwd.stmts[2].op,
        Op::BinOp(BinOp {
            op: BinOpKind::Sar,
            size: OpSize::I16,
            ..
        })
    ));
}

#[test]
fn decode_mov_r_rm_reg_honors_rex_extensions() {
    // mov r9, r8 (4D 8B C8): REX.W + REX.R extends reg, REX.B extends r/m.
    let d = decode_one(b"\x4D\x8B\xC8", 0).unwrap();
    assert_eq!(d.bytes_consumed, 3);
    assert_eq!(
        d.stmts,
        vec![
            Stmt::new(
                Some(0),
                Op::LoadReg(LoadReg {
                    reg: Gpr::R8,
                    size: OpSize::I64,
                }),
            ),
            Stmt::new(
                None,
                Op::StoreReg(StoreReg {
                    reg: Gpr::R9,
                    value: 0,
                    size: OpSize::I64,
                }),
            ),
        ]
    );
}

#[test]
fn decode_mov_r8_rm8_reg_and_memory() {
    let reg = decode_one(b"\x8A\xC1", 0).unwrap();
    assert_eq!(reg.bytes_consumed, 2);
    assert_eq!(
        reg.stmts,
        vec![
            Stmt::new(
                Some(0),
                Op::LoadReg(LoadReg {
                    reg: Gpr::Rcx,
                    size: OpSize::I8,
                }),
            ),
            Stmt::new(
                None,
                Op::StoreReg(StoreReg {
                    reg: Gpr::Rax,
                    value: 0,
                    size: OpSize::I8,
                }),
            ),
        ]
    );

    let mem = decode_one(b"\x8A\x08", 0).unwrap();
    assert_eq!(mem.bytes_consumed, 2);
    assert!(mem.stmts.iter().any(|stmt| matches!(
        stmt.op,
        Op::LoadMem(LoadMem {
            size: OpSize::I8,
            ..
        })
    )));
    assert!(matches!(
        mem.stmts.last().unwrap().op,
        Op::StoreReg(StoreReg {
            reg: Gpr::Rcx,
            size: OpSize::I8,
            ..
        })
    ));
}

#[test]
fn decode_lea_stores_effective_address_without_loading_memory() {
    let d = decode_one(b"\x48\x8D\x41\x08", 0).unwrap();
    assert_eq!(d.bytes_consumed, 4);
    assert_eq!(
        d.stmts,
        vec![
            Stmt::new(
                Some(0),
                Op::LoadReg(LoadReg {
                    reg: Gpr::Rcx,
                    size: OpSize::I64,
                }),
            ),
            Stmt::new(
                Some(1),
                Op::Constant(Constant {
                    value: 8,
                    size: OpSize::I64,
                }),
            ),
            Stmt::new(
                Some(2),
                Op::BinOp(BinOp {
                    op: BinOpKind::Add,
                    lhs: 0,
                    rhs: 1,
                    size: OpSize::I64,
                }),
            ),
            Stmt::new(
                None,
                Op::StoreReg(StoreReg {
                    reg: Gpr::Rax,
                    value: 2,
                    size: OpSize::I64,
                }),
            ),
        ]
    );
}

#[test]
fn decode_lea_supports_default_32_bit_destination() {
    let d = decode_one(b"\x8D\x41\x08", 0).unwrap();
    assert_eq!(d.bytes_consumed, 3);
    assert_eq!(
        d.stmts.last().unwrap(),
        &Stmt::new(
            None,
            Op::StoreReg(StoreReg {
                reg: Gpr::Rax,
                value: 2,
                size: OpSize::I32,
            }),
        )
    );
}

#[test]
fn decode_lea_rejects_16_bit_destination_and_register_form() {
    let operand_override = decode_one(b"\x66\x8D\x41\x08", 0);
    assert_eq!(
        operand_override.unwrap_err(),
        DecodeError::UnsupportedOpcode(0x8D)
    );
    let reg_form = decode_one(b"\x48\x8D\xC1", 0);
    assert_eq!(
        reg_form.unwrap_err(),
        DecodeError::UnsupportedOpcode(0x8D)
    );
}

#[test]
fn decode_add_r_rm() {
    // add rax, rcx (48 01 C8)
    let d = decode_one(b"\x48\x01\xC8", 0).unwrap();
    assert_eq!(d.bytes_consumed, 3);
    assert_eq!(
        d.stmts,
        vec![
            Stmt::new(
                Some(0),
                Op::LoadReg(LoadReg {
                    reg: Gpr::Rcx,
                    size: OpSize::I64,
                }),
            ),
            Stmt::new(
                Some(1),
                Op::LoadReg(LoadReg {
                    reg: Gpr::Rax,
                    size: OpSize::I64,
                }),
            ),
            Stmt::new(
                Some(2),
                Op::BinOp(BinOp {
                    op: BinOpKind::Add,
                    lhs: 1,
                    rhs: 0,
                    size: OpSize::I64,
                }),
            ),
            Stmt::new(
                None,
                Op::StoreReg(StoreReg {
                    reg: Gpr::Rax,
                    value: 2,
                    size: OpSize::I64,
                }),
            ),
        ]
    );
}

#[test]
fn decode_alu_byte_register_forms() {
    let rm_r = decode_one(b"\x00\xC8", 0).unwrap();
    assert_eq!(rm_r.bytes_consumed, 2);
    assert_eq!(
        rm_r.stmts[2],
        Stmt::new(
            Some(2),
            Op::BinOp(BinOp {
                op: BinOpKind::Add,
                lhs: 1,
                rhs: 0,
                size: OpSize::I8,
            }),
        )
    );
    assert!(matches!(
        rm_r.stmts.last().unwrap().op,
        Op::StoreReg(StoreReg {
            reg: Gpr::Rax,
            size: OpSize::I8,
            ..
        })
    ));

    let r_rm = decode_one(b"\x02\xC1", 0).unwrap();
    assert_eq!(r_rm.bytes_consumed, 2);
    assert_eq!(
        r_rm.stmts[2],
        Stmt::new(
            Some(2),
            Op::BinOp(BinOp {
                op: BinOpKind::Add,
                lhs: 0,
                rhs: 1,
                size: OpSize::I8,
            }),
        )
    );
    assert!(matches!(
        r_rm.stmts.last().unwrap().op,
        Op::StoreReg(StoreReg {
            reg: Gpr::Rax,
            size: OpSize::I8,
            ..
        })
    ));
}

#[test]
fn decode_logical_and_sub_byte_forms() {
    let cases = [
        (b"\x08\xC8".as_slice(), BinOpKind::Or),
        (b"\x0A\xC1".as_slice(), BinOpKind::Or),
        (b"\x20\xC8".as_slice(), BinOpKind::And),
        (b"\x22\xC1".as_slice(), BinOpKind::And),
        (b"\x28\xC8".as_slice(), BinOpKind::Sub),
        (b"\x2A\xC1".as_slice(), BinOpKind::Sub),
        (b"\x30\xC8".as_slice(), BinOpKind::Xor),
        (b"\x32\xC1".as_slice(), BinOpKind::Xor),
    ];

    for (bytes, op) in cases {
        let d = decode_one(bytes, 0).unwrap();
        assert_eq!(d.bytes_consumed, 2);
        assert!(d.stmts.iter().any(|stmt| matches!(
            stmt.op,
            Op::BinOp(BinOp {
                op: actual,
                size: OpSize::I8,
                ..
            }) if actual == op
        )));
    }
}

#[test]
fn decode_logical_and_cmp_r_rm_full_width_forms() {
    let cases = [
        (b"\x48\x0B\xC1".as_slice(), BinOpKind::Or),
        (b"\x48\x23\xC1".as_slice(), BinOpKind::And),
        (b"\x48\x33\xC1".as_slice(), BinOpKind::Xor),
    ];

    for (bytes, op) in cases {
        let d = decode_one(bytes, 0).unwrap();
        assert_eq!(d.bytes_consumed, 3);
        assert_eq!(
            d.stmts[2],
            Stmt::new(
                Some(2),
                Op::BinOp(BinOp {
                    op,
                    lhs: 0,
                    rhs: 1,
                    size: OpSize::I64,
                }),
            )
        );
        assert!(matches!(
            d.stmts.last().unwrap().op,
            Op::StoreReg(StoreReg {
                reg: Gpr::Rax,
                size: OpSize::I64,
                ..
            })
        ));
    }

    let cmp = decode_one(b"\x48\x3B\xC1", 0).unwrap();
    assert_eq!(cmp.bytes_consumed, 3);
    assert!(matches!(
        cmp.stmts.last().unwrap().op,
        Op::CmpFlags(CmpFlags {
            lhs: 0,
            rhs: 1,
            size: OpSize::I64,
        })
    ));
}

#[test]
fn decode_cmp_byte_forms() {
    let rm_r = decode_one(b"\x38\xC8", 0).unwrap();
    assert_eq!(rm_r.bytes_consumed, 2);
    assert!(matches!(
        rm_r.stmts.last().unwrap().op,
        Op::CmpFlags(CmpFlags {
            lhs: 1,
            rhs: 0,
            size: OpSize::I8,
        })
    ));

    let r_rm = decode_one(b"\x3A\xC1", 0).unwrap();
    assert_eq!(r_rm.bytes_consumed, 2);
    assert!(matches!(
        r_rm.stmts.last().unwrap().op,
        Op::CmpFlags(CmpFlags {
            lhs: 0,
            rhs: 1,
            size: OpSize::I8,
        })
    ));
}

#[test]
fn decode_add_rm_imm8_sign_extended() {
    // add rax, 0x10 (48 83 C0 10)
    let d = decode_one(b"\x48\x83\xC0\x10", 0).unwrap();
    assert_eq!(d.bytes_consumed, 4);
    assert_eq!(
        d.stmts,
        vec![
            Stmt::new(
                Some(0),
                Op::Constant(Constant {
                    value: 0x10,
                    size: OpSize::I64,
                }),
            ),
            Stmt::new(
                Some(1),
                Op::LoadReg(LoadReg {
                    reg: Gpr::Rax,
                    size: OpSize::I64,
                }),
            ),
            Stmt::new(
                Some(2),
                Op::BinOp(BinOp {
                    op: BinOpKind::Add,
                    lhs: 1,
                    rhs: 0,
                    size: OpSize::I64,
                }),
            ),
            Stmt::new(
                None,
                Op::StoreReg(StoreReg {
                    reg: Gpr::Rax,
                    value: 2,
                    size: OpSize::I64,
                }),
            ),
        ]
    );
}

#[test]
fn decode_sub_rm_imm8() {
    // sub rax, 0x10 (48 83 E8 10)
    let d = decode_one(b"\x48\x83\xE8\x10", 0).unwrap();
    assert_eq!(d.bytes_consumed, 4);
    assert_eq!(
        d.stmts[2],
        Stmt::new(
            Some(2),
            Op::BinOp(BinOp {
                op: BinOpKind::Sub,
                lhs: 1,
                rhs: 0,
                size: OpSize::I64,
            }),
        )
    );
}

#[test]
fn decode_logical_rm_imm8() {
    let cases = [
        (b"\x48\x83\xC8\x10".as_slice(), BinOpKind::Or),
        (b"\x48\x83\xE0\x10".as_slice(), BinOpKind::And),
        (b"\x48\x83\xF0\x10".as_slice(), BinOpKind::Xor),
    ];

    for (bytes, op) in cases {
        let d = decode_one(bytes, 0).unwrap();
        assert_eq!(d.bytes_consumed, 4);
        assert_eq!(
            d.stmts[2],
            Stmt::new(
                Some(2),
                Op::BinOp(BinOp {
                    op,
                    lhs: 1,
                    rhs: 0,
                    size: OpSize::I64,
                }),
            )
        );
    }
}

#[test]
fn decode_adc_sbb_rm_imm8_placeholders() {
    let cases = [
        (b"\x48\x83\xD0\x10".as_slice(), BinOpKind::Add),
        (b"\x48\x83\xD8\x10".as_slice(), BinOpKind::Sub),
    ];

    for (bytes, op) in cases {
        let d = decode_one(bytes, 0).unwrap();
        assert_eq!(d.bytes_consumed, 4);
        assert_eq!(
            d.stmts[2],
            Stmt::new(
                Some(2),
                Op::BinOp(BinOp {
                    op,
                    lhs: 1,
                    rhs: 0,
                    size: OpSize::I64,
                }),
            )
        );
    }
}

#[test]
fn decode_adc_sbb_accumulator_immediate_placeholders() {
    let cases = [
        (b"\x14\x10".as_slice(), BinOpKind::Add, OpSize::I8, 2),
        (
            b"\x48\x15\x10\x00\x00\x00".as_slice(),
            BinOpKind::Add,
            OpSize::I64,
            6,
        ),
        (b"\x1C\x10".as_slice(), BinOpKind::Sub, OpSize::I8, 2),
        (
            b"\x48\x1D\x10\x00\x00\x00".as_slice(),
            BinOpKind::Sub,
            OpSize::I64,
            6,
        ),
    ];

    for (bytes, op, size, consumed) in cases {
        let d = decode_one(bytes, 0).unwrap();
        assert_eq!(d.bytes_consumed, consumed);
        assert_eq!(
            d.stmts[2],
            Stmt::new(
                Some(2),
                Op::BinOp(BinOp {
                    op,
                    lhs: 0,
                    rhs: 1,
                    size,
                }),
            )
        );
        assert!(matches!(
            d.stmts.last().unwrap().op,
            Op::StoreReg(StoreReg {
                reg: Gpr::Rax,
                value: 2,
                size: actual,
            }) if actual == size
        ));
    }
}

#[test]
fn decode_adc_sbb_register_forms_placeholders() {
    let cases = [
        (b"\x10\xC8".as_slice(), BinOpKind::Add, OpSize::I8),
        (b"\x48\x11\xC8".as_slice(), BinOpKind::Add, OpSize::I64),
        (b"\x12\xC1".as_slice(), BinOpKind::Add, OpSize::I8),
        (b"\x48\x13\xC1".as_slice(), BinOpKind::Add, OpSize::I64),
        (b"\x18\xC8".as_slice(), BinOpKind::Sub, OpSize::I8),
        (b"\x48\x19\xC8".as_slice(), BinOpKind::Sub, OpSize::I64),
        (b"\x1A\xC1".as_slice(), BinOpKind::Sub, OpSize::I8),
        (b"\x48\x1B\xC1".as_slice(), BinOpKind::Sub, OpSize::I64),
    ];

    for (bytes, op, size) in cases {
        let d = decode_one(bytes, 0).unwrap();
        assert_eq!(d.bytes_consumed, bytes.len());
        assert!(matches!(
            d.stmts.iter().find_map(|stmt| match &stmt.op {
                Op::BinOp(binop) => Some(binop),
                _ => None,
            }),
            Some(BinOp {
                op: actual,
                size: actual_size,
                ..
            }) if *actual == op && *actual_size == size
        ));
    }
}

#[test]
fn decode_cmp_rm_imm8_sets_flags_without_store() {
    let d = decode_one(b"\x48\x83\xF8\x10", 0).unwrap();
    assert_eq!(d.bytes_consumed, 4);
    assert_eq!(
        d.stmts,
        vec![
            Stmt::new(
                Some(0),
                Op::Constant(Constant {
                    value: 0x10,
                    size: OpSize::I64,
                }),
            ),
            Stmt::new(
                Some(1),
                Op::LoadReg(LoadReg {
                    reg: Gpr::Rax,
                    size: OpSize::I64,
                }),
            ),
            Stmt::new(
                Some(2),
                Op::CmpFlags(CmpFlags {
                    lhs: 1,
                    rhs: 0,
                    size: OpSize::I64,
                }),
            ),
        ]
    );
}

#[test]
fn decode_cmp_rm_r_register_form_uses_cmp_flags() {
    let d = decode_one(b"\x48\x39\xC8", 0).unwrap();
    assert_eq!(d.bytes_consumed, 3);
    assert_eq!(
        d.stmts,
        vec![
            Stmt::new(
                Some(0),
                Op::LoadReg(LoadReg {
                    reg: Gpr::Rcx,
                    size: OpSize::I64,
                }),
            ),
            Stmt::new(
                Some(1),
                Op::LoadReg(LoadReg {
                    reg: Gpr::Rax,
                    size: OpSize::I64,
                }),
            ),
            Stmt::new(
                Some(2),
                Op::CmpFlags(CmpFlags {
                    lhs: 1,
                    rhs: 0,
                    size: OpSize::I64,
                }),
            ),
        ]
    );
}

#[test]
fn decode_group1_imm8_honors_rm_register_and_rex_b() {
    let add = decode_one(b"\x48\x83\xC3\x10", 0).unwrap();
    assert_eq!(add.bytes_consumed, 4);
    assert_eq!(
        add.stmts[1],
        Stmt::new(
            Some(1),
            Op::LoadReg(LoadReg {
                reg: Gpr::Rbx,
                size: OpSize::I64,
            }),
        )
    );
    assert_eq!(
        add.stmts[3],
        Stmt::new(
            None,
            Op::StoreReg(StoreReg {
                reg: Gpr::Rbx,
                value: 2,
                size: OpSize::I64,
            }),
        )
    );

    let cmp = decode_one(b"\x49\x83\xFB\x10", 0).unwrap();
    assert_eq!(cmp.bytes_consumed, 4);
    assert_eq!(
        cmp.stmts[1],
        Stmt::new(
            Some(1),
            Op::LoadReg(LoadReg {
                reg: Gpr::R11,
                size: OpSize::I64,
            }),
        )
    );
    assert_eq!(
        cmp.stmts[2],
        Stmt::new(
            Some(2),
            Op::CmpFlags(CmpFlags {
                lhs: 1,
                rhs: 0,
                size: OpSize::I64,
            }),
        )
    );
}

#[test]
fn decode_group1_80_byte_immediate_register() {
    let d = decode_one(b"\x80\xC0\x7F", 0).unwrap();
    assert_eq!(d.bytes_consumed, 3);
    assert_eq!(
        d.stmts,
        vec![
            Stmt::new(
                Some(0),
                Op::Constant(Constant {
                    value: 0x7F,
                    size: OpSize::I8,
                }),
            ),
            Stmt::new(
                Some(1),
                Op::LoadReg(LoadReg {
                    reg: Gpr::Rax,
                    size: OpSize::I8,
                }),
            ),
            Stmt::new(
                Some(2),
                Op::BinOp(BinOp {
                    op: BinOpKind::Add,
                    lhs: 1,
                    rhs: 0,
                    size: OpSize::I8,
                }),
            ),
            Stmt::new(
                None,
                Op::StoreReg(StoreReg {
                    reg: Gpr::Rax,
                    value: 2,
                    size: OpSize::I8,
                }),
            ),
        ]
    );
}

#[test]
fn decode_group1_81_sign_extends_i64_immediate() {
    let d = decode_one(b"\x48\x81\xC0\xFF\xFF\xFF\xFF", 0).unwrap();
    assert_eq!(d.bytes_consumed, 7);
    assert_eq!(
        d.stmts[0],
        Stmt::new(
            Some(0),
            Op::Constant(Constant {
                value: u64::MAX,
                size: OpSize::I64,
            }),
        )
    );
}

#[test]
fn decode_group1_81_cmp_memory_full_immediate() {
    let d = decode_one(b"\x81\x38\x78\x56\x34\x12", 0).unwrap();
    assert_eq!(d.bytes_consumed, 6);
    assert!(d.stmts.iter().any(|stmt| matches!(
        stmt.op,
        Op::CmpFlags(CmpFlags {
            size: OpSize::I32,
            ..
        })
    )));
}

#[test]
fn decode_group1_81_register_direct_matrix() {
    // 81 /digit id over a register: mirrors the 0x83 group but with a full
    // imm32. /2 ADC and /3 SBB lower to ADD/SUB placeholders: the carry and
    // borrow inputs are not modelled.
    let cases: [(u8, BinOpKind); 7] = [
        (0, BinOpKind::Add), // ADD
        (1, BinOpKind::Or),  // OR
        (2, BinOpKind::Add), // ADC -> ADD placeholder
        (3, BinOpKind::Sub), // SBB -> SUB placeholder
        (4, BinOpKind::And), // AND
        (5, BinOpKind::Sub), // SUB
        (6, BinOpKind::Xor), // XOR
    ];
    for (digit, op) in cases {
        // REX.W, 0x81, modrm = 11 <digit> 000 (rax), imm32 = 0x1234.
        let modrm = 0xC0 | (digit << 3);
        let bytes = [0x48, 0x81, modrm, 0x34, 0x12, 0x00, 0x00];
        let d = decode_one(&bytes, 0).unwrap();
        assert_eq!(d.bytes_consumed, 7, "digit {digit}");
        // Emission order: imm Constant (ref 0), dst LoadReg (ref 1),
        // BinOp{lhs: dst, rhs: imm} (ref 2), StoreReg.
        assert_eq!(
            d.stmts[0],
            Stmt::new(
                Some(0),
                Op::Constant(Constant {
                    value: 0x1234,
                    size: OpSize::I64,
                }),
            ),
            "digit {digit} imm32"
        );
        assert_eq!(
            d.stmts[1],
            Stmt::new(
                Some(1),
                Op::LoadReg(LoadReg {
                    reg: Gpr::Rax,
                    size: OpSize::I64,
                }),
            ),
            "digit {digit} loads dst"
        );
        assert_eq!(
            d.stmts[2],
            Stmt::new(
                Some(2),
                Op::BinOp(BinOp {
                    op,
                    lhs: 1,
                    rhs: 0,
                    size: OpSize::I64,
                }),
            ),
            "digit {digit} binop"
        );
        assert_eq!(
            d.stmts[3],
            Stmt::new(
                None,
                Op::StoreReg(StoreReg {
                    reg: Gpr::Rax,
                    value: 2,
                    size: OpSize::I64,
                }),
            ),
            "digit {digit} stores result"
        );
    }
}

#[test]
fn decode_group1_81_cmp_register_sets_flags_only() {
    // cmp rbx, 0x1234  (48 81 FB 34 12 00 00 -> /7 over rbx)
    let d = decode_one(b"\x48\x81\xFB\x34\x12\x00\x00", 0).unwrap();
    assert_eq!(d.bytes_consumed, 7);
    assert_eq!(
        d.stmts,
        vec![
            Stmt::new(
                Some(0),
                Op::Constant(Constant {
                    value: 0x1234,
                    size: OpSize::I64,
                }),
            ),
            Stmt::new(
                Some(1),
                Op::LoadReg(LoadReg {
                    reg: Gpr::Rbx,
                    size: OpSize::I64,
                }),
            ),
            Stmt::new(
                Some(2),
                Op::CmpFlags(CmpFlags {
                    lhs: 1,
                    rhs: 0,
                    size: OpSize::I64,
                }),
            ),
        ]
    );
}

#[test]
fn decode_accumulator_immediate_opcode_matrix() {
    // opcode -> (is_byte, BinOpKind) for the ALU accumulator-immediate set,
    // excluding CMP (0x3C/0x3D) and TEST (0xA8/0xA9) which take other paths.
    let cases: [(u8, bool, BinOpKind); 12] = [
        (0x04, true, BinOpKind::Add),  // ADD al, imm8
        (0x05, false, BinOpKind::Add), // ADD eax, imm32
        (0x0C, true, BinOpKind::Or),   // OR  al, imm8
        (0x0D, false, BinOpKind::Or),  // OR  eax, imm32
        (0x14, true, BinOpKind::Add),  // ADC al  -> ADD placeholder
        (0x15, false, BinOpKind::Add), // ADC eax -> ADD placeholder
        (0x1C, true, BinOpKind::Sub),  // SBB al  -> SUB placeholder
        (0x1D, false, BinOpKind::Sub), // SBB eax -> SUB placeholder
        (0x24, true, BinOpKind::And),  // AND al, imm8
        (0x2C, true, BinOpKind::Sub),  // SUB al, imm8
        (0x34, true, BinOpKind::Xor),  // XOR al, imm8
        (0x35, false, BinOpKind::Xor), // XOR eax, imm32
    ];
    for (opcode, is_byte, op) in cases {
        let (bytes, consumed, size): (Vec<u8>, usize, OpSize) = if is_byte {
            (vec![opcode, 0x10], 2, OpSize::I8)
        } else {
            (vec![opcode, 0x34, 0x12, 0x00, 0x00], 5, OpSize::I32)
        };
        let d = decode_one(&bytes, 0).unwrap();
        assert_eq!(d.bytes_consumed, consumed, "opcode {opcode:#x}");
        assert_eq!(
            d.stmts[0],
            Stmt::new(
                Some(0),
                Op::LoadReg(LoadReg {
                    reg: Gpr::Rax,
                    size
                })
            ),
            "opcode {opcode:#x} loads rax"
        );
        assert_eq!(
            d.stmts[2],
            Stmt::new(
                Some(2),
                Op::BinOp(BinOp {
                    op,
                    lhs: 0,
                    rhs: 1,
                    size,
                }),
            ),
            "opcode {opcode:#x} binop"
        );
        assert_eq!(
            d.stmts.last().unwrap(),
            &Stmt::new(
                None,
                Op::StoreReg(StoreReg {
                    reg: Gpr::Rax,
                    value: 2,
                    size,
                }),
            ),
            "opcode {opcode:#x} stores rax"
        );
    }
}

#[test]
fn decode_group2_imm8_shift_register() {
    let d = decode_one(b"\x48\xC1\xE0\x03", 0).unwrap();
    assert_eq!(d.bytes_consumed, 4);
    assert_eq!(
        d.stmts,
        vec![
            Stmt::new(
                Some(0),
                Op::Constant(Constant {
                    value: 3,
                    size: OpSize::I8,
                }),
            ),
            Stmt::new(
                Some(1),
                Op::LoadReg(LoadReg {
                    reg: Gpr::Rax,
                    size: OpSize::I64,
                }),
            ),
            Stmt::new(
                Some(2),
                Op::BinOp(BinOp {
                    op: BinOpKind::Shl,
                    lhs: 1,
                    rhs: 0,
                    size: OpSize::I64,
                }),
            ),
            Stmt::new(
                None,
                Op::StoreReg(StoreReg {
                    reg: Gpr::Rax,
                    value: 2,
                    size: OpSize::I64,
                }),
            ),
        ]
    );
}

#[test]
fn decode_group2_byte_imm8_shift_register() {
    let d = decode_one(b"\xC0\xE0\x03", 0).unwrap();
    assert_eq!(d.bytes_consumed, 3);
    assert_eq!(
        d.stmts,
        vec![
            Stmt::new(
                Some(0),
                Op::Constant(Constant {
                    value: 3,
                    size: OpSize::I8,
                }),
            ),
            Stmt::new(
                Some(1),
                Op::LoadReg(LoadReg {
                    reg: Gpr::Rax,
                    size: OpSize::I8,
                }),
            ),
            Stmt::new(
                Some(2),
                Op::BinOp(BinOp {
                    op: BinOpKind::Shl,
                    lhs: 1,
                    rhs: 0,
                    size: OpSize::I8,
                }),
            ),
            Stmt::new(
                None,
                Op::StoreReg(StoreReg {
                    reg: Gpr::Rax,
                    value: 2,
                    size: OpSize::I8,
                }),
            ),
        ]
    );
}

#[test]
fn decode_group2_imm8_memory_ror() {
    let d = decode_one(b"\x48\xC1\x0B\x04", 0).unwrap();
    assert_eq!(d.bytes_consumed, 4);
    assert!(d.stmts.iter().any(|stmt| matches!(
        stmt.op,
        Op::BinOp(BinOp {
            op: BinOpKind::Ror,
            ..
        })
    )));
    assert!(matches!(d.stmts.last().unwrap().op, Op::StoreMem(_)));
}

#[test]
fn decode_group2_imm8_rejects_unsupported_subop() {
    let r = decode_one(b"\xC1\xD0\x01", 0);
    assert_eq!(r.unwrap_err(), DecodeError::UnsupportedOpcode(0xC1));
}

#[test]
fn decode_group2_one_count_shift_register() {
    let d = decode_one(b"\x48\xD1\xE8", 0).unwrap();
    assert_eq!(d.bytes_consumed, 3);
    assert_eq!(
        d.stmts,
        vec![
            Stmt::new(
                Some(0),
                Op::Constant(Constant {
                    value: 1,
                    size: OpSize::I8,
                }),
            ),
            Stmt::new(
                Some(1),
                Op::LoadReg(LoadReg {
                    reg: Gpr::Rax,
                    size: OpSize::I64,
                }),
            ),
            Stmt::new(
                Some(2),
                Op::BinOp(BinOp {
                    op: BinOpKind::Shr,
                    lhs: 1,
                    rhs: 0,
                    size: OpSize::I64,
                }),
            ),
            Stmt::new(
                None,
                Op::StoreReg(StoreReg {
                    reg: Gpr::Rax,
                    value: 2,
                    size: OpSize::I64,
                }),
            ),
        ]
    );
}

#[test]
fn decode_group2_cl_count_shift_register() {
    let d = decode_one(b"\x48\xD3\xE0", 0).unwrap();
    assert_eq!(d.bytes_consumed, 3);
    assert_eq!(
        d.stmts[0],
        Stmt::new(
            Some(0),
            Op::LoadReg(LoadReg {
                reg: Gpr::Rcx,
                size: OpSize::I8,
            }),
        )
    );
    assert!(matches!(
        d.stmts[2].op,
        Op::BinOp(BinOp {
            op: BinOpKind::Shl,
            rhs: 0,
            ..
        })
    ));
}

#[test]
fn decode_group1_imm8_supports_memory_operands() {
    let add = decode_one(b"\x48\x83\x03\x10", 0).unwrap();
    assert_eq!(add.bytes_consumed, 4);
    assert_eq!(
        add.stmts,
        vec![
            Stmt::new(
                Some(0),
                Op::Constant(Constant {
                    value: 0x10,
                    size: OpSize::I64,
                }),
            ),
            Stmt::new(
                Some(1),
                Op::LoadReg(LoadReg {
                    reg: Gpr::Rbx,
                    size: OpSize::I64,
                }),
            ),
            Stmt::new(
                Some(2),
                Op::LoadMem(LoadMem {
                    addr: 1,
                    size: OpSize::I64,
                }),
            ),
            Stmt::new(
                Some(3),
                Op::BinOp(BinOp {
                    op: BinOpKind::Add,
                    lhs: 2,
                    rhs: 0,
                    size: OpSize::I64,
                }),
            ),
            Stmt::new(
                None,
                Op::StoreMem(StoreMem {
                    addr: 1,
                    value: 3,
                    size: OpSize::I64,
                }),
            ),
        ]
    );

    let cmp = decode_one(b"\x48\x83\x3B\x10", 0).unwrap();
    assert_eq!(cmp.bytes_consumed, 4);
    assert_eq!(
        cmp.stmts,
        vec![
            Stmt::new(
                Some(0),
                Op::Constant(Constant {
                    value: 0x10,
                    size: OpSize::I64,
                }),
            ),
            Stmt::new(
                Some(1),
                Op::LoadReg(LoadReg {
                    reg: Gpr::Rbx,
                    size: OpSize::I64,
                }),
            ),
            Stmt::new(
                Some(2),
                Op::LoadMem(LoadMem {
                    addr: 1,
                    size: OpSize::I64,
                }),
            ),
            Stmt::new(
                Some(3),
                Op::CmpFlags(CmpFlags {
                    lhs: 2,
                    rhs: 0,
                    size: OpSize::I64,
                }),
            ),
        ]
    );
}

#[test]
fn decode_group1_imm8_supports_logical_memory_operands() {
    for (bytes, op) in [
        (&b"\x48\x83\x0B\x10"[..], BinOpKind::Or),
        (&b"\x48\x83\x23\x10"[..], BinOpKind::And),
        (&b"\x48\x83\x33\x10"[..], BinOpKind::Xor),
    ] {
        let d = decode_one(bytes, 0).unwrap();
        assert_eq!(d.bytes_consumed, 4);
        assert_eq!(
            d.stmts,
            vec![
                Stmt::new(
                    Some(0),
                    Op::Constant(Constant {
                        value: 0x10,
                        size: OpSize::I64,
                    }),
                ),
                Stmt::new(
                    Some(1),
                    Op::LoadReg(LoadReg {
                        reg: Gpr::Rbx,
                        size: OpSize::I64,
                    }),
                ),
                Stmt::new(
                    Some(2),
                    Op::LoadMem(LoadMem {
                        addr: 1,
                        size: OpSize::I64,
                    }),
                ),
                Stmt::new(
                    Some(3),
                    Op::BinOp(BinOp {
                        op,
                        lhs: 2,
                        rhs: 0,
                        size: OpSize::I64,
                    }),
                ),
                Stmt::new(
                    None,
                    Op::StoreMem(StoreMem {
                        addr: 1,
                        value: 3,
                        size: OpSize::I64,
                    }),
                ),
            ]
        );
    }
}

#[test]
fn decode_group1_imm8_sign_extends_memory_disp8_and_imm8() {
    let add = decode_one(b"\x48\x83\x43\xF8\xF0", 0).unwrap();
    assert_eq!(add.bytes_consumed, 5);
    assert_eq!(
        add.stmts,
        vec![
            Stmt::new(
                Some(0),
                Op::Constant(Constant {
                    value: 0xffff_ffff_ffff_fff0,
                    size: OpSize::I64,
                }),
            ),
            Stmt::new(
                Some(1),
                Op::LoadReg(LoadReg {
                    reg: Gpr::Rbx,
                    size: OpSize::I64,
                }),
            ),
            Stmt::new(
                Some(2),
                Op::Constant(Constant {
                    value: 0xffff_ffff_ffff_fff8,
                    size: OpSize::I64,
                }),
            ),
            Stmt::new(
                Some(3),
                Op::BinOp(BinOp {
                    op: BinOpKind::Add,
                    lhs: 1,
                    rhs: 2,
                    size: OpSize::I64,
                }),
            ),
            Stmt::new(
                Some(4),
                Op::LoadMem(LoadMem {
                    addr: 3,
                    size: OpSize::I64,
                }),
            ),
            Stmt::new(
                Some(5),
                Op::BinOp(BinOp {
                    op: BinOpKind::Add,
                    lhs: 4,
                    rhs: 0,
                    size: OpSize::I64,
                }),
            ),
            Stmt::new(
                None,
                Op::StoreMem(StoreMem {
                    addr: 3,
                    value: 5,
                    size: OpSize::I64,
                }),
            ),
        ]
    );
}

#[test]
fn decode_group1_imm8_supports_sib_disp_memory_operands() {
    let add = decode_one(b"\x48\x83\x44\x88\x7F\x10", 0).unwrap();
    assert_eq!(add.bytes_consumed, 6);
    assert_eq!(
        add.stmts,
        vec![
            Stmt::new(
                Some(0),
                Op::Constant(Constant {
                    value: 0x10,
                    size: OpSize::I64,
                }),
            ),
            Stmt::new(
                Some(1),
                Op::LoadReg(LoadReg {
                    reg: Gpr::Rcx,
                    size: OpSize::I64,
                }),
            ),
            Stmt::new(
                Some(2),
                Op::Constant(Constant {
                    value: 2,
                    size: OpSize::I64,
                }),
            ),
            Stmt::new(
                Some(3),
                Op::BinOp(BinOp {
                    op: BinOpKind::Shl,
                    lhs: 1,
                    rhs: 2,
                    size: OpSize::I64,
                }),
            ),
            Stmt::new(
                Some(4),
                Op::LoadReg(LoadReg {
                    reg: Gpr::Rax,
                    size: OpSize::I64,
                }),
            ),
            Stmt::new(
                Some(5),
                Op::BinOp(BinOp {
                    op: BinOpKind::Add,
                    lhs: 4,
                    rhs: 3,
                    size: OpSize::I64,
                }),
            ),
            Stmt::new(
                Some(6),
                Op::Constant(Constant {
                    value: 0x7f,
                    size: OpSize::I64,
                }),
            ),
            Stmt::new(
                Some(7),
                Op::BinOp(BinOp {
                    op: BinOpKind::Add,
                    lhs: 5,
                    rhs: 6,
                    size: OpSize::I64,
                }),
            ),
            Stmt::new(
                Some(8),
                Op::LoadMem(LoadMem {
                    addr: 7,
                    size: OpSize::I64,
                }),
            ),
            Stmt::new(
                Some(9),
                Op::BinOp(BinOp {
                    op: BinOpKind::Add,
                    lhs: 8,
                    rhs: 0,
                    size: OpSize::I64,
                }),
            ),
            Stmt::new(
                None,
                Op::StoreMem(StoreMem {
                    addr: 7,
                    value: 9,
                    size: OpSize::I64,
                }),
            ),
        ]
    );
}

#[test]
fn decode_group1_imm8_supports_sib_cmp_memory_operands() {
    let cmp = decode_one(b"\x48\x83\x7C\x88\x7F\x10", 0).unwrap();
    assert_eq!(cmp.bytes_consumed, 6);
    assert_eq!(cmp.stmts.len(), 10);
    assert_eq!(
        cmp.stmts[8],
        Stmt::new(
            Some(8),
            Op::LoadMem(LoadMem {
                addr: 7,
                size: OpSize::I64,
            }),
        )
    );
    assert_eq!(
        cmp.stmts[9],
        Stmt::new(
            Some(9),
            Op::CmpFlags(CmpFlags {
                lhs: 8,
                rhs: 0,
                size: OpSize::I64,
            }),
        )
    );
}

#[test]
fn decode_group1_imm8_supports_disp32_memory_operands() {
    let add = decode_one(b"\x48\x83\x83\x20\x00\x00\x00\x10", 0).unwrap();
    assert_eq!(add.bytes_consumed, 8);
    assert_eq!(
        add.stmts,
        vec![
            Stmt::new(
                Some(0),
                Op::Constant(Constant {
                    value: 0x10,
                    size: OpSize::I64,
                }),
            ),
            Stmt::new(
                Some(1),
                Op::LoadReg(LoadReg {
                    reg: Gpr::Rbx,
                    size: OpSize::I64,
                }),
            ),
            Stmt::new(
                Some(2),
                Op::Constant(Constant {
                    value: 0x20,
                    size: OpSize::I64,
                }),
            ),
            Stmt::new(
                Some(3),
                Op::BinOp(BinOp {
                    op: BinOpKind::Add,
                    lhs: 1,
                    rhs: 2,
                    size: OpSize::I64,
                }),
            ),
            Stmt::new(
                Some(4),
                Op::LoadMem(LoadMem {
                    addr: 3,
                    size: OpSize::I64,
                }),
            ),
            Stmt::new(
                Some(5),
                Op::BinOp(BinOp {
                    op: BinOpKind::Add,
                    lhs: 4,
                    rhs: 0,
                    size: OpSize::I64,
                }),
            ),
            Stmt::new(
                None,
                Op::StoreMem(StoreMem {
                    addr: 3,
                    value: 5,
                    size: OpSize::I64,
                }),
            ),
        ]
    );
}

#[test]
fn decode_group1_imm8_supports_rex_x_b_sib_memory_operands() {
    let add = decode_one(b"\x4B\x83\x44\x88\x20\x10", 0).unwrap();
    assert_eq!(add.bytes_consumed, 6);
    assert_eq!(
        add.stmts,
        vec![
            Stmt::new(
                Some(0),
                Op::Constant(Constant {
                    value: 0x10,
                    size: OpSize::I64,
                }),
            ),
            Stmt::new(
                Some(1),
                Op::LoadReg(LoadReg {
                    reg: Gpr::R9,
                    size: OpSize::I64,
                }),
            ),
            Stmt::new(
                Some(2),
                Op::Constant(Constant {
                    value: 2,
                    size: OpSize::I64,
                }),
            ),
            Stmt::new(
                Some(3),
                Op::BinOp(BinOp {
                    op: BinOpKind::Shl,
                    lhs: 1,
                    rhs: 2,
                    size: OpSize::I64,
                }),
            ),
            Stmt::new(
                Some(4),
                Op::LoadReg(LoadReg {
                    reg: Gpr::R8,
                    size: OpSize::I64,
                }),
            ),
            Stmt::new(
                Some(5),
                Op::BinOp(BinOp {
                    op: BinOpKind::Add,
                    lhs: 4,
                    rhs: 3,
                    size: OpSize::I64,
                }),
            ),
            Stmt::new(
                Some(6),
                Op::Constant(Constant {
                    value: 0x20,
                    size: OpSize::I64,
                }),
            ),
            Stmt::new(
                Some(7),
                Op::BinOp(BinOp {
                    op: BinOpKind::Add,
                    lhs: 5,
                    rhs: 6,
                    size: OpSize::I64,
                }),
            ),
            Stmt::new(
                Some(8),
                Op::LoadMem(LoadMem {
                    addr: 7,
                    size: OpSize::I64,
                }),
            ),
            Stmt::new(
                Some(9),
                Op::BinOp(BinOp {
                    op: BinOpKind::Add,
                    lhs: 8,
                    rhs: 0,
                    size: OpSize::I64,
                }),
            ),
            Stmt::new(
                None,
                Op::StoreMem(StoreMem {
                    addr: 7,
                    value: 9,
                    size: OpSize::I64,
                }),
            ),
        ]
    );
}

#[test]
fn decode_group1_imm8_supports_rip_relative_memory_operands() {
    let add = decode_one_at(b"\x48\x83\x05\x34\x12\x00\x00\x10", 0, 0x1000).unwrap();
    assert_eq!(add.bytes_consumed, 8);
    assert_eq!(
        add.stmts,
        vec![
            Stmt::new(
                Some(0),
                Op::Constant(Constant {
                    value: 0x10,
                    size: OpSize::I64,
                }),
            ),
            Stmt::new(
                Some(1),
                Op::Constant(Constant {
                    value: 0x223c,
                    size: OpSize::I64,
                }),
            ),
            Stmt::new(
                Some(2),
                Op::LoadMem(LoadMem {
                    addr: 1,
                    size: OpSize::I64,
                }),
            ),
            Stmt::new(
                Some(3),
                Op::BinOp(BinOp {
                    op: BinOpKind::Add,
                    lhs: 2,
                    rhs: 0,
                    size: OpSize::I64,
                }),
            ),
            Stmt::new(
                None,
                Op::StoreMem(StoreMem {
                    addr: 1,
                    value: 3,
                    size: OpSize::I64,
                }),
            ),
        ]
    );

    for (bytes, op) in [
        (
            &b"\x48\x83\x0D\x34\x12\x00\x00\x10"[..],
            Some(BinOpKind::Or),
        ),
        (
            &b"\x48\x83\x25\x34\x12\x00\x00\x10"[..],
            Some(BinOpKind::And),
        ),
        (
            &b"\x48\x83\x35\x34\x12\x00\x00\x10"[..],
            Some(BinOpKind::Xor),
        ),
        (&b"\x48\x83\x3D\x34\x12\x00\x00\x10"[..], None),
    ] {
        let d = decode_one_at(bytes, 0, 0x1000).unwrap();
        assert_eq!(d.bytes_consumed, 8);
        assert_eq!(
            d.stmts[1],
            Stmt::new(
                Some(1),
                Op::Constant(Constant {
                    value: 0x223c,
                    size: OpSize::I64,
                }),
            )
        );
        if let Some(op) = op {
            assert_eq!(
                d.stmts[3],
                Stmt::new(
                    Some(3),
                    Op::BinOp(BinOp {
                        op,
                        lhs: 2,
                        rhs: 0,
                        size: OpSize::I64,
                    }),
                )
            );
        } else {
            assert_eq!(
                d.stmts[3],
                Stmt::new(
                    Some(3),
                    Op::CmpFlags(CmpFlags {
                        lhs: 2,
                        rhs: 0,
                        size: OpSize::I64,
                    }),
                )
            );
        }
    }
}

#[test]
fn decode_add_r_rm_sib_disp8_consumes_full_modrm_path() {
    // add rax, qword [rax + rcx*4 + 0x7f]
    let d = decode_one(b"\x48\x03\x44\x88\x7F", 0).unwrap();
    assert_eq!(d.bytes_consumed, 5);
    assert_eq!(
        d.stmts,
        vec![
            Stmt::new(
                Some(0),
                Op::LoadReg(LoadReg {
                    reg: Gpr::Rax,
                    size: OpSize::I64,
                }),
            ),
            Stmt::new(
                Some(1),
                Op::LoadReg(LoadReg {
                    reg: Gpr::Rcx,
                    size: OpSize::I64,
                }),
            ),
            Stmt::new(
                Some(2),
                Op::Constant(Constant {
                    value: 2,
                    size: OpSize::I64,
                }),
            ),
            Stmt::new(
                Some(3),
                Op::BinOp(BinOp {
                    op: BinOpKind::Shl,
                    lhs: 1,
                    rhs: 2,
                    size: OpSize::I64,
                }),
            ),
            Stmt::new(
                Some(4),
                Op::LoadReg(LoadReg {
                    reg: Gpr::Rax,
                    size: OpSize::I64,
                }),
            ),
            Stmt::new(
                Some(5),
                Op::BinOp(BinOp {
                    op: BinOpKind::Add,
                    lhs: 4,
                    rhs: 3,
                    size: OpSize::I64,
                }),
            ),
            Stmt::new(
                Some(6),
                Op::Constant(Constant {
                    value: 0x7f,
                    size: OpSize::I64,
                }),
            ),
            Stmt::new(
                Some(7),
                Op::BinOp(BinOp {
                    op: BinOpKind::Add,
                    lhs: 5,
                    rhs: 6,
                    size: OpSize::I64,
                }),
            ),
            Stmt::new(
                Some(8),
                Op::LoadMem(LoadMem {
                    addr: 7,
                    size: OpSize::I64,
                }),
            ),
            Stmt::new(
                Some(9),
                Op::BinOp(BinOp {
                    op: BinOpKind::Add,
                    lhs: 0,
                    rhs: 8,
                    size: OpSize::I64,
                }),
            ),
            Stmt::new(
                None,
                Op::StoreReg(StoreReg {
                    reg: Gpr::Rax,
                    value: 9,
                    size: OpSize::I64,
                }),
            ),
        ]
    );
}

#[test]
fn decode_push_pop() {
    // push rax (50), pop rbx (5B)
    let push = decode_one(b"\x50", 0).unwrap();
    let pop = decode_one(b"\x5B", 0).unwrap();
    assert_eq!(push.bytes_consumed, 1);
    assert_eq!(pop.bytes_consumed, 1);
    assert_eq!(
        push.stmts[0],
        Stmt::new(
            Some(0),
            Op::LoadReg(LoadReg {
                reg: Gpr::Rax,
                size: OpSize::I64,
            }),
        )
    );
    assert_eq!(
        push.stmts[1],
        Stmt::new(None, Op::RspAdjust(RspAdjust { delta_bytes: -8 }))
    );
    assert_eq!(
        pop.stmts[2],
        Stmt::new(
            None,
            Op::StoreReg(StoreReg {
                reg: Gpr::Rbx,
                value: 1,
                size: OpSize::I64,
            }),
        )
    );
}

#[test]
fn decode_pop_rm() {
    let reg = decode_one(b"\x8F\xC0", 0).unwrap();
    assert_eq!(reg.bytes_consumed, 2);
    assert_eq!(
        reg.stmts,
        vec![
            Stmt::new(
                Some(0),
                Op::LoadReg(LoadReg {
                    reg: Gpr::Rsp,
                    size: OpSize::I64,
                }),
            ),
            Stmt::new(
                Some(1),
                Op::LoadMem(LoadMem {
                    addr: 0,
                    size: OpSize::I64,
                }),
            ),
            Stmt::new(
                None,
                Op::StoreReg(StoreReg {
                    reg: Gpr::Rax,
                    value: 1,
                    size: OpSize::I64,
                }),
            ),
            Stmt::new(None, Op::RspAdjust(RspAdjust { delta_bytes: 8 })),
        ]
    );

    let mem = decode_one(b"\x8F\x00", 0).unwrap();
    assert_eq!(mem.bytes_consumed, 2);
    assert!(matches!(
        mem.stmts[mem.stmts.len() - 2].op,
        Op::StoreMem(StoreMem {
            value: 1,
            size: OpSize::I64,
            ..
        })
    ));
    assert_eq!(
        decode_one(b"\x8F\xC8", 0),
        Err(DecodeError::UnsupportedOpcode(0x8F))
    );
}

#[test]
fn decode_push_pop_honor_rex_b() {
    let push = decode_one(b"\x41\x50", 0).unwrap();
    let pop = decode_one(b"\x41\x58", 0).unwrap();
    assert_eq!(push.bytes_consumed, 2);
    assert_eq!(pop.bytes_consumed, 2);
    assert_eq!(
        push.stmts[0],
        Stmt::new(
            Some(0),
            Op::LoadReg(LoadReg {
                reg: Gpr::R8,
                size: OpSize::I64,
            }),
        )
    );
    assert_eq!(
        pop.stmts[2],
        Stmt::new(
            None,
            Op::StoreReg(StoreReg {
                reg: Gpr::R8,
                value: 1,
                size: OpSize::I64,
            }),
        )
    );
}

#[test]
fn decode_push_imm8_sign_extends_and_stores_on_stack() {
    let d = decode_one(b"\x6A\xFF", 0).unwrap();
    assert_eq!(d.bytes_consumed, 2);
    assert_eq!(
        d.stmts,
        vec![
            Stmt::new(
                Some(0),
                Op::Constant(Constant {
                    value: u64::MAX,
                    size: OpSize::I64,
                }),
            ),
            Stmt::new(None, Op::RspAdjust(RspAdjust { delta_bytes: -8 })),
            Stmt::new(
                Some(2),
                Op::LoadReg(LoadReg {
                    reg: Gpr::Rsp,
                    size: OpSize::I64,
                }),
            ),
            Stmt::new(
                None,
                Op::StoreMem(StoreMem {
                    addr: 2,
                    value: 0,
                    size: OpSize::I64,
                }),
            ),
        ]
    );
}

#[test]
fn decode_push_imm32_sign_extends_and_stores_on_stack() {
    let d = decode_one(b"\x68\x34\x12\x00\x00", 0).unwrap();
    assert_eq!(d.bytes_consumed, 5);
    assert_eq!(
        d.stmts[0],
        Stmt::new(
            Some(0),
            Op::Constant(Constant {
                value: 0x1234,
                size: OpSize::I64,
            }),
        )
    );
    assert!(matches!(d.stmts.last().unwrap().op, Op::StoreMem(_)));
}

#[test]
fn decode_movsx() {
    // movsx rax, byte [rcx] (48 0F BE 01)
    let d = decode_one(b"\x48\x0F\xBE\x01", 0).unwrap();
    assert_eq!(d.bytes_consumed, 4);
    assert_eq!(
        d.stmts[1],
        Stmt::new(
            Some(1),
            Op::LoadMem(LoadMem {
                addr: 0,
                size: OpSize::I8,
            }),
        )
    );
    assert_eq!(
        d.stmts[2],
        Stmt::new(
            Some(2),
            Op::Extend(Extend {
                value: 1,
                from_size: OpSize::I8,
                to_size: OpSize::I64,
                is_signed: true,
            }),
        )
    );
}

#[test]
fn decode_movzx_without_rex_w_extends_to_i32() {
    let d = decode_one(b"\x0F\xB6\xC1", 0).unwrap();
    assert_eq!(d.bytes_consumed, 3);
    assert_eq!(
        d.stmts,
        vec![
            Stmt::new(
                Some(0),
                Op::LoadReg(LoadReg {
                    reg: Gpr::Rcx,
                    size: OpSize::I8,
                }),
            ),
            Stmt::new(
                Some(1),
                Op::Extend(Extend {
                    value: 0,
                    from_size: OpSize::I8,
                    to_size: OpSize::I32,
                    is_signed: false,
                }),
            ),
            Stmt::new(
                None,
                Op::StoreReg(StoreReg {
                    reg: Gpr::Rax,
                    value: 1,
                    size: OpSize::I32,
                }),
            ),
        ]
    );
}

#[test]
fn decode_movsx_without_rex_w_extends_to_i32() {
    let d = decode_one(b"\x0F\xBE\xC1", 0).unwrap();
    assert_eq!(d.bytes_consumed, 3);
    assert_eq!(
        d.stmts[1],
        Stmt::new(
            Some(1),
            Op::Extend(Extend {
                value: 0,
                from_size: OpSize::I8,
                to_size: OpSize::I32,
                is_signed: true,
            }),
        )
    );
    assert_eq!(
        d.stmts[2],
        Stmt::new(
            None,
            Op::StoreReg(StoreReg {
                reg: Gpr::Rax,
                value: 1,
                size: OpSize::I32,
            }),
        )
    );
}

#[test]
fn decode_imul_r_rm_register_form() {
    let d = decode_one(b"\x48\x0F\xAF\xC1", 0).unwrap();
    assert_eq!(d.bytes_consumed, 4);
    assert_eq!(
        d.stmts,
        vec![
            Stmt::new(
                Some(0),
                Op::LoadReg(LoadReg {
                    reg: Gpr::Rax,
                    size: OpSize::I64,
                }),
            ),
            Stmt::new(
                Some(1),
                Op::LoadReg(LoadReg {
                    reg: Gpr::Rcx,
                    size: OpSize::I64,
                }),
            ),
            Stmt::new(
                Some(2),
                Op::BinOp(BinOp {
                    op: BinOpKind::Mul,
                    lhs: 0,
                    rhs: 1,
                    size: OpSize::I64,
                }),
            ),
            Stmt::new(
                None,
                Op::StoreReg(StoreReg {
                    reg: Gpr::Rax,
                    value: 2,
                    size: OpSize::I64,
                }),
            ),
        ]
    );
}

#[test]
fn decode_xadd_register_form_placeholder() {
    let d = decode_one(b"\x48\x0F\xC1\xC8", 0).unwrap();
    assert_eq!(d.bytes_consumed, 4);
    assert_eq!(
        d.stmts,
        vec![
            Stmt::new(
                Some(0),
                Op::LoadReg(LoadReg {
                    reg: Gpr::Rcx,
                    size: OpSize::I64,
                }),
            ),
            Stmt::new(
                Some(1),
                Op::LoadReg(LoadReg {
                    reg: Gpr::Rax,
                    size: OpSize::I64,
                }),
            ),
            Stmt::new(
                Some(2),
                Op::BinOp(BinOp {
                    op: BinOpKind::Add,
                    lhs: 1,
                    rhs: 0,
                    size: OpSize::I64,
                }),
            ),
            Stmt::new(
                None,
                Op::StoreReg(StoreReg {
                    reg: Gpr::Rcx,
                    value: 1,
                    size: OpSize::I64,
                }),
            ),
            Stmt::new(
                None,
                Op::StoreReg(StoreReg {
                    reg: Gpr::Rax,
                    value: 2,
                    size: OpSize::I64,
                }),
            ),
        ]
    );
}

#[test]
fn decode_movnti_stores_register_to_memory() {
    let d = decode_one(b"\x48\x0F\xC3\x08", 0).unwrap();
    assert_eq!(d.bytes_consumed, 4);
    assert_eq!(
        d.stmts,
        vec![
            Stmt::new(
                Some(0),
                Op::LoadReg(LoadReg {
                    reg: Gpr::Rcx,
                    size: OpSize::I64,
                }),
            ),
            Stmt::new(
                Some(1),
                Op::LoadReg(LoadReg {
                    reg: Gpr::Rax,
                    size: OpSize::I64,
                }),
            ),
            Stmt::new(
                None,
                Op::StoreMem(StoreMem {
                    addr: 1,
                    value: 0,
                    size: OpSize::I64,
                }),
            ),
        ]
    );

    let d = decode_one(b"\x0F\xC3\x08", 0).unwrap();
    assert_eq!(d.bytes_consumed, 3);
    assert!(matches!(
        d.stmts.last().unwrap().op,
        Op::StoreMem(StoreMem {
            size: OpSize::I32,
            ..
        })
    ));

    assert_eq!(
        decode_one(b"\x0F\xC3\xC8", 0),
        Err(DecodeError::UnsupportedOpcode(0xC3))
    );
}

#[test]
fn decode_imul_immediate_forms() {
    let imm8 = decode_one(b"\x48\x6B\xC1\xF0", 0).unwrap();
    assert_eq!(imm8.bytes_consumed, 4);
    assert_eq!(
        imm8.stmts,
        vec![
            Stmt::new(
                Some(0),
                Op::LoadReg(LoadReg {
                    reg: Gpr::Rcx,
                    size: OpSize::I64,
                }),
            ),
            Stmt::new(
                Some(1),
                Op::Constant(Constant {
                    value: 0xFFFF_FFFF_FFFF_FFF0,
                    size: OpSize::I64,
                }),
            ),
            Stmt::new(
                Some(2),
                Op::BinOp(BinOp {
                    op: BinOpKind::Mul,
                    lhs: 0,
                    rhs: 1,
                    size: OpSize::I64,
                }),
            ),
            Stmt::new(
                None,
                Op::StoreReg(StoreReg {
                    reg: Gpr::Rax,
                    value: 2,
                    size: OpSize::I64,
                }),
            ),
        ]
    );

    let imm32 = decode_one(b"\x48\x69\xC1\x34\x12\x00\x00", 0).unwrap();
    assert_eq!(imm32.bytes_consumed, 7);
    assert_eq!(
        imm32.stmts[1],
        Stmt::new(
            Some(1),
            Op::Constant(Constant {
                value: 0x1234,
                size: OpSize::I64,
            }),
        )
    );
}

#[test]
fn decode_movsx_mem_disp32_consumes_modrm_displacement() {
    let d = decode_one(b"\x48\x0F\xBE\x85\x78\x56\x34\x12", 0).unwrap();
    assert_eq!(d.bytes_consumed, 8);
    assert_eq!(
        d.stmts,
        vec![
            Stmt::new(
                Some(0),
                Op::LoadReg(LoadReg {
                    reg: Gpr::Rbp,
                    size: OpSize::I64,
                }),
            ),
            Stmt::new(
                Some(1),
                Op::Constant(Constant {
                    value: 0x1234_5678,
                    size: OpSize::I64,
                }),
            ),
            Stmt::new(
                Some(2),
                Op::BinOp(BinOp {
                    op: BinOpKind::Add,
                    lhs: 0,
                    rhs: 1,
                    size: OpSize::I64,
                }),
            ),
            Stmt::new(
                Some(3),
                Op::LoadMem(LoadMem {
                    addr: 2,
                    size: OpSize::I8,
                }),
            ),
            Stmt::new(
                Some(4),
                Op::Extend(Extend {
                    value: 3,
                    from_size: OpSize::I8,
                    to_size: OpSize::I64,
                    is_signed: true,
                }),
            ),
            Stmt::new(
                None,
                Op::StoreReg(StoreReg {
                    reg: Gpr::Rax,
                    value: 4,
                    size: OpSize::I64,
                }),
            ),
        ]
    );
}

#[test]
fn decode_movsxd_register_form_sign_extends_i32_to_i64() {
    let d = decode_one(b"\x48\x63\xC1", 0).unwrap();
    assert_eq!(d.bytes_consumed, 3);
    assert_eq!(
        d.stmts,
        vec![
            Stmt::new(
                Some(0),
                Op::LoadReg(LoadReg {
                    reg: Gpr::Rcx,
                    size: OpSize::I32,
                }),
            ),
            Stmt::new(
                Some(1),
                Op::Extend(Extend {
                    value: 0,
                    from_size: OpSize::I32,
                    to_size: OpSize::I64,
                    is_signed: true,
                }),
            ),
            Stmt::new(
                None,
                Op::StoreReg(StoreReg {
                    reg: Gpr::Rax,
                    value: 1,
                    size: OpSize::I64,
                }),
            ),
        ]
    );
}

#[test]
fn decode_movsxd_without_rex_w_copies_i32_destination() {
    let d = decode_one(b"\x63\xC1", 0).unwrap();
    assert_eq!(d.bytes_consumed, 2);
    assert_eq!(
        d.stmts,
        vec![
            Stmt::new(
                Some(0),
                Op::LoadReg(LoadReg {
                    reg: Gpr::Rcx,
                    size: OpSize::I32,
                }),
            ),
            Stmt::new(
                None,
                Op::StoreReg(StoreReg {
                    reg: Gpr::Rax,
                    value: 0,
                    size: OpSize::I32,
                }),
            ),
        ]
    );

    let arpl = decode_one(b"\x66\x63\xC1", 0).unwrap();
    assert_eq!(arpl.bytes_consumed, 3);
    assert_eq!(
        arpl.stmts,
        vec![Stmt::new(
            None,
            Op::Trap(Trap {
                kind: TrapKind::Sigill,
            }),
        )]
    );
}

#[test]
fn decode_cmov_register_form_selects_between_source_and_old_dest() {
    let d = decode_one(b"\x48\x0F\x44\xC1", 0).unwrap();
    assert_eq!(d.bytes_consumed, 4);
    assert_eq!(
        d.stmts,
        vec![
            Stmt::new(
                Some(0),
                Op::LoadReg(LoadReg {
                    reg: Gpr::Rax,
                    size: OpSize::I64,
                }),
            ),
            Stmt::new(
                Some(1),
                Op::LoadReg(LoadReg {
                    reg: Gpr::Rcx,
                    size: OpSize::I64,
                }),
            ),
            Stmt::new(
                Some(2),
                Op::Select(Select {
                    cc: CondCode::Eq,
                    true_value: 1,
                    false_value: 0,
                    size: OpSize::I64,
                }),
            ),
            Stmt::new(
                None,
                Op::StoreReg(StoreReg {
                    reg: Gpr::Rax,
                    value: 2,
                    size: OpSize::I64,
                }),
            ),
        ]
    );
}

#[test]
fn decode_cmov_memory_form_uses_operand_size() {
    let d = decode_one(b"\x66\x0F\x45\x08", 0).unwrap();
    assert_eq!(d.bytes_consumed, 4);
    assert!(d.stmts.iter().any(|stmt| matches!(
        stmt.op,
        Op::LoadMem(LoadMem {
            size: OpSize::I16,
            ..
        })
    )));
    assert!(d.stmts.iter().any(|stmt| matches!(
        stmt.op,
        Op::Select(Select {
            cc: CondCode::Ne,
            size: OpSize::I16,
            ..
        })
    )));
}

#[test]
fn decode_setcc_register_form_stores_selected_byte() {
    let d = decode_one(b"\x0F\x94\xC0", 0).unwrap();
    assert_eq!(d.bytes_consumed, 3);
    assert_eq!(
        d.stmts,
        vec![
            Stmt::new(
                Some(0),
                Op::Constant(Constant {
                    value: 1,
                    size: OpSize::I8,
                }),
            ),
            Stmt::new(
                Some(1),
                Op::Constant(Constant {
                    value: 0,
                    size: OpSize::I8,
                }),
            ),
            Stmt::new(
                Some(2),
                Op::Select(Select {
                    cc: CondCode::Eq,
                    true_value: 0,
                    false_value: 1,
                    size: OpSize::I8,
                }),
            ),
            Stmt::new(
                None,
                Op::StoreReg(StoreReg {
                    reg: Gpr::Rax,
                    value: 2,
                    size: OpSize::I8,
                }),
            ),
        ]
    );
}

#[test]
fn decode_setcc_memory_form_stores_selected_byte() {
    let d = decode_one(b"\x0F\x95\x08", 0).unwrap();
    assert_eq!(d.bytes_consumed, 3);
    assert!(d.stmts.iter().any(|stmt| matches!(
        stmt.op,
        Op::Select(Select {
            cc: CondCode::Ne,
            size: OpSize::I8,
            ..
        })
    )));
    assert!(matches!(
        d.stmts.last().unwrap().op,
        Op::StoreMem(StoreMem {
            size: OpSize::I8,
            ..
        })
    ));
}

#[test]
fn decode_popcnt_requires_f3_prefix() {
    let r = decode_one(b"\x48\x0F\xB8\xC1", 0);
    assert_eq!(r.unwrap_err(), DecodeError::UnsupportedOpcode(0xB8));
}

#[test]
fn decode_popcnt_with_f3_prefix() {
    let d = decode_one(b"\xF3\x48\x0F\xB8\xC1", 0).unwrap();
    assert_eq!(d.bytes_consumed, 5);
    assert_eq!(
        d.stmts,
        vec![
            Stmt::new(
                Some(0),
                Op::LoadReg(LoadReg {
                    reg: Gpr::Rcx,
                    size: OpSize::I64,
                }),
            ),
            Stmt::new(
                Some(1),
                Op::Popcnt(Popcnt {
                    value: 0,
                    size: OpSize::I64,
                }),
            ),
            Stmt::new(
                None,
                Op::StoreReg(StoreReg {
                    reg: Gpr::Rax,
                    value: 1,
                    size: OpSize::I64,
                }),
            ),
            Stmt::new(
                None,
                Op::WriteFlagsPopcnt(WriteFlagsPopcnt {
                    src: 0,
                    size: OpSize::I64,
                }),
            ),
        ]
    );
}

#[test]
fn decode_lzcnt_tzcnt_write_exact_count_zero_flags() {
    let lzcnt = decode_one(b"\xF3\x48\x0F\xBD\xC1", 0).unwrap();
    assert_eq!(lzcnt.bytes_consumed, 5);
    assert!(matches!(lzcnt.stmts[1].op, Op::Lzcnt(_)));
    assert_eq!(
        lzcnt.stmts.last().unwrap(),
        &Stmt::new(
            None,
            Op::WriteFlagsCountZero(WriteFlagsCountZero {
                src: 0,
                result: 1,
                size: OpSize::I64,
            }),
        )
    );

    let tzcnt = decode_one(b"\xF3\x48\x0F\xBC\xC1", 0).unwrap();
    assert_eq!(tzcnt.bytes_consumed, 5);
    assert!(matches!(tzcnt.stmts[1].op, Op::Tzcnt(_)));
    assert_eq!(
        tzcnt.stmts.last().unwrap(),
        &Stmt::new(
            None,
            Op::WriteFlagsCountZero(WriteFlagsCountZero {
                src: 0,
                result: 1,
                size: OpSize::I64,
            }),
        )
    );
}

#[test]
fn decode_bsf_bare_is_tzcnt_with_zero_select() {
    // bsf rax, rcx  (48 0F BC C1) — bare (no F3) => BSF, not TZCNT.
    let d = decode_one(b"\x48\x0F\xBC\xC1", 0).unwrap();
    assert_eq!(d.bytes_consumed, 4);
    // src load, old-dst load, tzcnt, zero const, cmpflags, select, store.
    assert_eq!(
        d.stmts[0],
        Stmt::new(
            Some(0),
            Op::LoadReg(LoadReg {
                reg: Gpr::Rcx,
                size: OpSize::I64,
            }),
        )
    );
    assert!(matches!(d.stmts[2].op, Op::Tzcnt(Tzcnt { value: 0, .. })));
    assert!(matches!(
        d.stmts.iter().find_map(|s| match &s.op {
            Op::Select(sel) => Some(sel.cc),
            _ => None,
        }),
        Some(CondCode::Eq)
    ));
    assert!(matches!(
        d.stmts.last().unwrap().op,
        Op::StoreReg(StoreReg { reg: Gpr::Rax, .. })
    ));
}

#[test]
fn decode_bsr_bare_is_width_minus_lzcnt() {
    // bsr rax, rcx  (48 0F BD C1) — bare => BSR = (width-1) - lzcnt.
    let d = decode_one(b"\x48\x0F\xBD\xC1", 0).unwrap();
    assert_eq!(d.bytes_consumed, 4);
    assert!(matches!(d.stmts[2].op, Op::Lzcnt(Lzcnt { value: 0, .. })));
    assert_eq!(
        d.stmts[3],
        Stmt::new(
            Some(3),
            Op::Constant(Constant {
                value: 63,
                size: OpSize::I64,
            }),
        )
    );
    assert_eq!(
        d.stmts[4],
        Stmt::new(
            Some(4),
            Op::BinOp(BinOp {
                op: BinOpKind::Sub,
                lhs: 3,
                rhs: 2,
                size: OpSize::I64,
            }),
        )
    );
}

#[test]
fn decode_bsf_memory_form_deferred() {
    // bsf rax, [rcx] (48 0F BC 01, mod=00): register-direct only.
    assert_eq!(
        decode_one(b"\x48\x0F\xBC\x01", 0),
        Err(DecodeError::UnsupportedOpcode(0xBC))
    );
}

#[test]
fn decode_bswap_registers() {
    let d = decode_one(b"\x48\x0F\xC8", 0).unwrap();
    assert_eq!(d.bytes_consumed, 3);
    assert_eq!(
        d.stmts,
        vec![
            Stmt::new(
                Some(0),
                Op::LoadReg(LoadReg {
                    reg: Gpr::Rax,
                    size: OpSize::I64,
                }),
            ),
            Stmt::new(
                Some(1),
                Op::Bswap(Bswap {
                    value: 0,
                    size: OpSize::I64,
                }),
            ),
            Stmt::new(
                None,
                Op::StoreReg(StoreReg {
                    reg: Gpr::Rax,
                    value: 1,
                    size: OpSize::I64,
                }),
            ),
        ]
    );

    let d = decode_one(b"\x41\x0F\xC8", 0).unwrap();
    assert_eq!(d.bytes_consumed, 3);
    assert_eq!(
        d.stmts,
        vec![
            Stmt::new(
                Some(0),
                Op::LoadReg(LoadReg {
                    reg: Gpr::R8,
                    size: OpSize::I32,
                }),
            ),
            Stmt::new(
                Some(1),
                Op::Bswap(Bswap {
                    value: 0,
                    size: OpSize::I32,
                }),
            ),
            Stmt::new(
                None,
                Op::StoreReg(StoreReg {
                    reg: Gpr::R8,
                    value: 1,
                    size: OpSize::I32,
                }),
            ),
        ]
    );
}

#[test]
fn decode_bswap_rejects_16_bit_operand_size() {
    let r = decode_one(b"\x66\x0F\xC8", 0);
    assert_eq!(r.unwrap_err(), DecodeError::UnsupportedOpcode(0xC8));
}

#[test]
fn decode_cmpxchg_rm_r_register_direct_emission_order() {
    // cmpxchg rcx, rdx  (REX.W 0F B1 /r, modrm 0xD1 = 11 010 001):
    //   reg=rdx (src), rm=rcx (dst). I64 operands.
    let d = decode_one(b"\x48\x0F\xB1\xD1", 0).unwrap();
    assert_eq!(d.bytes_consumed, 4);
    assert_eq!(
        d.stmts,
        vec![
            // ref_acc = RAX (operand size)
            Stmt::new(
                Some(0),
                Op::LoadReg(LoadReg {
                    reg: Gpr::Rax,
                    size: OpSize::I64,
                }),
            ),
            // ref_rax_full = RAX (I64) for the accumulator writeback width
            Stmt::new(
                Some(1),
                Op::LoadReg(LoadReg {
                    reg: Gpr::Rax,
                    size: OpSize::I64,
                }),
            ),
            // ref_src = ModRM.reg (rdx)
            Stmt::new(
                Some(2),
                Op::LoadReg(LoadReg {
                    reg: Gpr::Rdx,
                    size: OpSize::I64,
                }),
            ),
            // ref_dst = ModRM.rm (rcx)
            Stmt::new(
                Some(3),
                Op::LoadReg(LoadReg {
                    reg: Gpr::Rcx,
                    size: OpSize::I64,
                }),
            ),
            // ZF = (acc == dst); result ref required by the Rust lowerer.
            Stmt::new(
                Some(4),
                Op::CmpFlags(CmpFlags {
                    lhs: 0,
                    rhs: 3,
                    size: OpSize::I64,
                }),
            ),
            // new_dst: equal -> src, else dst unchanged.
            Stmt::new(
                Some(5),
                Op::Select(Select {
                    cc: CondCode::Eq,
                    true_value: 2,
                    false_value: 3,
                    size: OpSize::I64,
                }),
            ),
            // new_rax: equal -> full RAX (unchanged), else dst (failure).
            Stmt::new(
                Some(6),
                Op::Select(Select {
                    cc: CondCode::Eq,
                    true_value: 1,
                    false_value: 3,
                    size: OpSize::I64,
                }),
            ),
            // Accumulator writeback FIRST.
            Stmt::new(
                None,
                Op::StoreReg(StoreReg {
                    reg: Gpr::Rax,
                    value: 6,
                    size: OpSize::I64,
                }),
            ),
            // Then DEST.
            Stmt::new(
                None,
                Op::StoreReg(StoreReg {
                    reg: Gpr::Rcx,
                    value: 5,
                    size: OpSize::I64,
                }),
            ),
        ]
    );
}

#[test]
fn decode_cmpxchg_i16_failure_writes_ax_only() {
    // cmpxchg cx, dx  (66 0F B1 /r, modrm 0xD1): I16 operands. The failure
    // writeback selects into AX (I16), preserving the rest of RAX.
    let d = decode_one(b"\x66\x0F\xB1\xD1", 0).unwrap();
    assert_eq!(d.bytes_consumed, 4);
    // No ref_rax_full load for I16: acc, src, dst, cmp, new_dst, new_rax.
    assert_eq!(d.stmts.len(), 8);
    assert_eq!(
        d.stmts[0],
        Stmt::new(
            Some(0),
            Op::LoadReg(LoadReg {
                reg: Gpr::Rax,
                size: OpSize::I16,
            }),
        )
    );
    // ref_src is ref 1 (no full-RAX load was inserted).
    assert_eq!(
        d.stmts[1],
        Stmt::new(
            Some(1),
            Op::LoadReg(LoadReg {
                reg: Gpr::Rdx,
                size: OpSize::I16,
            }),
        )
    );
    // new_rax selects acc (success keeps AX) vs dst (failure), at I16.
    assert_eq!(
        d.stmts[5],
        Stmt::new(
            Some(5),
            Op::Select(Select {
                cc: CondCode::Eq,
                true_value: 0,
                false_value: 2,
                size: OpSize::I16,
            }),
        )
    );
    // Accumulator store is I16 (AX only) and comes before the DEST store.
    assert_eq!(
        d.stmts[6],
        Stmt::new(
            None,
            Op::StoreReg(StoreReg {
                reg: Gpr::Rax,
                value: 5,
                size: OpSize::I16,
            }),
        )
    );
    assert!(matches!(
        d.stmts[7].op,
        Op::StoreReg(StoreReg {
            reg: Gpr::Rcx,
            size: OpSize::I16,
            ..
        })
    ));
}

#[test]
fn decode_cmpxchg_memory_form_deferred() {
    // cmpxchg [rcx], rdx  (0F B1 /r, modrm 0x11 = 00 010 001): mod != 3.
    let r = decode_one(b"\x0F\xB1\x11", 0);
    assert_eq!(r.unwrap_err(), DecodeError::UnsupportedOpcode(0xB1));
}

#[test]
fn decode_crc32c_register_forms() {
    let d = decode_one(b"\xF2\x0F\x38\xF0\xC1", 0).unwrap();
    assert_eq!(d.bytes_consumed, 5);
    assert_eq!(
        d.stmts,
        vec![
            Stmt::new(
                Some(0),
                Op::LoadReg(LoadReg {
                    reg: Gpr::Rax,
                    size: OpSize::I32,
                }),
            ),
            Stmt::new(
                Some(1),
                Op::LoadReg(LoadReg {
                    reg: Gpr::Rcx,
                    size: OpSize::I8,
                }),
            ),
            Stmt::new(
                Some(2),
                Op::Crc32c(Crc32c {
                    crc: 0,
                    data: 1,
                    data_size: OpSize::I8,
                }),
            ),
            Stmt::new(
                None,
                Op::StoreReg(StoreReg {
                    reg: Gpr::Rax,
                    value: 2,
                    size: OpSize::I32,
                }),
            ),
        ]
    );

    let d = decode_one(b"\xF2\x48\x0F\x38\xF1\xC1", 0).unwrap();
    assert_eq!(d.bytes_consumed, 6);
    assert_eq!(
        d.stmts,
        vec![
            Stmt::new(
                Some(0),
                Op::LoadReg(LoadReg {
                    reg: Gpr::Rax,
                    size: OpSize::I64,
                }),
            ),
            Stmt::new(
                Some(1),
                Op::LoadReg(LoadReg {
                    reg: Gpr::Rcx,
                    size: OpSize::I64,
                }),
            ),
            Stmt::new(
                Some(2),
                Op::Crc32c(Crc32c {
                    crc: 0,
                    data: 1,
                    data_size: OpSize::I64,
                }),
            ),
            Stmt::new(
                None,
                Op::StoreReg(StoreReg {
                    reg: Gpr::Rax,
                    value: 2,
                    size: OpSize::I64,
                }),
            ),
        ]
    );
}

#[test]
fn decode_movbe_memory_forms() {
    let d = decode_one(b"\x0F\x38\xF0\x08", 0).unwrap();
    assert_eq!(d.bytes_consumed, 4);
    assert!(d.stmts.iter().any(|stmt| matches!(
        stmt.op,
        Op::Bswap(Bswap {
            size: OpSize::I32,
            ..
        })
    )));
    assert!(matches!(
        d.stmts.last().unwrap().op,
        Op::StoreReg(StoreReg {
            reg: Gpr::Rcx,
            size: OpSize::I32,
            ..
        })
    ));

    let d = decode_one(b"\x66\x0F\x38\xF1\x08", 0).unwrap();
    assert_eq!(d.bytes_consumed, 5);
    assert!(d.stmts.iter().any(|stmt| matches!(
        stmt.op,
        Op::Bswap(Bswap {
            size: OpSize::I16,
            ..
        })
    )));
    assert!(matches!(
        d.stmts.last().unwrap().op,
        Op::StoreMem(StoreMem {
            size: OpSize::I16,
            ..
        })
    ));
}

#[test]
fn decode_movbe_rejects_register_rm_form() {
    let r = decode_one(b"\x0F\x38\xF0\xC1", 0);
    assert_eq!(r.unwrap_err(), DecodeError::UnsupportedOpcode(0xF0));
}

#[test]
fn decode_crc32c_requires_f2_prefix() {
    let r = decode_one(b"\x0F\x38\xF1\xC1", 0);
    assert_eq!(r.unwrap_err(), DecodeError::UnsupportedOpcode(0xF1));
}

#[test]
fn decode_cond_jump_rel8() {
    let d = decode_one_at(b"\x74\xFE", 0, 0x1000).unwrap();
    assert_eq!(d.bytes_consumed, 2);
    assert_eq!(
        d.stmts,
        vec![Stmt::new(
            None,
            Op::CondJumpRel(CondJumpRel {
                cc: CondCode::Eq,
                target_guest_pc: 0x1000,
                fallthrough_guest_pc: 0x1002,
            }),
        )]
    );
}

#[test]
fn decode_cond_jump_rel8_covers_supported_conditions() {
    let supported: &[(u8, CondCode)] = &[
        (0x70, CondCode::Ov),
        (0x71, CondCode::NoOv),
        (0x72, CondCode::Nc),
        (0x73, CondCode::Cc),
        (0x74, CondCode::Eq),
        (0x75, CondCode::Ne),
        (0x76, CondCode::Ule),
        (0x77, CondCode::Ugt),
        (0x78, CondCode::Mi),
        (0x79, CondCode::Pl),
        (0x7C, CondCode::Slt),
        (0x7D, CondCode::Sge),
        (0x7E, CondCode::Sle),
        (0x7F, CondCode::Sgt),
    ];

    for &(opcode, cc) in supported {
        let d = decode_one_at(&[opcode, 0x02], 0, 0x1000).unwrap();
        assert_eq!(d.bytes_consumed, 2);
        assert_eq!(
            d.stmts,
            vec![Stmt::new(
                None,
                Op::CondJumpRel(CondJumpRel {
                    cc,
                    target_guest_pc: 0x1004,
                    fallthrough_guest_pc: 0x1002,
                }),
            )]
        );
    }
}

#[test]
fn decode_cond_jump_rel8_requires_no_rex_and_no_operand_override() {
    let d = decode_one(b"\x48\x74\x00", 0);
    assert_eq!(d.unwrap_err(), DecodeError::UnsupportedOpcode(0x74));
    let d = decode_one(b"\x66\x74\x00", 0);
    assert_eq!(d.unwrap_err(), DecodeError::UnsupportedOpcode(0x74));
}

#[test]
fn decode_cond_jump_rel8_rejects_pf_and_npf() {
    assert_eq!(
        decode_one(b"\x7A\x00", 0),
        Err(DecodeError::UnsupportedOpcode(0x7A))
    );
    assert_eq!(
        decode_one(b"\x7B\x00", 0),
        Err(DecodeError::UnsupportedOpcode(0x7B))
    );
}

#[test]
fn decode_cond_jump_rel32() {
    // 0F 80 F0 FF FF FF => je rel32(-16) with 0x2000 PC
    let d = decode_one_at(b"\x0F\x80\xF0\xFF\xFF\xFF", 0, 0x2000).unwrap();
    assert_eq!(d.bytes_consumed, 6);
    assert_eq!(
        d.stmts,
        vec![Stmt::new(
            None,
            Op::CondJumpRel(CondJumpRel {
                cc: CondCode::Ov,
                target_guest_pc: 0x1FF6,
                fallthrough_guest_pc: 0x2006,
            }),
        )]
    );
}

#[test]
fn decode_call_rel32() {
    let d = decode_one_at(b"\xE8\xFE\xFF\xFF\xFF", 0, 0x1000).unwrap();
    assert_eq!(d.bytes_consumed, 5);
    assert_eq!(
        d.stmts,
        vec![Stmt::new(
            None,
            Op::CallRel(CallRel {
                target_guest_pc: 0x1003,
                return_guest_pc: 0x1005,
            }),
        )]
    );
}

#[test]
fn decode_cond_jump_rel32_covers_supported_conditions() {
    let supported: &[(u8, CondCode)] = &[
        (0x80, CondCode::Ov),
        (0x81, CondCode::NoOv),
        (0x82, CondCode::Nc),
        (0x83, CondCode::Cc),
        (0x84, CondCode::Eq),
        (0x85, CondCode::Ne),
        (0x86, CondCode::Ule),
        (0x87, CondCode::Ugt),
        (0x88, CondCode::Mi),
        (0x89, CondCode::Pl),
        (0x8C, CondCode::Slt),
        (0x8D, CondCode::Sge),
        (0x8E, CondCode::Sle),
        (0x8F, CondCode::Sgt),
    ];

    for &(opcode, cc) in supported {
        let d = decode_one_at(&[0x0F, opcode, 0x02, 0x00, 0x00, 0x00], 0, 0x1000).unwrap();
        assert_eq!(d.bytes_consumed, 6);
        assert_eq!(
            d.stmts,
            vec![Stmt::new(
                None,
                Op::CondJumpRel(CondJumpRel {
                    cc,
                    target_guest_pc: 0x1008,
                    fallthrough_guest_pc: 0x1006,
                }),
            )]
        );
    }
}

#[test]
fn decode_call_rel32_rejects_prefixes() {
    assert_eq!(
        decode_one(b"\x66\xE8\x00\x00\x00\x00", 0),
        Err(DecodeError::UnsupportedOpcode(0xE8))
    );
    assert_eq!(
        decode_one(b"\x2E\xE8\x00\x00\x00\x00", 0),
        Err(DecodeError::UnsupportedOpcode(0xE8))
    );
    assert_eq!(
        decode_one(b"\x48\xE8\x00\x00\x00\x00", 0),
        Err(DecodeError::UnsupportedOpcode(0xE8))
    );
}

#[test]
fn decode_call_rel32_truncates_when_missing_imm() {
    assert_eq!(decode_one(b"\xE8", 0), Err(DecodeError::Truncated));
    assert_eq!(
        decode_one(b"\xE8\x01", 0),
        Err(DecodeError::Truncated)
    );
}

#[test]
fn decode_jump_rel8() {
    let d = decode_one_at(b"\xEB\xFE", 0, 0x1000).unwrap();
    assert_eq!(d.bytes_consumed, 2);
    assert_eq!(
        d.stmts,
        vec![Stmt::new(
            None,
            Op::JumpRel(JumpRel {
                target_guest_pc: 0x1000,
            }),
        )]
    );
}

#[test]
fn decode_jrcxz_rel8() {
    let d = decode_one_at(b"\xE3\x02", 0, 0x1000).unwrap();
    assert_eq!(d.bytes_consumed, 2);
    assert_eq!(
        d.stmts,
        vec![
            Stmt::new(
                Some(0),
                Op::LoadReg(LoadReg {
                    reg: Gpr::Rcx,
                    size: OpSize::I64,
                }),
            ),
            Stmt::new(
                Some(1),
                Op::Constant(Constant {
                    value: 0,
                    size: OpSize::I64,
                }),
            ),
            Stmt::new(
                Some(2),
                Op::CmpFlags(CmpFlags {
                    lhs: 0,
                    rhs: 1,
                    size: OpSize::I64,
                }),
            ),
            Stmt::new(
                None,
                Op::CondJumpRel(CondJumpRel {
                    cc: CondCode::Eq,
                    target_guest_pc: 0x1004,
                    fallthrough_guest_pc: 0x1002,
                }),
            ),
        ]
    );

    let d = decode_one_at(b"\x67\xE3\xFE", 0, 0x1000).unwrap();
    assert_eq!(d.bytes_consumed, 3);
    assert!(matches!(
        d.stmts[0].op,
        Op::LoadReg(LoadReg {
            reg: Gpr::Rcx,
            size: OpSize::I32,
        })
    ));
}

#[test]
fn decode_loop_rel8_decrements_counter_and_branches_on_nonzero() {
    let d = decode_one_at(b"\xE2\xFE", 0, 0x9000).unwrap();
    assert_eq!(d.bytes_consumed, 2);
    assert_eq!(
        d.stmts,
        vec![
            Stmt::new(
                Some(0),
                Op::LoadReg(LoadReg {
                    reg: Gpr::Rcx,
                    size: OpSize::I64,
                }),
            ),
            Stmt::new(
                Some(1),
                Op::Constant(Constant {
                    value: 1,
                    size: OpSize::I64,
                }),
            ),
            Stmt::new(
                Some(2),
                Op::BinOp(BinOp {
                    op: BinOpKind::Sub,
                    lhs: 0,
                    rhs: 1,
                    size: OpSize::I64,
                }),
            ),
            Stmt::new(
                None,
                Op::StoreReg(StoreReg {
                    reg: Gpr::Rcx,
                    value: 2,
                    size: OpSize::I64,
                }),
            ),
            Stmt::new(
                Some(4),
                Op::Constant(Constant {
                    value: 0,
                    size: OpSize::I64,
                }),
            ),
            Stmt::new(
                Some(5),
                Op::CmpFlags(CmpFlags {
                    lhs: 2,
                    rhs: 4,
                    size: OpSize::I64,
                }),
            ),
            Stmt::new(
                None,
                Op::CondJumpRel(CondJumpRel {
                    cc: CondCode::Ne,
                    target_guest_pc: 0x9000,
                    fallthrough_guest_pc: 0x9002,
                }),
            ),
        ]
    );

    let d = decode_one_at(b"\x67\xE2\x00", 0, 0x9000).unwrap();
    assert_eq!(d.bytes_consumed, 3);
    assert!(matches!(
        d.stmts[0].op,
        Op::LoadReg(LoadReg {
            reg: Gpr::Rcx,
            size: OpSize::I32,
        })
    ));
}

#[test]
fn decode_jump_rel32() {
    let d = decode_one_at(b"\xE9\xFC\xFF\xFF\xFF", 0, 0x2000).unwrap();
    assert_eq!(d.bytes_consumed, 5);
    assert_eq!(
        d.stmts,
        vec![Stmt::new(
            None,
            Op::JumpRel(JumpRel {
                target_guest_pc: 0x2001,
            }),
        )]
    );
}

#[test]
fn decode_jump_rel32_truncates_when_missing_imm() {
    assert_eq!(decode_one(b"\xE9", 0), Err(DecodeError::Truncated));
    assert_eq!(
        decode_one(b"\xE9\x01\x00\x00", 0),
        Err(DecodeError::Truncated)
    );
}

#[test]
fn decode_jump_relative_rejects_prefixes() {
    assert_eq!(
        decode_one(b"\x66\xEB\x00", 0),
        Err(DecodeError::UnsupportedOpcode(0xEB))
    );
    assert_eq!(
        decode_one(b"\x2E\xEB\x00", 0),
        Err(DecodeError::UnsupportedOpcode(0xEB))
    );
    assert_eq!(
        decode_one(b"\x48\xEB\x00", 0),
        Err(DecodeError::UnsupportedOpcode(0xEB))
    );
    assert_eq!(
        decode_one(b"\x66\xE9\x00\x00\x00\x00", 0),
        Err(DecodeError::UnsupportedOpcode(0xE9))
    );
    assert_eq!(
        decode_one(b"\x2E\xE9\x00\x00\x00\x00", 0),
        Err(DecodeError::UnsupportedOpcode(0xE9))
    );
    assert_eq!(
        decode_one(b"\x48\xE9\x00\x00\x00\x00", 0),
        Err(DecodeError::UnsupportedOpcode(0xE9))
    );
}

#[test]
fn decode_ret_ops() {
    let d = decode_one(b"\xC3", 0).unwrap();
    assert_eq!(d.bytes_consumed, 1);
    assert_eq!(d.stmts, vec![Stmt::new(None, Op::Return(Return))]);

    let d = decode_one_at(b"\xC2\x34\x12", 0, 0x1000).unwrap();
    assert_eq!(d.bytes_consumed, 3);
    assert_eq!(
        d.stmts,
        vec![Stmt::new(
            None,
            Op::RetAdjusted(RetAdjusted { pop_bytes: 0x123c }),
        )]
    );
}

#[test]
fn decode_leave() {
    let d = decode_one(b"\xC9", 0).unwrap();
    assert_eq!(d.bytes_consumed, 1);
    assert_eq!(
        d.stmts,
        vec![
            Stmt::new(
                Some(0),
                Op::LoadReg(LoadReg {
                    reg: Gpr::Rbp,
                    size: OpSize::I64,
                }),
            ),
            Stmt::new(
                None,
                Op::StoreReg(StoreReg {
                    reg: Gpr::Rsp,
                    value: 0,
                    size: OpSize::I64,
                }),
            ),
            Stmt::new(
                Some(2),
                Op::LoadReg(LoadReg {
                    reg: Gpr::Rsp,
                    size: OpSize::I64,
                }),
            ),
            Stmt::new(
                Some(3),
                Op::LoadMem(LoadMem {
                    addr: 2,
                    size: OpSize::I64,
                }),
            ),
            Stmt::new(
                None,
                Op::StoreReg(StoreReg {
                    reg: Gpr::Rbp,
                    value: 3,
                    size: OpSize::I64,
                }),
            ),
            Stmt::new(None, Op::RspAdjust(RspAdjust { delta_bytes: 8 })),
        ]
    );
}

#[test]
fn decode_enter_level_zero_sets_up_stack_frame() {
    let d = decode_one(b"\xC8\x20\x00\x00", 0).unwrap();
    assert_eq!(d.bytes_consumed, 4);
    assert_eq!(
        d.stmts,
        vec![
            Stmt::new(
                Some(0),
                Op::LoadReg(LoadReg {
                    reg: Gpr::Rbp,
                    size: OpSize::I64,
                }),
            ),
            Stmt::new(None, Op::RspAdjust(RspAdjust { delta_bytes: -8 })),
            Stmt::new(
                Some(2),
                Op::LoadReg(LoadReg {
                    reg: Gpr::Rsp,
                    size: OpSize::I64,
                }),
            ),
            Stmt::new(
                None,
                Op::StoreMem(StoreMem {
                    addr: 2,
                    value: 0,
                    size: OpSize::I64,
                }),
            ),
            Stmt::new(
                None,
                Op::StoreReg(StoreReg {
                    reg: Gpr::Rbp,
                    value: 2,
                    size: OpSize::I64,
                }),
            ),
            Stmt::new(None, Op::RspAdjust(RspAdjust { delta_bytes: -0x20 })),
        ]
    );

    assert_eq!(
        decode_one(b"\xC8\x20\x00", 0),
        Err(DecodeError::Truncated)
    );
    assert_eq!(
        decode_one(b"\xC8\x20\x00\x01", 0),
        Err(DecodeError::UnsupportedOpcode(0xC8))
    );
}

#[test]
fn decode_ret_imm16_truncates_when_missing_imm() {
    assert_eq!(decode_one(b"\xC2", 0), Err(DecodeError::Truncated));
    assert_eq!(
        decode_one(b"\xC2\x12", 0),
        Err(DecodeError::Truncated)
    );
}

#[test]
fn decode_ret_rejects_prefixes() {
    assert_eq!(
        decode_one(b"\x66\xC3", 0),
        Err(DecodeError::UnsupportedOpcode(0xC3))
    );
    assert_eq!(
        decode_one(b"\x2E\xC2\x34\x12", 0),
        Err(DecodeError::UnsupportedOpcode(0xC2))
    );
    assert_eq!(
        decode_one(b"\xF0\xC2\x34\x12", 0),
        Err(DecodeError::UnsupportedOpcode(0xC2))
    );
    assert_eq!(
        decode_one(b"\x66\xC2\x34\x12", 0),
        Err(DecodeError::UnsupportedOpcode(0xC2))
    );
    assert_eq!(
        decode_one(b"\xF0\xC3", 0),
        Err(DecodeError::UnsupportedOpcode(0xC3))
    );
    assert_eq!(
        decode_one(b"\x2E\xC3", 0),
        Err(DecodeError::UnsupportedOpcode(0xC3))
    );
}

#[test]
fn decode_iret_emits_sigill_trap() {
    let d = decode_one(b"\xCF", 0).unwrap();
    assert_eq!(d.bytes_consumed, 1);
    assert_eq!(
        d.stmts,
        vec![Stmt::new(
            None,
            Op::Trap(Trap {
                kind: TrapKind::Sigill,
            }),
        )]
    );

    assert_eq!(
        decode_one(b"\x66\xCF", 0),
        Err(DecodeError::UnsupportedOpcode(0xCF))
    );
}

#[test]
fn decode_control_and_debug_register_moves_emit_sigill_traps() {
    for bytes in [
        b"\x0F\x20\xC0".as_slice(),
        b"\x0F\x21\xC0".as_slice(),
        b"\x0F\x22\xC0".as_slice(),
        b"\x0F\x23\xC0".as_slice(),
    ] {
        let d = decode_one(bytes, 0).unwrap();
        assert_eq!(d.bytes_consumed, 3);
        assert_eq!(
            d.stmts,
            vec![Stmt::new(
                None,
                Op::Trap(Trap {
                    kind: TrapKind::Sigill,
                }),
            )]
        );
    }

    assert_eq!(
        decode_one(b"\x0F\x20\x00", 0),
        Err(DecodeError::UnsupportedOpcode(0x20))
    );
    assert_eq!(
        decode_one(b"\x66\x0F\x22\xC0", 0),
        Err(DecodeError::UnsupportedOpcode(0x22))
    );
}

#[test]
fn decode_vmx_and_smx_privileged_instructions_emit_sigill_traps() {
    let getsec = decode_one(b"\x0F\x37", 0).unwrap();
    assert_eq!(getsec.bytes_consumed, 2);
    assert_eq!(
        getsec.stmts,
        vec![Stmt::new(
            None,
            Op::Trap(Trap {
                kind: TrapKind::Sigill,
            }),
        )]
    );

    for (bytes, consumed) in [
        (b"\x0F\x78\xC0".as_slice(), 3),
        (b"\x0F\x79\xC0".as_slice(), 3),
        (b"\x0F\x78\x40\x10".as_slice(), 4),
        (b"\x0F\x79\x84\x88\x20\x00\x00\x00".as_slice(), 8),
    ] {
        let d = decode_one(bytes, 0).unwrap();
        assert_eq!(d.bytes_consumed, consumed);
        assert_eq!(
            d.stmts,
            vec![Stmt::new(
                None,
                Op::Trap(Trap {
                    kind: TrapKind::Sigill,
                }),
            )]
        );
    }

    assert_eq!(
        decode_one(b"\x66\x0F\x78\xC0", 0),
        Err(DecodeError::UnsupportedOpcode(0x78))
    );
}

#[test]
fn decode_ud1_ud0_emit_sigill_and_consume_modrm_operands() {
    for (bytes, consumed) in [
        (b"\x0F\xB9\xC0".as_slice(), 3),
        (b"\x0F\xB9\x40\x10".as_slice(), 4),
        (b"\x0F\xFF\xC0".as_slice(), 3),
        (b"\x0F\xFF\x84\x88\x20\x00\x00\x00".as_slice(), 8),
    ] {
        let d = decode_one(bytes, 0).unwrap();
        assert_eq!(d.bytes_consumed, consumed);
        assert_eq!(
            d.stmts,
            vec![Stmt::new(
                None,
                Op::Trap(Trap {
                    kind: TrapKind::Sigill,
                }),
            )]
        );
    }

    assert_eq!(
        decode_one(b"\x66\x0F\xB9\xC0", 0),
        Err(DecodeError::UnsupportedOpcode(0xB9))
    );
}

#[test]
fn decode_group3_not_neg() {
    let d = decode_one(b"\xF7\xD0", 0).unwrap();
    assert_eq!(d.bytes_consumed, 2);
    assert_eq!(
        d.stmts,
        vec![
            Stmt::new(
                Some(0),
                Op::LoadReg(LoadReg {
                    reg: Gpr::Rax,
                    size: OpSize::I32,
                }),
            ),
            Stmt::new(
                Some(1),
                Op::Constant(Constant {
                    value: 0xFFFF_FFFF,
                    size: OpSize::I32,
                }),
            ),
            Stmt::new(
                Some(2),
                Op::BinOp(BinOp {
                    op: BinOpKind::Xor,
                    lhs: 0,
                    rhs: 1,
                    size: OpSize::I32,
                }),
            ),
            Stmt::new(
                None,
                Op::StoreReg(StoreReg {
                    reg: Gpr::Rax,
                    value: 2,
                    size: OpSize::I32,
                }),
            ),
        ]
    );

    let d = decode_one(b"\x48\xF7\x18\x10", 0).unwrap();
    assert!(d.bytes_consumed >= 2);
    assert!(matches!(d.stmts.last().unwrap().op, Op::StoreMem(_)));

    let d = decode_one(b"\xF7\x18\x10", 0).unwrap();
    assert!(matches!(d.stmts.last().unwrap().op, Op::StoreMem(_)));
}

#[test]
fn decode_test_rm_r_sets_alu_flags_without_result_store() {
    let d = decode_one(b"\x48\x85\xC8", 0).unwrap();
    assert_eq!(d.bytes_consumed, 3);
    assert_eq!(
        d.stmts,
        vec![
            Stmt::new(
                Some(0),
                Op::LoadReg(LoadReg {
                    reg: Gpr::Rcx,
                    size: OpSize::I64,
                }),
            ),
            Stmt::new(
                Some(1),
                Op::LoadReg(LoadReg {
                    reg: Gpr::Rax,
                    size: OpSize::I64,
                }),
            ),
            Stmt::new(
                None,
                Op::AluFlags(AluFlags {
                    op: BinOpKind::And,
                    lhs: 1,
                    rhs: 0,
                    size: OpSize::I64,
                }),
            ),
        ]
    );
}

#[test]
fn decode_test_rm8_r8_sets_alu_flags_without_result_store() {
    let d = decode_one(b"\x84\xC8", 0).unwrap();
    assert_eq!(d.bytes_consumed, 2);
    assert_eq!(
        d.stmts,
        vec![
            Stmt::new(
                Some(0),
                Op::LoadReg(LoadReg {
                    reg: Gpr::Rcx,
                    size: OpSize::I8,
                }),
            ),
            Stmt::new(
                Some(1),
                Op::LoadReg(LoadReg {
                    reg: Gpr::Rax,
                    size: OpSize::I8,
                }),
            ),
            Stmt::new(
                None,
                Op::AluFlags(AluFlags {
                    op: BinOpKind::And,
                    lhs: 1,
                    rhs: 0,
                    size: OpSize::I8,
                }),
            ),
        ]
    );
}

#[test]
fn decode_group3_test_immediate_sets_alu_flags() {
    let d = decode_one(b"\xF6\xC0\x80", 0).unwrap();
    assert_eq!(d.bytes_consumed, 3);
    assert_eq!(
        d.stmts,
        vec![
            Stmt::new(
                Some(0),
                Op::Constant(Constant {
                    value: 0x80,
                    size: OpSize::I8,
                }),
            ),
            Stmt::new(
                Some(1),
                Op::LoadReg(LoadReg {
                    reg: Gpr::Rax,
                    size: OpSize::I8,
                }),
            ),
            Stmt::new(
                None,
                Op::AluFlags(AluFlags {
                    op: BinOpKind::And,
                    lhs: 1,
                    rhs: 0,
                    size: OpSize::I8,
                }),
            ),
        ]
    );
}

#[test]
fn decode_group3_neg() {
    let d = decode_one(b"\xF7\xD8", 0).unwrap();
    assert_eq!(d.bytes_consumed, 2);
    assert_eq!(
        d.stmts[2],
        Stmt::new(
            Some(2),
            Op::BinOp(BinOp {
                op: BinOpKind::Sub,
                lhs: 1,
                rhs: 0,
                size: OpSize::I32,
            }),
        )
    );
}

#[test]
fn decode_group3_not_byte() {
    // F6 /2: NOT r/m8 -> dst = dst XOR 0xFF
    let d = decode_one(b"\xF6\xD3", 0).unwrap();
    assert_eq!(d.bytes_consumed, 2);
    assert_eq!(
        d.stmts,
        vec![
            Stmt::new(
                Some(0),
                Op::LoadReg(LoadReg {
                    reg: Gpr::Rbx,
                    size: OpSize::I8,
                }),
            ),
            Stmt::new(
                Some(1),
                Op::Constant(Constant {
                    value: 0xFF,
                    size: OpSize::I8,
                }),
            ),
            Stmt::new(
                Some(2),
                Op::BinOp(BinOp {
                    op: BinOpKind::Xor,
                    lhs: 0,
                    rhs: 1,
                    size: OpSize::I8,
                }),
            ),
            Stmt::new(
                None,
                Op::StoreReg(StoreReg {
                    reg: Gpr::Rbx,
                    value: 2,
                    size: OpSize::I8,
                }),
            ),
        ]
    );
}

#[test]
fn decode_group3_neg_byte() {
    // F6 /3: NEG r/m8 -> dst = 0 - dst
    let d = decode_one(b"\xF6\xD8", 0).unwrap();
    assert_eq!(d.bytes_consumed, 2);
    assert_eq!(
        d.stmts,
        vec![
            Stmt::new(
                Some(0),
                Op::LoadReg(LoadReg {
                    reg: Gpr::Rax,
                    size: OpSize::I8,
                }),
            ),
            Stmt::new(
                Some(1),
                Op::Constant(Constant {
                    value: 0,
                    size: OpSize::I8,
                }),
            ),
            Stmt::new(
                Some(2),
                Op::BinOp(BinOp {
                    op: BinOpKind::Sub,
                    lhs: 1,
                    rhs: 0,
                    size: OpSize::I8,
                }),
            ),
            Stmt::new(
                None,
                Op::StoreReg(StoreReg {
                    reg: Gpr::Rax,
                    value: 2,
                    size: OpSize::I8,
                }),
            ),
        ]
    );
}

#[test]
fn decode_group4_inc_dec_byte_memory() {
    // FE /0: INC byte ptr [rax]
    let inc = decode_one(b"\xFE\x00", 0).unwrap();
    assert!(inc.bytes_consumed >= 2);
    assert!(matches!(
        inc.stmts.last().unwrap().op,
        Op::StoreMem(StoreMem {
            size: OpSize::I8,
            ..
        })
    ));
    assert!(inc.stmts.iter().any(|s| matches!(
        s.op,
        Op::BinOp(BinOp {
            op: BinOpKind::Add,
            size: OpSize::I8,
            ..
        })
    )));

    // FE /1: DEC byte ptr [rax]
    let dec = decode_one(b"\xFE\x08", 0).unwrap();
    assert!(dec.bytes_consumed >= 2);
    assert!(matches!(
        dec.stmts.last().unwrap().op,
        Op::StoreMem(StoreMem {
            size: OpSize::I8,
            ..
        })
    ));
    assert!(dec.stmts.iter().any(|s| matches!(
        s.op,
        Op::BinOp(BinOp {
            op: BinOpKind::Sub,
            size: OpSize::I8,
            ..
        })
    )));
}

#[test]
fn decode_group5_inc_dec_rexw_register() {
    // 48 FF C0: INC rax (64-bit)
    let inc = decode_one(b"\x48\xFF\xC0", 0).unwrap();
    assert_eq!(inc.bytes_consumed, 3);
    assert_eq!(
        inc.stmts.last().unwrap(),
        &Stmt::new(
            None,
            Op::StoreReg(StoreReg {
                reg: Gpr::Rax,
                value: 2,
                size: OpSize::I64,
            }),
        )
    );
    assert!(inc.stmts.iter().any(|s| matches!(
        s.op,
        Op::BinOp(BinOp {
            op: BinOpKind::Add,
            size: OpSize::I64,
            ..
        })
    )));

    // 48 FF C8: DEC rax (64-bit)
    let dec = decode_one(b"\x48\xFF\xC8", 0).unwrap();
    assert_eq!(dec.bytes_consumed, 3);
    assert!(matches!(
        dec.stmts.last().unwrap().op,
        Op::StoreReg(StoreReg {
            reg: Gpr::Rax,
            size: OpSize::I64,
            ..
        })
    ));
    assert!(dec.stmts.iter().any(|s| matches!(
        s.op,
        Op::BinOp(BinOp {
            op: BinOpKind::Sub,
            size: OpSize::I64,
            ..
        })
    )));
}

#[test]
fn decode_group3_unsupported_subop() {
    // /1 has no decode (only /0 is TEST here).
    assert_eq!(
        decode_one(b"\xF7\xC8", 0),
        Err(DecodeError::UnsupportedOpcode(0xF7))
    );
}

#[test]
fn decode_group3_muldiv_memory_form_deferred() {
    // mul dword [rax] (F7 /4, mod=00): register-direct only; the memory
    // form is still unsupported.
    assert_eq!(
        decode_one(b"\xF7\x20", 0),
        Err(DecodeError::UnsupportedOpcode(0xF7))
    );
}

#[test]
fn decode_group3_mul_imul_div_idiv_register_direct() {
    // (reg digit, opcode byte) -> (low kind, high kind). All over rcx
    // (REX.W F7 /digit, modrm = 11 <digit> 001).
    let cases = [
        (4u8, BinOpKind::Mul, BinOpKind::UMulHi), // mul rcx
        (5u8, BinOpKind::Mul, BinOpKind::SMulHi), // imul rcx
        (6u8, BinOpKind::UDiv, BinOpKind::UMod),  // div rcx
        (7u8, BinOpKind::SDiv, BinOpKind::SMod),  // idiv rcx
    ];
    for (digit, lo, hi) in cases {
        let modrm = 0xC0 | (digit << 3) | 0x01; // 11 <digit> 001 (rcx)
        let d = decode_one(&[0x48, 0xF7, modrm], 0).unwrap();
        assert_eq!(d.bytes_consumed, 3, "digit {digit}");
        // LoadReg Rax, LoadReg Rcx, BinOp lo, BinOp hi, StoreReg Rax, StoreReg Rdx.
        assert_eq!(
            d.stmts[0],
            Stmt::new(
                Some(0),
                Op::LoadReg(LoadReg {
                    reg: Gpr::Rax,
                    size: OpSize::I64,
                }),
            ),
            "digit {digit}"
        );
        assert_eq!(
            d.stmts[2],
            Stmt::new(
                Some(2),
                Op::BinOp(BinOp {
                    op: lo,
                    lhs: 0,
                    rhs: 1,
                    size: OpSize::I64,
                }),
            ),
            "digit {digit}"
        );
        assert_eq!(
            d.stmts[3],
            Stmt::new(
                Some(3),
                Op::BinOp(BinOp {
                    op: hi,
                    lhs: 0,
                    rhs: 1,
                    size: OpSize::I64,
                }),
            ),
            "digit {digit}"
        );
        assert_eq!(
            d.stmts[4],
            Stmt::new(
                None,
                Op::StoreReg(StoreReg {
                    reg: Gpr::Rax,
                    value: 2,
                    size: OpSize::I64,
                }),
            ),
            "digit {digit}"
        );
        assert_eq!(
            d.stmts[5],
            Stmt::new(
                None,
                Op::StoreReg(StoreReg {
                    reg: Gpr::Rdx,
                    value: 3,
                    size: OpSize::I64,
                }),
            ),
            "digit {digit}"
        );
    }
}

#[test]
fn decode_group3_not_neg_rexw() {
    let d = decode_one(b"\x48\xF7\xD0", 0).unwrap();
    assert_eq!(d.bytes_consumed, 3);
    assert!(matches!(
        d.stmts.last().unwrap().op,
        Op::StoreReg(StoreReg {
            size: OpSize::I64,
            ..
        })
    ));
    assert!(matches!(
        d.stmts[0].op,
        Op::LoadReg(LoadReg {
            reg: Gpr::Rax,
            size: OpSize::I64,
            ..
        })
    ));
}

#[test]
fn decode_group3_neg_rexw() {
    let d = decode_one(b"\x48\xF7\xD8", 0).unwrap();
    assert_eq!(d.bytes_consumed, 3);
    assert!(matches!(
        d.stmts.last().unwrap().op,
        Op::StoreReg(StoreReg {
            size: OpSize::I64,
            ..
        })
    ));
    assert!(matches!(
        d.stmts[2].op,
        Op::BinOp(BinOp {
            size: OpSize::I64,
            ..
        })
    ));
}

#[test]
fn decode_group4_inc_dec_byte_register_placeholders() {
    let inc = decode_one(b"\xFE\xC0", 0).unwrap();
    assert_eq!(inc.bytes_consumed, 2);
    assert_eq!(
        inc.stmts,
        vec![
            Stmt::new(
                Some(0),
                Op::Constant(Constant {
                    value: 1,
                    size: OpSize::I8,
                }),
            ),
            Stmt::new(
                Some(1),
                Op::LoadReg(LoadReg {
                    reg: Gpr::Rax,
                    size: OpSize::I8,
                }),
            ),
            Stmt::new(
                Some(2),
                Op::BinOp(BinOp {
                    op: BinOpKind::Add,
                    lhs: 1,
                    rhs: 0,
                    size: OpSize::I8,
                }),
            ),
            Stmt::new(
                None,
                Op::StoreReg(StoreReg {
                    reg: Gpr::Rax,
                    value: 2,
                    size: OpSize::I8,
                }),
            ),
        ]
    );

    let dec = decode_one(b"\xFE\xC8", 0).unwrap();
    assert_eq!(dec.bytes_consumed, 2);
    assert!(matches!(
        dec.stmts[2].op,
        Op::BinOp(BinOp {
            op: BinOpKind::Sub,
            size: OpSize::I8,
            ..
        })
    ));
}

#[test]
fn decode_group4_rejects_unsupported_subop() {
    assert_eq!(
        decode_one(b"\xFE\xD0", 0),
        Err(DecodeError::UnsupportedOpcode(0xFE))
    );
}

#[test]
fn decode_group5_inc_dec_call_jmp() {
    let inc = decode_one(b"\xFF\xC0", 0).unwrap();
    assert_eq!(inc.bytes_consumed, 2);
    assert_eq!(
        inc.stmts[3],
        Stmt::new(
            None,
            Op::StoreReg(StoreReg {
                reg: Gpr::Rax,
                value: 2,
                size: OpSize::I32,
            }),
        )
    );

    let dec = decode_one(b"\xFF\xCB", 0).unwrap();
    assert_eq!(dec.bytes_consumed, 2);
    assert_eq!(
        dec.stmts[3],
        Stmt::new(
            None,
            Op::StoreReg(StoreReg {
                reg: Gpr::Rbx,
                value: 2,
                size: OpSize::I32,
            }),
        )
    );

    let call = decode_one_at(b"\xFF\xD0", 0, 0x4000).unwrap();
    assert_eq!(call.bytes_consumed, 2);
    assert_eq!(
        call.stmts,
        vec![
            Stmt::new(
                Some(0),
                Op::LoadReg(LoadReg {
                    reg: Gpr::Rax,
                    size: OpSize::I32,
                }),
            ),
            Stmt::new(
                None,
                Op::CallReg(CallReg {
                    target: 0,
                    return_guest_pc: 0x4002,
                }),
            ),
        ]
    );

    let jmp = decode_one(b"\xFF\xE0", 0).unwrap();
    assert_eq!(jmp.bytes_consumed, 2);
    assert_eq!(
        jmp.stmts,
        vec![
            Stmt::new(
                Some(0),
                Op::LoadReg(LoadReg {
                    reg: Gpr::Rax,
                    size: OpSize::I32,
                }),
            ),
            Stmt::new(None, Op::JumpReg(JumpReg { target: 0 }),),
        ]
    );
}

#[test]
fn decode_group5_memory_operands_rexw() {
    let inc = decode_one_at(b"\x48\xFF\x00", 0, 0x3000).unwrap();
    assert_eq!(inc.bytes_consumed, 3);
    assert!(matches!(inc.stmts.last().unwrap().op, Op::StoreMem(_)));

    let dec = decode_one_at(b"\x48\xFF\x08", 0, 0x3000).unwrap();
    assert_eq!(dec.bytes_consumed, 3);
    assert!(matches!(dec.stmts.last().unwrap().op, Op::StoreMem(_)));

    let call = decode_one_at(b"\x48\xFF\x10", 0, 0x3000).unwrap();
    assert_eq!(call.bytes_consumed, 3);
    match call.stmts.last().unwrap() {
        Stmt {
            op:
                Op::CallReg(CallReg {
                    target,
                    return_guest_pc,
                }),
            ..
        } => {
            assert_eq!(*target, 1);
            assert_eq!(*return_guest_pc, 0x3003);
        }
        other => panic!("unexpected stmt: {other:?}"),
    }

    let jmp = decode_one_at(b"\x48\xFF\x20", 0, 0x3000).unwrap();
    assert_eq!(jmp.bytes_consumed, 3);
    match jmp.stmts.last().unwrap() {
        Stmt {
            op: Op::JumpReg(JumpReg { target }),
            ..
        } => assert_eq!(*target, 1),
        other => panic!("unexpected stmt: {other:?}"),
    }

    let push = decode_one_at(b"\x48\xFF\x30", 0, 0x3000).unwrap();
    assert_eq!(push.bytes_consumed, 3);
    match push.stmts.last().unwrap() {
        Stmt {
            op:
                Op::StoreMem(StoreMem {
                    value,
                    size: OpSize::I64,
                    ..
                }),
            ..
        } => assert_eq!(*value, 1),
        other => panic!("unexpected stmt: {other:?}"),
    }
}

#[test]
fn decode_group5_memory_operands() {
    let inc = decode_one(b"\xFF\x00", 0).unwrap();
    assert_eq!(inc.bytes_consumed, 2);
    assert!(matches!(inc.stmts.last().unwrap().op, Op::StoreMem(_)));

    let dec = decode_one(b"\xFF\x08", 0).unwrap();
    assert_eq!(dec.bytes_consumed, 2);
    assert!(matches!(dec.stmts.last().unwrap().op, Op::StoreMem(_)));

    let call = decode_one_at(b"\xFF\x10", 0, 0x3000).unwrap();
    assert_eq!(call.bytes_consumed, 2);
    match call.stmts.last().unwrap() {
        Stmt {
            op:
                Op::CallReg(CallReg {
                    target,
                    return_guest_pc,
                }),
            ..
        } => {
            assert_eq!(*target, 1);
            assert_eq!(*return_guest_pc, 0x3002);
        }
        other => panic!("unexpected stmt: {other:?}"),
    }

    let jmp = decode_one(b"\xFF\x20", 0).unwrap();
    assert_eq!(jmp.bytes_consumed, 2);
    match jmp.stmts.last().unwrap() {
        Stmt {
            op: Op::JumpReg(JumpReg { target }),
            ..
        } => assert_eq!(*target, 1),
        other => panic!("unexpected stmt: {other:?}"),
    }
}

#[test]
fn decode_group5_push_reg() {
    let d = decode_one(b"\xFF\xF0", 0).unwrap();
    assert_eq!(d.bytes_consumed, 2);
    assert_eq!(
        d.stmts,
        vec![
            Stmt::new(
                Some(0),
                Op::LoadReg(LoadReg {
                    reg: Gpr::Rax,
                    size: OpSize::I64,
                }),
            ),
            Stmt::new(None, Op::RspAdjust(RspAdjust { delta_bytes: -8 })),
            Stmt::new(
                Some(2),
                Op::LoadReg(LoadReg {
                    reg: Gpr::Rsp,
                    size: OpSize::I64,
                }),
            ),
            Stmt::new(
                None,
                Op::StoreMem(StoreMem {
                    addr: 2,
                    value: 0,
                    size: OpSize::I64,
                }),
            ),
        ]
    );
}

#[test]
fn decode_group5_unsupported_subop() {
    assert_eq!(
        decode_one(b"\xFF\xF8", 0),
        Err(DecodeError::UnsupportedOpcode(0xFF))
    );
}

#[test]
fn decode_cond_jump_rel32_requires_restrictions() {
    assert_eq!(
        decode_one(b"\xF3\x0F\x80\x00\x00\x00\x00", 0),
        Err(DecodeError::UnsupportedOpcode(0x80))
    );
    assert_eq!(
        decode_one(b"\x66\x0F\x80\x00\x00\x00\x00", 0),
        Err(DecodeError::UnsupportedOpcode(0x80))
    );
    assert_eq!(
        decode_one(b"\x4F\x0F\x80\x00\x00\x00\x00", 0),
        Err(DecodeError::UnsupportedOpcode(0x80))
    );
    assert_eq!(
        decode_one(b"\x0F\x8A\x00\x00\x00\x00", 0),
        Err(DecodeError::UnsupportedOpcode(0x8A))
    );
    assert_eq!(
        decode_one(b"\x0F\x8B\x00\x00\x00\x00", 0),
        Err(DecodeError::UnsupportedOpcode(0x8B))
    );
}

#[test]
fn decode_fixed_two_byte_system_traps() {
    for &[opcode, expected_len] in &[
        [0x06, 2],
        [0x07, 2],
        [0x30, 2],
        [0x32, 2],
        [0x33, 2],
        [0x34, 2],
        [0x35, 2],
        [0xAA, 2],
    ] {
        let bytes = [0x0F, opcode];
        let d = decode_one(&bytes, 0).unwrap();
        assert_eq!(d.bytes_consumed, expected_len as usize);
        assert_eq!(
            d.stmts,
            vec![Stmt::new(
                None,
                Op::Trap(Trap {
                    kind: TrapKind::Sigill,
                }),
            )]
        );
    }

    assert_eq!(
        decode_one(b"\x66\x0F\x32", 0),
        Err(DecodeError::UnsupportedOpcode(0x32))
    );
}

#[test]
fn decode_descriptor_group_privileged_traps_and_consumes_operands() {
    for bytes in [
        b"\x0F\x00\x10".as_slice(),
        b"\x0F\x00\x18".as_slice(),
        b"\x0F\x00\x50\x10".as_slice(),
    ] {
        let d = decode_one(bytes, 0).unwrap();
        assert_eq!(
            d.stmts,
            vec![Stmt::new(
                None,
                Op::Trap(Trap {
                    kind: TrapKind::Sigill,
                }),
            )]
        );
    }

    assert_eq!(
        decode_one(b"\x0F\x00\x00", 0),
        Err(DecodeError::UnsupportedOpcode(0x00))
    );
    assert_eq!(
        decode_one(b"\x66\x0F\x00\x10", 0),
        Err(DecodeError::UnsupportedOpcode(0x00))
    );
}

#[test]
fn decode_system_group_invlpg_traps_and_consumes_memory_operand() {
    let d = decode_one(b"\x0F\x01\x78\x10", 0).unwrap();
    assert_eq!(d.bytes_consumed, 4);
    assert_eq!(
        d.stmts,
        vec![Stmt::new(
            None,
            Op::Trap(Trap {
                kind: TrapKind::Sigill,
            }),
        )]
    );

    for bytes in [
        b"\x0F\x01\x10".as_slice(),
        b"\x0F\x01\x18".as_slice(),
        b"\x0F\x01\xF0".as_slice(),
        b"\x0F\x01\xC1".as_slice(),
        b"\x0F\x01\xC2".as_slice(),
        b"\x0F\x01\xC3".as_slice(),
        b"\x0F\x01\xC4".as_slice(),
        b"\x0F\x01\xC8".as_slice(),
        b"\x0F\x01\xC9".as_slice(),
        b"\x0F\x01\xCA".as_slice(),
        b"\x0F\x01\xCB".as_slice(),
        b"\x0F\x01\xCF".as_slice(),
        b"\x0F\x01\xD1".as_slice(),
        b"\x0F\x01\xD4".as_slice(),
        b"\x0F\x01\xD8".as_slice(),
        b"\x0F\x01\xDF".as_slice(),
        b"\x0F\x01\xF8".as_slice(),
    ] {
        let d = decode_one(bytes, 0).unwrap();
        assert_eq!(
            d.stmts,
            vec![Stmt::new(
                None,
                Op::Trap(Trap {
                    kind: TrapKind::Sigill,
                }),
            )]
        );
    }

    assert_eq!(
        decode_one(b"\x0F\x01\xF9", 0),
        Err(DecodeError::UnsupportedOpcode(0x01))
    );
    assert_eq!(
        decode_one(b"\x66\x0F\x01\x38", 0),
        Err(DecodeError::UnsupportedOpcode(0x01))
    );
}

#[test]
fn unsupported_opcode() {
    let r = decode_one(b"\x0F\x00", 0);
    assert!(r.is_err());
}

#[test]
fn decode_cmpxchg_rm8_r8_byte_form() {
    // cmpxchg cl, dl  (0F B0 /r, modrm 0xD1): reg=dl (src), rm=cl (dst).
    // I8 operands; rax_full still loaded (size != I16) for the writeback.
    let d = decode_one(b"\x0F\xB0\xD1", 0).unwrap();
    assert_eq!(d.bytes_consumed, 3);
    assert_eq!(
        d.stmts,
        vec![
            Stmt::new(
                Some(0),
                Op::LoadReg(LoadReg {
                    reg: Gpr::Rax,
                    size: OpSize::I8,
                }),
            ),
            Stmt::new(
                Some(1),
                Op::LoadReg(LoadReg {
                    reg: Gpr::Rax,
                    size: OpSize::I64,
                }),
            ),
            Stmt::new(
                Some(2),
                Op::LoadReg(LoadReg {
                    reg: Gpr::Rdx,
                    size: OpSize::I8,
                }),
            ),
            Stmt::new(
                Some(3),
                Op::LoadReg(LoadReg {
                    reg: Gpr::Rcx,
                    size: OpSize::I8,
                }),
            ),
            Stmt::new(
                Some(4),
                Op::CmpFlags(CmpFlags {
                    lhs: 0,
                    rhs: 3,
                    size: OpSize::I8,
                }),
            ),
            Stmt::new(
                Some(5),
                Op::Select(Select {
                    cc: CondCode::Eq,
                    true_value: 2,
                    false_value: 3,
                    size: OpSize::I8,
                }),
            ),
            // Failure writeback selects into the full RAX (I64).
            Stmt::new(
                Some(6),
                Op::Select(Select {
                    cc: CondCode::Eq,
                    true_value: 1,
                    false_value: 3,
                    size: OpSize::I64,
                }),
            ),
            Stmt::new(
                None,
                Op::StoreReg(StoreReg {
                    reg: Gpr::Rax,
                    value: 6,
                    size: OpSize::I64,
                }),
            ),
            Stmt::new(
                None,
                Op::StoreReg(StoreReg {
                    reg: Gpr::Rcx,
                    value: 5,
                    size: OpSize::I8,
                }),
            ),
        ]
    );
}

#[test]
fn indirect_call_through_memory_defines_each_ref_once() {
    // call [rax]: the address load is ref 0, the target load ref 1.
    let d = decode_one_at(b"\xFF\x10", 0, 0x3000).unwrap();
    assert_eq!(d.stmts.len(), 3);
    assert_eq!(d.stmts[0].result, Some(0));
    assert_eq!(d.stmts[1].result, Some(1));
    assert!(matches!(d.stmts[1].op, Op::LoadMem(LoadMem { addr: 0, .. })));
}

#[test]
fn nop_with_cut_off_displacement_is_truncated() {
    // 0F 1F 80 needs a four-byte displacement after the ModR/M byte.
    assert_eq!(decode_one(b"\x0F\x1F\x80", 0), Err(DecodeError::Truncated));
    assert_eq!(decode_one(b"\x0F\x1F\x80\x00\x00\x00\x00", 0).unwrap().bytes_consumed, 7);
}
