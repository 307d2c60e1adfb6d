use prisma::ir::{Bswap, Cpuid, Fence, Popcnt, Rdtsc, Syscall};
use prisma::decoder::tables::{OneByteOpcode, TwoByteOpcode, classify_one_byte, classify_two_byte};

#[test]
fn one_byte_dispatch_table_classifies_common_cases() {
    assert_eq!(classify_one_byte(0x88), OneByteOpcode::MovRmR8);
    assert_eq!(classify_one_byte(0x89), OneByteOpcode::MovRmR);
    assert_eq!(classify_one_byte(0x8A), OneByteOpcode::MovR8Rm);
    assert_eq!(classify_one_byte(0x8B), OneByteOpcode::MovRRm);
    assert_eq!(classify_one_byte(0x8F), OneByteOpcode::PopRm);
    assert_eq!(classify_one_byte(0xA0), OneByteOpcode::MovMoffsToAcc);
    assert_eq!(classify_one_byte(0xA1), OneByteOpcode::MovMoffsToAcc);
    assert_eq!(classify_one_byte(0xA2), OneByteOpcode::MovAccToMoffs);
    assert_eq!(classify_one_byte(0xA3), OneByteOpcode::MovAccToMoffs);
    assert_eq!(classify_one_byte(0xA4), OneByteOpcode::Movsb);
    assert_eq!(classify_one_byte(0xA5), OneByteOpcode::Movsb);
    assert_eq!(classify_one_byte(0xA6), OneByteOpcode::Cmpsb);
    assert_eq!(classify_one_byte(0xA7), OneByteOpcode::Cmpsb);
    assert_eq!(classify_one_byte(0xAA), OneByteOpcode::Stosb);
    assert_eq!(classify_one_byte(0xAB), OneByteOpcode::Stosb);
    assert_eq!(classify_one_byte(0xAC), OneByteOpcode::Lodsb);
    assert_eq!(classify_one_byte(0xAD), OneByteOpcode::Lodsb);
    assert_eq!(classify_one_byte(0xAE), OneByteOpcode::Scasb);
    assert_eq!(classify_one_byte(0xAF), OneByteOpcode::Scasb);
    assert_eq!(classify_one_byte(0xB0), OneByteOpcode::MovR8I8);
    assert_eq!(classify_one_byte(0xB7), OneByteOpcode::MovR8I8);
    assert_eq!(classify_one_byte(0x00), OneByteOpcode::AddRmR8);
    assert_eq!(classify_one_byte(0x01), OneByteOpcode::AddRmR);
    assert_eq!(classify_one_byte(0x02), OneByteOpcode::AddR8Rm);
    assert_eq!(classify_one_byte(0x03), OneByteOpcode::AddRRm);
    assert_eq!(classify_one_byte(0x05), OneByteOpcode::AccImm);
    assert_eq!(classify_one_byte(0x08), OneByteOpcode::OrRmR8);
    assert_eq!(classify_one_byte(0x0A), OneByteOpcode::OrR8Rm);
    assert_eq!(classify_one_byte(0x0B), OneByteOpcode::OrRRm);
    assert_eq!(classify_one_byte(0xA9), OneByteOpcode::AccImm);
    assert_eq!(classify_one_byte(0x81), OneByteOpcode::AluRmImm);
    assert_eq!(classify_one_byte(0x83), OneByteOpcode::AluRmImm8);
    assert_eq!(classify_one_byte(0xC0), OneByteOpcode::Group2);
    assert_eq!(classify_one_byte(0xC1), OneByteOpcode::Group2);
    assert_eq!(classify_one_byte(0xD3), OneByteOpcode::Group2);
    assert_eq!(classify_one_byte(0x20), OneByteOpcode::AndRmR8);
    assert_eq!(classify_one_byte(0x22), OneByteOpcode::AndR8Rm);
    assert_eq!(classify_one_byte(0x23), OneByteOpcode::AndRRm);
    assert_eq!(classify_one_byte(0x28), OneByteOpcode::SubRmR8);
    assert_eq!(classify_one_byte(0x2A), OneByteOpcode::SubR8Rm);
    assert_eq!(classify_one_byte(0x30), OneByteOpcode::XorRmR8);
    assert_eq!(classify_one_byte(0x32), OneByteOpcode::XorR8Rm);
    assert_eq!(classify_one_byte(0x33), OneByteOpcode::XorRRm);
    assert_eq!(classify_one_byte(0x38), OneByteOpcode::CmpRmR8);
    assert_eq!(classify_one_byte(0x3A), OneByteOpcode::CmpR8Rm);
    assert_eq!(classify_one_byte(0x3B), OneByteOpcode::CmpRRm);
    assert_eq!(classify_one_byte(0x84), OneByteOpcode::TestRmR8);
    assert_eq!(classify_one_byte(0x06), OneByteOpcode::LegacyInvalidTrap);
    assert_eq!(classify_one_byte(0x07), OneByteOpcode::LegacyInvalidTrap);
    assert_eq!(classify_one_byte(0x0E), OneByteOpcode::LegacyInvalidTrap);
    assert_eq!(classify_one_byte(0x16), OneByteOpcode::LegacyInvalidTrap);
    assert_eq!(classify_one_byte(0x17), OneByteOpcode::LegacyInvalidTrap);
    assert_eq!(classify_one_byte(0x1E), OneByteOpcode::LegacyInvalidTrap);
    assert_eq!(classify_one_byte(0x1F), OneByteOpcode::LegacyInvalidTrap);
    assert_eq!(classify_one_byte(0x27), OneByteOpcode::LegacyInvalidTrap);
    assert_eq!(classify_one_byte(0x2F), OneByteOpcode::LegacyInvalidTrap);
    assert_eq!(classify_one_byte(0x37), OneByteOpcode::LegacyInvalidTrap);
    assert_eq!(classify_one_byte(0x3F), OneByteOpcode::LegacyInvalidTrap);
    assert_eq!(classify_one_byte(0x60), OneByteOpcode::LegacyInvalidTrap);
    assert_eq!(classify_one_byte(0x61), OneByteOpcode::LegacyInvalidTrap);
    assert_eq!(classify_one_byte(0x9A), OneByteOpcode::LegacyInvalidTrap);
    assert_eq!(classify_one_byte(0xCE), OneByteOpcode::LegacyInvalidTrap);
    assert_eq!(classify_one_byte(0xD6), OneByteOpcode::LegacyInvalidTrap);
    assert_eq!(classify_one_byte(0xEA), OneByteOpcode::LegacyInvalidTrap);
    assert_eq!(classify_one_byte(0xD4), OneByteOpcode::LegacyInvalidImm8);
    assert_eq!(classify_one_byte(0xD5), OneByteOpcode::LegacyInvalidImm8);
    assert_eq!(classify_one_byte(0x0F), OneByteOpcode::TwoBytePrefix);
    assert_eq!(classify_one_byte(0xE8), OneByteOpcode::CallRel32);
    assert_eq!(classify_one_byte(0x70), OneByteOpcode::CondJumpRel8);
    assert_eq!(classify_one_byte(0x90), OneByteOpcode::Nop);
    assert_eq!(classify_one_byte(0x9B), OneByteOpcode::Fwait);
    assert_eq!(classify_one_byte(0x86), OneByteOpcode::Xchg);
    assert_eq!(classify_one_byte(0x91), OneByteOpcode::XchgAcc);
    assert_eq!(classify_one_byte(0x97), OneByteOpcode::XchgAcc);
    assert_eq!(classify_one_byte(0x98), OneByteOpcode::SignExtendAcc);
    assert_eq!(classify_one_byte(0x99), OneByteOpcode::SignExtendAccToDx);
    assert_eq!(classify_one_byte(0xD7), OneByteOpcode::Xlat);
    assert_eq!(classify_one_byte(0xD9), OneByteOpcode::X87D9);
    assert_eq!(classify_one_byte(0xDB), OneByteOpcode::X87DB);
    assert_eq!(classify_one_byte(0x8D), OneByteOpcode::Lea);
    assert_eq!(classify_one_byte(0x63), OneByteOpcode::Movsxd);
    assert_eq!(classify_one_byte(0x69), OneByteOpcode::ImulRmImm);
    assert_eq!(classify_one_byte(0x6B), OneByteOpcode::ImulRmImm8);
    assert_eq!(classify_one_byte(0xC7), OneByteOpcode::MovRmImm);
    assert_eq!(classify_one_byte(0xC3), OneByteOpcode::Ret);
    assert_eq!(classify_one_byte(0xC2), OneByteOpcode::RetImm16);
    assert_eq!(classify_one_byte(0xCF), OneByteOpcode::IretTrap);
    assert_eq!(classify_one_byte(0xC8), OneByteOpcode::Enter);
    assert_eq!(classify_one_byte(0xC9), OneByteOpcode::Leave);
    assert_eq!(classify_one_byte(0xCC), OneByteOpcode::Int3);
    assert_eq!(classify_one_byte(0xCD), OneByteOpcode::IntImm8);
    assert_eq!(classify_one_byte(0xE2), OneByteOpcode::LoopRel8);
    assert_eq!(classify_one_byte(0xE3), OneByteOpcode::JrcxzRel8);
    assert_eq!(classify_one_byte(0xE4), OneByteOpcode::IoTrapImm8);
    assert_eq!(classify_one_byte(0xE7), OneByteOpcode::IoTrapImm8);
    assert_eq!(classify_one_byte(0xE9), OneByteOpcode::JumpRel32);
    assert_eq!(classify_one_byte(0xEB), OneByteOpcode::JumpRel8);
    assert_eq!(classify_one_byte(0xEC), OneByteOpcode::IoTrapDx);
    assert_eq!(classify_one_byte(0xEF), OneByteOpcode::IoTrapDx);
    assert_eq!(classify_one_byte(0x68), OneByteOpcode::PushImm);
    assert_eq!(classify_one_byte(0x6A), OneByteOpcode::PushImm);
    assert_eq!(classify_one_byte(0xF1), OneByteOpcode::Icebp);
    assert_eq!(classify_one_byte(0xF4), OneByteOpcode::Hlt);
    assert_eq!(classify_one_byte(0xFA), OneByteOpcode::PrivilegedTrap);
    assert_eq!(classify_one_byte(0xFB), OneByteOpcode::PrivilegedTrap);
    assert_eq!(classify_one_byte(0xFC), OneByteOpcode::Cld);
    assert_eq!(classify_one_byte(0xF6), OneByteOpcode::Group3);
    assert_eq!(classify_one_byte(0xF7), OneByteOpcode::Group3);
    assert_eq!(classify_one_byte(0xFE), OneByteOpcode::Group4);
    assert_eq!(classify_one_byte(0xFF), OneByteOpcode::Group5);
    assert_eq!(classify_one_byte(0x10), OneByteOpcode::AddRmR8);
    assert_eq!(classify_one_byte(0x13), OneByteOpcode::AddRRm);
    assert_eq!(classify_one_byte(0x18), OneByteOpcode::SubRmR8);
    assert_eq!(classify_one_byte(0x1B), OneByteOpcode::SubRRm);
}

#[test]
fn two_byte_dispatch_table_classifies_common_cases() {
    assert_eq!(classify_two_byte(0x00), TwoByteOpcode::DescriptorGroup);
    assert_eq!(classify_two_byte(0x01), TwoByteOpcode::SystemGroup);
    assert_eq!(classify_two_byte(0x05), TwoByteOpcode::Syscall);
    assert_eq!(classify_two_byte(0x06), TwoByteOpcode::SystemTrap);
    assert_eq!(classify_two_byte(0x07), TwoByteOpcode::SystemTrap);
    assert_eq!(classify_two_byte(0x08), TwoByteOpcode::CacheTrap);
    assert_eq!(classify_two_byte(0x09), TwoByteOpcode::CacheTrap);
    assert_eq!(classify_two_byte(0x0B), TwoByteOpcode::Ud2);
    assert_eq!(classify_two_byte(0x0E), TwoByteOpcode::MmxStateNoop);
    assert_eq!(classify_two_byte(0x1F), TwoByteOpcode::NopRm);
    assert_eq!(classify_two_byte(0x0D), TwoByteOpcode::Prefetchw);
    assert_eq!(classify_two_byte(0x18), TwoByteOpcode::Prefetch);
    assert_eq!(classify_two_byte(0x1E), TwoByteOpcode::Endbr);
    assert_eq!(classify_two_byte(0x20), TwoByteOpcode::SystemTrapRm);
    assert_eq!(classify_two_byte(0x23), TwoByteOpcode::SystemTrapRm);
    assert_eq!(classify_two_byte(0x31), TwoByteOpcode::Rdtsc);
    assert_eq!(classify_two_byte(0x30), TwoByteOpcode::SystemTrap);
    assert_eq!(classify_two_byte(0x32), TwoByteOpcode::SystemTrap);
    assert_eq!(classify_two_byte(0x33), TwoByteOpcode::SystemTrap);
    assert_eq!(classify_two_byte(0x34), TwoByteOpcode::SystemTrap);
    assert_eq!(classify_two_byte(0x35), TwoByteOpcode::SystemTrap);
    assert_eq!(classify_two_byte(0x37), TwoByteOpcode::SystemTrap);
    assert_eq!(classify_two_byte(0x77), TwoByteOpcode::MmxStateNoop);
    assert_eq!(classify_two_byte(0x78), TwoByteOpcode::SystemTrapRm);
    assert_eq!(classify_two_byte(0x79), TwoByteOpcode::SystemTrapRm);
    assert_eq!(classify_two_byte(0x80), TwoByteOpcode::CondJumpRel32);
    assert_eq!(classify_two_byte(0x94), TwoByteOpcode::Setcc);
    assert_eq!(classify_two_byte(0xA2), TwoByteOpcode::Cpuid);
    assert_eq!(classify_two_byte(0xAA), TwoByteOpcode::SystemTrap);
    assert_eq!(classify_two_byte(0x44), TwoByteOpcode::Cmov);
    assert_eq!(classify_two_byte(0xAF), TwoByteOpcode::ImulRm);
    assert_eq!(classify_two_byte(0xB6), TwoByteOpcode::MovzxI8);
    assert_eq!(classify_two_byte(0xB9), TwoByteOpcode::UndefinedRm);
    assert_eq!(classify_two_byte(0xBE), TwoByteOpcode::MovsxI8);
    assert_eq!(classify_two_byte(0xB8), TwoByteOpcode::Popcnt);
    assert_eq!(classify_two_byte(0xAE), TwoByteOpcode::Fence);
    assert_eq!(classify_two_byte(0xC1), TwoByteOpcode::Xadd);
    assert_eq!(classify_two_byte(0xC3), TwoByteOpcode::Movnti);
    assert_eq!(classify_two_byte(0xB0), TwoByteOpcode::Unsupported);
    assert_eq!(classify_two_byte(0xB1), TwoByteOpcode::Cmpxchg);
    assert_eq!(classify_two_byte(0xC8), TwoByteOpcode::Bswap);
    assert_eq!(classify_two_byte(0xCF), TwoByteOpcode::Bswap);
    assert_eq!(classify_two_byte(0x38), TwoByteOpcode::ThreeByte0F38);
    assert_eq!(classify_two_byte(0xFF), TwoByteOpcode::UndefinedRm);
    assert_eq!(classify_two_byte(0x24), TwoByteOpcode::Unsupported);
}
