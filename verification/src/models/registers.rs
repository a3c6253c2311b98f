use crate::models::machine_size::MachineSize;
use vstd::prelude::*;

verus! {

/// The general purpose registers, each under the name of one of its widths,
/// together with the instruction pointer and a sentinel that stands for "no
/// register". Only these names exist: a register value cannot be made from a
/// width and a number that do not belong together.
#[allow(non_camel_case_types)]
#[derive(PartialEq, Eq, Structural, Hash, Clone, Copy, Debug)]
pub enum GPR {
    /// No register at all.
    NO_REG,
    /// The instruction pointer, usable only as the base of an address.
    RIP,
    // Byte registers.
    AL,
    CL,
    DL,
    BL,
    SPL,
    BPL,
    SIL,
    DIL,
    R8B,
    R9B,
    R10B,
    R11B,
    R12B,
    R13B,
    R14B,
    R15B,
    // Word registers.
    AX,
    CX,
    DX,
    BX,
    SP,
    BP,
    SI,
    DI,
    R8W,
    R9W,
    R10W,
    R11W,
    R12W,
    R13W,
    R14W,
    R15W,
    // DWord registers.
    EAX,
    ECX,
    EDX,
    EBX,
    ESP,
    EBP,
    ESI,
    EDI,
    R8D,
    R9D,
    R10D,
    R11D,
    R12D,
    R13D,
    R14D,
    R15D,
    // QWord registers.
    RAX,
    RCX,
    RDX,
    RBX,
    RSP,
    RBP,
    RSI,
    RDI,
    R8,
    R9,
    R10,
    R11,
    R12,
    R13,
    R14,
    R15,
}

impl GPR {
    /// The width of the register.
    pub open spec fn spec_size(&self) -> MachineSize {
        match self {
            GPR::NO_REG | GPR::RIP => MachineSize::NoSize,
            GPR::AL | GPR::CL | GPR::DL | GPR::BL | GPR::SPL | GPR::BPL | GPR::SIL
            | GPR::DIL | GPR::R8B | GPR::R9B | GPR::R10B | GPR::R11B | GPR::R12B
            | GPR::R13B | GPR::R14B | GPR::R15B => MachineSize::Byte,
            GPR::AX | GPR::CX | GPR::DX | GPR::BX | GPR::SP | GPR::BP | GPR::SI
            | GPR::DI | GPR::R8W | GPR::R9W | GPR::R10W | GPR::R11W | GPR::R12W
            | GPR::R13W | GPR::R14W | GPR::R15W => MachineSize::Word,
            GPR::EAX | GPR::ECX | GPR::EDX | GPR::EBX | GPR::ESP | GPR::EBP | GPR::ESI
            | GPR::EDI | GPR::R8D | GPR::R9D | GPR::R10D | GPR::R11D | GPR::R12D
            | GPR::R13D | GPR::R14D | GPR::R15D => MachineSize::DWord,
            GPR::RAX | GPR::RCX | GPR::RDX | GPR::RBX | GPR::RSP | GPR::RBP | GPR::RSI
            | GPR::RDI | GPR::R8 | GPR::R9 | GPR::R10 | GPR::R11 | GPR::R12 | GPR::R13
            | GPR::R14 | GPR::R15 => MachineSize::QWord,
        }
    }

    /// The number of the register within its family; 16 for the sentinel.
    pub open spec fn spec_index(&self) -> u8 {
        match self {
            GPR::NO_REG => 16,
            GPR::RIP | GPR::AL | GPR::AX | GPR::EAX | GPR::RAX => 0,
            GPR::CL | GPR::CX | GPR::ECX | GPR::RCX => 1,
            GPR::DL | GPR::DX | GPR::EDX | GPR::RDX => 2,
            GPR::BL | GPR::BX | GPR::EBX | GPR::RBX => 3,
            GPR::SPL | GPR::SP | GPR::ESP | GPR::RSP => 4,
            GPR::BPL | GPR::BP | GPR::EBP | GPR::RBP => 5,
            GPR::SIL | GPR::SI | GPR::ESI | GPR::RSI => 6,
            GPR::DIL | GPR::DI | GPR::EDI | GPR::RDI => 7,
            GPR::R8B | GPR::R8W | GPR::R8D | GPR::R8 => 8,
            GPR::R9B | GPR::R9W | GPR::R9D | GPR::R9 => 9,
            GPR::R10B | GPR::R10W | GPR::R10D | GPR::R10 => 10,
            GPR::R11B | GPR::R11W | GPR::R11D | GPR::R11 => 11,
            GPR::R12B | GPR::R12W | GPR::R12D | GPR::R12 => 12,
            GPR::R13B | GPR::R13W | GPR::R13D | GPR::R13 => 13,
            GPR::R14B | GPR::R14W | GPR::R14D | GPR::R14 => 14,
            GPR::R15B | GPR::R15W | GPR::R15D | GPR::R15 => 15,
        }
    }

    /// The low three bits of the register's number.
    pub open spec fn spec_lower_index(&self) -> u8 {
        self.spec_index() % 8
    }

    /// Whether the register is one of the sixteen general registers, under
    /// any of its widths.
    pub open spec fn is_general(&self) -> bool {
        self.spec_size() != MachineSize::NoSize
    }

    /// The width of the register.
    #[must_use]
    #[verifier::when_used_as_spec(spec_size)]
    pub fn size(&self) -> (size: MachineSize)
        ensures
            size == self.size(),
    {
        match self {
            GPR::NO_REG | GPR::RIP => MachineSize::NoSize,
            GPR::AL | GPR::CL | GPR::DL | GPR::BL | GPR::SPL | GPR::BPL | GPR::SIL
            | GPR::DIL | GPR::R8B | GPR::R9B | GPR::R10B | GPR::R11B | GPR::R12B
            | GPR::R13B | GPR::R14B | GPR::R15B => MachineSize::Byte,
            GPR::AX | GPR::CX | GPR::DX | GPR::BX | GPR::SP | GPR::BP | GPR::SI
            | GPR::DI | GPR::R8W | GPR::R9W | GPR::R10W | GPR::R11W | GPR::R12W
            | GPR::R13W | GPR::R14W | GPR::R15W => MachineSize::Word,
            GPR::EAX | GPR::ECX | GPR::EDX | GPR::EBX | GPR::ESP | GPR::EBP | GPR::ESI
            | GPR::EDI | GPR::R8D | GPR::R9D | GPR::R10D | GPR::R11D | GPR::R12D
            | GPR::R13D | GPR::R14D | GPR::R15D => MachineSize::DWord,
            GPR::RAX | GPR::RCX | GPR::RDX | GPR::RBX | GPR::RSP | GPR::RBP | GPR::RSI
            | GPR::RDI | GPR::R8 | GPR::R9 | GPR::R10 | GPR::R11 | GPR::R12 | GPR::R13
            | GPR::R14 | GPR::R15 => MachineSize::QWord,
        }
    }

    /// The number of the register within its family.
    #[must_use]
    #[verifier::when_used_as_spec(spec_index)]
    pub fn index(&self) -> (index: u8)
        ensures
            index == self.index(),
            index <= 16,
            self.is_general() ==> index <= 15,
    {
        match self {
            GPR::NO_REG => 16,
            GPR::RIP | GPR::AL | GPR::AX | GPR::EAX | GPR::RAX => 0,
            GPR::CL | GPR::CX | GPR::ECX | GPR::RCX => 1,
            GPR::DL | GPR::DX | GPR::EDX | GPR::RDX => 2,
            GPR::BL | GPR::BX | GPR::EBX | GPR::RBX => 3,
            GPR::SPL | GPR::SP | GPR::ESP | GPR::RSP => 4,
            GPR::BPL | GPR::BP | GPR::EBP | GPR::RBP => 5,
            GPR::SIL | GPR::SI | GPR::ESI | GPR::RSI => 6,
            GPR::DIL | GPR::DI | GPR::EDI | GPR::RDI => 7,
            GPR::R8B | GPR::R8W | GPR::R8D | GPR::R8 => 8,
            GPR::R9B | GPR::R9W | GPR::R9D | GPR::R9 => 9,
            GPR::R10B | GPR::R10W | GPR::R10D | GPR::R10 => 10,
            GPR::R11B | GPR::R11W | GPR::R11D | GPR::R11 => 11,
            GPR::R12B | GPR::R12W | GPR::R12D | GPR::R12 => 12,
            GPR::R13B | GPR::R13W | GPR::R13D | GPR::R13 => 13,
            GPR::R14B | GPR::R14W | GPR::R14D | GPR::R14 => 14,
            GPR::R15B | GPR::R15W | GPR::R15D | GPR::R15 => 15,
        }
    }

    /// The low three bits of the register's number.
    #[must_use]
    #[verifier::when_used_as_spec(spec_lower_index)]
    pub fn lower_index(&self) -> (index: u8)
        ensures
            index == self.lower_index(),
            index <= 7,
    {
        self.index() % 8
    }
}

/// The 128-bit vector registers.
#[derive(PartialEq, Eq, Structural, Hash, Clone, Copy, Debug)]
pub enum XMM {
    XMM0,
    XMM1,
    XMM2,
    XMM3,
    XMM4,
    XMM5,
    XMM6,
    XMM7,
    XMM8,
    XMM9,
    XMM10,
    XMM11,
    XMM12,
    XMM13,
    XMM14,
    XMM15,
}

impl XMM {
    /// The width of the register.
    pub open spec fn spec_size(&self) -> MachineSize {
        MachineSize::XMMWord
    }

    /// The number of the register within its family.
    pub open spec fn spec_index(&self) -> u8 {
        match self {
            XMM::XMM0 => 0,
            XMM::XMM1 => 1,
            XMM::XMM2 => 2,
            XMM::XMM3 => 3,
            XMM::XMM4 => 4,
            XMM::XMM5 => 5,
            XMM::XMM6 => 6,
            XMM::XMM7 => 7,
            XMM::XMM8 => 8,
            XMM::XMM9 => 9,
            XMM::XMM10 => 10,
            XMM::XMM11 => 11,
            XMM::XMM12 => 12,
            XMM::XMM13 => 13,
            XMM::XMM14 => 14,
            XMM::XMM15 => 15,
        }
    }

    /// The low three bits of the register's number.
    pub open spec fn spec_lower_index(&self) -> u8 {
        self.spec_index() % 8
    }

    /// The width of the register.
    #[must_use]
    #[verifier::when_used_as_spec(spec_size)]
    pub fn size(&self) -> (size: MachineSize)
        ensures
            size == self.size(),
    {
        MachineSize::XMMWord
    }

    /// The number of the register within its family.
    #[must_use]
    #[verifier::when_used_as_spec(spec_index)]
    pub fn index(&self) -> (index: u8)
        ensures
            index == self.index(),
            index <= 15,
    {
        match self {
            XMM::XMM0 => 0,
            XMM::XMM1 => 1,
            XMM::XMM2 => 2,
            XMM::XMM3 => 3,
            XMM::XMM4 => 4,
            XMM::XMM5 => 5,
            XMM::XMM6 => 6,
            XMM::XMM7 => 7,
            XMM::XMM8 => 8,
            XMM::XMM9 => 9,
            XMM::XMM10 => 10,
            XMM::XMM11 => 11,
            XMM::XMM12 => 12,
            XMM::XMM13 => 13,
            XMM::XMM14 => 14,
            XMM::XMM15 => 15,
        }
    }

    /// The low three bits of the register's number.
    #[must_use]
    #[verifier::when_used_as_spec(spec_lower_index)]
    pub fn lower_index(&self) -> (index: u8)
        ensures
            index == self.lower_index(),
            index <= 7,
    {
        self.index() % 8
    }
}

/// The 256-bit vector registers.
#[derive(PartialEq, Eq, Structural, Hash, Clone, Copy, Debug)]
pub enum YMM {
    YMM0,
    YMM1,
    YMM2,
    YMM3,
    YMM4,
    YMM5,
    YMM6,
    YMM7,
    YMM8,
    YMM9,
    YMM10,
    YMM11,
    YMM12,
    YMM13,
    YMM14,
    YMM15,
}

impl YMM {
    /// The width of the register.
    pub open spec fn spec_size(&self) -> MachineSize {
        MachineSize::YMMWord
    }

    /// The number of the register within its family.
    pub open spec fn spec_index(&self) -> u8 {
        match self {
            YMM::YMM0 => 0,
            YMM::YMM1 => 1,
            YMM::YMM2 => 2,
            YMM::YMM3 => 3,
            YMM::YMM4 => 4,
            YMM::YMM5 => 5,
            YMM::YMM6 => 6,
            YMM::YMM7 => 7,
            YMM::YMM8 => 8,
            YMM::YMM9 => 9,
            YMM::YMM10 => 10,
            YMM::YMM11 => 11,
            YMM::YMM12 => 12,
            YMM::YMM13 => 13,
            YMM::YMM14 => 14,
            YMM::YMM15 => 15,
        }
    }

    /// The low three bits of the register's number.
    pub open spec fn spec_lower_index(&self) -> u8 {
        self.spec_index() % 8
    }

    /// The width of the register.
    #[must_use]
    #[verifier::when_used_as_spec(spec_size)]
    pub fn size(&self) -> (size: MachineSize)
        ensures
            size == self.size(),
    {
        MachineSize::YMMWord
    }

    /// The number of the register within its family.
    #[must_use]
    #[verifier::when_used_as_spec(spec_index)]
    pub fn index(&self) -> (index: u8)
        ensures
            index == self.index(),
            index <= 15,
    {
        match self {
            YMM::YMM0 => 0,
            YMM::YMM1 => 1,
            YMM::YMM2 => 2,
            YMM::YMM3 => 3,
            YMM::YMM4 => 4,
            YMM::YMM5 => 5,
            YMM::YMM6 => 6,
            YMM::YMM7 => 7,
            YMM::YMM8 => 8,
            YMM::YMM9 => 9,
            YMM::YMM10 => 10,
            YMM::YMM11 => 11,
            YMM::YMM12 => 12,
            YMM::YMM13 => 13,
            YMM::YMM14 => 14,
            YMM::YMM15 => 15,
        }
    }

    /// The low three bits of the register's number.
    #[must_use]
    #[verifier::when_used_as_spec(spec_lower_index)]
    pub fn lower_index(&self) -> (index: u8)
        ensures
            index == self.lower_index(),
            index <= 7,
    {
        self.index() % 8
    }
}

} // verus!
