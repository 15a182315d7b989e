//! The Dalvik opcode table.

use vstd::prelude::*;

verus! {

/// A Dalvik opcode. `Unknown` stands for every byte the table leaves
/// unassigned.
#[derive(Debug, Clone, Copy, PartialEq, Eq, Structural)]
pub enum Opcode {
    Nop,
    Move,
    MoveFrom16,
    Move16,
    MoveWide,
    MoveWideFrom16,
    MoveWide16,
    MoveObject,
    MoveObjectFrom16,
    MoveObject16,
    MoveResult,
    MoveResultWide,
    MoveResultObject,
    MoveException,
    ReturnVoid,
    Return,
    ReturnWide,
    ReturnObject,
    Const4,
    Const16,
    Const,
    ConstHigh16,
    ConstWide16,
    ConstWide32,
    ConstWide,
    ConstWideHigh16,
    ConstString,
    ConstStringJumbo,
    ConstClass,
    MonitorEnter,
    MonitorExit,
    CheckCast,
    InstanceOf,
    ArrayLength,
    NewInstance,
    NewArray,
    FilledNewArray,
    FilledNewArrayRange,
    FillArrayData,
    Throw,
    Goto,
    Goto16,
    Goto32,
    PackedSwitch,
    SparseSwitch,
    CmplFloat,
    CmpgFloat,
    CmplDouble,
    CmpgDouble,
    CmpLong,
    IfEq,
    IfNe,
    IfLt,
    IfGe,
    IfGt,
    IfLe,
    IfEqz,
    IfNez,
    IfLtz,
    IfGez,
    IfGtz,
    IfLez,
    Aget,
    AgetWide,
    AgetObject,
    AgetBoolean,
    AgetByte,
    AgetChar,
    AgetShort,
    Aput,
    AputWide,
    AputObject,
    AputBoolean,
    AputByte,
    AputChar,
    AputShort,
    Iget,
    IgetWide,
    IgetObject,
    IgetBoolean,
    IgetByte,
    IgetChar,
    IgetShort,
    Iput,
    IputWide,
    IputObject,
    IputBoolean,
    IputByte,
    IputChar,
    IputShort,
    Sget,
    SgetWide,
    SgetObject,
    SgetBoolean,
    SgetByte,
    SgetChar,
    SgetShort,
    Sput,
    SputWide,
    SputObject,
    SputBoolean,
    SputByte,
    SputChar,
    SputShort,
    InvokeVirtual,
    InvokeSuper,
    InvokeDirect,
    InvokeStatic,
    InvokeInterface,
    InvokeVirtualRange,
    InvokeSuperRange,
    InvokeDirectRange,
    InvokeStaticRange,
    InvokeInterfaceRange,
    NegInt,
    NotInt,
    NegLong,
    NotLong,
    NegFloat,
    NegDouble,
    IntToLong,
    IntToFloat,
    IntToDouble,
    LongToInt,
    LongToFloat,
    LongToDouble,
    FloatToInt,
    FloatToLong,
    FloatToDouble,
    DoubleToInt,
    DoubleToLong,
    DoubleToFloat,
    IntToByte,
    IntToChar,
    IntToShort,
    AddInt,
    SubInt,
    MulInt,
    DivInt,
    RemInt,
    AndInt,
    OrInt,
    XorInt,
    ShlInt,
    ShrInt,
    UshrInt,
    AddLong,
    SubLong,
    MulLong,
    DivLong,
    RemLong,
    AndLong,
    OrLong,
    XorLong,
    ShlLong,
    ShrLong,
    UshrLong,
    AddFloat,
    SubFloat,
    MulFloat,
    DivFloat,
    RemFloat,
    AddDouble,
    SubDouble,
    MulDouble,
    DivDouble,
    RemDouble,
    AddInt2addr,
    SubInt2addr,
    MulInt2addr,
    DivInt2addr,
    RemInt2addr,
    AndInt2addr,
    OrInt2addr,
    XorInt2addr,
    ShlInt2addr,
    ShrInt2addr,
    UshrInt2addr,
    AddLong2addr,
    SubLong2addr,
    MulLong2addr,
    DivLong2addr,
    RemLong2addr,
    AndLong2addr,
    OrLong2addr,
    XorLong2addr,
    ShlLong2addr,
    ShrLong2addr,
    UshrLong2addr,
    AddFloat2addr,
    SubFloat2addr,
    MulFloat2addr,
    DivFloat2addr,
    RemFloat2addr,
    AddDouble2addr,
    SubDouble2addr,
    MulDouble2addr,
    DivDouble2addr,
    RemDouble2addr,
    AddIntLit16,
    RsubInt,
    MulIntLit16,
    DivIntLit16,
    RemIntLit16,
    AndIntLit16,
    OrIntLit16,
    XorIntLit16,
    AddIntLit8,
    RsubIntLit8,
    MulIntLit8,
    DivIntLit8,
    RemIntLit8,
    AndIntLit8,
    OrIntLit8,
    XorIntLit8,
    ShlIntLit8,
    ShrIntLit8,
    UshrIntLit8,
    Unknown,
}

impl Opcode {
    /// The byte that encodes this opcode; `Unknown` is given `0xff`.
    pub open spec fn encoding(self) -> u8 {
        match self {
            Opcode::Nop => 0x00,
            Opcode::Move => 0x01,
            Opcode::MoveFrom16 => 0x02,
            Opcode::Move16 => 0x03,
            Opcode::MoveWide => 0x04,
            Opcode::MoveWideFrom16 => 0x05,
            Opcode::MoveWide16 => 0x06,
            Opcode::MoveObject => 0x07,
            Opcode::MoveObjectFrom16 => 0x08,
            Opcode::MoveObject16 => 0x09,
            Opcode::MoveResult => 0x0a,
            Opcode::MoveResultWide => 0x0b,
            Opcode::MoveResultObject => 0x0c,
            Opcode::MoveException => 0x0d,
            Opcode::ReturnVoid => 0x0e,
            Opcode::Return => 0x0f,
            Opcode::ReturnWide => 0x10,
            Opcode::ReturnObject => 0x11,
            Opcode::Const4 => 0x12,
            Opcode::Const16 => 0x13,
            Opcode::Const => 0x14,
            Opcode::ConstHigh16 => 0x15,
            Opcode::ConstWide16 => 0x16,
            Opcode::ConstWide32 => 0x17,
            Opcode::ConstWide => 0x18,
            Opcode::ConstWideHigh16 => 0x19,
            Opcode::ConstString => 0x1a,
            Opcode::ConstStringJumbo => 0x1b,
            Opcode::ConstClass => 0x1c,
            Opcode::MonitorEnter => 0x1d,
            Opcode::MonitorExit => 0x1e,
            Opcode::CheckCast => 0x1f,
            Opcode::InstanceOf => 0x20,
            Opcode::ArrayLength => 0x21,
            Opcode::NewInstance => 0x22,
            Opcode::NewArray => 0x23,
            Opcode::FilledNewArray => 0x24,
            Opcode::FilledNewArrayRange => 0x25,
            Opcode::FillArrayData => 0x26,
            Opcode::Throw => 0x27,
            Opcode::Goto => 0x28,
            Opcode::Goto16 => 0x29,
            Opcode::Goto32 => 0x2a,
            Opcode::PackedSwitch => 0x2b,
            Opcode::SparseSwitch => 0x2c,
            Opcode::CmplFloat => 0x2d,
            Opcode::CmpgFloat => 0x2e,
            Opcode::CmplDouble => 0x2f,
            Opcode::CmpgDouble => 0x30,
            Opcode::CmpLong => 0x31,
            Opcode::IfEq => 0x32,
            Opcode::IfNe => 0x33,
            Opcode::IfLt => 0x34,
            Opcode::IfGe => 0x35,
            Opcode::IfGt => 0x36,
            Opcode::IfLe => 0x37,
            Opcode::IfEqz => 0x38,
            Opcode::IfNez => 0x39,
            Opcode::IfLtz => 0x3a,
            Opcode::IfGez => 0x3b,
            Opcode::IfGtz => 0x3c,
            Opcode::IfLez => 0x3d,
            Opcode::Aget => 0x44,
            Opcode::AgetWide => 0x45,
            Opcode::AgetObject => 0x46,
            Opcode::AgetBoolean => 0x47,
            Opcode::AgetByte => 0x48,
            Opcode::AgetChar => 0x49,
            Opcode::AgetShort => 0x4a,
            Opcode::Aput => 0x4b,
            Opcode::AputWide => 0x4c,
            Opcode::AputObject => 0x4d,
            Opcode::AputBoolean => 0x4e,
            Opcode::AputByte => 0x4f,
            Opcode::AputChar => 0x50,
            Opcode::AputShort => 0x51,
            Opcode::Iget => 0x52,
            Opcode::IgetWide => 0x53,
            Opcode::IgetObject => 0x54,
            Opcode::IgetBoolean => 0x55,
            Opcode::IgetByte => 0x56,
            Opcode::IgetChar => 0x57,
            Opcode::IgetShort => 0x58,
            Opcode::Iput => 0x59,
            Opcode::IputWide => 0x5a,
            Opcode::IputObject => 0x5b,
            Opcode::IputBoolean => 0x5c,
            Opcode::IputByte => 0x5d,
            Opcode::IputChar => 0x5e,
            Opcode::IputShort => 0x5f,
            Opcode::Sget => 0x60,
            Opcode::SgetWide => 0x61,
            Opcode::SgetObject => 0x62,
            Opcode::SgetBoolean => 0x63,
            Opcode::SgetByte => 0x64,
            Opcode::SgetChar => 0x65,
            Opcode::SgetShort => 0x66,
            Opcode::Sput => 0x67,
            Opcode::SputWide => 0x68,
            Opcode::SputObject => 0x69,
            Opcode::SputBoolean => 0x6a,
            Opcode::SputByte => 0x6b,
            Opcode::SputChar => 0x6c,
            Opcode::SputShort => 0x6d,
            Opcode::InvokeVirtual => 0x6e,
            Opcode::InvokeSuper => 0x6f,
            Opcode::InvokeDirect => 0x70,
            Opcode::InvokeStatic => 0x71,
            Opcode::InvokeInterface => 0x72,
            Opcode::InvokeVirtualRange => 0x74,
            Opcode::InvokeSuperRange => 0x75,
            Opcode::InvokeDirectRange => 0x76,
            Opcode::InvokeStaticRange => 0x77,
            Opcode::InvokeInterfaceRange => 0x78,
            Opcode::NegInt => 0x7b,
            Opcode::NotInt => 0x7c,
            Opcode::NegLong => 0x7d,
            Opcode::NotLong => 0x7e,
            Opcode::NegFloat => 0x7f,
            Opcode::NegDouble => 0x80,
            Opcode::IntToLong => 0x81,
            Opcode::IntToFloat => 0x82,
            Opcode::IntToDouble => 0x83,
            Opcode::LongToInt => 0x84,
            Opcode::LongToFloat => 0x85,
            Opcode::LongToDouble => 0x86,
            Opcode::FloatToInt => 0x87,
            Opcode::FloatToLong => 0x88,
            Opcode::FloatToDouble => 0x89,
            Opcode::DoubleToInt => 0x8a,
            Opcode::DoubleToLong => 0x8b,
            Opcode::DoubleToFloat => 0x8c,
            Opcode::IntToByte => 0x8d,
            Opcode::IntToChar => 0x8e,
            Opcode::IntToShort => 0x8f,
            Opcode::AddInt => 0x90,
            Opcode::SubInt => 0x91,
            Opcode::MulInt => 0x92,
            Opcode::DivInt => 0x93,
            Opcode::RemInt => 0x94,
            Opcode::AndInt => 0x95,
            Opcode::OrInt => 0x96,
            Opcode::XorInt => 0x97,
            Opcode::ShlInt => 0x98,
            Opcode::ShrInt => 0x99,
            Opcode::UshrInt => 0x9a,
            Opcode::AddLong => 0x9b,
            Opcode::SubLong => 0x9c,
            Opcode::MulLong => 0x9d,
            Opcode::DivLong => 0x9e,
            Opcode::RemLong => 0x9f,
            Opcode::AndLong => 0xa0,
            Opcode::OrLong => 0xa1,
            Opcode::XorLong => 0xa2,
            Opcode::ShlLong => 0xa3,
            Opcode::ShrLong => 0xa4,
            Opcode::UshrLong => 0xa5,
            Opcode::AddFloat => 0xa6,
            Opcode::SubFloat => 0xa7,
            Opcode::MulFloat => 0xa8,
            Opcode::DivFloat => 0xa9,
            Opcode::RemFloat => 0xaa,
            Opcode::AddDouble => 0xab,
            Opcode::SubDouble => 0xac,
            Opcode::MulDouble => 0xad,
            Opcode::DivDouble => 0xae,
            Opcode::RemDouble => 0xaf,
            Opcode::AddInt2addr => 0xb0,
            Opcode::SubInt2addr => 0xb1,
            Opcode::MulInt2addr => 0xb2,
            Opcode::DivInt2addr => 0xb3,
            Opcode::RemInt2addr => 0xb4,
            Opcode::AndInt2addr => 0xb5,
            Opcode::OrInt2addr => 0xb6,
            Opcode::XorInt2addr => 0xb7,
            Opcode::ShlInt2addr => 0xb8,
            Opcode::ShrInt2addr => 0xb9,
            Opcode::UshrInt2addr => 0xba,
            Opcode::AddLong2addr => 0xbb,
            Opcode::SubLong2addr => 0xbc,
            Opcode::MulLong2addr => 0xbd,
            Opcode::DivLong2addr => 0xbe,
            Opcode::RemLong2addr => 0xbf,
            Opcode::AndLong2addr => 0xc0,
            Opcode::OrLong2addr => 0xc1,
            Opcode::XorLong2addr => 0xc2,
            Opcode::ShlLong2addr => 0xc3,
            Opcode::ShrLong2addr => 0xc4,
            Opcode::UshrLong2addr => 0xc5,
            Opcode::AddFloat2addr => 0xc6,
            Opcode::SubFloat2addr => 0xc7,
            Opcode::MulFloat2addr => 0xc8,
            Opcode::DivFloat2addr => 0xc9,
            Opcode::RemFloat2addr => 0xca,
            Opcode::AddDouble2addr => 0xcb,
            Opcode::SubDouble2addr => 0xcc,
            Opcode::MulDouble2addr => 0xcd,
            Opcode::DivDouble2addr => 0xce,
            Opcode::RemDouble2addr => 0xcf,
            Opcode::AddIntLit16 => 0xd0,
            Opcode::RsubInt => 0xd1,
            Opcode::MulIntLit16 => 0xd2,
            Opcode::DivIntLit16 => 0xd3,
            Opcode::RemIntLit16 => 0xd4,
            Opcode::AndIntLit16 => 0xd5,
            Opcode::OrIntLit16 => 0xd6,
            Opcode::XorIntLit16 => 0xd7,
            Opcode::AddIntLit8 => 0xd8,
            Opcode::RsubIntLit8 => 0xd9,
            Opcode::MulIntLit8 => 0xda,
            Opcode::DivIntLit8 => 0xdb,
            Opcode::RemIntLit8 => 0xdc,
            Opcode::AndIntLit8 => 0xdd,
            Opcode::OrIntLit8 => 0xde,
            Opcode::XorIntLit8 => 0xdf,
            Opcode::ShlIntLit8 => 0xe0,
            Opcode::ShrIntLit8 => 0xe1,
            Opcode::UshrIntLit8 => 0xe2,
            Opcode::Unknown => 0xff,
        }
    }

    /// The bytes to which the table assigns an opcode.
    pub open spec fn is_assigned(value: u8) -> bool {
        ||| value <= 0x3d
        ||| 0x44 <= value <= 0x72
        ||| 0x74 <= value <= 0x78
        ||| 0x7b <= value <= 0xe2
    }

    /// Create opcode from byte value.
    #[verifier::rlimit(50)]
    pub fn from_u8(value: u8) -> (op: Opcode)
        ensures
            Opcode::is_assigned(value) ==> op != Opcode::Unknown && op.encoding() == value,
            !Opcode::is_assigned(value) ==> op == Opcode::Unknown,
    {
        match value {
            0x00 => Opcode::Nop,
            0x01 => Opcode::Move,
            0x02 => Opcode::MoveFrom16,
            0x03 => Opcode::Move16,
            0x04 => Opcode::MoveWide,
            0x05 => Opcode::MoveWideFrom16,
            0x06 => Opcode::MoveWide16,
            0x07 => Opcode::MoveObject,
            0x08 => Opcode::MoveObjectFrom16,
            0x09 => Opcode::MoveObject16,
            0x0a => Opcode::MoveResult,
            0x0b => Opcode::MoveResultWide,
            0x0c => Opcode::MoveResultObject,
            0x0d => Opcode::MoveException,
            0x0e => Opcode::ReturnVoid,
            0x0f => Opcode::Return,
            0x10 => Opcode::ReturnWide,
            0x11 => Opcode::ReturnObject,
            0x12 => Opcode::Const4,
            0x13 => Opcode::Const16,
            0x14 => Opcode::Const,
            0x15 => Opcode::ConstHigh16,
            0x16 => Opcode::ConstWide16,
            0x17 => Opcode::ConstWide32,
            0x18 => Opcode::ConstWide,
            0x19 => Opcode::ConstWideHigh16,
            0x1a => Opcode::ConstString,
            0x1b => Opcode::ConstStringJumbo,
            0x1c => Opcode::ConstClass,
            0x1d => Opcode::MonitorEnter,
            0x1e => Opcode::MonitorExit,
            0x1f => Opcode::CheckCast,
            0x20 => Opcode::InstanceOf,
            0x21 => Opcode::ArrayLength,
            0x22 => Opcode::NewInstance,
            0x23 => Opcode::NewArray,
            0x24 => Opcode::FilledNewArray,
            0x25 => Opcode::FilledNewArrayRange,
            0x26 => Opcode::FillArrayData,
            0x27 => Opcode::Throw,
            0x28 => Opcode::Goto,
            0x29 => Opcode::Goto16,
            0x2a => Opcode::Goto32,
            0x2b => Opcode::PackedSwitch,
            0x2c => Opcode::SparseSwitch,
            0x2d => Opcode::CmplFloat,
            0x2e => Opcode::CmpgFloat,
            0x2f => Opcode::CmplDouble,
            0x30 => Opcode::CmpgDouble,
            0x31 => Opcode::CmpLong,
            0x32 => Opcode::IfEq,
            0x33 => Opcode::IfNe,
            0x34 => Opcode::IfLt,
            0x35 => Opcode::IfGe,
            0x36 => Opcode::IfGt,
            0x37 => Opcode::IfLe,
            0x38 => Opcode::IfEqz,
            0x39 => Opcode::IfNez,
            0x3a => Opcode::IfLtz,
            0x3b => Opcode::IfGez,
            0x3c => Opcode::IfGtz,
            0x3d => Opcode::IfLez,
            0x44 => Opcode::Aget,
            0x45 => Opcode::AgetWide,
            0x46 => Opcode::AgetObject,
            0x47 => Opcode::AgetBoolean,
            0x48 => Opcode::AgetByte,
            0x49 => Opcode::AgetChar,
            0x4a => Opcode::AgetShort,
            0x4b => Opcode::Aput,
            0x4c => Opcode::AputWide,
            0x4d => Opcode::AputObject,
            0x4e => Opcode::AputBoolean,
            0x4f => Opcode::AputByte,
            0x50 => Opcode::AputChar,
            0x51 => Opcode::AputShort,
            0x52 => Opcode::Iget,
            0x53 => Opcode::IgetWide,
            0x54 => Opcode::IgetObject,
            0x55 => Opcode::IgetBoolean,
            0x56 => Opcode::IgetByte,
            0x57 => Opcode::IgetChar,
            0x58 => Opcode::IgetShort,
            0x59 => Opcode::Iput,
            0x5a => Opcode::IputWide,
            0x5b => Opcode::IputObject,
            0x5c => Opcode::IputBoolean,
            0x5d => Opcode::IputByte,
            0x5e => Opcode::IputChar,
            0x5f => Opcode::IputShort,
            0x60 => Opcode::Sget,
            0x61 => Opcode::SgetWide,
            0x62 => Opcode::SgetObject,
            0x63 => Opcode::SgetBoolean,
            0x64 => Opcode::SgetByte,
            0x65 => Opcode::SgetChar,
            0x66 => Opcode::SgetShort,
            0x67 => Opcode::Sput,
            0x68 => Opcode::SputWide,
            0x69 => Opcode::SputObject,
            0x6a => Opcode::SputBoolean,
            0x6b => Opcode::SputByte,
            0x6c => Opcode::SputChar,
            0x6d => Opcode::SputShort,
            0x6e => Opcode::InvokeVirtual,
            0x6f => Opcode::InvokeSuper,
            0x70 => Opcode::InvokeDirect,
            0x71 => Opcode::InvokeStatic,
            0x72 => Opcode::InvokeInterface,
            0x74 => Opcode::InvokeVirtualRange,
            0x75 => Opcode::InvokeSuperRange,
            0x76 => Opcode::InvokeDirectRange,
            0x77 => Opcode::InvokeStaticRange,
            0x78 => Opcode::InvokeInterfaceRange,
            0x7b => Opcode::NegInt,
            0x7c => Opcode::NotInt,
            0x7d => Opcode::NegLong,
            0x7e => Opcode::NotLong,
            0x7f => Opcode::NegFloat,
            0x80 => Opcode::NegDouble,
            0x81 => Opcode::IntToLong,
            0x82 => Opcode::IntToFloat,
            0x83 => Opcode::IntToDouble,
            0x84 => Opcode::LongToInt,
            0x85 => Opcode::LongToFloat,
            0x86 => Opcode::LongToDouble,
            0x87 => Opcode::FloatToInt,
            0x88 => Opcode::FloatToLong,
            0x89 => Opcode::FloatToDouble,
            0x8a => Opcode::DoubleToInt,
            0x8b => Opcode::DoubleToLong,
            0x8c => Opcode::DoubleToFloat,
            0x8d => Opcode::IntToByte,
            0x8e => Opcode::IntToChar,
            0x8f => Opcode::IntToShort,
            0x90 => Opcode::AddInt,
            0x91 => Opcode::SubInt,
            0x92 => Opcode::MulInt,
            0x93 => Opcode::DivInt,
            0x94 => Opcode::RemInt,
            0x95 => Opcode::AndInt,
            0x96 => Opcode::OrInt,
            0x97 => Opcode::XorInt,
            0x98 => Opcode::ShlInt,
            0x99 => Opcode::ShrInt,
            0x9a => Opcode::UshrInt,
            0x9b => Opcode::AddLong,
            0x9c => Opcode::SubLong,
            0x9d => Opcode::MulLong,
            0x9e => Opcode::DivLong,
            0x9f => Opcode::RemLong,
            0xa0 => Opcode::AndLong,
            0xa1 => Opcode::OrLong,
            0xa2 => Opcode::XorLong,
            0xa3 => Opcode::ShlLong,
            0xa4 => Opcode::ShrLong,
            0xa5 => Opcode::UshrLong,
            0xa6 => Opcode::AddFloat,
            0xa7 => Opcode::SubFloat,
            0xa8 => Opcode::MulFloat,
            0xa9 => Opcode::DivFloat,
            0xaa => Opcode::RemFloat,
            0xab => Opcode::AddDouble,
            0xac => Opcode::SubDouble,
            0xad => Opcode::MulDouble,
            0xae => Opcode::DivDouble,
            0xaf => Opcode::RemDouble,
            0xb0 => Opcode::AddInt2addr,
            0xb1 => Opcode::SubInt2addr,
            0xb2 => Opcode::MulInt2addr,
            0xb3 => Opcode::DivInt2addr,
            0xb4 => Opcode::RemInt2addr,
            0xb5 => Opcode::AndInt2addr,
            0xb6 => Opcode::OrInt2addr,
            0xb7 => Opcode::XorInt2addr,
            0xb8 => Opcode::ShlInt2addr,
            0xb9 => Opcode::ShrInt2addr,
            0xba => Opcode::UshrInt2addr,
            0xbb => Opcode::AddLong2addr,
            0xbc => Opcode::SubLong2addr,
            0xbd => Opcode::MulLong2addr,
            0xbe => Opcode::DivLong2addr,
            0xbf => Opcode::RemLong2addr,
            0xc0 => Opcode::AndLong2addr,
            0xc1 => Opcode::OrLong2addr,
            0xc2 => Opcode::XorLong2addr,
            0xc3 => Opcode::ShlLong2addr,
            0xc4 => Opcode::ShrLong2addr,
            0xc5 => Opcode::UshrLong2addr,
            0xc6 => Opcode::AddFloat2addr,
            0xc7 => Opcode::SubFloat2addr,
            0xc8 => Opcode::MulFloat2addr,
            0xc9 => Opcode::DivFloat2addr,
            0xca => Opcode::RemFloat2addr,
            0xcb => Opcode::AddDouble2addr,
            0xcc => Opcode::SubDouble2addr,
            0xcd => Opcode::MulDouble2addr,
            0xce => Opcode::DivDouble2addr,
            0xcf => Opcode::RemDouble2addr,
            0xd0 => Opcode::AddIntLit16,
            0xd1 => Opcode::RsubInt,
            0xd2 => Opcode::MulIntLit16,
            0xd3 => Opcode::DivIntLit16,
            0xd4 => Opcode::RemIntLit16,
            0xd5 => Opcode::AndIntLit16,
            0xd6 => Opcode::OrIntLit16,
            0xd7 => Opcode::XorIntLit16,
            0xd8 => Opcode::AddIntLit8,
            0xd9 => Opcode::RsubIntLit8,
            0xda => Opcode::MulIntLit8,
            0xdb => Opcode::DivIntLit8,
            0xdc => Opcode::RemIntLit8,
            0xdd => Opcode::AndIntLit8,
            0xde => Opcode::OrIntLit8,
            0xdf => Opcode::XorIntLit8,
            0xe0 => Opcode::ShlIntLit8,
            0xe1 => Opcode::ShrIntLit8,
            0xe2 => Opcode::UshrIntLit8,
            _ => Opcode::Unknown,
        }
    }
}

/// No two opcodes share an encoding, so the byte determines the opcode that
/// `from_u8` returns.
pub proof fn lemma_encoding_injective(a: Opcode, b: Opcode)
    requires
        a.encoding() == b.encoding(),
    ensures
        a == b,
{
}

/// Every opcode other than `Unknown` is encoded by an assigned byte, and
/// `Unknown` by an unassigned one.
pub proof fn lemma_encoding_assigned(op: Opcode)
    ensures
        Opcode::is_assigned(op.encoding()) <==> op != Opcode::Unknown,
{
}

} // verus!
