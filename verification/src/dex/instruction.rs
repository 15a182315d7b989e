//! Dalvik bytecode instruction decoder.
//!
//! A method body is a sequence of 16-bit code units. The decoder recognises
//! the constant loads and method invocations that expression reconstruction
//! needs; every other opcode is kept as `Unknown`, one code unit wide, so that
//! the position in the stream stays right.

use vstd::prelude::*;
use crate::text::{
    decimal, join, join_spec, hex_padded, i64_to_string, owned, push_decimal, push_hex_padded,
    signed_decimal, u64_to_string, views,
};

pub use crate::dex::opcode::Opcode;

verus! {

/// Decoded Dalvik instruction.
#[allow(inconsistent_fields)]
#[derive(Debug, Clone)]
pub enum Instruction {
    /// const/4 vA, #+B
    Const4 { dest: u8, value: i8 },
    /// const/16 vAA, #+BBBB
    Const16 { dest: u8, value: i16 },
    /// const vAA, #+BBBBBBBB
    Const { dest: u8, value: i32 },
    /// const-string vAA, string@BBBB
    ConstString { dest: u8, string_idx: u32 },
    /// invoke-virtual {vC, vD, vE, vF, vG}, meth@BBBB
    InvokeVirtual { args: Vec<u8>, method_idx: u32 },
    /// invoke-super {vC, vD, vE, vF, vG}, meth@BBBB
    InvokeSuper { args: Vec<u8>, method_idx: u32 },
    /// invoke-direct {vC, vD, vE, vF, vG}, meth@BBBB
    InvokeDirect { args: Vec<u8>, method_idx: u32 },
    /// invoke-static {vC, vD, vE, vF, vG}, meth@BBBB
    InvokeStatic { args: Vec<u8>, method_idx: u32 },
    /// invoke-interface {vC, vD, vE, vF, vG}, meth@BBBB
    InvokeInterface { args: Vec<u8>, method_idx: u32 },
    /// invoke-virtual/range {vCCCC .. vNNNN}, meth@BBBB
    InvokeVirtualRange { first_arg: u16, arg_count: u8, method_idx: u32 },
    /// invoke-static/range {vCCCC .. vNNNN}, meth@BBBB
    InvokeStaticRange { first_arg: u16, arg_count: u8, method_idx: u32 },
    /// Any other opcode, or an instruction cut short by the end of the
    /// stream; `data` holds the code units it covers.
    Unknown { opcode: u8, data: Vec<u16> },
}

/// The mathematical value of an [`Instruction`]: the same variants, with
/// sequences in place of vectors.
#[allow(inconsistent_fields)]
pub ghost enum InstructionView {
    Const4 { dest: u8, value: i8 },
    Const16 { dest: u8, value: i16 },
    Const { dest: u8, value: i32 },
    ConstString { dest: u8, string_idx: u32 },
    InvokeVirtual { args: Seq<u8>, method_idx: u32 },
    InvokeSuper { args: Seq<u8>, method_idx: u32 },
    InvokeDirect { args: Seq<u8>, method_idx: u32 },
    InvokeStatic { args: Seq<u8>, method_idx: u32 },
    InvokeInterface { args: Seq<u8>, method_idx: u32 },
    InvokeVirtualRange { first_arg: u16, arg_count: u8, method_idx: u32 },
    InvokeStaticRange { first_arg: u16, arg_count: u8, method_idx: u32 },
    Unknown { opcode: u8, data: Seq<u16> },
}

impl View for Instruction {
    type V = InstructionView;

    open spec fn view(&self) -> InstructionView {
        match *self {
            Instruction::Const4 { dest, value } => InstructionView::Const4 { dest, value },
            Instruction::Const16 { dest, value } => InstructionView::Const16 { dest, value },
            Instruction::Const { dest, value } => InstructionView::Const { dest, value },
            Instruction::ConstString { dest, string_idx } => InstructionView::ConstString {
                dest,
                string_idx,
            },
            Instruction::InvokeVirtual { args, method_idx } => InstructionView::InvokeVirtual {
                args: args@,
                method_idx,
            },
            Instruction::InvokeSuper { args, method_idx } => InstructionView::InvokeSuper {
                args: args@,
                method_idx,
            },
            Instruction::InvokeDirect { args, method_idx } => InstructionView::InvokeDirect {
                args: args@,
                method_idx,
            },
            Instruction::InvokeStatic { args, method_idx } => InstructionView::InvokeStatic {
                args: args@,
                method_idx,
            },
            Instruction::InvokeInterface { args, method_idx } => InstructionView::InvokeInterface {
                args: args@,
                method_idx,
            },
            Instruction::InvokeVirtualRange {
                first_arg,
                arg_count,
                method_idx,
            } => InstructionView::InvokeVirtualRange { first_arg, arg_count, method_idx },
            Instruction::InvokeStaticRange {
                first_arg,
                arg_count,
                method_idx,
            } => InstructionView::InvokeStaticRange { first_arg, arg_count, method_idx },
            Instruction::Unknown { opcode, data } => InstructionView::Unknown {
                opcode,
                data: data@,
            },
        }
    }
}

impl InstructionView {
    /// Number of code units the instruction covers in the stream.
    pub open spec fn width(self) -> int {
        match self {
            InstructionView::Const4 { .. } => 1,
            InstructionView::Const16 { .. } => 2,
            InstructionView::Const { .. } => 3,
            InstructionView::ConstString { .. } => 2,
            InstructionView::InvokeVirtual { .. } => 3,
            InstructionView::InvokeSuper { .. } => 3,
            InstructionView::InvokeDirect { .. } => 3,
            InstructionView::InvokeStatic { .. } => 3,
            InstructionView::InvokeInterface { .. } => 3,
            InstructionView::InvokeVirtualRange { .. } => 3,
            InstructionView::InvokeStaticRange { .. } => 3,
            InstructionView::Unknown { data, .. } => data.len() as int,
        }
    }
}

/// Opcode byte of a code unit: its low eight bits.
pub open spec fn opcode_byte(word: u16) -> u8 {
    (word & 0xFF) as u8
}

/// High byte of a code unit.
pub open spec fn high_byte(word: u16) -> u8 {
    (word >> 8) as u8
}

/// The four-bit field of `word` that starts at bit `shift`.
pub open spec fn nibble(word: u16, shift: u16) -> u8 {
    ((word >> shift) & 0xF) as u8
}

/// A four-bit two's complement number as a signed byte.
pub open spec fn sign_extend_nibble(bits: u8) -> i8 {
    if bits >= 8 {
        (bits - 16) as i8
    } else {
        bits as i8
    }
}

/// A code unit read as a signed 16-bit number.
pub open spec fn signed_16(word: u16) -> i16 {
    if word >= 0x8000 {
        (word - 0x1_0000) as i16
    } else {
        word as i16
    }
}

/// Two code units, low one first, read as a signed 32-bit number.
pub open spec fn signed_32(low: u16, high: u16) -> i32 {
    let bits: u32 = ((high as u32) << 16) | (low as u32);
    if bits >= 0x8000_0000 {
        (bits - 0x1_0000_0000) as i32
    } else {
        bits as i32
    }
}

/// Number of code units that an instruction with this opcode byte occupies.
pub open spec fn opcode_width(op: u8) -> int {
    if op == 0x12 {
        1
    } else if op == 0x13 || op == 0x1a {
        2
    } else if op == 0x14 || (0x6e <= op <= 0x72) || op == 0x74 || op == 0x77 {
        3
    } else {
        1
    }
}

/// Argument registers of a non-range invoke: the first from bits 8..12 of the
/// opcode unit, up to four more from the nibbles of the third unit, low
/// nibble first; cut to the count in bits 12..16 of the opcode unit.
pub open spec fn invoke_args(word: u16, args_word: u16) -> Seq<u8> {
    let count = nibble(word, 12) as int;
    Seq::new(
        (if count <= 5 { count } else { 5 }) as nat,
        |j: int| if j == 0 { nibble(word, 8) } else { nibble(args_word, ((j - 1) * 4) as u16) },
    )
}

/// The instruction that starts at index `i` of `code`.
///
/// Where the stream ends before the instruction is complete, the result is
/// `Unknown` holding the code units that are left.
pub open spec fn decode_one(code: Seq<u16>, i: int) -> InstructionView
    recommends
        0 <= i < code.len(),
{
    let word = code[i];
    let op = opcode_byte(word);
    if i + opcode_width(op) > code.len() {
        InstructionView::Unknown { opcode: op, data: code.subrange(i, code.len() as int) }
    } else if op == 0x12 {
        InstructionView::Const4 { dest: nibble(word, 8), value: sign_extend_nibble(nibble(word, 12)) }
    } else if op == 0x13 {
        InstructionView::Const16 { dest: high_byte(word), value: signed_16(code[i + 1]) }
    } else if op == 0x14 {
        InstructionView::Const { dest: high_byte(word), value: signed_32(code[i + 1], code[i + 2]) }
    } else if op == 0x1a {
        InstructionView::ConstString { dest: high_byte(word), string_idx: code[i + 1] as u32 }
    } else if op == 0x6e {
        InstructionView::InvokeVirtual {
            args: invoke_args(word, code[i + 2]),
            method_idx: code[i + 1] as u32,
        }
    } else if op == 0x6f {
        InstructionView::InvokeSuper {
            args: invoke_args(word, code[i + 2]),
            method_idx: code[i + 1] as u32,
        }
    } else if op == 0x70 {
        InstructionView::InvokeDirect {
            args: invoke_args(word, code[i + 2]),
            method_idx: code[i + 1] as u32,
        }
    } else if op == 0x71 {
        InstructionView::InvokeStatic {
            args: invoke_args(word, code[i + 2]),
            method_idx: code[i + 1] as u32,
        }
    } else if op == 0x72 {
        InstructionView::InvokeInterface {
            args: invoke_args(word, code[i + 2]),
            method_idx: code[i + 1] as u32,
        }
    } else if op == 0x74 {
        InstructionView::InvokeVirtualRange {
            first_arg: code[i + 2],
            arg_count: high_byte(word),
            method_idx: code[i + 1] as u32,
        }
    } else if op == 0x77 {
        InstructionView::InvokeStaticRange {
            first_arg: code[i + 2],
            arg_count: high_byte(word),
            method_idx: code[i + 1] as u32,
        }
    } else {
        InstructionView::Unknown { opcode: op, data: seq![word] }
    }
}

/// The instructions of `code` from index `i` to its end.
pub open spec fn decode_from(code: Seq<u16>, i: int) -> Seq<InstructionView>
    decreases code.len() - i,
{
    if i < 0 || i >= code.len() {
        Seq::empty()
    } else {
        let first = decode_one(code, i);
        if first.width() <= 0 {
            seq![first]
        } else {
            seq![first] + decode_from(code, i + first.width())
        }
    }
}

/// The instruction stream of a whole method body.
pub open spec fn decode_spec(code: Seq<u16>) -> Seq<InstructionView> {
    decode_from(code, 0)
}

/// The views of a vector of instructions.
pub open spec fn instruction_views(v: Seq<Instruction>) -> Seq<InstructionView> {
    v.map_values(|insn: Instruction| insn@)
}

/// Sum of the widths of a sequence of instructions.
pub open spec fn total_width(insns: Seq<InstructionView>) -> int
    decreases insns.len(),
{
    if insns.len() == 0 {
        0
    } else {
        insns[0].width() + total_width(insns.drop_first())
    }
}

/// An instruction decoded inside the stream covers at least one code unit and
/// never reaches past the end of the stream.
pub proof fn lemma_decode_one_width(code: Seq<u16>, i: int)
    requires
        0 <= i < code.len(),
    ensures
        1 <= decode_one(code, i).width(),
        i + decode_one(code, i).width() <= code.len(),
{
}

/// Decoding preserves length: the widths of the instructions decoded from
/// index `i` on add up to the number of code units from `i` to the end.
pub proof fn lemma_decode_from_total_width(code: Seq<u16>, i: int)
    requires
        0 <= i <= code.len(),
    ensures
        total_width(decode_from(code, i)) == code.len() - i,
    decreases code.len() - i,
{
    if i < code.len() {
        let first = decode_one(code, i);
        lemma_decode_one_width(code, i);
        lemma_decode_from_total_width(code, i + first.width());
        let rest = decode_from(code, i + first.width());
        assert((seq![first] + rest).drop_first() =~= rest);
    }
}

/// Decoding is total and preserves length: for every stream, the widths of
/// the decoded instructions add up to the number of code units.
pub proof fn lemma_decode_preserves_length(code: Seq<u16>)
    ensures
        total_width(decode_spec(code)) == code.len(),
{
    lemma_decode_from_total_width(code, 0);
}

fn low_byte_of(word: u16) -> (b: u8)
    ensures
        b == opcode_byte(word),
{
    assert(word & 0xFF <= 0xFF) by (bit_vector);
    (word & 0xFF) as u8
}

fn high_byte_of(word: u16) -> (b: u8)
    ensures
        b == high_byte(word),
{
    assert(word >> 8 <= 0xFF) by (bit_vector);
    (word >> 8) as u8
}

fn nibble_of(word: u16, shift: u16) -> (n: u8)
    requires
        shift < 16,
    ensures
        n == nibble(word, shift),
        n <= 15,
{
    assert((word >> shift) & 0xF <= 15) by (bit_vector);
    ((word >> shift) & 0xF) as u8
}

fn sign_extend_nibble_of(bits: u8) -> (v: i8)
    requires
        bits <= 15,
    ensures
        v == sign_extend_nibble(bits),
{
    if bits >= 8 {
        (bits as i8) - 16
    } else {
        bits as i8
    }
}

fn signed_16_of(word: u16) -> (v: i16)
    ensures
        v == signed_16(word),
{
    if word >= 0x8000 {
        ((word as i32) - 0x1_0000) as i16
    } else {
        word as i16
    }
}

fn signed_32_of(low: u16, high: u16) -> (v: i32)
    ensures
        v == signed_32(low, high),
{
    let bits: u32 = ((high as u32) << 16) | (low as u32);
    if bits >= 0x8000_0000 {
        ((bits as i64) - 0x1_0000_0000) as i32
    } else {
        bits as i32
    }
}

fn invoke_args_of(word: u16, args_word: u16) -> (args: Vec<u8>)
    ensures
        args@ == invoke_args(word, args_word),
{
    let count = nibble_of(word, 12);
    let limit: u8 = if count <= 5 { count } else { 5 };
    let mut args: Vec<u8> = Vec::new();
    let mut j: u8 = 0;
    while j < limit
        invariant
            j <= limit <= 5,
            args@.len() == j,
            forall|k: int| 0 <= k < j ==> args@[k] == invoke_args(word, args_word)[k],
            invoke_args(word, args_word).len() == limit,
        decreases limit - j,
    {
        let arg = if j == 0 {
            nibble_of(word, 8)
        } else {
            nibble_of(args_word, ((j - 1) * 4) as u16)
        };
        args.push(arg);
        j += 1;
    }
    assert(args@ =~= invoke_args(word, args_word));
    args
}

fn rest_of(bytecode: &[u16], i: usize) -> (data: Vec<u16>)
    requires
        i <= bytecode@.len(),
    ensures
        data@ == bytecode@.subrange(i as int, bytecode@.len() as int),
{
    let mut data: Vec<u16> = Vec::new();
    let mut k: usize = i;
    while k < bytecode.len()
        invariant
            i <= k <= bytecode@.len(),
            data@ == bytecode@.subrange(i as int, k as int),
        decreases bytecode@.len() - k,
    {
        data.push(bytecode[k]);
        k += 1;
        assert(bytecode@.subrange(i as int, k as int) == bytecode@.subrange(
            i as int,
            k - 1,
        ).push(bytecode@[k - 1]));
    }
    data
}

/// Decode Dalvik bytecode instructions.
pub struct InstructionDecoder;

impl InstructionDecoder {
    /// Number of code units that an instruction with this opcode occupies.
    fn width_of(opcode: Opcode) -> (w: usize)
        ensures
            w == opcode_width(opcode.encoding()),
            1 <= w <= 3,
    {
        match opcode {
            Opcode::Const4 => 1,
            Opcode::Const16 | Opcode::ConstString => 2,
            Opcode::Const
            | Opcode::InvokeVirtual
            | Opcode::InvokeSuper
            | Opcode::InvokeDirect
            | Opcode::InvokeStatic
            | Opcode::InvokeInterface
            | Opcode::InvokeVirtualRange
            | Opcode::InvokeStaticRange => 3,
            _ => 1,
        }
    }

    /// The instruction at index `i` and the number of code units it covers.
    fn decode_at(bytecode: &[u16], i: usize) -> (out: (Instruction, usize))
        requires
            i < bytecode@.len(),
        ensures
            out.0@ == decode_one(bytecode@, i as int),
            out.1 == decode_one(bytecode@, i as int).width(),
            1 <= out.1,
            i + out.1 <= bytecode@.len(),
    {
        let word = bytecode[i];
        let opcode_byte = low_byte_of(word);
        let opcode = Opcode::from_u8(opcode_byte);
        let width = Self::width_of(opcode);
        proof {
            if !Opcode::is_assigned(opcode_byte) {
                assert(opcode_width(opcode_byte) == 1);
            }
        }
        if width > bytecode.len() - i {
            let data = rest_of(bytecode, i);
            return (Instruction::Unknown { opcode: opcode_byte, data }, bytecode.len() - i);
        }
        let instruction = match opcode {
            Opcode::Const4 => {
                let dest = nibble_of(word, 8);
                let value = sign_extend_nibble_of(nibble_of(word, 12));
                Instruction::Const4 { dest, value }
            },
            Opcode::Const16 => {
                let dest = high_byte_of(word);
                let value = signed_16_of(bytecode[i + 1]);
                Instruction::Const16 { dest, value }
            },
            Opcode::Const => {
                let dest = high_byte_of(word);
                let value = signed_32_of(bytecode[i + 1], bytecode[i + 2]);
                Instruction::Const { dest, value }
            },
            Opcode::ConstString => {
                let dest = high_byte_of(word);
                Instruction::ConstString { dest, string_idx: bytecode[i + 1] as u32 }
            },
            Opcode::InvokeVirtual => Instruction::InvokeVirtual {
                args: invoke_args_of(word, bytecode[i + 2]),
                method_idx: bytecode[i + 1] as u32,
            },
            Opcode::InvokeSuper => Instruction::InvokeSuper {
                args: invoke_args_of(word, bytecode[i + 2]),
                method_idx: bytecode[i + 1] as u32,
            },
            Opcode::InvokeDirect => Instruction::InvokeDirect {
                args: invoke_args_of(word, bytecode[i + 2]),
                method_idx: bytecode[i + 1] as u32,
            },
            Opcode::InvokeStatic => Instruction::InvokeStatic {
                args: invoke_args_of(word, bytecode[i + 2]),
                method_idx: bytecode[i + 1] as u32,
            },
            Opcode::InvokeInterface => Instruction::InvokeInterface {
                args: invoke_args_of(word, bytecode[i + 2]),
                method_idx: bytecode[i + 1] as u32,
            },
            Opcode::InvokeVirtualRange => Instruction::InvokeVirtualRange {
                first_arg: bytecode[i + 2],
                arg_count: high_byte_of(word),
                method_idx: bytecode[i + 1] as u32,
            },
            Opcode::InvokeStaticRange => Instruction::InvokeStaticRange {
                first_arg: bytecode[i + 2],
                arg_count: high_byte_of(word),
                method_idx: bytecode[i + 1] as u32,
            },
            _ => {
                let mut data: Vec<u16> = Vec::new();
                data.push(word);
                assert(data@ =~= seq![word]);
                Instruction::Unknown { opcode: opcode_byte, data }
            },
        };
        (instruction, width)
    }

    /// Decode instructions from bytecode.
    ///
    /// The result is the instruction stream of `bytecode`: one instruction per
    /// opcode unit met, each taking the follow-on units its format has, and
    /// `Unknown` for an instruction that the end of the stream cuts short.
    pub fn decode(bytecode: &[u16]) -> (instructions: Vec<Instruction>)
        ensures
            instruction_views(instructions@) == decode_spec(bytecode@),
            total_width(instruction_views(instructions@)) == bytecode@.len(),
    {
        let mut instructions: Vec<Instruction> = Vec::new();
        let mut i: usize = 0;
        while i < bytecode.len()
            invariant
                i <= bytecode@.len(),
                instruction_views(instructions@) + decode_from(bytecode@, i as int) == decode_spec(
                    bytecode@,
                ),
            decreases bytecode@.len() - i,
        {
            let (instruction, width) = Self::decode_at(bytecode, i);
            let ghost before = instruction_views(instructions@);
            let ghost rest = decode_from(bytecode@, i + width);
            instructions.push(instruction);
            proof {
                assert(instruction_views(instructions@) =~= before.push(instruction@));
                assert(decode_from(bytecode@, i as int) == seq![instruction@] + rest);
                assert(before.push(instruction@) + rest =~= before + (seq![instruction@] + rest));
            }
            i += width;
        }
        proof {
            assert(decode_from(bytecode@, i as int) =~= Seq::<InstructionView>::empty());
            assert(instruction_views(instructions@) + Seq::<InstructionView>::empty()
                =~= instruction_views(instructions@));
            lemma_decode_preserves_length(bytecode@);
        }
        instructions
    }
}

/// The registers of an invoke written for display: their numbers in decimal.
pub open spec fn register_numbers(args: Seq<u8>) -> Seq<Seq<char>> {
    args.map_values(|a: u8| decimal(a as nat))
}

/// Text of a non-range invoke: the mnemonic, the registers in braces, each
/// with a `v` before it, and the method index.
pub open spec fn invoke_text(mnemonic: Seq<char>, args: Seq<u8>, method_idx: u32) -> Seq<char> {
    mnemonic + " {v"@ + join_spec(register_numbers(args), ", v"@) + "}, method@"@ + decimal(
        method_idx as nat,
    )
}

/// Text of a range invoke: the mnemonic, the first and the last register of
/// the range, and the method index.
pub open spec fn range_text(mnemonic: Seq<char>, first_arg: u16, arg_count: u8, method_idx: u32) -> Seq<
    char,
> {
    mnemonic + " {v"@ + decimal(first_arg as nat) + " .. v"@ + decimal(
        (first_arg + arg_count - 1) as nat,
    ) + "}, method@"@ + decimal(method_idx as nat)
}

/// Text of a constant load: the mnemonic, the register and the value.
pub open spec fn const_text(mnemonic: Seq<char>, dest: u8, value: int) -> Seq<char> {
    mnemonic + " v"@ + decimal(dest as nat) + ", #"@ + signed_decimal(value)
}

impl InstructionView {
    /// Name of the instruction's opcode as written in disassembly;
    /// `unknown` for an instruction that was not decoded.
    pub open spec fn mnemonic(self) -> Seq<char> {
        match self {
            InstructionView::Const4 { .. } => "const/4"@,
            InstructionView::Const16 { .. } => "const/16"@,
            InstructionView::Const { .. } => "const"@,
            InstructionView::ConstString { .. } => "const-string"@,
            InstructionView::InvokeVirtual { .. } => "invoke-virtual"@,
            InstructionView::InvokeSuper { .. } => "invoke-super"@,
            InstructionView::InvokeDirect { .. } => "invoke-direct"@,
            InstructionView::InvokeStatic { .. } => "invoke-static"@,
            InstructionView::InvokeInterface { .. } => "invoke-interface"@,
            InstructionView::InvokeVirtualRange { .. } => "invoke-virtual/range"@,
            InstructionView::InvokeStaticRange { .. } => "invoke-static/range"@,
            InstructionView::Unknown { .. } => "unknown"@,
        }
    }

    /// Whether the last register of a range invoke has a number: the range
    /// is not empty and its end is at most 65535. Holds of every other
    /// instruction.
    pub open spec fn range_is_nameable(self) -> bool {
        match self {
            InstructionView::InvokeVirtualRange { first_arg, arg_count, .. } => 1 <= first_arg
                + arg_count <= 0xFFFF,
            InstructionView::InvokeStaticRange { first_arg, arg_count, .. } => 1 <= first_arg
                + arg_count <= 0xFFFF,
            _ => true,
        }
    }

    /// The instruction as one line of disassembly.
    pub open spec fn text(self) -> Seq<char> {
        match self {
            InstructionView::Const4 { dest, value } => const_text(self.mnemonic(), dest, value as int),
            InstructionView::Const16 { dest, value } => const_text(
                self.mnemonic(),
                dest,
                value as int,
            ),
            InstructionView::Const { dest, value } => const_text(self.mnemonic(), dest, value as int),
            InstructionView::ConstString { dest, string_idx } => "const-string v"@ + decimal(
                dest as nat,
            ) + ", string@"@ + decimal(string_idx as nat),
            InstructionView::InvokeVirtual { args, method_idx } => invoke_text(
                self.mnemonic(),
                args,
                method_idx,
            ),
            InstructionView::InvokeSuper { args, method_idx } => invoke_text(
                self.mnemonic(),
                args,
                method_idx,
            ),
            InstructionView::InvokeDirect { args, method_idx } => invoke_text(
                self.mnemonic(),
                args,
                method_idx,
            ),
            InstructionView::InvokeStatic { args, method_idx } => invoke_text(
                self.mnemonic(),
                args,
                method_idx,
            ),
            InstructionView::InvokeInterface { args, method_idx } => invoke_text(
                self.mnemonic(),
                args,
                method_idx,
            ),
            InstructionView::InvokeVirtualRange { first_arg, arg_count, method_idx } => range_text(
                self.mnemonic(),
                first_arg,
                arg_count,
                method_idx,
            ),
            InstructionView::InvokeStaticRange { first_arg, arg_count, method_idx } => range_text(
                self.mnemonic(),
                first_arg,
                arg_count,
                method_idx,
            ),
            InstructionView::Unknown { opcode, .. } => "unknown (opcode: 0x"@ + hex_padded(
                opcode as nat,
                2,
            ) + ")"@,
        }
    }
}

fn const_to_text(mnemonic: &str, dest: u8, value: i64) -> (out: String)
    ensures
        out@ == const_text(mnemonic@, dest, value as int),
{
    let mut out = owned(mnemonic);
    out.append(" v");
    push_decimal(&mut out, dest as u64);
    out.append(", #");
    out.append(i64_to_string(value).as_str());
    out
}

fn invoke_to_text(mnemonic: &str, args: &Vec<u8>, method_idx: u32) -> (out: String)
    ensures
        out@ == invoke_text(mnemonic@, args@, method_idx),
{
    let mut numbers: Vec<String> = Vec::new();
    let mut k: usize = 0;
    while k < args.len()
        invariant
            k <= args@.len(),
            views(numbers@) == register_numbers(args@).take(k as int),
        decreases args@.len() - k,
    {
        let ghost before = views(numbers@);
        numbers.push(u64_to_string(args[k] as u64));
        k += 1;
        assert(views(numbers@) =~= before.push(decimal(args@[k - 1] as nat)));
        assert(register_numbers(args@).take(k as int) =~= register_numbers(args@).take(k - 1).push(
            decimal(args@[k - 1] as nat),
        ));
    }
    assert(register_numbers(args@).take(args@.len() as int) =~= register_numbers(args@));
    let mut out = owned(mnemonic);
    out.append(" {v");
    out.append(join(&numbers, ", v").as_str());
    out.append("}, method@");
    push_decimal(&mut out, method_idx as u64);
    out
}

fn range_to_text(mnemonic: &str, first_arg: u16, arg_count: u8, method_idx: u32) -> (out: String)
    requires
        1 <= first_arg + arg_count <= 0xFFFF,
    ensures
        out@ == range_text(mnemonic@, first_arg, arg_count, method_idx),
{
    let mut out = owned(mnemonic);
    out.append(" {v");
    push_decimal(&mut out, first_arg as u64);
    out.append(" .. v");
    push_decimal(&mut out, first_arg as u64 + arg_count as u64 - 1);
    out.append("}, method@");
    push_decimal(&mut out, method_idx as u64);
    out
}

impl Instruction {
    /// Name of the instruction's opcode as written in disassembly.
    pub fn mnemonic(&self) -> (name: &'static str)
        ensures
            name@ == self@.mnemonic(),
    {
        match self {
            Instruction::Const4 { .. } => "const/4",
            Instruction::Const16 { .. } => "const/16",
            Instruction::Const { .. } => "const",
            Instruction::ConstString { .. } => "const-string",
            Instruction::InvokeVirtual { .. } => "invoke-virtual",
            Instruction::InvokeSuper { .. } => "invoke-super",
            Instruction::InvokeDirect { .. } => "invoke-direct",
            Instruction::InvokeStatic { .. } => "invoke-static",
            Instruction::InvokeInterface { .. } => "invoke-interface",
            Instruction::InvokeVirtualRange { .. } => "invoke-virtual/range",
            Instruction::InvokeStaticRange { .. } => "invoke-static/range",
            Instruction::Unknown { .. } => "unknown",
        }
    }

    /// Whether [`Instruction::to_text`] can be called: the last register of a
    /// range invoke has a number.
    pub fn range_is_nameable(&self) -> (yes: bool)
        ensures
            yes == self@.range_is_nameable(),
    {
        match self {
            Instruction::InvokeVirtualRange { first_arg, arg_count, .. } => *first_arg as u32
                + *arg_count as u32 >= 1 && *first_arg as u32 + *arg_count as u32 <= 0xFFFF,
            Instruction::InvokeStaticRange { first_arg, arg_count, .. } => *first_arg as u32
                + *arg_count as u32 >= 1 && *first_arg as u32 + *arg_count as u32 <= 0xFFFF,
            _ => true,
        }
    }

    /// The instruction as one line of disassembly.
    pub fn to_text(&self) -> (out: String)
        requires
            self@.range_is_nameable(),
        ensures
            out@ == self@.text(),
    {
        let name = self.mnemonic();
        match self {
            Instruction::Const4 { dest, value } => const_to_text(name, *dest, *value as i64),
            Instruction::Const16 { dest, value } => const_to_text(name, *dest, *value as i64),
            Instruction::Const { dest, value } => const_to_text(name, *dest, *value as i64),
            Instruction::ConstString { dest, string_idx } => {
                let mut out = owned("const-string v");
                push_decimal(&mut out, *dest as u64);
                out.append(", string@");
                push_decimal(&mut out, *string_idx as u64);
                out
            },
            Instruction::InvokeVirtual { args, method_idx } => invoke_to_text(
                name,
                args,
                *method_idx,
            ),
            Instruction::InvokeSuper { args, method_idx } => invoke_to_text(name, args, *method_idx),
            Instruction::InvokeDirect { args, method_idx } => invoke_to_text(
                name,
                args,
                *method_idx,
            ),
            Instruction::InvokeStatic { args, method_idx } => invoke_to_text(
                name,
                args,
                *method_idx,
            ),
            Instruction::InvokeInterface { args, method_idx } => invoke_to_text(
                name,
                args,
                *method_idx,
            ),
            Instruction::InvokeVirtualRange { first_arg, arg_count, method_idx } => range_to_text(
                name,
                *first_arg,
                *arg_count,
                *method_idx,
            ),
            Instruction::InvokeStaticRange { first_arg, arg_count, method_idx } => range_to_text(
                name,
                *first_arg,
                *arg_count,
                *method_idx,
            ),
            Instruction::Unknown { opcode, .. } => {
                let mut out = owned("unknown (opcode: 0x");
                push_hex_padded(&mut out, *opcode as u32, 2);
                out.append(")");
                out
            },
        }
    }
}

} // verus!
