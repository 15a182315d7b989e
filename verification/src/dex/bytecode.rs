//! Decoded instructions as flat records.
//!
//! A [`RustInstruction`] holds the parts of an instruction in fields of its
//! own, whatever its kind, together with its line of disassembly.

use vstd::prelude::*;
use crate::dex::instruction::{
    decode_spec, instruction_views, Instruction, InstructionDecoder, InstructionView,
};
use crate::text::{hex_padded, owned, push_hex_padded, seq_starts_with, str_eq, str_starts_with};

verus! {

/// Instruction as a flat record.
#[derive(Debug, Clone)]
pub struct RustInstruction {
    /// Instruction type (e.g., "const/4", "invoke-virtual").
    pub opcode: String,
    /// Destination register (if applicable).
    pub dest: Option<u8>,
    /// Constant value (for const instructions).
    pub value: Option<i64>,
    /// String value (for const-string).
    pub string_idx: Option<u32>,
    /// Method index (for invoke instructions).
    pub method_idx: Option<u32>,
    /// Argument registers (for invoke instructions).
    pub args: Vec<u8>,
    /// Line of disassembly.
    pub raw: String,
}

/// The mathematical value of a [`RustInstruction`].
pub ghost struct RustInstructionView {
    pub opcode: Seq<char>,
    pub dest: Option<u8>,
    pub value: Option<i64>,
    pub string_idx: Option<u32>,
    pub method_idx: Option<u32>,
    pub args: Seq<u8>,
    pub raw: Seq<char>,
}

impl View for RustInstruction {
    type V = RustInstructionView;

    open spec fn view(&self) -> RustInstructionView {
        RustInstructionView {
            opcode: self.opcode@,
            dest: self.dest,
            value: self.value,
            string_idx: self.string_idx,
            method_idx: self.method_idx,
            args: self.args@,
            raw: self.raw@,
        }
    }
}

/// The views of a sequence of records.
pub open spec fn record_views(records: Seq<RustInstruction>) -> Seq<RustInstructionView> {
    records.map_values(|r: RustInstruction| r@)
}

/// The registers of a range invoke, each cut to its low eight bits.
pub open spec fn range_registers(first_arg: u16, arg_count: u8) -> Seq<u8> {
    Seq::new(arg_count as nat, |k: int| ((first_arg + k) % 256) as u8)
}

/// The opcode name of a record: the mnemonic, with the opcode byte added
/// for an unknown instruction.
pub open spec fn record_opcode(insn: InstructionView) -> Seq<char> {
    match insn {
        InstructionView::Unknown { opcode, .. } => "unknown(0x"@ + hex_padded(opcode as nat, 2)
            + ")"@,
        _ => insn.mnemonic(),
    }
}

/// The record of an instruction.
pub open spec fn record_of(insn: InstructionView) -> RustInstructionView {
    RustInstructionView {
        opcode: record_opcode(insn),
        dest: match insn {
            InstructionView::Const4 { dest, .. } => Some(dest),
            InstructionView::Const16 { dest, .. } => Some(dest),
            InstructionView::Const { dest, .. } => Some(dest),
            InstructionView::ConstString { dest, .. } => Some(dest),
            _ => None,
        },
        value: const_value(insn),
        string_idx: match insn {
            InstructionView::ConstString { string_idx, .. } => Some(string_idx),
            _ => None,
        },
        method_idx: called_method(insn),
        args: match insn {
            InstructionView::InvokeVirtual { args, .. } => args,
            InstructionView::InvokeSuper { args, .. } => args,
            InstructionView::InvokeDirect { args, .. } => args,
            InstructionView::InvokeStatic { args, .. } => args,
            InstructionView::InvokeInterface { args, .. } => args,
            InstructionView::InvokeVirtualRange { first_arg, arg_count, .. } => range_registers(
                first_arg,
                arg_count,
            ),
            InstructionView::InvokeStaticRange { first_arg, arg_count, .. } => range_registers(
                first_arg,
                arg_count,
            ),
            _ => Seq::empty(),
        },
        raw: insn.text(),
    }
}

/// The constant that a constant load writes.
pub open spec fn const_value(insn: InstructionView) -> Option<i64> {
    match insn {
        InstructionView::Const4 { value, .. } => Some(value as i64),
        InstructionView::Const16 { value, .. } => Some(value as i64),
        InstructionView::Const { value, .. } => Some(value as i64),
        _ => None,
    }
}

/// The method index of an invoke, range or not.
pub open spec fn called_method(insn: InstructionView) -> Option<u32> {
    match insn {
        InstructionView::InvokeVirtual { method_idx, .. } => Some(method_idx),
        InstructionView::InvokeSuper { method_idx, .. } => Some(method_idx),
        InstructionView::InvokeDirect { method_idx, .. } => Some(method_idx),
        InstructionView::InvokeStatic { method_idx, .. } => Some(method_idx),
        InstructionView::InvokeInterface { method_idx, .. } => Some(method_idx),
        InstructionView::InvokeVirtualRange { method_idx, .. } => Some(method_idx),
        InstructionView::InvokeStaticRange { method_idx, .. } => Some(method_idx),
        _ => None,
    }
}

/// The values of the options among the first `n` that are present.
pub open spec fn present<T>(options: Seq<Option<T>>, n: nat) -> Seq<T>
    decreases n,
{
    if n == 0 || n > options.len() {
        Seq::empty()
    } else {
        let before = present(options, (n - 1) as nat);
        match options[n - 1] {
            Some(v) => before.push(v),
            None => before,
        }
    }
}

/// The constants that the instructions of `code` load, in order.
pub open spec fn constants_spec(code: Seq<u16>) -> Seq<i64> {
    present(
        decode_spec(code).map_values(|i: InstructionView| const_value(i)),
        decode_spec(code).len(),
    )
}

/// The method indices that the instructions of `code` invoke, in order.
pub open spec fn method_calls_spec(code: Seq<u16>) -> Seq<u32> {
    present(
        decode_spec(code).map_values(|i: InstructionView| called_method(i)),
        decode_spec(code).len(),
    )
}

/// Every range invoke of the sequence has a last register that can be
/// named.
pub open spec fn all_nameable(insns: Seq<InstructionView>) -> bool {
    forall|i: int| 0 <= i < insns.len() ==> (#[trigger] insns[i]).range_is_nameable()
}

fn range_registers_of(first_arg: u16, arg_count: u8) -> (args: Vec<u8>)
    ensures
        args@ == range_registers(first_arg, arg_count),
{
    let mut args: Vec<u8> = Vec::new();
    let mut k: u8 = 0;
    while k < arg_count
        invariant
            k <= arg_count,
            args@.len() == k,
            forall|j: int| 0 <= j < k ==> args@[j] == ((first_arg + j) % 256) as u8,
        decreases arg_count - k,
    {
        args.push(((first_arg as u32 + k as u32) % 256) as u8);
        k += 1;
    }
    assert(args@ =~= range_registers(first_arg, arg_count));
    args
}

fn copy_registers(args: &Vec<u8>) -> (out: Vec<u8>)
    ensures
        out@ == args@,
{
    let mut out: Vec<u8> = Vec::new();
    out.extend_from_slice(args.as_slice());
    assert(out@ =~= args@);
    out
}

fn const_value_of(insn: &Instruction) -> (value: Option<i64>)
    ensures
        value == const_value(insn@),
{
    match insn {
        Instruction::Const4 { value, .. } => Some(*value as i64),
        Instruction::Const16 { value, .. } => Some(*value as i64),
        Instruction::Const { value, .. } => Some(*value as i64),
        _ => None,
    }
}

fn called_method_of(insn: &Instruction) -> (method: Option<u32>)
    ensures
        method == called_method(insn@),
{
    match insn {
        Instruction::InvokeVirtual { method_idx, .. } => Some(*method_idx),
        Instruction::InvokeSuper { method_idx, .. } => Some(*method_idx),
        Instruction::InvokeDirect { method_idx, .. } => Some(*method_idx),
        Instruction::InvokeStatic { method_idx, .. } => Some(*method_idx),
        Instruction::InvokeInterface { method_idx, .. } => Some(*method_idx),
        Instruction::InvokeVirtualRange { method_idx, .. } => Some(*method_idx),
        Instruction::InvokeStaticRange { method_idx, .. } => Some(*method_idx),
        _ => None,
    }
}

impl RustInstruction {
    /// The record of an instruction.
    pub fn from(insn: &Instruction) -> (record: RustInstruction)
        requires
            insn@.range_is_nameable(),
        ensures
            record@ == record_of(insn@),
    {
        let opcode = match insn {
            Instruction::Unknown { opcode, .. } => {
                let mut name = owned("unknown(0x");
                push_hex_padded(&mut name, *opcode as u32, 2);
                name.append(")");
                name
            },
            _ => owned(insn.mnemonic()),
        };
        let dest = match insn {
            Instruction::Const4 { dest, .. } => Some(*dest),
            Instruction::Const16 { dest, .. } => Some(*dest),
            Instruction::Const { dest, .. } => Some(*dest),
            Instruction::ConstString { dest, .. } => Some(*dest),
            _ => None,
        };
        let string_idx = match insn {
            Instruction::ConstString { string_idx, .. } => Some(*string_idx),
            _ => None,
        };
        let args = match insn {
            Instruction::InvokeVirtual { args, .. } => copy_registers(args),
            Instruction::InvokeSuper { args, .. } => copy_registers(args),
            Instruction::InvokeDirect { args, .. } => copy_registers(args),
            Instruction::InvokeStatic { args, .. } => copy_registers(args),
            Instruction::InvokeInterface { args, .. } => copy_registers(args),
            Instruction::InvokeVirtualRange { first_arg, arg_count, .. } => range_registers_of(
                *first_arg,
                *arg_count,
            ),
            Instruction::InvokeStaticRange { first_arg, arg_count, .. } => range_registers_of(
                *first_arg,
                *arg_count,
            ),
            _ => Vec::new(),
        };
        RustInstruction {
            opcode,
            dest,
            value: const_value_of(insn),
            string_idx,
            method_idx: called_method_of(insn),
            args,
            raw: insn.to_text(),
        }
    }

    /// Check if this is a const instruction.
    pub fn is_const(&self) -> (yes: bool)
        ensures
            yes == seq_starts_with(self@.opcode, "const"@),
    {
        str_starts_with(self.opcode.as_str(), "const")
    }

    /// Check if this is an invoke instruction.
    pub fn is_invoke(&self) -> (yes: bool)
        ensures
            yes == seq_starts_with(self@.opcode, "invoke"@),
    {
        str_starts_with(self.opcode.as_str(), "invoke")
    }

    /// Get boolean value (for const/4 with 0 or 1): whether the value of a
    /// `const/4` is other than zero.
    pub fn get_boolean_value(&self) -> (b: Option<bool>)
        ensures
            b == (if self@.opcode == "const/4"@ {
                match self@.value {
                    Some(v) => Some(v != 0),
                    None => None,
                }
            } else {
                None
            }),
    {
        if str_eq(self.opcode.as_str(), "const/4") {
            match self.value {
                Some(v) => Some(v != 0),
                None => None,
            }
        } else {
            None
        }
    }
}

/// Decode bytecode into instructions.
pub fn decode_bytecode(bytecode: Vec<u16>) -> (records: Vec<RustInstruction>)
    requires
        all_nameable(decode_spec(bytecode@)),
    ensures
        record_views(records@) == decode_spec(bytecode@).map_values(
            |i: InstructionView| record_of(i),
        ),
{
    let instructions = InstructionDecoder::decode(bytecode.as_slice());
    let ghost insns = instruction_views(instructions@);
    let mut records: Vec<RustInstruction> = Vec::new();
    let mut k: usize = 0;
    while k < instructions.len()
        invariant
            k <= instructions@.len(),
            insns == instruction_views(instructions@),
            insns == decode_spec(bytecode@),
            all_nameable(insns),
            records@.len() == k,
            forall|j: int| 0 <= j < k ==> (#[trigger] records@[j])@ == record_of(insns[j]),
        decreases instructions@.len() - k,
    {
        assert(insns[k as int] == instructions@[k as int]@);
        assert(insns[k as int].range_is_nameable());
        records.push(RustInstruction::from(&instructions[k]));
        k += 1;
    }
    assert(record_views(records@) =~= insns.map_values(|i: InstructionView| record_of(i)));
    records
}

/// Extract constant values from bytecode.
pub fn extract_constants(bytecode: Vec<u16>) -> (constants: Vec<i64>)
    ensures
        constants@ == constants_spec(bytecode@),
{
    let instructions = InstructionDecoder::decode(bytecode.as_slice());
    let ghost options = instruction_views(instructions@).map_values(
        |i: InstructionView| const_value(i),
    );
    let mut constants: Vec<i64> = Vec::new();
    let mut k: usize = 0;
    assert(constants@ =~= present(options, 0));
    while k < instructions.len()
        invariant
            k <= instructions@.len(),
            options == instruction_views(instructions@).map_values(
                |i: InstructionView| const_value(i),
            ),
            constants@ == present(options, k as nat),
        decreases instructions@.len() - k,
    {
        assert(options[k as int] == const_value(instructions@[k as int]@));
        match const_value_of(&instructions[k]) {
            Some(value) => constants.push(value),
            None => {},
        }
        k += 1;
    }
    constants
}

/// Extract method calls from bytecode.
pub fn extract_method_calls(bytecode: Vec<u16>) -> (method_calls: Vec<u32>)
    ensures
        method_calls@ == method_calls_spec(bytecode@),
{
    let instructions = InstructionDecoder::decode(bytecode.as_slice());
    let ghost options = instruction_views(instructions@).map_values(
        |i: InstructionView| called_method(i),
    );
    let mut method_calls: Vec<u32> = Vec::new();
    let mut k: usize = 0;
    assert(method_calls@ =~= present(options, 0));
    while k < instructions.len()
        invariant
            k <= instructions@.len(),
            options == instruction_views(instructions@).map_values(
                |i: InstructionView| called_method(i),
            ),
            method_calls@ == present(options, k as nat),
        decreases instructions@.len() - k,
    {
        assert(options[k as int] == called_method(instructions@[k as int]@));
        match called_method_of(&instructions[k]) {
            Some(method_idx) => method_calls.push(method_idx),
            None => {},
        }
        k += 1;
    }
    method_calls
}

/// Decode bytecode into instructions, if the last register of every range
/// invoke can be named; nothing otherwise.
pub fn decode_bytecode_checked(bytecode: Vec<u16>) -> (records: Option<Vec<RustInstruction>>)
    ensures
        match records {
            Some(found) => all_nameable(decode_spec(bytecode@)) && record_views(found@)
                == decode_spec(bytecode@).map_values(|i: InstructionView| record_of(i)),
            None => !all_nameable(decode_spec(bytecode@)),
        },
{
    let instructions = InstructionDecoder::decode(bytecode.as_slice());
    let ghost insns = instruction_views(instructions@);
    let mut k: usize = 0;
    while k < instructions.len()
        invariant
            k <= instructions@.len(),
            insns == instruction_views(instructions@),
            insns == decode_spec(bytecode@),
            forall|j: int| 0 <= j < k ==> (#[trigger] insns[j]).range_is_nameable(),
        decreases instructions@.len() - k,
    {
        assert(insns[k as int] == instructions@[k as int]@);
        if !instructions[k].range_is_nameable() {
            assert(!insns[k as int].range_is_nameable());
            return None;
        }
        k += 1;
    }
    Some(decode_bytecode(bytecode))
}

} // verus!
