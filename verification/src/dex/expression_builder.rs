//! Expression reconstruction.
//!
//! A linear pass over the decoded instructions of one method keeps an
//! abstract value for each register that a constant load has written, and
//! turns the method invocations that touch WebView or WebSettings into
//! Java-like expression text. Control flow is not followed: a register that
//! was never written reads as unknown.

use vstd::prelude::*;
use std::collections::HashMap;
use crate::apk::extractor::{dex_entry_views, DexEntry, DexEntryView};
use crate::dex::code_extractor::{find_in_classes, find_method_bytecode};
use crate::dex::instruction::{
    decode_spec, instruction_views, Instruction, InstructionDecoder, InstructionView,
};
use crate::dex::method_resolver::{
    resolve_spec, MethodResolver, MethodSignature, MethodSignatureView,
};
use crate::dex::parser::{
    get_string_spec, header_error, header_of, lemma_header_unique, DexHeader, DexParser,
};
use crate::text::{
    decimal, i64_to_string, join, join_spec, owned, push_decimal, seq_contains, signed_decimal,
    str_contains, views,
};

verus! {

broadcast use vstd::std_specs::hash::group_hash_axioms;

/// Represents a value in a register.
#[derive(Debug)]
pub enum RegisterValue {
    /// Unknown value.
    Unknown,
    /// Constant integer.
    ConstInt(i64),
    /// Constant string.
    ConstString(String),
    /// Method call result.
    MethodCall { receiver: Box<RegisterValue>, signature: MethodSignature, args: Vec<RegisterValue> },
    /// Field access.
    FieldAccess { receiver: Box<RegisterValue>, field_name: String, field_type: String },
    /// This reference.
    This,
    /// Parameter reference.
    Parameter(usize),
}

/// The mathematical value of a [`RegisterValue`].
pub ghost enum RegisterValueView {
    Unknown,
    ConstInt(i64),
    ConstString(Seq<char>),
    MethodCall {
        receiver: Box<RegisterValueView>,
        signature: MethodSignatureView,
        args: Seq<RegisterValueView>,
    },
    FieldAccess { receiver: Box<RegisterValueView>, field_name: Seq<char>, field_type: Seq<char> },
    This,
    Parameter(usize),
}

/// The views of the first `n` of `values`.
pub open spec fn values_view(values: Seq<RegisterValue>, n: nat) -> Seq<RegisterValueView>
    decreases values, n,
{
    if n == 0 || n > values.len() {
        Seq::empty()
    } else {
        values_view(values, (n - 1) as nat).push(value_view(values[n - 1]))
    }
}

/// The view of a register value: the same variant, each part by its view.
pub open spec fn value_view(value: RegisterValue) -> RegisterValueView
    decreases value, 0nat,
{
    match value {
        RegisterValue::Unknown => RegisterValueView::Unknown,
        RegisterValue::ConstInt(v) => RegisterValueView::ConstInt(v),
        RegisterValue::ConstString(s) => RegisterValueView::ConstString(s@),
        RegisterValue::MethodCall { receiver, signature, args } => RegisterValueView::MethodCall {
            receiver: Box::new(value_view(*receiver)),
            signature: signature@,
            args: values_view(args@, args@.len()),
        },
        RegisterValue::FieldAccess { receiver, field_name, field_type } => RegisterValueView::FieldAccess {
            receiver: Box::new(value_view(*receiver)),
            field_name: field_name@,
            field_type: field_type@,
        },
        RegisterValue::This => RegisterValueView::This,
        RegisterValue::Parameter(idx) => RegisterValueView::Parameter(idx),
    }
}

impl View for RegisterValue {
    type V = RegisterValueView;

    open spec fn view(&self) -> RegisterValueView {
        value_view(*self)
    }
}

/// The texts of the first `n` of `values`.
pub open spec fn format_each(values: Seq<RegisterValueView>, n: nat) -> Seq<Seq<char>>
    decreases values, n,
{
    if n == 0 || n > values.len() {
        Seq::empty()
    } else {
        format_each(values, (n - 1) as nat).push(values[n - 1].format())
    }
}

/// A call written as `receiver.method(arg1, arg2, ...)`.
pub open spec fn call_text(receiver: Seq<char>, method_name: Seq<char>, args: Seq<Seq<char>>) -> Seq<
    char,
> {
    receiver + "."@ + method_name + "("@ + join_spec(args, ", "@) + ")"@
}

impl RegisterValueView {
    /// The value as Java-like text: `?` for an unknown value, `false` and
    /// `true` for the integers 0 and 1, the decimal literal for any other
    /// integer, a string in double quotes, a call as
    /// `receiver.method(args)`, a field as `receiver.field`.
    pub open spec fn format(self) -> Seq<char>
        decreases self,
    {
        match self {
            RegisterValueView::Unknown => "?"@,
            RegisterValueView::ConstInt(v) => if v == 0 {
                "false"@
            } else if v == 1 {
                "true"@
            } else {
                signed_decimal(v as int)
            },
            RegisterValueView::ConstString(s) => "\""@ + s + "\""@,
            RegisterValueView::MethodCall { receiver, signature, args } => call_text(
                receiver.format(),
                signature.method_name,
                format_each(args, args.len()),
            ),
            RegisterValueView::FieldAccess { receiver, field_name, .. } => receiver.format() + "."@
                + field_name,
            RegisterValueView::This => "this"@,
            RegisterValueView::Parameter(idx) => "param"@ + decimal(idx as nat),
        }
    }

    /// The boolean that an integer constant 0 or 1 stands for.
    pub open spec fn is_boolean(self) -> Option<bool> {
        match self {
            RegisterValueView::ConstInt(v) => if v == 0 {
                Some(false)
            } else if v == 1 {
                Some(true)
            } else {
                None
            },
            _ => None,
        }
    }
}

impl RegisterValue {
    /// A copy of this value.
    pub fn duplicate(&self) -> (copy: RegisterValue)
        ensures
            copy@ == self@,
        decreases self,
    {
        match self {
            RegisterValue::Unknown => RegisterValue::Unknown,
            RegisterValue::ConstInt(v) => RegisterValue::ConstInt(*v),
            RegisterValue::ConstString(s) => RegisterValue::ConstString(s.clone()),
            RegisterValue::MethodCall { receiver, signature, args } => {
                let mut copies: Vec<RegisterValue> = Vec::new();
                let mut k: usize = 0;
                while k < args.len()
                    invariant
                        k <= args@.len(),
                        forall|j: int|
                            0 <= j < args@.len() ==> decreases_to!(self => #[trigger] args@[j]),
                        copies@.len() == k,
                        forall|j: int| 0 <= j < k ==> (#[trigger] copies@[j])@ == args@[j]@,
                    decreases args@.len() - k,
                {
                    copies.push(args[k].duplicate());
                    k += 1;
                }
                proof {
                    lemma_values_view(args@, args@.len());
                    lemma_values_view(copies@, copies@.len());
                    assert(values_view(copies@, copies@.len()) =~= values_view(args@, args@.len()));
                }
                RegisterValue::MethodCall {
                    receiver: Box::new(receiver.duplicate()),
                    signature: signature.duplicate(),
                    args: copies,
                }
            },
            RegisterValue::FieldAccess {
                receiver,
                field_name,
                field_type,
            } => RegisterValue::FieldAccess {
                receiver: Box::new(receiver.duplicate()),
                field_name: field_name.clone(),
                field_type: field_type.clone(),
            },
            RegisterValue::This => RegisterValue::This,
            RegisterValue::Parameter(idx) => RegisterValue::Parameter(*idx),
        }
    }

    /// Format as Java-like expression.
    pub fn format(&self) -> (out: String)
        ensures
            out@ == self@.format(),
        decreases self,
    {
        match self {
            RegisterValue::Unknown => owned("?"),
            RegisterValue::ConstInt(val) => {
                if *val == 0 {
                    owned("false")
                } else if *val == 1 {
                    owned("true")
                } else {
                    i64_to_string(*val)
                }
            },
            RegisterValue::ConstString(s) => {
                let mut out = owned("\"");
                out.append(s.as_str());
                out.append("\"");
                out
            },
            RegisterValue::MethodCall { receiver, signature, args } => {
                let mut out = receiver.format();
                let mut texts: Vec<String> = Vec::new();
                let mut k: usize = 0;
                assert(views(texts@) =~= format_each(values_view(args@, args@.len()), 0));
                while k < args.len()
                    invariant
                        k <= args@.len(),
                        forall|j: int|
                            0 <= j < args@.len() ==> decreases_to!(self => #[trigger] args@[j]),
                        views(texts@) == format_each(values_view(args@, args@.len()), k as nat),
                    decreases args@.len() - k,
                {
                    let ghost before = views(texts@);
                    let text = args[k].format();
                    texts.push(text);
                    proof {
                        lemma_values_view(args@, args@.len());
                        assert(views(texts@) =~= before.push(text@));
                    }
                    k += 1;
                }
                proof {
                    lemma_values_view(args@, args@.len());
                }
                out.append(".");
                out.append(signature.method_name.as_str());
                out.append("(");
                out.append(join(&texts, ", ").as_str());
                out.append(")");
                out
            },
            RegisterValue::FieldAccess { receiver, field_name, .. } => {
                let mut out = receiver.format();
                out.append(".");
                out.append(field_name.as_str());
                out
            },
            RegisterValue::This => owned("this"),
            RegisterValue::Parameter(idx) => {
                let mut out = owned("param");
                push_decimal(&mut out, *idx as u64);
                out
            },
        }
    }

    /// Check if this is a boolean constant.
    pub fn is_boolean(&self) -> (b: Option<bool>)
        ensures
            b == self@.is_boolean(),
    {
        match self {
            RegisterValue::ConstInt(v) => if *v == 0 {
                Some(false)
            } else if *v == 1 {
                Some(true)
            } else {
                None
            },
            _ => None,
        }
    }
}

/// The views of the first `n` values are `n` values, the view of each value
/// at its place.
pub proof fn lemma_values_view(values: Seq<RegisterValue>, n: nat)
    requires
        n <= values.len(),
    ensures
        values_view(values, n).len() == n,
        forall|j: int| 0 <= j < n ==> #[trigger] values_view(values, n)[j] == values[j]@,
    decreases n,
{
    if n > 0 {
        lemma_values_view(values, (n - 1) as nat);
    }
}

/// Reconstructed expression: the text of a significant invocation, the
/// return type of the method called, and its full signature.
#[derive(Debug, Clone)]
pub struct ReconstructedExpression {
    pub expression: String,
    pub value_type: String,
    pub is_method_call: bool,
    pub method_signature: Option<String>,
}

/// The mathematical value of a [`ReconstructedExpression`].
pub ghost struct ReconstructedExpressionView {
    pub expression: Seq<char>,
    pub value_type: Seq<char>,
    pub is_method_call: bool,
    pub method_signature: Option<Seq<char>>,
}

impl View for ReconstructedExpression {
    type V = ReconstructedExpressionView;

    open spec fn view(&self) -> ReconstructedExpressionView {
        ReconstructedExpressionView {
            expression: self.expression@,
            value_type: self.value_type@,
            is_method_call: self.is_method_call,
            method_signature: match self.method_signature {
                Some(s) => Some(s@),
                None => None,
            },
        }
    }
}

impl ReconstructedExpression {
    /// A copy of this expression.
    pub fn duplicate(&self) -> (copy: ReconstructedExpression)
        ensures
            copy@ == self@,
    {
        ReconstructedExpression {
            expression: self.expression.clone(),
            value_type: self.value_type.clone(),
            is_method_call: self.is_method_call,
            method_signature: match &self.method_signature {
                Some(s) => Some(s.clone()),
                None => None,
            },
        }
    }
}

/// The views of a sequence of expressions.
pub open spec fn expression_views(exprs: Seq<ReconstructedExpression>) -> Seq<
    ReconstructedExpressionView,
> {
    exprs.map_values(|e: ReconstructedExpression| e@)
}

/// The register file as a map from register number to abstract value.
pub type RegisterFile = Map<u8, RegisterValueView>;

/// The views of the values that a register map holds.
pub open spec fn register_views(registers: Map<u8, RegisterValue>) -> RegisterFile {
    Map::new(|r: u8| registers.dom().contains(r), |r: u8| registers[r]@)
}

/// What a register reads as: its value, or unknown if it was never written.
pub open spec fn read_register(registers: RegisterFile, register: u8) -> RegisterValueView {
    if registers.dom().contains(register) {
        registers[register]
    } else {
        RegisterValueView::Unknown
    }
}

/// The values that the registers `regs` read as.
pub open spec fn read_registers(registers: RegisterFile, regs: Seq<u8>) -> Seq<RegisterValueView> {
    regs.map_values(|r: u8| read_register(registers, r))
}

/// An invocation is significant if the method is named
/// `setJavaScriptEnabled`, its class name holds `WebView` or `WebSettings`,
/// or the expression text holds one of these two words.
pub open spec fn is_significant(signature: MethodSignatureView, expression: Seq<char>) -> bool {
    signature.is_set_javascript_enabled() || signature.is_webview_method() || seq_contains(
        expression,
        "WebSettings"@,
    ) || seq_contains(expression, "WebView"@)
}

/// The expression that a non-range invoke gives rise to, if any: none when
/// the method does not resolve, when the invoke has no register, or when the
/// call is not significant. The first register is the receiver, the others
/// are the operands.
#[verifier::opaque]
pub open spec fn call_expression(
    data: Seq<u8>,
    header: DexHeader,
    registers: RegisterFile,
    args: Seq<u8>,
    method_idx: u32,
) -> Option<ReconstructedExpressionView> {
    match resolve_spec(data, header, method_idx) {
        Err(_) => None,
        Ok(signature) => if args.len() == 0 {
            None
        } else {
            let call = RegisterValueView::MethodCall {
                receiver: Box::new(read_register(registers, args[0])),
                signature,
                args: read_registers(registers, args.drop_first()),
            };
            if is_significant(signature, call.format()) {
                Some(
                    ReconstructedExpressionView {
                        expression: call.format(),
                        value_type: signature.return_type,
                        is_method_call: true,
                        method_signature: Some(signature.full_signature),
                    },
                )
            } else {
                None
            }
        },
    }
}

/// The register file after one instruction: a constant load writes its
/// value, a string load writes the string or, if it does not resolve,
/// unknown; every other instruction leaves the registers as they are.
pub open spec fn step_registers(
    data: Seq<u8>,
    header: DexHeader,
    registers: RegisterFile,
    insn: InstructionView,
) -> RegisterFile {
    match insn {
        InstructionView::Const4 { dest, value } => registers.insert(
            dest,
            RegisterValueView::ConstInt(value as i64),
        ),
        InstructionView::Const16 { dest, value } => registers.insert(
            dest,
            RegisterValueView::ConstInt(value as i64),
        ),
        InstructionView::Const { dest, value } => registers.insert(
            dest,
            RegisterValueView::ConstInt(value as i64),
        ),
        InstructionView::ConstString { dest, string_idx } => match get_string_spec(
            data,
            header,
            string_idx,
        ) {
            Ok(s) => registers.insert(dest, RegisterValueView::ConstString(s)),
            Err(_) => registers.insert(dest, RegisterValueView::Unknown),
        },
        _ => registers,
    }
}

/// The expression that one instruction emits, if any: only a non-range
/// invoke emits one.
pub open spec fn step_expression(
    data: Seq<u8>,
    header: DexHeader,
    registers: RegisterFile,
    insn: InstructionView,
) -> Option<ReconstructedExpressionView> {
    match insn {
        InstructionView::InvokeVirtual { args, method_idx } => call_expression(
            data,
            header,
            registers,
            args,
            method_idx,
        ),
        InstructionView::InvokeSuper { args, method_idx } => call_expression(
            data,
            header,
            registers,
            args,
            method_idx,
        ),
        InstructionView::InvokeDirect { args, method_idx } => call_expression(
            data,
            header,
            registers,
            args,
            method_idx,
        ),
        InstructionView::InvokeStatic { args, method_idx } => call_expression(
            data,
            header,
            registers,
            args,
            method_idx,
        ),
        InstructionView::InvokeInterface { args, method_idx } => call_expression(
            data,
            header,
            registers,
            args,
            method_idx,
        ),
        _ => None,
    }
}

/// The register file after the instructions `insns`, run in order from the
/// register file `registers`.
pub open spec fn run_registers(
    data: Seq<u8>,
    header: DexHeader,
    registers: RegisterFile,
    insns: Seq<InstructionView>,
) -> RegisterFile
    decreases insns.len(),
{
    if insns.len() == 0 {
        registers
    } else {
        step_registers(
            data,
            header,
            run_registers(data, header, registers, insns.drop_last()),
            insns.last(),
        )
    }
}

/// The expressions that the instructions `insns` emit, in instruction
/// order, when run from the register file `registers`.
pub open spec fn run_expressions(
    data: Seq<u8>,
    header: DexHeader,
    registers: RegisterFile,
    insns: Seq<InstructionView>,
) -> Seq<ReconstructedExpressionView>
    decreases insns.len(),
{
    if insns.len() == 0 {
        Seq::empty()
    } else {
        let before = run_expressions(data, header, registers, insns.drop_last());
        match step_expression(
            data,
            header,
            run_registers(data, header, registers, insns.drop_last()),
            insns.last(),
        ) {
            Some(e) => before.push(e),
            None => before,
        }
    }
}

/// Expression reconstructor.
pub struct ExpressionBuilder {
    pub resolver: MethodResolver,
    /// Track register values.
    pub registers: HashMap<u8, RegisterValue>,
    /// Current instruction index.
    pub pc: usize,
}

impl ExpressionBuilder {
    /// A builder on `parser` with no register written.
    pub fn new(parser: DexParser) -> (builder: ExpressionBuilder)
        ensures
            builder.resolver.parser == parser,
            builder.registers@ == Map::<u8, RegisterValue>::empty(),
            builder.pc == 0,
    {
        ExpressionBuilder { resolver: MethodResolver::new(parser), registers: HashMap::new(), pc: 0 }
    }

    /// The bytes of the image that the builder reads.
    pub open spec fn image(&self) -> Seq<u8> {
        self.resolver.parser.data@
    }

    /// The header of the image that the builder reads.
    pub open spec fn image_header(&self) -> DexHeader {
        self.resolver.parser.header
    }

    /// The register file as a map of abstract values.
    pub open spec fn register_file(&self) -> RegisterFile {
        register_views(self.registers@)
    }

    /// Process bytecode and reconstruct expressions.
    ///
    /// Decodes `bytecode` and runs its instructions in order from the
    /// registers as they stand. Never fails; the result holds the
    /// expressions emitted, in instruction order.
    pub fn process_bytecode(&mut self, bytecode: &[u16]) -> (r: Result<
        Vec<ReconstructedExpression>,
        String,
    >)
        ensures
            final(self).resolver == old(self).resolver,
            final(self).register_file() == run_registers(
                old(self).image(),
                old(self).image_header(),
                old(self).register_file(),
                decode_spec(bytecode@),
            ),
            final(self).pc == decode_spec(bytecode@).len(),
            r matches Ok(exprs) && expression_views(exprs@) == run_expressions(
                old(self).image(),
                old(self).image_header(),
                old(self).register_file(),
                decode_spec(bytecode@),
            ),
    {
        let instructions = InstructionDecoder::decode(bytecode);
        let mut expressions: Vec<ReconstructedExpression> = Vec::new();
        let ghost insns = instruction_views(instructions@);
        let ghost start = self.register_file();
        self.pc = 0;
        let mut k: usize = 0;
        assert(insns.take(0) =~= Seq::<InstructionView>::empty());
        assert(expression_views(expressions@) =~= Seq::<ReconstructedExpressionView>::empty());
        while k < instructions.len()
            invariant
                k <= instructions@.len(),
                insns == instruction_views(instructions@),
                self.resolver == old(self).resolver,
                self.pc == k,
                self.register_file() == run_registers(
                    old(self).image(),
                    old(self).image_header(),
                    start,
                    insns.take(k as int),
                ),
                expression_views(expressions@) == run_expressions(
                    old(self).image(),
                    old(self).image_header(),
                    start,
                    insns.take(k as int),
                ),
            decreases instructions@.len() - k,
        {
            let ghost before = expression_views(expressions@);
            proof {
                assert(insns.take(k + 1).drop_last() =~= insns.take(k as int));
                assert(insns.take(k + 1).last() == instructions@[k as int]@);
            }
            match self.process_instruction(&instructions[k]) {
                Ok(Some(expr)) => {
                    expressions.push(expr);
                    assert(expression_views(expressions@) =~= before.push(expr@));
                },
                _ => {},
            }
            self.pc = self.pc + 1;
            k += 1;
        }
        assert(insns.take(insns.len() as int) =~= insns);
        Ok(expressions)
    }

    /// Process a single instruction.
    pub fn process_instruction(&mut self, insn: &Instruction) -> (r: Result<
        Option<ReconstructedExpression>,
        String,
    >)
        ensures
            final(self).resolver == old(self).resolver,
            final(self).pc == old(self).pc,
            final(self).register_file() == step_registers(
                old(self).image(),
                old(self).image_header(),
                old(self).register_file(),
                insn@,
            ),
            r is Ok,
            match r->Ok_0 {
                Some(expr) => step_expression(
                    old(self).image(),
                    old(self).image_header(),
                    old(self).register_file(),
                    insn@,
                ) == Some(expr@),
                None => step_expression(
                    old(self).image(),
                    old(self).image_header(),
                    old(self).register_file(),
                    insn@,
                ) is None,
            },
    {
        match insn {
            Instruction::Const4 { dest, value } => {
                self.write_register(*dest, RegisterValue::ConstInt(*value as i64));
                Ok(None)
            },
            Instruction::Const16 { dest, value } => {
                self.write_register(*dest, RegisterValue::ConstInt(*value as i64));
                Ok(None)
            },
            Instruction::Const { dest, value } => {
                self.write_register(*dest, RegisterValue::ConstInt(*value as i64));
                Ok(None)
            },
            Instruction::ConstString { dest, string_idx } => {
                match self.resolver.resolve_string(*string_idx) {
                    Ok(string_value) => {
                        self.write_register(*dest, RegisterValue::ConstString(string_value));
                    },
                    Err(_) => {
                        self.write_register(*dest, RegisterValue::Unknown);
                    },
                }
                Ok(None)
            },
            Instruction::InvokeVirtual { args, method_idx } => self.process_method_call(
                args.as_slice(),
                *method_idx,
            ),
            Instruction::InvokeSuper { args, method_idx } => self.process_method_call(
                args.as_slice(),
                *method_idx,
            ),
            Instruction::InvokeDirect { args, method_idx } => self.process_method_call(
                args.as_slice(),
                *method_idx,
            ),
            Instruction::InvokeStatic { args, method_idx } => self.process_method_call(
                args.as_slice(),
                *method_idx,
            ),
            Instruction::InvokeInterface { args, method_idx } => self.process_method_call(
                args.as_slice(),
                *method_idx,
            ),
            _ => Ok(None),
        }
    }

    /// Writes `value` to `register`.
    fn write_register(&mut self, register: u8, value: RegisterValue)
        ensures
            final(self).resolver == old(self).resolver,
            final(self).pc == old(self).pc,
            final(self).register_file() == old(self).register_file().insert(register, value@),
    {
        self.registers.insert(register, value);
        assert(self.register_file() =~= old(self).register_file().insert(register, value@));
    }

    /// Text of the value that `register` reads as.
    fn register_text(&self, register: u8) -> (text: String)
        ensures
            text@ == read_register(self.register_file(), register).format(),
    {
        match self.registers.get(&register) {
            Some(value) => value.format(),
            None => owned("?"),
        }
    }

    /// Process method call and reconstruct expression.
    pub fn process_method_call(&mut self, args: &[u8], method_idx: u32) -> (r: Result<
        Option<ReconstructedExpression>,
        String,
    >)
        ensures
            *final(self) == *old(self),
            r is Ok,
            match r->Ok_0 {
                Some(expr) => call_expression(
                    old(self).image(),
                    old(self).image_header(),
                    old(self).register_file(),
                    args@,
                    method_idx,
                ) == Some(expr@),
                None => call_expression(
                    old(self).image(),
                    old(self).image_header(),
                    old(self).register_file(),
                    args@,
                    method_idx,
                ) is None,
            },
    {
        proof {
            reveal(call_expression);
        }
        let signature = match self.resolver.resolve(method_idx) {
            Ok(sig) => sig,
            Err(_) => {
                return Ok(None);
            },
        };
        if args.len() == 0 {
            return Ok(None);
        }
        let ghost operands = read_registers(self.register_file(), args@.drop_first());
        let mut expression = self.register_text(args[0]);
        let mut texts: Vec<String> = Vec::new();
        let mut k: usize = 1;
        assert(views(texts@) =~= format_each(operands, 0));
        while k < args.len()
            invariant
                1 <= k <= args@.len(),
                operands == read_registers(self.register_file(), args@.drop_first()),
                views(texts@) == format_each(operands, (k - 1) as nat),
            decreases args@.len() - k,
        {
            let ghost before = views(texts@);
            let text = self.register_text(args[k]);
            texts.push(text);
            proof {
                assert(operands[k - 1] == read_register(self.register_file(), args@[k as int]));
                assert(views(texts@) =~= before.push(text@));
            }
            k += 1;
        }
        expression.append(".");
        expression.append(signature.method_name.as_str());
        expression.append("(");
        expression.append(join(&texts, ", ").as_str());
        expression.append(")");
        let is_significant = signature.is_set_javascript_enabled() || signature.is_webview_method()
            || str_contains(expression.as_str(), "WebSettings") || str_contains(
            expression.as_str(),
            "WebView",
        );
        if is_significant {
            Ok(
                Some(
                    ReconstructedExpression {
                        expression,
                        value_type: signature.return_type.clone(),
                        is_method_call: true,
                        method_signature: Some(signature.full_signature),
                    },
                ),
            )
        } else {
            Ok(None)
        }
    }
}

/// The expressions of the method `class_name.method_name` of the image
/// `data`, if `data` is a DEX image and the search for the method ends
/// without error with a method.
#[verifier::opaque]
pub open spec fn expressions_in_image(data: Seq<u8>, class_name: Seq<char>, method_name: Seq<char>) -> Option<
    Seq<ReconstructedExpressionView>,
> {
    if header_error(data) is Some {
        None
    } else {
        match find_in_classes(data, header_of(data), class_name, method_name, 0) {
            Ok(Some(code)) => Some(
                run_expressions(
                    data,
                    header_of(data),
                    Map::<u8, RegisterValueView>::empty(),
                    decode_spec(code),
                ),
            ),
            _ => None,
        }
    }
}

/// The expressions of the method `class_name.method_name` from the first
/// DEX file from index `from` on that holds it; none if no file does.
pub open spec fn expressions_in_entries(
    entries: Seq<DexEntryView>,
    class_name: Seq<char>,
    method_name: Seq<char>,
    from: nat,
) -> Seq<ReconstructedExpressionView>
    decreases entries.len() - from,
{
    if from >= entries.len() {
        Seq::empty()
    } else {
        match expressions_in_image(entries[from as int].data, class_name, method_name) {
            Some(exprs) => exprs,
            None => expressions_in_entries(entries, class_name, method_name, from + 1),
        }
    }
}

fn expressions_in_entry(entry: &DexEntry, class_name: &str, method_name: &str) -> (found: Option<
    Vec<ReconstructedExpression>,
>)
    ensures
        match found {
            Some(exprs) => expressions_in_image(entry@.data, class_name@, method_name@) == Some(
                expression_views(exprs@),
            ),
            None => expressions_in_image(entry@.data, class_name@, method_name@) is None,
        },
{
    proof {
        reveal(expressions_in_image);
    }
    let parser = match DexParser::new(entry.data.clone()) {
        Ok(p) => p,
        Err(_) => {
            return None;
        },
    };
    proof {
        lemma_header_unique(parser.header, header_of(entry.data@), entry.data@);
    }
    match find_method_bytecode(&parser, class_name, method_name) {
        Ok(Some(bytecode)) => {
            let mut builder = ExpressionBuilder::new(parser);
            assert(builder.register_file() =~= Map::<u8, RegisterValueView>::empty());
            match builder.process_bytecode(bytecode.as_slice()) {
                Ok(exprs) => Some(exprs),
                Err(_) => None,
            }
        },
        _ => None,
    }
}

/// Reconstruct expressions from the DEX files of an APK: those of the
/// method in the first DEX file that holds it.
pub fn reconstruct_expressions_from_apk(dex_entries: &[DexEntry], class_name: &str, method_name: &str) -> (exprs:
    Vec<ReconstructedExpression>)
    ensures
        expression_views(exprs@) == expressions_in_entries(
            dex_entry_views(dex_entries@),
            class_name@,
            method_name@,
            0,
        ),
{
    let ghost entries = dex_entry_views(dex_entries@);
    let mut k: usize = 0;
    while k < dex_entries.len()
        invariant
            k <= dex_entries@.len(),
            entries == dex_entry_views(dex_entries@),
            expressions_in_entries(entries, class_name@, method_name@, 0) == expressions_in_entries(
                entries,
                class_name@,
                method_name@,
                k as nat,
            ),
        decreases dex_entries@.len() - k,
    {
        assert(entries[k as int] == dex_entries@[k as int]@);
        match expressions_in_entry(&dex_entries[k], class_name, method_name) {
            Some(exprs) => {
                return exprs;
            },
            None => {},
        }
        k += 1;
    }
    let none: Vec<ReconstructedExpression> = Vec::new();
    assert(expression_views(none@) =~= Seq::<ReconstructedExpressionView>::empty());
    none
}

} // verus!
