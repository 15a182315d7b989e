//! Reader for the DEX container format.
//!
//! A [`DexParser`] owns the bytes of one DEX image together with its decoded
//! header. Every lookup is offset arithmetic on those bytes. Each lookup has
//! a specification function over the bytes that says which value or which
//! error it gives; no lookup reads outside the image.

use vstd::prelude::*;
use vstd::utf8::{decode_utf8, valid_utf8};
use byteorder::{ByteOrder, LittleEndian};
use crate::dex::constants::dex_magic::magic_bytes;
use crate::dex::constants::type_descriptors::{is_primitive_letter, primitive_name, descriptor_to_java};
use crate::dex::error::{DexError, DexErrorView};
use crate::text::{
    chars_of, decimal, join, join_spec, leading_count, owned, push_decimal, replace_char,
    replace_char_spec, seq_ends_with, string_of_range, trim_end_char, trim_end_spec, u64_to_string,
    views,
};

verus! {

/// DEX file header structure.
#[derive(Debug, Clone)]
pub struct DexHeader {
    pub magic: [u8; 4],
    pub version: [u8; 4],
    pub checksum: u32,
    pub signature: [u8; 20],
    pub file_size: u32,
    pub header_size: u32,
    pub endian_tag: u32,
    pub link_size: u32,
    pub link_off: u32,
    pub map_off: u32,
    pub string_ids_size: u32,
    pub string_ids_off: u32,
    pub type_ids_size: u32,
    pub type_ids_off: u32,
    pub proto_ids_size: u32,
    pub proto_ids_off: u32,
    pub field_ids_size: u32,
    pub field_ids_off: u32,
    pub method_ids_size: u32,
    pub method_ids_off: u32,
    pub class_defs_size: u32,
    pub class_defs_off: u32,
    pub data_size: u32,
    pub data_off: u32,
}

/// Class definition structure.
#[derive(Debug, Clone, Copy)]
pub struct ClassDef {
    pub class_idx: u32,
    pub access_flags: u32,
    pub superclass_idx: u32,
    pub interfaces_off: u32,
    pub source_file_idx: u32,
    pub annotations_off: u32,
    pub class_data_off: u32,
    pub static_values_off: u32,
}

/// Encoded field: its index in the field pool and its access flags.
#[derive(Debug, Clone, Copy)]
pub struct EncodedField {
    pub field_idx: u32,
    pub access_flags: u32,
}

/// Encoded method: its index in the method pool, its access flags and the
/// offset of its code item (zero where it has no code).
#[derive(Debug, Clone, Copy)]
pub struct EncodedMethod {
    pub method_idx: u32,
    pub access_flags: u32,
    pub code_off: u32,
}

/// Class data (fields and methods).
#[derive(Debug, Clone)]
pub struct ClassData {
    pub static_fields: Vec<EncodedField>,
    pub instance_fields: Vec<EncodedField>,
    pub direct_methods: Vec<EncodedMethod>,
    pub virtual_methods: Vec<EncodedMethod>,
}

/// The mathematical value of a [`ClassData`].
pub ghost struct ClassDataView {
    pub static_fields: Seq<EncodedField>,
    pub instance_fields: Seq<EncodedField>,
    pub direct_methods: Seq<EncodedMethod>,
    pub virtual_methods: Seq<EncodedMethod>,
}

impl View for ClassData {
    type V = ClassDataView;

    open spec fn view(&self) -> ClassDataView {
        ClassDataView {
            static_fields: self.static_fields@,
            instance_fields: self.instance_fields@,
            direct_methods: self.direct_methods@,
            virtual_methods: self.virtual_methods@,
        }
    }
}

impl ClassDataView {
    /// Class data without fields or methods.
    pub open spec fn empty() -> ClassDataView {
        ClassDataView {
            static_fields: Seq::empty(),
            instance_fields: Seq::empty(),
            direct_methods: Seq::empty(),
            virtual_methods: Seq::empty(),
        }
    }

    /// Direct methods, then virtual methods.
    pub open spec fn all_methods(self) -> Seq<EncodedMethod> {
        self.direct_methods + self.virtual_methods
    }

    /// Static fields, then instance fields.
    pub open spec fn all_fields(self) -> Seq<EncodedField> {
        self.static_fields + self.instance_fields
    }
}

impl Default for ClassData {
    fn default() -> (d: ClassData)
        ensures
            d@ == ClassDataView::empty(),
    {
        ClassData {
            static_fields: Vec::new(),
            instance_fields: Vec::new(),
            direct_methods: Vec::new(),
            virtual_methods: Vec::new(),
        }
    }
}

/// Field information.
#[derive(Debug, Clone, Copy)]
pub struct FieldInfo {
    pub class_idx: u32,
    pub type_idx: u32,
    pub name_idx: u32,
}

/// Method information.
#[derive(Debug, Clone, Copy)]
pub struct MethodInfo {
    pub class_idx: u32,
    pub proto_idx: u32,
    pub name_idx: u32,
}

/// Prototype (method signature) information.
#[derive(Debug, Clone)]
pub struct ProtoInfo {
    pub return_type_idx: u32,
    pub parameters: Vec<u32>,
}

/// The mathematical value of a [`ProtoInfo`].
pub ghost struct ProtoInfoView {
    pub return_type_idx: u32,
    pub parameters: Seq<u32>,
}

impl View for ProtoInfo {
    type V = ProtoInfoView;

    open spec fn view(&self) -> ProtoInfoView {
        ProtoInfoView { return_type_idx: self.return_type_idx, parameters: self.parameters@ }
    }
}

/// Simple DEX parser.
pub struct DexParser {
    pub data: Vec<u8>,
    pub header: DexHeader,
}

/// `r` is the outcome that `s` describes: the same value, or an error with
/// the same kind and message.
pub open spec fn ok_as<T>(r: Result<T, DexError>, s: Result<T, DexErrorView>) -> bool {
    match r {
        Ok(v) => s == Ok::<T, DexErrorView>(v),
        Err(e) => s == Err::<T, DexErrorView>(e@),
    }
}

/// `r` is the outcome that `s` describes: a value with the view given, or an
/// error with the same kind and message.
pub open spec fn ok_view_as<T: View>(r: Result<T, DexError>, s: Result<T::V, DexErrorView>) -> bool {
    match r {
        Ok(v) => s == Ok::<T::V, DexErrorView>(v@),
        Err(e) => s == Err::<T::V, DexErrorView>(e@),
    }
}

/// The 16-bit number stored little-endian at `off`.
pub open spec fn u16_le(data: Seq<u8>, off: int) -> u16 {
    (data[off] as int + data[off + 1] as int * 0x100) as u16
}

/// The 32-bit number stored little-endian at `off`.
pub open spec fn u32_le(data: Seq<u8>, off: int) -> u32 {
    (data[off] as int + data[off + 1] as int * 0x100 + data[off + 2] as int * 0x1_0000 + data[off
        + 3] as int * 0x100_0000) as u32
}

/// The error of a read that reaches past the end of the image.
pub open spec fn eof() -> DexErrorView {
    DexErrorView::IoError("failed to fill whole buffer"@)
}

/// The error of a pool index that is not below the size of its pool.
pub open spec fn index_out_of_bounds(pool: Seq<char>, idx: u32) -> DexErrorView {
    DexErrorView::ParseError(pool + " index "@ + decimal(idx as nat) + " out of bounds"@)
}

/// Reading a little-endian 32-bit number at `off`.
pub open spec fn read_u32_spec(data: Seq<u8>, off: int) -> Result<u32, DexErrorView> {
    if 0 <= off && off + 4 <= data.len() {
        Ok(u32_le(data, off))
    } else {
        Err(eof())
    }
}

/// Reading a ULEB128 number whose bytes start at `off`, when `taken` of its
/// bytes have been read and hold the low bits `acc`.
///
/// Each byte gives seven bits, low groups first; a byte below `0x80` ends the
/// number. Bits beyond the 32nd are dropped. A fifth byte that asks for a
/// sixth is an error.
pub open spec fn uleb128_from(data: Seq<u8>, off: int, taken: nat, acc: u32) -> Result<
    (u32, int),
    DexErrorView,
>
    decreases 5 - taken,
{
    if taken >= 5 {
        Err(DexErrorView::ParseError("ULEB128 overflow"@))
    } else if !(0 <= off + taken < data.len()) {
        Err(eof())
    } else {
        let byte = data[off + taken];
        let acc2 = acc | (((byte & 0x7F) as u32) << ((7 * taken) as u32));
        if byte & 0x80 == 0 {
            Ok((acc2, off + taken + 1))
        } else {
            uleb128_from(data, off, taken + 1, acc2)
        }
    }
}

/// Reading a ULEB128 number at `off`: its value and the offset after it.
pub open spec fn uleb128_spec(data: Seq<u8>, off: int) -> Result<(u32, int), DexErrorView> {
    uleb128_from(data, off, 0, 0)
}

/// Offset of the first zero byte at or after `from`, or the length of the
/// image if there is none.
pub open spec fn terminator_index(data: Seq<u8>, from: int) -> int
    decreases data.len() - from,
{
    if from < 0 || from >= data.len() {
        data.len() as int
    } else if data[from] == 0 {
        from
    } else {
        terminator_index(data, from + 1)
    }
}

/// Reading the string data item at `off`: a ULEB128 length that is not used,
/// then bytes up to a zero byte, which must be UTF-8.
pub open spec fn string_data_spec(data: Seq<u8>, off: int) -> Result<Seq<char>, DexErrorView> {
    match uleb128_spec(data, off) {
        Err(e) => Err(e),
        Ok((_, start)) => {
            let end = terminator_index(data, start);
            if end >= data.len() {
                Err(eof())
            } else if valid_utf8(data.subrange(start, end)) {
                Ok(decode_utf8(data.subrange(start, end)))
            } else {
                Err(DexErrorView::ParseError("Invalid UTF-8"@))
            }
        },
    }
}

/// The string with index `idx` of the string pool.
pub open spec fn get_string_spec(data: Seq<u8>, header: DexHeader, idx: u32) -> Result<
    Seq<char>,
    DexErrorView,
> {
    if idx >= header.string_ids_size {
        Err(index_out_of_bounds("String"@, idx))
    } else {
        match read_u32_spec(data, header.string_ids_off + idx * 4) {
            Err(e) => Err(e),
            Ok(off) => string_data_spec(data, off as int),
        }
    }
}

/// `count` times `[]`.
pub open spec fn brackets(count: nat) -> Seq<char>
    decreases count,
{
    if count == 0 {
        Seq::empty()
    } else {
        brackets((count - 1) as nat) + "[]"@
    }
}

/// Number of leading `[` of a descriptor.
pub open spec fn array_depth(descriptor: Seq<char>) -> nat {
    leading_count(descriptor, '[') as nat
}

/// Java name of a descriptor that is no array type: `void` for the empty
/// descriptor, the primitive's name for a primitive letter, the dotted class
/// name for `L...;`, and the descriptor itself for anything else.
pub open spec fn scalar_type_name(descriptor: Seq<char>) -> Seq<char> {
    if descriptor.len() == 0 {
        "void"@
    } else if is_primitive_letter(descriptor[0]) {
        primitive_name(descriptor[0])
    } else if descriptor[0] == 'L' {
        replace_char_spec(trim_end_spec(descriptor.drop_first(), ';'), '/', '.')
    } else {
        descriptor
    }
}

/// Java name of a type descriptor: the name of what follows the leading `[`,
/// then one `[]` for each of them.
pub open spec fn java_type_name(descriptor: Seq<char>) -> Seq<char> {
    let depth = array_depth(descriptor);
    scalar_type_name(descriptor.subrange(depth as int, descriptor.len() as int)) + brackets(depth)
}

/// The Java name of a descriptor ends with one `[]` for each leading `[` of
/// the descriptor.
pub proof fn lemma_java_type_name_keeps_depth(descriptor: Seq<char>)
    ensures
        seq_ends_with(java_type_name(descriptor), brackets(array_depth(descriptor))),
{
    let depth = array_depth(descriptor);
    let base = scalar_type_name(descriptor.subrange(depth as int, descriptor.len() as int));
    let suffix = brackets(depth);
    assert((base + suffix).subrange(base.len() as int, (base + suffix).len() as int) =~= suffix);
}

/// The Java name of the type with index `idx` of the type pool.
pub open spec fn get_type_name_spec(data: Seq<u8>, header: DexHeader, idx: u32) -> Result<
    Seq<char>,
    DexErrorView,
> {
    if idx >= header.type_ids_size {
        Err(index_out_of_bounds("Type"@, idx))
    } else {
        match read_u32_spec(data, header.type_ids_off + idx * 4) {
            Err(e) => Err(e),
            Ok(descriptor_idx) => match get_string_spec(data, header, descriptor_idx) {
                Err(e) => Err(e),
                Ok(descriptor) => Ok(java_type_name(descriptor)),
            },
        }
    }
}

/// The class definition with index `idx`: eight 32-bit fields, 32 bytes per
/// definition.
pub open spec fn get_class_def_spec(data: Seq<u8>, header: DexHeader, idx: u32) -> Result<
    ClassDef,
    DexErrorView,
> {
    let off = header.class_defs_off + idx * 32;
    if idx >= header.class_defs_size {
        Err(index_out_of_bounds("Class"@, idx))
    } else if off + 32 > data.len() {
        Err(eof())
    } else {
        Ok(
            ClassDef {
                class_idx: u32_le(data, off),
                access_flags: u32_le(data, off + 4),
                superclass_idx: u32_le(data, off + 8),
                interfaces_off: u32_le(data, off + 12),
                source_file_idx: u32_le(data, off + 16),
                annotations_off: u32_le(data, off + 20),
                class_data_off: u32_le(data, off + 24),
                static_values_off: u32_le(data, off + 28),
            },
        )
    }
}

/// The field id with index `idx`: class and type as 16-bit numbers, the name
/// as a 32-bit one.
pub open spec fn get_field_info_spec(data: Seq<u8>, header: DexHeader, idx: u32) -> Result<
    FieldInfo,
    DexErrorView,
> {
    let off = header.field_ids_off + idx * 8;
    if idx >= header.field_ids_size {
        Err(index_out_of_bounds("Field"@, idx))
    } else if off + 8 > data.len() {
        Err(eof())
    } else {
        Ok(
            FieldInfo {
                class_idx: u16_le(data, off) as u32,
                type_idx: u16_le(data, off + 2) as u32,
                name_idx: u32_le(data, off + 4),
            },
        )
    }
}

/// The method id with index `idx`: class and prototype as 16-bit numbers, the
/// name as a 32-bit one.
pub open spec fn get_method_info_spec(data: Seq<u8>, header: DexHeader, idx: u32) -> Result<
    MethodInfo,
    DexErrorView,
> {
    let off = header.method_ids_off + idx * 8;
    if idx >= header.method_ids_size {
        Err(index_out_of_bounds("Method"@, idx))
    } else if off + 8 > data.len() {
        Err(eof())
    } else {
        Ok(
            MethodInfo {
                class_idx: u16_le(data, off) as u32,
                proto_idx: u16_le(data, off + 2) as u32,
                name_idx: u32_le(data, off + 4),
            },
        )
    }
}

/// `count` little-endian 16-bit numbers stored from `off` on.
pub open spec fn u16_array(data: Seq<u8>, off: int, count: nat) -> Seq<u16> {
    Seq::new(count, |k: int| u16_le(data, off + 2 * k))
}

/// The code units of the code item at `code_off`: none for offset zero;
/// otherwise the item's `insns_size` (at byte 12 of the item) units that
/// follow its 16-byte header.
pub open spec fn get_method_bytecode_spec(data: Seq<u8>, code_off: u32) -> Result<
    Seq<u16>,
    DexErrorView,
> {
    if code_off == 0 {
        Ok(Seq::empty())
    } else if code_off + 16 > data.len() {
        Err(eof())
    } else {
        let size = u32_le(data, code_off + 12);
        if code_off + 16 + 2 * size > data.len() {
            Err(eof())
        } else {
            Ok(u16_array(data, code_off + 16, size as nat))
        }
    }
}

/// The prototype with index `idx`: the return type at byte 4 of the 12-byte
/// item; the parameter list, if the offset at byte 8 is not zero, is a 32-bit
/// count followed by that many 16-bit type indices.
pub open spec fn get_proto_info_spec(data: Seq<u8>, header: DexHeader, idx: u32) -> Result<
    ProtoInfoView,
    DexErrorView,
> {
    let off = header.proto_ids_off + idx * 12;
    if idx >= header.proto_ids_size {
        Err(index_out_of_bounds("Proto"@, idx))
    } else if off + 12 > data.len() {
        Err(eof())
    } else {
        let return_type_idx = u32_le(data, off + 4);
        let parameters_off = u32_le(data, off + 8);
        if parameters_off == 0 {
            Ok(ProtoInfoView { return_type_idx, parameters: Seq::empty() })
        } else if parameters_off + 4 > data.len() {
            Err(eof())
        } else {
            let size = u32_le(data, parameters_off as int);
            if parameters_off + 4 + 2 * size > data.len() {
                Err(eof())
            } else {
                Ok(
                    ProtoInfoView {
                        return_type_idx,
                        parameters: u16_array(data, parameters_off + 4, size as nat).map_values(
                            |t: u16| t as u32,
                        ),
                    },
                )
            }
        }
    }
}

/// The error of an index delta that leads past the largest 32-bit index.
pub open spec fn delta_overflow() -> DexErrorView {
    DexErrorView::ParseError("Index delta overflow"@)
}

/// `done` followed by what `rest` describes.
pub open spec fn after<T>(done: Seq<T>, rest: Result<(Seq<T>, int), DexErrorView>) -> Result<
    (Seq<T>, int),
    DexErrorView,
> {
    match rest {
        Ok((items, end)) => Ok((done + items, end)),
        Err(e) => Err(e),
    }
}

/// Reading `count` encoded fields from `pos` on, the field before them
/// having index `prev`: each entry is a ULEB128 index delta, added to the
/// index before it, and ULEB128 access flags. Gives the fields and the
/// offset after them.
pub open spec fn fields_spec(data: Seq<u8>, pos: int, count: nat, prev: u32) -> Result<
    (Seq<EncodedField>, int),
    DexErrorView,
>
    decreases count,
{
    if count == 0 {
        Ok((Seq::empty(), pos))
    } else {
        match uleb128_spec(data, pos) {
            Err(e) => Err(e),
            Ok((delta, p1)) => if prev + delta > u32::MAX {
                Err(delta_overflow())
            } else {
                match uleb128_spec(data, p1) {
                    Err(e) => Err(e),
                    Ok((access_flags, p2)) => after(
                        seq![EncodedField { field_idx: (prev + delta) as u32, access_flags }],
                        fields_spec(data, p2, (count - 1) as nat, (prev + delta) as u32),
                    ),
                }
            },
        }
    }
}

/// Reading `count` encoded methods from `pos` on, the method before them
/// having index `prev`: each entry is a ULEB128 index delta, ULEB128 access
/// flags and a ULEB128 code offset.
pub open spec fn methods_spec(data: Seq<u8>, pos: int, count: nat, prev: u32) -> Result<
    (Seq<EncodedMethod>, int),
    DexErrorView,
>
    decreases count,
{
    if count == 0 {
        Ok((Seq::empty(), pos))
    } else {
        match uleb128_spec(data, pos) {
            Err(e) => Err(e),
            Ok((delta, p1)) => if prev + delta > u32::MAX {
                Err(delta_overflow())
            } else {
                match uleb128_spec(data, p1) {
                    Err(e) => Err(e),
                    Ok((access_flags, p2)) => match uleb128_spec(data, p2) {
                        Err(e) => Err(e),
                        Ok((code_off, p3)) => after(
                            seq![
                                EncodedMethod {
                                    method_idx: (prev + delta) as u32,
                                    access_flags,
                                    code_off,
                                },
                            ],
                            methods_spec(data, p3, (count - 1) as nat, (prev + delta) as u32),
                        ),
                    },
                }
            },
        }
    }
}

/// The four lists that follow the four counts of a class data item, the
/// static fields starting at `pos`. The index accumulator starts at zero for
/// each list.
pub open spec fn class_lists_spec(
    data: Seq<u8>,
    pos: int,
    static_fields: nat,
    instance_fields: nat,
    direct_methods: nat,
    virtual_methods: nat,
) -> Result<ClassDataView, DexErrorView> {
    match fields_spec(data, pos, static_fields, 0) {
        Err(e) => Err(e),
        Ok((statics, p1)) => match fields_spec(data, p1, instance_fields, 0) {
            Err(e) => Err(e),
            Ok((instances, p2)) => match methods_spec(data, p2, direct_methods, 0) {
                Err(e) => Err(e),
                Ok((directs, p3)) => match methods_spec(data, p3, virtual_methods, 0) {
                    Err(e) => Err(e),
                    Ok((virtuals, _)) => Ok(
                        ClassDataView {
                            static_fields: statics,
                            instance_fields: instances,
                            direct_methods: directs,
                            virtual_methods: virtuals,
                        },
                    ),
                },
            },
        },
    }
}

/// The class data item at `off`: empty for offset zero; otherwise four
/// ULEB128 counts, then the four lists.
pub open spec fn class_data_spec(data: Seq<u8>, off: u32) -> Result<ClassDataView, DexErrorView> {
    if off == 0 {
        Ok(ClassDataView::empty())
    } else {
        match uleb128_spec(data, off as int) {
            Err(e) => Err(e),
            Ok((n1, p1)) => match uleb128_spec(data, p1) {
                Err(e) => Err(e),
                Ok((n2, p2)) => match uleb128_spec(data, p2) {
                    Err(e) => Err(e),
                    Ok((n3, p3)) => match uleb128_spec(data, p3) {
                        Err(e) => Err(e),
                        Ok((n4, p4)) => class_lists_spec(
                            data,
                            p4,
                            n1 as nat,
                            n2 as nat,
                            n3 as nat,
                            n4 as nat,
                        ),
                    },
                },
            },
        }
    }
}

/// The indices of a list of encoded fields.
pub open spec fn field_ids(fields: Seq<EncodedField>) -> Seq<u32> {
    fields.map_values(|f: EncodedField| f.field_idx)
}

/// The indices of a list of encoded methods.
pub open spec fn method_ids(methods: Seq<EncodedMethod>) -> Seq<u32> {
    methods.map_values(|m: EncodedMethod| m.method_idx)
}

/// No index is smaller than one before it.
pub open spec fn non_decreasing(ids: Seq<u32>) -> bool {
    forall|i: int, j: int| 0 <= i <= j < ids.len() ==> ids[i] <= ids[j]
}

/// Every index is larger than all before it.
pub open spec fn strictly_increasing(ids: Seq<u32>) -> bool {
    forall|i: int, j: int| 0 <= i < j < ids.len() ==> ids[i] < ids[j]
}

/// No index equals the one before it: no delta after the first is zero.
pub open spec fn no_zero_delta(ids: Seq<u32>) -> bool {
    forall|i: int| 0 < i < ids.len() ==> #[trigger] ids[i] != ids[i - 1]
}

/// Delta decoding never goes down: the indices of a decoded field list are
/// in non-decreasing order and none is below the index the list started from.
pub proof fn lemma_field_ids_non_decreasing(data: Seq<u8>, pos: int, count: nat, prev: u32)
    requires
        fields_spec(data, pos, count, prev) is Ok,
    ensures
        non_decreasing(field_ids(fields_spec(data, pos, count, prev)->Ok_0.0)),
        fields_spec(data, pos, count, prev)->Ok_0.0.len() == count,
        forall|i: int|
            0 <= i < count ==> prev <= #[trigger] field_ids(
                fields_spec(data, pos, count, prev)->Ok_0.0,
            )[i],
    decreases count,
{
    if count > 0 {
        let (delta, p1) = uleb128_spec(data, pos)->Ok_0;
        let (access_flags, p2) = uleb128_spec(data, p1)->Ok_0;
        let next = (prev + delta) as u32;
        lemma_field_ids_non_decreasing(data, p2, (count - 1) as nat, next);
        let rest = fields_spec(data, p2, (count - 1) as nat, next)->Ok_0.0;
        let all = fields_spec(data, pos, count, prev)->Ok_0.0;
        assert(all =~= seq![EncodedField { field_idx: next, access_flags }] + rest);
        assert forall|i: int| 0 <= i < count implies prev <= #[trigger] field_ids(all)[i] by {
            if i > 0 {
                assert(field_ids(all)[i] == field_ids(rest)[i - 1]);
            }
        }
        assert forall|i: int, j: int| 0 <= i <= j < field_ids(all).len() implies field_ids(all)[i]
            <= field_ids(all)[j] by {
            if i > 0 {
                assert(field_ids(all)[i] == field_ids(rest)[i - 1]);
                assert(field_ids(all)[j] == field_ids(rest)[j - 1]);
            } else if j > 0 {
                assert(field_ids(all)[j] == field_ids(rest)[j - 1]);
            }
        }
    }
}

/// Delta decoding never goes down: the indices of a decoded method list are
/// in non-decreasing order and none is below the index the list started from.
pub proof fn lemma_method_ids_non_decreasing(data: Seq<u8>, pos: int, count: nat, prev: u32)
    requires
        methods_spec(data, pos, count, prev) is Ok,
    ensures
        non_decreasing(method_ids(methods_spec(data, pos, count, prev)->Ok_0.0)),
        methods_spec(data, pos, count, prev)->Ok_0.0.len() == count,
        forall|i: int|
            0 <= i < count ==> prev <= #[trigger] method_ids(
                methods_spec(data, pos, count, prev)->Ok_0.0,
            )[i],
    decreases count,
{
    if count > 0 {
        let (delta, p1) = uleb128_spec(data, pos)->Ok_0;
        let (access_flags, p2) = uleb128_spec(data, p1)->Ok_0;
        let (code_off, p3) = uleb128_spec(data, p2)->Ok_0;
        let next = (prev + delta) as u32;
        lemma_method_ids_non_decreasing(data, p3, (count - 1) as nat, next);
        let rest = methods_spec(data, p3, (count - 1) as nat, next)->Ok_0.0;
        let all = methods_spec(data, pos, count, prev)->Ok_0.0;
        assert(all =~= seq![EncodedMethod { method_idx: next, access_flags, code_off }] + rest);
        assert forall|i: int| 0 <= i < count implies prev <= #[trigger] method_ids(all)[i] by {
            if i > 0 {
                assert(method_ids(all)[i] == method_ids(rest)[i - 1]);
            }
        }
        assert forall|i: int, j: int| 0 <= i <= j < method_ids(all).len() implies method_ids(
            all,
        )[i] <= method_ids(all)[j] by {
            if i > 0 {
                assert(method_ids(all)[i] == method_ids(rest)[i - 1]);
                assert(method_ids(all)[j] == method_ids(rest)[j - 1]);
            } else if j > 0 {
                assert(method_ids(all)[j] == method_ids(rest)[j - 1]);
            }
        }
    }
}

/// Within one list, accumulated indices that never go down and never repeat
/// their neighbour are strictly increasing.
pub proof fn lemma_ids_strictly_increasing(ids: Seq<u32>)
    requires
        non_decreasing(ids),
        no_zero_delta(ids),
    ensures
        strictly_increasing(ids),
{
    assert forall|i: int, j: int| 0 <= i < j < ids.len() implies ids[i] < ids[j] by {
        assert(ids[i] <= ids[j - 1]);
        assert(ids[j - 1] <= ids[j]);
        assert(ids[j] != ids[j - 1]);
    }
}

/// In every class data item that parses, the indices of each of the four
/// lists are in non-decreasing order.
pub proof fn lemma_class_data_ids_non_decreasing(data: Seq<u8>, off: u32)
    requires
        class_data_spec(data, off) is Ok,
    ensures
        non_decreasing(field_ids(class_data_spec(data, off)->Ok_0.static_fields)),
        non_decreasing(field_ids(class_data_spec(data, off)->Ok_0.instance_fields)),
        non_decreasing(method_ids(class_data_spec(data, off)->Ok_0.direct_methods)),
        non_decreasing(method_ids(class_data_spec(data, off)->Ok_0.virtual_methods)),
{
    if off != 0 {
        let (n1, p1) = uleb128_spec(data, off as int)->Ok_0;
        let (n2, p2) = uleb128_spec(data, p1)->Ok_0;
        let (n3, p3) = uleb128_spec(data, p2)->Ok_0;
        let (n4, p4) = uleb128_spec(data, p3)->Ok_0;
        let (statics, q1) = fields_spec(data, p4, n1 as nat, 0)->Ok_0;
        let (instances, q2) = fields_spec(data, q1, n2 as nat, 0)->Ok_0;
        let (directs, q3) = methods_spec(data, q2, n3 as nat, 0)->Ok_0;
        lemma_field_ids_non_decreasing(data, p4, n1 as nat, 0);
        lemma_field_ids_non_decreasing(data, q1, n2 as nat, 0);
        lemma_method_ids_non_decreasing(data, q2, n3 as nat, 0);
        lemma_method_ids_non_decreasing(data, q3, n4 as nat, 0);
    }
}

/// The bytes of `bytes` in decimal, separated by `, `, in square brackets.
pub open spec fn byte_list(bytes: Seq<u8>) -> Seq<char> {
    "["@ + join_spec(bytes.map_values(|b: u8| decimal(b as nat)), ", "@) + "]"@
}

/// Why `data` is not accepted as a DEX image, if it is not: it is shorter
/// than a header, does not start with the magic, gives a header size other
/// than 112, or an endian tag other than that of a little-endian image.
pub open spec fn header_error(data: Seq<u8>) -> Option<DexErrorView> {
    if data.len() < 112 {
        Some(DexErrorView::InvalidDex("File too small"@))
    } else if data.subrange(0, 4) != magic_bytes() {
        Some(DexErrorView::InvalidDex("Invalid magic: "@ + byte_list(data.subrange(0, 4))))
    } else if u32_le(data, 36) != 112 {
        Some(
            DexErrorView::InvalidDex(
                "Invalid header size: "@ + decimal(u32_le(data, 36) as nat) + " (expected 112)"@,
            ),
        )
    } else if u32_le(data, 40) != 0x12345678 {
        Some(DexErrorView::InvalidDex("Invalid endian tag: "@ + decimal(u32_le(data, 40) as nat)))
    } else {
        None
    }
}

/// `header` holds the fields of the header that `data` starts with.
#[verifier::opaque]
pub open spec fn header_matches(header: DexHeader, data: Seq<u8>) -> bool {
    &&& header.magic@ == data.subrange(0, 4)
    &&& header.version@ == data.subrange(4, 8)
    &&& header.checksum == u32_le(data, 8)
    &&& header.signature@ == data.subrange(12, 32)
    &&& header.file_size == u32_le(data, 32)
    &&& header.header_size == u32_le(data, 36)
    &&& header.endian_tag == u32_le(data, 40)
    &&& header.link_size == u32_le(data, 44)
    &&& header.link_off == u32_le(data, 48)
    &&& header.map_off == u32_le(data, 52)
    &&& header.string_ids_size == u32_le(data, 56)
    &&& header.string_ids_off == u32_le(data, 60)
    &&& header.type_ids_size == u32_le(data, 64)
    &&& header.type_ids_off == u32_le(data, 68)
    &&& header.proto_ids_size == u32_le(data, 72)
    &&& header.proto_ids_off == u32_le(data, 76)
    &&& header.field_ids_size == u32_le(data, 80)
    &&& header.field_ids_off == u32_le(data, 84)
    &&& header.method_ids_size == u32_le(data, 88)
    &&& header.method_ids_off == u32_le(data, 92)
    &&& header.class_defs_size == u32_le(data, 96)
    &&& header.class_defs_off == u32_le(data, 100)
    &&& header.data_size == u32_le(data, 104)
    &&& header.data_off == u32_le(data, 108)
}

/// `byteorder::LittleEndian::read_u16` on the bytes from `off` on: the two
/// bytes at `off`, the first being the low one.
#[verifier::external_body]
fn le_u16(data: &[u8], off: usize) -> (v: u16)
    requires
        off + 2 <= data@.len(),
    ensures
        v == u16_le(data@, off as int),
{
    LittleEndian::read_u16(&data[off..])
}

/// `byteorder::LittleEndian::read_u32` on the bytes from `off` on: the four
/// bytes at `off`, the first being the lowest one.
#[verifier::external_body]
fn le_u32(data: &[u8], off: usize) -> (v: u32)
    requires
        off + 4 <= data@.len(),
    ensures
        v == u32_le(data@, off as int),
{
    LittleEndian::read_u32(&data[off..])
}

/// `String::from_utf8`: the string that the bytes encode, if they are valid
/// UTF-8, and nothing otherwise.
#[verifier::external_body]
fn utf8_to_string(bytes: Vec<u8>) -> (s: Option<String>)
    ensures
        s is Some <==> valid_utf8(bytes@),
        s matches Some(text) ==> text@ == decode_utf8(bytes@),
{
    String::from_utf8(bytes).ok()
}

fn eof_error() -> (e: DexError)
    ensures
        e@ == eof(),
{
    DexError::IoError(owned("failed to fill whole buffer"))
}

fn index_error(pool: &str, idx: u32) -> (e: DexError)
    ensures
        e@ == index_out_of_bounds(pool@, idx),
{
    let mut message = owned(pool);
    message.append(" index ");
    push_decimal(&mut message, idx as u64);
    message.append(" out of bounds");
    DexError::ParseError(message)
}

fn read_u32_at(data: &[u8], off: u64) -> (r: Result<u32, DexError>)
    ensures
        ok_as(r, read_u32_spec(data@, off as int)),
{
    let len = data.len() as u64;
    if len >= 4 && off <= len - 4 {
        Ok(le_u32(data, off as usize))
    } else {
        Err(eof_error())
    }
}

/// Whether `count` bytes starting at `off` lie inside `data`.
fn in_bounds(data: &[u8], off: u64, count: u64) -> (inside: bool)
    requires
        off + count <= u64::MAX,
    ensures
        inside == (off + count <= data@.len()),
        inside ==> off + count <= usize::MAX,
{
    off + count <= data.len() as u64
}

fn read_u16_array(data: &[u8], off: usize, count: usize) -> (words: Vec<u16>)
    requires
        off + 2 * count <= data@.len(),
    ensures
        words@ == u16_array(data@, off as int, count as nat),
{
    let mut words: Vec<u16> = Vec::new();
    let mut k: usize = 0;
    while k < count
        invariant
            k <= count,
            off + 2 * count <= data@.len() == data.len(),
            words@.len() == k,
            forall|j: int| 0 <= j < k ==> #[trigger] words@[j] == u16_le(data@, off + 2 * j),
        decreases count - k,
    {
        words.push(le_u16(data, off + 2 * k));
        k += 1;
    }
    assert(words@ =~= u16_array(data@, off as int, count as nat));
    words
}

impl DexParser {
    /// Create a new DEX parser from raw bytes.
    ///
    /// Succeeds exactly on the images that [`header_error`] finds no fault
    /// with; the parser then holds the bytes given and their header fields.
    pub fn new(data: Vec<u8>) -> (r: Result<DexParser, DexError>)
        ensures
            match r {
                Ok(parser) => header_error(data@) is None && parser.data@ == data@
                    && header_matches(parser.header, data@),
                Err(e) => header_error(data@) == Some(e@),
            },
    {
        match Self::parse_header(data.as_slice()) {
            Ok(header) => Ok(DexParser { data, header }),
            Err(e) => Err(e),
        }
    }

    /// Parse the DEX file header.
    pub fn parse_header(data: &[u8]) -> (r: Result<DexHeader, DexError>)
        ensures
            match r {
                Ok(header) => header_error(data@) is None && header_matches(header, data@),
                Err(e) => header_error(data@) == Some(e@),
            },
    {
        if data.len() < 112 {
            return Err(DexError::InvalidDex(owned("File too small")));
        }
        proof {
            reveal(header_matches);
        }
        let magic: [u8; 4] = [data[0], data[1], data[2], data[3]];
        assert(magic@ =~= data@.subrange(0, 4));
        if !(magic[0] == 0x64 && magic[1] == 0x65 && magic[2] == 0x78 && magic[3] == 0x0A) {
            let mut parts: Vec<String> = Vec::new();
            parts.push(u64_to_string(magic[0] as u64));
            parts.push(u64_to_string(magic[1] as u64));
            parts.push(u64_to_string(magic[2] as u64));
            parts.push(u64_to_string(magic[3] as u64));
            let mut message = owned("Invalid magic: [");
            message.append(join(&parts, ", ").as_str());
            message.append("]");
            proof {
                assert(views(parts@) =~= data@.subrange(0, 4).map_values(
                    |b: u8| decimal(b as nat),
                ));
                assert(data@.subrange(0, 4)[0] == magic[0]);
                assert(magic_bytes()[0] == 0x64 && magic_bytes()[1] == 0x65 && magic_bytes()[2]
                    == 0x78 && magic_bytes()[3] == 0x0A);
                let list = join_spec(views(parts@), ", "@);
                assert("Invalid magic: ["@ + list + "]"@ =~= "Invalid magic: "@ + ("["@ + list
                    + "]"@)) by {
                    reveal_strlit("Invalid magic: [");
                    reveal_strlit("Invalid magic: ");
                    reveal_strlit("[");
                }
            }
            return Err(DexError::InvalidDex(message));
        }
        assert(magic@ =~= magic_bytes());
        let version: [u8; 4] = [data[4], data[5], data[6], data[7]];
        assert(version@ =~= data@.subrange(4, 8));
        let checksum = le_u32(data, 8);
        let signature: [u8; 20] = [
            data[12],
            data[13],
            data[14],
            data[15],
            data[16],
            data[17],
            data[18],
            data[19],
            data[20],
            data[21],
            data[22],
            data[23],
            data[24],
            data[25],
            data[26],
            data[27],
            data[28],
            data[29],
            data[30],
            data[31],
        ];
        assert(signature@ =~= data@.subrange(12, 32));
        let file_size = le_u32(data, 32);
        let header_size = le_u32(data, 36);
        if header_size != 112 {
            let mut message = owned("Invalid header size: ");
            push_decimal(&mut message, header_size as u64);
            message.append(" (expected 112)");
            return Err(DexError::InvalidDex(message));
        }
        let endian_tag = le_u32(data, 40);
        if endian_tag != 0x12345678 {
            let mut message = owned("Invalid endian tag: ");
            push_decimal(&mut message, endian_tag as u64);
            return Err(DexError::InvalidDex(message));
        }
        Ok(
            DexHeader {
                magic,
                version,
                checksum,
                signature,
                file_size,
                header_size,
                endian_tag,
                link_size: le_u32(data, 44),
                link_off: le_u32(data, 48),
                map_off: le_u32(data, 52),
                string_ids_size: le_u32(data, 56),
                string_ids_off: le_u32(data, 60),
                type_ids_size: le_u32(data, 64),
                type_ids_off: le_u32(data, 68),
                proto_ids_size: le_u32(data, 72),
                proto_ids_off: le_u32(data, 76),
                field_ids_size: le_u32(data, 80),
                field_ids_off: le_u32(data, 84),
                method_ids_size: le_u32(data, 88),
                method_ids_off: le_u32(data, 92),
                class_defs_size: le_u32(data, 96),
                class_defs_off: le_u32(data, 100),
                data_size: le_u32(data, 104),
                data_off: le_u32(data, 108),
            },
        )
    }

    /// Get header.
    pub fn header(&self) -> (h: &DexHeader)
        ensures
            *h == self.header,
    {
        &self.header
    }

    /// Get total number of classes.
    pub fn class_count(&self) -> (n: u32)
        ensures
            n == self.header.class_defs_size,
    {
        self.header.class_defs_size
    }

    /// Read ULEB128 (unsigned little-endian base 128) at offset `pos`; gives
    /// the number and the offset after it.
    pub fn read_uleb128(&self, pos: usize) -> (r: Result<(u32, usize), DexError>)
        ensures
            match r {
                Ok((value, next)) => uleb128_spec(self.data@, pos as int) == Ok::<
                    (u32, int),
                    DexErrorView,
                >((value, next as int)) && pos < next <= self.data@.len(),
                Err(e) => uleb128_spec(self.data@, pos as int) == Err::<(u32, int), DexErrorView>(
                    e@,
                ),
            },
    {
        let mut result: u32 = 0;
        let mut taken: usize = 0;
        loop
            invariant
                taken < 5,
                pos + taken <= self.data@.len() || taken == 0,
                uleb128_spec(self.data@, pos as int) == uleb128_from(
                    self.data@,
                    pos as int,
                    taken as nat,
                    result,
                ),
            decreases 5 - taken,
        {
            if pos >= self.data.len() || taken >= self.data.len() - pos {
                return Err(eof_error());
            }
            let byte = self.data[pos + taken];
            let shift: u32 = 7 * (taken as u32);
            result = result | (((byte & 0x7F) as u32) << shift);
            taken += 1;
            if byte & 0x80 == 0 {
                return Ok((result, pos + taken));
            }
            if taken >= 5 {
                return Err(DexError::ParseError(owned("ULEB128 overflow")));
            }
        }
    }

    /// Reads the string data item at `off`.
    fn read_string_data(&self, off: usize) -> (r: Result<String, DexError>)
        ensures
            ok_view_as(r, string_data_spec(self.data@, off as int)),
    {
        let start = match self.read_uleb128(off) {
            Ok((_, next)) => next,
            Err(e) => {
                return Err(e);
            },
        };
        let mut bytes: Vec<u8> = Vec::new();
        let mut i: usize = start;
        while i < self.data.len() && self.data[i] != 0
            invariant
                start <= i <= self.data@.len(),
                bytes@ == self.data@.subrange(start as int, i as int),
                terminator_index(self.data@, start as int) == terminator_index(
                    self.data@,
                    i as int,
                ),
            decreases self.data@.len() - i,
        {
            bytes.push(self.data[i]);
            i += 1;
            assert(self.data@.subrange(start as int, i as int) == self.data@.subrange(
                start as int,
                i - 1,
            ).push(self.data@[i - 1]));
        }
        if i >= self.data.len() {
            return Err(eof_error());
        }
        match utf8_to_string(bytes) {
            Some(text) => Ok(text),
            None => Err(DexError::ParseError(owned("Invalid UTF-8"))),
        }
    }

    /// Read a string from the string pool.
    pub fn get_string(&self, string_idx: u32) -> (r: Result<String, DexError>)
        ensures
            ok_view_as(r, get_string_spec(self.data@, self.header, string_idx)),
    {
        if string_idx >= self.header.string_ids_size {
            return Err(index_error("String", string_idx));
        }
        let id_off: u64 = self.header.string_ids_off as u64 + (string_idx as u64) * 4;
        match read_u32_at(self.data.as_slice(), id_off) {
            Ok(data_off) => self.read_string_data(data_off as usize),
            Err(e) => Err(e),
        }
    }

    /// Convert type descriptor to Java type name.
    pub fn descriptor_to_java_type(&self, descriptor: &str) -> (name: String)
        ensures
            name@ == java_type_name(descriptor@),
            seq_ends_with(name@, brackets(array_depth(descriptor@))),
    {
        let chars = chars_of(descriptor);
        let mut depth: usize = 0;
        assert(chars@.subrange(0, chars@.len() as int) == chars@);
        while depth < chars.len() && chars[depth] == '['
            invariant
                depth <= chars@.len(),
                forall|j: int| 0 <= j < depth ==> chars@[j] == '[',
            decreases chars@.len() - depth,
        {
            depth += 1;
        }
        proof {
            crate::text::lemma_leading_count(chars@, '[', depth as int);
            lemma_java_type_name_keeps_depth(descriptor@);
        }
        let base = string_of_range(&chars, depth, chars.len());
        let mut name = Self::scalar_name(base.as_str());
        let mut k: usize = 0;
        assert(name@ + brackets(0) == name@);
        while k < depth
            invariant
                k <= depth,
                name@ == scalar_type_name(base@) + brackets(k as nat),
            decreases depth - k,
        {
            name.append("[]");
            k += 1;
            assert(scalar_type_name(base@) + brackets((k - 1) as nat) + "[]"@ == scalar_type_name(
                base@,
            ) + (brackets((k - 1) as nat) + "[]"@));
        }
        name
    }

    /// Java name of a descriptor that is no array type.
    fn scalar_name(descriptor: &str) -> (name: String)
        ensures
            name@ == scalar_type_name(descriptor@),
    {
        let chars = chars_of(descriptor);
        if chars.len() == 0 {
            return owned("void");
        }
        let first = chars[0];
        if first == 'V' || first == 'Z' || first == 'B' || first == 'S' || first == 'C' || first
            == 'I' || first == 'J' || first == 'F' || first == 'D' {
            owned(descriptor_to_java(first))
        } else if first == 'L' {
            let rest = string_of_range(&chars, 1, chars.len());
            assert(rest@ == descriptor@.drop_first());
            let trimmed = trim_end_char(rest.as_str(), ';');
            replace_char(trimmed.as_str(), '/', '.')
        } else {
            owned(descriptor)
        }
    }

    /// Get type name by type ID.
    pub fn get_type_name(&self, type_idx: u32) -> (r: Result<String, DexError>)
        ensures
            ok_view_as(r, get_type_name_spec(self.data@, self.header, type_idx)),
    {
        if type_idx >= self.header.type_ids_size {
            return Err(index_error("Type", type_idx));
        }
        let id_off: u64 = self.header.type_ids_off as u64 + (type_idx as u64) * 4;
        let descriptor_idx = match read_u32_at(self.data.as_slice(), id_off) {
            Ok(idx) => idx,
            Err(e) => {
                return Err(e);
            },
        };
        match self.get_string(descriptor_idx) {
            Ok(descriptor) => Ok(self.descriptor_to_java_type(descriptor.as_str())),
            Err(e) => Err(e),
        }
    }

    /// Get class definition by index.
    pub fn get_class_def(&self, class_idx: u32) -> (r: Result<ClassDef, DexError>)
        ensures
            ok_as(r, get_class_def_spec(self.data@, self.header, class_idx)),
    {
        if class_idx >= self.header.class_defs_size {
            return Err(index_error("Class", class_idx));
        }
        let off64: u64 = self.header.class_defs_off as u64 + (class_idx as u64) * 32;
        let data = self.data.as_slice();
        if !in_bounds(data, off64, 32) {
            return Err(eof_error());
        }
        let off = off64 as usize;
        Ok(
            ClassDef {
                class_idx: le_u32(data, off),
                access_flags: le_u32(data, off + 4),
                superclass_idx: le_u32(data, off + 8),
                interfaces_off: le_u32(data, off + 12),
                source_file_idx: le_u32(data, off + 16),
                annotations_off: le_u32(data, off + 20),
                class_data_off: le_u32(data, off + 24),
                static_values_off: le_u32(data, off + 28),
            },
        )
    }

    /// Reads `count` encoded fields from `pos` on.
    fn read_fields(&self, pos: usize, count: u32) -> (r: Result<(Vec<EncodedField>, usize), DexError>)
        ensures
            match r {
                Ok((fields, next)) => fields_spec(self.data@, pos as int, count as nat, 0) == Ok::<
                    (Seq<EncodedField>, int),
                    DexErrorView,
                >((fields@, next as int)),
                Err(e) => fields_spec(self.data@, pos as int, count as nat, 0) == Err::<
                    (Seq<EncodedField>, int),
                    DexErrorView,
                >(e@),
            },
    {
        let mut fields: Vec<EncodedField> = Vec::new();
        let mut at: usize = pos;
        let mut field_idx: u32 = 0;
        let mut k: u32 = 0;
        assert(fields_spec(self.data@, pos as int, count as nat, 0) == after(
            fields@,
            fields_spec(self.data@, at as int, (count - k) as nat, field_idx),
        )) by {
            let r = fields_spec(self.data@, at as int, (count - k) as nat, field_idx);
            if r is Ok {
                assert(Seq::<EncodedField>::empty() + r->Ok_0.0 =~= r->Ok_0.0);
            }
        }
        while k < count
            invariant
                k <= count,
                fields_spec(self.data@, pos as int, count as nat, 0) == after(
                    fields@,
                    fields_spec(self.data@, at as int, (count - k) as nat, field_idx),
                ),
            decreases count - k,
        {
            let ghost done = fields@;
            let (delta, p1) = match self.read_uleb128(at) {
                Ok(v) => v,
                Err(e) => {
                    return Err(e);
                },
            };
            if delta > u32::MAX - field_idx {
                return Err(DexError::ParseError(owned("Index delta overflow")));
            }
            let (access_flags, p2) = match self.read_uleb128(p1) {
                Ok(v) => v,
                Err(e) => {
                    return Err(e);
                },
            };
            let field = EncodedField { field_idx: field_idx + delta, access_flags };
            fields.push(field);
            proof {
                let rest = fields_spec(
                    self.data@,
                    p2 as int,
                    (count - k - 1) as nat,
                    (field_idx + delta) as u32,
                );
                if rest is Ok {
                    assert(done + (seq![field] + rest->Ok_0.0) =~= done.push(field) + rest->Ok_0.0);
                }
            }
            field_idx = field_idx + delta;
            at = p2;
            k += 1;
        }
        assert(fields@ + Seq::<EncodedField>::empty() =~= fields@);
        Ok((fields, at))
    }

    /// Reads `count` encoded methods from `pos` on.
    fn read_methods(&self, pos: usize, count: u32) -> (r: Result<
        (Vec<EncodedMethod>, usize),
        DexError,
    >)
        ensures
            match r {
                Ok((methods, next)) => methods_spec(self.data@, pos as int, count as nat, 0)
                    == Ok::<(Seq<EncodedMethod>, int), DexErrorView>((methods@, next as int)),
                Err(e) => methods_spec(self.data@, pos as int, count as nat, 0) == Err::<
                    (Seq<EncodedMethod>, int),
                    DexErrorView,
                >(e@),
            },
    {
        let mut methods: Vec<EncodedMethod> = Vec::new();
        let mut at: usize = pos;
        let mut method_idx: u32 = 0;
        let mut k: u32 = 0;
        assert(methods_spec(self.data@, pos as int, count as nat, 0) == after(
            methods@,
            methods_spec(self.data@, at as int, (count - k) as nat, method_idx),
        )) by {
            let r = methods_spec(self.data@, at as int, (count - k) as nat, method_idx);
            if r is Ok {
                assert(Seq::<EncodedMethod>::empty() + r->Ok_0.0 =~= r->Ok_0.0);
            }
        }
        while k < count
            invariant
                k <= count,
                methods_spec(self.data@, pos as int, count as nat, 0) == after(
                    methods@,
                    methods_spec(self.data@, at as int, (count - k) as nat, method_idx),
                ),
            decreases count - k,
        {
            let ghost done = methods@;
            let (delta, p1) = match self.read_uleb128(at) {
                Ok(v) => v,
                Err(e) => {
                    return Err(e);
                },
            };
            if delta > u32::MAX - method_idx {
                return Err(DexError::ParseError(owned("Index delta overflow")));
            }
            let (access_flags, p2) = match self.read_uleb128(p1) {
                Ok(v) => v,
                Err(e) => {
                    return Err(e);
                },
            };
            let (code_off, p3) = match self.read_uleb128(p2) {
                Ok(v) => v,
                Err(e) => {
                    return Err(e);
                },
            };
            let method = EncodedMethod { method_idx: method_idx + delta, access_flags, code_off };
            methods.push(method);
            proof {
                let rest = methods_spec(
                    self.data@,
                    p3 as int,
                    (count - k - 1) as nat,
                    (method_idx + delta) as u32,
                );
                if rest is Ok {
                    assert(done + (seq![method] + rest->Ok_0.0) =~= done.push(method)
                        + rest->Ok_0.0);
                }
            }
            method_idx = method_idx + delta;
            at = p3;
            k += 1;
        }
        assert(methods@ + Seq::<EncodedMethod>::empty() =~= methods@);
        Ok((methods, at))
    }

    /// Parse class data (fields and methods).
    ///
    /// Offset zero gives empty class data. In each of the four lists the
    /// indices are in non-decreasing order.
    pub fn parse_class_data(&self, class_data_off: u32) -> (r: Result<ClassData, DexError>)
        ensures
            ok_view_as(r, class_data_spec(self.data@, class_data_off)),
            r matches Ok(class_data) ==> {
                &&& non_decreasing(field_ids(class_data.static_fields@))
                &&& non_decreasing(field_ids(class_data.instance_fields@))
                &&& non_decreasing(method_ids(class_data.direct_methods@))
                &&& non_decreasing(method_ids(class_data.virtual_methods@))
            },
    {
        if class_data_off == 0 {
            return Ok(ClassData::default());
        }
        let (n1, p1) = match self.read_uleb128(class_data_off as usize) {
            Ok(v) => v,
            Err(e) => {
                return Err(e);
            },
        };
        let (n2, p2) = match self.read_uleb128(p1) {
            Ok(v) => v,
            Err(e) => {
                return Err(e);
            },
        };
        let (n3, p3) = match self.read_uleb128(p2) {
            Ok(v) => v,
            Err(e) => {
                return Err(e);
            },
        };
        let (n4, p4) = match self.read_uleb128(p3) {
            Ok(v) => v,
            Err(e) => {
                return Err(e);
            },
        };
        let (static_fields, q1) = match self.read_fields(p4, n1) {
            Ok(v) => v,
            Err(e) => {
                return Err(e);
            },
        };
        let (instance_fields, q2) = match self.read_fields(q1, n2) {
            Ok(v) => v,
            Err(e) => {
                return Err(e);
            },
        };
        let (direct_methods, q3) = match self.read_methods(q2, n3) {
            Ok(v) => v,
            Err(e) => {
                return Err(e);
            },
        };
        let (virtual_methods, _) = match self.read_methods(q3, n4) {
            Ok(v) => v,
            Err(e) => {
                return Err(e);
            },
        };
        proof {
            lemma_class_data_ids_non_decreasing(self.data@, class_data_off);
        }
        Ok(ClassData { static_fields, instance_fields, direct_methods, virtual_methods })
    }

    /// Get field information.
    pub fn get_field_info(&self, field_idx: u32) -> (r: Result<FieldInfo, DexError>)
        ensures
            ok_as(r, get_field_info_spec(self.data@, self.header, field_idx)),
    {
        if field_idx >= self.header.field_ids_size {
            return Err(index_error("Field", field_idx));
        }
        let off64: u64 = self.header.field_ids_off as u64 + (field_idx as u64) * 8;
        let data = self.data.as_slice();
        if !in_bounds(data, off64, 8) {
            return Err(eof_error());
        }
        let off = off64 as usize;
        Ok(
            FieldInfo {
                class_idx: le_u16(data, off) as u32,
                type_idx: le_u16(data, off + 2) as u32,
                name_idx: le_u32(data, off + 4),
            },
        )
    }

    /// Get method information.
    pub fn get_method_info(&self, method_idx: u32) -> (r: Result<MethodInfo, DexError>)
        ensures
            ok_as(r, get_method_info_spec(self.data@, self.header, method_idx)),
    {
        if method_idx >= self.header.method_ids_size {
            return Err(index_error("Method", method_idx));
        }
        let off64: u64 = self.header.method_ids_off as u64 + (method_idx as u64) * 8;
        let data = self.data.as_slice();
        if !in_bounds(data, off64, 8) {
            return Err(eof_error());
        }
        let off = off64 as usize;
        Ok(
            MethodInfo {
                class_idx: le_u16(data, off) as u32,
                proto_idx: le_u16(data, off + 2) as u32,
                name_idx: le_u32(data, off + 4),
            },
        )
    }

    /// Get method bytecode (instructions) from code_off.
    ///
    /// Offset zero stands for a method without code and gives no code units.
    pub fn get_method_bytecode(&self, code_off: u32) -> (r: Result<Vec<u16>, DexError>)
        ensures
            ok_view_as(r, get_method_bytecode_spec(self.data@, code_off)),
    {
        if code_off == 0 {
            return Ok(Vec::new());
        }
        let data = self.data.as_slice();
        if !in_bounds(data, code_off as u64, 16) {
            return Err(eof_error());
        }
        let off = code_off as usize;
        let insns_size = le_u32(data, off + 12);
        if !in_bounds(data, code_off as u64 + 16, 2 * (insns_size as u64)) {
            return Err(eof_error());
        }
        Ok(read_u16_array(data, off + 16, insns_size as usize))
    }

    /// Get prototype (method signature) information.
    pub fn get_proto_info(&self, proto_idx: u32) -> (r: Result<ProtoInfo, DexError>)
        ensures
            ok_view_as(r, get_proto_info_spec(self.data@, self.header, proto_idx)),
    {
        if proto_idx >= self.header.proto_ids_size {
            return Err(index_error("Proto", proto_idx));
        }
        let off64: u64 = self.header.proto_ids_off as u64 + (proto_idx as u64) * 12;
        let data = self.data.as_slice();
        if !in_bounds(data, off64, 12) {
            return Err(eof_error());
        }
        let off = off64 as usize;
        let return_type_idx = le_u32(data, off + 4);
        let parameters_off = le_u32(data, off + 8);
        let mut parameters: Vec<u32> = Vec::new();
        if parameters_off != 0 {
            if !in_bounds(data, parameters_off as u64, 4) {
                return Err(eof_error());
            }
            let size = le_u32(data, parameters_off as usize);
            if !in_bounds(data, parameters_off as u64 + 4, 2 * (size as u64)) {
                return Err(eof_error());
            }
            let words = read_u16_array(data, parameters_off as usize + 4, size as usize);
            let mut k: usize = 0;
            while k < words.len()
                invariant
                    k <= words@.len(),
                    parameters@.len() == k,
                    forall|j: int| 0 <= j < k ==> parameters@[j] == words@[j] as u32,
                decreases words@.len() - k,
            {
                parameters.push(words[k] as u32);
                k += 1;
            }
            assert(parameters@ =~= words@.map_values(|t: u16| t as u32));
        } else {
            assert(parameters@ =~= Seq::<u32>::empty());
        }
        Ok(ProtoInfo { return_type_idx, parameters })
    }
}

/// The bytes of an image determine its header.
pub proof fn lemma_header_unique(a: DexHeader, b: DexHeader, data: Seq<u8>)
    requires
        header_matches(a, data),
        header_matches(b, data),
    ensures
        a == b,
{
    reveal(header_matches);
    assert(a.magic =~= b.magic);
    assert(a.version =~= b.version);
    assert(a.signature =~= b.signature);
}

/// The header that `data` starts with.
pub open spec fn header_of(data: Seq<u8>) -> DexHeader {
    choose|header: DexHeader| header_matches(header, data)
}

} // verus!
