use apk_analyzer::apk::extractor::DexEntry;
use apk_analyzer::dex::bytecode::{
    decode_bytecode, decode_bytecode_checked, extract_constants, extract_method_calls, RustInstruction,
};
use apk_analyzer::dex::class_decompiler::{decompile_class, decompile_method, split_class_name};
use apk_analyzer::dex::container::DexContainer;
use apk_analyzer::dex::expression_builder::{ExpressionBuilder, RegisterValue};
use apk_analyzer::dex::filter::{ClassFilter, MethodFilter};
use apk_analyzer::dex::instruction::{Instruction, InstructionDecoder, Opcode};
use apk_analyzer::dex::method_resolver::{get_type_names, MethodResolver, MethodSignature};
use apk_analyzer::dex::models::RustDexClass;
use apk_analyzer::dex::parser::{DexParser, EncodedMethod};
use apk_analyzer::dex::search::DexSearcher;
use apk_analyzer::dex::DexError;

fn uleb(mut n: u32) -> Vec<u8> {
    let mut out = Vec::new();
    loop {
        let b = (n & 0x7f) as u8;
        n >>= 7;
        if n == 0 {
            out.push(b);
            return out;
        }
        out.push(b | 0x80);
    }
}

fn put32(buf: &mut Vec<u8>, at: usize, v: u32) {
    buf[at..at + 4].copy_from_slice(&v.to_le_bytes());
}

const STRINGS: [&str; 9] = [
    "Landroid/webkit/WebSettings;",
    "Lcom/example/Main;",
    "V",
    "Z",
    "onCreate",
    "setJavaScriptEnabled",
    "count",
    "I",
    "Ljava/lang/Object;",
];

/// A DEX image with one class `com.example.Main` (an instance field `count`
/// and a virtual method `onCreate()` with the code units given) and a
/// reference to `WebSettings.setJavaScriptEnabled(boolean)` as method 0.
fn sample_dex(code: &[u16]) -> Vec<u8> {
    let mut d = vec![0u8; 112];
    d[0..4].copy_from_slice(b"dex\n");
    d[4..8].copy_from_slice(b"035\0");
    let string_ids_off = d.len();
    d.extend(vec![0u8; 4 * STRINGS.len()]);
    let type_ids_off = d.len();
    for s in [0u32, 1, 2, 3, 7, 8] {
        d.extend(s.to_le_bytes());
    }
    let proto_ids_off = d.len();
    d.extend(vec![0u8; 24]);
    let field_ids_off = d.len();
    d.extend(1u16.to_le_bytes());
    d.extend(4u16.to_le_bytes());
    d.extend(6u32.to_le_bytes());
    let method_ids_off = d.len();
    d.extend(0u16.to_le_bytes());
    d.extend(0u16.to_le_bytes());
    d.extend(5u32.to_le_bytes());
    d.extend(1u16.to_le_bytes());
    d.extend(1u16.to_le_bytes());
    d.extend(4u32.to_le_bytes());
    let class_defs_off = d.len();
    d.extend(vec![0u8; 32]);
    let data_off = d.len();
    for (i, s) in STRINGS.iter().enumerate() {
        let at = d.len() as u32;
        put32(&mut d, string_ids_off + 4 * i, at);
        d.extend(uleb(s.len() as u32));
        d.extend(s.as_bytes());
        d.push(0);
    }
    while d.len() % 4 != 0 {
        d.push(0);
    }
    let params_off = d.len() as u32;
    d.extend(1u32.to_le_bytes());
    d.extend(3u16.to_le_bytes());
    d.extend(0u16.to_le_bytes());
    // proto 0: (Z)V, proto 1: ()V
    put32(&mut d, proto_ids_off, 2);
    put32(&mut d, proto_ids_off + 4, 2);
    put32(&mut d, proto_ids_off + 8, params_off);
    put32(&mut d, proto_ids_off + 12, 2);
    put32(&mut d, proto_ids_off + 16, 2);
    put32(&mut d, proto_ids_off + 20, 0);
    let code_off = d.len() as u32;
    d.extend(2u16.to_le_bytes());
    d.extend(1u16.to_le_bytes());
    d.extend(2u16.to_le_bytes());
    d.extend(0u16.to_le_bytes());
    d.extend(0u32.to_le_bytes());
    d.extend((code.len() as u32).to_le_bytes());
    for w in code {
        d.extend(w.to_le_bytes());
    }
    let class_data_off = d.len() as u32;
    d.extend(uleb(0));
    d.extend(uleb(1));
    d.extend(uleb(0));
    d.extend(uleb(1));
    d.extend(uleb(0));
    d.extend(uleb(2));
    d.extend(uleb(1));
    d.extend(uleb(1));
    d.extend(uleb(code_off));
    put32(&mut d, class_defs_off, 1);
    put32(&mut d, class_defs_off + 4, 0x11);
    put32(&mut d, class_defs_off + 8, 5);
    put32(&mut d, class_defs_off + 16, 0xFFFF_FFFF);
    put32(&mut d, class_defs_off + 24, class_data_off);
    let total = d.len() as u32;
    put32(&mut d, 32, total);
    put32(&mut d, 36, 112);
    put32(&mut d, 40, 0x12345678);
    put32(&mut d, 56, STRINGS.len() as u32);
    put32(&mut d, 60, string_ids_off as u32);
    put32(&mut d, 64, 6);
    put32(&mut d, 68, type_ids_off as u32);
    put32(&mut d, 72, 2);
    put32(&mut d, 76, proto_ids_off as u32);
    put32(&mut d, 80, 1);
    put32(&mut d, 84, field_ids_off as u32);
    put32(&mut d, 88, 2);
    put32(&mut d, 92, method_ids_off as u32);
    put32(&mut d, 96, 1);
    put32(&mut d, 100, class_defs_off as u32);
    put32(&mut d, 104, total - data_off as u32);
    put32(&mut d, 108, data_off as u32);
    d
}

/// `const/4 v1, #1` then `invoke-virtual {v0, v1}, method@0`.
const ENABLE_JS: [u16; 4] = [0x1112, 0x206e, 0x0000, 0x0001];

fn message(e: DexError) -> String {
    e.message()
}

#[test]
fn header_is_read_little_endian() {
    let data = sample_dex(&ENABLE_JS);
    let parser = DexParser::new(data.clone()).unwrap();
    let header = parser.header();
    assert_eq!(&header.magic, b"dex\n");
    assert_eq!(&header.version, b"035\0");
    assert_eq!(header.header_size, 112);
    assert_eq!(header.endian_tag, 0x12345678);
    assert_eq!(header.file_size as usize, data.len());
    assert_eq!(header.string_ids_size, 9);
    assert_eq!(header.string_ids_off, 112);
    assert_eq!(header.type_ids_size, 6);
    assert_eq!(header.type_ids_off, 112 + 36);
    assert_eq!(header.method_ids_size, 2);
    assert_eq!(header.class_defs_size, 1);
    assert_eq!(parser.class_count(), 1);
    assert_eq!(header.data_off + header.data_size, header.file_size);
    assert_eq!(header.signature, [0u8; 20]);
}

#[test]
fn header_faults() {
    let good = sample_dex(&[]);
    assert_eq!(message(DexParser::new(vec![0u8; 111]).err().unwrap()), "Invalid DEX file: File too small");
    assert_eq!(message(DexParser::new(vec![]).err().unwrap()), "Invalid DEX file: File too small");
    let mut bad_magic = good.clone();
    bad_magic[3] = b'x';
    assert_eq!(
        message(DexParser::new(bad_magic).err().unwrap()),
        "Invalid DEX file: Invalid magic: [100, 101, 120, 120]"
    );
    let mut bad_size = good.clone();
    put32(&mut bad_size, 36, 113);
    assert_eq!(
        message(DexParser::new(bad_size).err().unwrap()),
        "Invalid DEX file: Invalid header size: 113 (expected 112)"
    );
    let mut swapped = good.clone();
    put32(&mut swapped, 40, 0x78563412);
    assert_eq!(
        message(DexParser::new(swapped).err().unwrap()),
        "Invalid DEX file: Invalid endian tag: 2018915346"
    );
    // an unknown version is accepted
    let mut future = good.clone();
    future[4..8].copy_from_slice(b"099\0");
    assert!(DexParser::new(future).is_ok());
    // the magic is looked at before the header size
    let mut both = good;
    both[0] = 0;
    put32(&mut both, 36, 0);
    assert!(message(DexParser::new(both).err().unwrap()).starts_with("Invalid DEX file: Invalid magic: [0, "));
}

#[test]
fn strings_and_types() {
    let parser = DexParser::new(sample_dex(&ENABLE_JS)).unwrap();
    for (i, s) in STRINGS.iter().enumerate() {
        assert_eq!(parser.get_string(i as u32).unwrap(), *s);
    }
    assert_eq!(message(parser.get_string(9).err().unwrap()), "Failed to parse DEX file: String index 9 out of bounds");
    assert_eq!(parser.get_type_name(0).unwrap(), "android.webkit.WebSettings");
    assert_eq!(parser.get_type_name(1).unwrap(), "com.example.Main");
    assert_eq!(parser.get_type_name(2).unwrap(), "void");
    assert_eq!(parser.get_type_name(3).unwrap(), "boolean");
    assert_eq!(parser.get_type_name(4).unwrap(), "int");
    assert_eq!(parser.get_type_name(5).unwrap(), "java.lang.Object");
    assert_eq!(message(parser.get_type_name(6).err().unwrap()), "Failed to parse DEX file: Type index 6 out of bounds");
    assert_eq!(
        message(parser.get_type_name(u32::MAX).err().unwrap()),
        "Failed to parse DEX file: Type index 4294967295 out of bounds"
    );
    let names = get_type_names(&parser, &vec![3, 4, 0]).unwrap();
    assert_eq!(names, vec!["boolean", "int", "android.webkit.WebSettings"]);
    assert!(get_type_names(&parser, &vec![3, 6, 77]).err().unwrap().message().contains("Type index 6 "));
    assert_eq!(get_type_names(&parser, &vec![]).unwrap(), Vec::<String>::new());
}

#[test]
fn string_faults() {
    let mut data = sample_dex(&[]);
    let first = u32::from_le_bytes([data[112], data[113], data[114], data[115]]) as usize;
    // a byte that is no UTF-8
    let mut not_utf8 = data.clone();
    not_utf8[first + 1] = 0xFF;
    let parser = DexParser::new(not_utf8).unwrap();
    assert_eq!(message(parser.get_string(0).err().unwrap()), "Failed to parse DEX file: Invalid UTF-8");
    // a string offset beyond the image
    let len = data.len() as u32;
    put32(&mut data, 112, len);
    let parser = DexParser::new(data.clone()).unwrap();
    assert_eq!(message(parser.get_string(0).err().unwrap()), "IO error: failed to fill whole buffer");
    // a string without its terminator
    put32(&mut data, 112, len);
    data.extend([3, b'a', b'b', b'c']);
    let parser = DexParser::new(data.clone()).unwrap();
    assert_eq!(message(parser.get_string(0).err().unwrap()), "IO error: failed to fill whole buffer");
    data.push(0);
    let parser = DexParser::new(data.clone()).unwrap();
    assert_eq!(parser.get_string(0).unwrap(), "abc");
    // the length before a string is not used
    data[len as usize] = 0x7f;
    let parser = DexParser::new(data.clone()).unwrap();
    assert_eq!(parser.get_string(0).unwrap(), "abc");
    // a string id table that lies beyond the image
    put32(&mut data, 60, 0xFFFF_FFF0);
    let parser = DexParser::new(data).unwrap();
    assert_eq!(message(parser.get_string(8).err().unwrap()), "IO error: failed to fill whole buffer");
}

#[test]
fn multi_byte_strings() {
    let mut data = sample_dex(&[]);
    let at = data.len() as u32;
    put32(&mut data, 112, at);
    let text = "h\u{e9}llo \u{4e16}\u{754c} \u{1F600}";
    data.push(9);
    data.extend(text.as_bytes());
    data.push(0);
    let parser = DexParser::new(data).unwrap();
    assert_eq!(parser.get_string(0).unwrap(), text);
}

#[test]
fn uleb128_numbers() {
    let parse = |bytes: &[u8]| {
        let mut data = sample_dex(&[]);
        let at = data.len();
        data.extend(bytes);
        let parser = DexParser::new(data).unwrap();
        parser.read_uleb128(at).map(|(v, next)| (v, next - at))
    };
    assert_eq!(parse(&[0x00]).unwrap(), (0, 1));
    assert_eq!(parse(&[0x7f]).unwrap(), (127, 1));
    assert_eq!(parse(&[0x80, 0x01]).unwrap(), (128, 2));
    assert_eq!(parse(&[0xe5, 0x8e, 0x26]).unwrap(), (624485, 3));
    assert_eq!(parse(&[0xff, 0xff, 0xff, 0xff, 0x0f]).unwrap(), (u32::MAX, 5));
    // bits beyond the 32nd are dropped
    assert_eq!(parse(&[0xff, 0xff, 0xff, 0xff, 0x7f]).unwrap(), (u32::MAX, 5));
    assert_eq!(parse(&[0x80, 0x80, 0x80, 0x80, 0x10]).unwrap(), (0, 5));
    // reading stops at the first byte below 0x80
    assert_eq!(parse(&[0x01, 0xff]).unwrap(), (1, 1));
    assert_eq!(message(parse(&[0x80, 0x80, 0x80, 0x80, 0x80, 0x00]).err().unwrap()), "Failed to parse DEX file: ULEB128 overflow");
    assert_eq!(message(parse(&[0x80, 0x80]).err().unwrap()), "IO error: failed to fill whole buffer");
    assert_eq!(message(parse(&[]).err().unwrap()), "IO error: failed to fill whole buffer");
    let parser = DexParser::new(sample_dex(&[])).unwrap();
    assert!(parser.read_uleb128(usize::MAX).is_err());
}

#[test]
fn pool_records() {
    let parser = DexParser::new(sample_dex(&ENABLE_JS)).unwrap();
    let class_def = parser.get_class_def(0).unwrap();
    assert_eq!(class_def.class_idx, 1);
    assert_eq!(class_def.access_flags, 0x11);
    assert_eq!(class_def.superclass_idx, 5);
    assert_eq!(class_def.interfaces_off, 0);
    assert_eq!(class_def.source_file_idx, 0xFFFF_FFFF);
    assert_eq!(class_def.static_values_off, 0);
    assert_eq!(message(parser.get_class_def(1).err().unwrap()), "Failed to parse DEX file: Class index 1 out of bounds");
    let field = parser.get_field_info(0).unwrap();
    assert_eq!((field.class_idx, field.type_idx, field.name_idx), (1, 4, 6));
    assert_eq!(message(parser.get_field_info(1).err().unwrap()), "Failed to parse DEX file: Field index 1 out of bounds");
    let m0 = parser.get_method_info(0).unwrap();
    assert_eq!((m0.class_idx, m0.proto_idx, m0.name_idx), (0, 0, 5));
    let m1 = parser.get_method_info(1).unwrap();
    assert_eq!((m1.class_idx, m1.proto_idx, m1.name_idx), (1, 1, 4));
    assert_eq!(message(parser.get_method_info(2).err().unwrap()), "Failed to parse DEX file: Method index 2 out of bounds");
    let p0 = parser.get_proto_info(0).unwrap();
    assert_eq!((p0.return_type_idx, p0.parameters), (2, vec![3]));
    let p1 = parser.get_proto_info(1).unwrap();
    assert_eq!((p1.return_type_idx, p1.parameters), (2, vec![]));
    assert_eq!(message(parser.get_proto_info(2).err().unwrap()), "Failed to parse DEX file: Proto index 2 out of bounds");
}

#[test]
fn truncated_pools() {
    let mut data = sample_dex(&ENABLE_JS);
    // more methods claimed than the image holds
    put32(&mut data, 88, 0x2000_0000);
    put32(&mut data, 96, 0x0800_0000);
    put32(&mut data, 72, 0x1000_0000);
    put32(&mut data, 80, 0x2000_0000);
    let parser = DexParser::new(data).unwrap();
    assert_eq!(message(parser.get_method_info(0x1FFF_FFFF).err().unwrap()), "IO error: failed to fill whole buffer");
    assert_eq!(message(parser.get_class_def(0x07FF_FFFF).err().unwrap()), "IO error: failed to fill whole buffer");
    assert_eq!(message(parser.get_proto_info(0x0FFF_FFFF).err().unwrap()), "IO error: failed to fill whole buffer");
    assert_eq!(message(parser.get_field_info(0x1FFF_FFFF).err().unwrap()), "IO error: failed to fill whole buffer");
    assert!(parser.get_method_info(1).is_ok());
}

#[test]
fn class_data_lists() {
    let data = sample_dex(&ENABLE_JS);
    let parser = DexParser::new(data.clone()).unwrap();
    let class_def = parser.get_class_def(0).unwrap();
    let class_data = parser.parse_class_data(class_def.class_data_off).unwrap();
    assert!(class_data.static_fields.is_empty());
    assert_eq!(class_data.instance_fields.len(), 1);
    assert_eq!((class_data.instance_fields[0].field_idx, class_data.instance_fields[0].access_flags), (0, 2));
    assert!(class_data.direct_methods.is_empty());
    assert_eq!(class_data.virtual_methods.len(), 1);
    assert_eq!(class_data.virtual_methods[0].method_idx, 1);
    assert_eq!(class_data.virtual_methods[0].access_flags, 1);
    assert!(class_data.virtual_methods[0].code_off > 0);
    // offset zero stands for no class data
    let none = parser.parse_class_data(0).unwrap();
    assert!(none.static_fields.is_empty() && none.instance_fields.is_empty());
    assert!(none.direct_methods.is_empty() && none.virtual_methods.is_empty());
    assert!(parser.parse_class_data(data.len() as u32).is_err());
}

#[test]
fn delta_decoding_accumulates_per_list() {
    let mut data = sample_dex(&[]);
    let at = data.len() as u32;
    // 2 static fields, 3 instance fields, 2 direct methods, 3 virtual methods
    for n in [2u32, 3, 2, 3] {
        data.extend(uleb(n));
    }
    for (delta, flags) in [(5u32, 8u32), (3, 9)] {
        data.extend(uleb(delta));
        data.extend(uleb(flags));
    }
    for (delta, flags) in [(1u32, 1u32), (1, 2), (200, 4)] {
        data.extend(uleb(delta));
        data.extend(uleb(flags));
    }
    for (delta, flags, code) in [(7u32, 0x10001u32, 0u32), (1, 2, 300)] {
        data.extend(uleb(delta));
        data.extend(uleb(flags));
        data.extend(uleb(code));
    }
    for (delta, flags, code) in [(0u32, 1u32, 0u32), (0, 1, 0), (4, 1, 0)] {
        data.extend(uleb(delta));
        data.extend(uleb(flags));
        data.extend(uleb(code));
    }
    let parser = DexParser::new(data).unwrap();
    let class_data = parser.parse_class_data(at).unwrap();
    let fields = |v: &Vec<apk_analyzer::dex::parser::EncodedField>| v.iter().map(|f| f.field_idx).collect::<Vec<_>>();
    let methods = |v: &Vec<EncodedMethod>| v.iter().map(|m| m.method_idx).collect::<Vec<_>>();
    assert_eq!(fields(&class_data.static_fields), vec![5, 8]);
    assert_eq!(fields(&class_data.instance_fields), vec![1, 2, 202]);
    assert_eq!(methods(&class_data.direct_methods), vec![7, 8]);
    // a delta of zero repeats the index: the list is not strictly increasing
    assert_eq!(methods(&class_data.virtual_methods), vec![0, 0, 4]);
    assert_eq!(class_data.direct_methods[1].code_off, 300);
    assert_eq!(class_data.direct_methods[0].access_flags, 0x10001);
    for ids in [fields(&class_data.static_fields), fields(&class_data.instance_fields), methods(&class_data.direct_methods)] {
        assert!(ids.windows(2).all(|w| w[0] < w[1]));
    }
    assert!(methods(&class_data.virtual_methods).windows(2).all(|w| w[0] <= w[1]));
}

#[test]
fn class_data_faults() {
    let build = |tail: &[u8]| {
        let mut data = sample_dex(&[]);
        let at = data.len() as u32;
        data.extend(tail);
        (DexParser::new(data).unwrap(), at)
    };
    // one static field is announced, the image ends
    let (parser, at) = build(&[1, 0, 0, 0]);
    assert_eq!(message(parser.parse_class_data(at).err().unwrap()), "IO error: failed to fill whole buffer");
    // the second delta leads past the largest index
    let mut tail = vec![2, 0, 0, 0];
    tail.extend(uleb(u32::MAX));
    tail.push(0);
    tail.extend(uleb(1));
    tail.push(0);
    let (parser, at) = build(&tail);
    assert_eq!(message(parser.parse_class_data(at).err().unwrap()), "Failed to parse DEX file: Index delta overflow");
    // a count that runs over five bytes
    let (parser, at) = build(&[0x80, 0x80, 0x80, 0x80, 0x80, 0x01]);
    assert_eq!(message(parser.parse_class_data(at).err().unwrap()), "Failed to parse DEX file: ULEB128 overflow");
}

#[test]
fn method_bytecode() {
    let data = sample_dex(&ENABLE_JS);
    let parser = DexParser::new(data.clone()).unwrap();
    let class_data = parser.parse_class_data(parser.get_class_def(0).unwrap().class_data_off).unwrap();
    let code_off = class_data.virtual_methods[0].code_off;
    assert_eq!(parser.get_method_bytecode(code_off).unwrap(), ENABLE_JS.to_vec());
    // offset zero: a method without code
    assert_eq!(parser.get_method_bytecode(0).unwrap(), Vec::<u16>::new());
    assert!(parser.get_method_bytecode(data.len() as u32 - 8).is_err());
    assert!(parser.get_method_bytecode(u32::MAX).is_err());
    // a code item that announces more units than the image holds
    let mut long = data.clone();
    put32(&mut long, code_off as usize + 12, 0x7FFF_FFFF);
    let parser = DexParser::new(long).unwrap();
    assert_eq!(message(parser.get_method_bytecode(code_off).err().unwrap()), "IO error: failed to fill whole buffer");
    // words are read low byte first
    let other = DexParser::new(sample_dex(&[0x0102, 0xA0B0])).unwrap();
    let class_data = other.parse_class_data(other.get_class_def(0).unwrap().class_data_off).unwrap();
    assert_eq!(other.get_method_bytecode(class_data.virtual_methods[0].code_off).unwrap(), vec![0x0102, 0xA0B0]);
}

#[test]
fn resolve_method_signatures() {
    let resolver = MethodResolver::new(DexParser::new(sample_dex(&ENABLE_JS)).unwrap());
    let sig = resolver.resolve(0).unwrap();
    assert_eq!(sig.class_name, "android.webkit.WebSettings");
    assert_eq!(sig.method_name, "setJavaScriptEnabled");
    assert_eq!(sig.parameters, vec!["boolean"]);
    assert_eq!(sig.return_type, "void");
    assert_eq!(sig.full_signature, "android.webkit.WebSettings.setJavaScriptEnabled(boolean): void");
    let main = resolver.resolve(1).unwrap();
    assert_eq!(main.full_signature, "com.example.Main.onCreate(): void");
    assert!(!main.is_webview_method());
    assert_eq!(message(resolver.resolve(2).err().unwrap()), "Failed to parse DEX file: Method index 2 out of bounds");
    assert_eq!(resolver.resolve_string(4).unwrap(), "onCreate");
    assert!(resolver.resolve_string(100).is_err());
    let many = resolver.resolve_many(&[1, 7, 0]);
    assert_eq!(many.len(), 3);
    assert_eq!(many[0].as_ref().unwrap().method_name, "onCreate");
    assert!(many[1].is_err());
    assert_eq!(many[2].as_ref().unwrap().method_name, "setJavaScriptEnabled");
}

#[test]
fn const4_loads() {
    // const/4 vA, #+B is the code unit B|A|0x12
    let one = InstructionDecoder::decode(&[0x1012]);
    assert_eq!(one.len(), 1);
    assert!(matches!(one[0], Instruction::Const4 { dest: 0, value: 1 }));
    let minus_one = InstructionDecoder::decode(&[0xF012]);
    assert!(matches!(minus_one[0], Instruction::Const4 { dest: 0, value: -1 }));
    let minus_eight = InstructionDecoder::decode(&[0x8f12]);
    assert!(matches!(minus_eight[0], Instruction::Const4 { dest: 15, value: -8 }));
    let seven = InstructionDecoder::decode(&[0x7312]);
    assert!(matches!(seven[0], Instruction::Const4 { dest: 3, value: 7 }));
}

#[test]
fn test_const4_decode() {
    // the opcode is the low byte of the code unit: 0x01 is `move`, which is
    // kept as an unknown instruction of one unit
    let bytecode = vec![0x1201];
    let instructions = InstructionDecoder::decode(&bytecode);

    assert_eq!(instructions.len(), 1);
    match &instructions[0] {
        Instruction::Unknown { opcode, data } => {
            assert_eq!(*opcode, 0x01);
            assert_eq!(data, &vec![0x1201]);
        }
        _ => panic!("Expected Unknown instruction"),
    }
}

#[test]
fn test_const4_negative() {
    let bytecode = vec![0xF201];
    let instructions = InstructionDecoder::decode(&bytecode);

    assert_eq!(instructions.len(), 1);
    match &instructions[0] {
        Instruction::Unknown { opcode, data } => {
            assert_eq!(*opcode, 0x01);
            assert_eq!(data, &vec![0xF201]);
        }
        _ => panic!("Expected Unknown instruction"),
    }
}

#[test]
fn wide_constants_and_strings() {
    let insns = InstructionDecoder::decode(&[0x0513, 0xFFFE, 0x0714, 0x5678, 0x1234, 0x0914, 0x0000, 0x8000, 0x021a, 0xBEEF]);
    assert_eq!(insns.len(), 4);
    assert!(matches!(insns[0], Instruction::Const16 { dest: 5, value: -2 }));
    assert!(matches!(insns[1], Instruction::Const { dest: 7, value: 0x12345678 }));
    assert!(matches!(insns[2], Instruction::Const { dest: 9, value: i32::MIN }));
    assert!(matches!(insns[3], Instruction::ConstString { dest: 2, string_idx: 0xBEEF }));
    let max = InstructionDecoder::decode(&[0xFF13, 0x7FFF, 0x0013, 0x8000]);
    assert!(matches!(max[0], Instruction::Const16 { dest: 255, value: i16::MAX }));
    assert!(matches!(max[1], Instruction::Const16 { dest: 0, value: i16::MIN }));
}

#[test]
fn invokes() {
    let kinds: [(u16, fn(&Instruction) -> Option<(Vec<u8>, u32)>); 5] = [
        (0x6e, |i| if let Instruction::InvokeVirtual { args, method_idx } = i { Some((args.clone(), *method_idx)) } else { None }),
        (0x6f, |i| if let Instruction::InvokeSuper { args, method_idx } = i { Some((args.clone(), *method_idx)) } else { None }),
        (0x70, |i| if let Instruction::InvokeDirect { args, method_idx } = i { Some((args.clone(), *method_idx)) } else { None }),
        (0x71, |i| if let Instruction::InvokeStatic { args, method_idx } = i { Some((args.clone(), *method_idx)) } else { None }),
        (0x72, |i| if let Instruction::InvokeInterface { args, method_idx } = i { Some((args.clone(), *method_idx)) } else { None }),
    ];
    for (op, pick) in kinds {
        // five registers: v9 from the opcode unit, then v1, v2, v3, v4
        let insns = InstructionDecoder::decode(&[0x5900 | op, 0x0102, 0x4321]);
        assert_eq!(insns.len(), 1);
        assert_eq!(pick(&insns[0]), Some((vec![9, 1, 2, 3, 4], 0x0102)));
        let none = InstructionDecoder::decode(&[op, 7, 0xFFFF]);
        assert_eq!(pick(&none[0]), Some((vec![], 7)));
        let two = InstructionDecoder::decode(&[0x2a00 | op, 7, 0xFFFB]);
        assert_eq!(pick(&two[0]), Some((vec![10, 11], 7)));
        // a count above five gives no more than the five registers there are
        let many = InstructionDecoder::decode(&[0xF000 | op, 7, 0x8765]);
        assert_eq!(pick(&many[0]), Some((vec![0, 5, 6, 7, 8], 7)));
    }
    let range = InstructionDecoder::decode(&[0x0374, 0x0010, 0x0100, 0xFF77, 0xFFFF, 0x0002]);
    assert!(matches!(range[0], Instruction::InvokeVirtualRange { first_arg: 0x100, arg_count: 3, method_idx: 0x10 }));
    assert!(matches!(range[1], Instruction::InvokeStaticRange { first_arg: 2, arg_count: 255, method_idx: 0xFFFF }));
    // the other range invokes are not decoded
    let others = InstructionDecoder::decode(&[0x0375, 0x0276, 0x0178]);
    assert_eq!(others.len(), 3);
    assert!(others.iter().all(|i| matches!(i, Instruction::Unknown { .. })));
}

fn width(insn: &Instruction) -> usize {
    match insn {
        Instruction::Const4 { .. } => 1,
        Instruction::Const16 { .. } | Instruction::ConstString { .. } => 2,
        Instruction::Unknown { data, .. } => data.len(),
        _ => 3,
    }
}

#[test]
fn truncated_streams() {
    for (code, opcode) in [
        (vec![0x0013u16], 0x13u8),
        (vec![0x0014], 0x14),
        (vec![0x0014, 1], 0x14),
        (vec![0x001a], 0x1a),
        (vec![0x106e], 0x6e),
        (vec![0x1071, 5], 0x71),
        (vec![0x0174, 5], 0x74),
        (vec![0x0177], 0x77),
    ] {
        let insns = InstructionDecoder::decode(&code);
        assert_eq!(insns.len(), 1);
        match &insns[0] {
            Instruction::Unknown { opcode: op, data } => {
                assert_eq!(*op, opcode);
                assert_eq!(data, &code);
            }
            other => panic!("expected an unknown instruction, got {:?}", other),
        }
    }
    // what stands before the cut is decoded as usual
    let insns = InstructionDecoder::decode(&[0x1012, 0x0000, 0x0013]);
    assert_eq!(insns.len(), 3);
    assert!(matches!(insns[0], Instruction::Const4 { dest: 0, value: 1 }));
    assert!(matches!(&insns[1], Instruction::Unknown { opcode: 0, .. }));
    assert!(matches!(&insns[2], Instruction::Unknown { opcode: 0x13, .. }));
    assert!(InstructionDecoder::decode(&[]).is_empty());
}

#[test]
fn decoding_preserves_length() {
    let mut seed: u32 = 0x2545F491;
    for round in 0..200 {
        let len = round % 17;
        let mut code = Vec::new();
        for _ in 0..len {
            seed ^= seed << 13;
            seed ^= seed >> 17;
            seed ^= seed << 5;
            let op = [0x12u32, 0x13, 0x14, 0x1a, 0x6e, 0x6f, 0x70, 0x71, 0x72, 0x74, 0x77, 0x00, 0x0e, 0xff][(seed % 14) as usize];
            code.push((((seed >> 8) & 0xFF00) | op) as u16);
        }
        let insns = InstructionDecoder::decode(&code);
        assert_eq!(insns.iter().map(width).sum::<usize>(), code.len());
    }
}

#[test]
fn opcode_table() {
    assert_eq!(Opcode::from_u8(0x00), Opcode::Nop);
    assert_eq!(Opcode::from_u8(0x12), Opcode::Const4);
    assert_eq!(Opcode::from_u8(0x1a), Opcode::ConstString);
    assert_eq!(Opcode::from_u8(0x3d), Opcode::IfLez);
    assert_eq!(Opcode::from_u8(0x44), Opcode::Aget);
    assert_eq!(Opcode::from_u8(0x6e), Opcode::InvokeVirtual);
    assert_eq!(Opcode::from_u8(0x72), Opcode::InvokeInterface);
    assert_eq!(Opcode::from_u8(0x74), Opcode::InvokeVirtualRange);
    assert_eq!(Opcode::from_u8(0x78), Opcode::InvokeInterfaceRange);
    assert_eq!(Opcode::from_u8(0x7b), Opcode::NegInt);
    assert_eq!(Opcode::from_u8(0x90), Opcode::AddInt);
    assert_eq!(Opcode::from_u8(0xd1), Opcode::RsubInt);
    assert_eq!(Opcode::from_u8(0xe2), Opcode::UshrIntLit8);
    for unassigned in [0x3eu8, 0x43, 0x73, 0x79, 0x7a, 0xe3, 0xfa, 0xff] {
        assert_eq!(Opcode::from_u8(unassigned), Opcode::Unknown);
    }
    let mut known = 0;
    for b in 0..=255u8 {
        if Opcode::from_u8(b) != Opcode::Unknown {
            known += 1;
        }
    }
    assert_eq!(known, 218);
}

#[test]
fn instruction_text() {
    let text = |code: &[u16]| InstructionDecoder::decode(code)[0].to_text();
    assert_eq!(text(&[0x1012]), "const/4 v0, #1");
    assert_eq!(text(&[0xF312]), "const/4 v3, #-1");
    assert_eq!(text(&[0x0513, 0x8000]), "const/16 v5, #-32768");
    assert_eq!(text(&[0xFF14, 0x0000, 0x8000]), "const v255, #-2147483648");
    assert_eq!(text(&[0x0014, 0xFFFF, 0x7FFF]), "const v0, #2147483647");
    assert_eq!(text(&[0x021a, 0x0010]), "const-string v2, string@16");
    assert_eq!(text(&[0x206e, 3, 0x0001]), "invoke-virtual {v0, v1}, method@3");
    assert_eq!(text(&[0x006f, 3, 0]), "invoke-super {v}, method@3");
    assert_eq!(text(&[0x1c70, 65535, 0]), "invoke-direct {v12}, method@65535");
    assert_eq!(text(&[0x5071, 0, 0xFEDC]), "invoke-static {v0, v12, v13, v14, v15}, method@0");
    assert_eq!(text(&[0x1072, 9, 0]), "invoke-interface {v0}, method@9");
    assert_eq!(text(&[0x0374, 1, 10]), "invoke-virtual/range {v10 .. v12}, method@1");
    assert_eq!(text(&[0x0177, 1, 0]), "invoke-static/range {v0 .. v0}, method@1");
    assert_eq!(text(&[0x000e]), "unknown (opcode: 0x0e)");
    assert_eq!(text(&[0x12ff]), "unknown (opcode: 0xff)");
    assert_eq!(InstructionDecoder::decode(&[0x1012])[0].mnemonic(), "const/4");
    let empty_range = &InstructionDecoder::decode(&[0x0074, 0, 0])[0];
    assert!(!empty_range.range_is_nameable());
    let past_end = &InstructionDecoder::decode(&[0x0274, 0, 0xFFFF])[0];
    assert!(!past_end.range_is_nameable());
    let last = &InstructionDecoder::decode(&[0x0174, 0, 0xFFFE])[0];
    assert!(last.range_is_nameable());
    assert_eq!(last.to_text(), "invoke-virtual/range {v65534 .. v65534}, method@0");
}

#[test]
fn instruction_records() {
    let records = decode_bytecode(vec![0x1012, 0x021a, 0x0010, 0x206e, 3, 0x0001, 0x0374, 1, 0xFE, 0x000e]);
    assert_eq!(records.len(), 5);
    assert_eq!(records[0].opcode, "const/4");
    assert_eq!((records[0].dest, records[0].value), (Some(0), Some(1)));
    assert_eq!(records[0].raw, "const/4 v0, #1");
    assert!(records[0].is_const() && !records[0].is_invoke());
    assert_eq!(records[0].get_boolean_value(), Some(true));
    assert_eq!(records[1].opcode, "const-string");
    assert_eq!((records[1].dest, records[1].value, records[1].string_idx), (Some(2), None, Some(16)));
    assert_eq!(records[1].get_boolean_value(), None);
    assert!(records[1].is_const());
    assert_eq!(records[2].opcode, "invoke-virtual");
    assert_eq!((records[2].method_idx, records[2].args.clone()), (Some(3), vec![0, 1]));
    assert!(records[2].is_invoke());
    // the registers of a range are cut to eight bits
    assert_eq!(records[3].args, vec![0xFE, 0xFF, 0x00]);
    assert_eq!(records[3].raw, "invoke-virtual/range {v254 .. v256}, method@1");
    assert_eq!(records[4].opcode, "unknown(0x0e)");
    assert_eq!(records[4].raw, "unknown (opcode: 0x0e)");
    assert!(!records[4].is_const() && !records[4].is_invoke());
    let zero = RustInstruction::from(&Instruction::Const4 { dest: 1, value: 0 });
    assert_eq!(zero.get_boolean_value(), Some(false));
    let wide = RustInstruction::from(&Instruction::Const16 { dest: 1, value: 1 });
    assert_eq!(wide.get_boolean_value(), None);
    assert_eq!(extract_constants(vec![0x1012, 0x0513, 0xFFFE, 0x000e, 0x0714, 0x5678, 0x1234, 0x021a, 1]), vec![1, -2, 0x12345678]);
    assert_eq!(extract_method_calls(vec![0x206e, 3, 1, 0x1012, 0x0077, 9, 0, 0x0075, 0x0072, 4, 0]), vec![3, 9, 4]);
    assert_eq!(extract_constants(vec![]), Vec::<i64>::new());
    assert_eq!(decode_bytecode_checked(vec![0x1012, 0x0374, 1, 10]).unwrap().len(), 2);
    assert!(decode_bytecode_checked(vec![0x1012, 0x0074, 1, 0]).is_none());
    assert!(decode_bytecode_checked(vec![0x0177, 1, 0xFFFF]).is_none());
    assert!(decode_bytecode_checked(vec![]).unwrap().is_empty());
}

#[test]
fn register_value_text() {
    assert_eq!(RegisterValue::Unknown.format(), "?");
    assert_eq!(RegisterValue::ConstInt(0).format(), "false");
    assert_eq!(RegisterValue::ConstInt(1).format(), "true");
    assert_eq!(RegisterValue::ConstInt(2).format(), "2");
    assert_eq!(RegisterValue::ConstInt(-1).format(), "-1");
    assert_eq!(RegisterValue::ConstInt(i64::MIN).format(), "-9223372036854775808");
    assert_eq!(RegisterValue::ConstInt(i64::MAX).format(), "9223372036854775807");
    assert_eq!(RegisterValue::ConstString("a b".to_string()).format(), "\"a b\"");
    assert_eq!(RegisterValue::This.format(), "this");
    assert_eq!(RegisterValue::Parameter(12).format(), "param12");
    assert_eq!(RegisterValue::ConstInt(0).is_boolean(), Some(false));
    assert_eq!(RegisterValue::ConstInt(1).is_boolean(), Some(true));
    assert_eq!(RegisterValue::ConstInt(2).is_boolean(), None);
    assert_eq!(RegisterValue::This.is_boolean(), None);
    let signature = MethodSignature {
        class_name: "a.B".to_string(),
        method_name: "call".to_string(),
        parameters: vec![],
        return_type: "void".to_string(),
        full_signature: "a.B.call(): void".to_string(),
    };
    let field = RegisterValue::FieldAccess {
        receiver: Box::new(RegisterValue::This),
        field_name: "view".to_string(),
        field_type: "android.webkit.WebView".to_string(),
    };
    assert_eq!(field.format(), "this.view");
    let inner = RegisterValue::MethodCall { receiver: Box::new(field), signature: signature.duplicate(), args: vec![] };
    assert_eq!(inner.format(), "this.view.call()");
    let outer = RegisterValue::MethodCall {
        receiver: Box::new(RegisterValue::Parameter(0)),
        signature,
        args: vec![RegisterValue::ConstInt(1), inner, RegisterValue::ConstString("x".to_string()), RegisterValue::Unknown],
    };
    assert_eq!(outer.format(), "param0.call(true, this.view.call(), \"x\", ?)");
}

#[test]
fn expression_reconstruction() {
    let data = sample_dex(&ENABLE_JS);
    let mut builder = ExpressionBuilder::new(DexParser::new(data.clone()).unwrap());
    let exprs = builder.process_bytecode(&ENABLE_JS).unwrap();
    assert_eq!(exprs.len(), 1);
    assert!(exprs[0].expression.ends_with(".setJavaScriptEnabled(true)"));
    assert_eq!(exprs[0].expression, "?.setJavaScriptEnabled(true)");
    assert_eq!(exprs[0].value_type, "void");
    assert!(exprs[0].is_method_call);
    assert_eq!(
        exprs[0].method_signature.as_deref(),
        Some("android.webkit.WebSettings.setJavaScriptEnabled(boolean): void")
    );
    assert_eq!(builder.pc, 2);
    // registers stay written from one run to the next
    let again = builder.process_bytecode(&[0x116e, 0x0000, 0x0000, 0x021a, 0x0004, 0x0113, 0xFFFF]).unwrap();
    assert_eq!(again.len(), 1);
    assert_eq!(again[0].expression, "true.setJavaScriptEnabled()");
    assert_eq!(builder.pc, 3);
    let third = builder.process_bytecode(&[0x3171, 0x0000, 0x0032]).unwrap();
    assert_eq!(third[0].expression, "-1.setJavaScriptEnabled(\"onCreate\", ?)");
}

#[test]
fn expressions_that_are_not_emitted() {
    let data = sample_dex(&ENABLE_JS);
    let run = |code: &[u16]| {
        let mut builder = ExpressionBuilder::new(DexParser::new(data.clone()).unwrap());
        builder.process_bytecode(code).unwrap()
    };
    // a call of Main.onCreate is not significant
    assert!(run(&[0x106e, 0x0001, 0x0000]).is_empty());
    // a method that does not resolve
    assert!(run(&[0x106e, 0x0002, 0x0000]).is_empty());
    // an invoke without registers
    assert!(run(&[0x006e, 0x0000, 0x0000]).is_empty());
    // range invokes are not reconstructed
    assert!(run(&[0x0174, 0x0000, 0x0000]).is_empty());
    // nothing to decode
    assert!(run(&[]).is_empty());
    // a string that does not resolve reads as unknown
    let exprs = run(&[0x001a, 0x00FF, 0x1071, 0x0000, 0x0000]);
    assert_eq!(exprs[0].expression, "?.setJavaScriptEnabled()");
    // a call is significant once its text names WebView
    let mut named = sample_dex(&[]);
    let at = named.len() as u32;
    put32(&mut named, 112 + 4 * 6, at);
    named.extend([7]);
    named.extend(b"WebView");
    named.push(0);
    let mut builder = ExpressionBuilder::new(DexParser::new(named).unwrap());
    let exprs = builder.process_bytecode(&[0x001a, 0x0006, 0x106e, 0x0001, 0x0000]).unwrap();
    assert_eq!(exprs.len(), 1);
    assert_eq!(exprs[0].expression, "\"WebView\".onCreate()");
    assert_eq!(exprs[0].method_signature.as_deref(), Some("com.example.Main.onCreate(): void"));
}

#[test]
fn decompiled_class() {
    let data = sample_dex(&ENABLE_JS);
    let parser = DexParser::new(data.clone()).unwrap();
    let class_def = parser.get_class_def(0).unwrap();
    let class = decompile_class(&parser, class_def, &data).unwrap();
    assert_eq!(class.class_name, "com.example.Main");
    assert_eq!(class.package, "com.example");
    assert_eq!(class.simple_name, "Main");
    assert_eq!(class.superclass.as_deref(), Some("java.lang.Object"));
    assert!(class.interfaces.is_empty());
    assert_eq!(class.fields, vec!["count: int"]);
    assert_eq!(class.access_flags, 0x11);
    assert!(class.is_public() && class.is_final() && !class.is_abstract());
    assert_eq!(class.methods.len(), 1);
    let method = &class.methods[0];
    assert_eq!(method.name, "onCreate");
    assert_eq!(method.signature, "onCreate(): void");
    assert!(method.is_public && !method.is_private && !method.is_static);
    assert_eq!(method.parameters, Vec::<String>::new());
    assert_eq!(method.return_type, "void");
    assert_eq!(method.bytecode_size, 4);
    assert_eq!(method.expressions.len(), 1);
    assert!(method.has_security_calls());
    assert_eq!(method.get_webview_expressions().len(), 0);
    assert_eq!(class.get_security_methods().len(), 1);
    assert_eq!(class.get_webview_methods().len(), 0);
    assert_eq!(class.get_summary(), "Class: com.example.Main\nMethods: 1\nSecurity-relevant: 1\nWebView usage: 0");
    // every class that is emitted has an index inside the type pool, every method inside the method pool
    assert!(class_def.class_idx < parser.header().type_ids_size);
    let class_data = parser.parse_class_data(class_def.class_data_off).unwrap();
    for m in class_data.direct_methods.iter().chain(class_data.virtual_methods.iter()) {
        if decompile_method(&parser, m, &data).is_ok() {
            assert!(m.method_idx < parser.header().method_ids_size);
        }
    }
}

#[test]
fn decompile_faults() {
    let data = sample_dex(&ENABLE_JS);
    let parser = DexParser::new(data.clone()).unwrap();
    let mut class_def = parser.get_class_def(0).unwrap();
    class_def.class_idx = 6;
    assert_eq!(
        decompile_class(&parser, class_def, &data).err().unwrap(),
        "Failed to parse DEX file: Type index 6 out of bounds"
    );
    // a root class, and class data that cannot be read
    let mut class_def = parser.get_class_def(0).unwrap();
    class_def.superclass_idx = 0xFFFF_FFFF;
    class_def.class_data_off = data.len() as u32;
    let class = decompile_class(&parser, class_def, &data).unwrap();
    assert_eq!(class.superclass, None);
    assert!(class.fields.is_empty() && class.methods.is_empty());
    let mut class_def = parser.get_class_def(0).unwrap();
    class_def.superclass_idx = 99;
    class_def.class_data_off = 0;
    let class = decompile_class(&parser, class_def, &data).unwrap();
    assert_eq!(class.superclass, None);
    assert!(class.methods.is_empty());
    let missing = EncodedMethod { method_idx: 2, access_flags: 1, code_off: 0 };
    assert_eq!(
        decompile_method(&parser, &missing, &data).err().unwrap(),
        "Failed to parse DEX file: Method index 2 out of bounds"
    );
    // without code there is nothing to reconstruct
    let no_code = EncodedMethod { method_idx: 0, access_flags: 0x0a, code_off: 0 };
    let method = decompile_method(&parser, &no_code, &data).unwrap();
    assert_eq!(method.signature, "setJavaScriptEnabled(boolean): void");
    assert!(!method.is_public && method.is_private && method.is_static);
    assert_eq!((method.bytecode_size, method.expressions.len()), (0, 0));
    // code that cannot be read counts as no code
    let bad_code = EncodedMethod { method_idx: 1, access_flags: 1, code_off: data.len() as u32 };
    let method = decompile_method(&parser, &bad_code, &data).unwrap();
    assert_eq!((method.bytecode_size, method.expressions.len()), (0, 0));
    // expressions are reconstructed on the image given; if that is none, there are none
    let class_data = parser.parse_class_data(parser.get_class_def(0).unwrap().class_data_off).unwrap();
    let method = decompile_method(&parser, &class_data.virtual_methods[0], &[]).unwrap();
    assert_eq!((method.bytecode_size, method.expressions.len()), (4, 0));
}

#[test]
fn class_name_splitting() {
    let split = |name: &str| {
        let (package, simple) = split_class_name(name);
        (package, simple)
    };
    let pair = |a: &str, b: &str| (a.to_string(), b.to_string());
    assert_eq!(split("Lcom/example/Foo;"), pair("com.example", "Foo"));
    assert_eq!(split("com.example.Foo"), pair("com.example", "Foo"));
    assert_eq!(split("Foo"), pair("", "Foo"));
    assert_eq!(split(""), pair("", ""));
    // only the descriptor form loses its `L` and its `;`
    assert_eq!(split("com.example.URL"), pair("com.example", "URL"));
    assert_eq!(split("Lcom/example/URL;"), pair("com.example", "URL"));
    assert_eq!(split("LinearLayout"), pair("", "LinearLayout"));
    assert_eq!(split("Layout.Linear"), pair("Layout", "Linear"));
    assert_eq!(split("Lcom/example/Foo"), pair("Lcom.example", "Foo"));
    assert_eq!(split("com/example/Foo;"), pair("com.example", "Foo;"));
    assert_eq!(split("L;"), pair("", ""));
    assert_eq!(split("a.b."), pair("a.b", ""));
    assert_eq!(RustDexClass::split_class_name("com.example.SQL"), pair("com.example", "SQL"));
    assert_eq!(RustDexClass::split_class_name("Landroid/text/HTML;"), pair("android.text", "HTML"));
    assert_eq!(RustDexClass::split_class_name("List"), pair("", "List"));
}

#[test]
fn container_extracts_classes() {
    let data = sample_dex(&ENABLE_JS);
    let container = DexContainer::new(vec![
        DexEntry::new("classes.dex".to_string(), 0, data.clone()),
        DexEntry::new("classes2.dex".to_string(), 1, data.clone()),
    ]);
    assert_eq!(container.entries().len(), 2);
    let classes = container.extract_all_classes().unwrap();
    assert_eq!(classes.len(), 2);
    let class = &classes[0];
    assert_eq!(class.class_name, "com.example.Main");
    assert_eq!(class.package_name, "com.example");
    assert_eq!(class.simple_name, "Main");
    assert_eq!(class.superclass.as_deref(), Some("java.lang.Object"));
    assert_eq!(class.access_flags, 0x11);
    assert_eq!((class.field_count(), class.method_count()), (1, 1));
    assert_eq!(class.fields[0].name, "count");
    assert_eq!(class.fields[0].field_type, "int");
    assert_eq!(class.fields[0].declaring_class, "com.example.Main");
    assert_eq!(class.fields[0].access_flags, 2);
    assert_eq!(class.methods[0].name, "onCreate");
    assert_eq!(class.methods[0].return_type, "void");
    assert_eq!(class.methods[0].declaring_class, "com.example.Main");
    assert_eq!(class.methods[0].access_flags, 1);
    assert_eq!(
        message(container.extract_classes_from_dex(2).err().unwrap()),
        "Invalid DEX file: DEX index 2 out of bounds (max: 2)"
    );
    let broken = DexContainer::new(vec![
        DexEntry::new("classes.dex".to_string(), 0, data.clone()),
        DexEntry::new("classes2.dex".to_string(), 1, vec![1, 2, 3]),
    ]);
    assert_eq!(broken.extract_classes_from_dex(0).unwrap().len(), 1);
    assert_eq!(message(broken.extract_all_classes().err().unwrap()), "Invalid DEX file: File too small");
    // a class that cannot be read is passed over
    let mut two = data.clone();
    put32(&mut two, 96, 2);
    let container = DexContainer::new(vec![DexEntry::new("classes.dex".to_string(), 0, two)]);
    assert_eq!(container.extract_all_classes().unwrap().len(), 1);
    let (classes, skipped) = container.extract_classes_counting_skips(0).unwrap();
    assert_eq!((classes.len(), skipped), (1, 1));
    assert!(container.extract_classes_counting_skips(1).is_err());
    assert!(DexContainer::new(vec![]).extract_all_classes().unwrap().is_empty());
}

#[test]
fn static_fields_get_the_static_bit() {
    let mut data = sample_dex(&[]);
    let at = data.len() as u32;
    data.extend([1, 1, 0, 0, 0, 2, 0, 4]);
    let class_defs_off = u32::from_le_bytes([data[100], data[101], data[102], data[103]]) as usize;
    put32(&mut data, class_defs_off + 24, at);
    let container = DexContainer::new(vec![DexEntry::new("classes.dex".to_string(), 0, data.clone())]);
    let parser = DexParser::new(data).unwrap();
    let class = container.parse_class(&parser, 0).unwrap();
    assert_eq!(class.fields.len(), 2);
    assert_eq!(class.fields[0].access_flags, 2 | 8);
    assert!(class.fields[0].is_static() && class.fields[0].is_private());
    assert_eq!(class.fields[1].access_flags, 4);
    assert!(class.fields[1].is_protected() && !class.fields[1].is_static());
    assert!(container.parse_field(&parser, 1, 0).is_err());
    let method = container.parse_method(&parser, 0, 9).unwrap();
    assert_eq!(method.parameters, vec!["boolean"]);
    assert_eq!(method.declaring_class, "android.webkit.WebSettings");
    assert!(container.parse_method(&parser, 2, 0).is_err());
    assert!(container.parse_class(&parser, 1).is_err());
}

#[test]
fn searcher_finds_classes_and_methods() {
    let data = sample_dex(&ENABLE_JS);
    let searcher = DexSearcher::new(DexContainer::new(vec![
        DexEntry::new("classes.dex".to_string(), 0, data.clone()),
        DexEntry::new("classes2.dex".to_string(), 1, data.clone()),
    ]));
    let any_class = ClassFilter::new(None, None, None, None);
    let any_method = MethodFilter::new(None, None, None, None, None);
    assert_eq!(searcher.find_class(&any_class).unwrap().unwrap().class_name, "com.example.Main");
    assert_eq!(searcher.find_classes(&any_class, None).unwrap().len(), 2);
    assert_eq!(searcher.find_classes(&any_class, Some(1)).unwrap().len(), 1);
    // a search stops at the match that reaches its limit, so it finds one class at least
    assert_eq!(searcher.find_classes(&any_class, Some(0)).unwrap().len(), 1);
    let no_class = ClassFilter::new(Some(vec!["org".to_string()]), None, None, None);
    assert!(searcher.find_class(&no_class).unwrap().is_none());
    assert!(searcher.find_classes(&no_class, None).unwrap().is_empty());
    assert_eq!(searcher.find_method(&any_class, &any_method).unwrap().unwrap().name, "onCreate");
    assert_eq!(searcher.find_methods(&any_class, &any_method, None).unwrap().len(), 2);
    assert_eq!(searcher.find_methods(&any_class, &any_method, Some(1)).unwrap().len(), 1);
    assert_eq!(searcher.find_methods(&any_class, &any_method, Some(0)).unwrap().len(), 1);
    let no_method = MethodFilter::new(Some("absent".to_string()), None, None, None, None);
    assert!(searcher.find_method(&any_class, &no_method).unwrap().is_none());
    assert!(searcher.find_method(&no_class, &any_method).unwrap().is_none());
    let broken = DexSearcher::new(DexContainer::new(vec![DexEntry::new("classes.dex".to_string(), 0, vec![])]));
    assert!(broken.find_class(&any_class).is_err());
    assert!(broken.find_methods(&any_class, &any_method, None).is_err());
}
