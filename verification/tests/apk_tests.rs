use apk_analyzer::apk::extractor::{extract_apk_info, ApkExtractor, ArchiveEntry, DexEntry};
use apk_analyzer::apk::manifest::RustManifestInfo;
use apk_analyzer::apk::resources::{
    list_resources, parse_resources, resource_as_text, ArscConfig, ArscEntry, ArscPackage, ArscTable,
    ArscType, ArscValue, PyResourceResolver, ResourceData, ResourceResolver,
};
use apk_analyzer::dex::call_graph::{build_call_graph_from_apk, select_class_defs, CallGraphBuilder};
use apk_analyzer::dex::class_decompiler::{decompile_class_from_apk, find_class_def};
use apk_analyzer::dex::code_extractor::{
    extract_methods_bytecode, find_method_bytecode, get_method_bytecode_from_apk,
};
use apk_analyzer::dex::data_flow_analyzer::{
    analyze_webview_flows_from_apk, create_data_flow_analyzer, create_webview_analyzer_from_apk,
    find_file_flows_from_apk, find_flows_from_apk, find_network_flows_from_apk,
    find_webview_flows_from_apk,
};
use apk_analyzer::dex::entry_point_analyzer::analyze_entry_points_from_apk;
use apk_analyzer::dex::expression_builder::{reconstruct_expressions_from_apk, RegisterValue};
use apk_analyzer::dex::filter::{ClassFilter, MethodFilter};
use apk_analyzer::dex::method_resolver::{resolve_method_from_apk, MethodSignature};
use apk_analyzer::dex::models::{RustDexClass, RustDexMethod};
use apk_analyzer::dex::parser::DexParser;
use apk_analyzer::dex::search::search_methods;

fn uleb(mut n: u32) -> Vec<u8> {
    let mut out = Vec::new();
    loop {
        let b = (n & 0x7f) as u8;
        n >>= 7;
        if n == 0 {
            out.push(b);
            return out;
        }
        out.push(b | 0x80);
    }
}

fn put32(buf: &mut Vec<u8>, at: usize, v: u32) {
    buf[at..at + 4].copy_from_slice(&v.to_le_bytes());
}

const STRINGS: [&str; 9] = [
    "Landroid/webkit/WebSettings;",
    "Lcom/example/Main;",
    "V",
    "Z",
    "onCreate",
    "setJavaScriptEnabled",
    "count",
    "I",
    "Ljava/lang/Object;",
];

/// A DEX image with one class `com.example.Main` (an instance field `count`
/// and a virtual method `onCreate()` with the code units given) and a
/// reference to `WebSettings.setJavaScriptEnabled(boolean)` as method 0.
fn sample_dex(code: &[u16]) -> Vec<u8> {
    let mut d = vec![0u8; 112];
    d[0..4].copy_from_slice(b"dex\n");
    d[4..8].copy_from_slice(b"035\0");
    let string_ids_off = d.len();
    d.extend(vec![0u8; 4 * STRINGS.len()]);
    let type_ids_off = d.len();
    for s in [0u32, 1, 2, 3, 7, 8] {
        d.extend(s.to_le_bytes());
    }
    let proto_ids_off = d.len();
    d.extend(vec![0u8; 24]);
    let field_ids_off = d.len();
    d.extend(1u16.to_le_bytes());
    d.extend(4u16.to_le_bytes());
    d.extend(6u32.to_le_bytes());
    let method_ids_off = d.len();
    d.extend(0u16.to_le_bytes());
    d.extend(0u16.to_le_bytes());
    d.extend(5u32.to_le_bytes());
    d.extend(1u16.to_le_bytes());
    d.extend(1u16.to_le_bytes());
    d.extend(4u32.to_le_bytes());
    let class_defs_off = d.len();
    d.extend(vec![0u8; 32]);
    let data_off = d.len();
    for (i, s) in STRINGS.iter().enumerate() {
        let at = d.len() as u32;
        put32(&mut d, string_ids_off + 4 * i, at);
        d.extend(uleb(s.len() as u32));
        d.extend(s.as_bytes());
        d.push(0);
    }
    while d.len() % 4 != 0 {
        d.push(0);
    }
    let params_off = d.len() as u32;
    d.extend(1u32.to_le_bytes());
    d.extend(3u16.to_le_bytes());
    d.extend(0u16.to_le_bytes());
    // proto 0: (Z)V, proto 1: ()V
    put32(&mut d, proto_ids_off, 2);
    put32(&mut d, proto_ids_off + 4, 2);
    put32(&mut d, proto_ids_off + 8, params_off);
    put32(&mut d, proto_ids_off + 12, 2);
    put32(&mut d, proto_ids_off + 16, 2);
    put32(&mut d, proto_ids_off + 20, 0);
    let code_off = d.len() as u32;
    d.extend(2u16.to_le_bytes());
    d.extend(1u16.to_le_bytes());
    d.extend(2u16.to_le_bytes());
    d.extend(0u16.to_le_bytes());
    d.extend(0u32.to_le_bytes());
    d.extend((code.len() as u32).to_le_bytes());
    for w in code {
        d.extend(w.to_le_bytes());
    }
    let class_data_off = d.len() as u32;
    d.extend(uleb(0));
    d.extend(uleb(1));
    d.extend(uleb(0));
    d.extend(uleb(1));
    d.extend(uleb(0));
    d.extend(uleb(2));
    d.extend(uleb(1));
    d.extend(uleb(1));
    d.extend(uleb(code_off));
    put32(&mut d, class_defs_off, 1);
    put32(&mut d, class_defs_off + 4, 0x11);
    put32(&mut d, class_defs_off + 8, 5);
    put32(&mut d, class_defs_off + 16, 0xFFFF_FFFF);
    put32(&mut d, class_defs_off + 24, class_data_off);
    let total = d.len() as u32;
    put32(&mut d, 32, total);
    put32(&mut d, 36, 112);
    put32(&mut d, 40, 0x12345678);
    put32(&mut d, 56, STRINGS.len() as u32);
    put32(&mut d, 60, string_ids_off as u32);
    put32(&mut d, 64, 6);
    put32(&mut d, 68, type_ids_off as u32);
    put32(&mut d, 72, 2);
    put32(&mut d, 76, proto_ids_off as u32);
    put32(&mut d, 80, 1);
    put32(&mut d, 84, field_ids_off as u32);
    put32(&mut d, 88, 2);
    put32(&mut d, 92, method_ids_off as u32);
    put32(&mut d, 96, 1);
    put32(&mut d, 100, class_defs_off as u32);
    put32(&mut d, 104, total - data_off as u32);
    put32(&mut d, 108, data_off as u32);
    d
}

/// `const/4 v1, #1` then `invoke-virtual {v0, v1}, method@0`.
const ENABLE_JS: [u16; 4] = [0x1112, 0x206e, 0x0000, 0x0001];


const FULL: &str = "android.webkit.WebSettings.setJavaScriptEnabled(boolean): void";

fn entries() -> Vec<DexEntry> {
    vec![
        DexEntry::new("classes.dex".to_string(), 0, vec![1, 2, 3]),
        DexEntry::new("classes2.dex".to_string(), 1, sample_dex(&ENABLE_JS)),
        DexEntry::new("classes3.dex".to_string(), 2, sample_dex(&[0x000e])),
    ]
}

#[test]
fn bytecode_by_name() {
    let parser = DexParser::new(sample_dex(&ENABLE_JS)).unwrap();
    assert_eq!(find_method_bytecode(&parser, "com.example.Main", "onCreate").unwrap(), Some(ENABLE_JS.to_vec()));
    assert_eq!(find_method_bytecode(&parser, "com.example.Main", "onStart").unwrap(), None);
    assert_eq!(find_method_bytecode(&parser, "com.example.Other", "onCreate").unwrap(), None);
    // a class that cannot be read ends the search with its error
    let mut two = sample_dex(&ENABLE_JS);
    put32(&mut two, 96, 2);
    let parser = DexParser::new(two.clone()).unwrap();
    assert!(find_method_bytecode(&parser, "com.example.Other", "onCreate").is_err());
    assert_eq!(find_method_bytecode(&parser, "com.example.Main", "onCreate").unwrap(), Some(ENABLE_JS.to_vec()));
    // the search by name over DEX files passes such a class over
    let broken = vec![DexEntry::new("classes.dex".to_string(), 0, two)];
    assert_eq!(get_method_bytecode_from_apk(&broken, "com.example.Main", "onCreate").unwrap(), ENABLE_JS.to_vec());
    assert_eq!(
        get_method_bytecode_from_apk(&broken, "com.example.Other", "onCreate").err().unwrap(),
        "Method not found: com.example.Other.onCreate"
    );
    let all = entries();
    assert_eq!(get_method_bytecode_from_apk(&all, "com.example.Main", "onCreate").unwrap(), ENABLE_JS.to_vec());
    assert_eq!(get_method_bytecode_from_apk(&all[2..], "com.example.Main", "onCreate").unwrap(), vec![0x000e]);
    assert_eq!(get_method_bytecode_from_apk(&[], "a.B", "m").err().unwrap(), "Method not found: a.B.m");
    // code that cannot be read is the error of the search
    let mut cut = sample_dex(&ENABLE_JS);
    let len = cut.len();
    cut.truncate(len - 12);
    let class_data: Vec<u8> = vec![0, 1, 0, 1, 0, 2, 1, 1];
    let at = cut.len() as u32;
    cut.extend(class_data);
    cut.extend(uleb(at + 64));
    let defs = u32::from_le_bytes([cut[100], cut[101], cut[102], cut[103]]) as usize;
    put32(&mut cut, defs + 24, at);
    let unreadable = vec![DexEntry::new("classes.dex".to_string(), 0, cut)];
    assert_eq!(
        get_method_bytecode_from_apk(&unreadable, "com.example.Main", "onCreate").err().unwrap(),
        "IO error: failed to fill whole buffer"
    );
}

#[test]
fn bytecode_of_classes() {
    let classes = vec![RustDexClass::new("com.example.Main".to_string()), RustDexClass::new("a.Absent".to_string())];
    let records = extract_methods_bytecode(&entries(), &classes);
    assert_eq!(
        records,
        vec![
            ("com.example.Main".to_string(), "onCreate".to_string(), ENABLE_JS.to_vec()),
            ("com.example.Main".to_string(), "onCreate".to_string(), vec![0x000e]),
        ]
    );
    assert!(extract_methods_bytecode(&entries(), &vec![]).is_empty());
    assert!(extract_methods_bytecode(&[], &classes).is_empty());
}

#[test]
fn classes_by_name() {
    let all = entries();
    let class = decompile_class_from_apk(&all, "com.example.Main").unwrap();
    assert_eq!(class.class_name, "com.example.Main");
    assert_eq!(class.methods[0].expressions.len(), 1);
    assert_eq!(decompile_class_from_apk(&all[2..], "com.example.Main").unwrap().methods[0].expressions.len(), 0);
    assert_eq!(decompile_class_from_apk(&all, "com.example.Other").err().unwrap(), "Class not found: com.example.Other");
    assert_eq!(decompile_class_from_apk(&[], "X").err().unwrap(), "Class not found: X");
    let parser = DexParser::new(sample_dex(&[])).unwrap();
    assert_eq!(find_class_def(&parser, "com.example.Main").unwrap().class_idx, 1);
    assert!(find_class_def(&parser, "com.example").is_none());
}

#[test]
fn methods_by_index() {
    let all = entries();
    assert_eq!(resolve_method_from_apk(&all, 0).unwrap().full_signature, FULL);
    assert_eq!(resolve_method_from_apk(&all, 1).unwrap().full_signature, "com.example.Main.onCreate(): void");
    assert_eq!(resolve_method_from_apk(&all, 5).err().unwrap(), "Method index 5 not found in any DEX file");
    assert_eq!(resolve_method_from_apk(&all[..1], 0).err().unwrap(), "Method index 0 not found in any DEX file");
}

#[test]
fn expressions_by_name() {
    let all = entries();
    let exprs = reconstruct_expressions_from_apk(&all, "com.example.Main", "onCreate");
    assert_eq!(exprs.len(), 1);
    assert_eq!(exprs[0].expression, "?.setJavaScriptEnabled(true)");
    assert_eq!(exprs[0].method_signature.as_deref(), Some(FULL));
    // the first DEX file that holds the method decides
    assert!(reconstruct_expressions_from_apk(&all[2..], "com.example.Main", "onCreate").is_empty());
    assert!(reconstruct_expressions_from_apk(&all, "com.example.Main", "absent").is_empty());
    assert!(reconstruct_expressions_from_apk(&[], "com.example.Main", "onCreate").is_empty());
}

#[test]
fn call_graph_of_dex_files() {
    let all = entries();
    let graph = build_call_graph_from_apk(&all, None);
    assert_eq!(graph.edges.len(), 1);
    assert_eq!(graph.edges[0].caller, "com.example.Main.onCreate");
    assert_eq!(graph.edges[0].callee, FULL);
    assert_eq!(graph.edges[0].call_site, "onCreate:void");
    assert_eq!(graph.get_all_methods(), vec!["com.example.Main.onCreate".to_string(), FULL.to_string()]);
    assert_eq!(build_call_graph_from_apk(&all, Some(vec!["Other".to_string(), "Main".to_string()])).edges.len(), 1);
    assert_eq!(build_call_graph_from_apk(&all, Some(vec!["Other".to_string()])).edges.len(), 0);
    assert_eq!(build_call_graph_from_apk(&all, Some(vec![])).edges.len(), 0);
    assert_eq!(build_call_graph_from_apk(&[], None).edges.len(), 0);
    let twice = vec![all[1].clone(), all[1].clone()];
    let graph = build_call_graph_from_apk(&twice, None);
    assert_eq!((graph.edges.len(), graph.methods.len()), (2, 2));
    let parser = DexParser::new(sample_dex(&ENABLE_JS)).unwrap();
    assert_eq!(select_class_defs(&parser, &None).len(), 1);
    assert_eq!(select_class_defs(&parser, &Some(vec!["example".to_string()])).len(), 1);
    assert_eq!(select_class_defs(&parser, &Some(vec!["Example".to_string()])).len(), 0);
    let mut builder = CallGraphBuilder::new();
    builder.add_dex_entry(&all[0], &None);
    builder.add_dex_entry(&all[1], &None);
    assert_eq!(builder.build().edges.len(), 1);
}

fn manifest() -> RustManifestInfo {
    let mut manifest = RustManifestInfo::new("com.example".to_string());
    manifest.activities = vec!["com.example.Main".to_string(), "com.example.Gone".to_string()];
    manifest.services = vec!["com.example.Main".to_string()];
    manifest.providers = vec!["com.example.Main".to_string()];
    manifest
}

#[test]
fn flows_of_an_apk() {
    let all = entries();
    let linked = analyze_entry_points_from_apk(&all, manifest());
    // one class for each activity, service and receiver that decompiles
    assert_eq!(linked.classes.len(), 2);
    let found: Vec<bool> = linked.analyze().iter().map(|e| e.class_found).collect();
    assert_eq!(found, vec![true, false, true, true]);
    let analyzer = create_data_flow_analyzer(&all, manifest());
    assert_eq!(analyzer.call_graph.edges.len(), 1);
    assert_eq!(create_webview_analyzer_from_apk(&all, manifest()).call_graph.edges.len(), 1);
    let flows = find_flows_from_apk(&all, manifest(), vec!["setJavaScriptEnabled".to_string()], None);
    let summary: Vec<(&str, &str, &str, usize, usize)> = flows
        .iter()
        .map(|f| (f.entry_point.as_str(), f.component_type.as_str(), f.sink_method.as_str(), f.path_count, f.min_path_length))
        .collect();
    // a class that is declared three times is three entry points
    assert_eq!(
        summary,
        vec![
            ("com.example.Main", "Activity", FULL, 1, 1),
            ("com.example.Main", "Service", FULL, 1, 1),
            ("com.example.Main", "ContentProvider", FULL, 1, 1),
        ]
    );
    // the default depth is ten; a depth of one reaches no sink
    assert!(find_flows_from_apk(&all, manifest(), vec!["setJavaScriptEnabled".to_string()], Some(1)).is_empty());
    assert_eq!(find_flows_from_apk(&all, manifest(), vec!["setJavaScriptEnabled".to_string()], Some(2)).len(), 3);
    assert!(find_flows_from_apk(&all, manifest(), vec![], None).is_empty());
    assert!(find_webview_flows_from_apk(&all, manifest(), None).is_empty());
    assert!(analyze_webview_flows_from_apk(&all, manifest(), Some(3)).is_empty());
    assert!(find_file_flows_from_apk(&all, manifest(), None).is_empty());
    assert!(find_network_flows_from_apk(&all, manifest(), None).is_empty());
}

#[test]
fn apk_information() {
    let archive = vec![
        ArchiveEntry { name: "classes2.dex".to_string(), data: vec![2] },
        ArchiveEntry { name: "AndroidManifest.xml".to_string(), data: vec![] },
        ArchiveEntry { name: "classes.dex".to_string(), data: vec![1] },
    ];
    let extractor = ApkExtractor::new("/tmp/a.apk".to_string(), archive).unwrap();
    assert_eq!(
        extract_apk_info(&extractor),
        (2, true, false, vec!["classes.dex".to_string(), "classes2.dex".to_string()])
    );
    let a = DexEntry::new("classes2.dex".to_string(), 0, vec![]);
    let b = DexEntry::new("classes10.dex".to_string(), 0, vec![]);
    let c = DexEntry::new("b.dex".to_string(), 0, vec![]);
    let d = DexEntry::new("a.dex".to_string(), 0, vec![]);
    assert!(a.loads_before(&b) && !b.loads_before(&a) && a.loads_before(&a));
    assert!(b.loads_before(&c) && !c.loads_before(&b));
    assert!(d.loads_before(&c) && !c.loads_before(&d));
}

#[test]
fn method_pairs() {
    let class = |name: &str, methods: &[&str]| {
        let mut c = RustDexClass::new(name.to_string());
        c.methods = methods
            .iter()
            .map(|m| RustDexMethod::new(m.to_string(), vec![], "void".to_string(), name.to_string(), 1))
            .collect();
        c
    };
    let classes = vec![class("a.A", &["run", "stop"]), class("b.B", &["run"]), class("a.C", &["run", "rerun", "x"])];
    let in_a = ClassFilter::new(Some(vec!["a".to_string()]), None, None, None);
    let run = MethodFilter::new(Some("run".to_string()), None, None, None, None);
    let names = |found: Vec<(RustDexClass, RustDexMethod)>| {
        found.into_iter().map(|(c, m)| format!("{}.{}", c.class_name, m.name)).collect::<Vec<_>>()
    };
    assert_eq!(names(search_methods(&classes, &in_a, &run, None)), vec!["a.A.run", "a.C.run", "a.C.rerun"]);
    assert_eq!(names(search_methods(&classes, &in_a, &run, Some(2))), vec!["a.A.run", "a.C.run"]);
    assert_eq!(names(search_methods(&classes, &in_a, &run, Some(0))), vec!["a.A.run"]);
    assert_eq!(names(search_methods(&classes, &in_a, &run, Some(7))).len(), 3);
    let none = MethodFilter::new(Some("absent".to_string()), None, None, None, None);
    assert!(search_methods(&classes, &in_a, &none, Some(0)).is_empty());
}

#[test]
fn register_values_are_copied() {
    let signature = MethodSignature {
        class_name: "a.B".to_string(),
        method_name: "call".to_string(),
        parameters: vec!["int".to_string()],
        return_type: "void".to_string(),
        full_signature: "a.B.call(int): void".to_string(),
    };
    let value = RegisterValue::MethodCall {
        receiver: Box::new(RegisterValue::FieldAccess {
            receiver: Box::new(RegisterValue::This),
            field_name: "f".to_string(),
            field_type: "a.B".to_string(),
        }),
        signature,
        args: vec![RegisterValue::ConstInt(7), RegisterValue::ConstString("s".to_string()), RegisterValue::Parameter(2)],
    };
    let copy = value.duplicate();
    assert_eq!(copy.format(), "this.f.call(7, \"s\", param2)");
    assert_eq!(copy.format(), value.format());
}

fn table() -> ArscTable {
    let plain = |value_type: u8, data_index: usize| Some(ArscValue { value_type, data_index });
    let entry = |spec_id: usize, name_index: usize, value: Option<ArscValue>| ArscEntry { spec_id, name_index, value };
    ArscTable {
        packages: vec![ArscPackage {
            id: 0x7f,
            type_names: vec!["string".to_string(), "bool".to_string()],
            key_names: vec!["app_name".to_string(), "flag".to_string(), "count".to_string()],
            types: vec![
                ArscType {
                    id: 1,
                    configs: vec![
                        ArscConfig { resources: vec![entry(0, 0, plain(0x03, 1)), entry(1, 9, plain(0x03, 5))] },
                        ArscConfig { resources: vec![entry(0, 0, plain(0x03, 0))] },
                    ],
                },
                ArscType {
                    id: 2,
                    configs: vec![ArscConfig {
                        resources: vec![
                            entry(0, 1, plain(0x12, usize::MAX)),
                            entry(1, 1, plain(0x12, 0)),
                            entry(2, 2, plain(0x10, 0xFFFF_FFFF)),
                            entry(3, 2, plain(0x11, 42)),
                            entry(4, 2, plain(0x01, 0x7f01_0000)),
                            entry(5, 2, None),
                            entry(6, 2, plain(0x05, 1)),
                        ],
                    }],
                },
                ArscType { id: 3, configs: vec![ArscConfig { resources: vec![entry(0x1_0002, 7, plain(0x10, 1))] }] },
            ],
        }],
        global_strings: vec!["My App".to_string(), "Meine App".to_string()],
    }
}

#[test]
fn resource_table() {
    let table = table();
    assert_eq!(list_resources(&table).len(), 11);
    let resolver = ResourceResolver::from_table(&table);
    // of two entries with one id the later one stays
    assert_eq!(resolver.count(), 10);
    let mut ids: Vec<u32> = resolver.cache.keys().copied().collect();
    ids.sort();
    assert!(resolver.cache.iter().all(|(id, r)| r.id == *id));
    assert_eq!(
        ids,
        vec![
            0x7f01_0000, 0x7f01_0001, 0x7f02_0000, 0x7f02_0001, 0x7f02_0002, 0x7f02_0003, 0x7f02_0004,
            0x7f02_0005, 0x7f02_0006, 0x7f03_0002
        ]
    );
    let name = resolver.resolve(0x7f01_0000).unwrap();
    assert_eq!((name.type_label.as_str(), name.name.as_str()), ("string", "app_name"));
    assert!(matches!(&name.value, ResourceData::String(s) if s == "My App"));
    let outside = resolver.resolve(0x7f01_0001).unwrap();
    assert_eq!(outside.name, "res_1");
    assert!(matches!(outside.value, ResourceData::Unknown));
    assert!(matches!(resolver.resolve(0x7f02_0000).unwrap().value, ResourceData::Boolean(true)));
    assert!(matches!(resolver.resolve(0x7f02_0001).unwrap().value, ResourceData::Boolean(false)));
    assert!(matches!(resolver.resolve(0x7f02_0002).unwrap().value, ResourceData::Integer(-1)));
    assert!(matches!(resolver.resolve(0x7f02_0003).unwrap().value, ResourceData::Integer(42)));
    assert!(matches!(resolver.resolve(0x7f02_0004).unwrap().value, ResourceData::Reference(0x7f01_0000)));
    assert!(matches!(resolver.resolve(0x7f02_0005).unwrap().value, ResourceData::Unknown));
    assert!(matches!(resolver.resolve(0x7f02_0006).unwrap().value, ResourceData::Unknown));
    let third = resolver.resolve(0x7f03_0002).unwrap();
    assert_eq!((third.type_label.as_str(), third.name.as_str()), ("type_3", "res_65538"));
    assert!(resolver.resolve(0x7f04_0000).is_none());
    let mut bools: Vec<u32> = resolver.get_by_type("bool").iter().map(|r| r.id).collect();
    bools.sort();
    assert_eq!(bools, (0x7f02_0000..=0x7f02_0006).collect::<Vec<u32>>());
    let mut strings: Vec<&str> = resolver.get_all_strings().iter().map(|r| r.name.as_str()).collect();
    strings.sort();
    assert_eq!(strings, vec!["app_name", "res_1"]);
    assert!(resolver.get_by_type("layout").is_empty());
    assert_eq!(ResourceResolver::build_resource_id(0x7f, 0x02, 0x0010), 0x7f02_0010);
    assert_eq!(ResourceResolver::get_resource_type_id(0x7f02_0010), 2);
    assert_eq!(ResourceResolver::get_entry_id(0x7f02_0010), 0x10);
    assert!(ResourceResolver::is_resource_id(0x7f02_0010) && ResourceResolver::is_resource_id(0x0102_0000));
    assert!(!ResourceResolver::is_resource_id(0x0202_0000) && !ResourceResolver::is_resource_id(42));
    assert!(ResourceResolver::is_resource_id(0x1_7f00_0000) && !ResourceResolver::is_resource_id(-1));
    assert!(PyResourceResolver::is_resource_id(0x7f00_0000));
    let zero = ArscTable {
        packages: vec![ArscPackage {
            id: 0x1_02,
            type_names: vec!["string".to_string()],
            key_names: vec![],
            types: vec![ArscType { id: 0, configs: vec![ArscConfig { resources: vec![ArscEntry { spec_id: 3, name_index: 0, value: None }] }] }],
        }],
        global_strings: vec![],
    };
    let resolver = ResourceResolver::from_table(&zero);
    assert_eq!(resolver.count(), 1);
    let only = resolver.resolve(0x0200_0003).unwrap();
    assert_eq!(only.id, 0x0200_0003);
    assert_eq!(only.type_label, "type_0");
    assert_eq!(resolver.get_by_type("type_0").len(), 1);
}

#[test]
fn resources_as_text() {
    let resolver = parse_resources(&table());
    assert_eq!(resolver.count(), 10);
    let text = |id: u32| {
        let r = resolver.resolve(id).unwrap();
        (r.value_type.clone(), r.value.clone())
    };
    assert_eq!(text(0x7f01_0000), ("string".to_string(), "My App".to_string()));
    assert_eq!(text(0x7f02_0000), ("boolean".to_string(), "true".to_string()));
    assert_eq!(text(0x7f02_0001), ("boolean".to_string(), "false".to_string()));
    assert_eq!(text(0x7f02_0002), ("integer".to_string(), "-1".to_string()));
    assert_eq!(text(0x7f02_0004), ("reference".to_string(), "0x7f010000".to_string()));
    assert_eq!(text(0x7f02_0005), ("unknown".to_string(), "?".to_string()));
    assert!(resolver.resolve(1).is_none());
    let strings = resolver.get_all_strings();
    assert_eq!(strings.len(), 2);
    assert!(strings[0].is_string() && !strings[0].is_boolean());
    let bools = resolver.get_by_type("bool".to_string());
    assert_eq!(bools.len(), 7);
    assert!(bools.iter().all(|r| r.is_boolean() && !r.is_string()));
    let third = resolver.get_by_type("type_3".to_string());
    assert!(!third[0].is_boolean());
    let small = resource_as_text(resolver.resolver.resolve(0x7f02_0003).unwrap());
    assert_eq!((small.value.as_str(), small.name.as_str()), ("42", "count"));
    let reference = apk_analyzer::apk::resources::ResolvedResource {
        id: 1,
        type_label: "id".to_string(),
        name: "n".to_string(),
        value: ResourceData::Reference(0xAB),
    };
    assert_eq!(resource_as_text(&reference).value, "0x000000ab");
}
