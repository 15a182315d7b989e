use apk_analyzer::apk::extractor::{is_dex_entry_name, ApkExtractor, ArchiveEntry, DexEntry};
use apk_analyzer::apk::manifest::normalize_component_name;
use apk_analyzer::apk::ApkError;
use apk_analyzer::dex::constants::{access_flags, dex_magic, structure, type_descriptors, MapItemType};
use apk_analyzer::dex::container::DexContainer;
use apk_analyzer::dex::filter::{ClassFilter, ClassFilterBuilder, MethodFilter, MethodFilterBuilder};
use apk_analyzer::dex::method_resolver::MethodSignature;
use apk_analyzer::dex::models::{RustDexClass, RustDexField, RustDexMethod, RustReferencePool};
use apk_analyzer::dex::parser::{DexHeader, DexParser};
use apk_analyzer::dex::search::{search_classes, DexSearcher};
use apk_analyzer::dex::DexError;

fn zero_header() -> DexHeader {
    DexHeader {
        magic: [0; 4],
        version: [0; 4],
        checksum: 0,
        signature: [0; 20],
        file_size: 0,
        header_size: 0,
        endian_tag: 0,
        link_size: 0,
        link_off: 0,
        map_off: 0,
        string_ids_size: 0,
        string_ids_off: 0,
        type_ids_size: 0,
        type_ids_off: 0,
        proto_ids_size: 0,
        proto_ids_off: 0,
        field_ids_size: 0,
        field_ids_off: 0,
        method_ids_size: 0,
        method_ids_off: 0,
        class_defs_size: 0,
        class_defs_off: 0,
        data_size: 0,
        data_off: 0,
    }
}

#[test]
fn test_dex_number_parsing() {
    let dex1 = DexEntry::new("classes.dex".to_string(), 0, vec![]);
    assert_eq!(dex1.dex_number(), Some(1));
    assert!(dex1.is_primary());

    let dex2 = DexEntry::new("classes2.dex".to_string(), 1, vec![]);
    assert_eq!(dex2.dex_number(), Some(2));
    assert!(!dex2.is_primary());

    let dex15 = DexEntry::new("classes15.dex".to_string(), 2, vec![]);
    assert_eq!(dex15.dex_number(), Some(15));
}

#[test]
fn test_normalize_component_name() {
    let package = "com.example.app";

    assert_eq!(
        normalize_component_name(package, ".MainActivity"),
        "com.example.app.MainActivity"
    );

    assert_eq!(
        normalize_component_name(package, "com.example.app.MainActivity"),
        "com.example.app.MainActivity"
    );

    assert_eq!(
        normalize_component_name(package, "MainActivity"),
        "com.example.app.MainActivity"
    );
}

#[test]
fn test_access_flags_to_string() {
    let flags = access_flags::ACC_PUBLIC | access_flags::ACC_STATIC | access_flags::ACC_FINAL;
    let strings = access_flags::flags_to_string(flags);
    assert!(strings.contains(&"public"));
    assert!(strings.contains(&"static"));
    assert!(strings.contains(&"final"));
}

#[test]
fn test_type_descriptors() {
    assert_eq!(type_descriptors::descriptor_to_java('I'), "int");
    assert_eq!(type_descriptors::descriptor_to_java('V'), "void");
    assert_eq!(type_descriptors::descriptor_to_java('Z'), "boolean");
}

#[test]
fn test_dex_version() {
    assert!(dex_magic::is_supported_version(b"035\0"));
    assert!(dex_magic::is_supported_version(b"038\0"));
    assert!(!dex_magic::is_supported_version(b"999\0"));
}

#[test]
fn test_dex_container_creation() {
    let entries = vec![
        DexEntry::new("classes.dex".to_string(), 0, vec![]),
        DexEntry::new("classes2.dex".to_string(), 1, vec![]),
    ];

    let container = DexContainer::new(entries);
    assert_eq!(container.dex_count(), 2);
}

#[test]
fn test_class_filter_builder() {
    let filter = ClassFilter::new(
        Some(vec!["com.example".to_string()]),
        None,
        Some("MainActivity".to_string()),
        None,
    );

    assert_eq!(filter.packages.len(), 1);
    assert_eq!(filter.class_name, Some("MainActivity".to_string()));
}

#[test]
fn test_method_filter_builder() {
    let filter = MethodFilter::new(Some("onCreate".to_string()), Some(1), None, None, None);

    assert_eq!(filter.method_name, Some("onCreate".to_string()));
    assert_eq!(filter.param_count, Some(1));
}

#[test]
fn test_method_signature_simple_name() {
    let sig = MethodSignature {
        class_name: "android.webkit.WebSettings".to_string(),
        method_name: "setJavaScriptEnabled".to_string(),
        parameters: vec!["boolean".to_string()],
        return_type: "void".to_string(),
        full_signature: "android.webkit.WebSettings.setJavaScriptEnabled(boolean): void"
            .to_string(),
    };

    assert_eq!(sig.simple_class_name(), "WebSettings");
    assert!(sig.is_webview_method());
    assert!(sig.is_set_javascript_enabled());
}

#[test]
fn test_format_call() {
    let sig = MethodSignature {
        class_name: "android.webkit.WebSettings".to_string(),
        method_name: "setJavaScriptEnabled".to_string(),
        parameters: vec!["boolean".to_string()],
        return_type: "void".to_string(),
        full_signature: String::new(),
    };

    let formatted = sig.format_call(vec!["true".to_string()]);
    assert_eq!(formatted, "webSettings.setJavaScriptEnabled(true)");
}

#[test]
fn test_split_class_name() {
    let (pkg, simple) = RustDexClass::split_class_name("com.example.app.MainActivity");
    assert_eq!(pkg, "com.example.app");
    assert_eq!(simple, "MainActivity");

    let (pkg, simple) = RustDexClass::split_class_name("Lcom/example/App;");
    assert_eq!(pkg, "com.example");
    assert_eq!(simple, "App");

    let (pkg, simple) = RustDexClass::split_class_name("SimpleClass");
    assert_eq!(pkg, "");
    assert_eq!(simple, "SimpleClass");
}

#[test]
fn test_access_flags() {
    let field = RustDexField::new(
        "test".to_string(),
        "int".to_string(),
        "TestClass".to_string(),
        0x0001 | 0x0008 | 0x0010, // public static final
    );
    assert!(field.is_public());
    assert!(field.is_static());
    assert!(field.is_final());
    assert!(!field.is_private());
}

#[test]
fn test_descriptor_conversion() {
    let parser = DexParser { data: vec![], header: zero_header() };

    assert_eq!(parser.descriptor_to_java_type("V"), "void");
    assert_eq!(parser.descriptor_to_java_type("I"), "int");
    assert_eq!(parser.descriptor_to_java_type("Ljava/lang/String;"), "java.lang.String");
    assert_eq!(parser.descriptor_to_java_type("[I"), "int[]");
    assert_eq!(parser.descriptor_to_java_type("[[Ljava/lang/String;"), "java.lang.String[][]");
}

#[test]
fn test_searcher_creation() {
    let entries = vec![DexEntry::new("classes.dex".to_string(), 0, vec![])];
    let container = DexContainer::new(entries);
    let searcher = DexSearcher::new(container);

    assert_eq!(searcher.dex_count(), 1);
}

#[test]
fn descriptor_edge_cases() {
    let parser = DexParser { data: vec![], header: zero_header() };
    assert_eq!(parser.descriptor_to_java_type(""), "void");
    assert_eq!(parser.descriptor_to_java_type("Z"), "boolean");
    assert_eq!(parser.descriptor_to_java_type("B"), "byte");
    assert_eq!(parser.descriptor_to_java_type("S"), "short");
    assert_eq!(parser.descriptor_to_java_type("C"), "char");
    assert_eq!(parser.descriptor_to_java_type("J"), "long");
    assert_eq!(parser.descriptor_to_java_type("F"), "float");
    assert_eq!(parser.descriptor_to_java_type("D"), "double");
    // every trailing `;` is taken off, and a class name needs none
    assert_eq!(parser.descriptor_to_java_type("La/b;;"), "a.b");
    assert_eq!(parser.descriptor_to_java_type("La/b"), "a.b");
    // an unknown descriptor stays as it is
    assert_eq!(parser.descriptor_to_java_type("Xyz"), "Xyz");
    // brackets alone name an array of void
    assert_eq!(parser.descriptor_to_java_type("[["), "void[][]");
    assert_eq!(parser.descriptor_to_java_type("[Xy"), "Xy[]");
}

#[test]
fn java_name_keeps_array_depth() {
    let parser = DexParser { data: vec![], header: zero_header() };
    for (descriptor, depth) in [("I", 0), ("[I", 1), ("[[[Ljava/util/List;", 3), ("[[[[", 4), ("", 0)] {
        let name = parser.descriptor_to_java_type(descriptor);
        assert!(name.ends_with(&"[]".repeat(depth)), "{} -> {}", descriptor, name);
    }
}

#[test]
fn unknown_descriptor_letter() {
    assert_eq!(type_descriptors::descriptor_to_java('L'), "unknown");
    assert_eq!(type_descriptors::descriptor_to_java('['), "unknown");
    assert_eq!(type_descriptors::descriptor_to_java('B'), "byte");
    assert_eq!(type_descriptors::descriptor_to_java('S'), "short");
    assert_eq!(type_descriptors::descriptor_to_java('C'), "char");
    assert_eq!(type_descriptors::descriptor_to_java('J'), "long");
    assert_eq!(type_descriptors::descriptor_to_java('F'), "float");
    assert_eq!(type_descriptors::descriptor_to_java('D'), "double");
}

#[test]
fn flag_names_in_listing_order() {
    assert_eq!(access_flags::flags_to_string(0), Vec::<&str>::new());
    assert_eq!(access_flags::flags_to_string(0x0001 | 0x0010 | 0x0008), vec!["public", "static", "final"]);
    // bit 0x40 is both `volatile` and `bridge`, bit 0x80 both `transient` and `varargs`
    assert_eq!(access_flags::flags_to_string(0x0040), vec!["volatile", "bridge"]);
    assert_eq!(access_flags::flags_to_string(0x0080), vec!["transient", "varargs"]);
    assert_eq!(
        access_flags::flags_to_string(0xFFFF_FFFF),
        vec![
            "public", "private", "protected", "static", "final", "synchronized", "volatile",
            "transient", "bridge", "varargs", "native", "interface", "abstract", "strictfp",
            "synthetic", "annotation", "enum",
        ]
    );
    // the constructor bit has no name
    assert_eq!(access_flags::flags_to_string(access_flags::ACC_CONSTRUCTOR), Vec::<&str>::new());
}

#[test]
fn supported_versions() {
    for v in [b"035\0", b"037\0", b"038\0", b"039\0", b"040\0"] {
        assert!(dex_magic::is_supported_version(v));
    }
    for v in [b"036\0", b"041\0", b"0350", b"135\0", b"030\0", b"045\0"] {
        assert!(!dex_magic::is_supported_version(v));
    }
}

#[test]
fn layout_constants() {
    assert_eq!(structure::HEADER_SIZE, 112);
    assert_eq!(structure::ENDIAN_CONSTANT, 0x12345678);
    assert_eq!(structure::NO_INDEX, 0xFFFF_FFFF);
    assert_eq!(structure::CLASS_DEF_SIZE, 32);
    assert_eq!(MapItemType::HeaderItem.code(), 0);
    assert_eq!(MapItemType::TypeList.code(), 0x1001);
    assert_eq!(MapItemType::CodeItem.code(), 0x2001);
    assert_eq!(MapItemType::HiddenapiClassDataItem.code(), 0xF000);
}

#[test]
fn dex_numbers_of_other_names() {
    let number = |name: &str| DexEntry::new(name.to_string(), 0, vec![]).dex_number();
    assert_eq!(number("classes0.dex"), Some(0));
    assert_eq!(number("classes007.dex"), Some(7));
    assert_eq!(number("classes+3.dex"), Some(3));
    assert_eq!(number("classes-3.dex"), None);
    assert_eq!(number("classes+.dex"), None);
    assert_eq!(number("classes2a.dex"), None);
    assert_eq!(number("classes2.dexx"), None);
    assert_eq!(number("other.dex"), None);
    assert_eq!(number("classes"), None);
    assert_eq!(number(""), None);
    assert_eq!(number("classes99999999999999999999999999.dex"), None);
    assert_eq!(number("classes18446744073709551615.dex"), "18446744073709551615".parse::<usize>().ok());
}

fn entry(name: &str, data: &[u8]) -> ArchiveEntry {
    ArchiveEntry { name: name.to_string(), data: data.to_vec() }
}

#[test]
fn extractor_orders_dex_files() {
    let entries = vec![
        entry("zeta.dex", b"z"),
        entry("classes10.dex", b"10"),
        entry("AndroidManifest.xml", b""),
        entry("classes2.dex", b"2"),
        entry("lib/nested.dex", b"n"),
        entry("alpha.dex", b"a"),
        entry("classes.dex", b"1"),
        entry("resources.arsc", b""),
    ];
    let extractor = ApkExtractor::new("app.apk".to_string(), entries).unwrap();
    let names: Vec<&str> = extractor.dex_entries().iter().map(|e| e.name.as_str()).collect();
    assert_eq!(names, vec!["classes.dex", "classes2.dex", "classes10.dex", "alpha.dex", "zeta.dex"]);
    let indices: Vec<usize> = extractor.dex_entries().iter().map(|e| e.index).collect();
    assert_eq!(indices, vec![6, 3, 1, 5, 0]);
    assert_eq!(extractor.dex_entries()[1].data, b"2".to_vec());
    assert_eq!(extractor.dex_count(), 5);
    assert!(extractor.has_manifest());
    assert!(extractor.has_resources());
    assert_eq!(extractor.apk_path(), "app.apk");
    assert_eq!(extractor.primary_dex().unwrap().index, 6);
}

#[test]
fn extractor_rejects_incomplete_archives() {
    match ApkExtractor::new("a.apk".to_string(), vec![entry("classes.dex", b"")]) {
        Err(ApkError::InvalidApk(m)) => assert_eq!(m, "No AndroidManifest.xml found"),
        _ => panic!("expected an invalid APK"),
    }
    match ApkExtractor::new("a.apk".to_string(), vec![entry("AndroidManifest.xml", b""), entry("a/classes.dex", b"")]) {
        Err(ApkError::InvalidApk(m)) => assert_eq!(m, "No DEX files found"),
        _ => panic!("expected an invalid APK"),
    }
    // a missing manifest is reported before missing DEX files
    match ApkExtractor::new("a.apk".to_string(), vec![]) {
        Err(e) => assert_eq!(e.message(), "Invalid APK: No AndroidManifest.xml found"),
        Ok(_) => panic!("expected an invalid APK"),
    }
    let no_resources =
        ApkExtractor::new("a.apk".to_string(), vec![entry("AndroidManifest.xml", b""), entry("two.dex", b"")]).unwrap();
    assert!(!no_resources.has_resources());
    assert!(no_resources.primary_dex().is_none());
}

#[test]
fn dex_entry_names() {
    assert!(is_dex_entry_name("classes.dex"));
    assert!(is_dex_entry_name(".dex"));
    assert!(!is_dex_entry_name("assets/classes.dex"));
    assert!(!is_dex_entry_name("classes.dex.bak"));
    assert!(!is_dex_entry_name("dex"));
}

#[test]
fn error_texts() {
    assert_eq!(DexError::ParseError("x".to_string()).message(), "Failed to parse DEX file: x");
    assert_eq!(DexError::InvalidDex("x".to_string()).message(), "Invalid DEX file: x");
    assert_eq!(DexError::ClassNotFound("x".to_string()).message(), "Class not found: x");
    assert_eq!(DexError::MethodNotFound("x".to_string()).message(), "Method not found: x");
    assert_eq!(DexError::FieldNotFound("x".to_string()).message(), "Field not found: x");
    assert_eq!(DexError::InvalidFilter("x".to_string()).message(), "Invalid filter: x");
    assert_eq!(DexError::DexFileError("x".to_string()).message(), "DEX file error: x");
    assert_eq!(DexError::IoError("x".to_string()).message(), "IO error: x");
    assert_eq!(ApkError::FileOpenError("x".to_string()).message(), "Failed to open APK file: x");
    assert_eq!(ApkError::ZipReadError("x".to_string()).message(), "Failed to read ZIP entry: x");
    assert_eq!(ApkError::DexNotFound("x".to_string()).message(), "DEX file not found: x");
    assert_eq!(ApkError::ManifestNotFound.message(), "Manifest not found");
    assert_eq!(ApkError::IoError("x".to_string()).message(), "IO error: x");
    assert_eq!(ApkError::ZipError("x".to_string()).message(), "ZIP error: x");
}

#[test]
fn signature_predicates_and_calls() {
    let sig = |class: &str, method: &str| MethodSignature {
        class_name: class.to_string(),
        method_name: method.to_string(),
        parameters: vec![],
        return_type: "void".to_string(),
        full_signature: String::new(),
    };
    assert!(sig("android.webkit.WebView", "loadUrl").is_webview_method());
    assert!(!sig("android.app.Activity", "setJavaScriptEnabled").is_webview_method());
    assert!(sig("android.app.Activity", "setJavaScriptEnabled").is_set_javascript_enabled());
    assert!(!sig("a.B", "setJavaScriptEnabledX").is_set_javascript_enabled());
    assert!(sig("a.B", "addJavascriptInterface").is_add_javascript_interface());
    assert!(!sig("a.B", "addJavaScriptInterface").is_add_javascript_interface());
    assert_eq!(sig("NoPackage", "m").simple_class_name(), "NoPackage");
    assert_eq!(sig("a.b.", "m").simple_class_name(), "");
    assert!(!sig("a.b.", "m").has_ascii_initial());
    assert!(!sig("a.\u{00c9}cole", "m").has_ascii_initial());
    assert!(sig("a.b9", "m").has_ascii_initial());
    assert_eq!(sig("a.B", "m").format_call(vec![]), "b.m()");
    assert_eq!(sig("a.xY", "m").format_call(vec!["1".to_string(), "\"s\"".to_string()]), "xY.m(1, \"s\")");
    assert_eq!(sig("_Z", "m").format_call(vec!["?".to_string()]), "_Z.m(?)");
    let copy = sig("a.B", "m").duplicate();
    assert_eq!(copy.class_name, "a.B");
}

#[test]
fn filters_match_classes_and_methods() {
    let mut class = RustDexClass::new("Lcom/example/app/MainActivity;".to_string());
    assert_eq!(class.package_name, "com.example.app");
    assert_eq!(class.simple_name, "MainActivity");
    class.access_flags = 0x0001 | 0x0010;
    assert!(class.is_public() && class.is_final() && !class.is_abstract());
    assert!(!class.is_interface() && !class.is_enum());
    let all = ClassFilter::new(None, None, None, None);
    assert!(all.matches(&class));
    let by_package = ClassFilter::new(Some(vec!["org".to_string(), "com.example".to_string()]), None, None, None);
    assert!(by_package.matches(&class));
    let other_package = ClassFilter::new(Some(vec!["example".to_string()]), None, None, None);
    assert!(!other_package.matches(&class));
    let excluded = ClassFilter::new(None, Some(vec!["com.example.app".to_string()]), None, None);
    assert!(!excluded.matches(&class));
    let by_name = ClassFilter::new(None, None, Some("Activity".to_string()), None);
    assert!(by_name.matches(&class));
    let by_flags = ClassFilter::new(None, None, None, Some(0x0011));
    assert!(by_flags.matches(&class));
    let more_flags = ClassFilter::new(None, None, None, Some(0x0411));
    assert!(!more_flags.matches(&class));
    let built = ClassFilterBuilder::new()
        .packages(vec!["com".to_string()])
        .exclude_packages(vec!["com.other".to_string()])
        .class_name("Main".to_string())
        .modifiers(1)
        .build();
    assert!(built.matches(&class));
    assert_eq!(built.modifiers, Some(1));

    let method = RustDexMethod::new(
        "onCreate".to_string(),
        vec!["android.os.Bundle".to_string(), "int".to_string()],
        "void".to_string(),
        "com.example.app.MainActivity".to_string(),
        0x0004,
    );
    assert_eq!(method.signature(), "onCreate(android.os.Bundle, int)");
    assert!(method.is_protected() && !method.is_public() && !method.is_static());
    assert!(!method.is_constructor() && !method.is_static_initializer());
    assert!(MethodFilter::new(None, None, None, None, None).matches(&method));
    assert!(MethodFilter::new(Some("Create".to_string()), Some(2), None, None, None).matches(&method));
    assert!(!MethodFilter::new(None, Some(1), None, None, None).matches(&method));
    assert!(MethodFilter::new(None, None, Some(vec!["Bundle".to_string(), "int".to_string()]), None, None).matches(&method));
    assert!(!MethodFilter::new(None, None, Some(vec!["Bundle".to_string()]), None, None).matches(&method));
    assert!(!MethodFilter::new(None, None, Some(vec!["int".to_string(), "Bundle".to_string()]), None, None).matches(&method));
    assert!(MethodFilter::new(None, None, None, Some("oi".to_string()), None).matches(&method));
    assert!(!MethodFilter::new(None, None, None, None, Some(0x0005)).matches(&method));
    let built = MethodFilterBuilder::new()
        .method_name("on".to_string())
        .param_count(2)
        .param_types(vec!["".to_string(), "".to_string()])
        .return_type("void".to_string())
        .modifiers(4)
        .build();
    assert!(built.matches(&method));

    let init = RustDexMethod::new("<init>".to_string(), vec![], "void".to_string(), "A".to_string(), 0x10001);
    assert!(init.is_constructor());
    assert_eq!(init.signature(), "<init>()");
    let clinit = RustDexMethod::new("<clinit>".to_string(), vec![], "void".to_string(), "A".to_string(), 0x0008);
    assert!(clinit.is_static_initializer() && clinit.is_static());
}

#[test]
fn search_limits() {
    let classes: Vec<RustDexClass> =
        ["a.A", "b.B", "a.C", "a.D"].iter().map(|n| RustDexClass::new(n.to_string())).collect();
    let in_a = ClassFilter::new(Some(vec!["a".to_string()]), None, None, None);
    let names = |found: Vec<RustDexClass>| found.into_iter().map(|c| c.class_name).collect::<Vec<_>>();
    assert_eq!(names(search_classes(&classes, &in_a, None)), vec!["a.A", "a.C", "a.D"]);
    assert_eq!(names(search_classes(&classes, &in_a, Some(2))), vec!["a.A", "a.C"]);
    assert_eq!(names(search_classes(&classes, &in_a, Some(0))), Vec::<String>::new());
    assert_eq!(names(search_classes(&classes, &in_a, Some(9))), vec!["a.A", "a.C", "a.D"]);
}

#[test]
fn reference_pool_lookups() {
    let mut pool = RustReferencePool::new();
    assert!(!pool.contains(""));
    pool.strings.push("hello world".to_string());
    pool.types.push("java.lang.String".to_string());
    pool.fields.push("count".to_string());
    pool.methods.push("toString".to_string());
    assert!(pool.contains("lo wo") && pool.contains("lang") && pool.contains("ount") && pool.contains("String"));
    assert!(pool.contains_string("hello") && !pool.contains_string("String"));
    assert!(pool.contains_type("String") && !pool.contains_type("hello"));
    assert!(pool.contains_field("count") && !pool.contains_field("toString"));
    assert!(pool.contains_method("toString") && !pool.contains_method("count"));
    assert!(!pool.contains("absent"));
    assert!(pool.contains(""));
}
