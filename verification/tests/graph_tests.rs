use apk_analyzer::apk::document::{children_of, get_attr, subtree_end_of, XmlAttribute, XmlNodeData};
use apk_analyzer::apk::manifest::{
    parse_manifest_nodes, ActivityIntentFilter, IntentFilterData, RustManifestInfo,
};
use apk_analyzer::apk::ApkError;
use apk_analyzer::dex::call_graph::{CallGraph, CallGraphBuilder, CallPath, MethodCall};
use apk_analyzer::dex::class_decompiler::{DecompiledClass, DecompiledMethod};
use apk_analyzer::dex::data_flow_analyzer::{confidence_percent_for, DataFlowAnalyzer, Flow};
use apk_analyzer::dex::entry_point_analyzer::{ComponentType, EntryPoint, EntryPointAnalyzer};
use apk_analyzer::dex::expression_builder::ReconstructedExpression;

fn graph(edges: &[(&str, &str)]) -> CallGraph {
    let mut g = CallGraph::new();
    for (i, (a, b)) in edges.iter().enumerate() {
        g.add_call(a.to_string(), b.to_string(), format!("site{}", i));
    }
    g
}

fn nodes(paths: &[CallPath]) -> Vec<Vec<String>> {
    paths.iter().map(|p| p.methods.clone()).collect()
}

fn strs(v: &[&str]) -> Vec<String> {
    v.iter().map(|s| s.to_string()).collect()
}

#[test]
fn graph_adjacency() {
    let g = graph(&[("A.a", "B.b"), ("A.a", "C.c"), ("B.b", "C.c"), ("A.a", "B.b")]);
    assert_eq!(g.get_callees("A.a"), strs(&["B.b", "C.c", "B.b"]));
    assert_eq!(g.get_callees("C.c"), Vec::<String>::new());
    assert_eq!(g.get_callees("unknown"), Vec::<String>::new());
    assert_eq!(g.get_callers("C.c"), strs(&["A.a", "B.b"]));
    assert_eq!(g.get_callers("A.a"), Vec::<String>::new());
    assert_eq!(g.get_all_methods(), strs(&["A.a", "B.b", "C.c"]));
    assert_eq!(g.find_methods_matching("."), strs(&["A.a", "B.b", "C.c"]));
    assert_eq!(g.find_methods_matching("b"), strs(&["B.b"]));
    assert_eq!(g.find_methods_matching("zz"), Vec::<String>::new());
    let stats = g.get_stats();
    assert_eq!((stats.total_methods, stats.total_edges), (3, 4));
    let empty = CallGraph::new().get_stats();
    assert_eq!((empty.total_methods, empty.total_edges), (0, 0));
    assert_eq!(g.edges[3].call_site, "site3");
}

#[test]
fn paths_breadth_first() {
    let g = graph(&[("S.s", "A.a"), ("S.s", "T.t"), ("A.a", "T.t"), ("A.a", "B.b"), ("B.b", "T.t")]);
    let paths = g.find_paths("S.s", "T.t", 10);
    assert_eq!(
        nodes(&paths),
        vec![strs(&["S.s", "T.t"]), strs(&["S.s", "A.a", "T.t"]), strs(&["S.s", "A.a", "B.b", "T.t"])]
    );
    assert_eq!(paths.iter().map(|p| p.length).collect::<Vec<_>>(), vec![1, 2, 3]);
    assert_eq!(paths[1].calls.len(), 2);
    assert_eq!((paths[1].calls[0].caller.as_str(), paths[1].calls[0].callee.as_str()), ("S.s", "A.a"));
    assert_eq!(paths[1].calls[1].call_site, "site2");
    assert_eq!(paths[2].get_source().as_deref(), Some("S.s"));
    assert_eq!(paths[2].get_target().as_deref(), Some("T.t"));
    assert!(paths[2].contains_method("B.") && !paths[2].contains_method("Z"));
    // walks of more than `max_depth` methods are given up
    assert_eq!(g.find_paths("S.s", "T.t", 0).len(), 0);
    assert_eq!(g.find_paths("S.s", "T.t", 1).len(), 0);
    assert_eq!(nodes(&g.find_paths("S.s", "T.t", 2)), vec![strs(&["S.s", "T.t"])]);
    assert_eq!(g.find_paths("S.s", "T.t", 3).len(), 2);
    assert_eq!(g.find_paths("S.s", "T.t", 4).len(), 3);
    assert_eq!(g.find_paths("S.s", "T.t", usize::MAX).len(), 3);
    // the source itself may hold the target
    assert_eq!(nodes(&g.find_paths("S.s", "S", 1)), vec![strs(&["S.s"])]);
    assert_eq!(g.find_paths("S.s", "S", 1)[0].length, 0);
    // a source that the graph does not know
    assert!(g.find_paths("X.x", "T.t", 5).is_empty());
    assert_eq!(nodes(&g.find_paths("X.x", "", 5)), vec![strs(&["X.x"])]);
    let empty = CallPath { methods: vec![], calls: vec![], length: 0 };
    assert_eq!((empty.get_source(), empty.get_target()), (None, None));
}

#[test]
fn paths_visit_no_method_twice() {
    let g = graph(&[
        ("A.a", "B.b"),
        ("B.b", "A.a"),
        ("B.b", "C.c"),
        ("C.c", "A.a"),
        ("C.c", "B.b"),
        ("C.c", "D.sink"),
        ("A.a", "C.c"),
        ("A.a", "A.a"),
    ]);
    let paths = g.find_paths("A.a", "sink", 10);
    assert_eq!(nodes(&paths), vec![strs(&["A.a", "C.c", "D.sink"]), strs(&["A.a", "B.b", "C.c", "D.sink"])]);
    for depth in 0..8 {
        for p in g.find_paths("A.a", "sink", depth) {
            let mut seen = p.methods.clone();
            seen.sort();
            seen.dedup();
            assert_eq!(seen.len(), p.methods.len());
            assert_eq!(p.length, p.methods.len() - 1);
            assert_eq!(p.calls.len(), p.length);
            assert!(p.methods.len() <= depth);
            for (i, call) in p.calls.iter().enumerate() {
                assert_eq!((&call.caller, &call.callee), (&p.methods[i], &p.methods[i + 1]));
            }
        }
    }
    // a path ends at the first method that holds the target
    let chain = graph(&[("A.x", "B.hit"), ("B.hit", "C.hit")]);
    assert_eq!(nodes(&chain.find_paths("A.x", "hit", 10)), vec![strs(&["A.x", "B.hit"])]);
    // two call sites between the same methods are two paths
    let twice = graph(&[("A.x", "B.y"), ("A.x", "B.y")]);
    let paths = twice.find_paths("A.x", "B.y", 10);
    assert_eq!(paths.len(), 2);
    assert_eq!((paths[0].calls[0].call_site.as_str(), paths[1].calls[0].call_site.as_str()), ("site0", "site1"));
}

#[test]
fn deeper_search_only_adds_paths() {
    let g = graph(&[
        ("S.s", "A.a"),
        ("S.s", "B.b"),
        ("A.a", "B.b"),
        ("B.b", "A.a"),
        ("A.a", "T.t"),
        ("B.b", "C.c"),
        ("C.c", "T.t"),
        ("C.c", "A.a"),
    ]);
    let mut before = nodes(&g.find_paths("S.s", "T.t", 0));
    for depth in 1..8 {
        let now = nodes(&g.find_paths("S.s", "T.t", depth));
        assert!(now.len() >= before.len());
        assert_eq!(&now[..before.len()], &before[..]);
        before = now;
    }
    assert_eq!(before.len(), 5);
}

fn expression(text: &str, signature: Option<&str>, is_call: bool) -> ReconstructedExpression {
    ReconstructedExpression {
        expression: text.to_string(),
        value_type: "void".to_string(),
        is_method_call: is_call,
        method_signature: signature.map(|s| s.to_string()),
    }
}

fn method(name: &str, expressions: Vec<ReconstructedExpression>) -> DecompiledMethod {
    DecompiledMethod {
        name: name.to_string(),
        signature: format!("{}(): void", name),
        access_flags: 1,
        is_public: true,
        is_private: false,
        is_static: false,
        parameters: vec![],
        return_type: "void".to_string(),
        expressions,
        bytecode_size: 0,
    }
}

fn class(name: &str, methods: Vec<DecompiledMethod>) -> DecompiledClass {
    DecompiledClass {
        class_name: name.to_string(),
        package: String::new(),
        simple_name: name.to_string(),
        superclass: None,
        interfaces: vec![],
        fields: vec![],
        methods,
        access_flags: 1,
    }
}

#[test]
fn builder_extracts_edges() {
    let mut builder = CallGraphBuilder::new();
    builder.add_class(&class(
        "com.app.Main",
        vec![
            method(
                "onCreate",
                vec![
                    expression("x.loadUrl(?)", Some("android.webkit.WebView.loadUrl(java.lang.String): void"), true),
                    expression("ignored", Some("never.used(): void"), false),
                    expression("invoke Landroid/webkit/WebView;->loadData(Ljava/lang/String;)V", None, true),
                    expression("no reference here", None, true),
                ],
            ),
            method("helper", vec![expression("y.z()", Some("com.app.Util.z(): void"), true)]),
        ],
    ));
    let g = builder.build();
    assert_eq!(g.edges.len(), 3);
    let edge = |e: &MethodCall| (e.caller.clone(), e.callee.clone(), e.call_site.clone());
    assert_eq!(
        edge(&g.edges[0]),
        (
            "com.app.Main.onCreate".to_string(),
            "android.webkit.WebView.loadUrl(java.lang.String): void".to_string(),
            "onCreate:void".to_string()
        )
    );
    assert_eq!(edge(&g.edges[1]).1, "android.webkit.WebView.loadData");
    assert_eq!(edge(&g.edges[2]), ("com.app.Main.helper".to_string(), "com.app.Util.z(): void".to_string(), "helper:void".to_string()));
    assert_eq!(
        g.get_all_methods(),
        strs(&[
            "com.app.Main.onCreate",
            "android.webkit.WebView.loadUrl(java.lang.String): void",
            "android.webkit.WebView.loadData",
            "com.app.Main.helper",
            "com.app.Util.z(): void",
        ])
    );
}

#[test]
fn references_in_expression_text() {
    let builder = CallGraphBuilder::new();
    let parse = |code: &str| builder.parse_method_from_expression(code);
    assert_eq!(parse("La/b/C;->m(I)V").as_deref(), Some("a.b.C.m"));
    assert_eq!(parse("call La/b/C;->name").as_deref(), Some("a.b.C.name"));
    assert_eq!(parse("La/b/C->m()").as_deref(), Some("a.b.C.m"));
    assert_eq!(parse("La/b/C;;->m()").as_deref(), Some("a.b.C;.m"));
    assert_eq!(parse("L;->m()").as_deref(), Some(".m"));
    assert_eq!(parse("L->m()").as_deref(), Some(".m"));
    assert_eq!(parse("xLa->b(c->d(").as_deref(), Some("a.b"));
    assert_eq!(parse("no arrow L here"), None);
    assert_eq!(parse("a->b"), None);
    assert_eq!(parse("->L"), None);
    assert_eq!(parse("->"), None);
    assert_eq!(parse(""), None);
    assert_eq!(builder.extract_method_call(&expression("La;->b", Some("sig"), true)).as_deref(), Some("sig"));
    assert_eq!(builder.extract_method_call(&expression("La;->b", None, true)).as_deref(), Some("a.b"));
    assert_eq!(builder.extract_method_call(&expression("La;->b", Some("sig"), false)), None);
}

fn filter(activity: &str, actions: &[&str], categories: &[&str], data: Vec<IntentFilterData>) -> ActivityIntentFilter {
    ActivityIntentFilter { activity: activity.to_string(), actions: strs(actions), categories: strs(categories), data }
}

fn data(scheme: Option<&str>, host: Option<&str>, path: Option<&str>, prefix: Option<&str>, pattern: Option<&str>) -> IntentFilterData {
    let own = |s: Option<&str>| s.map(|s| s.to_string());
    IntentFilterData { scheme: own(scheme), host: own(host), path: own(path), path_prefix: own(prefix), path_pattern: own(pattern) }
}

#[test]
fn deeplink_detection() {
    let https = || data(Some("https"), None, None, None, None);
    let f = filter("a.Main", &["android.intent.action.VIEW"], &["android.intent.category.BROWSABLE"], vec![https()]);
    assert!(f.is_deeplink());
    let no_data = filter("a.Main", &["android.intent.action.VIEW"], &["android.intent.category.BROWSABLE"], vec![]);
    assert!(!no_data.is_deeplink());
    let default = filter("a.Main", &["android.intent.action.VIEW"], &["android.intent.category.DEFAULT"], vec![https()]);
    assert!(default.is_deeplink());
    let launcher = filter("a.Main", &["android.intent.action.VIEW"], &["android.intent.category.LAUNCHER"], vec![https()]);
    assert!(!launcher.is_deeplink());
    let main = filter("a.Main", &["android.intent.action.MAIN"], &["android.intent.category.DEFAULT"], vec![https()]);
    assert!(!main.is_deeplink());
    let second = filter("a.Main", &["x.MAIN", "x.VIEW"], &["x.HOME", "x.BROWSABLE"], vec![https()]);
    assert!(second.is_deeplink());
    let none = filter("a.Main", &[], &[], vec![https()]);
    assert!(!none.is_deeplink());
    let mut manifest = RustManifestInfo::new("a".to_string());
    assert_eq!(manifest.package_name, "a");
    assert!(manifest.activities.is_empty() && manifest.version_code.is_none());
    manifest.intent_filters = vec![launcher, f, no_data, default];
    let links = manifest.get_deeplinks();
    assert_eq!(links.len(), 2);
    assert_eq!(links[0].categories, strs(&["android.intent.category.BROWSABLE"]));
    assert_eq!(links[1].categories, strs(&["android.intent.category.DEFAULT"]));
}

#[test]
fn deeplink_patterns() {
    let entry = EntryPoint {
        component_type: ComponentType::Activity,
        class_name: "a.Main".to_string(),
        intent_filters: vec![
            filter(
                "a.Main",
                &["VIEW", "SEND"],
                &[],
                vec![
                    data(Some("https"), Some("example.com"), Some("/a"), Some("/b"), Some("/c.*")),
                    data(Some("app"), None, None, Some("/b"), Some("/c.*")),
                    data(None, Some("host"), None, None, Some("/c.*")),
                    data(None, None, None, None, None),
                    data(Some("only"), None, None, None, None),
                ],
            ),
            filter("a.Main", &["EDIT"], &[], vec![data(None, None, Some("/p"), None, None)]),
            filter("a.Main", &[], &[], vec![]),
        ],
        is_deeplink_handler: true,
        class_found: false,
    };
    assert_eq!(
        entry.get_deeplink_patterns(),
        strs(&["https://example.com/a", "app:///b*", "host/c.*", "only://", "/p"])
    );
    assert_eq!(entry.get_actions(), strs(&["VIEW", "SEND", "EDIT"]));
    assert!(entry.handles_action("SEND") && entry.handles_action("EDIT"));
    assert!(!entry.handles_action("SEN") && !entry.handles_action(""));
    assert_eq!(ComponentType::Activity.name(), "Activity");
    assert_eq!(ComponentType::Service.name(), "Service");
    assert_eq!(ComponentType::BroadcastReceiver.name(), "BroadcastReceiver");
    assert_eq!(ComponentType::ContentProvider.name(), "ContentProvider");
}

fn sample_manifest() -> RustManifestInfo {
    let mut manifest = RustManifestInfo::new("com.app".to_string());
    manifest.activities = strs(&["com.app.Main", "com.app.Settings"]);
    manifest.services = strs(&["com.app.Sync"]);
    manifest.receivers = strs(&["com.app.Boot"]);
    manifest.providers = strs(&["com.app.Files"]);
    manifest.intent_filters = vec![
        filter("com.app.Main", &["android.intent.action.MAIN"], &["android.intent.category.LAUNCHER"], vec![]),
        filter("com.app.Other", &["android.intent.action.VIEW"], &["android.intent.category.BROWSABLE"], vec![data(Some("x"), None, None, None, None)]),
        filter("com.app.Main", &["android.intent.action.VIEW"], &["android.intent.category.BROWSABLE"], vec![data(Some("https"), None, None, None, None)]),
    ];
    manifest
}

#[test]
fn entry_points_are_linked() {
    let classes = vec![class("com.app.Main", vec![]), class("com.app.Boot", vec![method("onReceive", vec![])]), class("com.app.Main", vec![method("second", vec![])])];
    let analyzer = EntryPointAnalyzer::new(sample_manifest(), classes);
    let entries = analyzer.analyze();
    let summary: Vec<(ComponentType, &str, usize, bool, bool)> = entries
        .iter()
        .map(|e| (e.component_type, e.class_name.as_str(), e.intent_filters.len(), e.is_deeplink_handler, e.class_found))
        .collect();
    assert_eq!(
        summary,
        vec![
            (ComponentType::Activity, "com.app.Main", 2, true, true),
            (ComponentType::Activity, "com.app.Settings", 0, false, false),
            (ComponentType::Service, "com.app.Sync", 0, false, false),
            (ComponentType::BroadcastReceiver, "com.app.Boot", 0, false, true),
            (ComponentType::ContentProvider, "com.app.Files", 0, false, false),
        ]
    );
    assert_eq!(entries[0].intent_filters[1].data[0].scheme.as_deref(), Some("https"));
    assert_eq!(analyzer.get_stats(), "Total: 5, Found in DEX: 2, Deeplink handlers: 1");
    let found_names: Vec<String> = analyzer.get_found_entry_points().into_iter().map(|e| e.class_name).collect();
    assert_eq!(found_names, strs(&["com.app.Main", "com.app.Boot"]));
    let handlers = analyzer.get_deeplink_handlers();
    assert_eq!(handlers.len(), 1);
    assert_eq!(handlers[0].class_name, "com.app.Main");
    let (entry, found) = analyzer.get_entry_point_with_class("com.app.Main").unwrap();
    assert_eq!(entry.component_type, ComponentType::Activity);
    // of two classes with one name the later one counts
    assert_eq!(found.methods.len(), 1);
    assert!(analyzer.get_entry_point_with_class("com.app.Sync").is_none());
    assert!(analyzer.get_entry_point_with_class("com.app.Absent").is_none());
    let linked = analyzer.get_analyzed_entry_points();
    assert_eq!(linked.iter().map(|(e, c)| (e.class_name.as_str(), c.methods.len())).collect::<Vec<_>>(), vec![("com.app.Main", 1), ("com.app.Boot", 1)]);
    let other = analyzer.analyze_component("com.app.Other", ComponentType::Service);
    assert_eq!((other.component_type, other.intent_filters.len(), other.is_deeplink_handler, other.class_found), (ComponentType::Service, 1, true, false));
}

fn sample_analyzer() -> DataFlowAnalyzer {
    let g = graph(&[
        ("com.app.Main.onCreate", "com.app.Main.init"),
        ("com.app.Main.init", "android.content.Intent.getStringExtra"),
        ("android.content.Intent.getStringExtra", "android.webkit.WebView.loadUrl"),
        ("com.app.Main.onCreate", "android.webkit.WebView.loadUrl"),
        ("com.app.Main.onResume", "android.webkit.WebView.loadUrl"),
        ("com.app.Sync.onCreate", "java.io.FileWriter.write"),
        ("com.app.Boot.onReceive", "android.webkit.WebView.loadUrl"),
        ("com.app.Files.onCreate", "android.database.sqlite.SQLiteDatabase.execSQL"),
        ("com.app.Sync.onStart", "java.net.Socket.connect"),
    ]);
    DataFlowAnalyzer::new(EntryPointAnalyzer::new(sample_manifest(), vec![]), g)
}

fn flow_summary(flows: &[Flow]) -> Vec<(String, String, String, usize, usize, bool)> {
    flows
        .iter()
        .map(|f| (f.entry_point.clone(), f.component_type.clone(), f.sink_method.clone(), f.path_count, f.min_path_length, f.is_deeplink_handler))
        .collect()
}

#[test]
fn flows_from_entry_points() {
    let analyzer = sample_analyzer();
    let web = analyzer.find_webview_flows(10);
    // one flow for the entry point and the sink, with the paths from all of
    // its lifecycle methods
    assert_eq!(
        flow_summary(&web),
        vec![("com.app.Main".to_string(), "Activity".to_string(), "android.webkit.WebView.loadUrl".to_string(), 3, 1, true)]
    );
    assert_eq!(
        nodes(&web[0].paths),
        vec![
            strs(&["com.app.Main.onCreate", "android.webkit.WebView.loadUrl"]),
            strs(&["com.app.Main.onCreate", "com.app.Main.init", "android.content.Intent.getStringExtra", "android.webkit.WebView.loadUrl"]),
            strs(&["com.app.Main.onResume", "android.webkit.WebView.loadUrl"]),
        ]
    );
    assert_eq!(web[0].paths[1].length, 3);
    assert_eq!(web[0].get_shortest_path().unwrap().length, 1);
    assert_eq!(web[0].get_shortest_path().unwrap().methods[0], "com.app.Main.onCreate");
    assert_eq!(web[0].get_lifecycle_methods(), strs(&["com.app.Main.onCreate", "com.app.Main.onResume"]));
    let file = analyzer.find_file_flows(10);
    assert_eq!(flow_summary(&file), vec![("com.app.Sync".to_string(), "Service".to_string(), "java.io.FileWriter.write".to_string(), 1, 1, false)]);
    let net = analyzer.find_network_flows(10);
    assert_eq!(flow_summary(&net), vec![("com.app.Sync".to_string(), "Service".to_string(), "java.net.Socket.connect".to_string(), 1, 1, false)]);
    let sql = analyzer.find_sql_flows(10);
    assert_eq!(flow_summary(&sql)[0].1, "ContentProvider");
    assert_eq!(sql.len(), 1);
    // a sink that two patterns match is one sink
    assert_eq!(analyzer.find_sink_methods(&["FileWriter", "write"]), strs(&["java.io.FileWriter.write"]));
    let twice = analyzer.find_flows_to(&["FileWriter", "write"], 10);
    assert_eq!(flow_summary(&twice), flow_summary(&file));
    assert!(analyzer.find_flows_to(&["nothing"], 10).is_empty());
    assert!(analyzer.find_flows_to(&[], 10).is_empty());
    assert_eq!(analyzer.find_sink_methods(&["Intent", "loadUrl"]), strs(&["android.content.Intent.getStringExtra", "android.webkit.WebView.loadUrl"]));
    assert_eq!(
        analyzer.find_sink_methods(&["loadUrl", "a", "Intent"]),
        strs(&[
            "android.webkit.WebView.loadUrl",
            "com.app.Main.onCreate",
            "com.app.Main.init",
            "android.content.Intent.getStringExtra",
            "com.app.Main.onResume",
            "com.app.Sync.onCreate",
            "java.io.FileWriter.write",
            "com.app.Boot.onReceive",
            "com.app.Files.onCreate",
            "android.database.sqlite.SQLiteDatabase.execSQL",
            "com.app.Sync.onStart",
            "java.net.Socket.connect",
        ])
    );
    assert!(analyzer.find_sink_methods(&[]).is_empty());
    let deep = analyzer.find_deeplink_flows(&["loadUrl", "FileWriter"], 10);
    assert_eq!(flow_summary(&deep), flow_summary(&web));
    assert_eq!(analyzer.find_flows_to(&["loadUrl", "FileWriter"], 10).len(), 2);
    let stats = analyzer.get_stats();
    assert_eq!((stats.entry_points, stats.deeplink_handlers), (5, 1));
}

#[test]
fn one_flow_for_each_entry_point_and_sink() {
    let g = graph(&[
        ("com.app.Main.onCreate", "w.View.loadUrl"),
        ("com.app.Main.onStart", "w.View.loadUrl"),
        ("com.app.Main.onResume", "com.app.Main.show"),
        ("com.app.Main.show", "w.View.loadUrl"),
        ("com.app.Main.onNewIntent", "w.View.loadData"),
        ("com.app.Main.onPause", "w.View.loadData"),
        ("com.app.Settings.onStart", "com.app.Main.show"),
        ("com.app.Sync.onCreate", "w.View.loadData"),
        ("com.app.Sync.onCreate", "com.app.Sync.onCreate"),
    ]);
    let analyzer = DataFlowAnalyzer::new(EntryPointAnalyzer::new(sample_manifest(), vec![]), g);
    let flows = analyzer.find_flows_to(&["load", "View", "loadUrl", "w."], 10);
    assert_eq!(
        flow_summary(&flows),
        vec![
            ("com.app.Main".to_string(), "Activity".to_string(), "w.View.loadUrl".to_string(), 3, 1, true),
            ("com.app.Main".to_string(), "Activity".to_string(), "w.View.loadData".to_string(), 1, 1, true),
            ("com.app.Settings".to_string(), "Activity".to_string(), "w.View.loadUrl".to_string(), 1, 2, false),
            ("com.app.Sync".to_string(), "Service".to_string(), "w.View.loadData".to_string(), 1, 1, false),
        ]
    );
    for (i, a) in flows.iter().enumerate() {
        assert_eq!(a.path_count, a.paths.len());
        assert_eq!(a.min_path_length, a.paths.iter().map(|p| p.length).min().unwrap());
        for b in &flows[i + 1..] {
            assert!(a.entry_point != b.entry_point || a.sink_method != b.sink_method);
        }
    }
    // the paths of a flow come lifecycle method by lifecycle method
    let starts: Vec<&str> = flows[0].paths.iter().map(|p| p.methods[0].as_str()).collect();
    assert_eq!(starts, vec!["com.app.Main.onCreate", "com.app.Main.onStart", "com.app.Main.onResume"]);
    assert_eq!(flows[0].paths[2].length, 2);
}

#[test]
fn flows_grow_with_depth() {
    let analyzer = sample_analyzer();
    let mut before = analyzer.find_webview_flows(0);
    assert!(before.is_empty());
    for depth in 1..6 {
        let now = analyzer.find_webview_flows(depth);
        for small in &before {
            assert!(now.iter().any(|large| {
                large.entry_point == small.entry_point
                    && large.sink_method == small.sink_method
                    && large.paths.len() >= small.paths.len()
                    && large.min_path_length <= small.min_path_length
                    && small.paths.iter().all(|a| large.paths.iter().any(|b| a.methods == b.methods))
            }));
        }
        before = now;
    }
    assert!(analyzer.find_webview_flows(1).is_empty());
    assert_eq!(analyzer.find_webview_flows(2).len(), 1);
    assert_eq!(analyzer.find_webview_flows(2)[0].path_count, 2);
    assert_eq!(analyzer.find_webview_flows(3)[0].path_count, 2);
    assert_eq!(analyzer.find_webview_flows(4).len(), 1);
    assert_eq!(analyzer.find_webview_flows(4)[0].path_count, 3);
    // a path that a larger bound adds may stand before one that was there
    assert_eq!(analyzer.find_webview_flows(2)[0].paths[1].methods[0], "com.app.Main.onResume");
    assert_eq!(analyzer.find_webview_flows(4)[0].paths[1].methods[0], "com.app.Main.onCreate");
    assert_eq!(analyzer.find_webview_flows(4)[0].paths[2].methods[0], "com.app.Main.onResume");
}

#[test]
fn intent_data_flows() {
    let analyzer = sample_analyzer();
    let flows = analyzer.find_webview_flows(10);
    let found = analyzer.analyze_data_flows(&flows);
    assert_eq!(found.len(), 1);
    assert_eq!(found[0].source, "android.content.Intent.getStringExtra");
    assert_eq!(found[0].sink, "android.webkit.WebView.loadUrl");
    assert_eq!(found[0].flow_path.len(), 4);
    assert_eq!(found[0].confidence_percent, 90);
    assert!(analyzer.analyze_data_flows(&[]).is_empty());
    let confidences: Vec<u8> = [0usize, 3, 4, 5, 6, 8, 9, usize::MAX].iter().map(|l| confidence_percent_for(*l)).collect();
    assert_eq!(confidences, vec![90, 90, 70, 70, 50, 50, 30, 30]);
    let path = |methods: &[&str], length: usize| CallPath { methods: strs(methods), calls: vec![], length };
    let flow = Flow {
        entry_point: "E".to_string(),
        component_type: "Activity".to_string(),
        sink_method: "S".to_string(),
        paths: vec![
            path(&["E.onCreate", "I.getData", "I.getExtras", "S"], 9),
            path(&["E.onCreate", "S"], 1),
            path(&["E.onResume", "x.getBooleanExtra", "a", "b", "S"], 4),
            path(&["E.onStop", "x.onCreate", "E.onCreate"], 1),
        ],
        is_deeplink_handler: false,
        min_path_length: 1,
        path_count: 4,
    };
    let found = analyzer.analyze_data_flows(&[flow.duplicate()]);
    assert_eq!(found.iter().map(|d| (d.source.as_str(), d.confidence_percent)).collect::<Vec<_>>(), vec![("I.getData", 30), ("x.getBooleanExtra", 70)]);
    // of the paths of least length the first is the shortest
    assert_eq!(flow.get_shortest_path().unwrap().methods, strs(&["E.onCreate", "S"]));
    assert_eq!(flow.get_lifecycle_methods(), strs(&["E.onCreate", "E.onResume", "E.onStop", "x.onCreate"]));
}

fn node(element_type: &str, attributes: &[(&str, &str)], child_count: usize) -> XmlNodeData {
    XmlNodeData {
        element_type: element_type.to_string(),
        attributes: attributes.iter().map(|(k, v)| XmlAttribute { name: k.to_string(), value: v.to_string() }).collect(),
        child_count,
    }
}

/// A manifest in walking order: each element is followed by the subtrees of
/// its children, the last child first.
fn manifest_nodes() -> Vec<XmlNodeData> {
    vec![
        node("manifest", &[("package", "com.app"), ("android:versionCode", "7"), ("versionName", "1.2")], 4),
        node("application", &[("android:label", "App")], 5),
        node("provider", &[("android:name", "com.other.Files")], 0),
        node("receiver", &[("android:name", "Boot")], 0),
        node("service", &[("android:name", ".Sync")], 0),
        node("activity", &[("android:name", ".Second")], 1),
        node("intent-filter", &[], 1),
        node("category", &[("android:name", "android.intent.category.DEFAULT")], 0),
        node("activity", &[("android:name", ".Main")], 2),
        node("intent-filter", &[], 4),
        node("data", &[("android:host", "example.com"), ("android:pathPrefix", "/open")], 0),
        node("data", &[("android:scheme", "https")], 0),
        node("category", &[("android:name", "android.intent.category.BROWSABLE")], 0),
        node("action", &[("android:name", "android.intent.action.VIEW")], 0),
        node("intent-filter", &[], 2),
        node("category", &[("android:name", "android.intent.category.LAUNCHER")], 0),
        node("action", &[("android:name", "android.intent.action.MAIN")], 0),
        node("uses-permission", &[("android:name", "android.permission.CAMERA")], 0),
        node("uses-permission", &[("android:name", "android.permission.INTERNET")], 0),
        node("uses-sdk", &[("android:minSdkVersion", "21"), ("targetSdkVersion", "34")], 0),
    ]
}

#[test]
fn document_navigation() {
    let nodes = manifest_nodes();
    assert_eq!(subtree_end_of(&nodes, 0), 20);
    assert_eq!(subtree_end_of(&nodes, 1), 17);
    assert_eq!(subtree_end_of(&nodes, 5), 8);
    assert_eq!(subtree_end_of(&nodes, 8), 17);
    assert_eq!(subtree_end_of(&nodes, 19), 20);
    // children come first child first, the reverse of the walk
    assert_eq!(children_of(&nodes, 0), vec![19, 18, 17, 1]);
    assert_eq!(children_of(&nodes, 1), vec![8, 5, 4, 3, 2]);
    assert_eq!(children_of(&nodes, 8), vec![14, 9]);
    assert_eq!(children_of(&nodes, 9), vec![13, 12, 11, 10]);
    assert_eq!(children_of(&nodes, 2), Vec::<usize>::new());
    assert_eq!(get_attr(&nodes[0], "package").as_deref(), Some("com.app"));
    assert_eq!(get_attr(&nodes[0], "android:package"), None);
    // a list that ends before the children announced
    let cut = vec![node("a", &[], 3), node("b", &[], usize::MAX), node("c", &[], 0)];
    assert_eq!(subtree_end_of(&cut, 0), 3);
    assert_eq!(subtree_end_of(&cut, 1), 3);
    assert_eq!(children_of(&cut, 0), vec![1]);
    assert_eq!(children_of(&cut, 1), vec![2]);
}

#[test]
fn manifest_from_document() {
    let manifest = parse_manifest_nodes(&manifest_nodes()).unwrap();
    assert_eq!(manifest.package_name, "com.app");
    assert_eq!(manifest.version_code.as_deref(), Some("7"));
    assert_eq!(manifest.version_name.as_deref(), Some("1.2"));
    assert_eq!(manifest.min_sdk_version.as_deref(), Some("21"));
    assert_eq!(manifest.target_sdk_version.as_deref(), Some("34"));
    assert_eq!(manifest.application_label.as_deref(), Some("App"));
    assert_eq!(manifest.permissions, strs(&["android.permission.CAMERA", "android.permission.INTERNET"]));
    assert_eq!(manifest.activities, strs(&["com.app.Second", "com.app.Main"]));
    assert_eq!(manifest.services, strs(&["com.app.Sync"]));
    assert_eq!(manifest.receivers, strs(&["com.app.Boot"]));
    assert_eq!(manifest.providers, strs(&["com.other.Files"]));
    // the filter of `.Second` has neither action nor data and is left out
    assert_eq!(manifest.intent_filters.len(), 2);
    let launcher = &manifest.intent_filters[0];
    assert_eq!(launcher.activity, "com.app.Main");
    assert_eq!(launcher.actions, strs(&["android.intent.action.MAIN"]));
    assert_eq!(launcher.categories, strs(&["android.intent.category.LAUNCHER"]));
    assert!(launcher.data.is_empty());
    let view = &manifest.intent_filters[1];
    assert_eq!(view.actions, strs(&["android.intent.action.VIEW"]));
    assert_eq!(view.data.len(), 2);
    assert_eq!(view.data[0].scheme.as_deref(), Some("https"));
    assert_eq!((view.data[1].host.as_deref(), view.data[1].path_prefix.as_deref()), (Some("example.com"), Some("/open")));
    assert!(view.is_deeplink() && !launcher.is_deeplink());
    let analyzer = EntryPointAnalyzer::new(manifest.duplicate(), vec![]);
    let main = &analyzer.analyze()[1];
    assert!(main.is_deeplink_handler);
    assert_eq!(main.get_deeplink_patterns(), strs(&["https://", "example.com/open*"]));
}

#[test]
fn manifest_faults() {
    match parse_manifest_nodes(&[].to_vec()) {
        Err(ApkError::InvalidApk(m)) => assert_eq!(m, "No package name found"),
        _ => panic!("expected an invalid APK"),
    }
    match parse_manifest_nodes(&vec![node("manifest", &[("android:package", "x")], 0)]) {
        Err(ApkError::InvalidApk(m)) => assert_eq!(m, "No package name found"),
        _ => panic!("expected an invalid APK"),
    }
    let bare = parse_manifest_nodes(&vec![node("manifest", &[("package", "p")], 0)]).unwrap();
    assert_eq!(bare.package_name, "p");
    assert!(bare.version_code.is_none() && bare.min_sdk_version.is_none() && bare.application_label.is_none());
    assert!(bare.activities.is_empty() && bare.intent_filters.is_empty());
    // an activity without a name has no filters; the prefixed attribute is preferred
    let nodes = vec![
        node("manifest", &[("package", "p"), ("versionCode", "1"), ("android:versionCode", "2")], 2),
        node("activity", &[], 1),
        node("intent-filter", &[], 1),
        node("action", &[("android:name", "x.VIEW")], 0),
        node("uses-sdk", &[("minSdkVersion", "5")], 0),
    ];
    let manifest = parse_manifest_nodes(&nodes).unwrap();
    assert_eq!(manifest.version_code.as_deref(), Some("2"));
    assert_eq!(manifest.min_sdk_version.as_deref(), Some("5"));
    assert!(manifest.activities.is_empty() && manifest.intent_filters.is_empty());
}
