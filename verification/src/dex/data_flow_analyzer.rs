//! Flow analysis from entry points to sink methods.
//!
//! For every entry point of the manifest the analyzer searches the call
//! graph for paths from its lifecycle methods to the sink methods that match
//! the patterns given, and reports one flow for each entry point and sink
//! that a path joins.

use vstd::prelude::*;
use crate::apk::extractor::{dex_entry_views, DexEntry, DexEntryView};
use crate::apk::manifest::{RustManifestInfo, RustManifestInfoView};
use crate::dex::call_graph::{
    apk_graph, build_call_graph_from_apk, clone_paths, lemma_paths_grow_with_depth,
    lemma_with_name, path_views, with_name, CallGraph, CallGraphView, CallPath, CallPathView,
};
use crate::dex::class_decompiler::{class_views, DecompiledClassView};
use crate::dex::entry_point_analyzer::{
    analyze_entry_points_from_apk, declared_components, entry_points_spec, entry_views,
    lemma_entry_points_are_declared, manifest_classes, EntryPoint, EntryPointAnalyzer,
    EntryPointView,
};
use crate::text::{clone_strings, concat3, owned, seq_contains, str_contains, views};

verus! {

/// Represents a complete data flow from an entry point to a sink method.
#[derive(Clone, Debug)]
pub struct Flow {
    /// Entry point that leads to the sink.
    pub entry_point: String,
    /// Component type (Activity, Service, etc.).
    pub component_type: String,
    /// Sink method being called (e.g., WebView.loadUrl, File.write).
    pub sink_method: String,
    /// Call paths from entry to sink.
    pub paths: Vec<CallPath>,
    /// Whether this is a deeplink handler.
    pub is_deeplink_handler: bool,
    /// Shortest path length.
    pub min_path_length: usize,
    /// Number of different paths.
    pub path_count: usize,
}

/// The mathematical value of a [`Flow`].
pub ghost struct FlowView {
    pub entry_point: Seq<char>,
    pub component_type: Seq<char>,
    pub sink_method: Seq<char>,
    pub paths: Seq<CallPathView>,
    pub is_deeplink_handler: bool,
    pub min_path_length: usize,
    pub path_count: usize,
}

impl View for Flow {
    type V = FlowView;

    open spec fn view(&self) -> FlowView {
        FlowView {
            entry_point: self.entry_point@,
            component_type: self.component_type@,
            sink_method: self.sink_method@,
            paths: path_views(self.paths@),
            is_deeplink_handler: self.is_deeplink_handler,
            min_path_length: self.min_path_length,
            path_count: self.path_count,
        }
    }
}

/// The views of a sequence of flows.
pub open spec fn flow_views(flows: Seq<Flow>) -> Seq<FlowView> {
    flows.map_values(|f: Flow| f@)
}

/// The first path of least length; meaningful for a sequence that is not
/// empty.
pub open spec fn shortest_path(paths: Seq<CallPathView>) -> CallPathView
    decreases paths.len(),
{
    if paths.len() <= 1 {
        paths[0]
    } else {
        let before = shortest_path(paths.drop_last());
        if paths.last().length < before.length {
            paths.last()
        } else {
            before
        }
    }
}

/// The least length of a path; zero for no path.
pub open spec fn min_length(paths: Seq<CallPathView>) -> usize {
    if paths.len() == 0 {
        0
    } else {
        shortest_path(paths).length
    }
}

/// The words that mark a lifecycle method.
pub open spec fn lifecycle_words() -> Seq<Seq<char>> {
    seq![
        "onCreate"@,
        "onStart"@,
        "onResume"@,
        "onPause"@,
        "onStop"@,
        "onDestroy"@,
        "onNewIntent"@,
        "onActivityResult"@,
        "onRequestPermissionsResult"@,
    ]
}

/// Some word of `words` occurs in `name`.
pub open spec fn holds_any(name: Seq<char>, words: Seq<Seq<char>>) -> bool {
    exists|i: int| 0 <= i < words.len() && seq_contains(name, #[trigger] words[i])
}

/// The names among the first `n` of `methods` that hold one of `words`,
/// added to `found`, each once.
pub open spec fn marked_methods(
    found: Seq<Seq<char>>,
    methods: Seq<Seq<char>>,
    words: Seq<Seq<char>>,
    n: nat,
) -> Seq<Seq<char>>
    decreases n,
{
    if n == 0 || n > methods.len() {
        found
    } else {
        let before = marked_methods(found, methods, words, (n - 1) as nat);
        if holds_any(methods[n - 1], words) {
            with_name(before, methods[n - 1])
        } else {
            before
        }
    }
}

/// The methods of the first `n` paths that hold one of `words`, each once,
/// in the order in which the paths name them.
pub open spec fn marked_in_paths(paths: Seq<CallPathView>, words: Seq<Seq<char>>, n: nat) -> Seq<
    Seq<char>,
>
    decreases n,
{
    if n == 0 || n > paths.len() {
        Seq::empty()
    } else {
        marked_methods(
            marked_in_paths(paths, words, (n - 1) as nat),
            paths[n - 1].methods,
            words,
            paths[n - 1].methods.len(),
        )
    }
}

/// Whether one of `words` occurs in `name`.
pub fn holds_any_word(name: &str, words: &Vec<&'static str>) -> (found: bool)
    ensures
        found == holds_any(name@, words@.map_values(|w: &'static str| w@)),
{
    let ghost all = words@.map_values(|w: &'static str| w@);
    let mut i: usize = 0;
    while i < words.len()
        invariant
            i <= words@.len(),
            all == words@.map_values(|w: &'static str| w@),
            forall|j: int| 0 <= j < i ==> !seq_contains(name@, #[trigger] all[j]),
        decreases words@.len() - i,
    {
        if str_contains(name, words[i]) {
            assert(seq_contains(name@, all[i as int]));
            return true;
        }
        i += 1;
    }
    false
}

fn lifecycle_word_list() -> (words: Vec<&'static str>)
    ensures
        words@.map_values(|w: &'static str| w@) == lifecycle_words(),
{
    let mut words: Vec<&'static str> = Vec::new();
    words.push("onCreate");
    words.push("onStart");
    words.push("onResume");
    words.push("onPause");
    words.push("onStop");
    words.push("onDestroy");
    words.push("onNewIntent");
    words.push("onActivityResult");
    words.push("onRequestPermissionsResult");
    assert(words@.map_values(|w: &'static str| w@) =~= lifecycle_words());
    words
}

fn add_unique(names: &mut Vec<String>, name: &String)
    ensures
        views(final(names)@) == with_name(views(old(names)@), name@),
{
    let mut i: usize = 0;
    while i < names.len()
        invariant
            i <= names@.len(),
            *names == *old(names),
            forall|j: int| 0 <= j < i ==> views(names@)[j] != name@,
        decreases names@.len() - i,
    {
        if names[i] == *name {
            assert(views(names@)[i as int] == name@);
            return;
        }
        i += 1;
    }
    let ghost before = views(names@);
    names.push(name.clone());
    assert(views(names@) =~= before.push(name@));
}

impl Flow {
    /// Get the shortest path: the first of the paths of least length.
    pub fn get_shortest_path(&self) -> (path: Option<CallPath>)
        ensures
            match path {
                Some(p) => self@.paths.len() > 0 && p@ == shortest_path(self@.paths),
                None => self@.paths.len() == 0,
            },
    {
        if self.paths.len() == 0 {
            return None;
        }
        let ghost all = self@.paths;
        let mut best: usize = 0;
        let mut k: usize = 1;
        assert(all.take(1)[0] == all[0]);
        while k < self.paths.len()
            invariant
                1 <= k <= self.paths@.len(),
                all == self@.paths,
                best < k,
                all[best as int] == shortest_path(all.take(k as int)),
            decreases self.paths@.len() - k,
        {
            proof {
                assert(all.take(k + 1).drop_last() =~= all.take(k as int));
                assert(all.take(k + 1).last() == all[k as int]);
                assert(all[k as int] == self.paths@[k as int]@);
                assert(all[best as int] == self.paths@[best as int]@);
            }
            if self.paths[k].length < self.paths[best].length {
                best = k;
            }
            k += 1;
        }
        assert(all.take(all.len() as int) =~= all);
        assert(all[best as int] == self.paths@[best as int]@);
        Some(self.paths[best].duplicate())
    }

    /// Get all lifecycle methods involved: the methods of the paths whose
    /// name holds a lifecycle word, each once.
    pub fn get_lifecycle_methods(&self) -> (found: Vec<String>)
        ensures
            views(found@) == marked_in_paths(self@.paths, lifecycle_words(), self@.paths.len()),
    {
        let words = lifecycle_word_list();
        let ghost all = self@.paths;
        let mut found: Vec<String> = Vec::new();
        let mut k: usize = 0;
        assert(views(found@) =~= marked_in_paths(all, lifecycle_words(), 0));
        while k < self.paths.len()
            invariant
                k <= self.paths@.len(),
                all == self@.paths,
                words@.map_values(|w: &'static str| w@) == lifecycle_words(),
                views(found@) == marked_in_paths(all, lifecycle_words(), k as nat),
            decreases self.paths@.len() - k,
        {
            let path = &self.paths[k];
            let ghost start = views(found@);
            let ghost methods = all[k as int].methods;
            assert(all[k as int] == path@);
            let mut j: usize = 0;
            while j < path.methods.len()
                invariant
                    j <= path.methods@.len(),
                    methods == path@.methods,
                    words@.map_values(|w: &'static str| w@) == lifecycle_words(),
                    views(found@) == marked_methods(start, methods, lifecycle_words(), j as nat),
                decreases path.methods@.len() - j,
            {
                assert(methods[j as int] == path.methods@[j as int]@);
                if holds_any_word(path.methods[j].as_str(), &words) {
                    add_unique(&mut found, &path.methods[j]);
                }
                j += 1;
            }
            k += 1;
        }
        found
    }

    /// A copy of this flow.
    pub fn duplicate(&self) -> (copy: Flow)
        ensures
            copy@ == self@,
    {
        Flow {
            entry_point: self.entry_point.clone(),
            component_type: self.component_type.clone(),
            sink_method: self.sink_method.clone(),
            paths: clone_paths(&self.paths),
            is_deeplink_handler: self.is_deeplink_handler,
            min_path_length: self.min_path_length,
            path_count: self.path_count,
        }
    }
}

/// Data flow information from source to sink.
#[derive(Clone, Debug)]
pub struct DataFlow {
    /// Source of data (e.g., "Intent.getStringExtra").
    pub source: String,
    /// Sink where data is used (e.g., "WebView.loadUrl", "File.write").
    pub sink: String,
    /// Methods involved in the data flow.
    pub flow_path: Vec<String>,
    /// Estimated confidence in hundredths: 90 stands for 0.9.
    pub confidence_percent: u8,
}

/// The mathematical value of a [`DataFlow`].
pub ghost struct DataFlowView {
    pub source: Seq<char>,
    pub sink: Seq<char>,
    pub flow_path: Seq<Seq<char>>,
    pub confidence_percent: u8,
}

impl View for DataFlow {
    type V = DataFlowView;

    open spec fn view(&self) -> DataFlowView {
        DataFlowView {
            source: self.source@,
            sink: self.sink@,
            flow_path: views(self.flow_path@),
            confidence_percent: self.confidence_percent,
        }
    }
}

/// The views of a sequence of data flows.
pub open spec fn data_flow_views(flows: Seq<DataFlow>) -> Seq<DataFlowView> {
    flows.map_values(|f: DataFlow| f@)
}

/// The methods that read data out of an intent.
pub open spec fn intent_words() -> Seq<Seq<char>> {
    seq![
        "getStringExtra"@,
        "getIntExtra"@,
        "getBooleanExtra"@,
        "getData"@,
        "getDataString"@,
        "getExtras"@,
    ]
}

/// Confidence in hundredths for a path of `length` hops: 90 up to three
/// hops, 70 up to five, 50 up to eight, 30 beyond.
pub open spec fn confidence_for(length: usize) -> u8 {
    if length <= 3 {
        90
    } else if length <= 5 {
        70
    } else if length <= 8 {
        50
    } else {
        30
    }
}

/// Index of the first of `methods` that holds one of `words`, or the length
/// of `methods` if none does.
pub open spec fn first_marked(methods: Seq<Seq<char>>, words: Seq<Seq<char>>) -> int
    decreases methods.len(),
{
    if methods.len() == 0 {
        0
    } else if holds_any(methods[0], words) {
        0
    } else {
        1 + first_marked(methods.drop_first(), words)
    }
}

/// `first_marked` gives `i` when the method at `i` is the first that holds a
/// word, and the length when none does.
pub proof fn lemma_first_marked(methods: Seq<Seq<char>>, words: Seq<Seq<char>>, i: int)
    requires
        0 <= i <= methods.len(),
        i < methods.len() ==> holds_any(methods[i], words),
        forall|j: int| 0 <= j < i ==> !holds_any(#[trigger] methods[j], words),
    ensures
        first_marked(methods, words) == i,
    decreases methods.len(),
{
    if i > 0 {
        assert(!holds_any(methods[0], words));
        let rest = methods.drop_first();
        assert forall|j: int| 0 <= j < i - 1 implies !holds_any(#[trigger] rest[j], words) by {
            assert(rest[j] == methods[j + 1]);
        }
        lemma_first_marked(rest, words, i - 1);
    }
}

/// The data flow that a path of a flow gives, if one of its methods reads
/// data out of an intent: the first such method is the source.
#[verifier::opaque]
pub open spec fn data_flow_of(sink: Seq<char>, path: CallPathView) -> Option<DataFlowView> {
    let i = first_marked(path.methods, intent_words());
    if i < path.methods.len() {
        Some(
            DataFlowView {
                source: path.methods[i],
                sink,
                flow_path: path.methods,
                confidence_percent: confidence_for(path.length),
            },
        )
    } else {
        None
    }
}

/// The data flows of the first `n` paths of a flow.
pub open spec fn data_flows_of_paths(sink: Seq<char>, paths: Seq<CallPathView>, n: nat) -> Seq<
    DataFlowView,
>
    decreases n,
{
    if n == 0 || n > paths.len() {
        Seq::empty()
    } else {
        let before = data_flows_of_paths(sink, paths, (n - 1) as nat);
        match data_flow_of(sink, paths[n - 1]) {
            Some(flow) => before.push(flow),
            None => before,
        }
    }
}

/// The data flows of the first `n` flows.
pub open spec fn data_flows_spec(flows: Seq<FlowView>, n: nat) -> Seq<DataFlowView>
    decreases n,
{
    if n == 0 || n > flows.len() {
        Seq::empty()
    } else {
        data_flows_spec(flows, (n - 1) as nat) + data_flows_of_paths(
            flows[n - 1].sink_method,
            flows[n - 1].paths,
            flows[n - 1].paths.len(),
        )
    }
}

/// The lifecycle methods from which flows start.
pub open spec fn lifecycle_roots() -> Seq<Seq<char>> {
    seq!["onCreate"@, "onStart"@, "onResume"@, "onNewIntent"@]
}

/// The paths from the first `m` lifecycle methods of an entry point to the
/// sink `sink`, those of each lifecycle method in turn.
pub open spec fn merged_paths(
    graph: CallGraphView,
    entry: EntryPointView,
    sink: Seq<char>,
    depth: nat,
    m: nat,
) -> Seq<CallPathView>
    decreases m,
{
    if m == 0 || m > lifecycle_roots().len() {
        Seq::empty()
    } else {
        merged_paths(graph, entry, sink, depth, (m - 1) as nat) + graph.find_paths(
            entry.class_name + "."@ + lifecycle_roots()[m - 1],
            sink,
            depth,
        )
    }
}

/// The flow from an entry point to the sink `sink`, if the call graph has a
/// path within `depth` from one of its lifecycle methods to the sink. The
/// flow holds the paths from all of them.
#[verifier::opaque]
pub open spec fn flow_for(graph: CallGraphView, entry: EntryPointView, sink: Seq<char>, depth: nat) -> Option<
    FlowView,
> {
    let paths = merged_paths(graph, entry, sink, depth, lifecycle_roots().len());
    if paths.len() == 0 {
        None
    } else {
        Some(
            FlowView {
                entry_point: entry.class_name,
                component_type: entry.component_type.name_spec(),
                sink_method: sink,
                paths,
                is_deeplink_handler: entry.is_deeplink_handler,
                min_path_length: min_length(paths),
                path_count: paths.len() as usize,
            },
        )
    }
}

/// The flows from an entry point to the first `n` sinks.
pub open spec fn flows_to_sinks(
    graph: CallGraphView,
    entry: EntryPointView,
    sinks: Seq<Seq<char>>,
    depth: nat,
    n: nat,
) -> Seq<FlowView>
    decreases n,
{
    if n == 0 || n > sinks.len() {
        Seq::empty()
    } else {
        let before = flows_to_sinks(graph, entry, sinks, depth, (n - 1) as nat);
        match flow_for(graph, entry, sinks[n - 1], depth) {
            Some(flow) => before.push(flow),
            None => before,
        }
    }
}

/// The flows from the first `k` entry points.
pub open spec fn flows_from_entries(
    graph: CallGraphView,
    entries: Seq<EntryPointView>,
    sinks: Seq<Seq<char>>,
    depth: nat,
    k: nat,
) -> Seq<FlowView>
    decreases k,
{
    if k == 0 || k > entries.len() {
        Seq::empty()
    } else {
        flows_from_entries(graph, entries, sinks, depth, (k - 1) as nat) + flows_to_sinks(
            graph,
            entries[k - 1],
            sinks,
            depth,
            sinks.len(),
        )
    }
}

/// `found` with the first `n` of `names` added, each unless it is there
/// already.
pub open spec fn with_names(found: Seq<Seq<char>>, names: Seq<Seq<char>>, n: nat) -> Seq<Seq<char>>
    decreases n,
{
    if n == 0 || n > names.len() {
        found
    } else {
        with_name(with_names(found, names, (n - 1) as nat), names[n - 1])
    }
}

/// The methods of the graph that match one of the first `n` patterns, each
/// once: the matches of each pattern in turn, without those that an earlier
/// pattern matched.
pub open spec fn sink_methods(graph: CallGraphView, patterns: Seq<Seq<char>>, n: nat) -> Seq<Seq<char>>
    decreases n,
{
    if n == 0 || n > patterns.len() {
        Seq::empty()
    } else {
        let found = graph.methods_matching(patterns[n - 1]);
        with_names(sink_methods(graph, patterns, (n - 1) as nat), found, found.len())
    }
}

/// The flows from the entry points to the sinks that match the patterns:
/// one for each entry point and sink that a path joins, the flows of each
/// entry point in turn.
pub open spec fn flows_spec(
    graph: CallGraphView,
    entries: Seq<EntryPointView>,
    patterns: Seq<Seq<char>>,
    depth: nat,
) -> Seq<FlowView> {
    flows_from_entries(
        graph,
        entries,
        sink_methods(graph, patterns, patterns.len()),
        depth,
        entries.len(),
    )
}

/// A name is in a list with a name added if it was there or is that name.
pub proof fn lemma_with_name_holds(names: Seq<Seq<char>>, name: Seq<char>, other: Seq<char>)
    ensures
        with_name(names, name).contains(other) <==> names.contains(other) || other == name,
{
    if !names.contains(name) {
        let out = names.push(name);
        assert(out[names.len() as int] == name);
        if names.contains(other) {
            let i = choose|i: int| 0 <= i < names.len() && names[i] == other;
            assert(out[i] == other);
        }
        if out.contains(other) {
            let i = choose|i: int| 0 <= i < out.len() && out[i] == other;
            if i < names.len() {
                assert(names[i] == other);
            }
        }
    }
}

/// Adding names keeps a list free of duplicates; it then holds what it held
/// and the names added.
pub proof fn lemma_with_names(found: Seq<Seq<char>>, names: Seq<Seq<char>>, n: nat)
    requires
        found.no_duplicates(),
        n <= names.len(),
    ensures
        with_names(found, names, n).no_duplicates(),
        forall|other: Seq<char>| #[trigger]
            with_names(found, names, n).contains(other) <==> found.contains(other) || names.take(
                n as int,
            ).contains(other),
    decreases n,
{
    if n > 0 {
        let before = with_names(found, names, (n - 1) as nat);
        lemma_with_names(found, names, (n - 1) as nat);
        lemma_with_name(before, names[n - 1]);
        assert forall|other: Seq<char>| #[trigger]
            with_names(found, names, n).contains(other) <==> found.contains(other) || names.take(
                n as int,
            ).contains(other) by {
            lemma_with_name_holds(before, names[n - 1], other);
            let earlier = names.take(n - 1);
            let all = names.take(n as int);
            assert(all[n - 1] == names[n - 1]);
            if earlier.contains(other) {
                let i = choose|i: int| 0 <= i < earlier.len() && earlier[i] == other;
                assert(all[i] == other);
            }
            if all.contains(other) {
                let i = choose|i: int| 0 <= i < all.len() && all[i] == other;
                if i < n - 1 {
                    assert(earlier[i] == other);
                }
            }
        }
    } else {
        assert(names.take(0) =~= Seq::<Seq<char>>::empty());
    }
}

/// No sink method is listed twice, and the sink methods are the methods of
/// the graph whose name holds one of the patterns.
pub proof fn lemma_sink_methods(graph: CallGraphView, patterns: Seq<Seq<char>>, n: nat)
    requires
        n <= patterns.len(),
    ensures
        sink_methods(graph, patterns, n).no_duplicates(),
        forall|method: Seq<char>| #[trigger]
            sink_methods(graph, patterns, n).contains(method) <==> graph.methods.contains(method)
                && holds_any(method, patterns.take(n as int)),
    decreases n,
{
    if n > 0 {
        let before = sink_methods(graph, patterns, (n - 1) as nat);
        let keep = |m: Seq<char>| seq_contains(m, patterns[n - 1]);
        let found = graph.methods.filter(keep);
        lemma_sink_methods(graph, patterns, (n - 1) as nat);
        lemma_with_names(before, found, found.len());
        assert(found.take(found.len() as int) =~= found);
        assert forall|method: Seq<char>| #[trigger]
            sink_methods(graph, patterns, n).contains(method) <==> graph.methods.contains(method)
                && holds_any(method, patterns.take(n as int)) by {
            let earlier = patterns.take(n - 1);
            let all = patterns.take(n as int);
            if holds_any(method, earlier) {
                let i = choose|i: int| 0 <= i < earlier.len() && seq_contains(method, #[trigger] earlier[i]);
                assert(all[i] == earlier[i]);
            }
            if seq_contains(method, patterns[n - 1]) {
                assert(all[n - 1] == patterns[n - 1]);
            }
            if holds_any(method, all) {
                let i = choose|i: int| 0 <= i < all.len() && seq_contains(method, #[trigger] all[i]);
                if i < n - 1 {
                    assert(earlier[i] == all[i]);
                }
            }
            if found.contains(method) {
                let i = choose|i: int| 0 <= i < found.len() && found[i] == method;
                graph.methods.lemma_filter_pred(keep, i);
                graph.methods.lemma_filter_contains_rev(keep, method);
            }
            if graph.methods.contains(method) && seq_contains(method, patterns[n - 1]) {
                let i = choose|i: int| 0 <= i < graph.methods.len() && graph.methods[i] == method;
                graph.methods.lemma_filter_contains(keep, i);
            }
        }
    } else {
        assert(patterns.take(0) =~= Seq::<Seq<char>>::empty());
    }
}

/// No two flows join the same entry point and sink.
pub open spec fn joins_once(flows: Seq<FlowView>) -> bool {
    forall|i: int, j: int|
        0 <= i < j < flows.len() ==> !((#[trigger] flows[i]).entry_point == (
        #[trigger] flows[j]).entry_point && flows[i].sink_method == flows[j].sink_method)
}

/// A flow from `entry` to one of `sinks`, with a path and with the counts
/// of its paths.
pub open spec fn is_flow_of(flow: FlowView, entry: EntryPointView, sinks: Seq<Seq<char>>) -> bool {
    &&& flow.entry_point == entry.class_name
    &&& flow.component_type == entry.component_type.name_spec()
    &&& flow.is_deeplink_handler == entry.is_deeplink_handler
    &&& sinks.contains(flow.sink_method)
    &&& flow.paths.len() > 0
    &&& flow.path_count == flow.paths.len() as usize
    &&& flow.min_path_length == shortest_path(flow.paths).length
}

/// The flows from one entry point are flows from it to the sinks, at most
/// one to each sink.
pub proof fn lemma_flows_to_sinks_once(
    graph: CallGraphView,
    entry: EntryPointView,
    sinks: Seq<Seq<char>>,
    depth: nat,
    n: nat,
)
    requires
        sinks.no_duplicates(),
        n <= sinks.len(),
    ensures
        joins_once(flows_to_sinks(graph, entry, sinks, depth, n)),
        forall|i: int|
            0 <= i < flows_to_sinks(graph, entry, sinks, depth, n).len() ==> is_flow_of(
                #[trigger] flows_to_sinks(graph, entry, sinks, depth, n)[i],
                entry,
                sinks.take(n as int),
            ),
    decreases n,
{
    if n > 0 {
        reveal(flow_for);
        lemma_flows_to_sinks_once(graph, entry, sinks, depth, (n - 1) as nat);
        let before = flows_to_sinks(graph, entry, sinks, depth, (n - 1) as nat);
        let flows = flows_to_sinks(graph, entry, sinks, depth, n);
        let earlier = sinks.take(n - 1);
        let all = sinks.take(n as int);
        assert(all[n - 1] == sinks[n - 1]);
        assert forall|i: int| 0 <= i < before.len() implies all.contains(
            (#[trigger] before[i]).sink_method,
        ) && before[i].sink_method != sinks[n - 1] by {
            assert(is_flow_of(before[i], entry, earlier));
            let j = choose|j: int| 0 <= j < earlier.len() && earlier[j] == before[i].sink_method;
            assert(all[j] == sinks[j]);
        }
        assert forall|i: int| 0 <= i < flows.len() implies is_flow_of(
            #[trigger] flows[i],
            entry,
            all,
        ) by {
            if i < before.len() {
                assert(flows[i] == before[i]);
                assert(is_flow_of(before[i], entry, earlier));
            }
        }
        assert forall|i: int, j: int| 0 <= i < j < flows.len() implies !((
        #[trigger] flows[i]).entry_point == (#[trigger] flows[j]).entry_point
            && flows[i].sink_method == flows[j].sink_method) by {
            assert(flows[i] == before[i]);
            if j < before.len() {
                assert(flows[j] == before[j]);
            }
        }
    }
}

/// The flows from entry points of different classes join each entry point
/// and sink at most once.
pub proof fn lemma_flows_from_entries_once(
    graph: CallGraphView,
    entries: Seq<EntryPointView>,
    sinks: Seq<Seq<char>>,
    depth: nat,
    k: nat,
)
    requires
        sinks.no_duplicates(),
        k <= entries.len(),
        forall|a: int, b: int|
            0 <= a < b < entries.len() ==> (#[trigger] entries[a]).class_name != (
            #[trigger] entries[b]).class_name,
    ensures
        joins_once(flows_from_entries(graph, entries, sinks, depth, k)),
        forall|i: int|
            0 <= i < flows_from_entries(graph, entries, sinks, depth, k).len() ==> exists|e: int|
                0 <= e < k && is_flow_of(
                    #[trigger] flows_from_entries(graph, entries, sinks, depth, k)[i],
                    #[trigger] entries[e],
                    sinks,
                ),
    decreases k,
{
    if k > 0 {
        lemma_flows_from_entries_once(graph, entries, sinks, depth, (k - 1) as nat);
        lemma_flows_to_sinks_once(graph, entries[k - 1], sinks, depth, sinks.len());
        assert(sinks.take(sinks.len() as int) =~= sinks);
        let before = flows_from_entries(graph, entries, sinks, depth, (k - 1) as nat);
        let added = flows_to_sinks(graph, entries[k - 1], sinks, depth, sinks.len());
        let flows = flows_from_entries(graph, entries, sinks, depth, k);
        assert forall|i: int| 0 <= i < flows.len() implies exists|e: int|
            0 <= e < k && is_flow_of(#[trigger] flows[i], #[trigger] entries[e], sinks) by {
            if i < before.len() {
                assert(flows[i] == before[i]);
                let e = choose|e: int|
                    0 <= e < k - 1 && is_flow_of(before[i], #[trigger] entries[e], sinks);
                assert(is_flow_of(flows[i], entries[e], sinks));
            } else {
                assert(flows[i] == added[i - before.len()]);
                assert(is_flow_of(flows[i], entries[k - 1], sinks));
            }
        }
        assert forall|i: int, j: int| 0 <= i < j < flows.len() implies !((
        #[trigger] flows[i]).entry_point == (#[trigger] flows[j]).entry_point
            && flows[i].sink_method == flows[j].sink_method) by {
            if j < before.len() {
                assert(flows[i] == before[i]);
                assert(flows[j] == before[j]);
            } else if i < before.len() {
                assert(flows[i] == before[i]);
                assert(flows[j] == added[j - before.len()]);
                let e = choose|e: int|
                    0 <= e < k - 1 && is_flow_of(before[i], #[trigger] entries[e], sinks);
                assert(is_flow_of(added[j - before.len()], entries[k - 1], sinks));
                assert(entries[e].class_name != entries[k - 1].class_name);
            } else {
                assert(flows[i] == added[i - before.len()]);
                assert(flows[j] == added[j - before.len()]);
            }
        }
    }
}

/// One flow for each entry point and sink: where no two entry points name
/// the same class, no two flows join the same entry point and sink; and
/// every flow joins an entry point to a sink method by at least one path.
pub proof fn lemma_one_flow_for_each_pair(
    graph: CallGraphView,
    entries: Seq<EntryPointView>,
    patterns: Seq<Seq<char>>,
    depth: nat,
)
    requires
        forall|a: int, b: int|
            0 <= a < b < entries.len() ==> (#[trigger] entries[a]).class_name != (
            #[trigger] entries[b]).class_name,
    ensures
        joins_once(flows_spec(graph, entries, patterns, depth)),
        forall|i: int|
            0 <= i < flows_spec(graph, entries, patterns, depth).len() ==> exists|e: int|
                0 <= e < entries.len() && is_flow_of(
                    #[trigger] flows_spec(graph, entries, patterns, depth)[i],
                    #[trigger] entries[e],
                    sink_methods(graph, patterns, patterns.len()),
                ),
{
    lemma_sink_methods(graph, patterns, patterns.len());
    lemma_flows_from_entries_once(
        graph,
        entries,
        sink_methods(graph, patterns, patterns.len()),
        depth,
        entries.len(),
    );
}

/// Where a manifest declares each component once, the flows from its entry
/// points join each entry point and sink at most once.
pub proof fn lemma_declared_once_joins_once(
    graph: CallGraphView,
    manifest: RustManifestInfoView,
    classes: Seq<DecompiledClassView>,
    patterns: Seq<Seq<char>>,
    depth: nat,
)
    requires
        declared_components(manifest).no_duplicates(),
    ensures
        joins_once(flows_spec(graph, entry_points_spec(manifest, classes), patterns, depth)),
{
    lemma_entry_points_are_declared(manifest, classes);
    lemma_one_flow_for_each_pair(graph, entry_points_spec(manifest, classes), patterns, depth);
}

/// The shortest path of a sequence of paths is one of them, and none of
/// them is shorter.
pub proof fn lemma_shortest_path(paths: Seq<CallPathView>)
    requires
        paths.len() > 0,
    ensures
        paths.contains(shortest_path(paths)),
        forall|i: int| 0 <= i < paths.len() ==> shortest_path(paths).length <= (
        #[trigger] paths[i]).length,
    decreases paths.len(),
{
    if paths.len() > 1 {
        let head = paths.drop_last();
        lemma_shortest_path(head);
        let i = choose|i: int| 0 <= i < head.len() && head[i] == shortest_path(head);
        assert(paths[i] == head[i]);
        assert(paths[paths.len() - 1] == paths.last());
        assert forall|j: int| 0 <= j < paths.len() implies shortest_path(paths).length <= (
        #[trigger] paths[j]).length by {
            if j < head.len() {
                assert(head[j] == paths[j]);
            }
        }
    } else {
        assert(paths[0] == shortest_path(paths));
    }
}

/// Every path of `small` is a path of `large`.
pub open spec fn paths_kept(small: Seq<CallPathView>, large: Seq<CallPathView>) -> bool {
    forall|i: int| 0 <= i < small.len() ==> large.contains(#[trigger] small[i])
}

/// `large` is the flow `small` with paths added: it joins the same entry
/// point and sink, holds every path of `small`, and its shortest path is no
/// longer than that of `small`.
pub open spec fn flow_grows(small: FlowView, large: FlowView) -> bool {
    &&& small.entry_point == large.entry_point
    &&& small.component_type == large.component_type
    &&& small.sink_method == large.sink_method
    &&& small.is_deeplink_handler == large.is_deeplink_handler
    &&& small.paths.len() <= large.paths.len()
    &&& paths_kept(small.paths, large.paths)
    &&& large.min_path_length <= small.min_path_length
}

/// Every flow of `small` is found again in `large`, with its paths and
/// possibly more.
pub open spec fn flows_embed(small: Seq<FlowView>, large: Seq<FlowView>) -> bool {
    forall|i: int| 0 <= i < small.len() ==> found_grown(#[trigger] small[i], large)
}

/// `flow` is found in `large`, with its paths and possibly more.
pub open spec fn found_grown(flow: FlowView, large: Seq<FlowView>) -> bool {
    exists|j: int| 0 <= j < large.len() && flow_grows(flow, #[trigger] large[j])
}

/// Embedding goes through concatenation.
pub proof fn lemma_embed_concat(a1: Seq<FlowView>, b1: Seq<FlowView>, a2: Seq<FlowView>, b2: Seq<FlowView>)
    requires
        flows_embed(a1, b1),
        flows_embed(a2, b2),
    ensures
        flows_embed(a1 + a2, b1 + b2),
{
    assert forall|i: int| 0 <= i < (a1 + a2).len() implies found_grown(
        #[trigger] (a1 + a2)[i],
        b1 + b2,
    ) by {
        if i < a1.len() {
            assert((a1 + a2)[i] == a1[i]);
            assert(found_grown(a1[i], b1));
            let j = choose|j: int| 0 <= j < b1.len() && flow_grows(a1[i], #[trigger] b1[j]);
            assert((b1 + b2)[j] == b1[j]);
        } else {
            assert((a1 + a2)[i] == a2[i - a1.len()]);
            assert(found_grown(a2[i - a1.len()], b2));
            let j = choose|j: int|
                0 <= j < b2.len() && flow_grows(a2[i - a1.len()], #[trigger] b2[j]);
            assert((b1 + b2)[j + b1.len()] == b2[j]);
        }
    }
}

/// The paths from the lifecycle methods found within a depth bound are
/// found within every larger bound.
pub proof fn lemma_merged_paths_grow(
    graph: CallGraphView,
    entry: EntryPointView,
    sink: Seq<char>,
    depth: nat,
    larger: nat,
    m: nat,
)
    requires
        depth <= larger,
    ensures
        merged_paths(graph, entry, sink, depth, m).len() <= merged_paths(
            graph,
            entry,
            sink,
            larger,
            m,
        ).len(),
        paths_kept(
            merged_paths(graph, entry, sink, depth, m),
            merged_paths(graph, entry, sink, larger, m),
        ),
    decreases m,
{
    if m > 0 && m <= lifecycle_roots().len() {
        lemma_merged_paths_grow(graph, entry, sink, depth, larger, (m - 1) as nat);
        let source = entry.class_name + "."@ + lifecycle_roots()[m - 1];
        lemma_paths_grow_with_depth(graph.edges, source, sink, depth, larger);
        let a1 = merged_paths(graph, entry, sink, depth, (m - 1) as nat);
        let b1 = merged_paths(graph, entry, sink, larger, (m - 1) as nat);
        let a2 = graph.find_paths(source, sink, depth);
        let b2 = graph.find_paths(source, sink, larger);
        assert forall|i: int| 0 <= i < (a1 + a2).len() implies (b1 + b2).contains(
            #[trigger] (a1 + a2)[i],
        ) by {
            if i < a1.len() {
                assert(b1.contains(a1[i]));
                let j = choose|j: int| 0 <= j < b1.len() && b1[j] == a1[i];
                assert((b1 + b2)[j] == a1[i]);
            } else {
                let j = i - a1.len();
                assert(a2[j] == b2[j]);
                assert((b1 + b2)[b1.len() + j] == b2[j]);
            }
        }
    }
}

/// A flow found within a depth bound is found within every larger bound,
/// with the same paths and possibly more.
pub proof fn lemma_flow_for_grows(
    graph: CallGraphView,
    entry: EntryPointView,
    sink: Seq<char>,
    depth: nat,
    larger: nat,
)
    requires
        depth <= larger,
        flow_for(graph, entry, sink, depth) is Some,
    ensures
        flow_for(graph, entry, sink, larger) is Some,
        flow_grows(
            flow_for(graph, entry, sink, depth)->Some_0,
            flow_for(graph, entry, sink, larger)->Some_0,
        ),
{
    reveal(flow_for);
    lemma_merged_paths_grow(graph, entry, sink, depth, larger, lifecycle_roots().len());
    let small = merged_paths(graph, entry, sink, depth, lifecycle_roots().len());
    let large = merged_paths(graph, entry, sink, larger, lifecycle_roots().len());
    lemma_shortest_path(small);
    lemma_shortest_path(large);
    let i = choose|i: int| 0 <= i < small.len() && small[i] == shortest_path(small);
    assert(large.contains(small[i]));
    let j = choose|j: int| 0 <= j < large.len() && large[j] == small[i];
    assert(shortest_path(large).length <= large[j].length);
}

/// The flows to the sinks found within a depth bound are found within every
/// larger bound.
pub proof fn lemma_flows_to_sinks_grow(
    graph: CallGraphView,
    entry: EntryPointView,
    sinks: Seq<Seq<char>>,
    depth: nat,
    larger: nat,
    n: nat,
)
    requires
        depth <= larger,
    ensures
        flows_embed(
            flows_to_sinks(graph, entry, sinks, depth, n),
            flows_to_sinks(graph, entry, sinks, larger, n),
        ),
    decreases n,
{
    if n > 0 && n <= sinks.len() {
        lemma_flows_to_sinks_grow(graph, entry, sinks, depth, larger, (n - 1) as nat);
        let a1 = flows_to_sinks(graph, entry, sinks, depth, (n - 1) as nat);
        let b1 = flows_to_sinks(graph, entry, sinks, larger, (n - 1) as nat);
        let fa = flow_for(graph, entry, sinks[n - 1], depth);
        let fb = flow_for(graph, entry, sinks[n - 1], larger);
        let a2 = match fa {
            Some(f) => seq![f],
            None => Seq::empty(),
        };
        let b2 = match fb {
            Some(f) => seq![f],
            None => Seq::empty(),
        };
        if fa is Some {
            lemma_flow_for_grows(graph, entry, sinks[n - 1], depth, larger);
            assert(flow_grows(a2[0], b2[0]));
            assert(found_grown(a2[0], b2));
        }
        assert(flows_embed(a2, b2));
        lemma_embed_concat(a1, b1, a2, b2);
        assert(flows_to_sinks(graph, entry, sinks, depth, n) =~= a1 + a2);
        assert(flows_to_sinks(graph, entry, sinks, larger, n) =~= b1 + b2);
    }
}

/// The flows from the entry points found within a depth bound are found
/// within every larger bound.
pub proof fn lemma_flows_from_entries_grow(
    graph: CallGraphView,
    entries: Seq<EntryPointView>,
    sinks: Seq<Seq<char>>,
    depth: nat,
    larger: nat,
    k: nat,
)
    requires
        depth <= larger,
    ensures
        flows_embed(
            flows_from_entries(graph, entries, sinks, depth, k),
            flows_from_entries(graph, entries, sinks, larger, k),
        ),
    decreases k,
{
    if k > 0 && k <= entries.len() {
        lemma_flows_from_entries_grow(graph, entries, sinks, depth, larger, (k - 1) as nat);
        lemma_flows_to_sinks_grow(graph, entries[k - 1], sinks, depth, larger, sinks.len());
        lemma_embed_concat(
            flows_from_entries(graph, entries, sinks, depth, (k - 1) as nat),
            flows_from_entries(graph, entries, sinks, larger, (k - 1) as nat),
            flows_to_sinks(graph, entries[k - 1], sinks, depth, sinks.len()),
            flows_to_sinks(graph, entries[k - 1], sinks, larger, sinks.len()),
        );
    }
}

/// Flows grow with the depth bound: a larger bound removes no flow and no
/// path of a flow; it can only add flows, and paths to a flow, and the
/// shortest path of a flow gets no longer.
pub proof fn lemma_flows_grow_with_depth(
    graph: CallGraphView,
    entries: Seq<EntryPointView>,
    patterns: Seq<Seq<char>>,
    depth: nat,
    larger: nat,
)
    requires
        depth <= larger,
    ensures
        flows_embed(
            flows_spec(graph, entries, patterns, depth),
            flows_spec(graph, entries, patterns, larger),
        ),
{
    lemma_flows_from_entries_grow(
        graph,
        entries,
        sink_methods(graph, patterns, patterns.len()),
        depth,
        larger,
        entries.len(),
    );
}

/// Counts of a flow analysis.
#[derive(Clone, Copy, Debug, PartialEq, Eq)]
pub struct FlowStats {
    pub entry_points: usize,
    pub deeplink_handlers: usize,
}

/// The sink patterns for WebView.
pub open spec fn webview_patterns() -> Seq<Seq<char>> {
    seq![
        "loadUrl"@,
        "loadData"@,
        "loadDataWithBaseURL"@,
        "evaluateJavascript"@,
        "addJavascriptInterface"@,
        "setWebViewClient"@,
        "setWebChromeClient"@,
    ]
}

/// The sink patterns for file output.
pub open spec fn file_patterns() -> Seq<Seq<char>> {
    seq!["FileOutputStream"@, "FileWriter"@, "RandomAccessFile.write"@, "Files.write"@]
}

/// The sink patterns for network access.
pub open spec fn network_patterns() -> Seq<Seq<char>> {
    seq!["HttpURLConnection"@, "OkHttp"@, "URLConnection.connect"@, "Socket.connect"@]
}

/// The sink patterns for SQL.
pub open spec fn sql_patterns() -> Seq<Seq<char>> {
    seq!["execSQL"@, "rawQuery"@, "SQLiteDatabase.query"@]
}

/// The views of a sequence of string slices.
pub open spec fn pattern_views(patterns: Seq<&str>) -> Seq<Seq<char>> {
    patterns.map_values(|p: &str| p@)
}

/// Generic Data Flow Analyzer - finds flows from entry points to any sink.
pub struct DataFlowAnalyzer {
    pub entry_analyzer: EntryPointAnalyzer,
    pub call_graph: CallGraph,
}

impl DataFlowAnalyzer {
    /// Create a new data flow analyzer.
    pub fn new(entry_analyzer: EntryPointAnalyzer, call_graph: CallGraph) -> (analyzer:
        DataFlowAnalyzer)
        ensures
            analyzer.entry_analyzer == entry_analyzer,
            analyzer.call_graph == call_graph,
    {
        DataFlowAnalyzer { entry_analyzer, call_graph }
    }

    /// The flows to the sinks that match `patterns`, within `depth`.
    pub open spec fn flows(&self, patterns: Seq<Seq<char>>, depth: nat) -> Seq<FlowView> {
        flows_spec(self.call_graph@, self.entry_analyzer.entry_points(), patterns, depth)
    }

    /// Find all sink methods matching the given patterns: each method of the
    /// graph that matches one of them, once.
    pub fn find_sink_methods(&self, patterns: &[&str]) -> (sinks: Vec<String>)
        ensures
            views(sinks@) == sink_methods(
                self.call_graph@,
                pattern_views(patterns@),
                patterns@.len(),
            ),
    {
        let ghost all = pattern_views(patterns@);
        let mut sinks: Vec<String> = Vec::new();
        let mut k: usize = 0;
        assert(views(sinks@) =~= sink_methods(self.call_graph@, all, 0));
        while k < patterns.len()
            invariant
                k <= patterns@.len(),
                all == pattern_views(patterns@),
                views(sinks@) == sink_methods(self.call_graph@, all, k as nat),
            decreases patterns@.len() - k,
        {
            let ghost before = views(sinks@);
            assert(all[k as int] == patterns@[k as int]@);
            let methods = self.call_graph.find_methods_matching(patterns[k]);
            let ghost found = views(methods@);
            let mut j: usize = 0;
            while j < methods.len()
                invariant
                    j <= methods@.len(),
                    found == views(methods@),
                    views(sinks@) == with_names(before, found, j as nat),
                decreases methods@.len() - j,
            {
                assert(found[j as int] == methods@[j as int]@);
                add_unique(&mut sinks, &methods[j]);
                j += 1;
            }
            k += 1;
        }
        sinks
    }

    /// The paths from one lifecycle method of an entry point to one sink,
    /// added to `paths`.
    fn add_paths_from(
        &self,
        entry: &EntryPoint,
        root: &str,
        sink: &String,
        max_depth: usize,
        paths: &mut Vec<CallPath>,
    )
        ensures
            path_views(final(paths)@) == path_views(old(paths)@) + self.call_graph@.find_paths(
                entry@.class_name + "."@ + root@,
                sink@,
                max_depth as nat,
            ),
    {
        let source = concat3(entry.class_name.as_str(), ".", root);
        let mut found = self.call_graph.find_paths(source.as_str(), sink.as_str(), max_depth);
        let ghost before = path_views(paths@);
        let ghost added = path_views(found@);
        paths.append(&mut found);
        assert(path_views(paths@) =~= before + added);
    }

    /// The paths from the lifecycle methods of an entry point to one sink.
    fn find_merged_paths(&self, entry: &EntryPoint, sink: &String, max_depth: usize) -> (paths: Vec<
        CallPath,
    >)
        ensures
            path_views(paths@) == merged_paths(
                self.call_graph@,
                entry@,
                sink@,
                max_depth as nat,
                lifecycle_roots().len(),
            ),
    {
        let ghost graph = self.call_graph@;
        let ghost depth = max_depth as nat;
        let mut paths: Vec<CallPath> = Vec::new();
        assert(path_views(paths@) =~= merged_paths(graph, entry@, sink@, depth, 0));
        self.add_paths_from(entry, "onCreate", sink, max_depth, &mut paths);
        assert(path_views(paths@) =~= merged_paths(graph, entry@, sink@, depth, 1));
        self.add_paths_from(entry, "onStart", sink, max_depth, &mut paths);
        assert(path_views(paths@) =~= merged_paths(graph, entry@, sink@, depth, 2));
        self.add_paths_from(entry, "onResume", sink, max_depth, &mut paths);
        assert(path_views(paths@) =~= merged_paths(graph, entry@, sink@, depth, 3));
        self.add_paths_from(entry, "onNewIntent", sink, max_depth, &mut paths);
        assert(path_views(paths@) =~= merged_paths(graph, entry@, sink@, depth, 4));
        paths
    }

    /// The flow from an entry point to one sink.
    fn find_flow(&self, entry: &EntryPoint, sink: &String, max_depth: usize) -> (flow: Option<Flow>)
        ensures
            match flow {
                Some(f) => flow_for(self.call_graph@, entry@, sink@, max_depth as nat) == Some(f@),
                None => flow_for(self.call_graph@, entry@, sink@, max_depth as nat) is None,
            },
    {
        proof {
            reveal(flow_for);
        }
        let paths = self.find_merged_paths(entry, sink, max_depth);
        if paths.len() == 0 {
            return None;
        }
        let ghost all = path_views(paths@);
        let mut min_length = paths[0].length;
        let mut k: usize = 1;
        assert(all.take(1)[0] == all[0]);
        assert(all[0] == paths@[0]@);
        while k < paths.len()
            invariant
                1 <= k <= paths@.len(),
                all == path_views(paths@),
                min_length == shortest_path(all.take(k as int)).length,
            decreases paths@.len() - k,
        {
            proof {
                assert(all.take(k + 1).drop_last() =~= all.take(k as int));
                assert(all.take(k + 1).last() == all[k as int]);
                assert(all[k as int] == paths@[k as int]@);
            }
            if paths[k].length < min_length {
                min_length = paths[k].length;
            }
            k += 1;
        }
        assert(all.take(all.len() as int) =~= all);
        let path_count = paths.len();
        Some(
            Flow {
                entry_point: entry.class_name.clone(),
                component_type: owned(entry.component_type.name()),
                sink_method: sink.clone(),
                paths,
                is_deeplink_handler: entry.is_deeplink_handler,
                min_path_length: min_length,
                path_count,
            },
        )
    }

    /// The flows from an entry point to the sinks.
    fn find_flows_from_entry(
        &self,
        entry: &EntryPoint,
        sinks: &Vec<String>,
        max_depth: usize,
        flows: &mut Vec<Flow>,
    )
        ensures
            flow_views(final(flows)@) == flow_views(old(flows)@) + flows_to_sinks(
                self.call_graph@,
                entry@,
                views(sinks@),
                max_depth as nat,
                sinks@.len(),
            ),
    {
        let ghost start = flow_views(flows@);
        let ghost all = views(sinks@);
        let mut n: usize = 0;
        assert(flow_views(flows@) =~= start + flows_to_sinks(
            self.call_graph@,
            entry@,
            all,
            max_depth as nat,
            0,
        ));
        while n < sinks.len()
            invariant
                n <= sinks@.len(),
                all == views(sinks@),
                flow_views(flows@) == start + flows_to_sinks(
                    self.call_graph@,
                    entry@,
                    all,
                    max_depth as nat,
                    n as nat,
                ),
            decreases sinks@.len() - n,
        {
            let ghost before = flow_views(flows@);
            let ghost done = flows_to_sinks(self.call_graph@, entry@, all, max_depth as nat, n as nat);
            assert(all[n as int] == sinks@[n as int]@);
            match self.find_flow(entry, &sinks[n], max_depth) {
                Some(flow) => {
                    flows.push(flow);
                    assert(flow_views(flows@) =~= before.push(flow@));
                    assert(start + done.push(flow@) =~= (start + done).push(flow@));
                },
                None => {},
            }
            n += 1;
        }
    }

    /// Generic method to find flows from entry points to sinks matching
    /// patterns.
    ///
    /// One flow for each entry point and sink method that a path joins: the
    /// flows of each entry point in turn, and the paths of a flow from each
    /// lifecycle method in turn.
    pub fn find_flows_to(&self, sink_patterns: &[&str], max_depth: usize) -> (flows: Vec<Flow>)
        ensures
            flow_views(flows@) == self.flows(pattern_views(sink_patterns@), max_depth as nat),
    {
        let mut flows: Vec<Flow> = Vec::new();
        let entry_points = self.entry_analyzer.analyze();
        let sinks = self.find_sink_methods(sink_patterns);
        let ghost graph = self.call_graph@;
        let ghost entries = entry_views(entry_points@);
        let ghost all = views(sinks@);
        let ghost depth = max_depth as nat;
        let mut k: usize = 0;
        assert(flow_views(flows@) =~= flows_from_entries(graph, entries, all, depth, 0));
        while k < entry_points.len()
            invariant
                k <= entry_points@.len(),
                graph == self.call_graph@,
                entries == entry_views(entry_points@),
                all == views(sinks@),
                depth == max_depth as nat,
                flow_views(flows@) == flows_from_entries(graph, entries, all, depth, k as nat),
            decreases entry_points@.len() - k,
        {
            assert(entries[k as int] == entry_points@[k as int]@);
            self.find_flows_from_entry(&entry_points[k], &sinks, max_depth, &mut flows);
            k += 1;
        }
        flows
    }

    /// Convenience method: Find flows to WebView methods.
    pub fn find_webview_flows(&self, max_depth: usize) -> (flows: Vec<Flow>)
        ensures
            flow_views(flows@) == self.flows(webview_patterns(), max_depth as nat),
    {
        let mut patterns: Vec<&str> = Vec::new();
        patterns.push("loadUrl");
        patterns.push("loadData");
        patterns.push("loadDataWithBaseURL");
        patterns.push("evaluateJavascript");
        patterns.push("addJavascriptInterface");
        patterns.push("setWebViewClient");
        patterns.push("setWebChromeClient");
        assert(pattern_views(patterns@) =~= webview_patterns());
        self.find_flows_to(patterns.as_slice(), max_depth)
    }

    /// Convenience method: Find flows to file I/O methods.
    pub fn find_file_flows(&self, max_depth: usize) -> (flows: Vec<Flow>)
        ensures
            flow_views(flows@) == self.flows(file_patterns(), max_depth as nat),
    {
        let mut patterns: Vec<&str> = Vec::new();
        patterns.push("FileOutputStream");
        patterns.push("FileWriter");
        patterns.push("RandomAccessFile.write");
        patterns.push("Files.write");
        assert(pattern_views(patterns@) =~= file_patterns());
        self.find_flows_to(patterns.as_slice(), max_depth)
    }

    /// Convenience method: Find flows to network methods.
    pub fn find_network_flows(&self, max_depth: usize) -> (flows: Vec<Flow>)
        ensures
            flow_views(flows@) == self.flows(network_patterns(), max_depth as nat),
    {
        let mut patterns: Vec<&str> = Vec::new();
        patterns.push("HttpURLConnection");
        patterns.push("OkHttp");
        patterns.push("URLConnection.connect");
        patterns.push("Socket.connect");
        assert(pattern_views(patterns@) =~= network_patterns());
        self.find_flows_to(patterns.as_slice(), max_depth)
    }

    /// Convenience method: Find flows to SQL methods.
    pub fn find_sql_flows(&self, max_depth: usize) -> (flows: Vec<Flow>)
        ensures
            flow_views(flows@) == self.flows(sql_patterns(), max_depth as nat),
    {
        let mut patterns: Vec<&str> = Vec::new();
        patterns.push("execSQL");
        patterns.push("rawQuery");
        patterns.push("SQLiteDatabase.query");
        assert(pattern_views(patterns@) =~= sql_patterns());
        self.find_flows_to(patterns.as_slice(), max_depth)
    }

    /// Find deeplink handlers that lead to specific sinks.
    pub fn find_deeplink_flows(&self, sink_patterns: &[&str], max_depth: usize) -> (flows: Vec<Flow>)
        ensures
            flow_views(flows@) == self.flows(
                pattern_views(sink_patterns@),
                max_depth as nat,
            ).filter(|f: FlowView| f.is_deeplink_handler),
    {
        let found = self.find_flows_to(sink_patterns, max_depth);
        let ghost all = flow_views(found@);
        let ghost keep = |f: FlowView| f.is_deeplink_handler;
        let mut flows: Vec<Flow> = Vec::new();
        let mut k: usize = 0;
        assert(flow_views(flows@) =~= all.take(0).filter(keep));
        while k < found.len()
            invariant
                k <= found@.len(),
                all == flow_views(found@),
                keep == |f: FlowView| f.is_deeplink_handler,
                flow_views(flows@) == all.take(k as int).filter(keep),
            decreases found@.len() - k,
        {
            let ghost before = flow_views(flows@);
            proof {
                assert(all.take(k + 1).drop_last() =~= all.take(k as int));
                assert(all.take(k + 1).last() == found@[k as int]@);
                reveal(Seq::filter);
            }
            if found[k].is_deeplink_handler {
                let copy = found[k].duplicate();
                flows.push(copy);
                assert(flow_views(flows@) =~= before.push(copy@));
            }
            k += 1;
        }
        assert(all.take(all.len() as int) =~= all);
        flows
    }

    /// Analyze data flow from Intent to sink (simplified heuristic-based
    /// approach): one data flow for each path of a flow on which a method
    /// reads data out of an intent.
    pub fn analyze_data_flows(&self, flows: &[Flow]) -> (data_flows: Vec<DataFlow>)
        ensures
            data_flow_views(data_flows@) == data_flows_spec(flow_views(flows@), flows@.len()),
    {
        let words = intent_word_list();
        let ghost all = flow_views(flows@);
        let mut data_flows: Vec<DataFlow> = Vec::new();
        let mut k: usize = 0;
        assert(data_flow_views(data_flows@) =~= data_flows_spec(all, 0));
        while k < flows.len()
            invariant
                k <= flows@.len(),
                all == flow_views(flows@),
                words@.map_values(|w: &'static str| w@) == intent_words(),
                data_flow_views(data_flows@) == data_flows_spec(all, k as nat),
            decreases flows@.len() - k,
        {
            let flow = &flows[k];
            let ghost start = data_flow_views(data_flows@);
            let ghost paths = all[k as int].paths;
            let ghost sink = all[k as int].sink_method;
            assert(all[k as int] == flow@);
            let mut j: usize = 0;
            assert(data_flow_views(data_flows@) =~= start + data_flows_of_paths(sink, paths, 0));
            while j < flow.paths.len()
                invariant
                    j <= flow.paths@.len(),
                    paths == flow@.paths,
                    sink == flow@.sink_method,
                    words@.map_values(|w: &'static str| w@) == intent_words(),
                    data_flow_views(data_flows@) == start + data_flows_of_paths(
                        sink,
                        paths,
                        j as nat,
                    ),
                decreases flow.paths@.len() - j,
            {
                let ghost before = data_flow_views(data_flows@);
                let ghost done = data_flows_of_paths(sink, paths, j as nat);
                assert(paths[j as int] == flow.paths@[j as int]@);
                match data_flow_on(&flow.sink_method, &flow.paths[j], &words) {
                    Some(found) => {
                        data_flows.push(found);
                        assert(data_flow_views(data_flows@) =~= before.push(found@));
                        assert(start + done.push(found@) =~= (start + done).push(found@));
                    },
                    None => {},
                }
                j += 1;
            }
            k += 1;
        }
        data_flows
    }

    /// Get statistics about flow analysis.
    pub fn get_stats(&self) -> (stats: FlowStats)
        ensures
            stats.entry_points == self.entry_analyzer.entry_points().len(),
            stats.deeplink_handlers == self.entry_analyzer.entry_points().filter(
                |e: EntryPointView| e.is_deeplink_handler,
            ).len(),
    {
        let entry_points = self.entry_analyzer.analyze();
        let handlers = self.entry_analyzer.get_deeplink_handlers();
        FlowStats { entry_points: entry_points.len(), deeplink_handlers: handlers.len() }
    }
}

fn intent_word_list() -> (words: Vec<&'static str>)
    ensures
        words@.map_values(|w: &'static str| w@) == intent_words(),
{
    let mut words: Vec<&'static str> = Vec::new();
    words.push("getStringExtra");
    words.push("getIntExtra");
    words.push("getBooleanExtra");
    words.push("getData");
    words.push("getDataString");
    words.push("getExtras");
    assert(words@.map_values(|w: &'static str| w@) =~= intent_words());
    words
}

/// Confidence in hundredths for a path of `length` hops.
pub fn confidence_percent_for(length: usize) -> (percent: u8)
    ensures
        percent == confidence_for(length),
{
    if length <= 3 {
        90
    } else if length <= 5 {
        70
    } else if length <= 8 {
        50
    } else {
        30
    }
}

fn data_flow_on(sink: &String, path: &CallPath, words: &Vec<&'static str>) -> (found: Option<DataFlow>)
    requires
        words@.map_values(|w: &'static str| w@) == intent_words(),
    ensures
        match found {
            Some(flow) => data_flow_of(sink@, path@) == Some(flow@),
            None => data_flow_of(sink@, path@) is None,
        },
{
    proof {
        reveal(data_flow_of);
    }
    let ghost methods = path@.methods;
    let mut i: usize = 0;
    while i < path.methods.len()
        invariant
            i <= path.methods@.len(),
            methods == path@.methods,
            words@.map_values(|w: &'static str| w@) == intent_words(),
            forall|j: int| 0 <= j < i ==> !holds_any(#[trigger] methods[j], intent_words()),
        decreases path.methods@.len() - i,
    {
        assert(methods[i as int] == path.methods@[i as int]@);
        if holds_any_word(path.methods[i].as_str(), words) {
            proof {
                reveal(data_flow_of);
                lemma_first_marked(methods, intent_words(), i as int);
            }
            return Some(
                DataFlow {
                    source: path.methods[i].clone(),
                    sink: sink.clone(),
                    flow_path: clone_strings(&path.methods),
                    confidence_percent: confidence_percent_for(path.length),
                },
            );
        }
        i += 1;
    }
    proof {
        reveal(data_flow_of);
        lemma_first_marked(methods, intent_words(), i as int);
    }
    None
}

/// The depth bound of a search: the one given, or ten.
pub open spec fn depth_or_default(max_depth: Option<usize>) -> nat {
    match max_depth {
        Some(depth) => depth as nat,
        None => 10,
    }
}

/// The flows of an APK: from the entry points of its manifest, linked with
/// the classes of its components, through the call graph of all its
/// classes, to the sinks that match the patterns.
pub open spec fn apk_flows(
    entries: Seq<DexEntryView>,
    manifest: RustManifestInfoView,
    patterns: Seq<Seq<char>>,
    depth: nat,
) -> Seq<FlowView> {
    flows_spec(
        apk_graph(entries, None),
        entry_points_spec(manifest, manifest_classes(entries, manifest)),
        patterns,
        depth,
    )
}

fn depth_of(max_depth: Option<usize>) -> (depth: usize)
    ensures
        depth == depth_or_default(max_depth),
{
    match max_depth {
        Some(depth) => depth,
        None => 10,
    }
}

/// Create a data flow analyzer from the manifest and the DEX files of an
/// APK.
pub fn create_data_flow_analyzer(dex_entries: &[DexEntry], manifest: RustManifestInfo) -> (analyzer:
    DataFlowAnalyzer)
    ensures
        analyzer.entry_analyzer.manifest == manifest,
        class_views(analyzer.entry_analyzer.classes@) == manifest_classes(
            dex_entry_views(dex_entries@),
            manifest@,
        ),
        analyzer.call_graph@ == apk_graph(dex_entry_views(dex_entries@), None),
{
    let entry_analyzer = analyze_entry_points_from_apk(dex_entries, manifest);
    let call_graph = build_call_graph_from_apk(dex_entries, None);
    DataFlowAnalyzer::new(entry_analyzer, call_graph)
}

/// Find flows from entry points to sink patterns; the depth bound is ten
/// where none is given.
pub fn find_flows_from_apk(
    dex_entries: &[DexEntry],
    manifest: RustManifestInfo,
    sink_patterns: Vec<String>,
    max_depth: Option<usize>,
) -> (flows: Vec<Flow>)
    ensures
        flow_views(flows@) == apk_flows(
            dex_entry_views(dex_entries@),
            manifest@,
            views(sink_patterns@),
            depth_or_default(max_depth),
        ),
{
    let analyzer = create_data_flow_analyzer(dex_entries, manifest);
    let mut pattern_refs: Vec<&str> = Vec::new();
    let mut k: usize = 0;
    while k < sink_patterns.len()
        invariant
            k <= sink_patterns@.len(),
            pattern_refs@.len() == k,
            forall|j: int| 0 <= j < k ==> (#[trigger] pattern_refs@[j])@ == sink_patterns@[j]@,
        decreases sink_patterns@.len() - k,
    {
        pattern_refs.push(sink_patterns[k].as_str());
        k += 1;
    }
    assert(pattern_views(pattern_refs@) =~= views(sink_patterns@));
    analyzer.find_flows_to(pattern_refs.as_slice(), depth_of(max_depth))
}

/// Convenience: Find WebView flows from APK.
pub fn find_webview_flows_from_apk(
    dex_entries: &[DexEntry],
    manifest: RustManifestInfo,
    max_depth: Option<usize>,
) -> (flows: Vec<Flow>)
    ensures
        flow_views(flows@) == apk_flows(
            dex_entry_views(dex_entries@),
            manifest@,
            webview_patterns(),
            depth_or_default(max_depth),
        ),
{
    let analyzer = create_data_flow_analyzer(dex_entries, manifest);
    analyzer.find_webview_flows(depth_of(max_depth))
}

/// Convenience: Find file I/O flows from APK.
pub fn find_file_flows_from_apk(
    dex_entries: &[DexEntry],
    manifest: RustManifestInfo,
    max_depth: Option<usize>,
) -> (flows: Vec<Flow>)
    ensures
        flow_views(flows@) == apk_flows(
            dex_entry_views(dex_entries@),
            manifest@,
            file_patterns(),
            depth_or_default(max_depth),
        ),
{
    let analyzer = create_data_flow_analyzer(dex_entries, manifest);
    analyzer.find_file_flows(depth_of(max_depth))
}

/// Convenience: Find network flows from APK.
pub fn find_network_flows_from_apk(
    dex_entries: &[DexEntry],
    manifest: RustManifestInfo,
    max_depth: Option<usize>,
) -> (flows: Vec<Flow>)
    ensures
        flow_views(flows@) == apk_flows(
            dex_entry_views(dex_entries@),
            manifest@,
            network_patterns(),
            depth_or_default(max_depth),
        ),
{
    let analyzer = create_data_flow_analyzer(dex_entries, manifest);
    analyzer.find_network_flows(depth_of(max_depth))
}

/// Find WebView flows from APK, under the name this search had first.
pub fn analyze_webview_flows_from_apk(
    dex_entries: &[DexEntry],
    manifest: RustManifestInfo,
    max_depth: Option<usize>,
) -> (flows: Vec<Flow>)
    ensures
        flow_views(flows@) == apk_flows(
            dex_entry_views(dex_entries@),
            manifest@,
            webview_patterns(),
            depth_or_default(max_depth),
        ),
{
    find_webview_flows_from_apk(dex_entries, manifest, max_depth)
}

/// Create a data flow analyzer, under the name this function had first.
pub fn create_webview_analyzer_from_apk(dex_entries: &[DexEntry], manifest: RustManifestInfo) -> (analyzer:
    DataFlowAnalyzer)
    ensures
        analyzer.entry_analyzer.manifest == manifest,
        class_views(analyzer.entry_analyzer.classes@) == manifest_classes(
            dex_entry_views(dex_entries@),
            manifest@,
        ),
        analyzer.call_graph@ == apk_graph(dex_entry_views(dex_entries@), None),
{
    create_data_flow_analyzer(dex_entries, manifest)
}

} // verus!
