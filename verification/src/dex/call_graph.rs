//! Call graph of a decompiled program.
//!
//! Nodes are methods named `Class.method`; an edge is one call site. The
//! graph keeps its edges and its methods in the order in which they were
//! added, and path search follows that order.

use vstd::prelude::*;
use crate::apk::extractor::{dex_entry_views, DexEntry, DexEntryView};
use crate::dex::class_decompiler::{
    decompile_class, decompile_class_spec, DecompiledClass, DecompiledClassView, DecompiledMethod,
    DecompiledMethodView,
};
use crate::dex::parser::{
    get_class_def_spec, get_type_name_spec, header_error, header_of, lemma_header_unique, ClassDef,
    DexHeader, DexParser,
};
use crate::dex::expression_builder::{ReconstructedExpression, ReconstructedExpressionView};
use crate::text::{
    before_first, chars_of, clone_strings, first_index_of, join, occurs_at, replace_char,
    replace_char_spec, seq_contains, str_before_first, str_contains, str_find, string_of_range,
    string_without_last, views, without_last,
};

verus! {

/// Represents a method call edge in the call graph.
#[derive(Clone, Debug)]
pub struct MethodCall {
    /// Caller method signature.
    pub caller: String,
    /// Callee method signature.
    pub callee: String,
    /// Call site information.
    pub call_site: String,
}

/// The mathematical value of a [`MethodCall`].
pub ghost struct MethodCallView {
    pub caller: Seq<char>,
    pub callee: Seq<char>,
    pub call_site: Seq<char>,
}

impl View for MethodCall {
    type V = MethodCallView;

    open spec fn view(&self) -> MethodCallView {
        MethodCallView { caller: self.caller@, callee: self.callee@, call_site: self.call_site@ }
    }
}

impl MethodCall {
    /// A copy of this edge.
    pub fn duplicate(&self) -> (copy: MethodCall)
        ensures
            copy@ == self@,
    {
        MethodCall {
            caller: self.caller.clone(),
            callee: self.callee.clone(),
            call_site: self.call_site.clone(),
        }
    }
}

/// The views of a sequence of edges.
pub open spec fn call_views(calls: Seq<MethodCall>) -> Seq<MethodCallView> {
    calls.map_values(|c: MethodCall| c@)
}

/// A copy of a vector of edges.
pub fn clone_calls(calls: &Vec<MethodCall>) -> (out: Vec<MethodCall>)
    ensures
        call_views(out@) == call_views(calls@),
{
    let mut out: Vec<MethodCall> = Vec::new();
    let mut i: usize = 0;
    while i < calls.len()
        invariant
            i <= calls@.len(),
            out@.len() == i,
            forall|j: int| 0 <= j < i ==> (#[trigger] out@[j])@ == calls@[j]@,
        decreases calls@.len() - i,
    {
        out.push(calls[i].duplicate());
        i += 1;
    }
    assert(call_views(out@) =~= call_views(calls@));
    out
}

/// Represents a path from one method to another through the call graph.
#[derive(Clone, Debug)]
pub struct CallPath {
    /// List of method signatures in the path.
    pub methods: Vec<String>,
    /// List of call edges in the path.
    pub calls: Vec<MethodCall>,
    /// Path length (number of hops).
    pub length: usize,
}

/// The mathematical value of a [`CallPath`].
pub ghost struct CallPathView {
    pub methods: Seq<Seq<char>>,
    pub calls: Seq<MethodCallView>,
    pub length: usize,
}

impl View for CallPath {
    type V = CallPathView;

    open spec fn view(&self) -> CallPathView {
        CallPathView {
            methods: views(self.methods@),
            calls: call_views(self.calls@),
            length: self.length,
        }
    }
}

/// The views of a sequence of paths.
pub open spec fn path_views(paths: Seq<CallPath>) -> Seq<CallPathView> {
    paths.map_values(|p: CallPath| p@)
}

impl CallPathView {
    /// Some method of the path holds `method` in its name.
    pub open spec fn contains_method(self, method: Seq<char>) -> bool {
        exists|i: int| 0 <= i < self.methods.len() && seq_contains(#[trigger] self.methods[i], method)
    }
}

impl CallPath {
    /// Get the source method (first in path).
    pub fn get_source(&self) -> (source: Option<String>)
        ensures
            match source {
                Some(s) => self@.methods.len() > 0 && s@ == self@.methods[0],
                None => self@.methods.len() == 0,
            },
    {
        if self.methods.len() == 0 {
            None
        } else {
            Some(self.methods[0].clone())
        }
    }

    /// Get the target method (last in path).
    pub fn get_target(&self) -> (target: Option<String>)
        ensures
            match target {
                Some(s) => self@.methods.len() > 0 && s@ == self@.methods.last(),
                None => self@.methods.len() == 0,
            },
    {
        if self.methods.len() == 0 {
            None
        } else {
            Some(self.methods[self.methods.len() - 1].clone())
        }
    }

    /// Check if path contains a specific method.
    pub fn contains_method(&self, method: &str) -> (found: bool)
        ensures
            found == self@.contains_method(method@),
    {
        let mut i: usize = 0;
        while i < self.methods.len()
            invariant
                i <= self.methods@.len(),
                forall|j: int| 0 <= j < i ==> !seq_contains(#[trigger] self@.methods[j], method@),
            decreases self.methods@.len() - i,
        {
            if str_contains(self.methods[i].as_str(), method) {
                assert(seq_contains(self@.methods[i as int], method@));
                return true;
            }
            i += 1;
        }
        false
    }

    /// A copy of this path.
    pub fn duplicate(&self) -> (copy: CallPath)
        ensures
            copy@ == self@,
    {
        CallPath {
            methods: clone_strings(&self.methods),
            calls: clone_calls(&self.calls),
            length: self.length,
        }
    }
}

/// A copy of a vector of paths.
pub fn clone_paths(paths: &Vec<CallPath>) -> (out: Vec<CallPath>)
    ensures
        path_views(out@) == path_views(paths@),
{
    let mut out: Vec<CallPath> = Vec::new();
    let mut i: usize = 0;
    while i < paths.len()
        invariant
            i <= paths@.len(),
            out@.len() == i,
            forall|j: int| 0 <= j < i ==> (#[trigger] out@[j])@ == paths@[j]@,
        decreases paths@.len() - i,
    {
        out.push(paths[i].duplicate());
        i += 1;
    }
    assert(path_views(out@) =~= path_views(paths@));
    out
}

/// Call Graph structure for analyzing method invocations.
#[derive(Clone)]
pub struct CallGraph {
    /// All call edges, in the order in which they were added.
    pub edges: Vec<MethodCall>,
    /// All methods in the graph, each once, in the order in which they
    /// were first named.
    pub methods: Vec<String>,
}

/// The mathematical value of a [`CallGraph`].
pub ghost struct CallGraphView {
    pub edges: Seq<MethodCallView>,
    pub methods: Seq<Seq<char>>,
}

impl View for CallGraph {
    type V = CallGraphView;

    open spec fn view(&self) -> CallGraphView {
        CallGraphView { edges: call_views(self.edges@), methods: views(self.methods@) }
    }
}

/// `names` with `name` added at the end, unless it is there already.
pub open spec fn with_name(names: Seq<Seq<char>>, name: Seq<char>) -> Seq<Seq<char>> {
    if names.contains(name) {
        names
    } else {
        names.push(name)
    }
}

/// Counts of a call graph.
#[derive(Clone, Copy, Debug, PartialEq, Eq)]
pub struct CallGraphStats {
    pub total_methods: usize,
    pub total_edges: usize,
}

impl CallGraphView {
    /// The graph without methods or edges.
    pub open spec fn empty() -> CallGraphView {
        CallGraphView { edges: Seq::empty(), methods: Seq::empty() }
    }

    /// No method is listed twice, and both ends of every edge are listed.
    pub open spec fn wf(self) -> bool {
        &&& self.methods.no_duplicates()
        &&& forall|i: int|
            0 <= i < self.edges.len() ==> self.methods.contains((#[trigger] self.edges[i]).caller)
                && self.methods.contains(self.edges[i].callee)
    }

    /// The graph with one more edge, whose ends join the methods.
    pub open spec fn with_call(self, call: MethodCallView) -> CallGraphView {
        CallGraphView {
            edges: self.edges.push(call),
            methods: with_name(with_name(self.methods, call.caller), call.callee),
        }
    }

    /// The graph with the edges `calls` added in order.
    pub open spec fn with_calls(self, calls: Seq<MethodCallView>) -> CallGraphView
        decreases calls.len(),
    {
        if calls.len() == 0 {
            self
        } else {
            self.with_calls(calls.drop_last()).with_call(calls.last())
        }
    }

    /// The edges that leave `method`, in the order in which they were added.
    pub open spec fn edges_from(self, method: Seq<char>) -> Seq<MethodCallView> {
        self.edges.filter(|e: MethodCallView| e.caller == method)
    }

    /// The edges that enter `method`, in the order in which they were added.
    pub open spec fn edges_to(self, method: Seq<char>) -> Seq<MethodCallView> {
        self.edges.filter(|e: MethodCallView| e.callee == method)
    }

    /// The methods that `method` calls, one for each call site.
    pub open spec fn callees(self, method: Seq<char>) -> Seq<Seq<char>> {
        self.edges_from(method).map_values(|e: MethodCallView| e.callee)
    }

    /// The methods that call `method`, one for each call site.
    pub open spec fn callers(self, method: Seq<char>) -> Seq<Seq<char>> {
        self.edges_to(method).map_values(|e: MethodCallView| e.caller)
    }

    /// The methods whose name holds `pattern`.
    pub open spec fn methods_matching(self, pattern: Seq<char>) -> Seq<Seq<char>> {
        self.methods.filter(|m: Seq<char>| seq_contains(m, pattern))
    }
}

/// Adding a name keeps a list free of duplicates and keeps what it held.
pub proof fn lemma_with_name(names: Seq<Seq<char>>, name: Seq<char>)
    requires
        names.no_duplicates(),
    ensures
        with_name(names, name).no_duplicates(),
        with_name(names, name).contains(name),
        forall|other: Seq<char>| names.contains(other) ==> with_name(names, name).contains(other),
{
    if !names.contains(name) {
        let out = names.push(name);
        assert(out[names.len() as int] == name);
        assert forall|other: Seq<char>| names.contains(other) implies out.contains(other) by {
            let i = choose|i: int| 0 <= i < names.len() && names[i] == other;
            assert(out[i] == other);
        }
    }
}

/// Adding an edge keeps a graph well formed.
pub proof fn lemma_with_call_wf(graph: CallGraphView, call: MethodCallView)
    requires
        graph.wf(),
    ensures
        graph.with_call(call).wf(),
{
    let m1 = with_name(graph.methods, call.caller);
    lemma_with_name(graph.methods, call.caller);
    lemma_with_name(m1, call.callee);
    let out = graph.with_call(call);
    assert forall|i: int| 0 <= i < out.edges.len() implies out.methods.contains(
        (#[trigger] out.edges[i]).caller,
    ) && out.methods.contains(out.edges[i].callee) by {
        if i < graph.edges.len() {
            assert(out.edges[i] == graph.edges[i]);
        }
    }
}

/// Adding edges keeps a graph well formed.
pub proof fn lemma_with_calls_wf(graph: CallGraphView, calls: Seq<MethodCallView>)
    requires
        graph.wf(),
    ensures
        graph.with_calls(calls).wf(),
    decreases calls.len(),
{
    if calls.len() > 0 {
        lemma_with_calls_wf(graph, calls.drop_last());
        lemma_with_call_wf(graph.with_calls(calls.drop_last()), calls.last());
    }
}

fn contains_name(names: &Vec<String>, name: &String) -> (found: bool)
    ensures
        found == views(names@).contains(name@),
{
    let mut i: usize = 0;
    while i < names.len()
        invariant
            i <= names@.len(),
            forall|j: int| 0 <= j < i ==> views(names@)[j] != name@,
        decreases names@.len() - i,
    {
        if names[i] == *name {
            assert(views(names@)[i as int] == name@);
            return true;
        }
        i += 1;
    }
    false
}

fn add_name(names: &mut Vec<String>, name: &String)
    ensures
        views(final(names)@) == with_name(views(old(names)@), name@),
{
    if !contains_name(names, name) {
        let ghost before = views(names@);
        names.push(name.clone());
        assert(views(names@) =~= before.push(name@));
    }
}

impl CallGraph {
    /// Create a new empty call graph.
    pub fn new() -> (graph: CallGraph)
        ensures
            graph@ == CallGraphView::empty(),
            graph@.wf(),
    {
        let graph = CallGraph { edges: Vec::new(), methods: Vec::new() };
        assert(graph@.edges =~= Seq::<MethodCallView>::empty());
        assert(graph@.methods =~= Seq::<Seq<char>>::empty());
        graph
    }

    /// Add a method call edge to the graph.
    pub fn add_call(&mut self, caller: String, callee: String, call_site: String)
        ensures
            final(self)@ == old(self)@.with_call(
                MethodCallView { caller: caller@, callee: callee@, call_site: call_site@ },
            ),
            old(self)@.wf() ==> final(self)@.wf(),
    {
        proof {
            if self@.wf() {
                lemma_with_call_wf(
                    self@,
                    MethodCallView { caller: caller@, callee: callee@, call_site: call_site@ },
                );
            }
        }
        add_name(&mut self.methods, &caller);
        add_name(&mut self.methods, &callee);
        let ghost before = call_views(self.edges@);
        let call = MethodCall { caller, callee, call_site };
        self.edges.push(call);
        assert(call_views(self.edges@) =~= before.push(call@));
    }

    /// Get all methods called by a given method.
    pub fn get_callees(&self, method: &str) -> (callees: Vec<String>)
        ensures
            views(callees@) == self@.callees(method@),
    {
        let mut callees: Vec<String> = Vec::new();
        let ghost all = self@.edges;
        let ghost keep = |e: MethodCallView| e.caller == method@;
        let ghost pick = |e: MethodCallView| e.callee;
        let mut k: usize = 0;
        assert(views(callees@) =~= all.take(0).filter(keep).map_values(pick));
        while k < self.edges.len()
            invariant
                k <= self.edges@.len(),
                all == self@.edges,
                keep == |e: MethodCallView| e.caller == method@,
                pick == |e: MethodCallView| e.callee,
                views(callees@) == all.take(k as int).filter(keep).map_values(pick),
            decreases self.edges@.len() - k,
        {
            let ghost before = views(callees@);
            proof {
                assert(all.take(k + 1).drop_last() =~= all.take(k as int));
                assert(all.take(k + 1).last() == self.edges@[k as int]@);
                reveal(Seq::filter);
            }
            if crate::text::str_eq(self.edges[k].caller.as_str(), method) {
                callees.push(self.edges[k].callee.clone());
                assert(views(callees@) =~= before.push(self.edges@[k as int]@.callee));
                assert(all.take(k + 1).filter(keep).map_values(pick) =~= all.take(k as int).filter(
                    keep,
                ).map_values(pick).push(self.edges@[k as int]@.callee));
            }
            k += 1;
        }
        assert(all.take(all.len() as int) =~= all);
        callees
    }

    /// Get all methods that call a given method.
    pub fn get_callers(&self, method: &str) -> (callers: Vec<String>)
        ensures
            views(callers@) == self@.callers(method@),
    {
        let mut callers: Vec<String> = Vec::new();
        let ghost all = self@.edges;
        let ghost keep = |e: MethodCallView| e.callee == method@;
        let ghost pick = |e: MethodCallView| e.caller;
        let mut k: usize = 0;
        assert(views(callers@) =~= all.take(0).filter(keep).map_values(pick));
        while k < self.edges.len()
            invariant
                k <= self.edges@.len(),
                all == self@.edges,
                keep == |e: MethodCallView| e.callee == method@,
                pick == |e: MethodCallView| e.caller,
                views(callers@) == all.take(k as int).filter(keep).map_values(pick),
            decreases self.edges@.len() - k,
        {
            let ghost before = views(callers@);
            proof {
                assert(all.take(k + 1).drop_last() =~= all.take(k as int));
                assert(all.take(k + 1).last() == self.edges@[k as int]@);
                reveal(Seq::filter);
            }
            if crate::text::str_eq(self.edges[k].callee.as_str(), method) {
                callers.push(self.edges[k].caller.clone());
                assert(views(callers@) =~= before.push(self.edges@[k as int]@.caller));
                assert(all.take(k + 1).filter(keep).map_values(pick) =~= all.take(k as int).filter(
                    keep,
                ).map_values(pick).push(self.edges@[k as int]@.caller));
            }
            k += 1;
        }
        assert(all.take(all.len() as int) =~= all);
        callers
    }

    /// Find all methods that match a pattern (e.g., "WebView.loadUrl").
    pub fn find_methods_matching(&self, pattern: &str) -> (found: Vec<String>)
        ensures
            views(found@) == self@.methods_matching(pattern@),
    {
        let mut found: Vec<String> = Vec::new();
        let ghost all = self@.methods;
        let ghost keep = |m: Seq<char>| seq_contains(m, pattern@);
        let mut k: usize = 0;
        assert(views(found@) =~= all.take(0).filter(keep));
        while k < self.methods.len()
            invariant
                k <= self.methods@.len(),
                all == self@.methods,
                keep == |m: Seq<char>| seq_contains(m, pattern@),
                views(found@) == all.take(k as int).filter(keep),
            decreases self.methods@.len() - k,
        {
            let ghost before = views(found@);
            proof {
                assert(all.take(k + 1).drop_last() =~= all.take(k as int));
                assert(all.take(k + 1).last() == self.methods@[k as int]@);
                reveal(Seq::filter);
            }
            if str_contains(self.methods[k].as_str(), pattern) {
                found.push(self.methods[k].clone());
                assert(views(found@) =~= before.push(self.methods@[k as int]@));
            }
            k += 1;
        }
        assert(all.take(all.len() as int) =~= all);
        found
    }

    /// Get all methods in the graph.
    pub fn get_all_methods(&self) -> (methods: Vec<String>)
        ensures
            views(methods@) == self@.methods,
    {
        clone_strings(&self.methods)
    }

    /// Get graph statistics.
    pub fn get_stats(&self) -> (stats: CallGraphStats)
        ensures
            stats.total_methods == self@.methods.len(),
            stats.total_edges == self@.edges.len(),
    {
        CallGraphStats { total_methods: self.methods.len(), total_edges: self.edges.len() }
    }
}

/// The walk that stands at `source` and has gone nowhere yet.
pub open spec fn start_walk(source: Seq<char>) -> CallPathView {
    CallPathView { methods: seq![source], calls: Seq::empty(), length: 0 }
}

/// The walk `walk` after it followed the edge `edge`.
pub open spec fn step_walk(walk: CallPathView, edge: MethodCallView) -> CallPathView {
    CallPathView {
        methods: walk.methods.push(edge.callee),
        calls: walk.calls.push(edge),
        length: walk.methods.len() as usize,
    }
}

/// The walk stands at a method whose name holds `target`.
pub open spec fn reaches(walk: CallPathView, target: Seq<char>) -> bool {
    seq_contains(walk.methods.last(), target)
}

/// The edge leaves the method at which the walk stands and leads to a
/// method that the walk has not visited.
pub open spec fn may_follow(walk: CallPathView, edge: MethodCallView) -> bool {
    edge.caller == walk.methods.last() && !walk.methods.contains(edge.callee)
}

/// The walks that `walk` gives by following one of the first `n` edges, in
/// edge order.
pub open spec fn extensions(edges: Seq<MethodCallView>, walk: CallPathView, n: nat) -> Seq<
    CallPathView,
>
    decreases n,
{
    if n == 0 || n > edges.len() {
        Seq::empty()
    } else {
        let before = extensions(edges, walk, (n - 1) as nat);
        if may_follow(walk, edges[n - 1]) {
            before.push(step_walk(walk, edges[n - 1]))
        } else {
            before
        }
    }
}

/// The walks one hop longer than `walks`: each walk that has not reached the
/// target is extended by every edge it may follow; walks and edges are taken
/// in order.
pub open spec fn next_level(edges: Seq<MethodCallView>, walks: Seq<CallPathView>, target: Seq<char>) -> Seq<
    CallPathView,
>
    decreases walks.len(),
{
    if walks.len() == 0 {
        Seq::empty()
    } else {
        let before = next_level(edges, walks.drop_last(), target);
        if reaches(walks.last(), target) {
            before
        } else {
            before + extensions(edges, walks.last(), edges.len())
        }
    }
}

/// The walks of `hops` hops that a breadth-first search from `source` visits,
/// in the order in which it visits them.
pub open spec fn level(
    edges: Seq<MethodCallView>,
    source: Seq<char>,
    target: Seq<char>,
    hops: nat,
) -> Seq<CallPathView>
    decreases hops,
{
    if hops == 0 {
        seq![start_walk(source)]
    } else {
        next_level(edges, level(edges, source, target, (hops - 1) as nat), target)
    }
}

/// The walks among `walks` that have reached the target.
pub open spec fn arrivals(walks: Seq<CallPathView>, target: Seq<char>) -> Seq<CallPathView> {
    walks.filter(|w: CallPathView| reaches(w, target))
}

/// The paths that a breadth-first search from `source` records when it
/// gives up on walks of more than `depth` methods: the walks of fewer than
/// `depth` hops that reach the target, shortest first.
pub open spec fn paths_within(
    edges: Seq<MethodCallView>,
    source: Seq<char>,
    target: Seq<char>,
    depth: nat,
) -> Seq<CallPathView>
    decreases depth,
{
    if depth == 0 {
        Seq::empty()
    } else {
        paths_within(edges, source, target, (depth - 1) as nat) + arrivals(
            level(edges, source, target, (depth - 1) as nat),
            target,
        )
    }
}

/// `walk` is a path of the graph with `hops` edges that starts at `source`
/// and visits no method twice: each of its edges is an edge of the graph and
/// joins two neighbours of the walk.
pub open spec fn is_simple_walk(
    edges: Seq<MethodCallView>,
    source: Seq<char>,
    walk: CallPathView,
    hops: nat,
) -> bool {
    &&& walk.methods.len() == hops + 1
    &&& walk.calls.len() == hops
    &&& walk.length == hops
    &&& walk.methods[0] == source
    &&& walk.methods.no_duplicates()
    &&& forall|i: int|
        0 <= i < hops ==> edges.contains(#[trigger] walk.calls[i]) && walk.calls[i].caller
            == walk.methods[i] && walk.calls[i].callee == walk.methods[i + 1]
}

/// Every walk of a sequence is a simple walk of `hops` edges.
pub open spec fn all_simple_walks(
    edges: Seq<MethodCallView>,
    source: Seq<char>,
    walks: Seq<CallPathView>,
    hops: nat,
) -> bool {
    forall|i: int| 0 <= i < walks.len() ==> is_simple_walk(edges, source, #[trigger] walks[i], hops)
}

/// Following an edge that a simple walk may follow gives a simple walk.
pub proof fn lemma_step_walk_simple(
    edges: Seq<MethodCallView>,
    source: Seq<char>,
    walk: CallPathView,
    hops: nat,
    j: int,
)
    requires
        is_simple_walk(edges, source, walk, hops),
        0 <= j < edges.len(),
        may_follow(walk, edges[j]),
        hops + 1 <= usize::MAX,
    ensures
        is_simple_walk(edges, source, step_walk(walk, edges[j]), hops + 1),
{
    let next = step_walk(walk, edges[j]);
    assert forall|a: int, b: int|
        0 <= a < next.methods.len() && 0 <= b < next.methods.len() && a != b implies next.methods[a]
        != next.methods[b] by {
        if a == hops + 1 {
            assert(walk.methods[b] == next.methods[b]);
            assert(walk.methods.contains(walk.methods[b]));
        } else if b == hops + 1 {
            assert(walk.methods[a] == next.methods[a]);
            assert(walk.methods.contains(walk.methods[a]));
        }
    }
    assert forall|i: int| 0 <= i < hops + 1 implies edges.contains(#[trigger] next.calls[i])
        && next.calls[i].caller == next.methods[i] && next.calls[i].callee == next.methods[i
        + 1] by {
        if i < hops {
            assert(next.calls[i] == walk.calls[i]);
        } else {
            assert(next.calls[i] == edges[j]);
        }
    }
}

/// The extensions of a simple walk are simple walks, one hop longer.
pub proof fn lemma_extensions_simple(
    edges: Seq<MethodCallView>,
    source: Seq<char>,
    walk: CallPathView,
    hops: nat,
    n: nat,
)
    requires
        is_simple_walk(edges, source, walk, hops),
        n <= edges.len(),
        hops + 1 <= usize::MAX,
    ensures
        all_simple_walks(edges, source, extensions(edges, walk, n), hops + 1),
    decreases n,
{
    if n > 0 {
        lemma_extensions_simple(edges, source, walk, hops, (n - 1) as nat);
        if may_follow(walk, edges[n - 1]) {
            lemma_step_walk_simple(edges, source, walk, hops, n - 1);
        }
    }
}

/// The walks that follow simple walks are simple walks, one hop longer.
pub proof fn lemma_next_level_simple(
    edges: Seq<MethodCallView>,
    source: Seq<char>,
    target: Seq<char>,
    walks: Seq<CallPathView>,
    hops: nat,
)
    requires
        all_simple_walks(edges, source, walks, hops),
        hops + 1 <= usize::MAX,
    ensures
        all_simple_walks(edges, source, next_level(edges, walks, target), hops + 1),
    decreases walks.len(),
{
    if walks.len() > 0 {
        assert forall|i: int| 0 <= i < walks.drop_last().len() implies is_simple_walk(
            edges,
            source,
            #[trigger] walks.drop_last()[i],
            hops,
        ) by {
            assert(walks.drop_last()[i] == walks[i]);
        }
        lemma_next_level_simple(edges, source, target, walks.drop_last(), hops);
        assert(is_simple_walk(edges, source, walks[walks.len() - 1], hops));
        lemma_extensions_simple(edges, source, walks.last(), hops, edges.len());
    }
}

/// Every walk that the search visits is a simple walk from the source.
pub proof fn lemma_level_simple(
    edges: Seq<MethodCallView>,
    source: Seq<char>,
    target: Seq<char>,
    hops: nat,
)
    requires
        hops <= usize::MAX,
    ensures
        all_simple_walks(edges, source, level(edges, source, target, hops), hops),
    decreases hops,
{
    if hops > 0 {
        lemma_level_simple(edges, source, target, (hops - 1) as nat);
        lemma_next_level_simple(
            edges,
            source,
            target,
            level(edges, source, target, (hops - 1) as nat),
            (hops - 1) as nat,
        );
    }
}

/// Every path that the search returns is a path of the graph that starts at
/// the source, ends at a method whose name holds the target, has fewer than
/// `depth` edges, and visits no method twice.
pub proof fn lemma_paths_are_simple(
    edges: Seq<MethodCallView>,
    source: Seq<char>,
    target: Seq<char>,
    depth: nat,
)
    requires
        depth <= usize::MAX,
    ensures
        forall|i: int|
            0 <= i < paths_within(edges, source, target, depth).len() ==> {
                let path = #[trigger] paths_within(edges, source, target, depth)[i];
                &&& path.methods.no_duplicates()
                &&& reaches(path, target)
                &&& path.length < depth
                &&& is_simple_walk(edges, source, path, path.length as nat)
            },
    decreases depth,
{
    if depth > 0 {
        let hops = (depth - 1) as nat;
        lemma_paths_are_simple(edges, source, target, hops);
        lemma_level_simple(edges, source, target, hops);
        let before = paths_within(edges, source, target, hops);
        let walks = level(edges, source, target, hops);
        let keep = |w: CallPathView| reaches(w, target);
        let hits = arrivals(walks, target);
        assert forall|i: int| 0 <= i < paths_within(edges, source, target, depth).len() implies {
            let path = #[trigger] paths_within(edges, source, target, depth)[i];
            &&& path.methods.no_duplicates()
            &&& reaches(path, target)
            &&& path.length < depth
            &&& is_simple_walk(edges, source, path, path.length as nat)
        } by {
            let path = paths_within(edges, source, target, depth)[i];
            if i < before.len() {
                assert(path == before[i]);
            } else {
                let k = i - before.len();
                assert(path == hits[k]);
                walks.lemma_filter_pred(keep, k);
                assert(hits.contains(hits[k]));
                walks.lemma_filter_contains_rev(keep, hits[k]);
                let j = choose|j: int| 0 <= j < walks.len() && walks[j] == path;
                assert(is_simple_walk(edges, source, walks[j], hops));
            }
        }
    }
}

/// Once the search has no walk left to extend it finds nothing more.
pub proof fn lemma_search_ends(
    edges: Seq<MethodCallView>,
    source: Seq<char>,
    target: Seq<char>,
    hops: nat,
    depth: nat,
)
    requires
        hops <= depth,
        level(edges, source, target, hops).len() == 0,
    ensures
        level(edges, source, target, depth).len() == 0,
        paths_within(edges, source, target, depth) == paths_within(edges, source, target, hops),
    decreases depth - hops,
{
    if hops < depth {
        lemma_search_ends(edges, source, target, hops, (depth - 1) as nat);
        let walks = level(edges, source, target, (depth - 1) as nat);
        assert(walks =~= Seq::<CallPathView>::empty());
        reveal(Seq::filter);
        assert(arrivals(walks, target) =~= Seq::<CallPathView>::empty());
        assert(paths_within(edges, source, target, depth) =~= paths_within(
            edges,
            source,
            target,
            (depth - 1) as nat,
        ));
    }
}

/// A larger depth bound only adds paths: the paths found within `depth` are
/// the first of those found within any larger bound.
pub proof fn lemma_paths_grow_with_depth(
    edges: Seq<MethodCallView>,
    source: Seq<char>,
    target: Seq<char>,
    depth: nat,
    larger: nat,
)
    requires
        depth <= larger,
    ensures
        paths_within(edges, source, target, depth).is_prefix_of(
            paths_within(edges, source, target, larger),
        ),
    decreases larger - depth,
{
    if depth < larger {
        lemma_paths_grow_with_depth(edges, source, target, depth, (larger - 1) as nat);
        let a = paths_within(edges, source, target, depth);
        let b = paths_within(edges, source, target, (larger - 1) as nat);
        let c = paths_within(edges, source, target, larger);
        assert(b.is_prefix_of(c)) by {
            assert(c.subrange(0, b.len() as int) =~= b);
        }
        assert(a =~= c.subrange(0, a.len() as int)) by {
            assert(a == b.subrange(0, a.len() as int));
        }
    }
}

impl CallGraphView {
    /// The paths from `source` to methods whose name holds `target`, as a
    /// breadth-first search bounded by `max_depth` finds them.
    pub open spec fn find_paths(self, source: Seq<char>, target: Seq<char>, max_depth: nat) -> Seq<
        CallPathView,
    > {
        paths_within(self.edges, source, target, max_depth)
    }
}

impl CallGraph {
    /// The walks that `walk` gives by following one edge, added to `next`.
    fn extend_walk(&self, walk: &CallPath, next: &mut Vec<CallPath>)
        requires
            walk@.methods.len() > 0,
        ensures
            path_views(final(next)@) == path_views(old(next)@) + extensions(
                self@.edges,
                walk@,
                self@.edges.len(),
            ),
    {
        let ghost edges = self@.edges;
        let ghost start = path_views(next@);
        let last = &walk.methods[walk.methods.len() - 1];
        let mut j: usize = 0;
        assert(start + extensions(edges, walk@, 0) =~= start);
        while j < self.edges.len()
            invariant
                j <= self.edges@.len(),
                edges == self@.edges,
                walk@.methods.len() > 0,
                last@ == walk@.methods.last(),
                path_views(next@) == start + extensions(edges, walk@, j as nat),
            decreases self.edges@.len() - j,
        {
            let edge = &self.edges[j];
            let ghost before = path_views(next@);
            assert(edges[j as int] == edge@);
            if edge.caller == *last && !contains_name(&walk.methods, &edge.callee) {
                let mut methods = clone_strings(&walk.methods);
                let ghost m0 = views(methods@);
                methods.push(edge.callee.clone());
                assert(views(methods@) =~= m0.push(edge@.callee));
                let mut calls = clone_calls(&walk.calls);
                let ghost c0 = call_views(calls@);
                calls.push(edge.duplicate());
                assert(call_views(calls@) =~= c0.push(edge@));
                let longer = CallPath { methods, calls, length: walk.methods.len() };
                assert(longer@ == step_walk(walk@, edge@));
                next.push(longer);
                assert(path_views(next@) =~= before.push(longer@));
                assert(start + extensions(edges, walk@, j as nat).push(longer@) =~= (start
                    + extensions(edges, walk@, j as nat)).push(longer@));
            }
            j += 1;
        }
    }

    /// Find all paths from source to target method (BFS with depth limit).
    ///
    /// A path is recorded when the method it has reached holds `target` in
    /// its name, and is not extended further. A walk never returns to a
    /// method it has visited. Walks of more than `max_depth` methods are
    /// given up. All paths within the bound are returned, shortest first.
    pub fn find_paths(&self, source: &str, target: &str, max_depth: usize) -> (paths: Vec<CallPath>)
        ensures
            path_views(paths@) == self@.find_paths(source@, target@, max_depth as nat),
            forall|i: int|
                0 <= i < paths@.len() ==> {
                    let path = (#[trigger] paths@[i])@;
                    &&& path.methods.no_duplicates()
                    &&& reaches(path, target@)
                    &&& path.length < max_depth
                    &&& is_simple_walk(self@.edges, source@, path, path.length as nat)
                },
    {
        let ghost edges = self@.edges;
        let mut paths: Vec<CallPath> = Vec::new();
        let mut first: Vec<String> = Vec::new();
        first.push(crate::text::owned(source));
        assert(views(first@) =~= seq![source@]);
        let none: Vec<MethodCall> = Vec::new();
        assert(call_views(none@) =~= Seq::<MethodCallView>::empty());
        let mut frontier: Vec<CallPath> = Vec::new();
        frontier.push(CallPath { methods: first, calls: none, length: 0 });
        assert(path_views(frontier@) =~= level(edges, source@, target@, 0));
        assert(path_views(paths@) =~= paths_within(edges, source@, target@, 0));
        let mut depth: usize = 0;
        while depth < max_depth && frontier.len() > 0
            invariant
                depth <= max_depth,
                edges == self@.edges,
                path_views(frontier@) == level(edges, source@, target@, depth as nat),
                path_views(paths@) == paths_within(edges, source@, target@, depth as nat),
            decreases max_depth - depth,
        {
            let ghost walks = path_views(frontier@);
            let ghost found = path_views(paths@);
            let ghost keep = |w: CallPathView| reaches(w, target@);
            let mut next: Vec<CallPath> = Vec::new();
            let mut i: usize = 0;
            proof {
                lemma_level_simple(edges, source@, target@, depth as nat);
                assert(walks.take(0) =~= Seq::<CallPathView>::empty());
                reveal(Seq::filter);
                assert(found + walks.take(0).filter(keep) =~= found);
                assert(path_views(next@) =~= next_level(edges, walks.take(0), target@));
            }
            while i < frontier.len()
                invariant
                    i <= frontier@.len(),
                    edges == self@.edges,
                    walks == path_views(frontier@),
                    keep == |w: CallPathView| reaches(w, target@),
                    all_simple_walks(edges, source@, walks, depth as nat),
                    path_views(next@) == next_level(edges, walks.take(i as int), target@),
                    path_views(paths@) == found + walks.take(i as int).filter(keep),
                decreases frontier@.len() - i,
            {
                let walk = &frontier[i];
                let ghost next_before = path_views(next@);
                let ghost paths_before = path_views(paths@);
                proof {
                    assert(walks[i as int] == walk@);
                    assert(is_simple_walk(edges, source@, walks[i as int], depth as nat));
                    assert(walks.take(i + 1).drop_last() =~= walks.take(i as int));
                    assert(walks.take(i + 1).last() == walk@);
                    reveal(Seq::filter);
                }
                if str_contains(walk.methods[walk.methods.len() - 1].as_str(), target) {
                    let copy = walk.duplicate();
                    paths.push(copy);
                    assert(path_views(paths@) =~= paths_before.push(walk@));
                    assert(found + walks.take(i as int).filter(keep).push(walk@) =~= (found
                        + walks.take(i as int).filter(keep)).push(walk@));
                } else {
                    self.extend_walk(walk, &mut next);
                }
                i += 1;
            }
            proof {
                assert(walks.take(walks.len() as int) =~= walks);
            }
            frontier = next;
            depth += 1;
        }
        proof {
            if depth < max_depth {
                assert(path_views(frontier@).len() == 0);
                lemma_search_ends(edges, source@, target@, depth as nat, max_depth as nat);
            }
            lemma_paths_are_simple(edges, source@, target@, max_depth as nat);
            assert forall|i: int| 0 <= i < paths@.len() implies {
                let path = (#[trigger] paths@[i])@;
                &&& path.methods.no_duplicates()
                &&& reaches(path, target@)
                &&& path.length < max_depth
                &&& is_simple_walk(self@.edges, source@, path, path.length as nat)
            } by {
                assert(paths@[i]@ == path_views(paths@)[i]);
            }
        }
        paths
    }
}

/// Index of the first occurrence of `needle` in `hay`; meaningful where
/// there is one.
pub open spec fn first_occurrence(hay: Seq<char>, needle: Seq<char>) -> int {
    choose|i: int|
        occurs_at(hay, needle, i) && forall|j: int| 0 <= j < i ==> !occurs_at(hay, needle, j)
}

/// An index at which `needle` occurs, with no occurrence before it, is the
/// first occurrence.
pub proof fn lemma_first_occurrence(hay: Seq<char>, needle: Seq<char>, i: int)
    requires
        occurs_at(hay, needle, i),
        forall|j: int| 0 <= j < i ==> !occurs_at(hay, needle, j),
    ensures
        first_occurrence(hay, needle) == i,
{
    let f = first_occurrence(hay, needle);
    if f < i {
        assert(!occurs_at(hay, needle, f));
    } else if i < f {
        assert(!occurs_at(hay, needle, i));
    }
}

/// The callee named by a Dalvik-style reference `L<class>;-><name>(...)` in
/// `code`: the class, which stands between the first `L` and the first
/// `->` without the `;` that ends it, with `/` turned into `.`; then `.` and
/// what stands between that `->` and the next `(`. None if `code` has no
/// `->`, no `L`, or its first `L` stands after its first `->`.
#[verifier::opaque]
pub open spec fn parse_method_from_expression_spec(code: Seq<char>) -> Option<Seq<char>> {
    let start = first_index_of(code, 'L');
    let arrow = first_occurrence(code, "->"@);
    if !seq_contains(code, "->"@) || start >= code.len() || start >= arrow {
        None
    } else {
        Some(
            replace_char_spec(without_last(code.subrange(start + 1, arrow), ';'), '/', '.')
                + "."@ + before_first(
                code.subrange(arrow + 2, code.len() as int),
                '(',
            ),
        )
    }
}

/// The callee of an expression that is a method call: its signature if it
/// has one, else what its text names.
pub open spec fn extract_method_call_spec(expr: ReconstructedExpressionView) -> Option<Seq<char>> {
    if !expr.is_method_call {
        None
    } else {
        match expr.method_signature {
            Some(signature) => Some(signature),
            None => parse_method_from_expression_spec(expr.expression),
        }
    }
}

/// The edge for an expression of the method `method_name` of the class
/// `class_name`, if the expression is a call: from `Class.method` to the
/// callee, with the call site `method:type`.
pub open spec fn expression_call(
    class_name: Seq<char>,
    method_name: Seq<char>,
    expr: ReconstructedExpressionView,
) -> Option<MethodCallView> {
    match extract_method_call_spec(expr) {
        Some(callee) => Some(
            MethodCallView {
                caller: class_name + "."@ + method_name,
                callee,
                call_site: method_name + ":"@ + expr.value_type,
            },
        ),
        None => None,
    }
}

/// The edges for the first `n` expressions of a method, in order.
pub open spec fn method_calls(class_name: Seq<char>, method: DecompiledMethodView, n: nat) -> Seq<
    MethodCallView,
>
    decreases n,
{
    if n == 0 || n > method.expressions.len() {
        Seq::empty()
    } else {
        let before = method_calls(class_name, method, (n - 1) as nat);
        match expression_call(class_name, method.name, method.expressions[n - 1]) {
            Some(call) => before.push(call),
            None => before,
        }
    }
}

/// The edges for the first `n` methods of a class, in order.
pub open spec fn class_calls(class: DecompiledClassView, n: nat) -> Seq<MethodCallView>
    decreases n,
{
    if n == 0 || n > class.methods.len() {
        Seq::empty()
    } else {
        class_calls(class, (n - 1) as nat) + method_calls(
            class.class_name,
            class.methods[n - 1],
            class.methods[n - 1].expressions.len(),
        )
    }
}

/// The graph with the edges of one more expression of a method is the
/// graph with the edges of the expressions before it, and with the edge of
/// that expression if it is a call.
pub proof fn lemma_method_calls_step(
    graph: CallGraphView,
    class_name: Seq<char>,
    method: DecompiledMethodView,
    k: nat,
)
    requires
        k < method.expressions.len(),
    ensures
        graph.with_calls(method_calls(class_name, method, k + 1)) == (match expression_call(
            class_name,
            method.name,
            method.expressions[k as int],
        ) {
            Some(call) => graph.with_calls(method_calls(class_name, method, k)).with_call(call),
            None => graph.with_calls(method_calls(class_name, method, k)),
        }),
{
    let done = method_calls(class_name, method, k);
    match expression_call(class_name, method.name, method.expressions[k as int]) {
        Some(call) => {
            assert(done.push(call).drop_last() =~= done);
            assert(done.push(call).last() == call);
        },
        None => {},
    }
}

/// Adding two runs of edges one after the other is adding their
/// concatenation.
pub proof fn lemma_with_calls_add(graph: CallGraphView, a: Seq<MethodCallView>, b: Seq<MethodCallView>)
    ensures
        graph.with_calls(a + b) == graph.with_calls(a).with_calls(b),
    decreases b.len(),
{
    if b.len() == 0 {
        assert(a + b =~= a);
    } else {
        assert((a + b).drop_last() =~= a + b.drop_last());
        assert((a + b).last() == b.last());
        lemma_with_calls_add(graph, a, b.drop_last());
    }
}

/// Call Graph Builder - constructs call graphs from decompiled classes.
pub struct CallGraphBuilder {
    pub graph: CallGraph,
}

impl CallGraphBuilder {
    /// Create a new call graph builder.
    pub fn new() -> (builder: CallGraphBuilder)
        ensures
            builder.graph@ == CallGraphView::empty(),
            builder.graph@.wf(),
    {
        CallGraphBuilder { graph: CallGraph::new() }
    }

    /// Add a decompiled class to the call graph: one edge for each
    /// expression of its methods that is a call, in order.
    pub fn add_class(&mut self, class: &DecompiledClass)
        ensures
            final(self).graph@ == old(self).graph@.with_calls(
                class_calls(class@, class@.methods.len()),
            ),
            old(self).graph@.wf() ==> final(self).graph@.wf(),
    {
        let ghost start = self.graph@;
        let mut k: usize = 0;
        while k < class.methods.len()
            invariant
                k <= class.methods@.len(),
                self.graph@ == start.with_calls(class_calls(class@, k as nat)),
            decreases class.methods@.len() - k,
        {
            proof {
                lemma_with_calls_add(
                    start,
                    class_calls(class@, k as nat),
                    method_calls(
                        class@.class_name,
                        class@.methods[k as int],
                        class@.methods[k as int].expressions.len(),
                    ),
                );
                assert(class@.methods[k as int] == class.methods@[k as int]@);
            }
            self.add_method(class.class_name.as_str(), &class.methods[k]);
            k += 1;
        }
        proof {
            if start.wf() {
                lemma_with_calls_wf(start, class_calls(class@, class@.methods.len()));
            }
        }
    }

    /// Add a decompiled method to the call graph.
    pub fn add_method(&mut self, class_name: &str, method: &DecompiledMethod)
        ensures
            final(self).graph@ == old(self).graph@.with_calls(
                method_calls(class_name@, method@, method@.expressions.len()),
            ),
    {
        let ghost start = self.graph@;
        let mut method_sig = crate::text::owned(class_name);
        method_sig.append(".");
        method_sig.append(method.name.as_str());
        let mut k: usize = 0;
        while k < method.expressions.len()
            invariant
                k <= method.expressions@.len(),
                method_sig@ == class_name@ + "."@ + method@.name,
                self.graph@ == start.with_calls(method_calls(class_name@, method@, k as nat)),
            decreases method.expressions@.len() - k,
        {
            proof {
                assert(method@.expressions[k as int] == method.expressions@[k as int]@);
                lemma_method_calls_step(start, class_name@, method@, k as nat);
            }
            self.add_expression(class_name, &method_sig, &method.name, &method.expressions[k]);
            k += 1;
        }
    }

    /// Adds the edge for one expression of a method, if it is a call.
    fn add_expression(
        &mut self,
        class_name: &str,
        method_sig: &String,
        method_name: &String,
        expr: &ReconstructedExpression,
    )
        requires
            method_sig@ == class_name@ + "."@ + method_name@,
        ensures
            final(self).graph@ == match expression_call(class_name@, method_name@, expr@) {
                Some(call) => old(self).graph@.with_call(call),
                None => old(self).graph@,
            },
    {
        match self.extract_method_call(expr) {
            Some(callee) => {
                let mut call_site = method_name.clone();
                call_site.append(":");
                call_site.append(expr.value_type.as_str());
                self.graph.add_call(method_sig.clone(), callee, call_site);
            },
            None => {},
        }
    }

    /// Extract method call information from an expression.
    pub fn extract_method_call(&self, expr: &ReconstructedExpression) -> (callee: Option<String>)
        ensures
            match callee {
                Some(name) => extract_method_call_spec(expr@) == Some(name@),
                None => extract_method_call_spec(expr@) is None,
            },
    {
        if expr.is_method_call {
            match &expr.method_signature {
                Some(method_sig) => Some(method_sig.clone()),
                None => self.parse_method_from_expression(expr.expression.as_str()),
            }
        } else {
            None
        }
    }

    /// Parse method name from expression code.
    pub fn parse_method_from_expression(&self, code: &str) -> (callee: Option<String>)
        ensures
            match callee {
                Some(name) => parse_method_from_expression_spec(code@) == Some(name@),
                None => parse_method_from_expression_spec(code@) is None,
            },
    {
        let arrow = match str_find(code, "->") {
            Some(i) => i,
            None => {
                proof {
                    reveal(parse_method_from_expression_spec);
                }
                return None;
            },
        };
        proof {
            reveal(parse_method_from_expression_spec);
            lemma_first_occurrence(code@, "->"@, arrow as int);
            crate::text::lemma_first_index_of(code@, 'L');
            reveal_strlit("->");
        }
        let chars = chars_of(code);
        let len = chars.len();
        let mut start: usize = 0;
        while start < len && chars[start] != 'L'
            invariant
                start <= len == chars@.len(),
                forall|j: int| 0 <= j < start ==> chars@[j] != 'L',
            decreases len - start,
        {
            start += 1;
        }
        proof {
            crate::text::lemma_first_index_of_unique(chars@, 'L', start as int);
        }
        if start >= len || start >= arrow {
            return None;
        }
        let class_part = string_without_last(&chars, start + 1, arrow, ';');
        let mut name = replace_char(class_part.as_str(), '/', '.');
        let method_part = string_of_range(&chars, arrow + 2, len);
        name.append(".");
        name.append(str_before_first(method_part.as_str(), '(').as_str());
        Some(name)
    }

    /// Build and return the call graph.
    pub fn build(self) -> (graph: CallGraph)
        ensures
            graph == self.graph,
    {
        self.graph
    }
}

/// Some word of `words` occurs in `name`.
pub open spec fn holds_one_of(name: Seq<char>, words: Seq<Seq<char>>) -> bool {
    exists|i: int| 0 <= i < words.len() && seq_contains(name, #[trigger] words[i])
}

/// The view of a class filter: the words of which a class name must hold
/// one, if there is a filter.
pub open spec fn words_view(filter: Option<Vec<String>>) -> Option<Seq<Seq<char>>> {
    match filter {
        Some(words) => Some(views(words@)),
        None => None,
    }
}

/// The class definition with index `index`, if it can be read, the name of
/// its class can be read, and the name passes the filter.
#[verifier::opaque]
pub open spec fn wanted_class_def(
    data: Seq<u8>,
    header: DexHeader,
    filter: Option<Seq<Seq<char>>>,
    index: u32,
) -> Option<ClassDef> {
    match get_class_def_spec(data, header, index) {
        Err(_) => None,
        Ok(class_def) => match get_type_name_spec(data, header, class_def.class_idx) {
            Err(_) => None,
            Ok(name) => match filter {
                Some(words) => if holds_one_of(name, words) {
                    Some(class_def)
                } else {
                    None
                },
                None => Some(class_def),
            },
        },
    }
}

/// The class definitions wanted among the first `n`, in order.
pub open spec fn wanted_class_defs(
    data: Seq<u8>,
    header: DexHeader,
    filter: Option<Seq<Seq<char>>>,
    n: nat,
) -> Seq<ClassDef>
    decreases n,
{
    if n == 0 {
        Seq::empty()
    } else {
        let before = wanted_class_defs(data, header, filter, (n - 1) as nat);
        match wanted_class_def(data, header, filter, (n - 1) as u32) {
            Some(class_def) => before.push(class_def),
            None => before,
        }
    }
}

/// The edges of the classes that the first `n` of `defs` decompile to; a
/// class that does not decompile has none.
pub open spec fn defs_calls(data: Seq<u8>, header: DexHeader, defs: Seq<ClassDef>, n: nat) -> Seq<
    MethodCallView,
>
    decreases n,
{
    if n == 0 || n > defs.len() {
        Seq::empty()
    } else {
        defs_calls(data, header, defs, (n - 1) as nat) + (match decompile_class_spec(
            data,
            header,
            data,
            defs[n - 1],
        ) {
            Ok(class) => class_calls(class, class.methods.len()),
            Err(_) => Seq::empty(),
        })
    }
}

/// The edges of the classes of the image `data` that pass the filter; none
/// if `data` is no DEX image.
#[verifier::opaque]
pub open spec fn image_calls(data: Seq<u8>, filter: Option<Seq<Seq<char>>>) -> Seq<MethodCallView> {
    if header_error(data) is Some {
        Seq::empty()
    } else {
        let defs = wanted_class_defs(
            data,
            header_of(data),
            filter,
            header_of(data).class_defs_size as nat,
        );
        defs_calls(data, header_of(data), defs, defs.len())
    }
}

/// The edges of the classes of the first `n` DEX files that pass the
/// filter.
pub open spec fn apk_calls(entries: Seq<DexEntryView>, filter: Option<Seq<Seq<char>>>, n: nat) -> Seq<
    MethodCallView,
>
    decreases n,
{
    if n == 0 || n > entries.len() {
        Seq::empty()
    } else {
        apk_calls(entries, filter, (n - 1) as nat) + image_calls(entries[n - 1].data, filter)
    }
}

/// The call graph of the classes of the DEX files that pass the filter.
pub open spec fn apk_graph(entries: Seq<DexEntryView>, filter: Option<Seq<Seq<char>>>) -> CallGraphView {
    CallGraphView::empty().with_calls(apk_calls(entries, filter, entries.len()))
}

fn holds_one_of_words(name: &str, words: &Vec<String>) -> (yes: bool)
    ensures
        yes == holds_one_of(name@, views(words@)),
{
    let mut i: usize = 0;
    while i < words.len()
        invariant
            i <= words@.len(),
            forall|j: int| 0 <= j < i ==> !seq_contains(name@, #[trigger] views(words@)[j]),
        decreases words@.len() - i,
    {
        if str_contains(name, words[i].as_str()) {
            assert(seq_contains(name@, views(words@)[i as int]));
            return true;
        }
        i += 1;
    }
    false
}

fn passes(name: &str, filter: &Option<Vec<String>>) -> (yes: bool)
    ensures
        yes == (match words_view(*filter) {
            Some(words) => holds_one_of(name@, words),
            None => true,
        }),
{
    match filter {
        Some(words) => holds_one_of_words(name, words),
        None => true,
    }
}

fn wanted_at(parser: &DexParser, filter: &Option<Vec<String>>, index: u32) -> (found: Option<ClassDef>)
    ensures
        found == wanted_class_def(parser.data@, parser.header, words_view(*filter), index),
{
    proof {
        reveal(wanted_class_def);
    }
    let class_def = match parser.get_class_def(index) {
        Ok(v) => v,
        Err(_) => {
            return None;
        },
    };
    match parser.get_type_name(class_def.class_idx) {
        Ok(name) => if passes(name.as_str(), filter) {
            Some(class_def)
        } else {
            None
        },
        Err(_) => None,
    }
}

/// The class definitions of an image whose class names can be read and
/// pass the filter: the classes to decompile for a call graph.
pub fn select_class_defs(parser: &DexParser, class_filter: &Option<Vec<String>>) -> (defs: Vec<ClassDef>)
    ensures
        defs@ == wanted_class_defs(
            parser.data@,
            parser.header,
            words_view(*class_filter),
            parser.header.class_defs_size as nat,
        ),
{
    let class_count = parser.class_count();
    let mut defs: Vec<ClassDef> = Vec::new();
    let mut class_idx: u32 = 0;
    while class_idx < class_count
        invariant
            class_idx <= class_count == parser.header.class_defs_size,
            defs@ == wanted_class_defs(
                parser.data@,
                parser.header,
                words_view(*class_filter),
                class_idx as nat,
            ),
        decreases class_count - class_idx,
    {
        match wanted_at(parser, class_filter, class_idx) {
            Some(class_def) => defs.push(class_def),
            None => {},
        }
        class_idx += 1;
    }
    defs
}

impl CallGraphBuilder {
    /// Adds the classes that `defs` decompile to.
    pub fn add_class_defs(&mut self, parser: &DexParser, defs: &Vec<ClassDef>)
        ensures
            final(self).graph@ == old(self).graph@.with_calls(
                defs_calls(parser.data@, parser.header, defs@, defs@.len()),
            ),
    {
        let ghost start = self.graph@;
        let mut k: usize = 0;
        while k < defs.len()
            invariant
                k <= defs@.len(),
                self.graph@ == start.with_calls(
                    defs_calls(parser.data@, parser.header, defs@, k as nat),
                ),
            decreases defs@.len() - k,
        {
            let ghost done = defs_calls(parser.data@, parser.header, defs@, k as nat);
            match decompile_class(parser, defs[k], parser.data.as_slice()) {
                Ok(class) => {
                    proof {
                        lemma_with_calls_add(start, done, class_calls(class@, class@.methods.len()));
                    }
                    self.add_class(&class);
                },
                Err(_) => {
                    assert(done + Seq::<MethodCallView>::empty() =~= done);
                },
            }
            k += 1;
        }
    }

    /// Adds the classes of a DEX file that pass the filter.
    pub fn add_dex_entry(&mut self, entry: &DexEntry, class_filter: &Option<Vec<String>>)
        ensures
            final(self).graph@ == old(self).graph@.with_calls(
                image_calls(entry@.data, words_view(*class_filter)),
            ),
    {
        proof {
            reveal(image_calls);
        }
        match DexParser::new(entry.data.clone()) {
            Ok(parser) => {
                proof {
                    lemma_header_unique(parser.header, header_of(entry.data@), entry.data@);
                }
                let defs = select_class_defs(&parser, class_filter);
                self.add_class_defs(&parser, &defs);
            },
            Err(_) => {},
        }
    }
}

/// Build a call graph from the DEX files of an APK. With a filter, only the
/// classes whose name holds one of its words are taken.
pub fn build_call_graph_from_apk(dex_entries: &[DexEntry], class_filter: Option<Vec<String>>) -> (graph:
    CallGraph)
    ensures
        graph@ == apk_graph(dex_entry_views(dex_entries@), words_view(class_filter)),
{
    let ghost entries = dex_entry_views(dex_entries@);
    let ghost filter = words_view(class_filter);
    let mut builder = CallGraphBuilder::new();
    let mut k: usize = 0;
    while k < dex_entries.len()
        invariant
            k <= dex_entries@.len(),
            entries == dex_entry_views(dex_entries@),
            filter == words_view(class_filter),
            builder.graph@ == CallGraphView::empty().with_calls(apk_calls(entries, filter, k as nat)),
        decreases dex_entries@.len() - k,
    {
        proof {
            assert(entries[k as int] == dex_entries@[k as int]@);
            lemma_with_calls_add(
                CallGraphView::empty(),
                apk_calls(entries, filter, k as nat),
                image_calls(entries[k as int].data, filter),
            );
        }
        builder.add_dex_entry(&dex_entries[k], &class_filter);
        k += 1;
    }
    builder.build()
}

} // verus!
