//! Entry point analyzer.
//!
//! Links the components that the manifest declares (activities, services,
//! receivers, providers) with the decompiled classes, and marks the
//! activities that handle deeplinks.

use vstd::prelude::*;
use crate::apk::manifest::{
    clone_filters, filter_views, ActivityIntentFilter, ActivityIntentFilterView, IntentFilterData,
    IntentFilterDataView, RustManifestInfo, RustManifestInfoView,
};
use crate::apk::extractor::{dex_entry_views, DexEntry, DexEntryView};
use crate::dex::class_decompiler::{
    class_views, decompile_class_from_apk, decompile_from_entries, DecompiledClass,
    DecompiledClassView,
};
use crate::text::{clone_strings, decimal, owned, push_decimal, str_eq, views};

verus! {

/// Type of Android component.
#[derive(Debug, Clone, Copy, PartialEq, Eq, Structural)]
pub enum ComponentType {
    Activity,
    Service,
    BroadcastReceiver,
    ContentProvider,
}

impl ComponentType {
    /// The name of the kind, as written in source.
    pub open spec fn name_spec(self) -> Seq<char> {
        match self {
            ComponentType::Activity => "Activity"@,
            ComponentType::Service => "Service"@,
            ComponentType::BroadcastReceiver => "BroadcastReceiver"@,
            ComponentType::ContentProvider => "ContentProvider"@,
        }
    }

    /// The name of the kind, as written in source.
    pub fn name(&self) -> (name: &'static str)
        ensures
            name@ == self.name_spec(),
    {
        match self {
            ComponentType::Activity => "Activity",
            ComponentType::Service => "Service",
            ComponentType::BroadcastReceiver => "BroadcastReceiver",
            ComponentType::ContentProvider => "ContentProvider",
        }
    }
}

/// Entry point in the application.
#[derive(Debug, Clone)]
pub struct EntryPoint {
    /// Component type (Activity, Service, etc.).
    pub component_type: ComponentType,
    /// Fully qualified class name.
    pub class_name: String,
    /// Intent filters for this component.
    pub intent_filters: Vec<ActivityIntentFilter>,
    /// Whether this entry point handles deeplinks.
    pub is_deeplink_handler: bool,
    /// Whether the corresponding class was found in DEX.
    pub class_found: bool,
}

/// The mathematical value of an [`EntryPoint`].
pub ghost struct EntryPointView {
    pub component_type: ComponentType,
    pub class_name: Seq<char>,
    pub intent_filters: Seq<ActivityIntentFilterView>,
    pub is_deeplink_handler: bool,
    pub class_found: bool,
}

impl View for EntryPoint {
    type V = EntryPointView;

    open spec fn view(&self) -> EntryPointView {
        EntryPointView {
            component_type: self.component_type,
            class_name: self.class_name@,
            intent_filters: filter_views(self.intent_filters@),
            is_deeplink_handler: self.is_deeplink_handler,
            class_found: self.class_found,
        }
    }
}

/// The views of a sequence of entry points.
pub open spec fn entry_views(entries: Seq<EntryPoint>) -> Seq<EntryPointView> {
    entries.map_values(|e: EntryPoint| e@)
}

/// The deeplink pattern of a data element: `scheme://`, the host, and the
/// path, or else the path prefix followed by `*`, or else the path pattern;
/// absent parts are left out.
pub open spec fn deeplink_pattern(data: IntentFilterDataView) -> Seq<char> {
    (match data.scheme {
        Some(scheme) => scheme + "://"@,
        None => Seq::empty(),
    }) + (match data.host {
        Some(host) => host,
        None => Seq::empty(),
    }) + (match data.path {
        Some(path) => path,
        None => match data.path_prefix {
            Some(prefix) => prefix + "*"@,
            None => match data.path_pattern {
                Some(pattern) => pattern,
                None => Seq::empty(),
            },
        },
    })
}

/// The patterns of the first `n` data elements that are not empty.
pub open spec fn filter_patterns(data: Seq<IntentFilterDataView>, n: nat) -> Seq<Seq<char>>
    decreases n,
{
    if n == 0 || n > data.len() {
        Seq::empty()
    } else {
        let before = filter_patterns(data, (n - 1) as nat);
        if deeplink_pattern(data[n - 1]).len() > 0 {
            before.push(deeplink_pattern(data[n - 1]))
        } else {
            before
        }
    }
}

/// The patterns of the first `n` filters, in order.
pub open spec fn deeplink_patterns(filters: Seq<ActivityIntentFilterView>, n: nat) -> Seq<Seq<char>>
    decreases n,
{
    if n == 0 || n > filters.len() {
        Seq::empty()
    } else {
        deeplink_patterns(filters, (n - 1) as nat) + filter_patterns(
            filters[n - 1].data,
            filters[n - 1].data.len(),
        )
    }
}

/// The actions of the first `n` filters, in order.
pub open spec fn filter_actions(filters: Seq<ActivityIntentFilterView>, n: nat) -> Seq<Seq<char>>
    decreases n,
{
    if n == 0 || n > filters.len() {
        Seq::empty()
    } else {
        filter_actions(filters, (n - 1) as nat) + filters[n - 1].actions
    }
}

impl EntryPointView {
    /// Some filter of the entry point names the action `action`.
    pub open spec fn handles_action(self, action: Seq<char>) -> bool {
        exists|i: int|
            0 <= i < self.intent_filters.len() && (#[trigger] self.intent_filters[i]).actions.contains(
                action,
            )
    }
}

fn pattern_of(data: &IntentFilterData) -> (pattern: String)
    ensures
        pattern@ == deeplink_pattern(data@),
{
    let mut pattern = String::new();
    match &data.scheme {
        Some(scheme) => {
            pattern.append(scheme.as_str());
            pattern.append("://");
        },
        None => {},
    }
    assert(pattern@ =~= match data@.scheme {
        Some(scheme) => scheme + "://"@,
        None => Seq::empty(),
    });
    let ghost head = pattern@;
    match &data.host {
        Some(host) => {
            pattern.append(host.as_str());
        },
        None => {},
    }
    assert(pattern@ =~= head + (match data@.host {
        Some(host) => host,
        None => Seq::empty(),
    }));
    let ghost middle = pattern@;
    match &data.path {
        Some(path) => {
            pattern.append(path.as_str());
        },
        None => match &data.path_prefix {
            Some(prefix) => {
                pattern.append(prefix.as_str());
                pattern.append("*");
            },
            None => match &data.path_pattern {
                Some(path_pattern) => {
                    pattern.append(path_pattern.as_str());
                },
                None => {},
            },
        },
    }
    assert(pattern@ =~= deeplink_pattern(data@));
    pattern
}

impl EntryPoint {
    /// Get all deeplink patterns this entry point handles.
    pub fn get_deeplink_patterns(&self) -> (patterns: Vec<String>)
        ensures
            views(patterns@) == deeplink_patterns(
                self@.intent_filters,
                self@.intent_filters.len(),
            ),
    {
        let ghost filters = self@.intent_filters;
        let mut patterns: Vec<String> = Vec::new();
        let mut k: usize = 0;
        assert(views(patterns@) =~= deeplink_patterns(filters, 0));
        while k < self.intent_filters.len()
            invariant
                k <= self.intent_filters@.len(),
                filters == self@.intent_filters,
                views(patterns@) == deeplink_patterns(filters, k as nat),
            decreases self.intent_filters@.len() - k,
        {
            let filter = &self.intent_filters[k];
            let ghost done = views(patterns@);
            let ghost data = filters[k as int].data;
            assert(filters[k as int] == filter@);
            let mut j: usize = 0;
            assert(views(patterns@) =~= done + filter_patterns(data, 0));
            while j < filter.data.len()
                invariant
                    j <= filter.data@.len(),
                    data == filter@.data,
                    views(patterns@) == done + filter_patterns(data, j as nat),
                decreases filter.data@.len() - j,
            {
                let ghost before = views(patterns@);
                assert(data[j as int] == filter.data@[j as int]@);
                let pattern = pattern_of(&filter.data[j]);
                if pattern.as_str().unicode_len() > 0 {
                    patterns.push(pattern);
                    assert(views(patterns@) =~= before.push(pattern@));
                    assert(done + filter_patterns(data, j as nat).push(pattern@) =~= (done
                        + filter_patterns(data, j as nat)).push(pattern@));
                }
                j += 1;
            }
            k += 1;
        }
        patterns
    }

    /// Get all intent actions this entry point handles.
    pub fn get_actions(&self) -> (actions: Vec<String>)
        ensures
            views(actions@) == filter_actions(self@.intent_filters, self@.intent_filters.len()),
    {
        let ghost filters = self@.intent_filters;
        let mut actions: Vec<String> = Vec::new();
        let mut k: usize = 0;
        assert(views(actions@) =~= filter_actions(filters, 0));
        while k < self.intent_filters.len()
            invariant
                k <= self.intent_filters@.len(),
                filters == self@.intent_filters,
                views(actions@) == filter_actions(filters, k as nat),
            decreases self.intent_filters@.len() - k,
        {
            let ghost before = views(actions@);
            assert(filters[k as int] == self.intent_filters@[k as int]@);
            let mut copy = clone_strings(&self.intent_filters[k].actions);
            let ghost added = views(copy@);
            actions.append(&mut copy);
            assert(views(actions@) =~= before + added);
            k += 1;
        }
        actions
    }

    /// Check if this handles a specific action.
    pub fn handles_action(&self, action: &str) -> (found: bool)
        ensures
            found == self@.handles_action(action@),
    {
        let mut k: usize = 0;
        while k < self.intent_filters.len()
            invariant
                k <= self.intent_filters@.len(),
                forall|i: int|
                    0 <= i < k ==> !(#[trigger] self@.intent_filters[i]).actions.contains(action@),
            decreases self.intent_filters@.len() - k,
        {
            let filter = &self.intent_filters[k];
            assert(self@.intent_filters[k as int] == filter@);
            let mut j: usize = 0;
            while j < filter.actions.len()
                invariant
                    j <= filter.actions@.len(),
                    k < self.intent_filters@.len(),
                    self@.intent_filters[k as int] == filter@,
                    forall|i: int| 0 <= i < j ==> filter@.actions[i] != action@,
                decreases filter.actions@.len() - j,
            {
                if str_eq(filter.actions[j].as_str(), action) {
                    assert(filter@.actions[j as int] == action@);
                    assert(filter@.actions.contains(action@));
                    assert(self@.intent_filters[k as int].actions.contains(action@));
                    return true;
                }
                j += 1;
            }
            k += 1;
        }
        false
    }

    /// A copy of this entry point.
    pub fn duplicate(&self) -> (copy: EntryPoint)
        ensures
            copy@ == self@,
    {
        EntryPoint {
            component_type: self.component_type,
            class_name: self.class_name.clone(),
            intent_filters: clone_filters(&self.intent_filters),
            is_deeplink_handler: self.is_deeplink_handler,
            class_found: self.class_found,
        }
    }
}

/// The names of a sequence of classes.
pub open spec fn class_names(classes: Seq<DecompiledClassView>) -> Seq<Seq<char>> {
    classes.map_values(|c: DecompiledClassView| c.class_name)
}

/// The filters of the manifest that belong to the activity `name`.
pub open spec fn filters_for(filters: Seq<ActivityIntentFilterView>, name: Seq<char>) -> Seq<
    ActivityIntentFilterView,
> {
    filters.filter(|f: ActivityIntentFilterView| f.activity == name)
}

/// Some filter of the sequence handles deeplinks.
pub open spec fn any_deeplink(filters: Seq<ActivityIntentFilterView>) -> bool {
    exists|i: int| 0 <= i < filters.len() && (#[trigger] filters[i]).is_deeplink()
}

/// The entry point of the activity `name`: its filters are those of the
/// manifest that name it; it handles deeplinks if one of them does.
pub open spec fn activity_entry(
    manifest: RustManifestInfoView,
    classes: Seq<DecompiledClassView>,
    name: Seq<char>,
) -> EntryPointView {
    EntryPointView {
        component_type: ComponentType::Activity,
        class_name: name,
        intent_filters: filters_for(manifest.intent_filters, name),
        is_deeplink_handler: any_deeplink(filters_for(manifest.intent_filters, name)),
        class_found: class_names(classes).contains(name),
    }
}

/// The entry point of a component that is no activity: it has no filters
/// and handles no deeplinks.
pub open spec fn plain_entry(
    classes: Seq<DecompiledClassView>,
    component_type: ComponentType,
    name: Seq<char>,
) -> EntryPointView {
    EntryPointView {
        component_type,
        class_name: name,
        intent_filters: Seq::empty(),
        is_deeplink_handler: false,
        class_found: class_names(classes).contains(name),
    }
}

/// The entry points of a manifest: its activities, then its services, its
/// receivers and its providers, each in the order of the manifest.
pub open spec fn entry_points_spec(
    manifest: RustManifestInfoView,
    classes: Seq<DecompiledClassView>,
) -> Seq<EntryPointView> {
    manifest.activities.map_values(|n: Seq<char>| activity_entry(manifest, classes, n))
        + manifest.services.map_values(
        |n: Seq<char>| plain_entry(classes, ComponentType::Service, n),
    ) + manifest.receivers.map_values(
        |n: Seq<char>| plain_entry(classes, ComponentType::BroadcastReceiver, n),
    ) + manifest.providers.map_values(
        |n: Seq<char>| plain_entry(classes, ComponentType::ContentProvider, n),
    )
}

/// The components that a manifest declares: its activities, then its
/// services, its receivers and its providers.
pub open spec fn declared_components(manifest: RustManifestInfoView) -> Seq<Seq<char>> {
    manifest.activities + manifest.services + manifest.receivers + manifest.providers
}

/// The entry points of a manifest are its declared components, one for
/// each, in order.
pub proof fn lemma_entry_points_are_declared(
    manifest: RustManifestInfoView,
    classes: Seq<DecompiledClassView>,
)
    ensures
        entry_points_spec(manifest, classes).len() == declared_components(manifest).len(),
        forall|i: int|
            0 <= i < declared_components(manifest).len() ==> (#[trigger] entry_points_spec(
                manifest,
                classes,
            )[i]).class_name == declared_components(manifest)[i],
{
}

/// The class named `name`: the last one, should several bear the name.
pub open spec fn class_named(classes: Seq<DecompiledClassView>, name: Seq<char>) -> Option<
    DecompiledClassView,
>
    decreases classes.len(),
{
    if classes.len() == 0 {
        None
    } else if classes.last().class_name == name {
        Some(classes.last())
    } else {
        class_named(classes.drop_last(), name)
    }
}

/// Entry point analyzer.
#[derive(Clone)]
pub struct EntryPointAnalyzer {
    pub manifest: RustManifestInfo,
    pub classes: Vec<DecompiledClass>,
}

impl EntryPointAnalyzer {
    /// Create a new analyzer.
    pub fn new(manifest: RustManifestInfo, classes: Vec<DecompiledClass>) -> (analyzer:
        EntryPointAnalyzer)
        ensures
            analyzer.manifest == manifest,
            analyzer.classes == classes,
    {
        EntryPointAnalyzer { manifest, classes }
    }

    /// The entry points that the analyzer finds.
    pub open spec fn entry_points(&self) -> Seq<EntryPointView> {
        entry_points_spec(self.manifest@, class_views(self.classes@))
    }

    /// Whether a class of this name was decompiled.
    fn has_class(&self, name: &str) -> (found: bool)
        ensures
            found == class_names(class_views(self.classes@)).contains(name@),
    {
        let ghost names = class_names(class_views(self.classes@));
        let mut k: usize = 0;
        while k < self.classes.len()
            invariant
                k <= self.classes@.len(),
                names == class_names(class_views(self.classes@)),
                forall|i: int| 0 <= i < k ==> names[i] != name@,
            decreases self.classes@.len() - k,
        {
            assert(names[k as int] == self.classes@[k as int]@.class_name);
            if str_eq(self.classes[k].class_name.as_str(), name) {
                return true;
            }
            k += 1;
        }
        false
    }

    /// The class of this name, if one was decompiled.
    fn find_class(&self, name: &str) -> (found: Option<DecompiledClass>)
        ensures
            match found {
                Some(class) => class_named(class_views(self.classes@), name@) == Some(class@),
                None => class_named(class_views(self.classes@), name@) is None,
            },
    {
        let ghost all = class_views(self.classes@);
        let mut i: usize = self.classes.len();
        assert(all.take(i as int) =~= all);
        while i > 0
            invariant
                i <= self.classes@.len(),
                all == class_views(self.classes@),
                class_named(all, name@) == class_named(all.take(i as int), name@),
            decreases i,
        {
            proof {
                assert(all.take(i as int).last() == self.classes@[i - 1]@);
                assert(all.take(i as int).drop_last() =~= all.take(i - 1));
            }
            if str_eq(self.classes[i - 1].class_name.as_str(), name) {
                return Some(self.classes[i - 1].duplicate());
            }
            i -= 1;
        }
        None
    }

    /// Adds the entry points of components that are no activities.
    fn add_plain(
        &self,
        entries: &mut Vec<EntryPoint>,
        names: &Vec<String>,
        component_type: ComponentType,
    )
        ensures
            entry_views(final(entries)@) == entry_views(old(entries)@) + views(names@).map_values(
                |n: Seq<char>| plain_entry(class_views(self.classes@), component_type, n),
            ),
    {
        let ghost start = entry_views(entries@);
        let ghost classes = class_views(self.classes@);
        let ghost target = views(names@).map_values(
            |n: Seq<char>| plain_entry(classes, component_type, n),
        );
        let mut k: usize = 0;
        assert(entry_views(entries@) =~= start + target.take(0));
        while k < names.len()
            invariant
                k <= names@.len(),
                classes == class_views(self.classes@),
                target == views(names@).map_values(
                    |n: Seq<char>| plain_entry(classes, component_type, n),
                ),
                entry_views(entries@) == start + target.take(k as int),
            decreases names@.len() - k,
        {
            let ghost before = entry_views(entries@);
            let none: Vec<ActivityIntentFilter> = Vec::new();
            assert(filter_views(none@) =~= Seq::<ActivityIntentFilterView>::empty());
            let entry = EntryPoint {
                component_type,
                class_name: names[k].clone(),
                intent_filters: none,
                is_deeplink_handler: false,
                class_found: self.has_class(names[k].as_str()),
            };
            entries.push(entry);
            assert(entry_views(entries@) =~= before.push(entry@));
            assert(target[k as int] == entry@);
            assert(start + target.take(k + 1) =~= (start + target.take(k as int)).push(entry@));
            k += 1;
        }
        assert(target.take(target.len() as int) =~= target);
    }

    /// Analyze all entry points.
    pub fn analyze(&self) -> (entries: Vec<EntryPoint>)
        ensures
            entry_views(entries@) == self.entry_points(),
    {
        let ghost manifest = self.manifest@;
        let ghost classes = class_views(self.classes@);
        let ghost target = manifest.activities.map_values(
            |n: Seq<char>| activity_entry(manifest, classes, n),
        );
        let mut entries: Vec<EntryPoint> = Vec::new();
        let mut k: usize = 0;
        assert(entry_views(entries@) =~= target.take(0));
        while k < self.manifest.activities.len()
            invariant
                k <= self.manifest.activities@.len(),
                manifest == self.manifest@,
                classes == class_views(self.classes@),
                target == manifest.activities.map_values(
                    |n: Seq<char>| activity_entry(manifest, classes, n),
                ),
                entry_views(entries@) == target.take(k as int),
            decreases self.manifest.activities@.len() - k,
        {
            let ghost before = entry_views(entries@);
            let entry = self.analyze_component(
                self.manifest.activities[k].as_str(),
                ComponentType::Activity,
            );
            entries.push(entry);
            assert(entry_views(entries@) =~= before.push(entry@));
            assert(target[k as int] == entry@);
            assert(target.take(k + 1) =~= target.take(k as int).push(entry@));
            k += 1;
        }
        assert(target.take(target.len() as int) =~= target);
        self.add_plain(&mut entries, &self.manifest.services, ComponentType::Service);
        self.add_plain(&mut entries, &self.manifest.receivers, ComponentType::BroadcastReceiver);
        self.add_plain(&mut entries, &self.manifest.providers, ComponentType::ContentProvider);
        entries
    }

    /// Analyze a specific component as an activity: its filters are those of
    /// the manifest that name it.
    pub fn analyze_component(&self, class_name: &str, component_type: ComponentType) -> (entry:
        EntryPoint)
        ensures
            entry@ == (EntryPointView {
                component_type,
                ..activity_entry(self.manifest@, class_views(self.classes@), class_name@)
            }),
    {
        let ghost all = self.manifest@.intent_filters;
        let ghost keep = |f: ActivityIntentFilterView| f.activity == class_name@;
        let mut intent_filters: Vec<ActivityIntentFilter> = Vec::new();
        let mut is_deeplink_handler = false;
        let mut k: usize = 0;
        assert(filter_views(intent_filters@) =~= all.take(0).filter(keep));
        while k < self.manifest.intent_filters.len()
            invariant
                k <= self.manifest.intent_filters@.len(),
                all == self.manifest@.intent_filters,
                keep == |f: ActivityIntentFilterView| f.activity == class_name@,
                filter_views(intent_filters@) == all.take(k as int).filter(keep),
                is_deeplink_handler == any_deeplink(filter_views(intent_filters@)),
            decreases self.manifest.intent_filters@.len() - k,
        {
            let ghost before = filter_views(intent_filters@);
            let filter = &self.manifest.intent_filters[k];
            proof {
                assert(all.take(k + 1).drop_last() =~= all.take(k as int));
                assert(all.take(k + 1).last() == filter@);
                reveal(Seq::filter);
            }
            if str_eq(filter.activity.as_str(), class_name) {
                let copy = filter.duplicate();
                intent_filters.push(copy);
                assert(filter_views(intent_filters@) =~= before.push(copy@));
                let deep = filter.is_deeplink();
                proof {
                    let after = before.push(copy@);
                    if is_deeplink_handler {
                        let i = choose|i: int| 0 <= i < before.len() && (#[trigger] before[i]).is_deeplink();
                        assert(after[i] == before[i]);
                    }
                    if deep {
                        assert(after[before.len() as int].is_deeplink());
                    }
                    if any_deeplink(after) && !deep && !is_deeplink_handler {
                        let i = choose|i: int| 0 <= i < after.len() && (#[trigger] after[i]).is_deeplink();
                        assert(after[i] == before[i]);
                    }
                }
                is_deeplink_handler = is_deeplink_handler || deep;
            }
            k += 1;
        }
        assert(all.take(all.len() as int) =~= all);
        EntryPoint {
            component_type,
            class_name: owned(class_name),
            intent_filters,
            is_deeplink_handler,
            class_found: self.has_class(class_name),
        }
    }

    /// Get all deeplink handlers.
    pub fn get_deeplink_handlers(&self) -> (handlers: Vec<EntryPoint>)
        ensures
            entry_views(handlers@) == self.entry_points().filter(
                |e: EntryPointView| e.is_deeplink_handler,
            ),
    {
        let entries = self.analyze();
        let ghost all = entry_views(entries@);
        let ghost keep = |e: EntryPointView| e.is_deeplink_handler;
        let mut handlers: Vec<EntryPoint> = Vec::new();
        let mut k: usize = 0;
        assert(entry_views(handlers@) =~= all.take(0).filter(keep));
        while k < entries.len()
            invariant
                k <= entries@.len(),
                all == entry_views(entries@),
                keep == |e: EntryPointView| e.is_deeplink_handler,
                entry_views(handlers@) == all.take(k as int).filter(keep),
            decreases entries@.len() - k,
        {
            let ghost before = entry_views(handlers@);
            proof {
                assert(all.take(k + 1).drop_last() =~= all.take(k as int));
                assert(all.take(k + 1).last() == entries@[k as int]@);
                reveal(Seq::filter);
            }
            if entries[k].is_deeplink_handler {
                let copy = entries[k].duplicate();
                handlers.push(copy);
                assert(entry_views(handlers@) =~= before.push(copy@));
            }
            k += 1;
        }
        assert(all.take(all.len() as int) =~= all);
        handlers
    }

    /// Get entry points that have classes found in DEX.
    pub fn get_found_entry_points(&self) -> (found: Vec<EntryPoint>)
        ensures
            entry_views(found@) == self.entry_points().filter(|e: EntryPointView| e.class_found),
    {
        let entries = self.analyze();
        let ghost all = entry_views(entries@);
        let ghost keep = |e: EntryPointView| e.class_found;
        let mut found: Vec<EntryPoint> = Vec::new();
        let mut k: usize = 0;
        assert(entry_views(found@) =~= all.take(0).filter(keep));
        while k < entries.len()
            invariant
                k <= entries@.len(),
                all == entry_views(entries@),
                keep == |e: EntryPointView| e.class_found,
                entry_views(found@) == all.take(k as int).filter(keep),
            decreases entries@.len() - k,
        {
            let ghost before = entry_views(found@);
            proof {
                assert(all.take(k + 1).drop_last() =~= all.take(k as int));
                assert(all.take(k + 1).last() == entries@[k as int]@);
                reveal(Seq::filter);
            }
            if entries[k].class_found {
                let copy = entries[k].duplicate();
                found.push(copy);
                assert(entry_views(found@) =~= before.push(copy@));
            }
            k += 1;
        }
        assert(all.take(all.len() as int) =~= all);
        found
    }

    /// Get statistics: the numbers of entry points, of entry points whose
    /// class was found, and of deeplink handlers, in one line.
    pub fn get_stats(&self) -> (stats: String)
        ensures
            stats@ == "Total: "@ + decimal(self.entry_points().len()) + ", Found in DEX: "@
                + decimal(self.entry_points().filter(|e: EntryPointView| e.class_found).len())
                + ", Deeplink handlers: "@ + decimal(
                self.entry_points().filter(|e: EntryPointView| e.is_deeplink_handler).len(),
            ),
    {
        let all = self.analyze();
        let found = self.get_found_entry_points();
        let deeplinks = self.get_deeplink_handlers();
        let mut stats = owned("Total: ");
        push_decimal(&mut stats, all.len() as u64);
        stats.append(", Found in DEX: ");
        push_decimal(&mut stats, found.len() as u64);
        stats.append(", Deeplink handlers: ");
        push_decimal(&mut stats, deeplinks.len() as u64);
        stats
    }

    /// Get entry point with its class: the first entry point of that name,
    /// together with the class of that name.
    pub fn get_entry_point_with_class(&self, class_name: &str) -> (found: Option<
        (EntryPoint, DecompiledClass),
    >)
        ensures
            match found {
                Some((entry, class)) => {
                    &&& class_named(class_views(self.classes@), class_name@) == Some(class@)
                    &&& exists|i: int|
                        0 <= i < self.entry_points().len() && self.entry_points()[i] == entry@
                            && entry@.class_name == class_name@ && forall|j: int|
                            0 <= j < i ==> (#[trigger] self.entry_points()[j]).class_name
                                != class_name@
                },
                None => class_named(class_views(self.classes@), class_name@) is None || forall|
                    i: int,
                |
                    0 <= i < self.entry_points().len() ==> (#[trigger] self.entry_points()[i]).class_name
                        != class_name@,
            },
    {
        let entries = self.analyze();
        let mut k: usize = 0;
        while k < entries.len()
            invariant
                k <= entries@.len(),
                entry_views(entries@) == self.entry_points(),
                forall|j: int|
                    0 <= j < k ==> (#[trigger] self.entry_points()[j]).class_name != class_name@,
            decreases entries@.len() - k,
        {
            assert(self.entry_points()[k as int] == entries@[k as int]@);
            if str_eq(entries[k].class_name.as_str(), class_name) {
                return match self.find_class(class_name) {
                    Some(class) => Some((entries[k].duplicate(), class)),
                    None => None,
                };
            }
            k += 1;
        }
        None
    }

    /// Get all entry points that have corresponding classes, each with its
    /// class.
    pub fn get_analyzed_entry_points(&self) -> (found: Vec<(EntryPoint, DecompiledClass)>)
        ensures
            forall|i: int|
                0 <= i < found@.len() ==> class_named(
                    class_views(self.classes@),
                    (#[trigger] found@[i]).0@.class_name,
                ) == Some(found@[i].1@),
            found@.map_values(|p: (EntryPoint, DecompiledClass)| p.0@) == self.entry_points().filter(
                |e: EntryPointView| class_named(class_views(self.classes@), e.class_name) is Some,
            ),
    {
        let entries = self.analyze();
        let ghost all = entry_views(entries@);
        let ghost classes = class_views(self.classes@);
        let ghost keep = |e: EntryPointView| class_named(classes, e.class_name) is Some;
        let ghost first = |p: (EntryPoint, DecompiledClass)| p.0@;
        let mut found: Vec<(EntryPoint, DecompiledClass)> = Vec::new();
        let mut k: usize = 0;
        assert(found@.map_values(first) =~= all.take(0).filter(keep));
        while k < entries.len()
            invariant
                k <= entries@.len(),
                all == entry_views(entries@),
                classes == class_views(self.classes@),
                keep == |e: EntryPointView| class_named(classes, e.class_name) is Some,
                first == |p: (EntryPoint, DecompiledClass)| p.0@,
                found@.map_values(first) == all.take(k as int).filter(keep),
                forall|i: int|
                    0 <= i < found@.len() ==> class_named(
                        classes,
                        (#[trigger] found@[i]).0@.class_name,
                    ) == Some(found@[i].1@),
            decreases entries@.len() - k,
        {
            let ghost before = found@.map_values(first);
            proof {
                assert(all.take(k + 1).drop_last() =~= all.take(k as int));
                assert(all.take(k + 1).last() == entries@[k as int]@);
                reveal(Seq::filter);
            }
            match self.find_class(entries[k].class_name.as_str()) {
                Some(class) => {
                    let copy = entries[k].duplicate();
                    found.push((copy, class));
                    assert(found@.map_values(first) =~= before.push(copy@));
                },
                None => {},
            }
            k += 1;
        }
        assert(all.take(all.len() as int) =~= all);
        found
    }
}

/// The classes among the first `n` of `names` that decompile from the DEX
/// files, in the order of `names`.
pub open spec fn component_classes(entries: Seq<DexEntryView>, names: Seq<Seq<char>>, n: nat) -> Seq<
    DecompiledClassView,
>
    decreases n,
{
    if n == 0 || n > names.len() {
        Seq::empty()
    } else {
        let before = component_classes(entries, names, (n - 1) as nat);
        match decompile_from_entries(entries, names[n - 1], 0) {
            Ok(class) => before.push(class),
            Err(_) => before,
        }
    }
}

/// The components whose classes are decompiled for the analysis:
/// activities, services and receivers.
pub open spec fn component_names(manifest: RustManifestInfoView) -> Seq<Seq<char>> {
    manifest.activities + manifest.services + manifest.receivers
}

/// The classes of the components of a manifest, as far as they decompile.
pub open spec fn manifest_classes(entries: Seq<DexEntryView>, manifest: RustManifestInfoView) -> Seq<
    DecompiledClassView,
> {
    component_classes(entries, component_names(manifest), component_names(manifest).len())
}

fn decompile_components(dex_entries: &[DexEntry], names: &Vec<String>) -> (classes: Vec<DecompiledClass>)
    ensures
        class_views(classes@) == component_classes(
            dex_entry_views(dex_entries@),
            views(names@),
            names@.len(),
        ),
{
    let ghost entries = dex_entry_views(dex_entries@);
    let ghost all = views(names@);
    let mut classes: Vec<DecompiledClass> = Vec::new();
    let mut k: usize = 0;
    assert(class_views(classes@) =~= component_classes(entries, all, 0));
    while k < names.len()
        invariant
            k <= names@.len(),
            entries == dex_entry_views(dex_entries@),
            all == views(names@),
            class_views(classes@) == component_classes(entries, all, k as nat),
        decreases names@.len() - k,
    {
        let ghost before = class_views(classes@);
        assert(all[k as int] == names@[k as int]@);
        match decompile_class_from_apk(dex_entries, names[k].as_str()) {
            Ok(class) => {
                classes.push(class);
                assert(class_views(classes@) =~= before.push(class@));
            },
            Err(_) => {},
        }
        k += 1;
    }
    classes
}

/// Analyze entry points from the manifest and the DEX files of an APK: the
/// analyzer of the manifest and of the classes of its activities, services
/// and receivers, as far as they decompile.
pub fn analyze_entry_points_from_apk(dex_entries: &[DexEntry], manifest: RustManifestInfo) -> (analyzer:
    EntryPointAnalyzer)
    ensures
        analyzer.manifest == manifest,
        class_views(analyzer.classes@) == manifest_classes(
            dex_entry_views(dex_entries@),
            manifest@,
        ),
{
    let mut names = clone_strings(&manifest.activities);
    let mut services = clone_strings(&manifest.services);
    let mut receivers = clone_strings(&manifest.receivers);
    names.append(&mut services);
    names.append(&mut receivers);
    assert(views(names@) =~= component_names(manifest@));
    let classes = decompile_components(dex_entries, &names);
    EntryPointAnalyzer::new(manifest, classes)
}

} // verus!
