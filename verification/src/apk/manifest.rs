//! The application manifest.
//!
//! The binary XML of `AndroidManifest.xml` is decoded elsewhere. Its
//! elements come here as a flat list, in the order in which the decoder
//! walks the document: an element, then the subtrees of its children, the
//! last child first. Each element tells how many children it has, which is
//! enough to find them again. Everything that is read out of the document
//! is computed here from that list.

use vstd::prelude::*;
use crate::apk::document::{
    attr_either, attr_value, children, children_of, get_attr, get_attr_either,
    node_views, XmlNodeData, XmlNodeView,
};
use crate::apk::error::{ApkError, ApkErrorView};
use crate::text::{
    chars_of, clone_strings, concat2, concat3, owned, seq_contains, str_contains, str_eq, views,
};

verus! {

/// Intent filter data (for deeplink analysis).
#[derive(Debug, Clone)]
pub struct IntentFilterData {
    pub scheme: Option<String>,
    pub host: Option<String>,
    pub path: Option<String>,
    pub path_prefix: Option<String>,
    pub path_pattern: Option<String>,
}

/// The view of an optional string.
pub open spec fn opt_view(s: Option<String>) -> Option<Seq<char>> {
    match s {
        Some(text) => Some(text@),
        None => None,
    }
}

/// A copy of an optional string.
pub fn clone_opt(s: &Option<String>) -> (out: Option<String>)
    ensures
        opt_view(out) == opt_view(*s),
{
    match s {
        Some(text) => Some(text.clone()),
        None => None,
    }
}

/// The mathematical value of an [`IntentFilterData`].
pub ghost struct IntentFilterDataView {
    pub scheme: Option<Seq<char>>,
    pub host: Option<Seq<char>>,
    pub path: Option<Seq<char>>,
    pub path_prefix: Option<Seq<char>>,
    pub path_pattern: Option<Seq<char>>,
}

impl View for IntentFilterData {
    type V = IntentFilterDataView;

    open spec fn view(&self) -> IntentFilterDataView {
        IntentFilterDataView {
            scheme: opt_view(self.scheme),
            host: opt_view(self.host),
            path: opt_view(self.path),
            path_prefix: opt_view(self.path_prefix),
            path_pattern: opt_view(self.path_pattern),
        }
    }
}

impl IntentFilterData {
    /// A copy of this data element.
    pub fn duplicate(&self) -> (copy: IntentFilterData)
        ensures
            copy@ == self@,
    {
        IntentFilterData {
            scheme: clone_opt(&self.scheme),
            host: clone_opt(&self.host),
            path: clone_opt(&self.path),
            path_prefix: clone_opt(&self.path_prefix),
            path_pattern: clone_opt(&self.path_pattern),
        }
    }
}

/// The views of a sequence of data elements.
pub open spec fn data_views(data: Seq<IntentFilterData>) -> Seq<IntentFilterDataView> {
    data.map_values(|d: IntentFilterData| d@)
}

/// Activity with intent filters.
#[derive(Debug, Clone)]
pub struct ActivityIntentFilter {
    pub activity: String,
    pub actions: Vec<String>,
    pub categories: Vec<String>,
    pub data: Vec<IntentFilterData>,
}

/// The mathematical value of an [`ActivityIntentFilter`].
pub ghost struct ActivityIntentFilterView {
    pub activity: Seq<char>,
    pub actions: Seq<Seq<char>>,
    pub categories: Seq<Seq<char>>,
    pub data: Seq<IntentFilterDataView>,
}

impl View for ActivityIntentFilter {
    type V = ActivityIntentFilterView;

    open spec fn view(&self) -> ActivityIntentFilterView {
        ActivityIntentFilterView {
            activity: self.activity@,
            actions: views(self.actions@),
            categories: views(self.categories@),
            data: data_views(self.data@),
        }
    }
}

/// The views of a sequence of intent filters.
pub open spec fn filter_views(filters: Seq<ActivityIntentFilter>) -> Seq<ActivityIntentFilterView> {
    filters.map_values(|f: ActivityIntentFilter| f@)
}

/// Some string of `names` holds `word`.
pub open spec fn any_contains(names: Seq<Seq<char>>, word: Seq<char>) -> bool {
    exists|i: int| 0 <= i < names.len() && seq_contains(#[trigger] names[i], word)
}

impl ActivityIntentFilterView {
    /// A filter handles deeplinks if one of its actions holds `VIEW`, one of
    /// its categories holds `BROWSABLE` or `DEFAULT`, and it has a data
    /// element.
    pub open spec fn is_deeplink(self) -> bool {
        any_contains(self.actions, "VIEW"@) && (any_contains(self.categories, "BROWSABLE"@)
            || any_contains(self.categories, "DEFAULT"@)) && self.data.len() > 0
    }
}

/// Whether some string of `names` holds `word`.
pub fn any_contains_word(names: &Vec<String>, word: &str) -> (found: bool)
    ensures
        found == any_contains(views(names@), word@),
{
    let mut i: usize = 0;
    while i < names.len()
        invariant
            i <= names@.len(),
            forall|j: int| 0 <= j < i ==> !seq_contains(#[trigger] views(names@)[j], word@),
        decreases names@.len() - i,
    {
        if str_contains(names[i].as_str(), word) {
            assert(seq_contains(views(names@)[i as int], word@));
            return true;
        }
        i += 1;
    }
    false
}

impl ActivityIntentFilter {
    /// Whether this is a deeplink intent filter.
    pub fn is_deeplink(&self) -> (yes: bool)
        ensures
            yes == self@.is_deeplink(),
    {
        let has_view_action = any_contains_word(&self.actions, "VIEW");
        let has_browsable = any_contains_word(&self.categories, "BROWSABLE") || any_contains_word(
            &self.categories,
            "DEFAULT",
        );
        has_view_action && has_browsable && self.data.len() > 0
    }

    /// A copy of this filter.
    pub fn duplicate(&self) -> (copy: ActivityIntentFilter)
        ensures
            copy@ == self@,
    {
        let mut data: Vec<IntentFilterData> = Vec::new();
        let mut k: usize = 0;
        while k < self.data.len()
            invariant
                k <= self.data@.len(),
                data@.len() == k,
                forall|i: int| 0 <= i < k ==> (#[trigger] data@[i])@ == self.data@[i]@,
            decreases self.data@.len() - k,
        {
            data.push(self.data[k].duplicate());
            k += 1;
        }
        assert(data_views(data@) =~= data_views(self.data@));
        ActivityIntentFilter {
            activity: self.activity.clone(),
            actions: clone_strings(&self.actions),
            categories: clone_strings(&self.categories),
            data,
        }
    }
}

/// A copy of a vector of intent filters.
pub fn clone_filters(filters: &Vec<ActivityIntentFilter>) -> (out: Vec<ActivityIntentFilter>)
    ensures
        filter_views(out@) == filter_views(filters@),
{
    let mut out: Vec<ActivityIntentFilter> = Vec::new();
    let mut i: usize = 0;
    while i < filters.len()
        invariant
            i <= filters@.len(),
            out@.len() == i,
            forall|j: int| 0 <= j < i ==> (#[trigger] out@[j])@ == filters@[j]@,
        decreases filters@.len() - i,
    {
        out.push(filters[i].duplicate());
        i += 1;
    }
    assert(filter_views(out@) =~= filter_views(filters@));
    out
}

/// Parsed AndroidManifest.xml information.
#[derive(Debug, Clone)]
pub struct RustManifestInfo {
    pub package_name: String,
    pub version_code: Option<String>,
    pub version_name: Option<String>,
    pub min_sdk_version: Option<String>,
    pub target_sdk_version: Option<String>,
    pub permissions: Vec<String>,
    pub activities: Vec<String>,
    pub services: Vec<String>,
    pub receivers: Vec<String>,
    pub providers: Vec<String>,
    pub application_label: Option<String>,
    pub intent_filters: Vec<ActivityIntentFilter>,
}

/// The mathematical value of a [`RustManifestInfo`].
pub ghost struct RustManifestInfoView {
    pub package_name: Seq<char>,
    pub version_code: Option<Seq<char>>,
    pub version_name: Option<Seq<char>>,
    pub min_sdk_version: Option<Seq<char>>,
    pub target_sdk_version: Option<Seq<char>>,
    pub permissions: Seq<Seq<char>>,
    pub activities: Seq<Seq<char>>,
    pub services: Seq<Seq<char>>,
    pub receivers: Seq<Seq<char>>,
    pub providers: Seq<Seq<char>>,
    pub application_label: Option<Seq<char>>,
    pub intent_filters: Seq<ActivityIntentFilterView>,
}

impl View for RustManifestInfo {
    type V = RustManifestInfoView;

    open spec fn view(&self) -> RustManifestInfoView {
        RustManifestInfoView {
            package_name: self.package_name@,
            version_code: opt_view(self.version_code),
            version_name: opt_view(self.version_name),
            min_sdk_version: opt_view(self.min_sdk_version),
            target_sdk_version: opt_view(self.target_sdk_version),
            permissions: views(self.permissions@),
            activities: views(self.activities@),
            services: views(self.services@),
            receivers: views(self.receivers@),
            providers: views(self.providers@),
            application_label: opt_view(self.application_label),
            intent_filters: filter_views(self.intent_filters@),
        }
    }
}

impl RustManifestInfoView {
    /// The manifest of a package of which nothing else is known.
    pub open spec fn new(package_name: Seq<char>) -> RustManifestInfoView {
        RustManifestInfoView {
            package_name,
            version_code: None,
            version_name: None,
            min_sdk_version: None,
            target_sdk_version: None,
            permissions: Seq::empty(),
            activities: Seq::empty(),
            services: Seq::empty(),
            receivers: Seq::empty(),
            providers: Seq::empty(),
            application_label: None,
            intent_filters: Seq::empty(),
        }
    }

    /// The intent filters that handle deeplinks.
    pub open spec fn deeplinks(self) -> Seq<ActivityIntentFilterView> {
        self.intent_filters.filter(|f: ActivityIntentFilterView| f.is_deeplink())
    }
}

impl RustManifestInfo {
    /// The manifest of a package of which nothing else is known.
    pub fn new(package_name: String) -> (info: RustManifestInfo)
        ensures
            info@ == RustManifestInfoView::new(package_name@),
    {
        let info = RustManifestInfo {
            package_name,
            version_code: None,
            version_name: None,
            min_sdk_version: None,
            target_sdk_version: None,
            permissions: Vec::new(),
            activities: Vec::new(),
            services: Vec::new(),
            receivers: Vec::new(),
            providers: Vec::new(),
            application_label: None,
            intent_filters: Vec::new(),
        };
        assert(info@.permissions =~= Seq::<Seq<char>>::empty());
        assert(info@.activities =~= Seq::<Seq<char>>::empty());
        assert(info@.services =~= Seq::<Seq<char>>::empty());
        assert(info@.receivers =~= Seq::<Seq<char>>::empty());
        assert(info@.providers =~= Seq::<Seq<char>>::empty());
        assert(info@.intent_filters =~= Seq::<ActivityIntentFilterView>::empty());
        info
    }

    /// Get only deeplink intent filters.
    pub fn get_deeplinks(&self) -> (found: Vec<ActivityIntentFilter>)
        ensures
            filter_views(found@) == self@.deeplinks(),
    {
        let mut found: Vec<ActivityIntentFilter> = Vec::new();
        let ghost all = self@.intent_filters;
        let ghost keep = |f: ActivityIntentFilterView| f.is_deeplink();
        let mut k: usize = 0;
        assert(filter_views(found@) =~= all.take(0).filter(keep));
        while k < self.intent_filters.len()
            invariant
                k <= self.intent_filters@.len(),
                all == self@.intent_filters,
                keep == |f: ActivityIntentFilterView| f.is_deeplink(),
                filter_views(found@) == all.take(k as int).filter(keep),
            decreases self.intent_filters@.len() - k,
        {
            let ghost before = filter_views(found@);
            proof {
                assert(all.take(k + 1).drop_last() =~= all.take(k as int));
                assert(all.take(k + 1).last() == self.intent_filters@[k as int]@);
                reveal(Seq::filter);
            }
            if self.intent_filters[k].is_deeplink() {
                let copy = self.intent_filters[k].duplicate();
                found.push(copy);
                assert(filter_views(found@) =~= before.push(copy@));
            }
            k += 1;
        }
        assert(all.take(all.len() as int) =~= all);
        found
    }

    /// A copy of this manifest.
    pub fn duplicate(&self) -> (copy: RustManifestInfo)
        ensures
            copy@ == self@,
    {
        RustManifestInfo {
            package_name: self.package_name.clone(),
            version_code: clone_opt(&self.version_code),
            version_name: clone_opt(&self.version_name),
            min_sdk_version: clone_opt(&self.min_sdk_version),
            target_sdk_version: clone_opt(&self.target_sdk_version),
            permissions: clone_strings(&self.permissions),
            activities: clone_strings(&self.activities),
            services: clone_strings(&self.services),
            receivers: clone_strings(&self.receivers),
            providers: clone_strings(&self.providers),
            application_label: clone_opt(&self.application_label),
            intent_filters: clone_filters(&self.intent_filters),
        }
    }
}

/// A component name made absolute: a name that starts with `.` follows the
/// package name, a name without `.` follows the package name and a `.`, any
/// other name stays.
pub open spec fn normalize_component_name_spec(package_name: Seq<char>, component_name: Seq<char>) -> Seq<
    char,
> {
    if component_name.len() > 0 && component_name[0] == '.' {
        package_name + component_name
    } else if component_name.contains('.') {
        component_name
    } else {
        package_name + "."@ + component_name
    }
}

/// Normalize component name (handle relative names like ".MainActivity").
pub fn normalize_component_name(package_name: &str, component_name: &str) -> (name: String)
    ensures
        name@ == normalize_component_name_spec(package_name@, component_name@),
{
    let chars = chars_of(component_name);
    if chars.len() > 0 && chars[0] == '.' {
        concat2(package_name, component_name)
    } else if crate::text::str_contains_char(component_name, '.') {
        owned(component_name)
    } else {
        concat3(package_name, ".", component_name)
    }
}

/// The `android:name` of every element of type `element_type`, in walking
/// order; elements without the attribute are passed over.
pub open spec fn names_of_type(nodes: Seq<XmlNodeView>, element_type: Seq<char>) -> Seq<Seq<char>>
    decreases nodes.len(),
{
    if nodes.len() == 0 {
        Seq::empty()
    } else {
        let before = names_of_type(nodes.drop_last(), element_type);
        if nodes.last().element_type == element_type {
            match attr_value(nodes.last().attributes, "android:name"@) {
                Some(name) => before.push(name),
                None => before,
            }
        } else {
            before
        }
    }
}

/// The names made absolute against the package name.
pub open spec fn normalized_names(package_name: Seq<char>, names: Seq<Seq<char>>) -> Seq<Seq<char>> {
    names.map_values(|n: Seq<char>| normalize_component_name_spec(package_name, n))
}

/// Index of the first element of type `element_type` among the first `n`
/// elements, if there is one.
pub open spec fn first_of_type(nodes: Seq<XmlNodeView>, element_type: Seq<char>, n: nat) -> Option<
    int,
>
    decreases n,
{
    if n == 0 || n > nodes.len() {
        None
    } else {
        match first_of_type(nodes, element_type, (n - 1) as nat) {
            Some(i) => Some(i),
            None => if nodes[n - 1].element_type == element_type {
                Some(n - 1)
            } else {
                None
            },
        }
    }
}

/// The `android:name` of every element among `kids` that has the type
/// `element_type`, in the order of `kids`.
pub open spec fn named_children(nodes: Seq<XmlNodeView>, kids: Seq<int>, element_type: Seq<char>) -> Seq<
    Seq<char>,
>
    decreases kids.len(),
{
    if kids.len() == 0 {
        Seq::empty()
    } else {
        let before = named_children(nodes, kids.drop_last(), element_type);
        let kid = nodes[kids.last()];
        if kid.element_type == element_type {
            match attr_value(kid.attributes, "android:name"@) {
                Some(name) => before.push(name),
                None => before,
            }
        } else {
            before
        }
    }
}

/// The data element that a `data` element of the manifest states.
pub open spec fn data_of(node: XmlNodeView) -> IntentFilterDataView {
    IntentFilterDataView {
        scheme: attr_value(node.attributes, "android:scheme"@),
        host: attr_value(node.attributes, "android:host"@),
        path: attr_value(node.attributes, "android:path"@),
        path_prefix: attr_value(node.attributes, "android:pathPrefix"@),
        path_pattern: attr_value(node.attributes, "android:pathPattern"@),
    }
}

/// The data elements among `kids`, in the order of `kids`.
pub open spec fn data_children(nodes: Seq<XmlNodeView>, kids: Seq<int>) -> Seq<IntentFilterDataView>
    decreases kids.len(),
{
    if kids.len() == 0 {
        Seq::empty()
    } else {
        let before = data_children(nodes, kids.drop_last());
        if nodes[kids.last()].element_type == "data"@ {
            before.push(data_of(nodes[kids.last()]))
        } else {
            before
        }
    }
}

/// The intent filter that element `index` states for the activity named
/// `activity`: none unless the element is an `intent-filter` with an action
/// or a data element.
#[verifier::opaque]
pub open spec fn filter_of(nodes: Seq<XmlNodeView>, activity: Seq<char>, index: int) -> Option<
    ActivityIntentFilterView,
> {
    let kids = children(nodes, index);
    let actions = named_children(nodes, kids, "action"@);
    let data = data_children(nodes, kids);
    if nodes[index].element_type == "intent-filter"@ && (actions.len() > 0 || data.len() > 0) {
        Some(
            ActivityIntentFilterView {
                activity,
                actions,
                categories: named_children(nodes, kids, "category"@),
                data,
            },
        )
    } else {
        None
    }
}

/// The intent filters that the elements `kids` state for the activity named
/// `activity`, in the order of `kids`.
pub open spec fn filters_among(nodes: Seq<XmlNodeView>, activity: Seq<char>, kids: Seq<int>) -> Seq<
    ActivityIntentFilterView,
>
    decreases kids.len(),
{
    if kids.len() == 0 {
        Seq::empty()
    } else {
        let before = filters_among(nodes, activity, kids.drop_last());
        match filter_of(nodes, activity, kids.last()) {
            Some(filter) => before.push(filter),
            None => before,
        }
    }
}

/// The intent filters of element `index`: those among its children if it is
/// an `activity` with a name, which is made absolute; none otherwise.
#[verifier::opaque]
pub open spec fn activity_filters(nodes: Seq<XmlNodeView>, package_name: Seq<char>, index: int) -> Seq<
    ActivityIntentFilterView,
> {
    if nodes[index].element_type == "activity"@ {
        match attr_value(nodes[index].attributes, "android:name"@) {
            Some(name) => filters_among(
                nodes,
                normalize_component_name_spec(package_name, name),
                children(nodes, index),
            ),
            None => Seq::empty(),
        }
    } else {
        Seq::empty()
    }
}

/// The intent filters of the first `n` elements, in walking order.
pub open spec fn intent_filters_spec(nodes: Seq<XmlNodeView>, package_name: Seq<char>, n: nat) -> Seq<
    ActivityIntentFilterView,
>
    decreases n,
{
    if n == 0 || n > nodes.len() {
        Seq::empty()
    } else {
        intent_filters_spec(nodes, package_name, (n - 1) as nat) + activity_filters(
            nodes,
            package_name,
            n - 1,
        )
    }
}

/// The attributes of the first element of type `element_type`; none if
/// there is no such element.
pub open spec fn attributes_of_first(nodes: Seq<XmlNodeView>, element_type: Seq<char>) -> Seq<
    crate::apk::document::XmlAttributeView,
> {
    match first_of_type(nodes, element_type, nodes.len()) {
        Some(i) => nodes[i].attributes,
        None => Seq::empty(),
    }
}

/// What a manifest document states.
///
/// The first element is the root and must name the package. Version code
/// and name come from the root, the SDK versions from the first `uses-sdk`
/// element, the label from the first `application` element. Permissions are
/// the names of the `uses-permission` elements; activities, services,
/// receivers and providers are the names of the elements of these types,
/// made absolute against the package name.
#[verifier::opaque]
pub open spec fn manifest_spec(nodes: Seq<XmlNodeView>) -> Result<RustManifestInfoView, ApkErrorView> {
    if nodes.len() == 0 {
        Err(ApkErrorView::InvalidApk("No package name found"@))
    } else {
        match attr_value(nodes[0].attributes, "package"@) {
            None => Err(ApkErrorView::InvalidApk("No package name found"@)),
            Some(package_name) => Ok(
                RustManifestInfoView {
                    package_name,
                    version_code: attr_either(
                        nodes[0].attributes,
                        "android:versionCode"@,
                        "versionCode"@,
                    ),
                    version_name: attr_either(
                        nodes[0].attributes,
                        "android:versionName"@,
                        "versionName"@,
                    ),
                    min_sdk_version: attr_either(
                        attributes_of_first(nodes, "uses-sdk"@),
                        "android:minSdkVersion"@,
                        "minSdkVersion"@,
                    ),
                    target_sdk_version: attr_either(
                        attributes_of_first(nodes, "uses-sdk"@),
                        "android:targetSdkVersion"@,
                        "targetSdkVersion"@,
                    ),
                    permissions: names_of_type(nodes, "uses-permission"@),
                    activities: normalized_names(package_name, names_of_type(nodes, "activity"@)),
                    services: normalized_names(package_name, names_of_type(nodes, "service"@)),
                    receivers: normalized_names(package_name, names_of_type(nodes, "receiver"@)),
                    providers: normalized_names(package_name, names_of_type(nodes, "provider"@)),
                    application_label: attr_value(
                        attributes_of_first(nodes, "application"@),
                        "android:label"@,
                    ),
                    intent_filters: intent_filters_spec(nodes, package_name, nodes.len()),
                },
            ),
        }
    }
}

/// The `android:name` of every element of type `element_type`.
pub fn element_names(nodes: &Vec<XmlNodeData>, element_type: &str) -> (names: Vec<String>)
    ensures
        views(names@) == names_of_type(node_views(nodes@), element_type@),
{
    let ghost all = node_views(nodes@);
    let mut names: Vec<String> = Vec::new();
    let mut k: usize = 0;
    assert(views(names@) =~= names_of_type(all.take(0), element_type@));
    while k < nodes.len()
        invariant
            k <= nodes@.len(),
            all == node_views(nodes@),
            views(names@) == names_of_type(all.take(k as int), element_type@),
        decreases nodes@.len() - k,
    {
        let ghost before = views(names@);
        proof {
            assert(all.take(k + 1).drop_last() =~= all.take(k as int));
            assert(all.take(k + 1).last() == nodes@[k as int]@);
        }
        if str_eq(nodes[k].element_type.as_str(), element_type) {
            match get_attr(&nodes[k], "android:name") {
                Some(name) => {
                    names.push(name);
                    assert(views(names@) =~= before.push(name@));
                },
                None => {},
            }
        }
        k += 1;
    }
    assert(all.take(all.len() as int) =~= all);
    names
}

/// The names made absolute against the package name.
pub fn normalize_names(package_name: &str, names: &Vec<String>) -> (out: Vec<String>)
    ensures
        views(out@) == normalized_names(package_name@, views(names@)),
{
    let mut out: Vec<String> = Vec::new();
    let mut k: usize = 0;
    while k < names.len()
        invariant
            k <= names@.len(),
            out@.len() == k,
            forall|i: int|
                0 <= i < k ==> (#[trigger] out@[i])@ == normalize_component_name_spec(
                    package_name@,
                    names@[i]@,
                ),
        decreases names@.len() - k,
    {
        out.push(normalize_component_name(package_name, names[k].as_str()));
        k += 1;
    }
    assert(views(out@) =~= normalized_names(package_name@, views(names@)));
    out
}

/// Index of the first element of type `element_type`.
pub fn find_first_of_type(nodes: &Vec<XmlNodeData>, element_type: &str) -> (found: Option<usize>)
    ensures
        match found {
            Some(i) => first_of_type(node_views(nodes@), element_type@, nodes@.len()) == Some(
                i as int,
            ) && i < nodes@.len(),
            None => first_of_type(node_views(nodes@), element_type@, nodes@.len()) is None,
        },
{
    let ghost all = node_views(nodes@);
    let mut k: usize = 0;
    while k < nodes.len()
        invariant
            k <= nodes@.len(),
            all == node_views(nodes@),
            first_of_type(all, element_type@, k as nat) is None,
        decreases nodes@.len() - k,
    {
        assert(all[k as int] == nodes@[k as int]@);
        if str_eq(nodes[k].element_type.as_str(), element_type) {
            proof {
                lemma_first_of_type_stays(all, element_type@, (k + 1) as nat, nodes@.len());
            }
            return Some(k);
        }
        k += 1;
    }
    None
}

/// A first element found among the first `n` is the first among more.
pub proof fn lemma_first_of_type_stays(
    nodes: Seq<XmlNodeView>,
    element_type: Seq<char>,
    n: nat,
    more: nat,
)
    requires
        n <= more <= nodes.len(),
        first_of_type(nodes, element_type, n) is Some,
    ensures
        first_of_type(nodes, element_type, more) == first_of_type(nodes, element_type, n),
    decreases more - n,
{
    if n < more {
        lemma_first_of_type_stays(nodes, element_type, n, (more - 1) as nat);
    }
}

fn child_names(nodes: &Vec<XmlNodeData>, kids: &Vec<usize>, element_type: &str) -> (names: Vec<String>)
    requires
        forall|k: int| 0 <= k < kids@.len() ==> #[trigger] kids@[k] < nodes@.len(),
    ensures
        views(names@) == named_children(
            node_views(nodes@),
            crate::apk::document::as_ints(kids@),
            element_type@,
        ),
{
    let ghost all = node_views(nodes@);
    let ghost ids = crate::apk::document::as_ints(kids@);
    let mut names: Vec<String> = Vec::new();
    let mut k: usize = 0;
    assert(views(names@) =~= named_children(all, ids.take(0), element_type@));
    while k < kids.len()
        invariant
            k <= kids@.len(),
            all == node_views(nodes@),
            ids == crate::apk::document::as_ints(kids@),
            forall|m: int| 0 <= m < kids@.len() ==> #[trigger] kids@[m] < nodes@.len(),
            views(names@) == named_children(all, ids.take(k as int), element_type@),
        decreases kids@.len() - k,
    {
        let ghost before = views(names@);
        let kid = &nodes[kids[k]];
        proof {
            assert(ids.take(k + 1).drop_last() =~= ids.take(k as int));
            assert(ids.take(k + 1).last() == kids@[k as int]);
            assert(all[kids@[k as int] as int] == kid@);
        }
        if str_eq(kid.element_type.as_str(), element_type) {
            match get_attr(kid, "android:name") {
                Some(name) => {
                    names.push(name);
                    assert(views(names@) =~= before.push(name@));
                },
                None => {},
            }
        }
        k += 1;
    }
    assert(ids.take(ids.len() as int) =~= ids);
    names
}

fn child_data(nodes: &Vec<XmlNodeData>, kids: &Vec<usize>) -> (data: Vec<IntentFilterData>)
    requires
        forall|k: int| 0 <= k < kids@.len() ==> #[trigger] kids@[k] < nodes@.len(),
    ensures
        data_views(data@) == data_children(node_views(nodes@), crate::apk::document::as_ints(kids@)),
{
    let ghost all = node_views(nodes@);
    let ghost ids = crate::apk::document::as_ints(kids@);
    let mut data: Vec<IntentFilterData> = Vec::new();
    let mut k: usize = 0;
    assert(data_views(data@) =~= data_children(all, ids.take(0)));
    while k < kids.len()
        invariant
            k <= kids@.len(),
            all == node_views(nodes@),
            ids == crate::apk::document::as_ints(kids@),
            forall|m: int| 0 <= m < kids@.len() ==> #[trigger] kids@[m] < nodes@.len(),
            data_views(data@) == data_children(all, ids.take(k as int)),
        decreases kids@.len() - k,
    {
        let ghost before = data_views(data@);
        let kid = &nodes[kids[k]];
        proof {
            assert(ids.take(k + 1).drop_last() =~= ids.take(k as int));
            assert(ids.take(k + 1).last() == kids@[k as int]);
            assert(all[kids@[k as int] as int] == kid@);
        }
        if str_eq(kid.element_type.as_str(), "data") {
            let item = IntentFilterData {
                scheme: get_attr(kid, "android:scheme"),
                host: get_attr(kid, "android:host"),
                path: get_attr(kid, "android:path"),
                path_prefix: get_attr(kid, "android:pathPrefix"),
                path_pattern: get_attr(kid, "android:pathPattern"),
            };
            data.push(item);
            assert(data_views(data@) =~= before.push(item@));
        }
        k += 1;
    }
    assert(ids.take(ids.len() as int) =~= ids);
    data
}

fn intent_filter_at(nodes: &Vec<XmlNodeData>, activity: &str, index: usize) -> (filter: Option<
    ActivityIntentFilter,
>)
    requires
        index < nodes@.len(),
    ensures
        match filter {
            Some(f) => filter_of(node_views(nodes@), activity@, index as int) == Some(f@),
            None => filter_of(node_views(nodes@), activity@, index as int) is None,
        },
{
    proof {
        reveal(filter_of);
    }
    assert(node_views(nodes@)[index as int] == nodes@[index as int]@);
    if !str_eq(nodes[index].element_type.as_str(), "intent-filter") {
        return None;
    }
    let kids = children_of(nodes, index);
    let actions = child_names(nodes, &kids, "action");
    let categories = child_names(nodes, &kids, "category");
    let data = child_data(nodes, &kids);
    if actions.len() > 0 || data.len() > 0 {
        Some(ActivityIntentFilter { activity: owned(activity), actions, categories, data })
    } else {
        None
    }
}

fn filters_of_activity(nodes: &Vec<XmlNodeData>, package_name: &str, index: usize) -> (filters: Vec<
    ActivityIntentFilter,
>)
    requires
        index < nodes@.len(),
    ensures
        filter_views(filters@) == activity_filters(node_views(nodes@), package_name@, index as int),
{
    proof {
        reveal(activity_filters);
    }
    let ghost all = node_views(nodes@);
    let mut filters: Vec<ActivityIntentFilter> = Vec::new();
    assert(filter_views(filters@) =~= Seq::<ActivityIntentFilterView>::empty());
    assert(all[index as int] == nodes@[index as int]@);
    if !str_eq(nodes[index].element_type.as_str(), "activity") {
        return filters;
    }
    let activity = match get_attr(&nodes[index], "android:name") {
        Some(name) => normalize_component_name(package_name, name.as_str()),
        None => {
            return filters;
        },
    };
    let kids = children_of(nodes, index);
    let ghost ids = crate::apk::document::as_ints(kids@);
    let mut k: usize = 0;
    assert(filter_views(filters@) =~= filters_among(all, activity@, ids.take(0)));
    while k < kids.len()
        invariant
            k <= kids@.len(),
            all == node_views(nodes@),
            ids == crate::apk::document::as_ints(kids@),
            forall|m: int| 0 <= m < kids@.len() ==> #[trigger] kids@[m] < nodes@.len(),
            filter_views(filters@) == filters_among(all, activity@, ids.take(k as int)),
        decreases kids@.len() - k,
    {
        let ghost before = filter_views(filters@);
        proof {
            assert(ids.take(k + 1).drop_last() =~= ids.take(k as int));
            assert(ids.take(k + 1).last() == kids@[k as int]);
        }
        match intent_filter_at(nodes, activity.as_str(), kids[k]) {
            Some(filter) => {
                filters.push(filter);
                assert(filter_views(filters@) =~= before.push(filter@));
            },
            None => {},
        }
        k += 1;
    }
    assert(ids.take(ids.len() as int) =~= ids);
    filters
}

/// Parse intent filters from activities.
pub fn parse_intent_filters(nodes: &Vec<XmlNodeData>, package_name: &str) -> (filters: Vec<
    ActivityIntentFilter,
>)
    ensures
        filter_views(filters@) == intent_filters_spec(
            node_views(nodes@),
            package_name@,
            nodes@.len(),
        ),
{
    let ghost all = node_views(nodes@);
    let mut filters: Vec<ActivityIntentFilter> = Vec::new();
    let mut k: usize = 0;
    assert(filter_views(filters@) =~= intent_filters_spec(all, package_name@, 0));
    while k < nodes.len()
        invariant
            k <= nodes@.len(),
            all == node_views(nodes@),
            filter_views(filters@) == intent_filters_spec(all, package_name@, k as nat),
        decreases nodes@.len() - k,
    {
        let ghost before = filter_views(filters@);
        let mut found = filters_of_activity(nodes, package_name, k);
        let ghost added = filter_views(found@);
        filters.append(&mut found);
        assert(filter_views(filters@) =~= before + added);
        k += 1;
    }
    filters
}

/// What the attributes of the first element of type `element_type` give for
/// the attribute `first`, or else for the attribute `second`.
fn first_element_attr(nodes: &Vec<XmlNodeData>, element_type: &str, first: &str, second: &str) -> (value:
    Option<String>)
    ensures
        opt_view(value) == attr_either(
            attributes_of_first(node_views(nodes@), element_type@),
            first@,
            second@,
        ),
{
    match find_first_of_type(nodes, element_type) {
        Some(i) => {
            assert(node_views(nodes@)[i as int] == nodes@[i as int]@);
            get_attr_either(&nodes[i], first, second)
        },
        None => None,
    }
}

/// Reads a manifest out of its decoded document.
pub fn parse_manifest_nodes(nodes: &Vec<XmlNodeData>) -> (r: Result<RustManifestInfo, ApkError>)
    ensures
        match r {
            Ok(info) => manifest_spec(node_views(nodes@)) == Ok::<
                RustManifestInfoView,
                ApkErrorView,
            >(info@),
            Err(e) => manifest_spec(node_views(nodes@)) == Err::<RustManifestInfoView, ApkErrorView>(
                e@,
            ),
        },
{
    proof {
        reveal(manifest_spec);
    }
    if nodes.len() == 0 {
        return Err(ApkError::InvalidApk(owned("No package name found")));
    }
    assert(node_views(nodes@)[0] == nodes@[0]@);
    let package_name = match get_attr(&nodes[0], "package") {
        Some(name) => name,
        None => {
            return Err(ApkError::InvalidApk(owned("No package name found")));
        },
    };
    let package = package_name.as_str();
    let version_code = get_attr_either(&nodes[0], "android:versionCode", "versionCode");
    let version_name = get_attr_either(&nodes[0], "android:versionName", "versionName");
    let min_sdk_version = first_element_attr(nodes, "uses-sdk", "android:minSdkVersion", "minSdkVersion");
    let target_sdk_version = first_element_attr(
        nodes,
        "uses-sdk",
        "android:targetSdkVersion",
        "targetSdkVersion",
    );
    let permissions = element_names(nodes, "uses-permission");
    let activities = normalize_names(package, &element_names(nodes, "activity"));
    let services = normalize_names(package, &element_names(nodes, "service"));
    let receivers = normalize_names(package, &element_names(nodes, "receiver"));
    let providers = normalize_names(package, &element_names(nodes, "provider"));
    let application_label = application_label_of(nodes);
    let intent_filters = parse_intent_filters(nodes, package);
    Ok(
        RustManifestInfo {
            package_name,
            version_code,
            version_name,
            min_sdk_version,
            target_sdk_version,
            permissions,
            activities,
            services,
            receivers,
            providers,
            application_label,
            intent_filters,
        },
    )
}

fn application_label_of(nodes: &Vec<XmlNodeData>) -> (label: Option<String>)
    ensures
        opt_view(label) == attr_value(
            attributes_of_first(node_views(nodes@), "application"@),
            "android:label"@,
        ),
{
    match find_first_of_type(nodes, "application") {
        Some(i) => {
            assert(node_views(nodes@)[i as int] == nodes@[i as int]@);
            get_attr(&nodes[i], "android:label")
        },
        None => None,
    }
}

} // verus!
