//! The resource table of an APK.
//!
//! A decoded `resources.arsc` comes here as an [`ArscTable`]: packages, their
//! types, the configurations of each type and the entries of each
//! configuration. The resolver gives every entry its resource id
//! `0xPPTTEEEE` (package, type, entry), its names and its value, and keeps
//! one resource for each id: the one met last.

use std::collections::HashMap;
use vstd::prelude::*;
use vstd::std_specs::hash::*;
use vstd::std_specs::iter::IteratorSpec;
use crate::text::{
    decimal, hex_padded, owned, push_decimal, push_hex_padded, signed_decimal, str_eq,
    i64_to_string,
};

verus! {

/// The value of a plain table entry: its type code and its data.
#[derive(Debug, Clone, Copy)]
pub struct ArscValue {
    pub value_type: u8,
    pub data_index: usize,
}

/// One entry of a configuration. A bag entry has no plain value.
#[derive(Debug, Clone, Copy)]
pub struct ArscEntry {
    pub spec_id: usize,
    pub name_index: usize,
    pub value: Option<ArscValue>,
}

/// One configuration of a type: its entries.
#[derive(Debug, Clone)]
pub struct ArscConfig {
    pub resources: Vec<ArscEntry>,
}

/// One type of a package: its id, counted from one, and its
/// configurations.
#[derive(Debug, Clone)]
pub struct ArscType {
    pub id: usize,
    pub configs: Vec<ArscConfig>,
}

/// One package of a table.
#[derive(Debug, Clone)]
pub struct ArscPackage {
    pub id: u32,
    pub type_names: Vec<String>,
    pub key_names: Vec<String>,
    pub types: Vec<ArscType>,
}

/// A decoded resource table.
#[derive(Debug, Clone)]
pub struct ArscTable {
    pub packages: Vec<ArscPackage>,
    pub global_strings: Vec<String>,
}

/// Resolved resource data.
#[derive(Debug, Clone)]
pub enum ResourceData {
    String(String),
    Integer(i32),
    Boolean(bool),
    Reference(u32),
    Unknown,
}

/// The mathematical value of a [`ResourceData`].
pub ghost enum ResourceDataView {
    String(Seq<char>),
    Integer(i32),
    Boolean(bool),
    Reference(u32),
    Unknown,
}

impl View for ResourceData {
    type V = ResourceDataView;

    open spec fn view(&self) -> ResourceDataView {
        match *self {
            ResourceData::String(s) => ResourceDataView::String(s@),
            ResourceData::Integer(i) => ResourceDataView::Integer(i),
            ResourceData::Boolean(b) => ResourceDataView::Boolean(b),
            ResourceData::Reference(r) => ResourceDataView::Reference(r),
            ResourceData::Unknown => ResourceDataView::Unknown,
        }
    }
}

impl ResourceData {
    /// A copy of this value.
    pub fn duplicate(&self) -> (copy: ResourceData)
        ensures
            copy@ == self@,
    {
        match self {
            ResourceData::String(s) => ResourceData::String(s.clone()),
            ResourceData::Integer(i) => ResourceData::Integer(*i),
            ResourceData::Boolean(b) => ResourceData::Boolean(*b),
            ResourceData::Reference(r) => ResourceData::Reference(*r),
            ResourceData::Unknown => ResourceData::Unknown,
        }
    }
}

/// A resolved resource with all metadata.
#[derive(Debug, Clone)]
pub struct ResolvedResource {
    pub id: u32,
    pub type_label: String,
    pub name: String,
    pub value: ResourceData,
}

/// The mathematical value of a [`ResolvedResource`].
pub ghost struct ResolvedResourceView {
    pub id: u32,
    pub type_label: Seq<char>,
    pub name: Seq<char>,
    pub value: ResourceDataView,
}

impl View for ResolvedResource {
    type V = ResolvedResourceView;

    open spec fn view(&self) -> ResolvedResourceView {
        ResolvedResourceView {
            id: self.id,
            type_label: self.type_label@,
            name: self.name@,
            value: self.value@,
        }
    }
}

impl ResolvedResource {
    /// A copy of this resource.
    pub fn duplicate(&self) -> (copy: ResolvedResource)
        ensures
            copy@ == self@,
    {
        ResolvedResource {
            id: self.id,
            type_label: self.type_label.clone(),
            name: self.name.clone(),
            value: self.value.duplicate(),
        }
    }
}

/// The views of a sequence of resources.
pub open spec fn resource_views(resources: Seq<ResolvedResource>) -> Seq<ResolvedResourceView> {
    resources.map_values(|r: ResolvedResource| r@)
}

/// The views of a sequence of strings.
pub open spec fn string_views(strings: Seq<String>) -> Seq<Seq<char>> {
    strings.map_values(|s: String| s@)
}

/// A resolved resource with its value as text.
#[derive(Debug, Clone)]
pub struct PyResolvedResource {
    pub id: u32,
    pub type_label: String,
    pub name: String,
    pub value_type: String,
    pub value: String,
}

/// The mathematical value of a [`PyResolvedResource`].
pub ghost struct PyResolvedResourceView {
    pub id: u32,
    pub type_label: Seq<char>,
    pub name: Seq<char>,
    pub value_type: Seq<char>,
    pub value: Seq<char>,
}

impl View for PyResolvedResource {
    type V = PyResolvedResourceView;

    open spec fn view(&self) -> PyResolvedResourceView {
        PyResolvedResourceView {
            id: self.id,
            type_label: self.type_label@,
            name: self.name@,
            value_type: self.value_type@,
            value: self.value@,
        }
    }
}

impl PyResolvedResource {
    /// Check if this is a string resource.
    pub fn is_string(&self) -> (yes: bool)
        ensures
            yes == (self.type_label@ == "string"@),
    {
        str_eq(self.type_label.as_str(), "string")
    }

    /// Check if this is a boolean resource.
    pub fn is_boolean(&self) -> (yes: bool)
        ensures
            yes == (self.type_label@ == "bool"@ || self.value_type@ == "boolean"@),
    {
        str_eq(self.type_label.as_str(), "bool") || str_eq(self.value_type.as_str(), "boolean")
    }
}

/// The name of the kind of a value.
pub open spec fn value_type_text(value: ResourceDataView) -> Seq<char> {
    match value {
        ResourceDataView::String(_) => "string"@,
        ResourceDataView::Integer(_) => "integer"@,
        ResourceDataView::Boolean(_) => "boolean"@,
        ResourceDataView::Reference(_) => "reference"@,
        ResourceDataView::Unknown => "unknown"@,
    }
}

/// A value as text: a string as it is, an integer in decimal, a boolean as
/// `true` or `false`, a reference as `0x` and eight hexadecimal digits, an
/// unknown value as `?`.
pub open spec fn value_text(value: ResourceDataView) -> Seq<char> {
    match value {
        ResourceDataView::String(s) => s,
        ResourceDataView::Integer(i) => signed_decimal(i as int),
        ResourceDataView::Boolean(b) => if b {
            "true"@
        } else {
            "false"@
        },
        ResourceDataView::Reference(r) => "0x"@ + hex_padded(r as nat, 8),
        ResourceDataView::Unknown => "?"@,
    }
}

/// A resource with its value as text.
pub open spec fn as_text(resource: ResolvedResourceView) -> PyResolvedResourceView {
    PyResolvedResourceView {
        id: resource.id,
        type_label: resource.type_label,
        name: resource.name,
        value_type: value_type_text(resource.value),
        value: value_text(resource.value),
    }
}

/// A resource with its value as text.
pub fn resource_as_text(resource: &ResolvedResource) -> (out: PyResolvedResource)
    ensures
        out@ == as_text(resource@),
{
    let (value_type, value) = match &resource.value {
        ResourceData::String(s) => ("string", s.clone()),
        ResourceData::Integer(i) => ("integer", i64_to_string(*i as i64)),
        ResourceData::Boolean(b) => ("boolean", if *b {
            owned("true")
        } else {
            owned("false")
        }),
        ResourceData::Reference(ref_id) => {
            let mut text = owned("0x");
            push_hex_padded(&mut text, *ref_id, 8);
            ("reference", text)
        },
        ResourceData::Unknown => ("unknown", owned("?")),
    };
    PyResolvedResource {
        id: resource.id,
        type_label: resource.type_label.clone(),
        name: resource.name.clone(),
        value_type: owned(value_type),
        value,
    }
}

/// The resource id made of a package id, a type id and an entry id.
pub open spec fn resource_id(package_id: u8, type_id: u8, entry_id: u16) -> u32 {
    ((package_id as u32) << 24) | ((type_id as u32) << 16) | (entry_id as u32)
}

/// The value that a plain table value stands for: a string of the global
/// pool for type 3, an integer for types 16 and 17, a boolean for type 18, a
/// reference for type 1, and unknown for every other type and for a string
/// index outside the pool.
pub open spec fn plain_value(value: ArscValue, strings: Seq<Seq<char>>) -> ResourceDataView {
    if value.value_type == 0x03 {
        if value.data_index < strings.len() {
            ResourceDataView::String(strings[value.data_index as int])
        } else {
            ResourceDataView::Unknown
        }
    } else if value.value_type == 0x10 || value.value_type == 0x11 {
        ResourceDataView::Integer(low_32_signed(value.data_index))
    } else if value.value_type == 0x12 {
        ResourceDataView::Boolean(value.data_index != 0)
    } else if value.value_type == 0x01 {
        ResourceDataView::Reference(low_32(value.data_index))
    } else {
        ResourceDataView::Unknown
    }
}

/// The low 32 bits of a number.
pub open spec fn low_32(n: usize) -> u32 {
    (n as int % 0x1_0000_0000) as u32
}

/// The low 32 bits of a number, read as a signed number.
pub open spec fn low_32_signed(n: usize) -> i32 {
    if low_32(n) >= 0x8000_0000 {
        (low_32(n) - 0x1_0000_0000) as i32
    } else {
        low_32(n) as i32
    }
}

/// The value of a table entry; a bag has none that is known.
pub open spec fn entry_value(value: Option<ArscValue>, strings: Seq<Seq<char>>) -> ResourceDataView {
    match value {
        Some(plain) => plain_value(plain, strings),
        None => ResourceDataView::Unknown,
    }
}

/// The name of the type with the 1-based id `type_id`: the name listed for
/// it, or `type_` and the id.
pub open spec fn type_name_of(type_names: Seq<Seq<char>>, type_id: usize) -> Seq<char> {
    if 1 <= type_id <= type_names.len() {
        type_names[type_id - 1]
    } else {
        "type_"@ + decimal(type_id as nat)
    }
}

/// The name of an entry: the key listed at its name index, or `res_` and its
/// id.
pub open spec fn entry_name_of(key_names: Seq<Seq<char>>, entry: ArscEntry) -> Seq<char> {
    if entry.name_index < key_names.len() {
        key_names[entry.name_index as int]
    } else {
        "res_"@ + decimal(entry.spec_id as nat)
    }
}

/// The resource that an entry of a type of a package stands for. Package,
/// type and entry ids are cut to the width they have in a resource id.
pub open spec fn resource_of(
    package_id: u32,
    type_names: Seq<Seq<char>>,
    key_names: Seq<Seq<char>>,
    type_id: usize,
    entry: ArscEntry,
    strings: Seq<Seq<char>>,
) -> ResolvedResourceView {
    ResolvedResourceView {
        id: resource_id(
            (package_id % 0x100) as u8,
            (type_id % 0x100) as u8,
            (entry.spec_id % 0x1_0000) as u16,
        ),
        type_label: type_name_of(type_names, type_id),
        name: entry_name_of(key_names, entry),
        value: entry_value(entry.value, strings),
    }
}

/// The resources of the first `n` entries of a configuration, in order.
pub open spec fn config_resources(
    package_id: u32,
    type_names: Seq<Seq<char>>,
    key_names: Seq<Seq<char>>,
    type_id: usize,
    entries: Seq<ArscEntry>,
    strings: Seq<Seq<char>>,
    n: nat,
) -> Seq<ResolvedResourceView>
    decreases n,
{
    if n == 0 || n > entries.len() {
        Seq::empty()
    } else {
        config_resources(
            package_id,
            type_names,
            key_names,
            type_id,
            entries,
            strings,
            (n - 1) as nat,
        ).push(resource_of(package_id, type_names, key_names, type_id, entries[n - 1], strings))
    }
}

/// The resources of the first `n` configurations of a type, in order.
pub open spec fn type_resources(
    package_id: u32,
    type_names: Seq<Seq<char>>,
    key_names: Seq<Seq<char>>,
    resource_type: ArscType,
    strings: Seq<Seq<char>>,
    n: nat,
) -> Seq<ResolvedResourceView>
    decreases n,
{
    if n == 0 || n > resource_type.configs@.len() {
        Seq::empty()
    } else {
        type_resources(package_id, type_names, key_names, resource_type, strings, (n - 1) as nat)
            + config_resources(
            package_id,
            type_names,
            key_names,
            resource_type.id,
            resource_type.configs@[n - 1].resources@,
            strings,
            resource_type.configs@[n - 1].resources@.len(),
        )
    }
}

/// The resources of the first `n` types of a package, in order.
pub open spec fn package_resources(package: ArscPackage, strings: Seq<Seq<char>>, n: nat) -> Seq<
    ResolvedResourceView,
>
    decreases n,
{
    if n == 0 || n > package.types@.len() {
        Seq::empty()
    } else {
        package_resources(package, strings, (n - 1) as nat) + type_resources(
            package.id,
            string_views(package.type_names@),
            string_views(package.key_names@),
            package.types@[n - 1],
            strings,
            package.types@[n - 1].configs@.len(),
        )
    }
}

/// The resources of the first `n` packages of a table, in order.
pub open spec fn table_resources(table: ArscTable, n: nat) -> Seq<ResolvedResourceView>
    decreases n,
{
    if n == 0 || n > table.packages@.len() {
        Seq::empty()
    } else {
        table_resources(table, (n - 1) as nat) + package_resources(
            table.packages@[n - 1],
            string_views(table.global_strings@),
            table.packages@[n - 1].types@.len(),
        )
    }
}

/// The cache that holds the first `n` of `resources`, each under its id: of
/// two resources with one id the later one stays.
pub open spec fn cache_of(resources: Seq<ResolvedResourceView>, n: nat) -> Map<
    u32,
    ResolvedResourceView,
>
    decreases n,
{
    if n == 0 || n > resources.len() {
        Map::empty()
    } else {
        cache_of(resources, (n - 1) as nat).insert(resources[n - 1].id, resources[n - 1])
    }
}

/// The cache holds an id exactly if one of the resources has it, and holds
/// under it the last resource that has it.
pub proof fn lemma_cache_of(resources: Seq<ResolvedResourceView>, n: nat, id: u32)
    requires
        n <= resources.len(),
    ensures
        cache_of(resources, n).dom().finite(),
        cache_of(resources, n).contains_key(id) <==> exists|i: int|
            0 <= i < n && (#[trigger] resources[i]).id == id,
        forall|i: int|
            0 <= i < n && (#[trigger] resources[i]).id == id && (forall|j: int|
                i < j < n ==> (#[trigger] resources[j]).id != id) ==> cache_of(resources, n)[id]
                == resources[i],
    decreases n,
{
    if n > 0 {
        lemma_cache_of(resources, (n - 1) as nat, id);
        if resources[n - 1].id != id {
            if cache_of(resources, (n - 1) as nat).contains_key(id) {
                let i = choose|i: int| 0 <= i < n - 1 && (#[trigger] resources[i]).id == id;
                assert(resources[i].id == id);
            }
        }
    }
}

/// The cache of a table.
pub open spec fn table_cache(table: ArscTable) -> Map<u32, ResolvedResourceView> {
    cache_of(
        table_resources(table, table.packages@.len()),
        table_resources(table, table.packages@.len()).len(),
    )
}

/// The views of the resources of a cache.
pub open spec fn cache_views(cache: Map<u32, ResolvedResource>) -> Map<u32, ResolvedResourceView> {
    cache.map_values(|r: ResolvedResource| r@)
}

/// `ids` names every id of the cache once.
pub open spec fn walks(ids: Seq<u32>, cache: Map<u32, ResolvedResourceView>) -> bool {
    ids.no_duplicates() && ids.to_set() == cache.dom()
}

/// The resources of the cache under `ids`, in that order.
pub open spec fn listed(cache: Map<u32, ResolvedResourceView>, ids: Seq<u32>) -> Seq<
    ResolvedResourceView,
> {
    ids.map_values(|id: u32| cache[id])
}

/// `found` holds the resources of the cache whose type is `type_label`,
/// each once, in the order of some walk over the cache.
pub open spec fn lists_type(
    found: Seq<ResolvedResourceView>,
    cache: Map<u32, ResolvedResourceView>,
    type_label: Seq<char>,
) -> bool {
    exists|ids: Seq<u32>| #[trigger]
        walks(ids, cache) && found == listed(cache, ids).filter(
            |r: ResolvedResourceView| r.type_label == type_label,
        )
}

/// Whether a number looks like a resource id: its package byte is `0x7f`
/// (the application) or `0x01` (the system).
pub open spec fn looks_like_resource_id(value: i64) -> bool {
    ((value >> 24) & 0xFF) == 0x7f || ((value >> 24) & 0xFF) == 0x01
}

/// Resource resolver.
pub struct ResourceResolver {
    /// Cache: resource id to resource.
    pub cache: HashMap<u32, ResolvedResource>,
}

fn value_of(value: &Option<ArscValue>, strings: &Vec<String>) -> (out: ResourceData)
    ensures
        out@ == entry_value(*value, string_views(strings@)),
{
    match value {
        Some(plain) => ResourceResolver::extract_plain_value(plain, strings),
        None => ResourceData::Unknown,
    }
}

fn name_or(names: &Vec<String>, index: usize, prefix: &str, id: usize) -> (name: String)
    ensures
        name@ == (if index < names@.len() {
            names@[index as int]@
        } else {
            prefix@ + decimal(id as nat)
        }),
{
    if index < names.len() {
        names[index].clone()
    } else {
        let mut name = owned(prefix);
        push_decimal(&mut name, id as u64);
        name
    }
}

fn resource_from(package: &ArscPackage, type_id: usize, entry: &ArscEntry, strings: &Vec<String>) -> (out:
    ResolvedResource)
    ensures
        out@ == resource_of(
            package.id,
            string_views(package.type_names@),
            string_views(package.key_names@),
            type_id,
            *entry,
            string_views(strings@),
        ),
{
    let type_label = if type_id >= 1 {
        name_or(&package.type_names, type_id - 1, "type_", type_id)
    } else {
        let mut name = owned("type_");
        push_decimal(&mut name, type_id as u64);
        name
    };
    let id = ResourceResolver::build_resource_id(
        (package.id % 0x100) as u8,
        (type_id % 0x100) as u8,
        (entry.spec_id % 0x1_0000) as u16,
    );
    ResolvedResource {
        id,
        type_label,
        name: name_or(&package.key_names, entry.name_index, "res_", entry.spec_id),
        value: value_of(&entry.value, strings),
    }
}

fn add_config(
    package: &ArscPackage,
    type_id: usize,
    config: &ArscConfig,
    strings: &Vec<String>,
    out: &mut Vec<ResolvedResource>,
)
    ensures
        resource_views(final(out)@) == resource_views(old(out)@) + config_resources(
            package.id,
            string_views(package.type_names@),
            string_views(package.key_names@),
            type_id,
            config.resources@,
            string_views(strings@),
            config.resources@.len(),
        ),
{
    let ghost start = resource_views(out@);
    let ghost type_names = string_views(package.type_names@);
    let ghost key_names = string_views(package.key_names@);
    let ghost pool = string_views(strings@);
    let mut k: usize = 0;
    assert(start + config_resources(
        package.id,
        type_names,
        key_names,
        type_id,
        config.resources@,
        pool,
        0,
    ) =~= start);
    while k < config.resources.len()
        invariant
            k <= config.resources@.len(),
            type_names == string_views(package.type_names@),
            key_names == string_views(package.key_names@),
            pool == string_views(strings@),
            resource_views(out@) == start + config_resources(
                package.id,
                type_names,
                key_names,
                type_id,
                config.resources@,
                pool,
                k as nat,
            ),
        decreases config.resources@.len() - k,
    {
        let ghost before = resource_views(out@);
        let ghost done = config_resources(
            package.id,
            type_names,
            key_names,
            type_id,
            config.resources@,
            pool,
            k as nat,
        );
        let resource = resource_from(package, type_id, &config.resources[k], strings);
        out.push(resource);
        assert(resource_views(out@) =~= before.push(resource@));
        assert(start + done.push(resource@) =~= (start + done).push(resource@));
        k += 1;
    }
}

fn add_type(package: &ArscPackage, resource_type: &ArscType, strings: &Vec<String>, out: &mut Vec<
    ResolvedResource,
>)
    ensures
        resource_views(final(out)@) == resource_views(old(out)@) + type_resources(
            package.id,
            string_views(package.type_names@),
            string_views(package.key_names@),
            *resource_type,
            string_views(strings@),
            resource_type.configs@.len(),
        ),
{
    let ghost start = resource_views(out@);
    let ghost type_names = string_views(package.type_names@);
    let ghost key_names = string_views(package.key_names@);
    let ghost pool = string_views(strings@);
    let mut k: usize = 0;
    assert(start + type_resources(package.id, type_names, key_names, *resource_type, pool, 0)
        =~= start);
    while k < resource_type.configs.len()
        invariant
            k <= resource_type.configs@.len(),
            type_names == string_views(package.type_names@),
            key_names == string_views(package.key_names@),
            pool == string_views(strings@),
            resource_views(out@) == start + type_resources(
                package.id,
                type_names,
                key_names,
                *resource_type,
                pool,
                k as nat,
            ),
        decreases resource_type.configs@.len() - k,
    {
        let ghost done = type_resources(
            package.id,
            type_names,
            key_names,
            *resource_type,
            pool,
            k as nat,
        );
        let ghost more = config_resources(
            package.id,
            type_names,
            key_names,
            resource_type.id,
            resource_type.configs@[k as int].resources@,
            pool,
            resource_type.configs@[k as int].resources@.len(),
        );
        add_config(package, resource_type.id, &resource_type.configs[k], strings, out);
        assert(start + done + more =~= start + (done + more));
        k += 1;
    }
}

fn add_package(package: &ArscPackage, strings: &Vec<String>, out: &mut Vec<ResolvedResource>)
    ensures
        resource_views(final(out)@) == resource_views(old(out)@) + package_resources(
            *package,
            string_views(strings@),
            package.types@.len(),
        ),
{
    let ghost start = resource_views(out@);
    let ghost pool = string_views(strings@);
    let mut k: usize = 0;
    assert(start + package_resources(*package, pool, 0) =~= start);
    while k < package.types.len()
        invariant
            k <= package.types@.len(),
            pool == string_views(strings@),
            resource_views(out@) == start + package_resources(*package, pool, k as nat),
        decreases package.types@.len() - k,
    {
        let ghost done = package_resources(*package, pool, k as nat);
        let ghost more = type_resources(
            package.id,
            string_views(package.type_names@),
            string_views(package.key_names@),
            package.types@[k as int],
            pool,
            package.types@[k as int].configs@.len(),
        );
        add_type(package, &package.types[k], strings, out);
        assert(start + done + more =~= start + (done + more));
        k += 1;
    }
}

/// The resources of a table, in table order.
pub fn list_resources(table: &ArscTable) -> (out: Vec<ResolvedResource>)
    ensures
        resource_views(out@) == table_resources(*table, table.packages@.len()),
{
    let mut out: Vec<ResolvedResource> = Vec::new();
    let ghost pool = string_views(table.global_strings@);
    let mut k: usize = 0;
    assert(resource_views(out@) =~= table_resources(*table, 0));
    while k < table.packages.len()
        invariant
            k <= table.packages@.len(),
            pool == string_views(table.global_strings@),
            resource_views(out@) == table_resources(*table, k as nat),
        decreases table.packages@.len() - k,
    {
        add_package(&table.packages[k], &table.global_strings, &mut out);
        k += 1;
    }
    out
}

impl ResourceResolver {
    /// The resources that the resolver holds, each under its id.
    pub open spec fn resources(&self) -> Map<u32, ResolvedResourceView> {
        cache_views(self.cache@)
    }

    /// The resolver of a decoded resource table.
    pub fn from_table(table: &ArscTable) -> (resolver: ResourceResolver)
        ensures
            resolver.resources() == table_cache(*table),
    {
        let cache = Self::build_cache(table);
        ResourceResolver { cache }
    }

    /// Check if a value looks like a resource ID.
    pub fn is_resource_id(value: i64) -> (yes: bool)
        ensures
            yes == looks_like_resource_id(value),
    {
        let package_id = (value >> 24) & 0xFF;
        package_id == 0x7f || package_id == 0x01
    }

    /// Get resource type from ID: bits 16 to 23.
    pub fn get_resource_type_id(resource_id: u32) -> (type_id: u8)
        ensures
            type_id == ((resource_id >> 16) & 0xFF) as u8,
    {
        assert((resource_id >> 16) & 0xFF <= 0xFF) by (bit_vector);
        ((resource_id >> 16) & 0xFF) as u8
    }

    /// Get entry ID from resource ID: the low 16 bits.
    pub fn get_entry_id(resource_id: u32) -> (entry_id: u16)
        ensures
            entry_id == (resource_id & 0xFFFF) as u16,
    {
        assert(resource_id & 0xFFFF <= 0xFFFF) by (bit_vector);
        (resource_id & 0xFFFF) as u16
    }

    /// Resolve a resource ID to its value.
    pub fn resolve(&self, resource_id: u32) -> (found: Option<&ResolvedResource>)
        ensures
            match found {
                Some(resource) => self.resources().contains_key(resource_id)
                    && self.resources()[resource_id] == resource@,
                None => !self.resources().contains_key(resource_id),
            },
    {
        broadcast use group_hash_axioms;

        self.cache.get(&resource_id)
    }

    /// Get all resources of a specific type, in the order in which the
    /// cache hands them out.
    pub fn get_by_type(&self, type_label: &str) -> (found: Vec<&ResolvedResource>)
        ensures
            lists_type(
                found@.map_values(|r: &ResolvedResource| r@),
                self.resources(),
                type_label@,
            ),
    {
        broadcast use group_hash_axioms;

        let ghost cache = self.resources();
        let ghost all = spec_keys_iter(&self.cache).remaining();
        let ghost ids = all.unref();
        let ghost keep = |r: ResolvedResourceView| r.type_label == type_label@;
        let ghost view = |r: &ResolvedResource| r@;
        let mut found: Vec<&ResolvedResource> = Vec::new();
        assert(found@.map_values(view) =~= listed(cache, ids.take(0)).filter(keep));
        for key in it: self.cache.keys()
            invariant
                it.seq() == all,
                ids == all.unref(),
                ids.to_set() == self.cache@.dom(),
                cache == self.resources(),
                keep == |r: ResolvedResourceView| r.type_label == type_label@,
                view == |r: &ResolvedResource| r@,
                found@.map_values(view) == listed(cache, ids.take(it.index())).filter(keep),
        {
            let ghost before = found@.map_values(view);
            let ghost k = it.index();
            proof {
                assert(ids[k] == *key);
                assert(ids.contains(ids[k]));
                assert(ids.to_set().contains(*key));
                assert(listed(cache, ids.take(k + 1)).drop_last() =~= listed(cache, ids.take(k)));
                assert(listed(cache, ids.take(k + 1)).last() == cache[*key]);
                reveal(Seq::filter);
            }
            match self.cache.get(key) {
                Some(resource) => {
                    assert(cache[*key] == resource@);
                    if str_eq(resource.type_label.as_str(), type_label) {
                        found.push(resource);
                        assert(found@.map_values(view) =~= before.push(resource@));
                    }
                },
                None => {
                    assert(false);
                },
            }
        }
        proof {
            assert(ids.take(ids.len() as int) =~= ids);
            assert(cache.dom() =~= self.cache@.dom());
            assert(walks(ids, cache));
        }
        found
    }

    /// Get all string resources.
    pub fn get_all_strings(&self) -> (found: Vec<&ResolvedResource>)
        ensures
            lists_type(found@.map_values(|r: &ResolvedResource| r@), self.resources(), "string"@),
    {
        self.get_by_type("string")
    }

    /// Number of resources.
    pub fn count(&self) -> (n: usize)
        ensures
            n == self.resources().len(),
    {
        broadcast use group_hash_axioms;

        assert(self.resources().dom() =~= self.cache@.dom());
        self.cache.len()
    }

    /// Build resource cache from a table: one resource for each id, the one
    /// met last.
    pub fn build_cache(table: &ArscTable) -> (cache: HashMap<u32, ResolvedResource>)
        ensures
            cache_views(cache@) == table_cache(*table),
    {
        broadcast use group_hash_axioms;

        let resources = list_resources(table);
        let ghost all = resource_views(resources@);
        let mut cache: HashMap<u32, ResolvedResource> = HashMap::new();
        let mut k: usize = 0;
        assert(cache_views(cache@) =~= cache_of(all, 0));
        while k < resources.len()
            invariant
                k <= resources@.len(),
                all == resource_views(resources@),
                cache_views(cache@) == cache_of(all, k as nat),
            decreases resources@.len() - k,
        {
            let ghost before = cache@;
            assert(all[k as int] == resources@[k as int]@);
            let resource = resources[k].duplicate();
            cache.insert(resource.id, resource);
            assert(cache_views(cache@) =~= cache_views(before).insert(resource@.id, resource@));
            k += 1;
        }
        cache
    }

    /// Build resource ID from components.
    pub fn build_resource_id(package_id: u8, type_id: u8, entry_id: u16) -> (id: u32)
        ensures
            id == resource_id(package_id, type_id, entry_id),
    {
        ((package_id as u32) << 24) | ((type_id as u32) << 16) | (entry_id as u32)
    }

    /// Extract value from plain Value.
    pub fn extract_plain_value(value: &ArscValue, string_pool: &Vec<String>) -> (out: ResourceData)
        ensures
            out@ == plain_value(*value, string_views(string_pool@)),
    {
        if value.value_type == 0x03 {
            if value.data_index < string_pool.len() {
                ResourceData::String(string_pool[value.data_index].clone())
            } else {
                ResourceData::Unknown
            }
        } else if value.value_type == 0x10 || value.value_type == 0x11 {
            let low: u32 = (value.data_index as u64 % 0x1_0000_0000) as u32;
            ResourceData::Integer(
                if low >= 0x8000_0000 {
                    ((low as i64) - 0x1_0000_0000) as i32
                } else {
                    low as i32
                },
            )
        } else if value.value_type == 0x12 {
            ResourceData::Boolean(value.data_index != 0)
        } else if value.value_type == 0x01 {
            ResourceData::Reference((value.data_index as u64 % 0x1_0000_0000) as u32)
        } else {
            ResourceData::Unknown
        }
    }
}

/// Resolver that gives resources with their values as text.
pub struct PyResourceResolver {
    pub resolver: ResourceResolver,
}

impl PyResourceResolver {
    /// Resolve a resource ID to its value.
    pub fn resolve(&self, resource_id: u32) -> (found: Option<PyResolvedResource>)
        ensures
            match found {
                Some(resource) => self.resolver.resources().contains_key(resource_id) && as_text(
                    self.resolver.resources()[resource_id],
                ) == resource@,
                None => !self.resolver.resources().contains_key(resource_id),
            },
    {
        match self.resolver.resolve(resource_id) {
            Some(resource) => Some(resource_as_text(resource)),
            None => None,
        }
    }

    /// Check if a value looks like a resource ID.
    pub fn is_resource_id(value: i64) -> (yes: bool)
        ensures
            yes == looks_like_resource_id(value),
    {
        ResourceResolver::is_resource_id(value)
    }

    /// Get all string resources.
    pub fn get_all_strings(&self) -> (found: Vec<PyResolvedResource>)
        ensures
            exists|resources: Seq<ResolvedResourceView>| #[trigger]
                lists_type(resources, self.resolver.resources(), "string"@) && found@.map_values(
                    |r: PyResolvedResource| r@,
                ) == resources.map_values(|r: ResolvedResourceView| as_text(r)),
    {
        let resources = self.resolver.get_all_strings();
        assert(lists_type(
            resources@.map_values(|r: &ResolvedResource| r@),
            self.resolver.resources(),
            "string"@,
        ));
        self.texts_of(resources)
    }

    /// Get all resources of a specific type.
    pub fn get_by_type(&self, type_label: String) -> (found: Vec<PyResolvedResource>)
        ensures
            exists|resources: Seq<ResolvedResourceView>| #[trigger]
                lists_type(resources, self.resolver.resources(), type_label@) && found@.map_values(
                    |r: PyResolvedResource| r@,
                ) == resources.map_values(|r: ResolvedResourceView| as_text(r)),
    {
        let resources = self.resolver.get_by_type(type_label.as_str());
        assert(lists_type(
            resources@.map_values(|r: &ResolvedResource| r@),
            self.resolver.resources(),
            type_label@,
        ));
        self.texts_of(resources)
    }

    fn texts_of(&self, resources: Vec<&ResolvedResource>) -> (found: Vec<PyResolvedResource>)
        ensures
            found@.map_values(|r: PyResolvedResource| r@) == resources@.map_values(
                |r: &ResolvedResource| r@,
            ).map_values(|r: ResolvedResourceView| as_text(r)),
    {
        let mut found: Vec<PyResolvedResource> = Vec::new();
        let mut k: usize = 0;
        while k < resources.len()
            invariant
                k <= resources@.len(),
                found@.len() == k,
                forall|j: int| 0 <= j < k ==> (#[trigger] found@[j])@ == as_text(resources@[j]@),
            decreases resources@.len() - k,
        {
            found.push(resource_as_text(resources[k]));
            k += 1;
        }
        assert(found@.map_values(|r: PyResolvedResource| r@) =~= resources@.map_values(
            |r: &ResolvedResource| r@,
        ).map_values(|r: ResolvedResourceView| as_text(r)));
        found
    }

    /// Get total number of resources.
    pub fn count(&self) -> (n: usize)
        ensures
            n == self.resolver.resources().len(),
    {
        self.resolver.count()
    }
}

/// The resolver of the resource table of an APK.
pub fn parse_resources(table: &ArscTable) -> (resolver: PyResourceResolver)
    ensures
        resolver.resolver.resources() == table_cache(*table),
{
    PyResourceResolver { resolver: ResourceResolver::from_table(table) }
}

} // verus!
