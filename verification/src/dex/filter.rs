//! Filters for finding classes and methods.

use vstd::prelude::*;
use crate::apk::manifest::opt_view;
use crate::dex::models::{
    has_flags, RustDexClass, RustDexClassView, RustDexMethod, RustDexMethodView,
};
use crate::text::{seq_contains, seq_starts_with, str_contains, str_starts_with, views};

verus! {

/// Filter for finding classes.
#[derive(Debug, Clone)]
pub struct ClassFilter {
    pub packages: Vec<String>,
    pub exclude_packages: Vec<String>,
    pub class_name: Option<String>,
    pub modifiers: Option<u32>,
}

/// The mathematical value of a [`ClassFilter`].
pub ghost struct ClassFilterView {
    pub packages: Seq<Seq<char>>,
    pub exclude_packages: Seq<Seq<char>>,
    pub class_name: Option<Seq<char>>,
    pub modifiers: Option<u32>,
}

impl View for ClassFilter {
    type V = ClassFilterView;

    open spec fn view(&self) -> ClassFilterView {
        ClassFilterView {
            packages: views(self.packages@),
            exclude_packages: views(self.exclude_packages@),
            class_name: opt_view(self.class_name),
            modifiers: self.modifiers,
        }
    }
}

/// Some string of `prefixes` is a prefix of `name`.
pub open spec fn starts_with_any(name: Seq<char>, prefixes: Seq<Seq<char>>) -> bool {
    exists|i: int| 0 <= i < prefixes.len() && seq_starts_with(name, #[trigger] prefixes[i])
}

/// The strings of a list, if there is one, and else none.
pub open spec fn strings_or_none(list: Option<Vec<String>>) -> Seq<Seq<char>> {
    match list {
        Some(v) => views(v@),
        None => Seq::empty(),
    }
}

impl ClassFilterView {
    /// A class matches if its package starts with one of the packages
    /// wanted, when any are given, and with none of the packages excluded;
    /// if its full or simple name holds the name wanted, when one is given;
    /// and if it has all the modifiers wanted, when any are given.
    pub open spec fn matches(self, class: RustDexClassView) -> bool {
        &&& self.packages.len() == 0 || starts_with_any(class.package_name, self.packages)
        &&& !starts_with_any(class.package_name, self.exclude_packages)
        &&& match self.class_name {
            Some(name) => seq_contains(class.class_name, name) || seq_contains(
                class.simple_name,
                name,
            ),
            None => true,
        }
        &&& match self.modifiers {
            Some(required) => has_flags(class.access_flags, required),
            None => true,
        }
    }
}

fn starts_with_one_of(name: &str, prefixes: &Vec<String>) -> (found: bool)
    ensures
        found == starts_with_any(name@, views(prefixes@)),
{
    let mut i: usize = 0;
    while i < prefixes.len()
        invariant
            i <= prefixes@.len(),
            forall|j: int| 0 <= j < i ==> !seq_starts_with(name@, #[trigger] views(prefixes@)[j]),
        decreases prefixes@.len() - i,
    {
        if str_starts_with(name, prefixes[i].as_str()) {
            assert(seq_starts_with(name@, views(prefixes@)[i as int]));
            return true;
        }
        i += 1;
    }
    false
}

fn list_or_empty(list: Option<Vec<String>>) -> (out: Vec<String>)
    ensures
        views(out@) == strings_or_none(list),
{
    match list {
        Some(v) => v,
        None => {
            let out: Vec<String> = Vec::new();
            assert(views(out@) =~= Seq::<Seq<char>>::empty());
            out
        },
    }
}

impl ClassFilter {
    /// Create a new ClassFilter; a list that is not given is empty.
    pub fn new(
        packages: Option<Vec<String>>,
        exclude_packages: Option<Vec<String>>,
        class_name: Option<String>,
        modifiers: Option<u32>,
    ) -> (filter: ClassFilter)
        ensures
            filter@ == (ClassFilterView {
                packages: strings_or_none(packages),
                exclude_packages: strings_or_none(exclude_packages),
                class_name: opt_view(class_name),
                modifiers,
            }),
    {
        ClassFilter {
            packages: list_or_empty(packages),
            exclude_packages: list_or_empty(exclude_packages),
            class_name,
            modifiers,
        }
    }

    /// Check if a class matches this filter.
    pub fn matches(&self, class: &RustDexClass) -> (yes: bool)
        ensures
            yes == self@.matches(class@),
    {
        if self.packages.len() > 0 && !starts_with_one_of(
            class.package_name.as_str(),
            &self.packages,
        ) {
            return false;
        }
        if starts_with_one_of(class.package_name.as_str(), &self.exclude_packages) {
            return false;
        }
        match &self.class_name {
            Some(name) => {
                if !str_contains(class.class_name.as_str(), name.as_str()) && !str_contains(
                    class.simple_name.as_str(),
                    name.as_str(),
                ) {
                    return false;
                }
            },
            None => {},
        }
        match self.modifiers {
            Some(required_flags) => {
                if class.access_flags & required_flags != required_flags {
                    return false;
                }
            },
            None => {},
        }
        true
    }
}

/// Builder for ClassFilter.
#[derive(Debug)]
pub struct ClassFilterBuilder {
    packages: Vec<String>,
    exclude_packages: Vec<String>,
    class_name: Option<String>,
    modifiers: Option<u32>,
}

impl View for ClassFilterBuilder {
    type V = ClassFilterView;

    closed spec fn view(&self) -> ClassFilterView {
        ClassFilterView {
            packages: views(self.packages@),
            exclude_packages: views(self.exclude_packages@),
            class_name: opt_view(self.class_name),
            modifiers: self.modifiers,
        }
    }
}

impl ClassFilterBuilder {
    /// A builder of the filter that every class matches.
    pub fn new() -> (builder: ClassFilterBuilder)
        ensures
            builder@ == (ClassFilterView {
                packages: Seq::empty(),
                exclude_packages: Seq::empty(),
                class_name: None,
                modifiers: None,
            }),
    {
        let builder = ClassFilterBuilder {
            packages: Vec::new(),
            exclude_packages: Vec::new(),
            class_name: None,
            modifiers: None,
        };
        assert(builder@.packages =~= Seq::<Seq<char>>::empty());
        assert(builder@.exclude_packages =~= Seq::<Seq<char>>::empty());
        builder
    }

    /// Sets the packages wanted.
    pub fn packages(self, packages: Vec<String>) -> (builder: ClassFilterBuilder)
        ensures
            builder@ == (ClassFilterView { packages: views(packages@), ..self@ }),
    {
        let mut builder = self;
        builder.packages = packages;
        builder
    }

    /// Sets the packages excluded.
    pub fn exclude_packages(self, exclude: Vec<String>) -> (builder: ClassFilterBuilder)
        ensures
            builder@ == (ClassFilterView { exclude_packages: views(exclude@), ..self@ }),
    {
        let mut builder = self;
        builder.exclude_packages = exclude;
        builder
    }

    /// Sets the class name wanted.
    pub fn class_name(self, name: String) -> (builder: ClassFilterBuilder)
        ensures
            builder@ == (ClassFilterView { class_name: Some(name@), ..self@ }),
    {
        let mut builder = self;
        builder.class_name = Some(name);
        builder
    }

    /// Sets the modifiers wanted.
    pub fn modifiers(self, flags: u32) -> (builder: ClassFilterBuilder)
        ensures
            builder@ == (ClassFilterView { modifiers: Some(flags), ..self@ }),
    {
        let mut builder = self;
        builder.modifiers = Some(flags);
        builder
    }

    /// The filter built.
    pub fn build(self) -> (filter: ClassFilter)
        ensures
            filter@ == self@,
    {
        ClassFilter {
            packages: self.packages,
            exclude_packages: self.exclude_packages,
            class_name: self.class_name,
            modifiers: self.modifiers,
        }
    }
}

/// Filter for finding methods.
#[derive(Debug, Clone)]
pub struct MethodFilter {
    pub method_name: Option<String>,
    pub param_count: Option<usize>,
    pub param_types: Vec<String>,
    pub return_type: Option<String>,
    pub modifiers: Option<u32>,
}

/// The mathematical value of a [`MethodFilter`].
pub ghost struct MethodFilterView {
    pub method_name: Option<Seq<char>>,
    pub param_count: Option<usize>,
    pub param_types: Seq<Seq<char>>,
    pub return_type: Option<Seq<char>>,
    pub modifiers: Option<u32>,
}

impl View for MethodFilter {
    type V = MethodFilterView;

    open spec fn view(&self) -> MethodFilterView {
        MethodFilterView {
            method_name: opt_view(self.method_name),
            param_count: self.param_count,
            param_types: views(self.param_types@),
            return_type: opt_view(self.return_type),
            modifiers: self.modifiers,
        }
    }
}

/// There are as many parameters as types wanted, and each parameter holds
/// the type wanted at its place.
pub open spec fn params_match(parameters: Seq<Seq<char>>, wanted: Seq<Seq<char>>) -> bool {
    parameters.len() == wanted.len() && forall|i: int|
        0 <= i < wanted.len() ==> seq_contains(#[trigger] parameters[i], wanted[i])
}

impl MethodFilterView {
    /// A method matches if its name holds the name wanted, it has the
    /// number of parameters wanted, its parameters hold the types wanted,
    /// its return type holds the type wanted and it has all the modifiers
    /// wanted; each condition counts only if the filter states it.
    pub open spec fn matches(self, method: RustDexMethodView) -> bool {
        &&& match self.method_name {
            Some(name) => seq_contains(method.name, name),
            None => true,
        }
        &&& match self.param_count {
            Some(count) => method.parameters.len() == count,
            None => true,
        }
        &&& self.param_types.len() == 0 || params_match(method.parameters, self.param_types)
        &&& match self.return_type {
            Some(wanted) => seq_contains(method.return_type, wanted),
            None => true,
        }
        &&& match self.modifiers {
            Some(required) => has_flags(method.access_flags, required),
            None => true,
        }
    }
}

fn parameters_match(parameters: &Vec<String>, wanted: &Vec<String>) -> (yes: bool)
    ensures
        yes == params_match(views(parameters@), views(wanted@)),
{
    if parameters.len() != wanted.len() {
        return false;
    }
    let mut i: usize = 0;
    while i < wanted.len()
        invariant
            i <= wanted@.len(),
            parameters@.len() == wanted@.len(),
            forall|j: int|
                0 <= j < i ==> seq_contains(#[trigger] views(parameters@)[j], views(wanted@)[j]),
        decreases wanted@.len() - i,
    {
        if !str_contains(parameters[i].as_str(), wanted[i].as_str()) {
            assert(!seq_contains(views(parameters@)[i as int], views(wanted@)[i as int]));
            return false;
        }
        i += 1;
    }
    true
}

impl MethodFilter {
    /// Create a new MethodFilter; a list that is not given is empty.
    pub fn new(
        method_name: Option<String>,
        param_count: Option<usize>,
        param_types: Option<Vec<String>>,
        return_type: Option<String>,
        modifiers: Option<u32>,
    ) -> (filter: MethodFilter)
        ensures
            filter@ == (MethodFilterView {
                method_name: opt_view(method_name),
                param_count,
                param_types: strings_or_none(param_types),
                return_type: opt_view(return_type),
                modifiers,
            }),
    {
        MethodFilter {
            method_name,
            param_count,
            param_types: list_or_empty(param_types),
            return_type,
            modifiers,
        }
    }

    /// Check if a method matches this filter.
    pub fn matches(&self, method: &RustDexMethod) -> (yes: bool)
        ensures
            yes == self@.matches(method@),
    {
        match &self.method_name {
            Some(name) => {
                if !str_contains(method.name.as_str(), name.as_str()) {
                    return false;
                }
            },
            None => {},
        }
        match self.param_count {
            Some(count) => {
                if method.parameters.len() != count {
                    return false;
                }
            },
            None => {},
        }
        if self.param_types.len() > 0 && !parameters_match(&method.parameters, &self.param_types) {
            return false;
        }
        match &self.return_type {
            Some(ret_type) => {
                if !str_contains(method.return_type.as_str(), ret_type.as_str()) {
                    return false;
                }
            },
            None => {},
        }
        match self.modifiers {
            Some(required_flags) => {
                if method.access_flags & required_flags != required_flags {
                    return false;
                }
            },
            None => {},
        }
        true
    }
}

/// Builder for MethodFilter.
#[derive(Debug)]
pub struct MethodFilterBuilder {
    method_name: Option<String>,
    param_count: Option<usize>,
    param_types: Vec<String>,
    return_type: Option<String>,
    modifiers: Option<u32>,
}

impl View for MethodFilterBuilder {
    type V = MethodFilterView;

    closed spec fn view(&self) -> MethodFilterView {
        MethodFilterView {
            method_name: opt_view(self.method_name),
            param_count: self.param_count,
            param_types: views(self.param_types@),
            return_type: opt_view(self.return_type),
            modifiers: self.modifiers,
        }
    }
}

impl MethodFilterBuilder {
    /// A builder of the filter that every method matches.
    pub fn new() -> (builder: MethodFilterBuilder)
        ensures
            builder@ == (MethodFilterView {
                method_name: None,
                param_count: None,
                param_types: Seq::empty(),
                return_type: None,
                modifiers: None,
            }),
    {
        let builder = MethodFilterBuilder {
            method_name: None,
            param_count: None,
            param_types: Vec::new(),
            return_type: None,
            modifiers: None,
        };
        assert(builder@.param_types =~= Seq::<Seq<char>>::empty());
        builder
    }

    /// Sets the method name wanted.
    pub fn method_name(self, name: String) -> (builder: MethodFilterBuilder)
        ensures
            builder@ == (MethodFilterView { method_name: Some(name@), ..self@ }),
    {
        let mut builder = self;
        builder.method_name = Some(name);
        builder
    }

    /// Sets the number of parameters wanted.
    pub fn param_count(self, count: usize) -> (builder: MethodFilterBuilder)
        ensures
            builder@ == (MethodFilterView { param_count: Some(count), ..self@ }),
    {
        let mut builder = self;
        builder.param_count = Some(count);
        builder
    }

    /// Sets the parameter types wanted.
    pub fn param_types(self, types: Vec<String>) -> (builder: MethodFilterBuilder)
        ensures
            builder@ == (MethodFilterView { param_types: views(types@), ..self@ }),
    {
        let mut builder = self;
        builder.param_types = types;
        builder
    }

    /// Sets the return type wanted.
    pub fn return_type(self, ret_type: String) -> (builder: MethodFilterBuilder)
        ensures
            builder@ == (MethodFilterView { return_type: Some(ret_type@), ..self@ }),
    {
        let mut builder = self;
        builder.return_type = Some(ret_type);
        builder
    }

    /// Sets the modifiers wanted.
    pub fn modifiers(self, flags: u32) -> (builder: MethodFilterBuilder)
        ensures
            builder@ == (MethodFilterView { modifiers: Some(flags), ..self@ }),
    {
        let mut builder = self;
        builder.modifiers = Some(flags);
        builder
    }

    /// The filter built.
    pub fn build(self) -> (filter: MethodFilter)
        ensures
            filter@ == self@,
    {
        MethodFilter {
            method_name: self.method_name,
            param_count: self.param_count,
            param_types: self.param_types,
            return_type: self.return_type,
            modifiers: self.modifiers,
        }
    }
}

} // verus!
