//! Classes, methods and fields as listed in a DEX file.

use vstd::prelude::*;
use crate::apk::manifest::{clone_opt, opt_view};
use crate::text::{
    after_last, before_last, clone_strings, dotted_name, dotted_name_of, join, join_spec,
    seq_contains, str_after_last, str_before_last, str_contains, str_eq, views,
};

verus! {

/// Reference pool containing strings, types, fields, and methods from DEX.
#[derive(Debug, Clone)]
pub struct RustReferencePool {
    pub strings: Vec<String>,
    pub types: Vec<String>,
    pub fields: Vec<String>,
    pub methods: Vec<String>,
}

/// The mathematical value of a [`RustReferencePool`].
pub ghost struct RustReferencePoolView {
    pub strings: Seq<Seq<char>>,
    pub types: Seq<Seq<char>>,
    pub fields: Seq<Seq<char>>,
    pub methods: Seq<Seq<char>>,
}

impl View for RustReferencePool {
    type V = RustReferencePoolView;

    open spec fn view(&self) -> RustReferencePoolView {
        RustReferencePoolView {
            strings: views(self.strings@),
            types: views(self.types@),
            fields: views(self.fields@),
            methods: views(self.methods@),
        }
    }
}

/// Some entry of `pool` holds `value`.
pub open spec fn pool_contains(pool: Seq<Seq<char>>, value: Seq<char>) -> bool {
    exists|i: int| 0 <= i < pool.len() && seq_contains(#[trigger] pool[i], value)
}

impl RustReferencePoolView {
    /// The pool without any entry.
    pub open spec fn empty() -> RustReferencePoolView {
        RustReferencePoolView {
            strings: Seq::empty(),
            types: Seq::empty(),
            fields: Seq::empty(),
            methods: Seq::empty(),
        }
    }

    /// Some entry of one of the four pools holds `value`.
    pub open spec fn contains(self, value: Seq<char>) -> bool {
        pool_contains(self.strings, value) || pool_contains(self.types, value) || pool_contains(
            self.fields,
            value,
        ) || pool_contains(self.methods, value)
    }
}

fn pool_holds(pool: &Vec<String>, value: &str) -> (found: bool)
    ensures
        found == pool_contains(views(pool@), value@),
{
    let mut i: usize = 0;
    while i < pool.len()
        invariant
            i <= pool@.len(),
            forall|j: int| 0 <= j < i ==> !seq_contains(#[trigger] views(pool@)[j], value@),
        decreases pool@.len() - i,
    {
        if str_contains(pool[i].as_str(), value) {
            assert(seq_contains(views(pool@)[i as int], value@));
            return true;
        }
        i += 1;
    }
    false
}

impl RustReferencePool {
    /// The pool without any entry.
    pub fn new() -> (pool: RustReferencePool)
        ensures
            pool@ == RustReferencePoolView::empty(),
    {
        let pool = RustReferencePool {
            strings: Vec::new(),
            types: Vec::new(),
            fields: Vec::new(),
            methods: Vec::new(),
        };
        assert(pool@.strings =~= Seq::<Seq<char>>::empty());
        assert(pool@.types =~= Seq::<Seq<char>>::empty());
        assert(pool@.fields =~= Seq::<Seq<char>>::empty());
        assert(pool@.methods =~= Seq::<Seq<char>>::empty());
        pool
    }

    /// Check if a string exists in any of the pools.
    pub fn contains(&self, value: &str) -> (found: bool)
        ensures
            found == self@.contains(value@),
    {
        pool_holds(&self.strings, value) || pool_holds(&self.types, value) || pool_holds(
            &self.fields,
            value,
        ) || pool_holds(&self.methods, value)
    }

    /// Check if a string exists in the string pool.
    pub fn contains_string(&self, value: &str) -> (found: bool)
        ensures
            found == pool_contains(self@.strings, value@),
    {
        pool_holds(&self.strings, value)
    }

    /// Check if a type exists in the type pool.
    pub fn contains_type(&self, value: &str) -> (found: bool)
        ensures
            found == pool_contains(self@.types, value@),
    {
        pool_holds(&self.types, value)
    }

    /// Check if a field exists in the field pool.
    pub fn contains_field(&self, value: &str) -> (found: bool)
        ensures
            found == pool_contains(self@.fields, value@),
    {
        pool_holds(&self.fields, value)
    }

    /// Check if a method exists in the method pool.
    pub fn contains_method(&self, value: &str) -> (found: bool)
        ensures
            found == pool_contains(self@.methods, value@),
    {
        pool_holds(&self.methods, value)
    }

    /// A copy of this pool.
    pub fn duplicate(&self) -> (copy: RustReferencePool)
        ensures
            copy@ == self@,
    {
        RustReferencePool {
            strings: clone_strings(&self.strings),
            types: clone_strings(&self.types),
            fields: clone_strings(&self.fields),
            methods: clone_strings(&self.methods),
        }
    }
}

impl Default for RustReferencePool {
    fn default() -> (pool: RustReferencePool)
        ensures
            pool@ == RustReferencePoolView::empty(),
    {
        RustReferencePool::new()
    }
}

/// Whether all bits of `mask` are set in `flags`.
pub open spec fn has_flags(flags: u32, mask: u32) -> bool {
    flags & mask == mask
}

/// Whether some bit of `mask` is set in `flags`.
pub open spec fn has_flag(flags: u32, mask: u32) -> bool {
    flags & mask != 0
}

/// Represents a field in a DEX class.
#[derive(Debug, Clone)]
pub struct RustDexField {
    pub name: String,
    pub field_type: String,
    pub declaring_class: String,
    pub access_flags: u32,
}

/// The mathematical value of a [`RustDexField`].
pub ghost struct RustDexFieldView {
    pub name: Seq<char>,
    pub field_type: Seq<char>,
    pub declaring_class: Seq<char>,
    pub access_flags: u32,
}

impl View for RustDexField {
    type V = RustDexFieldView;

    open spec fn view(&self) -> RustDexFieldView {
        RustDexFieldView {
            name: self.name@,
            field_type: self.field_type@,
            declaring_class: self.declaring_class@,
            access_flags: self.access_flags,
        }
    }
}

impl RustDexField {
    /// A field with the name, type, class and flags given.
    pub fn new(name: String, field_type: String, declaring_class: String, access_flags: u32) -> (field:
        RustDexField)
        ensures
            field.name == name,
            field.field_type == field_type,
            field.declaring_class == declaring_class,
            field.access_flags == access_flags,
    {
        RustDexField { name, field_type, declaring_class, access_flags }
    }

    /// Check if field is public.
    pub fn is_public(&self) -> (yes: bool)
        ensures
            yes == has_flag(self.access_flags, 0x0001),
    {
        self.access_flags & 0x0001 != 0
    }

    /// Check if field is private.
    pub fn is_private(&self) -> (yes: bool)
        ensures
            yes == has_flag(self.access_flags, 0x0002),
    {
        self.access_flags & 0x0002 != 0
    }

    /// Check if field is protected.
    pub fn is_protected(&self) -> (yes: bool)
        ensures
            yes == has_flag(self.access_flags, 0x0004),
    {
        self.access_flags & 0x0004 != 0
    }

    /// Check if field is static.
    pub fn is_static(&self) -> (yes: bool)
        ensures
            yes == has_flag(self.access_flags, 0x0008),
    {
        self.access_flags & 0x0008 != 0
    }

    /// Check if field is final.
    pub fn is_final(&self) -> (yes: bool)
        ensures
            yes == has_flag(self.access_flags, 0x0010),
    {
        self.access_flags & 0x0010 != 0
    }

    /// A copy of this field.
    pub fn duplicate(&self) -> (copy: RustDexField)
        ensures
            copy@ == self@,
    {
        RustDexField {
            name: self.name.clone(),
            field_type: self.field_type.clone(),
            declaring_class: self.declaring_class.clone(),
            access_flags: self.access_flags,
        }
    }
}

/// Represents a method in a DEX class.
#[derive(Debug, Clone)]
pub struct RustDexMethod {
    pub name: String,
    pub parameters: Vec<String>,
    pub return_type: String,
    pub declaring_class: String,
    pub access_flags: u32,
    pub references: RustReferencePool,
}

/// The mathematical value of a [`RustDexMethod`].
pub ghost struct RustDexMethodView {
    pub name: Seq<char>,
    pub parameters: Seq<Seq<char>>,
    pub return_type: Seq<char>,
    pub declaring_class: Seq<char>,
    pub access_flags: u32,
    pub references: RustReferencePoolView,
}

impl View for RustDexMethod {
    type V = RustDexMethodView;

    open spec fn view(&self) -> RustDexMethodView {
        RustDexMethodView {
            name: self.name@,
            parameters: views(self.parameters@),
            return_type: self.return_type@,
            declaring_class: self.declaring_class@,
            access_flags: self.access_flags,
            references: self.references@,
        }
    }
}

impl RustDexMethodView {
    /// The method with the name, parameters, return type, class and flags
    /// given, and no references.
    pub open spec fn new(
        name: Seq<char>,
        parameters: Seq<Seq<char>>,
        return_type: Seq<char>,
        declaring_class: Seq<char>,
        access_flags: u32,
    ) -> RustDexMethodView {
        RustDexMethodView {
            name,
            parameters,
            return_type,
            declaring_class,
            access_flags,
            references: RustReferencePoolView::empty(),
        }
    }

    /// Name and parameters: `name(T1, T2, ...)`.
    pub open spec fn signature(self) -> Seq<char> {
        self.name + "("@ + join_spec(self.parameters, ", "@) + ")"@
    }
}

impl RustDexMethod {
    /// A method with the name, parameters, return type, class and flags
    /// given, and no references.
    pub fn new(
        name: String,
        parameters: Vec<String>,
        return_type: String,
        declaring_class: String,
        access_flags: u32,
    ) -> (method: RustDexMethod)
        ensures
            method@ == RustDexMethodView::new(
                name@,
                views(parameters@),
                return_type@,
                declaring_class@,
                access_flags,
            ),
    {
        RustDexMethod {
            name,
            parameters,
            return_type,
            declaring_class,
            access_flags,
            references: RustReferencePool::new(),
        }
    }

    /// Check if method is public.
    pub fn is_public(&self) -> (yes: bool)
        ensures
            yes == has_flag(self.access_flags, 0x0001),
    {
        self.access_flags & 0x0001 != 0
    }

    /// Check if method is private.
    pub fn is_private(&self) -> (yes: bool)
        ensures
            yes == has_flag(self.access_flags, 0x0002),
    {
        self.access_flags & 0x0002 != 0
    }

    /// Check if method is protected.
    pub fn is_protected(&self) -> (yes: bool)
        ensures
            yes == has_flag(self.access_flags, 0x0004),
    {
        self.access_flags & 0x0004 != 0
    }

    /// Check if method is static.
    pub fn is_static(&self) -> (yes: bool)
        ensures
            yes == has_flag(self.access_flags, 0x0008),
    {
        self.access_flags & 0x0008 != 0
    }

    /// Check if method is final.
    pub fn is_final(&self) -> (yes: bool)
        ensures
            yes == has_flag(self.access_flags, 0x0010),
    {
        self.access_flags & 0x0010 != 0
    }

    /// Check if method is a constructor.
    pub fn is_constructor(&self) -> (yes: bool)
        ensures
            yes == (self.name@ == "<init>"@),
    {
        str_eq(self.name.as_str(), "<init>")
    }

    /// Check if method is a static initializer.
    pub fn is_static_initializer(&self) -> (yes: bool)
        ensures
            yes == (self.name@ == "<clinit>"@),
    {
        str_eq(self.name.as_str(), "<clinit>")
    }

    /// Get method signature (name + parameters).
    pub fn signature(&self) -> (text: String)
        ensures
            text@ == self@.signature(),
    {
        let mut text = self.name.clone();
        text.append("(");
        text.append(join(&self.parameters, ", ").as_str());
        text.append(")");
        text
    }

    /// A copy of this method.
    pub fn duplicate(&self) -> (copy: RustDexMethod)
        ensures
            copy@ == self@,
    {
        RustDexMethod {
            name: self.name.clone(),
            parameters: clone_strings(&self.parameters),
            return_type: self.return_type.clone(),
            declaring_class: self.declaring_class.clone(),
            access_flags: self.access_flags,
            references: self.references.duplicate(),
        }
    }
}

/// The views of a sequence of fields.
pub open spec fn field_views(fields: Seq<RustDexField>) -> Seq<RustDexFieldView> {
    fields.map_values(|f: RustDexField| f@)
}

/// The views of a sequence of methods.
pub open spec fn dex_method_views(methods: Seq<RustDexMethod>) -> Seq<RustDexMethodView> {
    methods.map_values(|m: RustDexMethod| m@)
}

/// Represents a class in a DEX file.
#[derive(Debug, Clone)]
pub struct RustDexClass {
    pub class_name: String,
    pub package_name: String,
    pub simple_name: String,
    pub superclass: Option<String>,
    pub interfaces: Vec<String>,
    pub access_flags: u32,
    pub fields: Vec<RustDexField>,
    pub methods: Vec<RustDexMethod>,
    pub references: RustReferencePool,
}

/// The mathematical value of a [`RustDexClass`].
pub ghost struct RustDexClassView {
    pub class_name: Seq<char>,
    pub package_name: Seq<char>,
    pub simple_name: Seq<char>,
    pub superclass: Option<Seq<char>>,
    pub interfaces: Seq<Seq<char>>,
    pub access_flags: u32,
    pub fields: Seq<RustDexFieldView>,
    pub methods: Seq<RustDexMethodView>,
    pub references: RustReferencePoolView,
}

impl View for RustDexClass {
    type V = RustDexClassView;

    open spec fn view(&self) -> RustDexClassView {
        RustDexClassView {
            class_name: self.class_name@,
            package_name: self.package_name@,
            simple_name: self.simple_name@,
            superclass: opt_view(self.superclass),
            interfaces: views(self.interfaces@),
            access_flags: self.access_flags,
            fields: field_views(self.fields@),
            methods: dex_method_views(self.methods@),
            references: self.references@,
        }
    }
}

/// The views of a sequence of classes.
pub open spec fn dex_class_views(classes: Seq<RustDexClass>) -> Seq<RustDexClassView> {
    classes.map_values(|c: RustDexClass| c@)
}

/// A class name in dotted form: the descriptor form `Lcom/example/App;`
/// loses its `L` and its `;`, a name in any other form stays whole; every
/// `/` becomes `.`.
pub open spec fn clean_class_name(class_name: Seq<char>) -> Seq<char> {
    dotted_name(class_name)
}

impl RustDexClassView {
    /// The class of this name, of which nothing else is known: the package
    /// is what stands before the last `.` of the dotted name, the simple
    /// name what follows it.
    pub open spec fn new(class_name: Seq<char>) -> RustDexClassView {
        RustDexClassView {
            class_name,
            package_name: before_last(clean_class_name(class_name), '.'),
            simple_name: after_last(clean_class_name(class_name), '.'),
            superclass: None,
            interfaces: Seq::empty(),
            access_flags: 0,
            fields: Seq::empty(),
            methods: Seq::empty(),
            references: RustReferencePoolView::empty(),
        }
    }
}

impl RustDexClass {
    /// A class of this name, of which nothing else is known.
    pub fn new(class_name: String) -> (class: RustDexClass)
        ensures
            class@ == RustDexClassView::new(class_name@),
    {
        let (package_name, simple_name) = Self::split_class_name(class_name.as_str());
        let class = RustDexClass {
            class_name,
            package_name,
            simple_name,
            superclass: None,
            interfaces: Vec::new(),
            access_flags: 0,
            fields: Vec::new(),
            methods: Vec::new(),
            references: RustReferencePool::new(),
        };
        assert(class@.interfaces =~= Seq::<Seq<char>>::empty());
        assert(class@.fields =~= Seq::<RustDexFieldView>::empty());
        assert(class@.methods =~= Seq::<RustDexMethodView>::empty());
        class
    }

    /// Check if class is public.
    pub fn is_public(&self) -> (yes: bool)
        ensures
            yes == has_flag(self.access_flags, 0x0001),
    {
        self.access_flags & 0x0001 != 0
    }

    /// Check if class is final.
    pub fn is_final(&self) -> (yes: bool)
        ensures
            yes == has_flag(self.access_flags, 0x0010),
    {
        self.access_flags & 0x0010 != 0
    }

    /// Check if class is abstract.
    pub fn is_abstract(&self) -> (yes: bool)
        ensures
            yes == has_flag(self.access_flags, 0x0400),
    {
        self.access_flags & 0x0400 != 0
    }

    /// Check if class is an interface.
    pub fn is_interface(&self) -> (yes: bool)
        ensures
            yes == has_flag(self.access_flags, 0x0200),
    {
        self.access_flags & 0x0200 != 0
    }

    /// Check if class is an enum.
    pub fn is_enum(&self) -> (yes: bool)
        ensures
            yes == has_flag(self.access_flags, 0x4000),
    {
        self.access_flags & 0x4000 != 0
    }

    /// Get number of methods.
    pub fn method_count(&self) -> (count: usize)
        ensures
            count == self@.methods.len(),
    {
        self.methods.len()
    }

    /// Get number of fields.
    pub fn field_count(&self) -> (count: usize)
        ensures
            count == self@.fields.len(),
    {
        self.fields.len()
    }

    /// Split a full class name into package and simple name, e.g.
    /// `com.example.app.MainActivity` into `com.example.app` and
    /// `MainActivity`.
    pub fn split_class_name(class_name: &str) -> (parts: (String, String))
        ensures
            parts.0@ == before_last(clean_class_name(class_name@), '.'),
            parts.1@ == after_last(clean_class_name(class_name@), '.'),
    {
        let clean_name = dotted_name_of(class_name);
        (str_before_last(clean_name.as_str(), '.'), str_after_last(clean_name.as_str(), '.'))
    }

    /// A copy of this class.
    pub fn duplicate(&self) -> (copy: RustDexClass)
        ensures
            copy@ == self@,
    {
        let mut fields: Vec<RustDexField> = Vec::new();
        let mut i: usize = 0;
        while i < self.fields.len()
            invariant
                i <= self.fields@.len(),
                fields@.len() == i,
                forall|j: int| 0 <= j < i ==> (#[trigger] fields@[j])@ == self.fields@[j]@,
            decreases self.fields@.len() - i,
        {
            fields.push(self.fields[i].duplicate());
            i += 1;
        }
        assert(field_views(fields@) =~= field_views(self.fields@));
        let mut methods: Vec<RustDexMethod> = Vec::new();
        let mut k: usize = 0;
        while k < self.methods.len()
            invariant
                k <= self.methods@.len(),
                methods@.len() == k,
                forall|j: int| 0 <= j < k ==> (#[trigger] methods@[j])@ == self.methods@[j]@,
            decreases self.methods@.len() - k,
        {
            methods.push(self.methods[k].duplicate());
            k += 1;
        }
        assert(dex_method_views(methods@) =~= dex_method_views(self.methods@));
        RustDexClass {
            class_name: self.class_name.clone(),
            package_name: self.package_name.clone(),
            simple_name: self.simple_name.clone(),
            superclass: clone_opt(&self.superclass),
            interfaces: clone_strings(&self.interfaces),
            access_flags: self.access_flags,
            fields,
            methods,
            references: self.references.duplicate(),
        }
    }
}

} // verus!
