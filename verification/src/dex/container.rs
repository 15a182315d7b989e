//! The DEX files of one application, and the classes listed in them.
//!
//! A class that cannot be read is passed over; a DEX file whose header is
//! wrong is an error.

use vstd::prelude::*;
use crate::apk::extractor::{dex_entry_views, DexEntry, DexEntryView};
use crate::dex::error::{DexError, DexErrorView};
use crate::dex::models::{
    dex_class_views, dex_method_views, field_views, RustDexClass, RustDexClassView, RustDexField,
    RustDexFieldView, RustDexMethod, RustDexMethodView,
};
use crate::dex::parser::{
    class_data_spec, get_class_def_spec, get_field_info_spec, get_method_info_spec,
    get_proto_info_spec, get_string_spec, get_type_name_spec, header_error, header_of,
    lemma_header_unique, DexHeader, DexParser, EncodedField, EncodedMethod,
};
use crate::text::{decimal, owned, push_decimal, views};

verus! {

/// Container managing multiple DEX files.
pub struct DexContainer {
    pub dex_entries: Vec<DexEntry>,
}

/// The field with index `idx` of the field pool, with the flags given.
#[verifier::opaque]
pub open spec fn parse_field_spec(data: Seq<u8>, header: DexHeader, idx: u32, access_flags: u32) -> Result<
    RustDexFieldView,
    DexErrorView,
> {
    match get_field_info_spec(data, header, idx) {
        Err(e) => Err(e),
        Ok(info) => match get_string_spec(data, header, info.name_idx) {
            Err(e) => Err(e),
            Ok(name) => match get_type_name_spec(data, header, info.type_idx) {
                Err(e) => Err(e),
                Ok(field_type) => match get_type_name_spec(data, header, info.class_idx) {
                    Err(e) => Err(e),
                    Ok(declaring_class) => Ok(
                        RustDexFieldView { name, field_type, declaring_class, access_flags },
                    ),
                },
            },
        },
    }
}

/// The name of the type with index `idx`, or `fallback` if it cannot be
/// read.
pub open spec fn type_name_or(data: Seq<u8>, header: DexHeader, idx: u32, fallback: Seq<char>) -> Seq<
    char,
> {
    match get_type_name_spec(data, header, idx) {
        Ok(name) => name,
        Err(_) => fallback,
    }
}

/// The method with index `idx` of the method pool, with the flags given. A
/// parameter type that cannot be read is `unknown`, a return type that
/// cannot be read is `void`.
#[verifier::opaque]
pub open spec fn parse_method_spec(data: Seq<u8>, header: DexHeader, idx: u32, access_flags: u32) -> Result<
    RustDexMethodView,
    DexErrorView,
> {
    match get_method_info_spec(data, header, idx) {
        Err(e) => Err(e),
        Ok(info) => match get_proto_info_spec(data, header, info.proto_idx) {
            Err(e) => Err(e),
            Ok(proto) => match get_string_spec(data, header, info.name_idx) {
                Err(e) => Err(e),
                Ok(name) => match get_type_name_spec(data, header, info.class_idx) {
                    Err(e) => Err(e),
                    Ok(declaring_class) => Ok(
                        RustDexMethodView::new(
                            name,
                            proto.parameters.map_values(
                                |t: u32| type_name_or(data, header, t, "unknown"@),
                            ),
                            type_name_or(data, header, proto.return_type_idx, "void"@),
                            declaring_class,
                            access_flags,
                        ),
                    ),
                },
            },
        },
    }
}

/// The fields among `fields` that can be read, each with the bits `extra`
/// added to its flags, after the fields `before`.
pub open spec fn parsed_fields(
    data: Seq<u8>,
    header: DexHeader,
    before: Seq<RustDexFieldView>,
    fields: Seq<EncodedField>,
    extra: u32,
) -> Seq<RustDexFieldView>
    decreases fields.len(),
{
    if fields.len() == 0 {
        before
    } else {
        let done = parsed_fields(data, header, before, fields.drop_last(), extra);
        match parse_field_spec(
            data,
            header,
            fields.last().field_idx,
            fields.last().access_flags | extra,
        ) {
            Ok(field) => done.push(field),
            Err(_) => done,
        }
    }
}

/// The methods among `methods` that can be read, after the methods
/// `before`.
pub open spec fn parsed_methods(
    data: Seq<u8>,
    header: DexHeader,
    before: Seq<RustDexMethodView>,
    methods: Seq<EncodedMethod>,
) -> Seq<RustDexMethodView>
    decreases methods.len(),
{
    if methods.len() == 0 {
        before
    } else {
        let done = parsed_methods(data, header, before, methods.drop_last());
        match parse_method_spec(data, header, methods.last().method_idx, methods.last().access_flags) {
            Ok(method) => done.push(method),
            Err(_) => done,
        }
    }
}

/// The class with index `class_idx` of the class definitions.
///
/// Fails if the definition, the name of the class or its class data cannot
/// be read. Static fields come first and have the static bit set in their
/// flags; direct methods come before virtual methods.
#[verifier::opaque]
pub open spec fn parse_class_spec(data: Seq<u8>, header: DexHeader, class_idx: u32) -> Result<
    RustDexClassView,
    DexErrorView,
> {
    match get_class_def_spec(data, header, class_idx) {
        Err(e) => Err(e),
        Ok(class_def) => match get_type_name_spec(data, header, class_def.class_idx) {
            Err(e) => Err(e),
            Ok(class_name) => match class_data_spec(data, class_def.class_data_off) {
                Err(e) => Err(e),
                Ok(class_data) => Ok(
                    RustDexClassView {
                        access_flags: class_def.access_flags,
                        superclass: if class_def.superclass_idx == 0xFFFFFFFF {
                            None
                        } else {
                            match get_type_name_spec(data, header, class_def.superclass_idx) {
                                Ok(name) => Some(name),
                                Err(_) => None,
                            }
                        },
                        fields: parsed_fields(
                            data,
                            header,
                            parsed_fields(
                                data,
                                header,
                                Seq::empty(),
                                class_data.static_fields,
                                0x0008,
                            ),
                            class_data.instance_fields,
                            0,
                        ),
                        methods: parsed_methods(
                            data,
                            header,
                            parsed_methods(data, header, Seq::empty(), class_data.direct_methods),
                            class_data.virtual_methods,
                        ),
                        ..RustDexClassView::new(class_name)
                    },
                ),
            },
        },
    }
}

/// The classes among the first `n` class definitions that can be read.
pub open spec fn classes_of_image(data: Seq<u8>, header: DexHeader, n: nat) -> Seq<RustDexClassView>
    decreases n,
{
    if n == 0 {
        Seq::empty()
    } else {
        let before = classes_of_image(data, header, (n - 1) as nat);
        match parse_class_spec(data, header, (n - 1) as u32) {
            Ok(class) => before.push(class),
            Err(_) => before,
        }
    }
}

/// The error of a DEX index that is not below the number of DEX files.
pub open spec fn dex_index_out_of_bounds(index: usize, count: nat) -> DexErrorView {
    DexErrorView::InvalidDex(
        "DEX index "@ + decimal(index as nat) + " out of bounds (max: "@ + decimal(count) + ")"@,
    )
}

/// The classes of the DEX file with index `index`.
#[verifier::opaque]
pub open spec fn classes_from_dex_spec(entries: Seq<DexEntryView>, index: usize) -> Result<
    Seq<RustDexClassView>,
    DexErrorView,
> {
    if index >= entries.len() {
        Err(dex_index_out_of_bounds(index, entries.len()))
    } else {
        match header_error(entries[index as int].data) {
            Some(e) => Err(e),
            None => Ok(
                classes_of_image(
                    entries[index as int].data,
                    header_of(entries[index as int].data),
                    header_of(entries[index as int].data).class_defs_size as nat,
                ),
            ),
        }
    }
}

/// The classes of the first `n` DEX files, file after file; the error of
/// the first file that is no DEX image.
pub open spec fn all_classes_spec(entries: Seq<DexEntryView>, n: nat) -> Result<
    Seq<RustDexClassView>,
    DexErrorView,
>
    decreases n,
{
    if n == 0 {
        Ok(Seq::empty())
    } else {
        match all_classes_spec(entries, (n - 1) as nat) {
            Err(e) => Err(e),
            Ok(before) => match classes_from_dex_spec(entries, (n - 1) as usize) {
                Err(e) => Err(e),
                Ok(more) => Ok(before + more),
            },
        }
    }
}

/// `r` is the outcome that `s` describes: classes with the views given, or
/// an error with the same kind and message.
pub open spec fn classes_as(
    r: Result<Vec<RustDexClass>, DexError>,
    s: Result<Seq<RustDexClassView>, DexErrorView>,
) -> bool {
    match r {
        Ok(classes) => s == Ok::<Seq<RustDexClassView>, DexErrorView>(dex_class_views(classes@)),
        Err(e) => s == Err::<Seq<RustDexClassView>, DexErrorView>(e@),
    }
}

impl DexContainer {
    /// Create a new DexContainer from DEX entries.
    pub fn new(dex_entries: Vec<DexEntry>) -> (container: DexContainer)
        ensures
            container.dex_entries == dex_entries,
    {
        DexContainer { dex_entries }
    }

    /// Get number of DEX files.
    pub fn dex_count(&self) -> (count: usize)
        ensures
            count == self.dex_entries@.len(),
    {
        self.dex_entries.len()
    }

    /// Get all DEX entries.
    pub fn entries(&self) -> (entries: &[DexEntry])
        ensures
            entries@ == self.dex_entries@,
    {
        self.dex_entries.as_slice()
    }

    /// Extract all classes from all DEX files.
    pub fn extract_all_classes(&self) -> (r: Result<Vec<RustDexClass>, DexError>)
        ensures
            classes_as(
                r,
                all_classes_spec(dex_entry_views(self.dex_entries@), self.dex_entries@.len()),
            ),
    {
        let ghost entries = dex_entry_views(self.dex_entries@);
        let mut all_classes: Vec<RustDexClass> = Vec::new();
        let mut index: usize = 0;
        assert(dex_class_views(all_classes@) =~= Seq::<RustDexClassView>::empty());
        while index < self.dex_entries.len()
            invariant
                index <= self.dex_entries@.len(),
                entries == dex_entry_views(self.dex_entries@),
                all_classes_spec(entries, index as nat) == Ok::<
                    Seq<RustDexClassView>,
                    DexErrorView,
                >(dex_class_views(all_classes@)),
            decreases self.dex_entries@.len() - index,
        {
            let ghost before = dex_class_views(all_classes@);
            match self.extract_classes_from_dex(index) {
                Ok(classes) => {
                    let mut classes = classes;
                    let ghost more = dex_class_views(classes@);
                    all_classes.append(&mut classes);
                    assert(dex_class_views(all_classes@) =~= before + more);
                },
                Err(e) => {
                    proof {
                        lemma_all_classes_error_stays(
                            entries,
                            (index + 1) as nat,
                            self.dex_entries@.len(),
                        );
                    }
                    return Err(e);
                },
            }
            index += 1;
        }
        Ok(all_classes)
    }

    /// Extract classes from a specific DEX file.
    pub fn extract_classes_from_dex(&self, dex_index: usize) -> (r: Result<
        Vec<RustDexClass>,
        DexError,
    >)
        ensures
            classes_as(r, classes_from_dex_spec(dex_entry_views(self.dex_entries@), dex_index)),
    {
        proof {
            reveal(classes_from_dex_spec);
        }
        if dex_index >= self.dex_entries.len() {
            let mut message = owned("DEX index ");
            push_decimal(&mut message, dex_index as u64);
            message.append(" out of bounds (max: ");
            push_decimal(&mut message, self.dex_entries.len() as u64);
            message.append(")");
            return Err(DexError::InvalidDex(message));
        }
        let entry = &self.dex_entries[dex_index];
        assert(dex_entry_views(self.dex_entries@)[dex_index as int] == entry@);
        let parser = match DexParser::new(entry.data.clone()) {
            Ok(p) => p,
            Err(e) => {
                return Err(e);
            },
        };
        proof {
            lemma_header_unique(parser.header, header_of(entry.data@), entry.data@);
        }
        let mut classes: Vec<RustDexClass> = Vec::new();
        let class_count = parser.class_count();
        let mut class_idx: u32 = 0;
        assert(dex_class_views(classes@) =~= Seq::<RustDexClassView>::empty());
        while class_idx < class_count
            invariant
                class_idx <= class_count,
                dex_class_views(classes@) == classes_of_image(
                    parser.data@,
                    parser.header,
                    class_idx as nat,
                ),
            decreases class_count - class_idx,
        {
            let ghost before = dex_class_views(classes@);
            match self.parse_class(&parser, class_idx) {
                Ok(class) => {
                    classes.push(class);
                    assert(dex_class_views(classes@) =~= before.push(class@));
                },
                Err(_) => {},
            }
            class_idx += 1;
        }
        Ok(classes)
    }

    /// Extract classes from a specific DEX file, and count the class
    /// definitions that were passed over because they cannot be read.
    pub fn extract_classes_counting_skips(&self, dex_index: usize) -> (r: Result<
        (Vec<RustDexClass>, u32),
        DexError,
    >)
        ensures
            match r {
                Ok((classes, skipped)) => classes_from_dex_spec(
                    dex_entry_views(self.dex_entries@),
                    dex_index,
                ) == Ok::<Seq<RustDexClassView>, DexErrorView>(dex_class_views(classes@))
                    && dex_index < self.dex_entries@.len() && skipped + classes@.len() == header_of(
                    self.dex_entries@[dex_index as int].data@,
                ).class_defs_size,
                Err(e) => classes_from_dex_spec(dex_entry_views(self.dex_entries@), dex_index)
                    == Err::<Seq<RustDexClassView>, DexErrorView>(e@),
            },
    {
        proof {
            reveal(classes_from_dex_spec);
        }
        match self.extract_classes_from_dex(dex_index) {
            Ok(classes) => {
                let ghost data = self.dex_entries@[dex_index as int].data@;
                assert(dex_entry_views(self.dex_entries@)[dex_index as int]
                    == self.dex_entries@[dex_index as int]@);
                match DexParser::new(self.dex_entries[dex_index].data.clone()) {
                    Ok(parser) => {
                        proof {
                            lemma_header_unique(parser.header, header_of(data), data);
                            lemma_classes_of_image_len(
                                data,
                                parser.header,
                                parser.header.class_defs_size as nat,
                            );
                        }
                        let skipped = parser.class_count() - classes.len() as u32;
                        Ok((classes, skipped))
                    },
                    Err(e) => Err(e),
                }
            },
            Err(e) => Err(e),
        }
    }

    /// Parse a single class.
    ///
    /// Succeeds only for a class whose type index is below the size of the
    /// type pool.
    pub fn parse_class(&self, parser: &DexParser, class_idx: u32) -> (r: Result<
        RustDexClass,
        DexError,
    >)
        ensures
            match r {
                Ok(class) => parse_class_spec(parser.data@, parser.header, class_idx) == Ok::<
                    RustDexClassView,
                    DexErrorView,
                >(class@) && get_class_def_spec(
                    parser.data@,
                    parser.header,
                    class_idx,
                )->Ok_0.class_idx < parser.header.type_ids_size,
                Err(e) => parse_class_spec(parser.data@, parser.header, class_idx) == Err::<
                    RustDexClassView,
                    DexErrorView,
                >(e@),
            },
    {
        proof {
            reveal(parse_class_spec);
        }
        let class_def = match parser.get_class_def(class_idx) {
            Ok(v) => v,
            Err(e) => {
                return Err(e);
            },
        };
        let class_name = match parser.get_type_name(class_def.class_idx) {
            Ok(v) => v,
            Err(e) => {
                return Err(e);
            },
        };
        let mut rust_class = RustDexClass::new(class_name);
        rust_class.access_flags = class_def.access_flags;
        if class_def.superclass_idx != 0xFFFFFFFF {
            match parser.get_type_name(class_def.superclass_idx) {
                Ok(superclass) => {
                    rust_class.superclass = Some(superclass);
                },
                Err(_) => {},
            }
        }
        let class_data = match parser.parse_class_data(class_def.class_data_off) {
            Ok(v) => v,
            Err(e) => {
                return Err(e);
            },
        };
        self.parse_fields(parser, &class_data.static_fields, 0x0008, &mut rust_class.fields);
        self.parse_fields(parser, &class_data.instance_fields, 0, &mut rust_class.fields);
        self.parse_methods(parser, &class_data.direct_methods, &mut rust_class.methods);
        self.parse_methods(parser, &class_data.virtual_methods, &mut rust_class.methods);
        Ok(rust_class)
    }

    /// Adds the fields that can be read to `out`.
    fn parse_fields(
        &self,
        parser: &DexParser,
        fields: &Vec<EncodedField>,
        extra: u32,
        out: &mut Vec<RustDexField>,
    )
        ensures
            field_views(final(out)@) == parsed_fields(
                parser.data@,
                parser.header,
                field_views(old(out)@),
                fields@,
                extra,
            ),
    {
        let ghost start = field_views(out@);
        let mut k: usize = 0;
        assert(fields@.take(0) =~= Seq::<EncodedField>::empty());
        while k < fields.len()
            invariant
                k <= fields@.len(),
                field_views(out@) == parsed_fields(
                    parser.data@,
                    parser.header,
                    start,
                    fields@.take(k as int),
                    extra,
                ),
            decreases fields@.len() - k,
        {
            let ghost before = field_views(out@);
            proof {
                assert(fields@.take(k + 1).drop_last() =~= fields@.take(k as int));
                assert(fields@.take(k + 1).last() == fields@[k as int]);
            }
            match self.parse_field(parser, fields[k].field_idx, fields[k].access_flags | extra) {
                Ok(field) => {
                    out.push(field);
                    assert(field_views(out@) =~= before.push(field@));
                },
                Err(_) => {},
            }
            k += 1;
        }
        assert(fields@.take(fields@.len() as int) =~= fields@);
    }

    /// Adds the methods that can be read to `out`.
    fn parse_methods(
        &self,
        parser: &DexParser,
        methods: &Vec<EncodedMethod>,
        out: &mut Vec<RustDexMethod>,
    )
        ensures
            dex_method_views(final(out)@) == parsed_methods(
                parser.data@,
                parser.header,
                dex_method_views(old(out)@),
                methods@,
            ),
    {
        let ghost start = dex_method_views(out@);
        let mut k: usize = 0;
        assert(methods@.take(0) =~= Seq::<EncodedMethod>::empty());
        while k < methods.len()
            invariant
                k <= methods@.len(),
                dex_method_views(out@) == parsed_methods(
                    parser.data@,
                    parser.header,
                    start,
                    methods@.take(k as int),
                ),
            decreases methods@.len() - k,
        {
            let ghost before = dex_method_views(out@);
            proof {
                assert(methods@.take(k + 1).drop_last() =~= methods@.take(k as int));
                assert(methods@.take(k + 1).last() == methods@[k as int]);
            }
            match self.parse_method(parser, methods[k].method_idx, methods[k].access_flags) {
                Ok(method) => {
                    out.push(method);
                    assert(dex_method_views(out@) =~= before.push(method@));
                },
                Err(_) => {},
            }
            k += 1;
        }
        assert(methods@.take(methods@.len() as int) =~= methods@);
    }

    /// Parse a field.
    pub fn parse_field(&self, parser: &DexParser, field_idx: u32, access_flags: u32) -> (r: Result<
        RustDexField,
        DexError,
    >)
        ensures
            match r {
                Ok(field) => parse_field_spec(parser.data@, parser.header, field_idx, access_flags)
                    == Ok::<RustDexFieldView, DexErrorView>(field@) && field_idx
                    < parser.header.field_ids_size,
                Err(e) => parse_field_spec(parser.data@, parser.header, field_idx, access_flags)
                    == Err::<RustDexFieldView, DexErrorView>(e@),
            },
    {
        proof {
            reveal(parse_field_spec);
        }
        let field_info = match parser.get_field_info(field_idx) {
            Ok(v) => v,
            Err(e) => {
                return Err(e);
            },
        };
        let field_name = match parser.get_string(field_info.name_idx) {
            Ok(v) => v,
            Err(e) => {
                return Err(e);
            },
        };
        let field_type = match parser.get_type_name(field_info.type_idx) {
            Ok(v) => v,
            Err(e) => {
                return Err(e);
            },
        };
        let declaring_class = match parser.get_type_name(field_info.class_idx) {
            Ok(v) => v,
            Err(e) => {
                return Err(e);
            },
        };
        Ok(RustDexField::new(field_name, field_type, declaring_class, access_flags))
    }

    /// Parse a method.
    ///
    /// Succeeds only for a method index below the size of the method pool.
    pub fn parse_method(&self, parser: &DexParser, method_idx: u32, access_flags: u32) -> (r: Result<
        RustDexMethod,
        DexError,
    >)
        ensures
            match r {
                Ok(method) => parse_method_spec(
                    parser.data@,
                    parser.header,
                    method_idx,
                    access_flags,
                ) == Ok::<RustDexMethodView, DexErrorView>(method@) && method_idx
                    < parser.header.method_ids_size,
                Err(e) => parse_method_spec(parser.data@, parser.header, method_idx, access_flags)
                    == Err::<RustDexMethodView, DexErrorView>(e@),
            },
    {
        proof {
            reveal(parse_method_spec);
        }
        let method_info = match parser.get_method_info(method_idx) {
            Ok(v) => v,
            Err(e) => {
                return Err(e);
            },
        };
        let proto_info = match parser.get_proto_info(method_info.proto_idx) {
            Ok(v) => v,
            Err(e) => {
                return Err(e);
            },
        };
        let method_name = match parser.get_string(method_info.name_idx) {
            Ok(v) => v,
            Err(e) => {
                return Err(e);
            },
        };
        let declaring_class = match parser.get_type_name(method_info.class_idx) {
            Ok(v) => v,
            Err(e) => {
                return Err(e);
            },
        };
        let ghost wanted = proto_info@.parameters.map_values(
            |t: u32| type_name_or(parser.data@, parser.header, t, "unknown"@),
        );
        let mut parameters: Vec<String> = Vec::new();
        let mut k: usize = 0;
        while k < proto_info.parameters.len()
            invariant
                k <= proto_info.parameters@.len(),
                parameters@.len() == k,
                forall|j: int|
                    0 <= j < k ==> (#[trigger] parameters@[j])@ == type_name_or(
                        parser.data@,
                        parser.header,
                        proto_info.parameters@[j],
                        "unknown"@,
                    ),
            decreases proto_info.parameters@.len() - k,
        {
            match parser.get_type_name(proto_info.parameters[k]) {
                Ok(param_type) => parameters.push(param_type),
                Err(_) => parameters.push(owned("unknown")),
            }
            k += 1;
        }
        assert(views(parameters@) =~= wanted);
        let return_type = match parser.get_type_name(proto_info.return_type_idx) {
            Ok(name) => name,
            Err(_) => owned("void"),
        };
        Ok(RustDexMethod::new(method_name, parameters, return_type, declaring_class, access_flags))
    }
}

/// No more classes are read than there are class definitions.
pub proof fn lemma_classes_of_image_len(data: Seq<u8>, header: DexHeader, n: nat)
    ensures
        classes_of_image(data, header, n).len() <= n,
    decreases n,
{
    if n > 0 {
        lemma_classes_of_image_len(data, header, (n - 1) as nat);
    }
}

/// An error met in the first `n` DEX files is the error of all of them.
pub proof fn lemma_all_classes_error_stays(entries: Seq<DexEntryView>, n: nat, more: nat)
    requires
        n <= more,
        all_classes_spec(entries, n) is Err,
    ensures
        all_classes_spec(entries, more) == all_classes_spec(entries, n),
    decreases more - n,
{
    if n < more {
        lemma_all_classes_error_stays(entries, n, (more - 1) as nat);
    }
}

} // verus!
