//! Lookup of method bytecode by class and method name.

use vstd::prelude::*;
use crate::apk::extractor::{dex_entry_views, DexEntry, DexEntryView};
use crate::dex::error::{DexError};
use crate::dex::models::{dex_class_views, RustDexClass, RustDexClassView};
use crate::dex::parser::{
    class_data_spec, get_class_def_spec, get_method_bytecode_spec, get_method_info_spec,
    get_string_spec, get_type_name_spec, header_error, header_of, lemma_header_unique, ClassData,
    DexHeader, DexParser, EncodedMethod,
};
use crate::text::{concat3, str_eq};

verus! {

/// The code units of the first method named `method_name` among `methods`
/// from index `from` on. The first lookup that fails ends the search with
/// its error, as text.
pub open spec fn find_in_methods(
    data: Seq<u8>,
    header: DexHeader,
    methods: Seq<EncodedMethod>,
    method_name: Seq<char>,
    from: nat,
) -> Result<Option<Seq<u16>>, Seq<char>>
    decreases methods.len() - from,
{
    if from >= methods.len() {
        Ok(None)
    } else {
        match get_method_info_spec(data, header, methods[from as int].method_idx) {
            Err(e) => Err(e.text()),
            Ok(info) => match get_string_spec(data, header, info.name_idx) {
                Err(e) => Err(e.text()),
                Ok(name) => if name == method_name {
                    match get_method_bytecode_spec(data, methods[from as int].code_off) {
                        Ok(code) => Ok(Some(code)),
                        Err(e) => Err(e.text()),
                    }
                } else {
                    find_in_methods(data, header, methods, method_name, from + 1)
                },
            },
        }
    }
}

/// The code units of the first method named `method_name` in a class named
/// `class_name`, among the class definitions from index `from` on. The
/// first lookup that fails ends the search with its error, as text.
pub open spec fn find_in_classes(
    data: Seq<u8>,
    header: DexHeader,
    class_name: Seq<char>,
    method_name: Seq<char>,
    from: nat,
) -> Result<Option<Seq<u16>>, Seq<char>>
    decreases header.class_defs_size - from,
{
    if from >= header.class_defs_size {
        Ok(None)
    } else {
        match get_class_def_spec(data, header, from as u32) {
            Err(e) => Err(e.text()),
            Ok(class_def) => match get_type_name_spec(data, header, class_def.class_idx) {
                Err(e) => Err(e.text()),
                Ok(name) => if name == class_name {
                    match class_data_spec(data, class_def.class_data_off) {
                        Err(e) => Err(e.text()),
                        Ok(class_data) => match find_in_methods(
                            data,
                            header,
                            class_data.all_methods(),
                            method_name,
                            0,
                        ) {
                            Err(e) => Err(e),
                            Ok(Some(code)) => Ok(Some(code)),
                            Ok(None) => find_in_classes(
                                data,
                                header,
                                class_name,
                                method_name,
                                from + 1,
                            ),
                        },
                    }
                } else {
                    find_in_classes(data, header, class_name, method_name, from + 1)
                },
            },
        }
    }
}

/// As [`find_in_methods`], but a method that cannot be read is passed over;
/// only unreadable code of the method found is an error. None if no method
/// of the name is found.
pub open spec fn search_methods(
    data: Seq<u8>,
    header: DexHeader,
    methods: Seq<EncodedMethod>,
    method_name: Seq<char>,
    from: nat,
) -> Option<Result<Seq<u16>, Seq<char>>>
    decreases methods.len() - from,
{
    if from >= methods.len() {
        None
    } else if method_name_spec(data, header, methods[from as int]) == Some(method_name) {
        Some(
            match get_method_bytecode_spec(data, methods[from as int].code_off) {
                Ok(code) => Ok(code),
                Err(e) => Err(e.text()),
            },
        )
    } else {
        search_methods(data, header, methods, method_name, from + 1)
    }
}

/// The name of an encoded method, if it can be read.
#[verifier::opaque]
pub open spec fn method_name_spec(data: Seq<u8>, header: DexHeader, method: EncodedMethod) -> Option<
    Seq<char>,
> {
    match get_method_info_spec(data, header, method.method_idx) {
        Err(_) => None,
        Ok(info) => match get_string_spec(data, header, info.name_idx) {
            Err(_) => None,
            Ok(name) => Some(name),
        },
    }
}

/// The methods of the class definition with index `index`, direct methods
/// first, if the class is named `class_name` and it can be read.
#[verifier::opaque]
pub open spec fn methods_of_class(data: Seq<u8>, header: DexHeader, class_name: Seq<char>, index: u32) -> Option<
    Seq<EncodedMethod>,
> {
    match get_class_def_spec(data, header, index) {
        Err(_) => None,
        Ok(class_def) => match get_type_name_spec(data, header, class_def.class_idx) {
            Err(_) => None,
            Ok(name) => if name == class_name {
                match class_data_spec(data, class_def.class_data_off) {
                    Err(_) => None,
                    Ok(class_data) => Some(class_data.all_methods()),
                }
            } else {
                None
            },
        },
    }
}

/// As [`find_in_classes`], but a class that cannot be read is passed over.
pub open spec fn search_classes(
    data: Seq<u8>,
    header: DexHeader,
    class_name: Seq<char>,
    method_name: Seq<char>,
    from: nat,
) -> Option<Result<Seq<u16>, Seq<char>>>
    decreases header.class_defs_size - from,
{
    if from >= header.class_defs_size {
        None
    } else {
        let found = match methods_of_class(data, header, class_name, from as u32) {
            Some(methods) => search_methods(data, header, methods, method_name, 0),
            None => None,
        };
        match found {
            Some(r) => Some(r),
            None => search_classes(data, header, class_name, method_name, from + 1),
        }
    }
}

/// The error of a method that no DEX file holds.
pub open spec fn method_not_found(class_name: Seq<char>, method_name: Seq<char>) -> Seq<char> {
    "Method not found: "@ + class_name + "."@ + method_name
}

/// What the search for the method `class_name.method_name` finds in the
/// image `data`; nothing if it is no DEX image.
#[verifier::opaque]
pub open spec fn search_image(data: Seq<u8>, class_name: Seq<char>, method_name: Seq<char>) -> Option<
    Result<Seq<u16>, Seq<char>>,
> {
    if header_error(data) is Some {
        None
    } else {
        search_classes(data, header_of(data), class_name, method_name, 0)
    }
}

/// The code units of the method `class_name.method_name` in the DEX files
/// from index `from` on: the first DEX file that holds the method decides. A
/// file that is no DEX image is passed over.
pub open spec fn search_entries(
    entries: Seq<DexEntryView>,
    class_name: Seq<char>,
    method_name: Seq<char>,
    from: nat,
) -> Result<Seq<u16>, Seq<char>>
    decreases entries.len() - from,
{
    if from >= entries.len() {
        Err(method_not_found(class_name, method_name))
    } else {
        match search_image(entries[from as int].data, class_name, method_name) {
            Some(r) => r,
            None => search_entries(entries, class_name, method_name, from + 1),
        }
    }
}

/// One method of a class: the class name, the method name and the code
/// units of the method.
pub type MethodRecord = (Seq<char>, Seq<char>, Seq<u16>);

/// The code units of a method, or none if they cannot be read.
pub open spec fn code_or_empty(data: Seq<u8>, code_off: u32) -> Seq<u16> {
    match get_method_bytecode_spec(data, code_off) {
        Ok(code) => code,
        Err(_) => Seq::empty(),
    }
}

/// The records of the first `n` of `methods`; a method whose name cannot be
/// read is passed over.
pub open spec fn method_records(
    data: Seq<u8>,
    header: DexHeader,
    class_name: Seq<char>,
    methods: Seq<EncodedMethod>,
    n: nat,
) -> Seq<MethodRecord>
    decreases n,
{
    if n == 0 || n > methods.len() {
        Seq::empty()
    } else {
        let before = method_records(data, header, class_name, methods, (n - 1) as nat);
        match method_name_spec(data, header, methods[n - 1]) {
            Some(name) => before.push((class_name, name, code_or_empty(data, methods[n - 1].code_off))),
            None => before,
        }
    }
}

/// The methods of the first class named `class_name` that can be read,
/// among the class definitions from index `from` on.
pub open spec fn first_class_methods(
    data: Seq<u8>,
    header: DexHeader,
    class_name: Seq<char>,
    from: nat,
) -> Option<Seq<EncodedMethod>>
    decreases header.class_defs_size - from,
{
    if from >= header.class_defs_size {
        None
    } else {
        match methods_of_class(data, header, class_name, from as u32) {
            Some(methods) => Some(methods),
            None => first_class_methods(data, header, class_name, from + 1),
        }
    }
}

/// The records of the first class named `class_name` that can be read.
pub open spec fn class_records(data: Seq<u8>, header: DexHeader, class_name: Seq<char>) -> Seq<
    MethodRecord,
> {
    match first_class_methods(data, header, class_name, 0) {
        Some(methods) => method_records(data, header, class_name, methods, methods.len()),
        None => Seq::empty(),
    }
}

/// The records of the class named `class_name` in the first `n` DEX files.
pub open spec fn entry_records(entries: Seq<DexEntryView>, class_name: Seq<char>, n: nat) -> Seq<
    MethodRecord,
>
    decreases n,
{
    if n == 0 || n > entries.len() {
        Seq::empty()
    } else {
        entry_records(entries, class_name, (n - 1) as nat) + image_records(
            entries[n - 1].data,
            class_name,
        )
    }
}

/// The records of the class named `class_name` in the image `data`; none if
/// it is no DEX image.
#[verifier::opaque]
pub open spec fn image_records(data: Seq<u8>, class_name: Seq<char>) -> Seq<MethodRecord> {
    if header_error(data) is Some {
        Seq::empty()
    } else {
        class_records(data, header_of(data), class_name)
    }
}

/// The records of the first `n` classes, class after class.
pub open spec fn all_records(entries: Seq<DexEntryView>, classes: Seq<RustDexClassView>, n: nat) -> Seq<
    MethodRecord,
>
    decreases n,
{
    if n == 0 || n > classes.len() {
        Seq::empty()
    } else {
        all_records(entries, classes, (n - 1) as nat) + entry_records(
            entries,
            classes[n - 1].class_name,
            entries.len(),
        )
    }
}

/// The views of a sequence of records.
pub open spec fn record_views(records: Seq<(String, String, Vec<u16>)>) -> Seq<MethodRecord> {
    records.map_values(|r: (String, String, Vec<u16>)| (r.0@, r.1@, r.2@))
}

/// Direct methods, then virtual methods.
fn all_methods_of(class_data: &ClassData) -> (methods: Vec<EncodedMethod>)
    ensures
        methods@ == class_data@.all_methods(),
{
    let mut methods: Vec<EncodedMethod> = Vec::new();
    methods.extend_from_slice(class_data.direct_methods.as_slice());
    methods.extend_from_slice(class_data.virtual_methods.as_slice());
    assert(methods@ =~= class_data@.all_methods());
    methods
}

fn text_of(e: &DexError) -> (text: String)
    ensures
        text@ == e@.text(),
{
    e.message()
}

fn find_among_methods(parser: &DexParser, methods: &Vec<EncodedMethod>, method_name: &str) -> (r: Result<
    Option<Vec<u16>>,
    String,
>)
    ensures
        match r {
            Ok(Some(code)) => find_in_methods(
                parser.data@,
                parser.header,
                methods@,
                method_name@,
                0,
            ) == Ok::<Option<Seq<u16>>, Seq<char>>(Some(code@)),
            Ok(None) => find_in_methods(parser.data@, parser.header, methods@, method_name@, 0)
                == Ok::<Option<Seq<u16>>, Seq<char>>(None),
            Err(e) => find_in_methods(parser.data@, parser.header, methods@, method_name@, 0)
                == Err::<Option<Seq<u16>>, Seq<char>>(e@),
        },
{
    let mut k: usize = 0;
    while k < methods.len()
        invariant
            k <= methods@.len(),
            find_in_methods(parser.data@, parser.header, methods@, method_name@, 0)
                == find_in_methods(parser.data@, parser.header, methods@, method_name@, k as nat),
        decreases methods@.len() - k,
    {
        let method_info = match parser.get_method_info(methods[k].method_idx) {
            Ok(v) => v,
            Err(e) => {
                return Err(text_of(&e));
            },
        };
        let found_method_name = match parser.get_string(method_info.name_idx) {
            Ok(v) => v,
            Err(e) => {
                return Err(text_of(&e));
            },
        };
        if str_eq(found_method_name.as_str(), method_name) {
            return match parser.get_method_bytecode(methods[k].code_off) {
                Ok(code) => Ok(Some(code)),
                Err(e) => Err(text_of(&e)),
            };
        }
        k += 1;
    }
    Ok(None)
}

/// Find method bytecode: the code units of the first method named
/// `method_name` in a class named `class_name`.
pub fn find_method_bytecode(parser: &DexParser, class_name: &str, method_name: &str) -> (r: Result<
    Option<Vec<u16>>,
    String,
>)
    ensures
        match r {
            Ok(Some(code)) => find_in_classes(
                parser.data@,
                parser.header,
                class_name@,
                method_name@,
                0,
            ) == Ok::<Option<Seq<u16>>, Seq<char>>(Some(code@)),
            Ok(None) => find_in_classes(parser.data@, parser.header, class_name@, method_name@, 0)
                == Ok::<Option<Seq<u16>>, Seq<char>>(None),
            Err(e) => find_in_classes(parser.data@, parser.header, class_name@, method_name@, 0)
                == Err::<Option<Seq<u16>>, Seq<char>>(e@),
        },
{
    let class_count = parser.class_count();
    let mut class_idx: u32 = 0;
    while class_idx < class_count
        invariant
            class_idx <= class_count == parser.header.class_defs_size,
            find_in_classes(parser.data@, parser.header, class_name@, method_name@, 0)
                == find_in_classes(
                parser.data@,
                parser.header,
                class_name@,
                method_name@,
                class_idx as nat,
            ),
        decreases class_count - class_idx,
    {
        let class_def = match parser.get_class_def(class_idx) {
            Ok(v) => v,
            Err(e) => {
                return Err(text_of(&e));
            },
        };
        let class_type_name = match parser.get_type_name(class_def.class_idx) {
            Ok(v) => v,
            Err(e) => {
                return Err(text_of(&e));
            },
        };
        if str_eq(class_type_name.as_str(), class_name) {
            let class_data = match parser.parse_class_data(class_def.class_data_off) {
                Ok(v) => v,
                Err(e) => {
                    return Err(text_of(&e));
                },
            };
            let methods = all_methods_of(&class_data);
            match find_among_methods(parser, &methods, method_name) {
                Ok(Some(code)) => {
                    return Ok(Some(code));
                },
                Ok(None) => {},
                Err(e) => {
                    return Err(e);
                },
            }
        }
        class_idx += 1;
    }
    Ok(None)
}

fn name_of_method(parser: &DexParser, method: &EncodedMethod) -> (name: Option<String>)
    ensures
        crate::apk::manifest::opt_view(name) == method_name_spec(
            parser.data@,
            parser.header,
            *method,
        ),
{
    proof {
        reveal(method_name_spec);
    }
    let method_info = match parser.get_method_info(method.method_idx) {
        Ok(v) => v,
        Err(_) => {
            return None;
        },
    };
    match parser.get_string(method_info.name_idx) {
        Ok(name) => Some(name),
        Err(_) => None,
    }
}

fn class_methods(parser: &DexParser, class_name: &str, class_idx: u32) -> (methods: Option<
    Vec<EncodedMethod>,
>)
    ensures
        match methods {
            Some(m) => methods_of_class(parser.data@, parser.header, class_name@, class_idx)
                == Some(m@),
            None => methods_of_class(parser.data@, parser.header, class_name@, class_idx) is None,
        },
{
    proof {
        reveal(methods_of_class);
    }
    let class_def = match parser.get_class_def(class_idx) {
        Ok(v) => v,
        Err(_) => {
            return None;
        },
    };
    let class_type_name = match parser.get_type_name(class_def.class_idx) {
        Ok(v) => v,
        Err(_) => {
            return None;
        },
    };
    if !str_eq(class_type_name.as_str(), class_name) {
        return None;
    }
    match parser.parse_class_data(class_def.class_data_off) {
        Ok(class_data) => Some(all_methods_of(&class_data)),
        Err(_) => None,
    }
}

fn search_among_methods(parser: &DexParser, methods: &Vec<EncodedMethod>, method_name: &str) -> (r:
    Option<Result<Vec<u16>, String>>)
    ensures
        match r {
            Some(Ok(code)) => search_methods(
                parser.data@,
                parser.header,
                methods@,
                method_name@,
                0,
            ) == Some(Ok::<Seq<u16>, Seq<char>>(code@)),
            Some(Err(e)) => search_methods(parser.data@, parser.header, methods@, method_name@, 0)
                == Some(Err::<Seq<u16>, Seq<char>>(e@)),
            None => search_methods(parser.data@, parser.header, methods@, method_name@, 0) is None,
        },
{
    let mut k: usize = 0;
    while k < methods.len()
        invariant
            k <= methods@.len(),
            search_methods(parser.data@, parser.header, methods@, method_name@, 0)
                == search_methods(parser.data@, parser.header, methods@, method_name@, k as nat),
        decreases methods@.len() - k,
    {
        let found = match name_of_method(parser, &methods[k]) {
            Some(name) => str_eq(name.as_str(), method_name),
            None => false,
        };
        if found {
            return Some(
                match parser.get_method_bytecode(methods[k].code_off) {
                    Ok(code) => Ok(code),
                    Err(e) => Err(text_of(&e)),
                },
            );
        }
        k += 1;
    }
    None
}

fn search_in_image(parser: &DexParser, class_name: &str, method_name: &str) -> (r: Option<
    Result<Vec<u16>, String>,
>)
    ensures
        match r {
            Some(Ok(code)) => search_classes(
                parser.data@,
                parser.header,
                class_name@,
                method_name@,
                0,
            ) == Some(Ok::<Seq<u16>, Seq<char>>(code@)),
            Some(Err(e)) => search_classes(parser.data@, parser.header, class_name@, method_name@, 0)
                == Some(Err::<Seq<u16>, Seq<char>>(e@)),
            None => search_classes(parser.data@, parser.header, class_name@, method_name@, 0)
                is None,
        },
{
    let class_count = parser.class_count();
    let mut class_idx: u32 = 0;
    while class_idx < class_count
        invariant
            class_idx <= class_count == parser.header.class_defs_size,
            search_classes(parser.data@, parser.header, class_name@, method_name@, 0)
                == search_classes(
                parser.data@,
                parser.header,
                class_name@,
                method_name@,
                class_idx as nat,
            ),
        decreases class_count - class_idx,
    {
        match class_methods(parser, class_name, class_idx) {
            Some(methods) => {
                match search_among_methods(parser, &methods, method_name) {
                    Some(r) => {
                        return Some(r);
                    },
                    None => {},
                }
            },
            None => {},
        }
        class_idx += 1;
    }
    None
}

fn search_in_entry(entry: &DexEntry, class_name: &str, method_name: &str) -> (r: Option<
    Result<Vec<u16>, String>,
>)
    ensures
        match r {
            Some(Ok(code)) => search_image(entry@.data, class_name@, method_name@) == Some(
                Ok::<Seq<u16>, Seq<char>>(code@),
            ),
            Some(Err(e)) => search_image(entry@.data, class_name@, method_name@) == Some(
                Err::<Seq<u16>, Seq<char>>(e@),
            ),
            None => search_image(entry@.data, class_name@, method_name@) is None,
        },
{
    proof {
        reveal(search_image);
    }
    match DexParser::new(entry.data.clone()) {
        Ok(parser) => {
            proof {
                lemma_header_unique(parser.header, header_of(entry.data@), entry.data@);
            }
            search_in_image(&parser, class_name, method_name)
        },
        Err(_) => None,
    }
}

/// Get bytecode for a specific method by name, from the first DEX file
/// that holds it.
pub fn get_method_bytecode_from_apk(dex_entries: &[DexEntry], class_name: &str, method_name: &str) -> (r:
    Result<Vec<u16>, String>)
    ensures
        match r {
            Ok(code) => search_entries(dex_entry_views(dex_entries@), class_name@, method_name@, 0)
                == Ok::<Seq<u16>, Seq<char>>(code@),
            Err(e) => search_entries(dex_entry_views(dex_entries@), class_name@, method_name@, 0)
                == Err::<Seq<u16>, Seq<char>>(e@),
        },
{
    let ghost entries = dex_entry_views(dex_entries@);
    let mut k: usize = 0;
    while k < dex_entries.len()
        invariant
            k <= dex_entries@.len(),
            entries == dex_entry_views(dex_entries@),
            search_entries(entries, class_name@, method_name@, 0) == search_entries(
                entries,
                class_name@,
                method_name@,
                k as nat,
            ),
        decreases dex_entries@.len() - k,
    {
        assert(entries[k as int] == dex_entries@[k as int]@);
        match search_in_entry(&dex_entries[k], class_name, method_name) {
            Some(r) => {
                return r;
            },
            None => {},
        }
        k += 1;
    }
    let mut message = concat3("Method not found: ", class_name, ".");
    message.append(method_name);
    Err(message)
}

fn records_of_methods(
    parser: &DexParser,
    class_name: &String,
    methods: &Vec<EncodedMethod>,
    results: &mut Vec<(String, String, Vec<u16>)>,
)
    ensures
        record_views(final(results)@) == record_views(old(results)@) + method_records(
            parser.data@,
            parser.header,
            class_name@,
            methods@,
            methods@.len(),
        ),
{
    let ghost start = record_views(results@);
    let mut k: usize = 0;
    assert(start + method_records(parser.data@, parser.header, class_name@, methods@, 0) =~= start);
    while k < methods.len()
        invariant
            k <= methods@.len(),
            record_views(results@) == start + method_records(
                parser.data@,
                parser.header,
                class_name@,
                methods@,
                k as nat,
            ),
        decreases methods@.len() - k,
    {
        let ghost before = record_views(results@);
        let ghost done = method_records(
            parser.data@,
            parser.header,
            class_name@,
            methods@,
            k as nat,
        );
        match name_of_method(parser, &methods[k]) {
            Some(method_name) => {
                let bytecode = match parser.get_method_bytecode(methods[k].code_off) {
                    Ok(b) => b,
                    Err(_) => Vec::new(),
                };
                let ghost record = (class_name@, method_name@, bytecode@);
                results.push((class_name.clone(), method_name, bytecode));
                assert(record_views(results@) =~= before.push(record));
                assert(start + done.push(record) =~= (start + done).push(record));
            },
            None => {},
        }
        k += 1;
    }
}

fn find_class_methods(parser: &DexParser, class_name: &str) -> (methods: Option<Vec<EncodedMethod>>)
    ensures
        match methods {
            Some(m) => first_class_methods(parser.data@, parser.header, class_name@, 0) == Some(
                m@,
            ),
            None => first_class_methods(parser.data@, parser.header, class_name@, 0) is None,
        },
{
    let class_count = parser.class_count();
    let mut class_idx: u32 = 0;
    while class_idx < class_count
        invariant
            class_idx <= class_count == parser.header.class_defs_size,
            first_class_methods(parser.data@, parser.header, class_name@, 0)
                == first_class_methods(
                parser.data@,
                parser.header,
                class_name@,
                class_idx as nat,
            ),
        decreases class_count - class_idx,
    {
        match class_methods(parser, class_name, class_idx) {
            Some(methods) => {
                return Some(methods);
            },
            None => {},
        }
        class_idx += 1;
    }
    None
}

fn records_of_image(parser: &DexParser, class_name: &String, results: &mut Vec<(String, String, Vec<u16>)>)
    ensures
        record_views(final(results)@) == record_views(old(results)@) + class_records(
            parser.data@,
            parser.header,
            class_name@,
        ),
{
    match find_class_methods(parser, class_name.as_str()) {
        Some(methods) => {
            records_of_methods(parser, class_name, &methods, results);
        },
        None => {
            assert(record_views(results@) + Seq::<MethodRecord>::empty() =~= record_views(
                results@,
            ));
        },
    }
}

fn records_of_entry(entry: &DexEntry, class_name: &String, results: &mut Vec<(String, String, Vec<u16>)>)
    ensures
        record_views(final(results)@) == record_views(old(results)@) + image_records(
            entry@.data,
            class_name@,
        ),
{
    proof {
        reveal(image_records);
    }
    match DexParser::new(entry.data.clone()) {
        Ok(parser) => {
            proof {
                lemma_header_unique(parser.header, header_of(entry.data@), entry.data@);
            }
            records_of_image(&parser, class_name, results);
        },
        Err(_) => {
            assert(record_views(results@) + Seq::<MethodRecord>::empty() =~= record_views(
                results@,
            ));
        },
    }
}

fn records_of_class(
    dex_entries: &[DexEntry],
    class_name: &String,
    results: &mut Vec<(String, String, Vec<u16>)>,
)
    ensures
        record_views(final(results)@) == record_views(old(results)@) + entry_records(
            dex_entry_views(dex_entries@),
            class_name@,
            dex_entries@.len(),
        ),
{
    let ghost start = record_views(results@);
    let ghost entries = dex_entry_views(dex_entries@);
    let mut k: usize = 0;
    assert(start + entry_records(entries, class_name@, 0) =~= start);
    while k < dex_entries.len()
        invariant
            k <= dex_entries@.len(),
            entries == dex_entry_views(dex_entries@),
            record_views(results@) == start + entry_records(entries, class_name@, k as nat),
        decreases dex_entries@.len() - k,
    {
        let ghost done = entry_records(entries, class_name@, k as nat);
        let ghost more = image_records(entries[k as int].data, class_name@);
        assert(entries[k as int] == dex_entries@[k as int]@);
        records_of_entry(&dex_entries[k], class_name, results);
        assert(start + done + more =~= start + (done + more));
        k += 1;
    }
}

/// Extract bytecode for methods from classes: for each class and each DEX
/// file, the methods of the first class of that name that can be read, each
/// with its code units.
pub fn extract_methods_bytecode(dex_entries: &[DexEntry], classes: &Vec<RustDexClass>) -> (results:
    Vec<(String, String, Vec<u16>)>)
    ensures
        record_views(results@) == all_records(
            dex_entry_views(dex_entries@),
            dex_class_views(classes@),
            classes@.len(),
        ),
{
    let ghost entries = dex_entry_views(dex_entries@);
    let ghost all = dex_class_views(classes@);
    let mut results: Vec<(String, String, Vec<u16>)> = Vec::new();
    let mut k: usize = 0;
    assert(record_views(results@) =~= all_records(entries, all, 0));
    while k < classes.len()
        invariant
            k <= classes@.len(),
            entries == dex_entry_views(dex_entries@),
            all == dex_class_views(classes@),
            record_views(results@) == all_records(entries, all, k as nat),
        decreases classes@.len() - k,
    {
        assert(all[k as int] == classes@[k as int]@);
        records_of_class(dex_entries, &classes[k].class_name, &mut results);
        k += 1;
    }
    results
}

} // verus!
