//! Class-level decompilation.
//!
//! Decompile entire classes including metadata and all methods. A method or
//! a field that cannot be read is left out; only a class whose own name
//! cannot be read is an error.

use vstd::prelude::*;
use vstd::slice::slice_to_vec;
use crate::apk::extractor::{dex_entry_views, DexEntry, DexEntryView};
use crate::dex::expression_builder::{
    expression_views, run_expressions, ExpressionBuilder, ReconstructedExpression,
    ReconstructedExpressionView, RegisterValueView,
};
use crate::dex::instruction::decode_spec;
use crate::dex::method_resolver::{get_type_names, type_names_spec};
use crate::dex::parser::{
    class_data_spec, get_class_def_spec, get_field_info_spec, get_method_bytecode_spec,
    get_method_info_spec,
    get_proto_info_spec, get_string_spec, get_type_name_spec, header_error, header_of,
    lemma_header_unique, ClassDataView, ClassDef, DexHeader, DexParser, EncodedField,
    EncodedMethod,
};
use crate::text::{
    after_last, before_last, clone_strings, decimal, join, join_spec, push_decimal, replace_char,
    dotted_name, dotted_name_of, replace_char_spec, seq_contains, str_after_last, str_before_last,
    str_contains, views,
};

verus! {

/// Decompiled method with metadata.
#[derive(Debug, Clone)]
pub struct DecompiledMethod {
    pub name: String,
    pub signature: String,
    pub access_flags: u32,
    pub is_public: bool,
    pub is_private: bool,
    pub is_static: bool,
    pub parameters: Vec<String>,
    pub return_type: String,
    pub expressions: Vec<ReconstructedExpression>,
    pub bytecode_size: usize,
}

/// The mathematical value of a [`DecompiledMethod`].
pub ghost struct DecompiledMethodView {
    pub name: Seq<char>,
    pub signature: Seq<char>,
    pub access_flags: u32,
    pub is_public: bool,
    pub is_private: bool,
    pub is_static: bool,
    pub parameters: Seq<Seq<char>>,
    pub return_type: Seq<char>,
    pub expressions: Seq<ReconstructedExpressionView>,
    pub bytecode_size: usize,
}

impl View for DecompiledMethod {
    type V = DecompiledMethodView;

    open spec fn view(&self) -> DecompiledMethodView {
        DecompiledMethodView {
            name: self.name@,
            signature: self.signature@,
            access_flags: self.access_flags,
            is_public: self.is_public,
            is_private: self.is_private,
            is_static: self.is_static,
            parameters: views(self.parameters@),
            return_type: self.return_type@,
            expressions: expression_views(self.expressions@),
            bytecode_size: self.bytecode_size,
        }
    }
}

/// Decompiled class with full metadata.
#[derive(Debug, Clone)]
pub struct DecompiledClass {
    pub class_name: String,
    pub package: String,
    pub simple_name: String,
    pub superclass: Option<String>,
    pub interfaces: Vec<String>,
    pub fields: Vec<String>,
    pub methods: Vec<DecompiledMethod>,
    pub access_flags: u32,
}

/// The mathematical value of a [`DecompiledClass`].
pub ghost struct DecompiledClassView {
    pub class_name: Seq<char>,
    pub package: Seq<char>,
    pub simple_name: Seq<char>,
    pub superclass: Option<Seq<char>>,
    pub interfaces: Seq<Seq<char>>,
    pub fields: Seq<Seq<char>>,
    pub methods: Seq<DecompiledMethodView>,
    pub access_flags: u32,
}

/// The views of a sequence of methods.
pub open spec fn method_views(methods: Seq<DecompiledMethod>) -> Seq<DecompiledMethodView> {
    methods.map_values(|m: DecompiledMethod| m@)
}

impl View for DecompiledClass {
    type V = DecompiledClassView;

    open spec fn view(&self) -> DecompiledClassView {
        DecompiledClassView {
            class_name: self.class_name@,
            package: self.package@,
            simple_name: self.simple_name@,
            superclass: match self.superclass {
                Some(s) => Some(s@),
                None => None,
            },
            interfaces: views(self.interfaces@),
            fields: views(self.fields@),
            methods: method_views(self.methods@),
            access_flags: self.access_flags,
        }
    }
}

/// The views of a sequence of classes.
pub open spec fn class_views(classes: Seq<DecompiledClass>) -> Seq<DecompiledClassView> {
    classes.map_values(|c: DecompiledClass| c@)
}

/// Text that names a security-relevant setting.
pub open spec fn is_security_text(text: Seq<char>) -> bool {
    seq_contains(text, "JavaScript"@) || seq_contains(text, "setAllowFileAccess"@) || seq_contains(
        text,
        "setMixedContentMode"@,
    )
}

/// Text that names WebView or WebSettings.
pub open spec fn is_webview_text(text: Seq<char>) -> bool {
    seq_contains(text, "WebView"@) || seq_contains(text, "WebSettings"@)
}

/// Whether the expression names WebView or WebSettings.
pub open spec fn is_webview_expression(e: ReconstructedExpressionView) -> bool {
    is_webview_text(e.expression)
}

impl DecompiledMethodView {
    /// Some expression of the method names a security-relevant setting.
    pub open spec fn has_security_calls(self) -> bool {
        exists|i: int|
            0 <= i < self.expressions.len() && is_security_text(
                (#[trigger] self.expressions[i]).expression,
            )
    }

    /// The expressions of the method that name WebView or WebSettings.
    pub open spec fn webview_expressions(self) -> Seq<ReconstructedExpressionView> {
        self.expressions.filter(|e: ReconstructedExpressionView| is_webview_expression(e))
    }

    /// The method has an expression that names WebView or WebSettings.
    pub open spec fn uses_webview(self) -> bool {
        self.webview_expressions().len() > 0
    }
}

impl DecompiledClassView {
    /// The methods with security-relevant calls.
    pub open spec fn security_methods(self) -> Seq<DecompiledMethodView> {
        self.methods.filter(|m: DecompiledMethodView| m.has_security_calls())
    }

    /// The methods that use WebView.
    pub open spec fn webview_methods(self) -> Seq<DecompiledMethodView> {
        self.methods.filter(|m: DecompiledMethodView| m.uses_webview())
    }

    /// Four lines: the class name and the numbers of methods, of methods
    /// with security-relevant calls and of methods that use WebView.
    pub open spec fn summary(self) -> Seq<char> {
        "Class: "@ + self.class_name + "\nMethods: "@ + decimal(self.methods.len())
            + "\nSecurity-relevant: "@ + decimal(self.security_methods().len())
            + "\nWebView usage: "@ + decimal(self.webview_methods().len())
    }
}

impl DecompiledMethod {
    /// Check if method has security-relevant calls.
    pub fn has_security_calls(&self) -> (yes: bool)
        ensures
            yes == self@.has_security_calls(),
    {
        let mut k: usize = 0;
        while k < self.expressions.len()
            invariant
                k <= self.expressions@.len(),
                forall|i: int|
                    0 <= i < k ==> !is_security_text((#[trigger] self@.expressions[i]).expression),
            decreases self.expressions@.len() - k,
        {
            let text = self.expressions[k].expression.as_str();
            if str_contains(text, "JavaScript") || str_contains(text, "setAllowFileAccess")
                || str_contains(text, "setMixedContentMode") {
                assert(is_security_text(self@.expressions[k as int].expression));
                return true;
            }
            k += 1;
        }
        false
    }

    /// Get all WebView-related expressions.
    pub fn get_webview_expressions(&self) -> (found: Vec<ReconstructedExpression>)
        ensures
            expression_views(found@) == self@.webview_expressions(),
    {
        let mut found: Vec<ReconstructedExpression> = Vec::new();
        let ghost all = self@.expressions;
        let ghost keep = |e: ReconstructedExpressionView| is_webview_expression(e);
        let mut k: usize = 0;
        assert(expression_views(found@) =~= all.take(0).filter(keep));
        while k < self.expressions.len()
            invariant
                k <= self.expressions@.len(),
                all == self@.expressions,
                keep == |e: ReconstructedExpressionView| is_webview_expression(e),
                expression_views(found@) == all.take(k as int).filter(keep),
            decreases self.expressions@.len() - k,
        {
            let ghost before = expression_views(found@);
            let text = self.expressions[k].expression.as_str();
            proof {
                assert(all.take(k + 1).drop_last() =~= all.take(k as int));
                assert(all.take(k + 1).last() == self.expressions@[k as int]@);
                reveal(Seq::filter);
            }
            if str_contains(text, "WebView") || str_contains(text, "WebSettings") {
                let copy = self.expressions[k].duplicate();
                found.push(copy);
                assert(expression_views(found@) =~= before.push(copy@));
            }
            k += 1;
        }
        assert(all.take(all.len() as int) =~= all);
        found
    }

    /// A copy of this method.
    pub fn duplicate(&self) -> (copy: DecompiledMethod)
        ensures
            copy@ == self@,
    {
        let mut expressions: Vec<ReconstructedExpression> = Vec::new();
        let mut k: usize = 0;
        while k < self.expressions.len()
            invariant
                k <= self.expressions@.len(),
                expressions@.len() == k,
                forall|i: int| 0 <= i < k ==> (#[trigger] expressions@[i])@ == self.expressions@[i]@,
            decreases self.expressions@.len() - k,
        {
            expressions.push(self.expressions[k].duplicate());
            k += 1;
        }
        assert(expression_views(expressions@) =~= expression_views(self.expressions@));
        DecompiledMethod {
            name: self.name.clone(),
            signature: self.signature.clone(),
            access_flags: self.access_flags,
            is_public: self.is_public,
            is_private: self.is_private,
            is_static: self.is_static,
            parameters: clone_strings(&self.parameters),
            return_type: self.return_type.clone(),
            expressions,
            bytecode_size: self.bytecode_size,
        }
    }
}

impl DecompiledClass {
    /// Get methods with security-relevant calls.
    pub fn get_security_methods(&self) -> (found: Vec<DecompiledMethod>)
        ensures
            method_views(found@) == self@.security_methods(),
    {
        let mut found: Vec<DecompiledMethod> = Vec::new();
        let ghost all = self@.methods;
        let ghost keep = |m: DecompiledMethodView| m.has_security_calls();
        let mut k: usize = 0;
        assert(method_views(found@) =~= all.take(0).filter(keep));
        while k < self.methods.len()
            invariant
                k <= self.methods@.len(),
                all == self@.methods,
                keep == |m: DecompiledMethodView| m.has_security_calls(),
                method_views(found@) == all.take(k as int).filter(keep),
            decreases self.methods@.len() - k,
        {
            let ghost before = method_views(found@);
            proof {
                assert(all.take(k + 1).drop_last() =~= all.take(k as int));
                assert(all.take(k + 1).last() == self.methods@[k as int]@);
                reveal(Seq::filter);
            }
            if self.methods[k].has_security_calls() {
                let copy = self.methods[k].duplicate();
                found.push(copy);
                assert(method_views(found@) =~= before.push(copy@));
            }
            k += 1;
        }
        assert(all.take(all.len() as int) =~= all);
        found
    }

    /// Get all methods that use WebView.
    pub fn get_webview_methods(&self) -> (found: Vec<DecompiledMethod>)
        ensures
            method_views(found@) == self@.webview_methods(),
    {
        let mut found: Vec<DecompiledMethod> = Vec::new();
        let ghost all = self@.methods;
        let ghost keep = |m: DecompiledMethodView| m.uses_webview();
        let mut k: usize = 0;
        assert(method_views(found@) =~= all.take(0).filter(keep));
        while k < self.methods.len()
            invariant
                k <= self.methods@.len(),
                all == self@.methods,
                keep == |m: DecompiledMethodView| m.uses_webview(),
                method_views(found@) == all.take(k as int).filter(keep),
            decreases self.methods@.len() - k,
        {
            let ghost before = method_views(found@);
            proof {
                assert(all.take(k + 1).drop_last() =~= all.take(k as int));
                assert(all.take(k + 1).last() == self.methods@[k as int]@);
                reveal(Seq::filter);
            }
            let expressions = self.methods[k].get_webview_expressions();
            if expressions.len() > 0 {
                let copy = self.methods[k].duplicate();
                found.push(copy);
                assert(method_views(found@) =~= before.push(copy@));
            }
            k += 1;
        }
        assert(all.take(all.len() as int) =~= all);
        found
    }

    /// Check if class is public.
    pub fn is_public(&self) -> (yes: bool)
        ensures
            yes == (self.access_flags & 0x0001 != 0),
    {
        self.access_flags & 0x0001 != 0
    }

    /// Check if class is final.
    pub fn is_final(&self) -> (yes: bool)
        ensures
            yes == (self.access_flags & 0x0010 != 0),
    {
        self.access_flags & 0x0010 != 0
    }

    /// Check if class is abstract.
    pub fn is_abstract(&self) -> (yes: bool)
        ensures
            yes == (self.access_flags & 0x0400 != 0),
    {
        self.access_flags & 0x0400 != 0
    }

    /// Get summary statistics.
    pub fn get_summary(&self) -> (summary: String)
        ensures
            summary@ == self@.summary(),
    {
        let security_count = self.get_security_methods().len();
        let webview_count = self.get_webview_methods().len();
        let mut summary = crate::text::owned("Class: ");
        summary.append(self.class_name.as_str());
        summary.append("\nMethods: ");
        push_decimal(&mut summary, self.methods.len() as u64);
        summary.append("\nSecurity-relevant: ");
        push_decimal(&mut summary, security_count as u64);
        summary.append("\nWebView usage: ");
        push_decimal(&mut summary, webview_count as u64);
        summary
    }

    /// A copy of this class.
    pub fn duplicate(&self) -> (copy: DecompiledClass)
        ensures
            copy@ == self@,
    {
        let mut methods: Vec<DecompiledMethod> = Vec::new();
        let mut k: usize = 0;
        while k < self.methods.len()
            invariant
                k <= self.methods@.len(),
                methods@.len() == k,
                forall|i: int| 0 <= i < k ==> (#[trigger] methods@[i])@ == self.methods@[i]@,
            decreases self.methods@.len() - k,
        {
            methods.push(self.methods[k].duplicate());
            k += 1;
        }
        assert(method_views(methods@) =~= method_views(self.methods@));
        DecompiledClass {
            class_name: self.class_name.clone(),
            package: self.package.clone(),
            simple_name: self.simple_name.clone(),
            superclass: match &self.superclass {
                Some(s) => Some(s.clone()),
                None => None,
            },
            interfaces: clone_strings(&self.interfaces),
            fields: clone_strings(&self.fields),
            methods,
            access_flags: self.access_flags,
        }
    }
}

/// A class name in dotted form: the descriptor form `Lcom/example/Foo;`
/// loses its `L` and its `;`, a name in any other form stays whole; every
/// `/` becomes `.`.
pub open spec fn dotted_class_name(class_name: Seq<char>) -> Seq<char> {
    dotted_name(class_name)
}

/// Package of a class name: what stands before the last `.` of its dotted
/// form, and nothing if it has no `.`.
pub open spec fn package_of(class_name: Seq<char>) -> Seq<char> {
    before_last(dotted_class_name(class_name), '.')
}

/// Simple name of a class name: what follows the last `.` of its dotted
/// form.
pub open spec fn simple_name_of(class_name: Seq<char>) -> Seq<char> {
    after_last(dotted_class_name(class_name), '.')
}

/// Split class name into package and simple name.
pub fn split_class_name(class_name: &str) -> (parts: (String, String))
    ensures
        parts.0@ == package_of(class_name@),
        parts.1@ == simple_name_of(class_name@),
{
    let name = dotted_name_of(class_name);
    (str_before_last(name.as_str(), '.'), str_after_last(name.as_str(), '.'))
}

/// A method signature written as `name(T1, T2, ...): R`.
pub open spec fn method_signature_text(
    name: Seq<char>,
    parameters: Seq<Seq<char>>,
    return_type: Seq<char>,
) -> Seq<char> {
    name + "("@ + join_spec(parameters, ", "@) + "): "@ + return_type
}

/// The expressions and the size of the bytecode of a method whose code item
/// is at `code_off` of the image `data`.
///
/// No code (offset zero) or unreadable code gives no expression and size
/// zero. The expressions are reconstructed by a fresh builder on the image
/// `dex_data`; if that is no DEX image there are none.
#[verifier::opaque]
pub open spec fn method_body_spec(data: Seq<u8>, dex_data: Seq<u8>, code_off: u32) -> (
    Seq<ReconstructedExpressionView>,
    usize,
) {
    if code_off == 0 {
        (Seq::empty(), 0)
    } else {
        match get_method_bytecode_spec(data, code_off) {
            Err(_) => (Seq::empty(), 0),
            Ok(code) => if header_error(dex_data) is Some {
                (Seq::empty(), code.len() as usize)
            } else {
                (
                    run_expressions(
                        dex_data,
                        header_of(dex_data),
                        Map::<u8, RegisterValueView>::empty(),
                        decode_spec(code),
                    ),
                    code.len() as usize,
                )
            },
        }
    }
}

/// The decompiled form of an encoded method: its name, its return type and
/// its parameter types are looked up in this order; the first error met is
/// the result, as text.
#[verifier::opaque]
pub open spec fn decompile_method_spec(
    data: Seq<u8>,
    header: DexHeader,
    dex_data: Seq<u8>,
    method: EncodedMethod,
) -> Result<DecompiledMethodView, Seq<char>> {
    match get_method_info_spec(data, header, method.method_idx) {
        Err(e) => Err(e.text()),
        Ok(info) => match get_string_spec(data, header, info.name_idx) {
            Err(e) => Err(e.text()),
            Ok(name) => match get_proto_info_spec(data, header, info.proto_idx) {
                Err(e) => Err(e.text()),
                Ok(proto) => match get_type_name_spec(data, header, proto.return_type_idx) {
                    Err(e) => Err(e.text()),
                    Ok(return_type) => match type_names_spec(data, header, proto.parameters) {
                        Err(e) => Err(e.text()),
                        Ok(parameters) => Ok(
                            DecompiledMethodView {
                                name,
                                signature: method_signature_text(name, parameters, return_type),
                                access_flags: method.access_flags,
                                is_public: method.access_flags & 0x0001 != 0,
                                is_private: method.access_flags & 0x0002 != 0,
                                is_static: method.access_flags & 0x0008 != 0,
                                parameters,
                                return_type,
                                expressions: method_body_spec(data, dex_data, method.code_off).0,
                                bytecode_size: method_body_spec(data, dex_data, method.code_off).1,
                            },
                        ),
                    },
                },
            },
        },
    }
}

/// The line `name: type` for an encoded field, if its name and type can be
/// read.
#[verifier::opaque]
pub open spec fn field_line_spec(data: Seq<u8>, header: DexHeader, field: EncodedField) -> Option<
    Seq<char>,
> {
    match get_field_info_spec(data, header, field.field_idx) {
        Err(_) => None,
        Ok(info) => match get_string_spec(data, header, info.name_idx) {
            Err(_) => None,
            Ok(name) => match get_type_name_spec(data, header, info.type_idx) {
                Err(_) => None,
                Ok(field_type) => Some(name + ": "@ + field_type),
            },
        },
    }
}

/// The lines of the fields that can be read, in the order of `fields`.
pub open spec fn field_lines_spec(data: Seq<u8>, header: DexHeader, fields: Seq<EncodedField>) -> Seq<
    Seq<char>,
>
    decreases fields.len(),
{
    if fields.len() == 0 {
        Seq::empty()
    } else {
        let before = field_lines_spec(data, header, fields.drop_last());
        match field_line_spec(data, header, fields.last()) {
            Some(line) => before.push(line),
            None => before,
        }
    }
}

/// The methods that decompile, in the order of `methods`.
pub open spec fn decompiled_methods_spec(
    data: Seq<u8>,
    header: DexHeader,
    dex_data: Seq<u8>,
    methods: Seq<EncodedMethod>,
) -> Seq<DecompiledMethodView>
    decreases methods.len(),
{
    if methods.len() == 0 {
        Seq::empty()
    } else {
        let before = decompiled_methods_spec(data, header, dex_data, methods.drop_last());
        match decompile_method_spec(data, header, dex_data, methods.last()) {
            Ok(m) => before.push(m),
            Err(_) => before,
        }
    }
}

/// The class data of a class definition, or empty class data if it cannot
/// be read.
pub open spec fn class_data_or_empty(data: Seq<u8>, class_def: ClassDef) -> ClassDataView {
    match class_data_spec(data, class_def.class_data_off) {
        Ok(class_data) => class_data,
        Err(_) => ClassDataView::empty(),
    }
}

/// The decompiled form of a class definition.
///
/// Fails only if the name of the class cannot be read. The superclass is
/// absent if its index is the no-index marker or its name cannot be read.
/// Interfaces are not read. Fields are static fields, then instance fields;
/// methods are direct methods, then virtual methods.
#[verifier::opaque]
pub open spec fn decompile_class_spec(
    data: Seq<u8>,
    header: DexHeader,
    dex_data: Seq<u8>,
    class_def: ClassDef,
) -> Result<DecompiledClassView, Seq<char>> {
    match get_type_name_spec(data, header, class_def.class_idx) {
        Err(e) => Err(e.text()),
        Ok(class_name) => Ok(
            DecompiledClassView {
                class_name,
                package: package_of(class_name),
                simple_name: simple_name_of(class_name),
                superclass: if class_def.superclass_idx == 0xFFFFFFFF {
                    None
                } else {
                    match get_type_name_spec(data, header, class_def.superclass_idx) {
                        Ok(name) => Some(name),
                        Err(_) => None,
                    }
                },
                interfaces: Seq::empty(),
                fields: field_lines_spec(
                    data,
                    header,
                    class_data_or_empty(data, class_def).all_fields(),
                ),
                methods: decompiled_methods_spec(
                    data,
                    header,
                    dex_data,
                    class_data_or_empty(data, class_def).all_methods(),
                ),
                access_flags: class_def.access_flags,
            },
        ),
    }
}

/// A class that decompiles has a class index below the size of the type
/// pool, and each of its encoded methods that decompiles has a method index
/// below the size of the method pool.
pub proof fn lemma_emitted_indices_in_pools(
    data: Seq<u8>,
    header: DexHeader,
    dex_data: Seq<u8>,
    class_def: ClassDef,
)
    requires
        decompile_class_spec(data, header, dex_data, class_def) is Ok,
    ensures
        class_def.class_idx < header.type_ids_size,
        forall|i: int|
            0 <= i < class_data_or_empty(data, class_def).all_methods().len()
                && decompile_method_spec(
                data,
                header,
                dex_data,
                #[trigger] class_data_or_empty(data, class_def).all_methods()[i],
            ) is Ok ==> class_data_or_empty(data, class_def).all_methods()[i].method_idx
                < header.method_ids_size,
{
    reveal(decompile_class_spec);
    reveal(decompile_method_spec);
}

/// The text of an equal-kind error is what `message` gives.
fn error_text(e: &crate::dex::error::DexError) -> (text: String)
    ensures
        text@ == e@.text(),
{
    e.message()
}

fn field_line(parser: &DexParser, field: &EncodedField) -> (line: Option<String>)
    ensures
        match line {
            Some(text) => field_line_spec(parser.data@, parser.header, *field) == Some(text@),
            None => field_line_spec(parser.data@, parser.header, *field) is None,
        },
{
    proof {
        reveal(field_line_spec);
    }
    let info = match parser.get_field_info(field.field_idx) {
        Ok(v) => v,
        Err(_) => {
            return None;
        },
    };
    let name = match parser.get_string(info.name_idx) {
        Ok(v) => v,
        Err(_) => {
            return None;
        },
    };
    let field_type = match parser.get_type_name(info.type_idx) {
        Ok(v) => v,
        Err(_) => {
            return None;
        },
    };
    let mut line = name;
    line.append(": ");
    line.append(field_type.as_str());
    Some(line)
}

/// Decompile a single method.
///
/// Succeeds only for a method index below the size of the method pool.
pub fn decompile_method(parser: &DexParser, encoded_method: &EncodedMethod, dex_data: &[u8]) -> (r:
    Result<DecompiledMethod, String>)
    ensures
        match r {
            Ok(method) => decompile_method_spec(
                parser.data@,
                parser.header,
                dex_data@,
                *encoded_method,
            ) == Ok::<DecompiledMethodView, Seq<char>>(method@) && encoded_method.method_idx
                < parser.header.method_ids_size,
            Err(e) => decompile_method_spec(parser.data@, parser.header, dex_data@, *encoded_method)
                == Err::<DecompiledMethodView, Seq<char>>(e@),
        },
{
    proof {
        reveal(decompile_method_spec);
    }
    let method_info = match parser.get_method_info(encoded_method.method_idx) {
        Ok(v) => v,
        Err(e) => {
            return Err(error_text(&e));
        },
    };
    let method_name = match parser.get_string(method_info.name_idx) {
        Ok(v) => v,
        Err(e) => {
            return Err(error_text(&e));
        },
    };
    let proto = match parser.get_proto_info(method_info.proto_idx) {
        Ok(v) => v,
        Err(e) => {
            return Err(error_text(&e));
        },
    };
    let return_type = match parser.get_type_name(proto.return_type_idx) {
        Ok(v) => v,
        Err(e) => {
            return Err(error_text(&e));
        },
    };
    let parameters = match get_type_names(parser, &proto.parameters) {
        Ok(v) => v,
        Err(e) => {
            return Err(error_text(&e));
        },
    };
    let mut signature = method_name.clone();
    signature.append("(");
    signature.append(join(&parameters, ", ").as_str());
    signature.append("): ");
    signature.append(return_type.as_str());
    let is_public = encoded_method.access_flags & 0x0001 != 0;
    let is_private = encoded_method.access_flags & 0x0002 != 0;
    let is_static = encoded_method.access_flags & 0x0008 != 0;
    let (expressions, bytecode_size) = method_body(parser, encoded_method.code_off, dex_data);
    Ok(
        DecompiledMethod {
            name: method_name,
            signature,
            access_flags: encoded_method.access_flags,
            is_public,
            is_private,
            is_static,
            parameters,
            return_type,
            expressions,
            bytecode_size,
        },
    )
}

fn method_body(parser: &DexParser, code_off: u32, dex_data: &[u8]) -> (body: (
    Vec<ReconstructedExpression>,
    usize,
))
    ensures
        expression_views(body.0@) == method_body_spec(parser.data@, dex_data@, code_off).0,
        body.1 == method_body_spec(parser.data@, dex_data@, code_off).1,
{
    proof {
        reveal(method_body_spec);
    }
    if code_off == 0 {
        let none: Vec<ReconstructedExpression> = Vec::new();
        assert(expression_views(none@) =~= Seq::<ReconstructedExpressionView>::empty());
        return (none, 0);
    }
    match parser.get_method_bytecode(code_off) {
        Ok(bytecode) => {
            let size = bytecode.len();
            match DexParser::new(slice_to_vec(dex_data)) {
                Ok(parser2) => {
                    proof {
                        lemma_header_unique(parser2.header, header_of(dex_data@), dex_data@);
                    }
                    let mut builder = ExpressionBuilder::new(parser2);
                    assert(builder.register_file() =~= Map::<u8, RegisterValueView>::empty());
                    match builder.process_bytecode(bytecode.as_slice()) {
                        Ok(exprs) => (exprs, size),
                        Err(_) => (Vec::new(), size),
                    }
                },
                Err(_) => {
                    let none: Vec<ReconstructedExpression> = Vec::new();
                    assert(expression_views(none@) =~= Seq::<ReconstructedExpressionView>::empty());
                    (none, size)
                },
            }
        },
        Err(_) => {
            let none: Vec<ReconstructedExpression> = Vec::new();
            assert(expression_views(none@) =~= Seq::<ReconstructedExpressionView>::empty());
            (none, 0)
        },
    }
}

/// The lines of the fields that can be read.
fn field_lines(parser: &DexParser, field_list: &Vec<EncodedField>) -> (fields: Vec<String>)
    ensures
        views(fields@) == field_lines_spec(parser.data@, parser.header, field_list@),
{
    let ghost all = field_list@;
    let mut fields: Vec<String> = Vec::new();
    let mut k: usize = 0;
    assert(views(fields@) =~= Seq::<Seq<char>>::empty());
    assert(all.take(0) =~= Seq::<EncodedField>::empty());
    while k < field_list.len()
        invariant
            k <= field_list@.len(),
            field_list@ == all,
            views(fields@) == field_lines_spec(parser.data@, parser.header, all.take(k as int)),
        decreases field_list@.len() - k,
    {
        let ghost before = views(fields@);
        proof {
            assert(all.take(k + 1).drop_last() =~= all.take(k as int));
            assert(all.take(k + 1).last() == field_list@[k as int]);
        }
        match field_line(parser, &field_list[k]) {
            Some(line) => {
                fields.push(line);
                assert(views(fields@) =~= before.push(line@));
            },
            None => {},
        }
        k += 1;
    }
    assert(all.take(all.len() as int) =~= all);
    fields
}

/// The methods that decompile.
fn decompile_methods(parser: &DexParser, method_list: &Vec<EncodedMethod>, dex_data: &[u8]) -> (methods:
    Vec<DecompiledMethod>)
    ensures
        method_views(methods@) == decompiled_methods_spec(
            parser.data@,
            parser.header,
            dex_data@,
            method_list@,
        ),
{
    let ghost all = method_list@;
    let mut methods: Vec<DecompiledMethod> = Vec::new();
    let mut j: usize = 0;
    assert(method_views(methods@) =~= Seq::<DecompiledMethodView>::empty());
    assert(all.take(0) =~= Seq::<EncodedMethod>::empty());
    while j < method_list.len()
        invariant
            j <= method_list@.len(),
            method_list@ == all,
            method_views(methods@) == decompiled_methods_spec(
                parser.data@,
                parser.header,
                dex_data@,
                all.take(j as int),
            ),
        decreases method_list@.len() - j,
    {
        let ghost before = method_views(methods@);
        proof {
            assert(all.take(j + 1).drop_last() =~= all.take(j as int));
            assert(all.take(j + 1).last() == method_list@[j as int]);
        }
        match decompile_method(parser, &method_list[j], dex_data) {
            Ok(method) => {
                methods.push(method);
                assert(method_views(methods@) =~= before.push(method@));
            },
            Err(_) => {},
        }
        j += 1;
    }
    assert(all.take(all.len() as int) =~= all);
    methods
}

/// Decompile a class.
///
/// Succeeds only for a class index below the size of the type pool.
pub fn decompile_class(parser: &DexParser, class_def: ClassDef, dex_data: &[u8]) -> (r: Result<
    DecompiledClass,
    String,
>)
    ensures
        match r {
            Ok(class) => decompile_class_spec(parser.data@, parser.header, dex_data@, class_def)
                == Ok::<DecompiledClassView, Seq<char>>(class@) && class_def.class_idx
                < parser.header.type_ids_size,
            Err(e) => decompile_class_spec(parser.data@, parser.header, dex_data@, class_def)
                == Err::<DecompiledClassView, Seq<char>>(e@),
        },
{
    proof {
        reveal(decompile_class_spec);
    }
    let class_name = match parser.get_type_name(class_def.class_idx) {
        Ok(v) => v,
        Err(e) => {
            return Err(error_text(&e));
        },
    };
    let (package, simple_name) = split_class_name(class_name.as_str());
    let superclass = if class_def.superclass_idx != 0xFFFFFFFF {
        match parser.get_type_name(class_def.superclass_idx) {
            Ok(name) => Some(name),
            Err(_) => None,
        }
    } else {
        None
    };
    let interfaces: Vec<String> = Vec::new();
    assert(views(interfaces@) =~= Seq::<Seq<char>>::empty());
    let class_data = match parser.parse_class_data(class_def.class_data_off) {
        Ok(v) => v,
        Err(_) => crate::dex::parser::ClassData::default(),
    };
    let mut field_list: Vec<EncodedField> = Vec::new();
    field_list.extend_from_slice(class_data.static_fields.as_slice());
    field_list.extend_from_slice(class_data.instance_fields.as_slice());
    assert(field_list@ =~= class_data@.all_fields());
    let mut method_list: Vec<EncodedMethod> = Vec::new();
    method_list.extend_from_slice(class_data.direct_methods.as_slice());
    method_list.extend_from_slice(class_data.virtual_methods.as_slice());
    assert(method_list@ =~= class_data@.all_methods());
    let fields = field_lines(parser, &field_list);
    let methods = decompile_methods(parser, &method_list, dex_data);
    Ok(
        DecompiledClass {
            class_name,
            package,
            simple_name,
            superclass,
            interfaces,
            fields,
            methods,
            access_flags: class_def.access_flags,
        },
    )
}

/// The first class definition from index `from` on whose name can be read
/// and is `class_name`.
pub open spec fn class_def_named(data: Seq<u8>, header: DexHeader, class_name: Seq<char>, from: nat) -> Option<
    ClassDef,
>
    decreases header.class_defs_size - from,
{
    if from >= header.class_defs_size {
        None
    } else if named_class_def(data, header, class_name, from as u32) is Some {
        named_class_def(data, header, class_name, from as u32)
    } else {
        class_def_named(data, header, class_name, from + 1)
    }
}

/// The class definition with index `index`, if it can be read and the name
/// of its class is `class_name`.
#[verifier::opaque]
pub open spec fn named_class_def(data: Seq<u8>, header: DexHeader, class_name: Seq<char>, index: u32) -> Option<
    ClassDef,
> {
    match get_class_def_spec(data, header, index) {
        Err(_) => None,
        Ok(class_def) => match get_type_name_spec(data, header, class_def.class_idx) {
            Err(_) => None,
            Ok(name) => if name == class_name {
                Some(class_def)
            } else {
                None
            },
        },
    }
}

/// The decompiled class named `class_name` of the image `data`, or the
/// error of decompiling it; nothing if `data` is no DEX image or holds no
/// class of that name.
#[verifier::opaque]
pub open spec fn decompile_in_image(data: Seq<u8>, class_name: Seq<char>) -> Option<
    Result<DecompiledClassView, Seq<char>>,
> {
    if header_error(data) is Some {
        None
    } else {
        match class_def_named(data, header_of(data), class_name, 0) {
            Some(class_def) => Some(decompile_class_spec(data, header_of(data), data, class_def)),
            None => None,
        }
    }
}

/// The error of a class that no DEX file holds.
pub open spec fn class_not_found(class_name: Seq<char>) -> Seq<char> {
    "Class not found: "@ + class_name
}

/// The decompiled class named `class_name`, from the first DEX file from
/// index `from` on that holds a class of that name.
pub open spec fn decompile_from_entries(entries: Seq<DexEntryView>, class_name: Seq<char>, from: nat) -> Result<
    DecompiledClassView,
    Seq<char>,
>
    decreases entries.len() - from,
{
    if from >= entries.len() {
        Err(class_not_found(class_name))
    } else {
        match decompile_in_image(entries[from as int].data, class_name) {
            Some(r) => r,
            None => decompile_from_entries(entries, class_name, from + 1),
        }
    }
}

fn class_def_at(parser: &DexParser, class_name: &str, index: u32) -> (found: Option<ClassDef>)
    ensures
        found == named_class_def(parser.data@, parser.header, class_name@, index),
{
    proof {
        reveal(named_class_def);
    }
    let class_def = match parser.get_class_def(index) {
        Ok(v) => v,
        Err(_) => {
            return None;
        },
    };
    match parser.get_type_name(class_def.class_idx) {
        Ok(name) => if crate::text::str_eq(name.as_str(), class_name) {
            Some(class_def)
        } else {
            None
        },
        Err(_) => None,
    }
}

/// The first class definition whose class is named `class_name`.
pub fn find_class_def(parser: &DexParser, class_name: &str) -> (found: Option<ClassDef>)
    ensures
        found == class_def_named(parser.data@, parser.header, class_name@, 0),
{
    let class_count = parser.class_count();
    let mut class_idx: u32 = 0;
    while class_idx < class_count
        invariant
            class_idx <= class_count == parser.header.class_defs_size,
            class_def_named(parser.data@, parser.header, class_name@, 0) == class_def_named(
                parser.data@,
                parser.header,
                class_name@,
                class_idx as nat,
            ),
        decreases class_count - class_idx,
    {
        match class_def_at(parser, class_name, class_idx) {
            Some(class_def) => {
                return Some(class_def);
            },
            None => {},
        }
        class_idx += 1;
    }
    None
}

fn decompile_in_entry(entry: &DexEntry, class_name: &str) -> (r: Option<Result<DecompiledClass, String>>)
    ensures
        match r {
            Some(Ok(class)) => decompile_in_image(entry@.data, class_name@) == Some(
                Ok::<DecompiledClassView, Seq<char>>(class@),
            ),
            Some(Err(e)) => decompile_in_image(entry@.data, class_name@) == Some(
                Err::<DecompiledClassView, Seq<char>>(e@),
            ),
            None => decompile_in_image(entry@.data, class_name@) is None,
        },
{
    proof {
        reveal(decompile_in_image);
    }
    match DexParser::new(entry.data.clone()) {
        Ok(parser) => {
            proof {
                lemma_header_unique(parser.header, header_of(entry.data@), entry.data@);
            }
            match find_class_def(&parser, class_name) {
                Some(class_def) => Some(decompile_class(&parser, class_def, entry.data.as_slice())),
                None => None,
            }
        },
        Err(_) => None,
    }
}

/// Decompile entire class from the DEX files of an APK: the class of that
/// name in the first DEX file that holds one.
pub fn decompile_class_from_apk(dex_entries: &[DexEntry], class_name: &str) -> (r: Result<
    DecompiledClass,
    String,
>)
    ensures
        match r {
            Ok(class) => decompile_from_entries(dex_entry_views(dex_entries@), class_name@, 0)
                == Ok::<DecompiledClassView, Seq<char>>(class@),
            Err(e) => decompile_from_entries(dex_entry_views(dex_entries@), class_name@, 0)
                == Err::<DecompiledClassView, Seq<char>>(e@),
        },
{
    let ghost entries = dex_entry_views(dex_entries@);
    let mut k: usize = 0;
    while k < dex_entries.len()
        invariant
            k <= dex_entries@.len(),
            entries == dex_entry_views(dex_entries@),
            decompile_from_entries(entries, class_name@, 0) == decompile_from_entries(
                entries,
                class_name@,
                k as nat,
            ),
        decreases dex_entries@.len() - k,
    {
        assert(entries[k as int] == dex_entries@[k as int]@);
        match decompile_in_entry(&dex_entries[k], class_name) {
            Some(r) => {
                return r;
            },
            None => {},
        }
        k += 1;
    }
    Err(crate::text::concat2("Class not found: ", class_name))
}

} // verus!
