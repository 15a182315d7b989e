//! Method index resolution.
//!
//! Resolves an index of the method pool to a readable signature: class,
//! name, parameter types and return type.

use vstd::prelude::*;
use crate::apk::extractor::{dex_entry_views, DexEntry, DexEntryView};
use crate::dex::error::{DexError, DexErrorView};
use crate::dex::parser::{
    get_method_info_spec, get_proto_info_spec, get_string_spec, get_type_name_spec, header_error,
    header_of, lemma_header_unique, ok_view_as, DexHeader, DexParser,
};
use crate::text::{
    after_last, ascii_lower, ascii_lower_of, chars_of, clone_strings, decimal, is_ascii_char, join,
    join_spec, owned, seq_contains, str_after_last, str_contains, str_eq, string_of_range, views,
};

verus! {

/// Resolved method signature.
#[derive(Debug, Clone)]
pub struct MethodSignature {
    /// Full class name (e.g., "android.webkit.WebSettings").
    pub class_name: String,
    /// Method name (e.g., "setJavaScriptEnabled").
    pub method_name: String,
    /// Parameter types (e.g., ["boolean"]).
    pub parameters: Vec<String>,
    /// Return type (e.g., "void").
    pub return_type: String,
    /// Full signature for display.
    pub full_signature: String,
}

/// The mathematical value of a [`MethodSignature`].
pub ghost struct MethodSignatureView {
    pub class_name: Seq<char>,
    pub method_name: Seq<char>,
    pub parameters: Seq<Seq<char>>,
    pub return_type: Seq<char>,
    pub full_signature: Seq<char>,
}

impl View for MethodSignature {
    type V = MethodSignatureView;

    open spec fn view(&self) -> MethodSignatureView {
        MethodSignatureView {
            class_name: self.class_name@,
            method_name: self.method_name@,
            parameters: views(self.parameters@),
            return_type: self.return_type@,
            full_signature: self.full_signature@,
        }
    }
}

/// A signature written as `Class.method(T1, T2, ...): R`.
pub open spec fn full_signature_text(
    class_name: Seq<char>,
    method_name: Seq<char>,
    parameters: Seq<Seq<char>>,
    return_type: Seq<char>,
) -> Seq<char> {
    class_name + "."@ + method_name + "("@ + join_spec(parameters, ", "@) + "): "@ + return_type
}

impl MethodSignatureView {
    /// Last component of the class name.
    pub open spec fn simple_class_name(self) -> Seq<char> {
        after_last(self.class_name, '.')
    }

    /// The class name holds `WebView` or `WebSettings`.
    pub open spec fn is_webview_method(self) -> bool {
        seq_contains(self.class_name, "WebView"@) || seq_contains(self.class_name, "WebSettings"@)
    }

    /// The method is named `setJavaScriptEnabled`.
    pub open spec fn is_set_javascript_enabled(self) -> bool {
        self.method_name == "setJavaScriptEnabled"@
    }

    /// The method is named `addJavascriptInterface`.
    pub open spec fn is_add_javascript_interface(self) -> bool {
        self.method_name == "addJavascriptInterface"@
    }

    /// Whether a call can be formatted: the simple class name is not empty
    /// and starts with an ASCII character.
    pub open spec fn has_ascii_initial(self) -> bool {
        self.simple_class_name().len() > 0 && is_ascii_char(self.simple_class_name()[0])
    }

    /// A call written on a variable named after the class: the simple class
    /// name with its first letter in lower case, the method name, and the
    /// arguments in parentheses.
    pub open spec fn format_call(self, args: Seq<Seq<char>>) -> Seq<char> {
        seq![ascii_lower(self.simple_class_name()[0])] + self.simple_class_name().drop_first()
            + "."@ + self.method_name + "("@ + join_spec(args, ", "@) + ")"@
    }
}

impl MethodSignature {
    /// Get simple class name (last component).
    pub fn simple_class_name(&self) -> (name: String)
        ensures
            name@ == self@.simple_class_name(),
    {
        str_after_last(self.class_name.as_str(), '.')
    }

    /// Check if this is a WebView-related method.
    pub fn is_webview_method(&self) -> (yes: bool)
        ensures
            yes == self@.is_webview_method(),
    {
        str_contains(self.class_name.as_str(), "WebView") || str_contains(
            self.class_name.as_str(),
            "WebSettings",
        )
    }

    /// Check if this is setJavaScriptEnabled.
    pub fn is_set_javascript_enabled(&self) -> (yes: bool)
        ensures
            yes == self@.is_set_javascript_enabled(),
    {
        str_eq(self.method_name.as_str(), "setJavaScriptEnabled")
    }

    /// Check if this is addJavascriptInterface.
    pub fn is_add_javascript_interface(&self) -> (yes: bool)
        ensures
            yes == self@.is_add_javascript_interface(),
    {
        str_eq(self.method_name.as_str(), "addJavascriptInterface")
    }

    /// Whether [`MethodSignature::format_call`] can be called.
    pub fn has_ascii_initial(&self) -> (yes: bool)
        ensures
            yes == self@.has_ascii_initial(),
    {
        let simple = self.simple_class_name();
        let chars = chars_of(simple.as_str());
        chars.len() > 0 && (chars[0] as u32) < 128
    }

    /// Format as Java-like method call.
    pub fn format_call(&self, args: Vec<String>) -> (call: String)
        requires
            self@.has_ascii_initial(),
        ensures
            call@ == self@.format_call(views(args@)),
    {
        let simple = self.simple_class_name();
        let chars = chars_of(simple.as_str());
        let mut call = String::new();
        call.push(ascii_lower_of(chars[0]));
        assert(call@ =~= seq![ascii_lower(simple@[0])]);
        call.append(string_of_range(&chars, 1, chars.len()).as_str());
        assert(chars@.subrange(1, chars@.len() as int) =~= simple@.drop_first());
        call.append(".");
        call.append(self.method_name.as_str());
        call.append("(");
        call.append(join(&args, ", ").as_str());
        call.append(")");
        call
    }

    /// A copy of this signature.
    pub fn duplicate(&self) -> (copy: MethodSignature)
        ensures
            copy@ == self@,
    {
        MethodSignature {
            class_name: self.class_name.clone(),
            method_name: self.method_name.clone(),
            parameters: clone_strings(&self.parameters),
            return_type: self.return_type.clone(),
            full_signature: self.full_signature.clone(),
        }
    }
}

/// The Java names of the types with the indices given, in order; the first
/// error met, if any.
pub open spec fn type_names_spec(data: Seq<u8>, header: DexHeader, indices: Seq<u32>) -> Result<
    Seq<Seq<char>>,
    DexErrorView,
>
    decreases indices.len(),
{
    if indices.len() == 0 {
        Ok(Seq::empty())
    } else {
        match type_names_spec(data, header, indices.drop_last()) {
            Err(e) => Err(e),
            Ok(names) => match get_type_name_spec(data, header, indices.last()) {
                Err(e) => Err(e),
                Ok(name) => Ok(names.push(name)),
            },
        }
    }
}

/// The signature of the method with index `idx` of the method pool: its
/// class, its name, its return type and its parameter types are looked up
/// in this order, and the first error met ends the lookup.
#[verifier::opaque]
pub open spec fn resolve_spec(data: Seq<u8>, header: DexHeader, idx: u32) -> Result<
    MethodSignatureView,
    DexErrorView,
> {
    match get_method_info_spec(data, header, idx) {
        Err(e) => Err(e),
        Ok(info) => match get_type_name_spec(data, header, info.class_idx) {
            Err(e) => Err(e),
            Ok(class_name) => match get_string_spec(data, header, info.name_idx) {
                Err(e) => Err(e),
                Ok(method_name) => match get_proto_info_spec(data, header, info.proto_idx) {
                    Err(e) => Err(e),
                    Ok(proto) => match get_type_name_spec(data, header, proto.return_type_idx) {
                        Err(e) => Err(e),
                        Ok(return_type) => match type_names_spec(data, header, proto.parameters) {
                            Err(e) => Err(e),
                            Ok(parameters) => Ok(
                                MethodSignatureView {
                                    class_name,
                                    method_name,
                                    parameters,
                                    return_type,
                                    full_signature: full_signature_text(
                                        class_name,
                                        method_name,
                                        parameters,
                                        return_type,
                                    ),
                                },
                            ),
                        },
                    },
                },
            },
        },
    }
}

/// A method that resolves has an index below the size of the method pool,
/// and its class an index below the size of the type pool.
pub proof fn lemma_resolved_method_in_pool(data: Seq<u8>, header: DexHeader, idx: u32)
    requires
        resolve_spec(data, header, idx) is Ok,
    ensures
        idx < header.method_ids_size,
        get_method_info_spec(data, header, idx)->Ok_0.class_idx < header.type_ids_size,
{
    reveal(resolve_spec);
}

/// Looks up the Java names of the types with the indices given, in order.
pub fn get_type_names(parser: &DexParser, indices: &Vec<u32>) -> (r: Result<Vec<String>, DexError>)
    ensures
        match r {
            Ok(names) => type_names_spec(parser.data@, parser.header, indices@) == Ok::<
                Seq<Seq<char>>,
                DexErrorView,
            >(views(names@)),
            Err(e) => type_names_spec(parser.data@, parser.header, indices@) == Err::<
                Seq<Seq<char>>,
                DexErrorView,
            >(e@),
        },
{
    let mut names: Vec<String> = Vec::new();
    let mut k: usize = 0;
    assert(views(names@) =~= Seq::<Seq<char>>::empty());
    assert(indices@.take(0) =~= Seq::<u32>::empty());
    while k < indices.len()
        invariant
            k <= indices@.len(),
            type_names_spec(parser.data@, parser.header, indices@.take(k as int)) == Ok::<
                Seq<Seq<char>>,
                DexErrorView,
            >(views(names@)),
        decreases indices@.len() - k,
    {
        let ghost before = views(names@);
        proof {
            assert(indices@.take(k + 1).drop_last() =~= indices@.take(k as int));
            assert(indices@.take(k + 1).last() == indices@[k as int]);
        }
        match parser.get_type_name(indices[k]) {
            Ok(name) => {
                names.push(name);
                assert(views(names@) =~= before.push(name@));
            },
            Err(e) => {
                proof {
                    lemma_type_names_error_stays(
                        parser.data@,
                        parser.header,
                        indices@,
                        k + 1,
                    );
                }
                return Err(e);
            },
        }
        k += 1;
    }
    assert(indices@.take(indices@.len() as int) =~= indices@);
    Ok(names)
}

/// An error met in the first `n` lookups is the error of the whole list.
pub proof fn lemma_type_names_error_stays(
    data: Seq<u8>,
    header: DexHeader,
    indices: Seq<u32>,
    n: int,
)
    requires
        0 <= n <= indices.len(),
        type_names_spec(data, header, indices.take(n)) is Err,
    ensures
        type_names_spec(data, header, indices) == type_names_spec(data, header, indices.take(n)),
    decreases indices.len() - n,
{
    if n < indices.len() {
        assert(indices.take(n + 1).drop_last() =~= indices.take(n));
        lemma_type_names_error_stays(data, header, indices, n + 1);
    } else {
        assert(indices.take(n) =~= indices);
    }
}

/// Method resolver.
pub struct MethodResolver {
    pub parser: DexParser,
}

impl MethodResolver {
    /// Create a new method resolver.
    pub fn new(parser: DexParser) -> (resolver: MethodResolver)
        ensures
            resolver.parser == parser,
    {
        MethodResolver { parser }
    }

    /// Resolve string index.
    pub fn resolve_string(&self, string_idx: u32) -> (r: Result<String, DexError>)
        ensures
            ok_view_as(r, get_string_spec(self.parser.data@, self.parser.header, string_idx)),
    {
        self.parser.get_string(string_idx)
    }

    /// Resolve method index to method signature.
    pub fn resolve(&self, method_idx: u32) -> (r: Result<MethodSignature, DexError>)
        ensures
            ok_view_as(r, resolve_spec(self.parser.data@, self.parser.header, method_idx)),
            r is Ok ==> method_idx < self.parser.header.method_ids_size,
    {
        proof {
            reveal(resolve_spec);
        }
        let method_info = match self.parser.get_method_info(method_idx) {
            Ok(v) => v,
            Err(e) => {
                return Err(e);
            },
        };
        let class_name = match self.parser.get_type_name(method_info.class_idx) {
            Ok(v) => v,
            Err(e) => {
                return Err(e);
            },
        };
        let method_name = match self.parser.get_string(method_info.name_idx) {
            Ok(v) => v,
            Err(e) => {
                return Err(e);
            },
        };
        let proto = match self.parser.get_proto_info(method_info.proto_idx) {
            Ok(v) => v,
            Err(e) => {
                return Err(e);
            },
        };
        let return_type = match self.parser.get_type_name(proto.return_type_idx) {
            Ok(v) => v,
            Err(e) => {
                return Err(e);
            },
        };
        let parameters = match get_type_names(&self.parser, &proto.parameters) {
            Ok(v) => v,
            Err(e) => {
                return Err(e);
            },
        };
        let mut full_signature = class_name.clone();
        full_signature.append(".");
        full_signature.append(method_name.as_str());
        full_signature.append("(");
        full_signature.append(join(&parameters, ", ").as_str());
        full_signature.append("): ");
        full_signature.append(return_type.as_str());
        Ok(MethodSignature { class_name, method_name, parameters, return_type, full_signature })
    }

    /// Resolve multiple method indices.
    pub fn resolve_many(&self, method_indices: &[u32]) -> (results: Vec<
        Result<MethodSignature, DexError>,
    >)
        ensures
            results@.len() == method_indices@.len(),
            forall|k: int|
                0 <= k < results@.len() ==> ok_view_as(
                    #[trigger] results@[k],
                    resolve_spec(self.parser.data@, self.parser.header, method_indices@[k]),
                ),
    {
        let mut results: Vec<Result<MethodSignature, DexError>> = Vec::new();
        let mut k: usize = 0;
        while k < method_indices.len()
            invariant
                k <= method_indices@.len(),
                results@.len() == k,
                forall|j: int|
                    0 <= j < k ==> ok_view_as(
                        #[trigger] results@[j],
                        resolve_spec(self.parser.data@, self.parser.header, method_indices@[j]),
                    ),
            decreases method_indices@.len() - k,
        {
            results.push(self.resolve(method_indices[k]));
            k += 1;
        }
        results
    }
}

/// The signature of the method with index `idx` in the image `data`, if
/// `data` is a DEX image and the method resolves in it.
#[verifier::opaque]
pub open spec fn resolve_in_image(data: Seq<u8>, idx: u32) -> Option<MethodSignatureView> {
    if header_error(data) is Some {
        None
    } else {
        match resolve_spec(data, header_of(data), idx) {
            Ok(signature) => Some(signature),
            Err(_) => None,
        }
    }
}

/// The error of a method index that resolves in no DEX file.
pub open spec fn method_index_not_found(idx: u32) -> Seq<char> {
    "Method index "@ + decimal(idx as nat) + " not found in any DEX file"@
}

/// The signature of the method with index `idx`, from the first DEX file
/// from index `from` on in which it resolves.
pub open spec fn resolve_in_entries(entries: Seq<DexEntryView>, idx: u32, from: nat) -> Result<
    MethodSignatureView,
    Seq<char>,
>
    decreases entries.len() - from,
{
    if from >= entries.len() {
        Err(method_index_not_found(idx))
    } else {
        match resolve_in_image(entries[from as int].data, idx) {
            Some(signature) => Ok(signature),
            None => resolve_in_entries(entries, idx, from + 1),
        }
    }
}

fn resolve_in_entry(entry: &DexEntry, method_idx: u32) -> (found: Option<MethodSignature>)
    ensures
        match found {
            Some(signature) => resolve_in_image(entry@.data, method_idx) == Some(signature@),
            None => resolve_in_image(entry@.data, method_idx) is None,
        },
{
    proof {
        reveal(resolve_in_image);
    }
    match DexParser::new(entry.data.clone()) {
        Ok(parser) => {
            proof {
                lemma_header_unique(parser.header, header_of(entry.data@), entry.data@);
            }
            let resolver = MethodResolver::new(parser);
            match resolver.resolve(method_idx) {
                Ok(signature) => Some(signature),
                Err(_) => None,
            }
        },
        Err(_) => None,
    }
}

/// Resolve method index from the DEX files of an APK: the signature from
/// the first DEX file in which the index resolves.
pub fn resolve_method_from_apk(dex_entries: &[DexEntry], method_idx: u32) -> (r: Result<
    MethodSignature,
    String,
>)
    ensures
        match r {
            Ok(signature) => resolve_in_entries(dex_entry_views(dex_entries@), method_idx, 0)
                == Ok::<MethodSignatureView, Seq<char>>(signature@),
            Err(e) => resolve_in_entries(dex_entry_views(dex_entries@), method_idx, 0) == Err::<
                MethodSignatureView,
                Seq<char>,
            >(e@),
        },
{
    let ghost entries = dex_entry_views(dex_entries@);
    let mut k: usize = 0;
    while k < dex_entries.len()
        invariant
            k <= dex_entries@.len(),
            entries == dex_entry_views(dex_entries@),
            resolve_in_entries(entries, method_idx, 0) == resolve_in_entries(
                entries,
                method_idx,
                k as nat,
            ),
        decreases dex_entries@.len() - k,
    {
        assert(entries[k as int] == dex_entries@[k as int]@);
        match resolve_in_entry(&dex_entries[k], method_idx) {
            Some(signature) => {
                return Ok(signature);
            },
            None => {},
        }
        k += 1;
    }
    let mut message = owned("Method index ");
    crate::text::push_decimal(&mut message, method_idx as u64);
    message.append(" not found in any DEX file");
    Err(message)
}

} // verus!
