//! The expansion of a script function: which items are generated, under
//! which names, with which metadata.

use vstd::prelude::*;
use crate::attrs::{
    attr_error_message,
    parse_script_attrs, spec_parse_script_attrs, AttrError, AttrErrorView, AttrToken,
    ScriptAttrs, ScriptAttrsView,
};
use crate::script_default_job::{
    expand_default_job, spec_expand_default_job, DefaultJobExpansion, DefaultJobExpansionView,
};
use crate::metadata::{
    signature_map, map_json, spec_signature_hash,
    metadata_error_message,
    build_signature_metadata, deref_params, pat_name, spec_build_signature_metadata, MetadataError,
    MetadataErrorView, all_simple_idents,
};
use crate::naming::{
    ends_with, lemma_script_type_name_ends_with_script, generated_type_names, internal_fn_name, spec_internal_fn_name, spec_params_struct_name,
    spec_script_type_name,
};
use crate::signature::{
    spec_is_result_unit, spec_is_script_context_param, ReturnModel,
    signature_error_message,
    collect_script_params, params_after_context_ok, spec_validate_signature, validate_signature,
    FnArgModel, FnSignature, PatModel, SignatureError, TypedParam,
};
use crate::text::{option_view, result_view};

verus! {

/// What is generated for a script function.
///
/// - a parameters struct `params_struct_name` (a unit struct where
///   `is_unit_struct`, else one field per parameter after the context);
/// - a handle function named `fn_name` and a script type
///   `script_type_name` whose `NAME` is `script_name`;
/// - the user function, renamed `internal_fn_name`;
/// - a registered descriptor for `script_name` whose invoker passes
///   `params.<name>` for each of `param_names`, with `signature_json` and
///   `signature_hash`;
/// - the default-job bootstrap, where one was asked for.
#[derive(Debug)]
pub struct ScriptExpansion {
    pub script_name: String,
    pub fn_name: String,
    pub params_struct_name: String,
    pub script_type_name: String,
    pub internal_fn_name: String,
    pub is_unit_struct: bool,
    pub param_names: Vec<String>,
    pub signature_json: String,
    pub signature_hash: u64,
    pub default_job: Option<DefaultJobExpansion>,
}

/// Mathematical form of a [`ScriptExpansion`].
pub struct ScriptExpansionView {
    pub script_name: Seq<char>,
    pub fn_name: Seq<char>,
    pub params_struct_name: Seq<char>,
    pub script_type_name: Seq<char>,
    pub internal_fn_name: Seq<char>,
    pub is_unit_struct: bool,
    pub param_names: Seq<Seq<char>>,
    pub signature_json: Seq<char>,
    pub signature_hash: u64,
    pub default_job: Option<DefaultJobExpansionView>,
}

/// The views of strings.
pub open spec fn string_views(v: Seq<String>) -> Seq<Seq<char>> {
    v.map_values(|s: String| s@)
}

impl View for ScriptExpansion {
    type V = ScriptExpansionView;

    open spec fn view(&self) -> ScriptExpansionView {
        ScriptExpansionView {
            script_name: self.script_name@,
            fn_name: self.fn_name@,
            params_struct_name: self.params_struct_name@,
            script_type_name: self.script_type_name@,
            internal_fn_name: self.internal_fn_name@,
            is_unit_struct: self.is_unit_struct,
            param_names: string_views(self.param_names@),
            signature_json: self.signature_json@,
            signature_hash: self.signature_hash,
            default_job: option_view(self.default_job),
        }
    }
}

/// Why a script could not be expanded.
#[derive(Debug)]
pub enum ScriptError {
    Attr(AttrError),
    Signature(SignatureError),
    Metadata(MetadataError),
}

/// Mathematical form of a [`ScriptError`].
pub enum ScriptErrorView {
    Attr(AttrErrorView),
    Signature(SignatureError),
    Metadata(MetadataErrorView),
}

impl View for ScriptError {
    type V = ScriptErrorView;

    open spec fn view(&self) -> ScriptErrorView {
        match self {
            ScriptError::Attr(e) => ScriptErrorView::Attr(e@),
            ScriptError::Signature(e) => ScriptErrorView::Signature(*e),
            ScriptError::Metadata(e) => ScriptErrorView::Metadata(e@),
        }
    }
}

/// The diagnostic text of a script error.
pub open spec fn script_error_message(e: ScriptErrorView) -> Seq<char> {
    match e {
        ScriptErrorView::Attr(a) => attr_error_message(a),
        ScriptErrorView::Signature(s) => signature_error_message(s),
        ScriptErrorView::Metadata(m) => metadata_error_message(m),
    }
}

impl ScriptError {
    /// The diagnostic text, which the macro reports as a compile error.
    pub fn message(&self) -> (m: String)
        ensures
            m@ == script_error_message(self@),
    {
        match self {
            ScriptError::Attr(a) => a.message(),
            ScriptError::Signature(s) => s.message(),
            ScriptError::Metadata(m) => m.message(),
        }
    }
}

/// The typed parameter of an input (a receiver has none).
pub open spec fn typed_of(a: FnArgModel) -> TypedParam {
    match a {
        FnArgModel::Typed(p) => p,
        FnArgModel::Receiver => arbitrary(),
    }
}

/// The parameters after the context parameter.
pub open spec fn context_params(sig: FnSignature) -> Seq<TypedParam> {
    if sig.inputs@.len() == 0 {
        Seq::empty()
    } else {
        sig.inputs@.skip(1).map_values(|a: FnArgModel| typed_of(a))
    }
}

/// The expansion of a script function with parsed attributes.
pub open spec fn spec_expand_script(attrs: ScriptAttrsView, sig: FnSignature) -> Result<
    ScriptExpansionView,
    ScriptErrorView,
> {
    if !params_after_context_ok(sig) {
        Err(ScriptErrorView::Signature(SignatureError::MethodNotSupported))
    } else {
        let ps = context_params(sig);
        match spec_build_signature_metadata(ps) {
            Err(e) => Err(ScriptErrorView::Metadata(e)),
            Ok((json, hash)) => Ok(
                ScriptExpansionView {
                    script_name: attrs.name,
                    fn_name: sig.ident@,
                    params_struct_name: spec_params_struct_name(sig.ident@),
                    script_type_name: spec_script_type_name(sig.ident@),
                    internal_fn_name: spec_internal_fn_name(sig.ident@),
                    is_unit_struct: ps.len() == 0,
                    param_names: ps.map_values(|p: TypedParam| pat_name(p.pat)),
                    signature_json: json,
                    signature_hash: hash,
                    default_job: match attrs.default_job {
                        Some(dj) => Some(
                            spec_expand_default_job(dj, sig.ident@, spec_script_type_name(sig.ident@)),
                        ),
                        None => None,
                    },
                },
            ),
        }
    }
}

/// The names the invoker passes, `params.<name>` each; a parameter that is
/// no simple identifier is refused.
fn param_accessors(params: &Vec<&TypedParam>) -> (r: Result<Vec<String>, MetadataError>)
    ensures
        r is Ok <==> all_simple_idents(deref_params(params@)),
        r matches Ok(names) ==> string_views(names@) == deref_params(params@).map_values(
            |p: TypedParam| pat_name(p.pat),
        ),
        r matches Err(e) ==> e@ == MetadataErrorView::ParamNotSimpleIdent,
{
    let ghost ps = deref_params(params@);
    let mut names: Vec<String> = Vec::new();
    let n = params.len();
    let mut i: usize = 0;
    while i < n
        invariant
            n == params@.len(),
            ps == deref_params(params@),
            ps.len() == n,
            i <= n,
            names@.len() == i,
            forall|j: int| 0 <= j < i ==> #[trigger] ps[j].pat is Ident,
            string_views(names@) == ps.take(i as int).map_values(|p: TypedParam| pat_name(p.pat)),
        decreases n - i,
    {
        proof {
            assert(ps[i as int] == *params@[i as int]);
        }
        let ghost before = names@;
        match &params[i].pat {
            PatModel::Ident(name) => {
                names.push(name.clone());
                proof {
                    assert(names@ == before.push(*name));
                    assert(pat_name(ps[i as int].pat) == name@);
                    let next = ps.take(i + 1).map_values(|p: TypedParam| pat_name(p.pat));
                    let prev = ps.take(i as int).map_values(|p: TypedParam| pat_name(p.pat));
                    assert(before.len() == i);
                    assert forall|j: int| 0 <= j < i + 1 implies string_views(names@)[j] == next[j] by {
                        if j < i {
                            assert(names@[j] == before[j]);
                            assert(string_views(before)[j] == prev[j]);
                        }
                    }
                    assert(string_views(names@) =~= next);
                }
            },
            PatModel::Other => {
                proof {
                    assert(ps[i as int].pat is Other);
                }
                return Err(MetadataError::ParamNotSimpleIdent);
            },
        }
        i += 1;
    }
    proof {
        assert(ps.take(n as int) =~= ps);
    }
    Ok(names)
}

/// Expands a script function whose signature was validated: collects the
/// parameters after the context, builds the signature metadata, and derives
/// the names of the generated items.
pub fn expand_script(attrs: ScriptAttrs, sig: &FnSignature) -> (res: Result<ScriptExpansion, ScriptError>)
    ensures
        result_view(res) == spec_expand_script(attrs@, *sig),
{
    let ghost attrs_view = attrs@;
    let params = match collect_script_params(sig) {
        Ok(ps) => ps,
        Err(e) => return Err(ScriptError::Signature(e)),
    };
    proof {
        let d = deref_params(params@);
        let c = context_params(*sig);
        assert(d.len() == c.len());
        assert forall|i: int| 0 <= i < d.len() implies d[i] == c[i] by {
            assert(sig.inputs@[i + 1] == FnArgModel::Typed(*params@[i]));
            assert(sig.inputs@.skip(1)[i] == sig.inputs@[i + 1]);
        }
        assert(d =~= c);
    }
    let (signature_json, signature_hash) = match build_signature_metadata(&params) {
        Ok(m) => m,
        Err(e) => return Err(ScriptError::Metadata(e)),
    };
    let (params_struct_name, script_type_name) = generated_type_names(sig.ident.as_str());
    let internal = internal_fn_name(sig.ident.as_str());
    let is_unit_struct = params.len() == 0;
    let param_names = match param_accessors(&params) {
        Ok(names) => names,
        Err(e) => return Err(ScriptError::Metadata(e)),
    };
    let default_job = match &attrs.default_job {
        Some(dj) => Some(expand_default_job(dj, sig.ident.as_str(), script_type_name.as_str())),
        None => None,
    };
    Ok(
        ScriptExpansion {
            script_name: attrs.name,
            fn_name: sig.ident.clone(),
            params_struct_name,
            script_type_name,
            internal_fn_name: internal,
            is_unit_struct,
            param_names,
            signature_json,
            signature_hash,
            default_job,
        },
    )
}

/// The whole expansion: attribute arguments, then the signature rules, then
/// the expansion.
pub open spec fn spec_script_impl(attr: Seq<AttrToken>, sig: FnSignature) -> Result<
    ScriptExpansionView,
    ScriptErrorView,
> {
    match spec_parse_script_attrs(attr) {
        Err(e) => Err(ScriptErrorView::Attr(e)),
        Ok(attrs) => match spec_validate_signature(sig) {
            Err(e) => Err(ScriptErrorView::Signature(e)),
            Ok(()) => spec_expand_script(attrs, sig),
        },
    }
}

/// Parses the attribute arguments, checks the signature and expands the
/// script function.
pub fn script_impl_impl(attr: &Vec<AttrToken>, sig: &FnSignature) -> (res: Result<
    ScriptExpansion,
    ScriptError,
>)
    ensures
        result_view(res) == spec_script_impl(attr@, *sig),
{
    let attrs = match parse_script_attrs(attr) {
        Ok(a) => a,
        Err(e) => return Err(ScriptError::Attr(e)),
    };
    match validate_signature(sig) {
        Ok(()) => {},
        Err(e) => return Err(ScriptError::Signature(e)),
    }
    expand_script(attrs, sig)
}

/// A script function expands exactly when the attribute arguments parse,
/// the function is `async`, takes a named `Box<dyn ScriptContext>` first,
/// returns `Result<()>`, and every later parameter is a typed simple
/// identifier. Then the
/// registered name is the `name` argument, the script type's name ends with
/// `Script`, the parameters struct is a unit struct exactly when the context
/// is the only parameter, and the hash is that of the signature JSON.
pub proof fn lemma_expansion_requirements(attr: Seq<AttrToken>, sig: FnSignature)
    ensures
        spec_script_impl(attr, sig) is Ok <==> {
            &&& spec_parse_script_attrs(attr) is Ok
            &&& sig.is_async
            &&& sig.inputs@.len() > 0
            &&& sig.inputs@[0] matches FnArgModel::Typed(p) && p.pat is Ident
                && spec_is_script_context_param(p.ty)
            &&& sig.output matches ReturnModel::Type(t) && spec_is_result_unit(t)
            &&& params_after_context_ok(sig)
            &&& all_simple_idents(context_params(sig))
        },
        spec_script_impl(attr, sig) matches Ok(x) ==> {
            &&& x.script_name == spec_parse_script_attrs(attr)->Ok_0.name
            &&& ends_with(x.script_type_name, "Script"@)
            &&& (x.is_unit_struct <==> sig.inputs@.len() == 1)
            &&& x.signature_hash == spec_signature_hash(x.signature_json)
            &&& x.signature_json == map_json(signature_map(context_params(sig)))
        },
{
    lemma_script_type_name_ends_with_script(sig.ident@);
}

/// The default job's bootstrap schedules through the script type that the
/// expansion itself generates, the one named after the function (whatever the
/// `name` argument), and carries the parsed job unchanged; there is a
/// bootstrap exactly when a `default_job(...)` was given.
pub proof fn lemma_default_job_uses_generated_type(attrs: ScriptAttrsView, sig: FnSignature)
    ensures
        spec_expand_script(attrs, sig) matches Ok(x) ==> {
            &&& x.script_type_name == spec_script_type_name(sig.ident@)
            &&& (x.default_job is Some <==> attrs.default_job is Some)
            &&& x.default_job matches Some(d) ==> {
                &&& d.script_type_name == x.script_type_name
                &&& d.job_name == attrs.default_job->0.job_name
                &&& d.schedule == attrs.default_job->0.schedule
            }
        },
{
}

} // verus!
