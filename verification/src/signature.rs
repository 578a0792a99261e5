//! The function signature a script must have, over a model of its syntax.

use vstd::prelude::*;

verus! {

/// A Rust type, as far as the signature rules read it.
#[derive(Debug)]
pub enum TypeModel {
    /// A path type such as `Box<dyn T>`; `qself` tells a qualified path `<T as U>::V`.
    Path(TypePathModel),
    /// A trait object `dyn A + B`: its bounds.
    TraitObject(Vec<BoundModel>),
    /// A tuple type: its element types (none for `()`).
    Tuple(Vec<TypeModel>),
    /// Any other type (reference, slice, parenthesized, ...).
    Other,
}

/// A path type.
#[derive(Debug)]
pub struct TypePathModel {
    pub qself: bool,
    pub segments: Vec<PathSegmentModel>,
}

/// One segment of a path: its identifier and its arguments.
#[derive(Debug)]
pub struct PathSegmentModel {
    pub ident: String,
    pub arguments: PathArgsModel,
}

/// The arguments of a path segment.
#[derive(Debug)]
pub enum PathArgsModel {
    NoArgs,
    /// `<A, B>`: every argument, lifetimes and constants included.
    AngleBracketed(Vec<GenericArgModel>),
    /// `(A, B) -> C`.
    Parenthesized,
}

/// One generic argument.
#[derive(Debug)]
pub enum GenericArgModel {
    Type(TypeModel),
    /// A lifetime, a constant, a binding or a constraint.
    Other,
}

/// One bound of a trait object.
#[derive(Debug)]
pub enum BoundModel {
    /// A trait bound: the identifiers of the segments of the trait's path.
    Trait(Vec<String>),
    /// A lifetime or another bound.
    Other,
}

/// The pattern of a parameter.
#[derive(Debug)]
pub enum PatModel {
    /// A binding `x`, `mut x`, `ref x` or `x @ p`: the bound identifier.
    Ident(String),
    /// A destructuring or other pattern.
    Other,
}

/// A typed parameter `pat: ty`; `ty_text` is the type's token text.
#[derive(Debug)]
pub struct TypedParam {
    pub pat: PatModel,
    pub ty: TypeModel,
    pub ty_text: String,
}

/// One input of a function.
#[derive(Debug)]
pub enum FnArgModel {
    /// `self`, `&self`, `mut self`, ...
    Receiver,
    Typed(TypedParam),
}

/// The declared return type.
#[derive(Debug)]
pub enum ReturnModel {
    /// No `->`.
    Default,
    Type(TypeModel),
}

/// A function signature.
#[derive(Debug)]
pub struct FnSignature {
    pub is_async: bool,
    pub ident: String,
    pub inputs: Vec<FnArgModel>,
    pub output: ReturnModel,
}

/// Why a signature is refused.
#[derive(Debug, Clone, Copy, PartialEq, Eq, Structural)]
pub enum SignatureError {
    NotAsync,
    MissingContext,
    MethodNotSupported,
    ContextNotNamed,
    ContextWrongType,
    WrongReturnType,
}

/// The diagnostic text of a signature error.
pub open spec fn signature_error_message(e: SignatureError) -> Seq<char> {
    match e {
        SignatureError::NotAsync => "#[chronon_coordinator_macros::script] function must be async"@,
        SignatureError::MissingContext => "#[chronon_coordinator_macros::script] function must accept Box<dyn ScriptContext> as the first parameter"@,
        SignatureError::MethodNotSupported => "#[chronon_coordinator_macros::script] methods are not supported; use a free function"@,
        SignatureError::ContextNotNamed => "#[chronon_coordinator_macros::script] first parameter must be a named ScriptContext binding"@,
        SignatureError::ContextWrongType => "#[chronon_coordinator_macros::script] first parameter must be Box<dyn ScriptContext>"@,
        SignatureError::WrongReturnType => "#[chronon_coordinator_macros::script] return type must be Result<()> (for example anyhow::Result<()>)"@,
    }
}

impl SignatureError {
    /// The diagnostic text.
    pub fn message(&self) -> (m: String)
        ensures
            m@ == signature_error_message(*self),
    {
        match self {
            SignatureError::NotAsync => String::from_str("#[chronon_coordinator_macros::script] function must be async"),
            SignatureError::MissingContext => String::from_str("#[chronon_coordinator_macros::script] function must accept Box<dyn ScriptContext> as the first parameter"),
            SignatureError::MethodNotSupported => String::from_str("#[chronon_coordinator_macros::script] methods are not supported; use a free function"),
            SignatureError::ContextNotNamed => String::from_str("#[chronon_coordinator_macros::script] first parameter must be a named ScriptContext binding"),
            SignatureError::ContextWrongType => String::from_str("#[chronon_coordinator_macros::script] first parameter must be Box<dyn ScriptContext>"),
            SignatureError::WrongReturnType => String::from_str("#[chronon_coordinator_macros::script] return type must be Result<()> (for example anyhow::Result<()>)"),
        }
    }
}

/// The bound is a trait whose path ends in `ScriptContext`.
pub open spec fn bound_is_script_context(b: BoundModel) -> bool {
    b matches BoundModel::Trait(path) && path@.len() > 0 && path@.last()@ == "ScriptContext"@
}

/// A segment without arguments with the given identifier.
pub open spec fn bare_segment(s: PathSegmentModel, ident: Seq<char>) -> bool {
    s.ident@ == ident && s.arguments is NoArgs
}

/// A path that names `Box`: `Box`, `std::boxed::Box` or `alloc::boxed::Box`
/// (with or without a leading `::`); the last segment is `Box`.
pub open spec fn names_box(segs: Seq<PathSegmentModel>) -> bool {
    &&& segs.len() > 0
    &&& segs.last().ident@ == "Box"@
    &&& (segs.len() == 1 || (segs.len() == 3 && (bare_segment(segs[0], "std"@) || bare_segment(
        segs[0],
        "alloc"@,
    )) && bare_segment(segs[1], "boxed"@)))
}

/// `Box<dyn ... + ScriptContext + ...>`: an unqualified path that names `Box`,
/// with angle-bracketed arguments, the first of which is a trait object with
/// a bound whose path ends in `ScriptContext`.
pub open spec fn spec_is_script_context_param(ty: TypeModel) -> bool {
    match ty {
        TypeModel::Path(p) => !p.qself && names_box(p.segments@)
            && match p.segments@.last().arguments {
            PathArgsModel::AngleBracketed(args) => args@.len() > 0 && match args@[0] {
                GenericArgModel::Type(TypeModel::TraitObject(bounds)) => exists|i: int|
                    0 <= i < bounds@.len() && #[trigger] bound_is_script_context(bounds@[i]),
                _ => false,
            },
            _ => false,
        },
        _ => false,
    }
}

/// `...::Result<()>`: an unqualified path whose last segment is `Result` with
/// exactly one angle-bracketed argument, the empty tuple.
pub open spec fn spec_is_result_unit(ty: TypeModel) -> bool {
    match ty {
        TypeModel::Path(p) => !p.qself && p.segments@.len() > 0 && p.segments@.last().ident@
            == "Result"@ && match p.segments@.last().arguments {
            PathArgsModel::AngleBracketed(args) => args@.len() == 1 && (args@[0] matches GenericArgModel::Type(
                TypeModel::Tuple(elems),
            ) && elems@.len() == 0),
            _ => false,
        },
        _ => false,
    }
}

/// The rules on the first parameter: present, typed, a named binding, of the
/// context type.
pub open spec fn spec_validate_first_parameter(sig: FnSignature) -> Result<(), SignatureError> {
    if sig.inputs@.len() == 0 {
        Err(SignatureError::MissingContext)
    } else {
        match sig.inputs@[0] {
            FnArgModel::Receiver => Err(SignatureError::MethodNotSupported),
            FnArgModel::Typed(p) => if !(p.pat is Ident) {
                Err(SignatureError::ContextNotNamed)
            } else if !spec_is_script_context_param(p.ty) {
                Err(SignatureError::ContextWrongType)
            } else {
                Ok(())
            },
        }
    }
}

/// The rule on the return type.
pub open spec fn spec_validate_return_type(sig: FnSignature) -> Result<(), SignatureError> {
    match sig.output {
        ReturnModel::Type(ty) => if spec_is_result_unit(ty) {
            Ok(())
        } else {
            Err(SignatureError::WrongReturnType)
        },
        ReturnModel::Default => Err(SignatureError::WrongReturnType),
    }
}

/// All the rules, checked in order: `async`, first parameter, return type.
pub open spec fn spec_validate_signature(sig: FnSignature) -> Result<(), SignatureError> {
    if !sig.is_async {
        Err(SignatureError::NotAsync)
    } else {
        match spec_validate_first_parameter(sig) {
            Err(e) => Err(e),
            Ok(()) => spec_validate_return_type(sig),
        }
    }
}

fn is_bare_segment(s: &PathSegmentModel, ident: &str) -> (b: bool)
    ensures
        b == bare_segment(*s, ident@),
{
    crate::text::same_text(s.ident.as_str(), ident) && match s.arguments {
        PathArgsModel::NoArgs => true,
        _ => false,
    }
}

fn names_box_exec(segs: &Vec<PathSegmentModel>) -> (b: bool)
    ensures
        b == names_box(segs@),
{
    let n = segs.len();
    if n == 0 || !crate::text::same_text(segs[n - 1].ident.as_str(), "Box") {
        return false;
    }
    n == 1 || (n == 3 && (is_bare_segment(&segs[0], "std") || is_bare_segment(&segs[0], "alloc"))
        && is_bare_segment(&segs[1], "boxed"))
}

#[verifier::loop_isolation(false)]
fn is_script_context_param(ty: &TypeModel) -> (b: bool)
    ensures
        b == spec_is_script_context_param(*ty),
{
    let p = match ty {
        TypeModel::Path(p) => p,
        _ => return false,
    };
    if p.qself || !names_box_exec(&p.segments) {
        return false;
    }
    let box_seg = &p.segments[p.segments.len() - 1];
    let args = match &box_seg.arguments {
        PathArgsModel::AngleBracketed(args) => args,
        _ => return false,
    };
    if args.len() == 0 {
        return false;
    }
    let bounds = match &args[0] {
        GenericArgModel::Type(TypeModel::TraitObject(bounds)) => bounds,
        _ => return false,
    };
    let mut i: usize = 0;
    while i < bounds.len()
        invariant
            i <= bounds@.len(),
            forall|j: int| 0 <= j < i ==> !bound_is_script_context(#[trigger] bounds@[j]),
        decreases bounds@.len() - i,
    {
        match &bounds[i] {
            BoundModel::Trait(path) => {
                if path.len() > 0 && crate::text::same_text(
                    path[path.len() - 1].as_str(),
                    "ScriptContext",
                ) {
                    assert(bound_is_script_context(bounds@[i as int]));
                    return true;
                }
            },
            BoundModel::Other => {},
        }
        i += 1;
    }
    false
}

fn is_result_unit(ty: &TypeModel) -> (b: bool)
    ensures
        b == spec_is_result_unit(*ty),
{
    let p = match ty {
        TypeModel::Path(p) => p,
        _ => return false,
    };
    if p.qself || p.segments.len() == 0 {
        return false;
    }
    let last_segment = &p.segments[p.segments.len() - 1];
    if !crate::text::same_text(last_segment.ident.as_str(), "Result") {
        return false;
    }
    let args = match &last_segment.arguments {
        PathArgsModel::AngleBracketed(args) => args,
        _ => return false,
    };
    if args.len() != 1 {
        return false;
    }
    match &args[0] {
        GenericArgModel::Type(TypeModel::Tuple(elems)) => elems.len() == 0,
        _ => false,
    }
}

fn validate_first_parameter(sig: &FnSignature) -> (r: Result<(), SignatureError>)
    ensures
        r == spec_validate_first_parameter(*sig),
{
    if sig.inputs.len() == 0 {
        return Err(SignatureError::MissingContext);
    }
    let pat_type = match &sig.inputs[0] {
        FnArgModel::Typed(p) => p,
        FnArgModel::Receiver => return Err(SignatureError::MethodNotSupported),
    };
    match &pat_type.pat {
        PatModel::Ident(_) => {},
        PatModel::Other => return Err(SignatureError::ContextNotNamed),
    }
    if !is_script_context_param(&pat_type.ty) {
        return Err(SignatureError::ContextWrongType);
    }
    Ok(())
}

fn validate_return_type(sig: &FnSignature) -> (r: Result<(), SignatureError>)
    ensures
        r == spec_validate_return_type(*sig),
{
    match &sig.output {
        ReturnModel::Type(ty) => if is_result_unit(ty) {
            Ok(())
        } else {
            Err(SignatureError::WrongReturnType)
        },
        ReturnModel::Default => Err(SignatureError::WrongReturnType),
    }
}

/// Checks that a script function is `async`, takes `Box<dyn ScriptContext>`
/// as a named first parameter, and returns `Result<()>`.
pub fn validate_signature(sig: &FnSignature) -> (r: Result<(), SignatureError>)
    ensures
        r == spec_validate_signature(*sig),
{
    if !sig.is_async {
        return Err(SignatureError::NotAsync);
    }
    validate_first_parameter(sig)?;
    validate_return_type(sig)?;
    Ok(())
}

/// The parameters after the context: all typed, one for each input after the first.
pub open spec fn params_after_context_ok(sig: FnSignature) -> bool {
    forall|i: int| 1 <= i < sig.inputs@.len() ==> #[trigger] sig.inputs@[i] is Typed
}

/// Collects the parameters after the context parameter; a receiver among them
/// is refused.
pub fn collect_script_params<'a>(sig: &'a FnSignature) -> (res: Result<Vec<&'a TypedParam>, SignatureError>)
    ensures
        res is Ok <==> params_after_context_ok(*sig),
        res matches Err(e) ==> e == SignatureError::MethodNotSupported,
        res matches Ok(ps) ==> {
            &&& ps@.len() == if sig.inputs@.len() == 0 { 0 } else { sig.inputs@.len() - 1 }
            &&& forall|i: int|
                0 <= i < ps@.len() ==> sig.inputs@[i + 1] == FnArgModel::Typed(*#[trigger] ps@[i])
        },
{
    let mut ps: Vec<&'a TypedParam> = Vec::new();
    let n = sig.inputs.len();
    let mut i: usize = 1;
    while i < n
        invariant
            n == sig.inputs@.len(),
            1 <= i,
            i <= n || (n == 0 && i == 1),
            ps@.len() == i - 1,
            forall|j: int| 1 <= j < i ==> #[trigger] sig.inputs@[j] is Typed,
            forall|j: int| 0 <= j < ps@.len() ==> sig.inputs@[j + 1] == FnArgModel::Typed(*#[trigger] ps@[j]),
        decreases n - i,
    {
        match &sig.inputs[i] {
            FnArgModel::Typed(p) => {
                ps.push(p);
            },
            FnArgModel::Receiver => {
                return Err(SignatureError::MethodNotSupported);
            },
        }
        i += 1;
    }
    Ok(ps)
}

/// The context parameter's type is always a `Box`: an unqualified path whose
/// last segment is `Box`, behind nothing or behind `std::boxed` /
/// `alloc::boxed`; so `Arc<dyn ScriptContext>` or `foo::Box<..>` is refused.
pub proof fn lemma_context_type_is_box(ty: TypeModel)
    ensures
        spec_is_script_context_param(ty) ==> {
            &&& ty matches TypeModel::Path(p)
            &&& !p.qself
            &&& p.segments@.len() == 1 || p.segments@.len() == 3
            &&& p.segments@.last().ident@ == "Box"@
            &&& p.segments@.len() == 3 ==> (p.segments@[0].ident@ == "std"@ || p.segments@[0].ident@
                == "alloc"@) && p.segments@[1].ident@ == "boxed"@
        },
{
}

} // verus!
