//! A verified model of the `#[script]` attribute macro of the Chronon
//! coordinator: the grammar of its arguments, the signature a script function
//! must have, the naming rules, the signature metadata and the plan of the
//! generated items.

mod text;
mod order;
pub mod naming;
pub mod attrs;
pub mod script_default_job;
pub mod signature;
pub mod metadata;
pub mod expand;

pub use attrs::{parse_script_attrs, AttrError, AttrToken, Delimiter, ScriptAttrs};
pub use expand::{expand_script, script_impl_impl, ScriptError, ScriptExpansion};
pub use metadata::{build_signature_metadata, MetadataError};
pub use naming::to_pascal_case;
pub use script_default_job::{
    expand_default_job, parse_default_job, DefaultJobExpansion, DefaultJobSchedule, DefaultJobSpec,
};
pub use signature::{
    collect_script_params, validate_signature, BoundModel, FnArgModel, FnSignature,
    GenericArgModel, PatModel, PathArgsModel, PathSegmentModel, ReturnModel, SignatureError,
    TypeModel, TypePathModel, TypedParam,
};
