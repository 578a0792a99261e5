use std::hash::{DefaultHasher, Hash, Hasher};

use chronon_script_model::{
    script_impl_impl, AttrToken, BoundModel, Delimiter, DefaultJobSchedule, FnArgModel,
    FnSignature, GenericArgModel, MetadataError, PatModel, PathArgsModel, PathSegmentModel,
    ReturnModel, ScriptError, SignatureError, TypeModel, TypePathModel, TypedParam,
};

fn ident(s: &str) -> AttrToken {
    AttrToken::Ident(s.to_string())
}

fn punct(c: char) -> AttrToken {
    AttrToken::Punct(c)
}

fn lit(text: &str) -> AttrToken {
    AttrToken::Literal(text.to_string())
}

fn parens(inner: Vec<AttrToken>) -> AttrToken {
    AttrToken::Group(Delimiter::Parenthesis, inner)
}

/// `name = "<name>"`
fn name_attr(name: &str) -> Vec<AttrToken> {
    vec![ident("name"), punct('='), lit(&format!("\"{name}\""))]
}

fn seg(ident: &str, arguments: PathArgsModel) -> PathSegmentModel {
    PathSegmentModel { ident: ident.to_string(), arguments }
}

fn path(segments: Vec<PathSegmentModel>) -> TypeModel {
    TypeModel::Path(TypePathModel { qself: false, segments })
}

fn simple(ident: &str) -> TypeModel {
    path(vec![seg(ident, PathArgsModel::NoArgs)])
}

fn context_type() -> TypeModel {
    path(vec![seg(
        "Box",
        PathArgsModel::AngleBracketed(vec![GenericArgModel::Type(TypeModel::TraitObject(vec![
            BoundModel::Trait(vec!["chronon_core".to_string(), "ScriptContext".to_string()]),
        ]))]),
    )])
}

fn anyhow_result_unit() -> ReturnModel {
    ReturnModel::Type(path(vec![
        seg("anyhow", PathArgsModel::NoArgs),
        seg(
            "Result",
            PathArgsModel::AngleBracketed(vec![GenericArgModel::Type(TypeModel::Tuple(vec![]))]),
        ),
    ]))
}

fn param(name: &str, ty: TypeModel, text: &str) -> FnArgModel {
    FnArgModel::Typed(TypedParam { pat: PatModel::Ident(name.to_string()), ty, ty_text: text.to_string() })
}

fn ctx() -> FnArgModel {
    param("ctx", context_type(), "Box < dyn chronon_core :: ScriptContext >")
}

/// `pub async fn <ident>(ctx: Box<dyn chronon_core::ScriptContext>, <rest>) -> anyhow::Result<()>`
fn script_fn(ident: &str, rest: Vec<FnArgModel>) -> FnSignature {
    let mut inputs = vec![ctx()];
    inputs.extend(rest);
    FnSignature { is_async: true, ident: ident.to_string(), inputs, output: anyhow_result_unit() }
}

fn std_hash(text: &str) -> u64 {
    let mut hasher = DefaultHasher::new();
    text.to_string().hash(&mut hasher);
    hasher.finish()
}

#[test]
fn script_impl_impl_rejects_non_identifier_params_sad() {
    // (a, b): (String, String)
    let pair = FnArgModel::Typed(TypedParam {
        pat: PatModel::Other,
        ty: TypeModel::Tuple(vec![simple("String"), simple("String")]),
        ty_text: "(String , String)".to_string(),
    });
    let error = script_impl_impl(&name_attr("bad_params"), &script_fn("bad_params", vec![pair]))
        .expect_err("destructured parameters must fail");
    assert!(error.message().contains("parameters after ScriptContext must be simple identifiers"));
}

#[test]
fn script_impl_impl_expands_valid_function_happy() {
    let expansion = script_impl_impl(
        &name_attr("daily_cleanup"),
        &script_fn("daily_cleanup", vec![param("dry_run", simple("bool"), "bool")]),
    )
    .expect("valid script should expand");

    assert_eq!(expansion.params_struct_name, "DailyCleanupParams");
    assert_eq!(expansion.script_type_name, "DailyCleanupScript");
    assert_eq!(expansion.script_name, "daily_cleanup");
    assert_eq!(expansion.fn_name, "daily_cleanup");
    assert_eq!(expansion.param_names, vec!["dry_run".to_string()]);
    assert!(expansion.signature_json.contains("dry_run"));
    assert!(!expansion.is_unit_struct);
    assert!(expansion.default_job.is_none());
}

#[test]
fn script_impl_impl_expands_default_job_happy() {
    let attr = vec![
        ident("name"),
        punct('='),
        lit("\"tick\""),
        punct(','),
        ident("default_job"),
        parens(vec![
            ident("job"),
            punct('='),
            lit("\"tick-job\""),
            punct(','),
            ident("cron"),
            punct('='),
            lit("\"*/5 * * * *\""),
        ]),
    ];
    let expansion = script_impl_impl(&attr, &script_fn("tick", vec![]))
        .expect("script with default_job should expand");

    let dj = expansion.default_job.expect("default job");
    assert_eq!(dj.ensure_fn_name, "__chronon_default_job_ensure_tick");
    assert_eq!(dj.job_name, "tick-job");
    assert_eq!(dj.script_type_name, "TickScript");
    match dj.schedule {
        DefaultJobSchedule::Cron(c) => assert_eq!(c, "*/5 * * * *"),
        other => panic!("unexpected schedule {other:?}"),
    }
}

#[test]
fn script_impl_impl_rejects_missing_name_attribute_sad() {
    let error = script_impl_impl(&vec![], &script_fn("missing_name", vec![]))
        .expect_err("missing name attribute must fail");

    let message = error.message();
    assert!(
        message.contains("missing `name = \"...\"`")
            || message.contains("expected `name`")
            || message.contains("unexpected end of input")
            || message.contains("unexpected token"),
        "unexpected parse error: {message}"
    );
}

#[test]
fn script_macro_handle_and_name_happy() {
    let expansion = script_impl_impl(&name_attr("contract_tick"), &script_fn("contract_tick", vec![]))
        .expect("contract_tick expands");
    // `ContractTickScript::NAME` and `ContractTickScript::handle().name()` are the script name.
    assert_eq!(expansion.script_type_name, "ContractTickScript");
    assert_eq!(expansion.script_name, "contract_tick");
}

#[test]
fn script_macro_default_job_expands_happy() {
    let attr = vec![
        ident("name"),
        punct('='),
        lit("\"contract_sweep\""),
        punct(','),
        ident("default_job"),
        parens(vec![
            ident("job"),
            punct('='),
            lit("\"contract-sweep-job\""),
            punct(','),
            ident("cron"),
            punct('='),
            lit("\"*/15 * * * * *\""),
        ]),
    ];
    let expansion = script_impl_impl(&attr, &script_fn("contract_sweep", vec![]))
        .expect("contract_sweep expands");
    // `ContractSweepScript::NAME` and `ContractSweepScript::handle().name()` are the script name.
    assert_eq!(expansion.script_type_name, "ContractSweepScript");
    assert_eq!(expansion.script_name, "contract_sweep");
    assert_eq!(expansion.default_job.expect("default job").job_name, "contract-sweep-job");
}

#[test]
fn unit_script_has_unit_params_and_empty_signature() {
    let expansion = script_impl_impl(&name_attr("tick"), &script_fn("tick", vec![])).expect("expands");
    assert!(expansion.is_unit_struct);
    assert!(expansion.param_names.is_empty());
    assert_eq!(expansion.signature_json, "{}");
    assert_eq!(expansion.signature_hash, std_hash("{}"));
    assert_eq!(expansion.internal_fn_name, "__tick_impl");
}

#[test]
fn signature_json_is_sorted_and_hashed() {
    let expansion = script_impl_impl(
        &name_attr("report"),
        &script_fn(
            "report",
            vec![
                param("zeta", simple("String"), "String"),
                param("alpha", simple("u32"), "u32"),
                param("mid", simple("Vec"), "Vec < String >"),
            ],
        ),
    )
    .expect("expands");
    assert_eq!(expansion.signature_json, r#"{"alpha":"u32","mid":"Vec < String >","zeta":"String"}"#);
    assert_eq!(expansion.signature_hash, std_hash(&expansion.signature_json));
    assert_eq!(expansion.param_names, vec!["zeta".to_string(), "alpha".to_string(), "mid".to_string()]);
}

#[test]
fn signature_json_ignores_parameter_order() {
    let a = script_impl_impl(
        &name_attr("s"),
        &script_fn("s", vec![param("b", simple("bool"), "bool"), param("a", simple("u8"), "u8")]),
    )
    .expect("expands");
    let b = script_impl_impl(
        &name_attr("s"),
        &script_fn("s", vec![param("a", simple("u8"), "u8"), param("b", simple("bool"), "bool")]),
    )
    .expect("expands");
    assert_eq!(a.signature_json, b.signature_json);
    assert_eq!(a.signature_hash, b.signature_hash);
}

#[test]
fn signature_json_keeps_last_type_of_repeated_name() {
    let e = script_impl_impl(
        &name_attr("s"),
        &script_fn("s", vec![param("x", simple("u8"), "u8"), param("x", simple("bool"), "bool")]),
    )
    .expect("expands");
    assert_eq!(e.signature_json, r#"{"x":"bool"}"#);
}

#[test]
fn signature_json_escapes_quotes() {
    let e = script_impl_impl(
        &name_attr("s"),
        &script_fn("s", vec![param("x", simple("T"), "T<\"q\">")]),
    )
    .expect("expands");
    assert_eq!(e.signature_json, r#"{"x":"T<\"q\">"}"#);
}

#[test]
fn signature_json_escapes_backslash_and_control_characters() {
    let e = script_impl_impl(
        &name_attr("s"),
        &script_fn("s", vec![param("x", simple("T"), "a\tb\u{1}\\\n\u{1f}")]),
    )
    .expect("expands");
    assert_eq!(e.signature_json, r#"{"x":"a\tb\u0001\\\n\u001f"}"#);
}

#[test]
fn script_type_name_keeps_script_suffix() {
    let e = script_impl_impl(&name_attr("n"), &script_fn("nightly_script", vec![])).expect("expands");
    assert_eq!(e.script_type_name, "NightlyScript");
    assert_eq!(e.params_struct_name, "NightlyScriptParams");
}

#[test]
fn receiver_after_context_is_refused() {
    let e = script_impl_impl(&name_attr("s"), &script_fn("s", vec![FnArgModel::Receiver]))
        .expect_err("receiver must fail");
    assert!(matches!(e, ScriptError::Signature(SignatureError::MethodNotSupported)));
    assert_eq!(
        e.message(),
        "#[chronon_coordinator_macros::script] methods are not supported; use a free function"
    );
}

#[test]
fn attribute_errors_come_before_signature_errors() {
    let mut bad = script_fn("s", vec![]);
    bad.is_async = false;
    let e = script_impl_impl(&vec![], &bad).expect_err("must fail");
    assert!(matches!(e, ScriptError::Attr(_)));
    let e = script_impl_impl(&name_attr("s"), &bad).expect_err("must fail");
    assert!(matches!(e, ScriptError::Signature(SignatureError::NotAsync)));
}

#[test]
fn metadata_error_message() {
    assert_eq!(
        MetadataError::ParamNotSimpleIdent.message(),
        "#[chronon_coordinator_macros::script] parameters after ScriptContext must be simple identifiers"
    );
    assert_eq!(
        MetadataError::Json("boom".to_string()).message(),
        "failed to build script signature metadata: boom"
    );
}

#[test]
fn signature_metadata_is_the_same_for_every_order_of_distinct_names() {
    let a = || param("a", simple("u8"), "u8");
    let b = || param("b", simple("bool"), "bool");
    let c = || param("c", simple("String"), "String");
    let orders = vec![
        vec![a(), b(), c()],
        vec![a(), c(), b()],
        vec![b(), a(), c()],
        vec![b(), c(), a()],
        vec![c(), a(), b()],
        vec![c(), b(), a()],
    ];
    for order in orders {
        let e = script_impl_impl(&name_attr("s"), &script_fn("s", order)).expect("expands");
        assert_eq!(e.signature_json, r#"{"a":"u8","b":"bool","c":"String"}"#);
        assert_eq!(e.signature_hash, std_hash(r#"{"a":"u8","b":"bool","c":"String"}"#));
    }
}
