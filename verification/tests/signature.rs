use chronon_script_model::{
    collect_script_params, validate_signature, BoundModel, FnArgModel, FnSignature,
    GenericArgModel, PatModel, PathArgsModel, PathSegmentModel, ReturnModel, SignatureError,
    TypeModel, TypePathModel, TypedParam,
};

fn seg(ident: &str, arguments: PathArgsModel) -> PathSegmentModel {
    PathSegmentModel { ident: ident.to_string(), arguments }
}

fn path(segments: Vec<PathSegmentModel>) -> TypeModel {
    TypeModel::Path(TypePathModel { qself: false, segments })
}

fn simple(ident: &str) -> TypeModel {
    path(vec![seg(ident, PathArgsModel::NoArgs)])
}

/// `Box<dyn chronon_core::ScriptContext>`
fn context_type() -> TypeModel {
    path(vec![seg(
        "Box",
        PathArgsModel::AngleBracketed(vec![GenericArgModel::Type(TypeModel::TraitObject(vec![
            BoundModel::Trait(vec!["chronon_core".to_string(), "ScriptContext".to_string()]),
        ]))]),
    )])
}

/// `anyhow::Result<ty>`
fn anyhow_result(ty: TypeModel) -> TypeModel {
    path(vec![
        seg("anyhow", PathArgsModel::NoArgs),
        seg("Result", PathArgsModel::AngleBracketed(vec![GenericArgModel::Type(ty)])),
    ])
}

fn unit() -> TypeModel {
    TypeModel::Tuple(vec![])
}

fn param(name: &str, ty: TypeModel, text: &str) -> FnArgModel {
    FnArgModel::Typed(TypedParam {
        pat: PatModel::Ident(name.to_string()),
        ty,
        ty_text: text.to_string(),
    })
}

fn ctx() -> FnArgModel {
    param("ctx", context_type(), "Box < dyn chronon_core :: ScriptContext >")
}

fn sig(is_async: bool, ident: &str, inputs: Vec<FnArgModel>, output: ReturnModel) -> FnSignature {
    FnSignature { is_async, ident: ident.to_string(), inputs, output }
}

#[test]
fn validate_signature_rejects_non_async_function_sad() {
    // fn not_async(ctx: Box<dyn chronon_core::ScriptContext>) -> anyhow::Result<()>
    let s = sig(false, "not_async", vec![ctx()], ReturnModel::Type(anyhow_result(unit())));
    let error = validate_signature(&s).expect_err("non-async function must fail");
    assert!(error.message().contains("must be async"));
}

#[test]
fn validate_signature_rejects_first_param_not_context_sad() {
    // async fn wrong_first_param(user_id: String) -> anyhow::Result<()>
    let s = sig(
        true,
        "wrong_first_param",
        vec![param("user_id", simple("String"), "String")],
        ReturnModel::Type(anyhow_result(unit())),
    );
    let error = validate_signature(&s).expect_err("first param mismatch must fail");
    assert!(error.message().contains("first parameter must be Box<dyn ScriptContext>"));
}

#[test]
fn validate_signature_rejects_wrong_return_type_sad() {
    // async fn wrong_return_type(ctx: Box<dyn chronon_core::ScriptContext>) -> anyhow::Result<String>
    let s = sig(
        true,
        "wrong_return_type",
        vec![ctx()],
        ReturnModel::Type(anyhow_result(simple("String"))),
    );
    let error = validate_signature(&s).expect_err("wrong return type must fail");
    assert!(error.message().contains("return type must be Result<()>"));
}

#[test]
fn validate_signature_accepts_script_shape() {
    let s = sig(true, "tick", vec![ctx()], ReturnModel::Type(anyhow_result(unit())));
    assert_eq!(validate_signature(&s), Ok(()));
}

#[test]
fn validate_signature_reports_each_rule() {
    let ok_ret = || ReturnModel::Type(anyhow_result(unit()));
    assert_eq!(
        validate_signature(&sig(true, "f", vec![], ok_ret())),
        Err(SignatureError::MissingContext)
    );
    assert_eq!(
        validate_signature(&sig(true, "f", vec![FnArgModel::Receiver], ok_ret())),
        Err(SignatureError::MethodNotSupported)
    );
    let destructured = FnArgModel::Typed(TypedParam {
        pat: PatModel::Other,
        ty: context_type(),
        ty_text: "Box < dyn ScriptContext >".to_string(),
    });
    assert_eq!(
        validate_signature(&sig(true, "f", vec![destructured], ok_ret())),
        Err(SignatureError::ContextNotNamed)
    );
    let other_trait = path(vec![seg(
        "Box",
        PathArgsModel::AngleBracketed(vec![GenericArgModel::Type(TypeModel::TraitObject(vec![
            BoundModel::Trait(vec!["OtherContext".to_string()]),
        ]))]),
    )]);
    assert_eq!(
        validate_signature(&sig(true, "f", vec![param("c", other_trait, "Box < dyn OtherContext >")], ok_ret())),
        Err(SignatureError::ContextWrongType)
    );
    assert_eq!(
        validate_signature(&sig(true, "f", vec![ctx()], ReturnModel::Default)),
        Err(SignatureError::WrongReturnType)
    );
    let two_args = path(vec![seg(
        "Result",
        PathArgsModel::AngleBracketed(vec![
            GenericArgModel::Type(unit()),
            GenericArgModel::Type(simple("Error")),
        ]),
    )]);
    assert_eq!(
        validate_signature(&sig(true, "f", vec![ctx()], ReturnModel::Type(two_args))),
        Err(SignatureError::WrongReturnType)
    );
}

#[test]
fn validate_signature_accepts_context_among_several_bounds() {
    let ty = path(vec![seg(
        "Box",
        PathArgsModel::AngleBracketed(vec![GenericArgModel::Type(TypeModel::TraitObject(vec![
            BoundModel::Other,
            BoundModel::Trait(vec!["Send".to_string()]),
            BoundModel::Trait(vec!["ScriptContext".to_string()]),
        ]))]),
    )]);
    let s = sig(
        true,
        "f",
        vec![param("c", ty, "Box < dyn 'static + Send + ScriptContext >")],
        ReturnModel::Type(path(vec![seg(
            "Result",
            PathArgsModel::AngleBracketed(vec![GenericArgModel::Type(unit())]),
        )])),
    );
    assert_eq!(validate_signature(&s), Ok(()));
}

#[test]
fn collect_script_params_skips_context_and_refuses_receiver() {
    let s = sig(
        true,
        "f",
        vec![ctx(), param("a", simple("u32"), "u32"), param("b", simple("bool"), "bool")],
        ReturnModel::Type(anyhow_result(unit())),
    );
    let ps = collect_script_params(&s).expect("typed parameters");
    assert_eq!(ps.len(), 2);
    assert_eq!(ps[0].ty_text, "u32");
    assert_eq!(ps[1].ty_text, "bool");
    let r = sig(true, "f", vec![ctx(), FnArgModel::Receiver], ReturnModel::Default);
    assert_eq!(collect_script_params(&r).err(), Some(SignatureError::MethodNotSupported));
}

/// `<prefix>::Box<dyn ScriptContext>` with the given leading segments.
fn context_type_under(prefix: &[&str]) -> TypeModel {
    let mut segments: Vec<PathSegmentModel> =
        prefix.iter().map(|s| seg(s, PathArgsModel::NoArgs)).collect();
    segments.push(seg(
        "Box",
        PathArgsModel::AngleBracketed(vec![GenericArgModel::Type(TypeModel::TraitObject(vec![
            BoundModel::Trait(vec!["ScriptContext".to_string()]),
        ]))]),
    ));
    path(segments)
}

#[test]
fn validate_signature_accepts_box_by_its_full_path() {
    let ret = || ReturnModel::Type(anyhow_result(unit()));
    for prefix in [&["std", "boxed"][..], &["alloc", "boxed"][..]] {
        let s = sig(true, "f", vec![param("ctx", context_type_under(prefix), "")], ret());
        assert_eq!(validate_signature(&s), Ok(()), "prefix {prefix:?}");
    }
}

#[test]
fn validate_signature_refuses_other_paths_ending_in_box() {
    let ret = || ReturnModel::Type(anyhow_result(unit()));
    for prefix in [&["foo"][..], &["std", "Box"][..], &["core", "boxed"][..], &["std", "rc"][..]] {
        let s = sig(true, "f", vec![param("ctx", context_type_under(prefix), "")], ret());
        assert_eq!(validate_signature(&s), Err(SignatureError::ContextWrongType), "prefix {prefix:?}");
    }
}
