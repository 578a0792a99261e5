use chronon_script_model::{
    parse_default_job, parse_script_attrs, AttrError, AttrToken, DefaultJobSchedule, Delimiter,
};

fn ident(s: &str) -> AttrToken {
    AttrToken::Ident(s.to_string())
}

fn punct(c: char) -> AttrToken {
    AttrToken::Punct(c)
}

fn lit(text: &str) -> AttrToken {
    AttrToken::Literal(text.to_string())
}

fn group(d: Delimiter, inner: Vec<AttrToken>) -> AttrToken {
    AttrToken::Group(d, inner)
}

fn job_cron() -> Vec<AttrToken> {
    vec![
        ident("job"),
        punct('='),
        lit("\"j\""),
        punct(','),
        ident("cron"),
        punct('='),
        lit("\"0 * * * *\""),
    ]
}

#[test]
fn name_only() {
    let a = parse_script_attrs(&vec![ident("name"), punct('='), lit("\"daily\"")]).expect("parses");
    assert_eq!(a.name, "daily");
    assert!(a.default_job.is_none());
}

#[test]
fn trailing_comma_is_accepted() {
    let a = parse_script_attrs(&vec![ident("name"), punct('='), lit("\"daily\""), punct(',')])
        .expect("parses");
    assert_eq!(a.name, "daily");
}

#[test]
fn literal_escapes_and_raw_strings() {
    let a = parse_script_attrs(&vec![ident("name"), punct('='), lit("\"a\\\"b\\n\"")]).expect("parses");
    assert_eq!(a.name, "a\"b\n");
    let a = parse_script_attrs(&vec![ident("name"), punct('='), lit("r#\"x\"y\"#")]).expect("parses");
    assert_eq!(a.name, "x\"y");
}

#[test]
fn default_job_first_then_name() {
    let a = parse_script_attrs(&vec![
        ident("default_job"),
        group(Delimiter::Parenthesis, job_cron()),
        punct(','),
        ident("name"),
        punct('='),
        lit("\"t\""),
    ])
    .expect("parses");
    assert_eq!(a.name, "t");
    let dj = a.default_job.expect("default job");
    assert_eq!(dj.job_name, "j");
    assert!(matches!(dj.schedule, DefaultJobSchedule::Cron(ref c) if c == "0 * * * *"));
}

#[test]
fn attribute_errors() {
    let name = || vec![ident("name"), punct('='), lit("\"n\"")];
    let mut dup = name();
    dup.push(punct(','));
    dup.extend(name());
    assert!(matches!(parse_script_attrs(&dup), Err(AttrError::DuplicateName)));

    let mut dup_dj = vec![ident("default_job"), group(Delimiter::Parenthesis, job_cron())];
    dup_dj.push(punct(','));
    dup_dj.push(ident("default_job"));
    dup_dj.push(group(Delimiter::Parenthesis, job_cron()));
    assert!(matches!(parse_script_attrs(&dup_dj), Err(AttrError::DuplicateDefaultJob)));

    assert!(matches!(parse_script_attrs(&vec![]), Err(AttrError::MissingName)));
    assert!(matches!(
        parse_script_attrs(&vec![ident("title"), punct('='), lit("\"n\"")]),
        Err(AttrError::UnknownKey)
    ));
    assert!(matches!(parse_script_attrs(&vec![lit("\"n\"")]), Err(AttrError::ExpectedIdent)));
    match parse_script_attrs(&vec![ident("fn")]) {
        Err(e @ AttrError::KeywordAsKey(_)) => {
            assert_eq!(e.message(), "expected identifier, found keyword `fn`")
        }
        other => panic!("unexpected {other:?}"),
    }
    match parse_default_job(&vec![ident("_"), punct('='), lit("\"x\"")]) {
        Err(e @ AttrError::KeywordAsKey(_)) => {
            assert_eq!(e.message(), "expected identifier, found keyword `_`")
        }
        other => panic!("unexpected {other:?}"),
    }
    assert!(matches!(
        parse_default_job(&vec![ident("Self_"), punct('='), lit("\"x\"")]),
        Err(AttrError::UnknownDefaultJobKey)
    ));
    assert!(matches!(
        parse_script_attrs(&vec![ident("name")]),
        Err(AttrError::ExpectedEq)
    ));
    assert!(matches!(
        parse_script_attrs(&vec![ident("name"), punct(':'), lit("\"n\"")]),
        Err(AttrError::ExpectedEq)
    ));
    assert!(matches!(
        parse_script_attrs(&vec![ident("name"), punct('=')]),
        Err(AttrError::ExpectedStringLiteral { at_end: true })
    ));
    assert!(matches!(
        parse_script_attrs(&vec![ident("name"), punct('='), lit("42")]),
        Err(AttrError::ExpectedStringLiteral { at_end: false })
    ));
    assert!(matches!(
        parse_script_attrs(&vec![ident("name"), punct('='), lit("b\"n\"")]),
        Err(AttrError::ExpectedStringLiteral { at_end: false })
    ));
    assert!(matches!(
        parse_script_attrs(&vec![ident("name"), punct('='), lit("\"n\""), punct(';')]),
        Err(AttrError::ExpectedComma)
    ));
    assert!(matches!(
        parse_script_attrs(&vec![ident("default_job")]),
        Err(AttrError::ExpectedParentheses { at_end: true })
    ));
    assert!(matches!(
        parse_script_attrs(&vec![ident("default_job"), group(Delimiter::Bracket, job_cron())]),
        Err(AttrError::ExpectedParentheses { at_end: false })
    ));
}

#[test]
fn attribute_error_messages() {
    assert_eq!(
        AttrError::MissingName.message(),
        "missing `name = \"...\"` for #[chronon_coordinator_macros::script]"
    );
    assert_eq!(
        AttrError::DuplicateName.message(),
        "duplicate `name` in #[chronon_coordinator_macros::script]"
    );
    assert_eq!(
        AttrError::UnknownKey.message(),
        "expected `name` or `default_job` in #[chronon_coordinator_macros::script]"
    );
    assert_eq!(AttrError::ExpectedEq.message(), "expected `=`");
    assert_eq!(AttrError::ExpectedComma.message(), "expected `,`");
    assert_eq!(
        AttrError::DuplicateSchedule.message(),
        "only one schedule is allowed: `cron = \"...\"`, `run_once`, or `manual`"
    );
    assert_eq!(AttrError::MissingJob.message(), "default_job(...) requires `job = \"...\"`");
}

#[test]
fn default_job_schedules() {
    let d = parse_default_job(&vec![ident("run_once"), punct(','), ident("job"), punct('='), lit("\"r\"")])
        .expect("parses");
    assert_eq!(d.job_name, "r");
    assert!(matches!(d.schedule, DefaultJobSchedule::RunOnce));
    let d = parse_default_job(&vec![ident("job"), punct('='), lit("\"m\""), punct(','), ident("manual")])
        .expect("parses");
    assert!(matches!(d.schedule, DefaultJobSchedule::Manual));
}

#[test]
fn default_job_errors() {
    assert!(matches!(
        parse_default_job(&vec![ident("manual")]),
        Err(AttrError::MissingJob)
    ));
    assert!(matches!(
        parse_default_job(&vec![ident("job"), punct('='), lit("\"j\"")]),
        Err(AttrError::MissingSchedule)
    ));
    assert!(matches!(parse_default_job(&vec![]), Err(AttrError::MissingJob)));
    let mut two_jobs = vec![ident("job"), punct('='), lit("\"a\""), punct(',')];
    two_jobs.extend(vec![ident("job"), punct('='), lit("\"b\"")]);
    assert!(matches!(parse_default_job(&two_jobs), Err(AttrError::DuplicateJob)));
    assert!(matches!(
        parse_default_job(&vec![ident("manual"), punct(','), ident("run_once")]),
        Err(AttrError::DuplicateSchedule)
    ));
    assert!(matches!(
        parse_default_job(&vec![ident("every"), punct('='), lit("\"x\"")]),
        Err(AttrError::UnknownDefaultJobKey)
    ));
    assert_eq!(
        AttrError::UnknownDefaultJobKey.message(),
        "expected `job`, `cron`, `run_once`, or `manual` inside default_job(...)"
    );
    assert!(matches!(
        parse_default_job(&vec![ident("manual"), ident("job")]),
        Err(AttrError::ExpectedComma)
    ));
}

#[test]
fn default_job_error_inside_attribute() {
    let e = parse_script_attrs(&vec![
        ident("name"),
        punct('='),
        lit("\"t\""),
        punct(','),
        ident("default_job"),
        group(Delimiter::Parenthesis, vec![ident("manual")]),
    ]);
    assert!(matches!(e, Err(AttrError::MissingJob)));
}

#[test]
fn default_job_cron_then_job() {
    let d = parse_default_job(&vec![
        ident("cron"),
        punct('='),
        lit("\"0 * * * *\""),
        punct(','),
        ident("job"),
        punct('='),
        lit("\"j\""),
    ])
    .expect("parses");
    assert_eq!(d.job_name, "j");
    assert!(matches!(d.schedule, DefaultJobSchedule::Cron(ref c) if c == "0 * * * *"));
}

#[test]
fn raw_identifier_key_is_unknown() {
    assert!(matches!(
        parse_script_attrs(&vec![ident("r#name"), punct('='), lit("\"n\"")]),
        Err(AttrError::UnknownKey)
    ));
    assert!(matches!(parse_script_attrs(&vec![ident("_")]), Err(AttrError::KeywordAsKey(_))));
}
