//! The grammar of the attribute arguments:
//! `name = "...", default_job(job = "...", cron = "..." | run_once | manual)`.

use vstd::prelude::*;
use crate::script_default_job::{parse_default_job, spec_parse_default_job, DefaultJobSpec, DefaultJobView};
use crate::text::{option_view, result_view, same_text};

verus! {

/// Delimiter of a token group.
#[derive(Debug, Clone, Copy, PartialEq, Eq, Structural)]
pub enum Delimiter {
    Parenthesis,
    Brace,
    Bracket,
}

/// One token tree of the attribute arguments, as the grammar reads it:
/// an identifier (its text, `r#` included for a raw one), a punctuation
/// character, a literal (its source text) or a delimited group.
/// Invisible (undelimited) groups are flattened into their contents.
#[derive(Debug)]
pub enum AttrToken {
    Ident(String),
    Punct(char),
    Literal(String),
    Group(Delimiter, Vec<AttrToken>),
}

/// The parsed attribute: `name` plus optional `default_job(...)`.
#[derive(Debug)]
pub struct ScriptAttrs {
    pub name: String,
    pub default_job: Option<DefaultJobSpec>,
}

/// Mathematical form of a [`ScriptAttrs`].
pub struct ScriptAttrsView {
    pub name: Seq<char>,
    pub default_job: Option<DefaultJobView>,
}

impl View for ScriptAttrs {
    type V = ScriptAttrsView;

    open spec fn view(&self) -> ScriptAttrsView {
        ScriptAttrsView {
            name: self.name@,
            default_job: option_view(self.default_job),
        }
    }
}

/// Why the attribute arguments were refused. `at_end` tells that the input
/// (or the group) ended where the token was expected; `syn` says so for a
/// missing literal or group, not for missing punctuation (`=`, `,`).
#[derive(Debug)]
pub enum AttrError {
    /// A key position holds something other than an identifier.
    ExpectedIdent,
    /// A key position holds a keyword, which is no identifier.
    KeywordAsKey(String),
    ExpectedEq,
    ExpectedStringLiteral { at_end: bool },
    ExpectedParentheses { at_end: bool },
    ExpectedComma,
    DuplicateName,
    DuplicateDefaultJob,
    UnknownKey,
    MissingName,
    DuplicateJob,
    DuplicateSchedule,
    UnknownDefaultJobKey,
    MissingJob,
    MissingSchedule,
}

/// Mathematical form of an [`AttrError`].
pub enum AttrErrorView {
    ExpectedIdent,
    KeywordAsKey(Seq<char>),
    ExpectedEq,
    ExpectedStringLiteral { at_end: bool },
    ExpectedParentheses { at_end: bool },
    ExpectedComma,
    DuplicateName,
    DuplicateDefaultJob,
    UnknownKey,
    MissingName,
    DuplicateJob,
    DuplicateSchedule,
    UnknownDefaultJobKey,
    MissingJob,
    MissingSchedule,
}

impl View for AttrError {
    type V = AttrErrorView;

    open spec fn view(&self) -> AttrErrorView {
        match self {
            AttrError::ExpectedIdent => AttrErrorView::ExpectedIdent,
            AttrError::KeywordAsKey(k) => AttrErrorView::KeywordAsKey(k@),
            AttrError::ExpectedEq => AttrErrorView::ExpectedEq,
            AttrError::ExpectedStringLiteral { at_end } => AttrErrorView::ExpectedStringLiteral {
                at_end: *at_end,
            },
            AttrError::ExpectedParentheses { at_end } => AttrErrorView::ExpectedParentheses {
                at_end: *at_end,
            },
            AttrError::ExpectedComma => AttrErrorView::ExpectedComma,
            AttrError::DuplicateName => AttrErrorView::DuplicateName,
            AttrError::DuplicateDefaultJob => AttrErrorView::DuplicateDefaultJob,
            AttrError::UnknownKey => AttrErrorView::UnknownKey,
            AttrError::MissingName => AttrErrorView::MissingName,
            AttrError::DuplicateJob => AttrErrorView::DuplicateJob,
            AttrError::DuplicateSchedule => AttrErrorView::DuplicateSchedule,
            AttrError::UnknownDefaultJobKey => AttrErrorView::UnknownDefaultJobKey,
            AttrError::MissingJob => AttrErrorView::MissingJob,
            AttrError::MissingSchedule => AttrErrorView::MissingSchedule,
        }
    }
}

/// The diagnostic text of an attribute error.
pub open spec fn attr_error_message(e: AttrErrorView) -> Seq<char> {
    match e {
        AttrErrorView::KeywordAsKey(k) => "expected identifier, found keyword `"@ + k + "`"@,
        AttrErrorView::ExpectedEq => "expected `=`"@,
        AttrErrorView::ExpectedStringLiteral { at_end } => if at_end {
            "unexpected end of input, expected string literal"@
        } else {
            "expected string literal"@
        },
        AttrErrorView::ExpectedParentheses { at_end } => if at_end {
            "unexpected end of input, expected parentheses"@
        } else {
            "expected parentheses"@
        },
        AttrErrorView::ExpectedIdent => "expected identifier"@,
        AttrErrorView::ExpectedComma => "expected `,`"@,
        AttrErrorView::DuplicateName => "duplicate `name` in #[chronon_coordinator_macros::script]"@,
        AttrErrorView::DuplicateDefaultJob => "duplicate `default_job(...)` in #[chronon_coordinator_macros::script]"@,
        AttrErrorView::UnknownKey => "expected `name` or `default_job` in #[chronon_coordinator_macros::script]"@,
        AttrErrorView::MissingName => "missing `name = \"...\"` for #[chronon_coordinator_macros::script]"@,
        AttrErrorView::DuplicateJob => "duplicate `job` in default_job(...)"@,
        AttrErrorView::DuplicateSchedule => "only one schedule is allowed: `cron = \"...\"`, `run_once`, or `manual`"@,
        AttrErrorView::UnknownDefaultJobKey => "expected `job`, `cron`, `run_once`, or `manual` inside default_job(...)"@,
        AttrErrorView::MissingJob => "default_job(...) requires `job = \"...\"`"@,
        AttrErrorView::MissingSchedule => "default_job(...) requires one of `cron = \"...\"`, `run_once`, or `manual`"@,
    }
}

impl AttrError {
    /// The diagnostic text.
    pub fn message(&self) -> (m: String)
        ensures
            m@ == attr_error_message(self@),
    {
        match self {
            AttrError::KeywordAsKey(k) => String::from_str("expected identifier, found keyword `").concat(
                k.as_str(),
            ).concat("`"),
            AttrError::ExpectedEq => String::from_str("expected `=`"),
            AttrError::ExpectedStringLiteral { at_end } => if *at_end {
                String::from_str("unexpected end of input, expected string literal")
            } else {
                String::from_str("expected string literal")
            },
            AttrError::ExpectedParentheses { at_end } => if *at_end {
                String::from_str("unexpected end of input, expected parentheses")
            } else {
                String::from_str("expected parentheses")
            },
            AttrError::ExpectedIdent => String::from_str("expected identifier"),
            AttrError::ExpectedComma => String::from_str("expected `,`"),
            AttrError::DuplicateName => String::from_str("duplicate `name` in #[chronon_coordinator_macros::script]"),
            AttrError::DuplicateDefaultJob => String::from_str("duplicate `default_job(...)` in #[chronon_coordinator_macros::script]"),
            AttrError::UnknownKey => String::from_str("expected `name` or `default_job` in #[chronon_coordinator_macros::script]"),
            AttrError::MissingName => String::from_str("missing `name = \"...\"` for #[chronon_coordinator_macros::script]"),
            AttrError::DuplicateJob => String::from_str("duplicate `job` in default_job(...)"),
            AttrError::DuplicateSchedule => String::from_str("only one schedule is allowed: `cron = \"...\"`, `run_once`, or `manual`"),
            AttrError::UnknownDefaultJobKey => String::from_str("expected `job`, `cron`, `run_once`, or `manual` inside default_job(...)"),
            AttrError::MissingJob => String::from_str("default_job(...) requires `job = \"...\"`"),
            AttrError::MissingSchedule => String::from_str("default_job(...) requires one of `cron = \"...\"`, `run_once`, or `manual`"),
        }
    }
}

/// The value of a string literal, given the literal's source text; `None`
/// where the text is no string literal.
pub uninterp spec fn spec_lit_str_value(text: Seq<char>) -> Option<Seq<char>>;

/// Whether `syn` accepts the identifier with this text as an identifier
/// (it refuses `_` and the keywords).
pub uninterp spec fn spec_accepts_as_ident(text: Seq<char>) -> bool;

/// A plain quoted literal: `"` and `"` around characters none of which is a
/// quote, a backslash or a carriage return.
pub open spec fn plain_quoted(text: Seq<char>) -> bool {
    &&& text.len() >= 2
    &&& text[0] == '"'
    &&& text[text.len() - 1] == '"'
    &&& forall|i: int|
        1 <= i < text.len() - 1 ==> #[trigger] text[i] != '"' && text[i] != '\\' && text[i] != '\r'
}

/// The value of a string literal given its text: for a plain quoted literal
/// the text between the quotes, otherwise the named value.
pub open spec fn literal_value(text: Seq<char>) -> Option<Seq<char>> {
    if plain_quoted(text) {
        Some(text.subrange(1, text.len() - 1))
    } else {
        spec_lit_str_value(text)
    }
}

/// Trusted: `syn::parse_str::<syn::LitStr>` on the literal's text, then
/// `LitStr::value`. Claims that the result is the named value of the text,
/// `None` exactly where the name is `None`; and, as `syn`'s cooked-string
/// reader shows, that a plain quoted literal's value is the text between the
/// quotes (escape sequences and raw strings are left to the name).
#[verifier::external_body]
fn lit_str_value(text: &String) -> (v: Option<String>)
    ensures
        v is Some <==> spec_lit_str_value(text@) is Some,
        v matches Some(s) ==> spec_lit_str_value(text@) == Some(s@),
        plain_quoted(text@) ==> option_view(v) == Some(text@.subrange(1, text@.len() - 1)),
{
    match syn::parse_str::<syn::LitStr>(text) {
        Ok(lit) => Some(lit.value()),
        Err(_) => None,
    }
}

/// Words that `syn` refuses as identifiers: `_` and the keywords of its list,
/// spelled out character by character so that any text can be compared
/// with them.
pub open spec fn syn_reserved(text: Seq<char>) -> bool {
    text == seq!['_']
        || text == seq!['a', 'b', 's', 't', 'r', 'a', 'c', 't']
        || text == seq!['a', 's']
        || text == seq!['a', 's', 'y', 'n', 'c']
        || text == seq!['a', 'w', 'a', 'i', 't']
        || text == seq!['b', 'e', 'c', 'o', 'm', 'e']
        || text == seq!['b', 'o', 'x']
        || text == seq!['b', 'r', 'e', 'a', 'k']
        || text == seq!['c', 'o', 'n', 's', 't']
        || text == seq!['c', 'o', 'n', 't', 'i', 'n', 'u', 'e']
        || text == seq!['c', 'r', 'a', 't', 'e']
        || text == seq!['d', 'o']
        || text == seq!['d', 'y', 'n']
        || text == seq!['e', 'l', 's', 'e']
        || text == seq!['e', 'n', 'u', 'm']
        || text == seq!['e', 'x', 't', 'e', 'r', 'n']
        || text == seq!['f', 'a', 'l', 's', 'e']
        || text == seq!['f', 'i', 'n', 'a', 'l']
        || text == seq!['f', 'n']
        || text == seq!['f', 'o', 'r']
        || text == seq!['i', 'f']
        || text == seq!['i', 'm', 'p', 'l']
        || text == seq!['i', 'n']
        || text == seq!['l', 'e', 't']
        || text == seq!['l', 'o', 'o', 'p']
        || text == seq!['m', 'a', 'c', 'r', 'o']
        || text == seq!['m', 'a', 't', 'c', 'h']
        || text == seq!['m', 'o', 'd']
        || text == seq!['m', 'o', 'v', 'e']
        || text == seq!['m', 'u', 't']
        || text == seq!['o', 'v', 'e', 'r', 'r', 'i', 'd', 'e']
        || text == seq!['p', 'r', 'i', 'v']
        || text == seq!['p', 'u', 'b']
        || text == seq!['r', 'e', 'f']
        || text == seq!['r', 'e', 't', 'u', 'r', 'n']
        || text == seq!['S', 'e', 'l', 'f']
        || text == seq!['s', 'e', 'l', 'f']
        || text == seq!['s', 't', 'a', 't', 'i', 'c']
        || text == seq!['s', 't', 'r', 'u', 'c', 't']
        || text == seq!['s', 'u', 'p', 'e', 'r']
        || text == seq!['t', 'r', 'a', 'i', 't']
        || text == seq!['t', 'r', 'u', 'e']
        || text == seq!['t', 'r', 'y']
        || text == seq!['t', 'y', 'p', 'e']
        || text == seq!['t', 'y', 'p', 'e', 'o', 'f']
        || text == seq!['u', 'n', 's', 'a', 'f', 'e']
        || text == seq!['u', 'n', 's', 'i', 'z', 'e', 'd']
        || text == seq!['u', 's', 'e']
        || text == seq!['v', 'i', 'r', 't', 'u', 'a', 'l']
        || text == seq!['w', 'h', 'e', 'r', 'e']
        || text == seq!['w', 'h', 'i', 'l', 'e']
        || text == seq!['y', 'i', 'e', 'l', 'd']
}

/// An ASCII identifier: a letter or `_`, then letters, digits and `_`.
pub open spec fn ascii_ident_text(text: Seq<char>) -> bool {
    &&& text.len() > 0
    &&& ('a' <= text[0] <= 'z' || 'A' <= text[0] <= 'Z' || text[0] == '_')
    &&& forall|i: int|
        0 <= i < text.len() ==> ('a' <= #[trigger] text[i] <= 'z' || 'A' <= text[i] <= 'Z' || '0'
            <= text[i] <= '9' || text[i] == '_')
}

/// Trusted: `syn::parse_str::<syn::Ident>` on an identifier's text, telling
/// whether it succeeds. Claims that the answer is the named one, and, as
/// `syn`'s `accept_as_ident` and the lexer of `proc_macro2` show, that an
/// ASCII identifier is accepted exactly when it is not one of the words of
/// [`syn_reserved`]. Which other texts are accepted (raw and non-ASCII
/// identifiers, which go by Unicode's identifier tables) is left to the name.
#[verifier::external_body]
fn accepts_as_ident(text: &String) -> (b: bool)
    ensures
        b == spec_accepts_as_ident(text@),
        ascii_ident_text(text@) ==> (b <==> !syn_reserved(text@)),
{
    syn::parse_str::<syn::Ident>(text).is_ok()
}

/// The token at `i` is the punctuation character `c`.
pub open spec fn is_punct_at(toks: Seq<AttrToken>, i: int, c: char) -> bool {
    0 <= i < toks.len() && (toks[i] matches AttrToken::Punct(p) && p == c)
}

/// Parses `= "literal"` starting at `i`: the literal's value.
pub open spec fn eq_literal_at(toks: Seq<AttrToken>, i: int) -> Result<Seq<char>, AttrErrorView> {
    if !is_punct_at(toks, i, '=') {
        Err(AttrErrorView::ExpectedEq)
    } else if i + 1 >= toks.len() {
        Err(AttrErrorView::ExpectedStringLiteral { at_end: true })
    } else {
        match toks[i + 1] {
            AttrToken::Literal(t) => match literal_value(t@) {
                Some(v) => Ok(v),
                None => Err(AttrErrorView::ExpectedStringLiteral { at_end: false }),
            },
            _ => Err(AttrErrorView::ExpectedStringLiteral { at_end: false }),
        }
    }
}

/// Whether `syn` takes the text as an identifier: an ASCII identifier
/// exactly when it is no reserved word, any other text as the name says.
pub open spec fn ident_accepted(text: Seq<char>) -> bool {
    if ascii_ident_text(text) {
        !syn_reserved(text)
    } else {
        spec_accepts_as_ident(text)
    }
}

/// The error for a key position that holds no key of the grammar.
pub open spec fn not_a_key(t: AttrToken, unknown: AttrErrorView) -> AttrErrorView {
    match t {
        AttrToken::Ident(k) => if ident_accepted(k@) {
            unknown
        } else {
            AttrErrorView::KeywordAsKey(k@)
        },
        _ => AttrErrorView::ExpectedIdent,
    }
}

/// Exec form of [`eq_literal_at`].
pub(crate) fn eq_literal(toks: &Vec<AttrToken>, i: usize) -> (r: Result<String, AttrError>)
    ensures
        result_view(r) == eq_literal_at(toks@, i as int),
{
    if i >= toks.len() {
        return Err(AttrError::ExpectedEq);
    }
    match &toks[i] {
        AttrToken::Punct(p) if *p == '=' => {},
        _ => return Err(AttrError::ExpectedEq),
    }
    if i + 1 >= toks.len() {
        return Err(AttrError::ExpectedStringLiteral { at_end: true });
    }
    match &toks[i + 1] {
        AttrToken::Literal(t) => match lit_str_value(t) {
            Some(v) => Ok(v),
            None => Err(AttrError::ExpectedStringLiteral { at_end: false }),
        },
        _ => Err(AttrError::ExpectedStringLiteral { at_end: false }),
    }
}

/// Exec form of [`not_a_key`].
pub(crate) fn not_a_key_error(t: &AttrToken, unknown: AttrError) -> (e: AttrError)
    ensures
        e@ == not_a_key(*t, unknown@),
{
    match t {
        AttrToken::Ident(k) => if accepts_as_ident(k) {
            unknown
        } else {
            AttrError::KeywordAsKey(k.clone())
        },
        _ => AttrError::ExpectedIdent,
    }
}

/// Whether the token at `j` is a comma.
pub(crate) fn is_comma(toks: &Vec<AttrToken>, j: usize) -> (b: bool)
    ensures
        b == is_punct_at(toks@, j as int, ','),
{
    if j >= toks.len() {
        return false;
    }
    match &toks[j] {
        AttrToken::Punct(p) => *p == ',',
        _ => false,
    }
}

/// End of the attribute arguments: the name is owed.
pub open spec fn script_attrs_finish(name: Option<Seq<char>>, default_job: Option<DefaultJobView>) -> Result<
    ScriptAttrsView,
    AttrErrorView,
> {
    match name {
        None => Err(AttrErrorView::MissingName),
        Some(n) => Ok(ScriptAttrsView { name: n, default_job }),
    }
}

/// The attribute arguments from index `i`, with what was read before it.
pub open spec fn script_attrs_at(
    toks: Seq<AttrToken>,
    i: int,
    name: Option<Seq<char>>,
    default_job: Option<DefaultJobView>,
) -> Result<ScriptAttrsView, AttrErrorView>
    decreases toks.len() - i, 1int,
{
    if i < 0 || i >= toks.len() {
        script_attrs_finish(name, default_job)
    } else {
        match toks[i] {
            AttrToken::Ident(k) => if k@ == "name"@ {
                match eq_literal_at(toks, i + 1) {
                    Err(e) => Err(e),
                    Ok(v) => if name is Some {
                        Err(AttrErrorView::DuplicateName)
                    } else {
                        script_attrs_after(toks, i + 3, Some(v), default_job)
                    },
                }
            } else if k@ == "default_job"@ {
                if i + 1 >= toks.len() {
                    Err(AttrErrorView::ExpectedParentheses { at_end: true })
                } else {
                    match toks[i + 1] {
                        AttrToken::Group(Delimiter::Parenthesis, inner) => if default_job is Some {
                            Err(AttrErrorView::DuplicateDefaultJob)
                        } else {
                            match spec_parse_default_job(inner@) {
                                Err(e) => Err(e),
                                Ok(d) => script_attrs_after(toks, i + 2, name, Some(d)),
                            }
                        },
                        _ => Err(AttrErrorView::ExpectedParentheses { at_end: false }),
                    }
                }
            } else {
                Err(not_a_key(toks[i], AttrErrorView::UnknownKey))
            },
            _ => Err(not_a_key(toks[i], AttrErrorView::UnknownKey)),
        }
    }
}

/// After one attribute entry ending before index `j`: the end, or a comma.
pub open spec fn script_attrs_after(
    toks: Seq<AttrToken>,
    j: int,
    name: Option<Seq<char>>,
    default_job: Option<DefaultJobView>,
) -> Result<ScriptAttrsView, AttrErrorView>
    decreases toks.len() - j + 1, 0int,
{
    if j >= toks.len() {
        script_attrs_finish(name, default_job)
    } else if !is_punct_at(toks, j, ',') {
        Err(AttrErrorView::ExpectedComma)
    } else {
        script_attrs_at(toks, j + 1, name, default_job)
    }
}

/// The meaning of the attribute arguments.
pub open spec fn spec_parse_script_attrs(toks: Seq<AttrToken>) -> Result<ScriptAttrsView, AttrErrorView> {
    script_attrs_at(toks, 0, None, None)
}

/// Parses the attribute arguments: `name = "..."` (required) and an optional
/// `default_job(...)`, separated by commas, in any order, each at most once.
pub fn parse_script_attrs(toks: &Vec<AttrToken>) -> (res: Result<ScriptAttrs, AttrError>)
    ensures
        result_view(res) == spec_parse_script_attrs(toks@),
{
    let n = toks.len();
    let mut name: Option<String> = None;
    let mut default_job: Option<DefaultJobSpec> = None;
    let mut i: usize = 0;
    while i < n
        invariant
            n == toks@.len(),
            i <= n,
            script_attrs_at(toks@, i as int, option_view(name), option_view(default_job))
                == spec_parse_script_attrs(toks@),
        decreases n - i,
    {
        let j: usize;
        match &toks[i] {
            AttrToken::Ident(k) => {
                if same_text(k.as_str(), "name") {
                    let v = match eq_literal(toks, i + 1) {
                        Ok(v) => v,
                        Err(e) => return Err(e),
                    };
                    if name.is_some() {
                        return Err(AttrError::DuplicateName);
                    }
                    name = Some(v);
                    j = i + 3;
                } else if same_text(k.as_str(), "default_job") {
                    if i + 1 >= n {
                        return Err(AttrError::ExpectedParentheses { at_end: true });
                    }
                    match &toks[i + 1] {
                        AttrToken::Group(Delimiter::Parenthesis, inner) => {
                            if default_job.is_some() {
                                return Err(AttrError::DuplicateDefaultJob);
                            }
                            match parse_default_job(inner) {
                                Ok(d) => {
                                    default_job = Some(d);
                                },
                                Err(e) => return Err(e),
                            }
                        },
                        _ => return Err(AttrError::ExpectedParentheses { at_end: false }),
                    }
                    j = i + 2;
                } else {
                    return Err(not_a_key_error(&toks[i], AttrError::UnknownKey));
                }
            },
            _ => {
                return Err(not_a_key_error(&toks[i], AttrError::UnknownKey));
            },
        }
        if j >= n {
            i = j;
        } else if !is_comma(toks, j) {
            return Err(AttrError::ExpectedComma);
        } else {
            i = j + 1;
        }
    }
    match name {
        None => Err(AttrError::MissingName),
        Some(name) => Ok(ScriptAttrs { name, default_job }),
    }
}

/// The tokens of a `name = <literal>` entry.
pub open spec fn name_entry(k: String, lit: String) -> Seq<AttrToken> {
    seq![AttrToken::Ident(k), AttrToken::Punct('='), AttrToken::Literal(lit)]
}

/// The tokens of a `default_job(<inner>)` entry.
pub open spec fn default_job_entry(k: String, inner: Vec<AttrToken>) -> Seq<AttrToken> {
    seq![AttrToken::Ident(k), AttrToken::Group(Delimiter::Parenthesis, inner)]
}

/// A lone `name = "..."` gives that name and no default job, with or without
/// a trailing comma.
pub proof fn lemma_name_only(k: String, lit: String)
    requires
        k@ == "name"@,
        literal_value(lit@) is Some,
    ensures
        spec_parse_script_attrs(name_entry(k, lit)) == Ok::<ScriptAttrsView, AttrErrorView>(
            ScriptAttrsView { name: literal_value(lit@).unwrap(), default_job: None },
        ),
        spec_parse_script_attrs(name_entry(k, lit).push(AttrToken::Punct(','))) == spec_parse_script_attrs(
            name_entry(k, lit),
        ),
{
    let a = name_entry(k, lit);
    let b = a.push(AttrToken::Punct(','));
    let v = literal_value(lit@).unwrap();
    assert(a.len() == 3 && b.len() == 4);
    assert(a[0] == AttrToken::Ident(k) && b[0] == AttrToken::Ident(k));
    assert(a[1] == AttrToken::Punct('=') && b[1] == AttrToken::Punct('='));
    assert(a[2] == AttrToken::Literal(lit) && b[2] == AttrToken::Literal(lit));
    assert(eq_literal_at(a, 1) == Ok::<Seq<char>, AttrErrorView>(v));
    assert(eq_literal_at(b, 1) == Ok::<Seq<char>, AttrErrorView>(v));
    assert(script_attrs_at(a, 0, None, None) == script_attrs_after(a, 3, Some(v), None));
    assert(script_attrs_after(a, 3, Some(v), None) == script_attrs_finish(Some(v), None));
    assert(b[3] == AttrToken::Punct(','));
    assert(is_punct_at(b, 3, ','));
    assert(script_attrs_at(b, 0, None, None) == script_attrs_after(b, 3, Some(v), None));
    assert(script_attrs_after(b, 3, Some(v), None) == script_attrs_at(b, 4, Some(v), None));
    assert(script_attrs_at(b, 4, Some(v), None) == script_attrs_finish(Some(v), None));
}

/// With both entries well formed, `name` and `default_job(...)` may come in
/// either order: both give the same name and default job.
pub proof fn lemma_entries_commute(k: String, lit: String, kd: String, inner: Vec<AttrToken>, comma: AttrToken)
    requires
        k@ == "name"@,
        kd@ == "default_job"@,
        comma == AttrToken::Punct(','),
        literal_value(lit@) is Some,
        spec_parse_default_job(inner@) is Ok,
    ensures
        spec_parse_script_attrs(name_entry(k, lit) + seq![comma] + default_job_entry(kd, inner))
            == Ok::<ScriptAttrsView, AttrErrorView>(
            ScriptAttrsView {
                name: literal_value(lit@).unwrap(),
                default_job: Some(spec_parse_default_job(inner@)->Ok_0),
            },
        ),
        spec_parse_script_attrs(default_job_entry(kd, inner) + seq![comma] + name_entry(k, lit))
            == spec_parse_script_attrs(name_entry(k, lit) + seq![comma] + default_job_entry(kd, inner)),
{
    let n = name_entry(k, lit);
    let d = default_job_entry(kd, inner);
    let x = n + seq![comma] + d;
    let y = d + seq![comma] + n;
    assert(x[0] == AttrToken::Ident(k) && x[1] == AttrToken::Punct('=') && x[2] == AttrToken::Literal(lit));
    assert(x[3] == comma && x[4] == AttrToken::Ident(kd));
    assert(x[5] == AttrToken::Group(Delimiter::Parenthesis, inner));
    assert(y[0] == AttrToken::Ident(kd) && y[1] == AttrToken::Group(Delimiter::Parenthesis, inner));
    assert(y[2] == comma && y[3] == AttrToken::Ident(k));
    assert(y[4] == AttrToken::Punct('=') && y[5] == AttrToken::Literal(lit));
    let v = literal_value(lit@).unwrap();
    let dj = spec_parse_default_job(inner@)->Ok_0;
    reveal_strlit("name");
    reveal_strlit("default_job");
    assert("name"@.len() == 4);
    assert("default_job"@.len() == 11);
    assert(kd@ != "name"@);
    assert(x.len() == 6 && y.len() == 6);
    assert(eq_literal_at(x, 1) == Ok::<Seq<char>, AttrErrorView>(v));
    assert(eq_literal_at(y, 4) == Ok::<Seq<char>, AttrErrorView>(v));
    assert(script_attrs_at(x, 0, None, None) == script_attrs_after(x, 3, Some(v), None));
    assert(is_punct_at(x, 3, ','));
    assert(script_attrs_after(x, 3, Some(v), None) == script_attrs_at(x, 4, Some(v), None));
    assert(script_attrs_at(x, 4, Some(v), None) == script_attrs_after(x, 6, Some(v), Some(dj)));
    assert(script_attrs_after(x, 6, Some(v), Some(dj)) == script_attrs_finish(Some(v), Some(dj)));
    assert(script_attrs_at(y, 0, None, None) == script_attrs_after(y, 2, None, Some(dj)));
    assert(is_punct_at(y, 2, ','));
    assert(script_attrs_after(y, 2, None, Some(dj)) == script_attrs_at(y, 3, None, Some(dj)));
    assert(script_attrs_at(y, 3, None, Some(dj)) == script_attrs_after(y, 6, Some(v), Some(dj)));
    assert(script_attrs_after(y, 6, Some(v), Some(dj)) == script_attrs_finish(Some(v), Some(dj)));
}

/// A second `name` entry is refused, whatever the two names are.
pub proof fn lemma_duplicate_name_refused(k: String, lit1: String, lit2: String, comma: AttrToken)
    requires
        k@ == "name"@,
        comma == AttrToken::Punct(','),
        literal_value(lit1@) is Some,
        literal_value(lit2@) is Some,
    ensures
        spec_parse_script_attrs(name_entry(k, lit1) + seq![comma] + name_entry(k, lit2)) == Err::<
            ScriptAttrsView,
            AttrErrorView,
        >(AttrErrorView::DuplicateName),
{
    let x = name_entry(k, lit1) + seq![comma] + name_entry(k, lit2);
    assert(x[0] == AttrToken::Ident(k) && x[1] == AttrToken::Punct('=') && x[2] == AttrToken::Literal(lit1));
    assert(x[3] == comma && x[4] == AttrToken::Ident(k));
    assert(x[5] == AttrToken::Punct('=') && x[6] == AttrToken::Literal(lit2));
    let v1 = literal_value(lit1@).unwrap();
    assert(x.len() == 7);
    assert(eq_literal_at(x, 1) == Ok::<Seq<char>, AttrErrorView>(v1));
    assert(eq_literal_at(x, 5) is Ok);
    assert(script_attrs_at(x, 0, None, None) == script_attrs_after(x, 3, Some(v1), None));
    assert(is_punct_at(x, 3, ','));
    assert(script_attrs_after(x, 3, Some(v1), None) == script_attrs_at(x, 4, Some(v1), None));
}

/// Reading from index `i` is the same with a comma appended, where the reading
/// succeeds and the tokens do not already end in a comma.
proof fn lemma_attrs_at_trailing_comma(
    x: Seq<AttrToken>,
    i: int,
    name: Option<Seq<char>>,
    default_job: Option<DefaultJobView>,
)
    requires
        0 <= i < x.len(),
        !is_punct_at(x, x.len() - 1, ','),
        script_attrs_at(x, i, name, default_job) is Ok,
    ensures
        script_attrs_at(x.push(AttrToken::Punct(',')), i, name, default_job) == script_attrs_at(
            x,
            i,
            name,
            default_job,
        ),
    decreases x.len() - i, 1int,
{
    let y = x.push(AttrToken::Punct(','));
    assert(y[i] == x[i]);
    match x[i] {
        AttrToken::Ident(k) => {
            if k@ == "name"@ {
                assert(y[i + 1] == x[i + 1] && y[i + 2] == x[i + 2]);
                assert(eq_literal_at(y, i + 1) == eq_literal_at(x, i + 1));
                if name is None {
                    lemma_attrs_after_trailing_comma(x, i + 3, Some(eq_literal_at(x, i + 1)->Ok_0), default_job);
                }
            } else if k@ == "default_job"@ {
                assert(y[i + 1] == x[i + 1]);
                match x[i + 1] {
                    AttrToken::Group(Delimiter::Parenthesis, inner) => {
                        if default_job is None {
                            if spec_parse_default_job(inner@) is Ok {
                                lemma_attrs_after_trailing_comma(
                                    x,
                                    i + 2,
                                    name,
                                    Some(spec_parse_default_job(inner@)->Ok_0),
                                );
                            }
                        }
                    },
                    _ => {},
                }
            }
        },
        _ => {},
    }
}

/// After an entry ending before `j`, the reading is the same with a comma
/// appended, where it succeeds and the tokens do not already end in a comma.
proof fn lemma_attrs_after_trailing_comma(
    x: Seq<AttrToken>,
    j: int,
    name: Option<Seq<char>>,
    default_job: Option<DefaultJobView>,
)
    requires
        0 <= j <= x.len(),
        !is_punct_at(x, x.len() - 1, ','),
        script_attrs_after(x, j, name, default_job) is Ok,
    ensures
        script_attrs_after(x.push(AttrToken::Punct(',')), j, name, default_job) == script_attrs_after(
            x,
            j,
            name,
            default_job,
        ),
    decreases x.len() - j + 1, 0int,
{
    let y = x.push(AttrToken::Punct(','));
    if j == x.len() {
        assert(is_punct_at(y, j, ','));
        assert(script_attrs_after(y, j, name, default_job) == script_attrs_at(y, j + 1, name, default_job));
    } else {
        assert(y[j] == x[j]);
        if j + 1 < x.len() {
            lemma_attrs_at_trailing_comma(x, j + 1, name, default_job);
        }
    }
}

/// A comma after the last entry changes nothing: where the attribute
/// arguments parse and do not end in a comma, appending one gives the same
/// result.
pub proof fn lemma_trailing_comma_accepted(x: Seq<AttrToken>)
    requires
        spec_parse_script_attrs(x) is Ok,
        !is_punct_at(x, x.len() - 1, ','),
    ensures
        spec_parse_script_attrs(x.push(AttrToken::Punct(','))) == spec_parse_script_attrs(x),
{
    if x.len() > 0 {
        lemma_attrs_at_trailing_comma(x, 0, None, None);
    }
}

} // verus!
