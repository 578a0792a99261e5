//! Naming rules: `snake_case` to `PascalCase`, and the names of the items
//! generated for a script function.

use vstd::prelude::*;
use crate::text::{char_to_uppercase, push_char, spec_char_to_uppercase};

verus! {

/// What the character at index `i` of `s` contributes to the PascalCase form:
/// an underscore disappears, the first character of a word is upper-cased,
/// any other character is kept.
pub open spec fn pascal_piece(s: Seq<char>, i: int) -> Seq<char> {
    if s[i] == '_' {
        Seq::empty()
    } else if i == 0 || s[i - 1] == '_' {
        spec_char_to_uppercase(s[i])
    } else {
        seq![s[i]]
    }
}

/// The PascalCase form of the first `n` characters of `s`.
pub open spec fn pascal_prefix(s: Seq<char>, n: int) -> Seq<char>
    decreases n,
{
    if n <= 0 {
        Seq::empty()
    } else {
        pascal_prefix(s, n - 1) + pascal_piece(s, n - 1)
    }
}

/// `snake_case` to `PascalCase`: the words between underscores, each with its
/// first character upper-cased, joined with nothing between them.
pub open spec fn spec_to_pascal_case(s: Seq<char>) -> Seq<char> {
    pascal_prefix(s, s.len() as int)
}

/// All characters are ASCII.
pub open spec fn all_ascii(s: Seq<char>) -> bool {
    forall|i: int| 0 <= i < s.len() ==> (#[trigger] s[i] as int) < 128
}

/// Upper-casing an ASCII character gives one ASCII character that
/// upper-casing leaves as it is.
proof fn lemma_ascii_upper(c: char)
    requires
        (c as int) < 128,
    ensures
        spec_char_to_uppercase(c).len() == 1,
        (spec_char_to_uppercase(c)[0] as int) < 128,
        c != '_' ==> spec_char_to_uppercase(c)[0] != '_',
        spec_char_to_uppercase(spec_char_to_uppercase(c)[0]) == seq![spec_char_to_uppercase(c)[0]],
{
}

/// What the PascalCase form of the first `n` characters of an ASCII string is
/// made of: ASCII characters, no underscore; it is empty exactly where those
/// characters are all underscores; its first character is already upper case.
proof fn lemma_pascal_prefix_ascii(s: Seq<char>, n: int)
    requires
        all_ascii(s),
        0 <= n <= s.len(),
    ensures
        forall|j: int| 0 <= j < pascal_prefix(s, n).len() ==> (#[trigger] pascal_prefix(s, n)[j] as int)
            < 128 && pascal_prefix(s, n)[j] != '_',
        pascal_prefix(s, n).len() == 0 <==> (forall|i: int| 0 <= i < n ==> #[trigger] s[i] == '_'),
        pascal_prefix(s, n).len() > 0 ==> spec_char_to_uppercase(pascal_prefix(s, n)[0]) == seq![
            pascal_prefix(s, n)[0],
        ],
    decreases n,
{
    if n > 0 {
        lemma_pascal_prefix_ascii(s, n - 1);
        let prev = pascal_prefix(s, n - 1);
        let c = s[n - 1];
        lemma_ascii_upper(c);
        let piece = pascal_piece(s, n - 1);
        assert(pascal_prefix(s, n) == prev + piece);
        assert forall|j: int| 0 <= j < piece.len() implies (#[trigger] piece[j] as int) < 128 && piece[j]
            != '_' by {}
        if prev.len() == 0 && c != '_' {
            assert(n - 1 == 0 || s[n - 2] == '_');
            assert(piece == spec_char_to_uppercase(c));
        }
        if prev.len() > 0 {
            assert(pascal_prefix(s, n)[0] == prev[0]);
        }
        if pascal_prefix(s, n).len() == 0 {
            assert(c == '_');
        }
        if (forall|i: int| 0 <= i < n ==> #[trigger] s[i] == '_') {
            assert(s[n - 1] == '_');
        }
    }
}

/// The PascalCase form of the first `n` characters of a string without
/// underscores: its first character upper-cased, the rest kept.
proof fn lemma_pascal_prefix_no_underscore(t: Seq<char>, n: int)
    requires
        forall|i: int| 0 <= i < t.len() ==> #[trigger] t[i] != '_',
        0 <= n <= t.len(),
    ensures
        pascal_prefix(t, n) == if n == 0 {
            Seq::empty()
        } else {
            spec_char_to_uppercase(t[0]) + t.subrange(1, n)
        },
    decreases n,
{
    if n > 1 {
        lemma_pascal_prefix_no_underscore(t, n - 1);
        assert(t.subrange(1, n) =~= t.subrange(1, n - 1).push(t[n - 1]));
        assert(spec_char_to_uppercase(t[0]) + t.subrange(1, n) =~= spec_char_to_uppercase(t[0])
            + t.subrange(1, n - 1) + seq![t[n - 1]]);
    } else if n == 1 {
        assert(t.subrange(1, 1) =~= Seq::<char>::empty());
        assert(pascal_prefix(t, 0) + pascal_piece(t, 0) =~= spec_char_to_uppercase(t[0]));
    }
}

/// For an ASCII name, the PascalCase form holds no underscore, and converting
/// it again changes nothing.
pub proof fn lemma_pascal_case_idempotent(s: Seq<char>)
    requires
        all_ascii(s),
    ensures
        forall|j: int| 0 <= j < spec_to_pascal_case(s).len() ==> #[trigger] spec_to_pascal_case(s)[j] != '_',
        spec_to_pascal_case(spec_to_pascal_case(s)) == spec_to_pascal_case(s),
{
    let t = spec_to_pascal_case(s);
    lemma_pascal_prefix_ascii(s, s.len() as int);
    lemma_pascal_prefix_no_underscore(t, t.len() as int);
    if t.len() > 0 {
        assert(seq![t[0]] + t.subrange(1, t.len() as int) =~= t);
    }
}

/// Converts `snake_case` to `PascalCase`.
pub fn to_pascal_case(s: &str) -> (out: String)
    ensures
        out@ == spec_to_pascal_case(s@),
{
    let n = s.unicode_len();
    let mut out = String::new();
    let mut i: usize = 0;
    while i < n
        invariant
            n == s@.len(),
            i <= n,
            out@ == pascal_prefix(s@, i as int),
        decreases n - i,
    {
        let c = s.get_char(i);
        if c == '_' {
        } else if i == 0 || s.get_char(i - 1) == '_' {
            let up = char_to_uppercase(c);
            out.append(up.as_str());
        } else {
            push_char(&mut out, c);
        }
        proof {
            assert(out@ =~= pascal_prefix(s@, i as int) + pascal_piece(s@, i as int));
        }
        i += 1;
    }
    out
}

/// `s` ends with `suffix`.
pub open spec fn ends_with(s: Seq<char>, suffix: Seq<char>) -> bool {
    suffix.len() <= s.len() && s.subrange(s.len() - suffix.len(), s.len() as int) == suffix
}

/// Name of the parameters struct: `<Pascal>Params`.
pub open spec fn spec_params_struct_name(fn_name: Seq<char>) -> Seq<char> {
    spec_to_pascal_case(fn_name) + "Params"@
}

/// Name of the script type: `<Pascal>Script`, or `<Pascal>` where that
/// already ends with `Script`.
pub open spec fn spec_script_type_name(fn_name: Seq<char>) -> Seq<char> {
    let pascal = spec_to_pascal_case(fn_name);
    if ends_with(pascal, "Script"@) {
        pascal
    } else {
        pascal + "Script"@
    }
}

/// Name of the renamed user function: `__<fn>_impl`.
pub open spec fn spec_internal_fn_name(fn_name: Seq<char>) -> Seq<char> {
    "__"@ + fn_name + "_impl"@
}

/// Name of the default-job bootstrap function: `__chronon_default_job_ensure_<fn>`.
pub open spec fn spec_default_job_fn_name(fn_name: Seq<char>) -> Seq<char> {
    "__chronon_default_job_ensure_"@ + fn_name
}

/// The script type's name always ends with `Script`.
pub proof fn lemma_script_type_name_ends_with_script(fn_name: Seq<char>)
    ensures
        ends_with(spec_script_type_name(fn_name), "Script"@),
{
    let p = spec_to_pascal_case(fn_name);
    let q = p + "Script"@;
    assert(q.subrange(q.len() - "Script"@.len(), q.len() as int) =~= "Script"@);
}

/// Whether `s` ends with `suffix`.
pub(crate) fn ends_with_text(s: &str, suffix: &str) -> (b: bool)
    ensures
        b == ends_with(s@, suffix@),
{
    let n = s.unicode_len();
    let m = suffix.unicode_len();
    if m > n {
        return false;
    }
    let mut i: usize = 0;
    while i < m
        invariant
            n == s@.len(),
            m == suffix@.len(),
            m <= n,
            i <= m,
            forall|j: int| 0 <= j < i ==> s@[n - m + j] == suffix@[j],
        decreases m - i,
    {
        if s.get_char(n - m + i) != suffix.get_char(i) {
            assert(s@.subrange(n - m, n as int)[i as int] != suffix@[i as int]);
            return false;
        }
        i += 1;
    }
    assert(s@.subrange(n - m, n as int) =~= suffix@);
    true
}

/// Names of the generated items for a function named `fn_name`:
/// (parameters struct, script type).
pub(crate) fn generated_type_names(fn_name: &str) -> (names: (String, String))
    ensures
        names.0@ == spec_params_struct_name(fn_name@),
        names.1@ == spec_script_type_name(fn_name@),
{
    let pascal = to_pascal_case(fn_name);
    let params_struct_name = pascal.clone().concat("Params");
    let script_type_name = if ends_with_text(pascal.as_str(), "Script") {
        pascal
    } else {
        pascal.concat("Script")
    };
    (params_struct_name, script_type_name)
}

/// `__<fn>_impl`.
pub(crate) fn internal_fn_name(fn_name: &str) -> (n: String)
    ensures
        n@ == spec_internal_fn_name(fn_name@),
{
    String::from_str("__").concat(fn_name).concat("_impl")
}

/// `__chronon_default_job_ensure_<fn>`.
pub(crate) fn default_job_fn_name(fn_name: &str) -> (n: String)
    ensures
        n@ == spec_default_job_fn_name(fn_name@),
{
    String::from_str("__chronon_default_job_ensure_").concat(fn_name)
}

} // verus!
