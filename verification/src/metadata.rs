//! Signature metadata: the JSON object that maps each parameter name to its
//! type's token text, and the hash of that JSON text.

use vstd::prelude::*;
use crate::order::{
    chars_less, lemma_chars_less_irreflexive, lemma_chars_less_total, lemma_chars_less_transitive,
    string_less,
};
use crate::signature::{PatModel, TypedParam};
use crate::text::{result_view, same_text};

verus! {

/// The views of key-value string pairs.
pub open spec fn entry_views(e: Seq<(String, String)>) -> Seq<(Seq<char>, Seq<char>)> {
    e.map_values(|x: (String, String)| (x.0@, x.1@))
}

/// Keys strictly increasing: sorted, no key twice.
pub open spec fn keys_sorted(e: Seq<(Seq<char>, Seq<char>)>) -> bool {
    forall|i: int, j: int| 0 <= i < j < e.len() ==> chars_less(#[trigger] e[i].0, #[trigger] e[j].0)
}

/// The map that inserting the pairs in order into an empty map gives (a later
/// pair replaces an earlier one with the same key).
pub open spec fn listing_map(e: Seq<(Seq<char>, Seq<char>)>) -> Map<Seq<char>, Seq<char>>
    decreases e.len(),
{
    if e.len() == 0 {
        Map::empty()
    } else {
        listing_map(e.drop_last()).insert(e.last().0, e.last().1)
    }
}

/// The keys of `listing_map(e)` are the keys of the pairs.
pub proof fn lemma_listing_map_dom(e: Seq<(Seq<char>, Seq<char>)>)
    ensures
        forall|k: Seq<char>|
            #[trigger] listing_map(e).contains_key(k) <==> exists|i: int| 0 <= i < e.len() && e[i].0 == k,
    decreases e.len(),
{
    if e.len() > 0 {
        lemma_listing_map_dom(e.drop_last());
        assert forall|k: Seq<char>|
            #[trigger] listing_map(e).contains_key(k) implies exists|i: int|
                0 <= i < e.len() && e[i].0 == k by {
            if k != e.last().0 {
                assert(listing_map(e.drop_last()).contains_key(k));
                let i = choose|i: int| 0 <= i < e.drop_last().len() && e.drop_last()[i].0 == k;
                assert(e[i].0 == k);
            }
        }
        assert forall|k: Seq<char>|
            (exists|i: int| 0 <= i < e.len() && e[i].0 == k) implies #[trigger] listing_map(
            e,
        ).contains_key(k) by {
            let i = choose|i: int| 0 <= i < e.len() && e[i].0 == k;
            if i < e.len() - 1 {
                assert(e.drop_last()[i].0 == k);
                assert(listing_map(e.drop_last()).contains_key(k));
            }
        }
    }
}

/// Where no key occurs twice, each pair's value is its key's value.
pub proof fn lemma_listing_map_value(e: Seq<(Seq<char>, Seq<char>)>, i: int)
    requires
        keys_sorted(e),
        0 <= i < e.len(),
    ensures
        listing_map(e).contains_key(e[i].0),
        listing_map(e)[e[i].0] == e[i].1,
    decreases e.len(),
{
    if i < e.len() - 1 {
        let d = e.drop_last();
        assert(keys_sorted(d)) by {
            assert forall|a: int, b: int| 0 <= a < b < d.len() implies chars_less(
                #[trigger] d[a].0,
                #[trigger] d[b].0,
            ) by {
                assert(d[a] == e[a] && d[b] == e[b]);
            }
        }
        lemma_listing_map_value(d, i);
        assert(chars_less(e[i].0, e[e.len() - 1].0));
        lemma_chars_less_irreflexive(e[i].0);
    }
}

/// Two sorted listings of the same pairs give the same map, whatever their
/// positions: the map is fixed by membership and values.
proof fn lemma_listing_map_ext(e: Seq<(Seq<char>, Seq<char>)>, m: Map<Seq<char>, Seq<char>>)
    requires
        keys_sorted(e),
        forall|k: Seq<char>| #[trigger] m.contains_key(k) <==> exists|i: int| 0 <= i < e.len() && e[i].0 == k,
        forall|i: int| 0 <= i < e.len() ==> #[trigger] m[e[i].0] == e[i].1,
    ensures
        listing_map(e) == m,
{
    lemma_listing_map_dom(e);
    assert forall|k: Seq<char>| #[trigger] listing_map(e).contains_key(k) implies listing_map(e)[k]
        == m[k] by {
        let i = choose|i: int| 0 <= i < e.len() && e[i].0 == k;
        lemma_listing_map_value(e, i);
    }
    assert(listing_map(e) =~= m);
}

/// A prefix of a sorted listing is sorted.
proof fn lemma_keys_sorted_drop_last(e: Seq<(Seq<char>, Seq<char>)>)
    requires
        keys_sorted(e),
        e.len() > 0,
    ensures
        keys_sorted(e.drop_last()),
{
    let d = e.drop_last();
    assert forall|a: int, b: int| 0 <= a < b < d.len() implies chars_less(
        #[trigger] d[a].0,
        #[trigger] d[b].0,
    ) by {
        assert(d[a] == e[a] && d[b] == e[b]);
    }
}

/// A map has one sorted listing.
pub proof fn lemma_sorted_listing_unique(e1: Seq<(Seq<char>, Seq<char>)>, e2: Seq<(Seq<char>, Seq<char>)>)
    requires
        keys_sorted(e1),
        keys_sorted(e2),
        listing_map(e1) == listing_map(e2),
    ensures
        e1 == e2,
    decreases e1.len() + e2.len(),
{
    lemma_listing_map_dom(e1);
    lemma_listing_map_dom(e2);
    if e1.len() == 0 || e2.len() == 0 {
        if e1.len() > 0 {
            assert(listing_map(e1).contains_key(e1.last().0));
            assert(!listing_map(e2).contains_key(e1.last().0));
        } else if e2.len() > 0 {
            assert(listing_map(e2).contains_key(e2.last().0));
            assert(!listing_map(e1).contains_key(e2.last().0));
        }
        assert(e1 =~= e2);
    } else {
        let n1 = e1.len() - 1;
        let n2 = e2.len() - 1;
        let k1 = e1[n1].0;
        let k2 = e2[n2].0;
        assert(listing_map(e1).contains_key(k1));
        assert(listing_map(e2).contains_key(k2));
        if k1 != k2 {
            assert(listing_map(e2).contains_key(k1));
            let j = choose|j: int| 0 <= j < e2.len() && e2[j].0 == k1;
            assert(listing_map(e1).contains_key(k2));
            let i = choose|i: int| 0 <= i < e1.len() && e1[i].0 == k2;
            assert(chars_less(e2[j].0, e2[n2].0));
            assert(chars_less(e1[i].0, e1[n1].0));
            lemma_chars_less_total(k1, k2);
        }
        lemma_listing_map_value(e1, n1);
        lemma_listing_map_value(e2, n2);
        assert(e1[n1] == e2[n2]);
        let d1 = e1.drop_last();
        let d2 = e2.drop_last();
        lemma_keys_sorted_drop_last(e1);
        lemma_keys_sorted_drop_last(e2);
        lemma_listing_map_dom(d1);
        lemma_listing_map_dom(d2);
        assert(!listing_map(d1).contains_key(k1)) by {
            if listing_map(d1).contains_key(k1) {
                let i = choose|i: int| 0 <= i < d1.len() && d1[i].0 == k1;
                assert(chars_less(e1[i].0, e1[n1].0));
                lemma_chars_less_irreflexive(k1);
            }
        }
        assert(!listing_map(d2).contains_key(k1)) by {
            if listing_map(d2).contains_key(k1) {
                let i = choose|i: int| 0 <= i < d2.len() && d2[i].0 == k1;
                assert(chars_less(e2[i].0, e2[n2].0));
                lemma_chars_less_irreflexive(k1);
            }
        }
        assert(listing_map(d1) =~= listing_map(e1).remove(k1));
        assert(listing_map(d2) =~= listing_map(e2).remove(k1));
        lemma_sorted_listing_unique(d1, d2);
        assert(e1 =~= d1.push(e1[n1]));
        assert(e2 =~= d2.push(e2[n2]));
    }
}

/// Inserts a key-value pair into a listing sorted by key, replacing the value
/// of an equal key.
fn insert_sorted(entries: &mut Vec<(String, String)>, key: String, value: String)
    requires
        keys_sorted(entry_views(old(entries)@)),
    ensures
        keys_sorted(entry_views(final(entries)@)),
        listing_map(entry_views(final(entries)@)) == listing_map(entry_views(old(entries)@)).insert(
            key@,
            value@,
        ),
{
    let ghost old_e = entry_views(entries@);
    let n = entries.len();
    let mut p: usize = 0;
    while p < n && string_less(entries[p].0.as_str(), key.as_str())
        invariant
            n == entries@.len(),
            p <= n,
            entry_views(entries@) == old_e,
            forall|j: int| 0 <= j < p ==> chars_less(#[trigger] old_e[j].0, key@),
        decreases n - p,
    {
        p += 1;
    }
    proof {
        lemma_listing_map_dom(old_e);
    }
    let ghost target = listing_map(old_e).insert(key@, value@);
    if p < n && same_text(entries[p].0.as_str(), key.as_str()) {
        entries.set(p, (key, value));
        proof {
            let e = entry_views(entries@);
            assert(e =~= old_e.update(p as int, (key@, value@)));
            assert(keys_sorted(e)) by {
                assert forall|a: int, b: int| 0 <= a < b < e.len() implies chars_less(
                    #[trigger] e[a].0,
                    #[trigger] e[b].0,
                ) by {
                    assert(e[a].0 == old_e[a].0);
                    assert(e[b].0 == old_e[b].0);
                }
            }
            assert forall|k: Seq<char>| #[trigger] target.contains_key(k) <==> exists|i: int|
                0 <= i < e.len() && e[i].0 == k by {
                if target.contains_key(k) {
                    if k == key@ {
                        assert(e[p as int].0 == k);
                    } else {
                        assert(listing_map(old_e).contains_key(k));
                        let i = choose|i: int| 0 <= i < old_e.len() && old_e[i].0 == k;
                        assert(e[i].0 == k);
                    }
                }
                if exists|i: int| 0 <= i < e.len() && e[i].0 == k {
                    let i = choose|i: int| 0 <= i < e.len() && e[i].0 == k;
                    if i != p {
                        assert(old_e[i].0 == k);
                        assert(listing_map(old_e).contains_key(k));
                    }
                }
            }
            assert forall|i: int| 0 <= i < e.len() implies #[trigger] target[e[i].0] == e[i].1 by {
                if i != p {
                    lemma_listing_map_value(old_e, i);
                    assert(e[i].0 != key@) by {
                        if i < p {
                            assert(chars_less(old_e[i].0, old_e[p as int].0));
                        } else {
                            assert(chars_less(old_e[p as int].0, old_e[i].0));
                        }
                        lemma_chars_less_irreflexive(key@);
                    }
                }
            }
            lemma_listing_map_ext(e, target);
        }
    } else {
        proof {
            if p < n {
                assert(entries@[p as int].0@ == old_e[p as int].0);
                lemma_chars_less_total(old_e[p as int].0, key@);
                assert(chars_less(key@, old_e[p as int].0));
            }
        }
        entries.insert(p, (key, value));
        proof {
            let e = entry_views(entries@);
            assert(e =~= old_e.insert(p as int, (key@, value@)));
            assert(keys_sorted(e)) by {
                assert forall|a: int, b: int| 0 <= a < b < e.len() implies chars_less(
                    #[trigger] e[a].0,
                    #[trigger] e[b].0,
                ) by {
                    if b < p {
                        assert(e[a] == old_e[a] && e[b] == old_e[b]);
                    } else if b == p {
                        assert(e[a] == old_e[a]);
                    } else if a < p {
                        assert(e[a] == old_e[a] && e[b] == old_e[b - 1]);
                        lemma_chars_less_transitive(old_e[a].0, key@, old_e[p as int].0);
                        if b - 1 > p {
                            lemma_chars_less_transitive(old_e[a].0, old_e[p as int].0, old_e[b - 1].0);
                        }
                    } else if a == p {
                        assert(e[b] == old_e[b - 1]);
                        if b - 1 > p {
                            lemma_chars_less_transitive(key@, old_e[p as int].0, old_e[b - 1].0);
                        }
                    } else {
                        assert(e[a] == old_e[a - 1] && e[b] == old_e[b - 1]);
                    }
                }
            }
            assert forall|k: Seq<char>| #[trigger] target.contains_key(k) <==> exists|i: int|
                0 <= i < e.len() && e[i].0 == k by {
                if target.contains_key(k) {
                    if k == key@ {
                        assert(e[p as int].0 == k);
                    } else {
                        assert(listing_map(old_e).contains_key(k));
                        let i = choose|i: int| 0 <= i < old_e.len() && old_e[i].0 == k;
                        if i < p {
                            assert(e[i].0 == k);
                        } else {
                            assert(e[i + 1].0 == k);
                        }
                    }
                }
                if exists|i: int| 0 <= i < e.len() && e[i].0 == k {
                    let i = choose|i: int| 0 <= i < e.len() && e[i].0 == k;
                    if i < p {
                        assert(old_e[i].0 == k);
                        assert(listing_map(old_e).contains_key(k));
                    } else if i > p {
                        assert(old_e[i - 1].0 == k);
                        assert(listing_map(old_e).contains_key(k));
                    }
                }
            }
            assert forall|i: int| 0 <= i < e.len() implies #[trigger] target[e[i].0] == e[i].1 by {
                if i != p {
                    let oi = if i < p {
                        i
                    } else {
                        i - 1
                    };
                    assert(e[i] == old_e[oi]);
                    lemma_listing_map_value(old_e, oi);
                    assert(old_e[oi].0 != key@) by {
                        if oi < p {
                            lemma_chars_less_irreflexive(key@);
                        } else {
                            if oi > p {
                                lemma_chars_less_transitive(key@, old_e[p as int].0, old_e[oi].0);
                            }
                            lemma_chars_less_irreflexive(key@);
                        }
                    }
                }
            }
            lemma_listing_map_ext(e, target);
        }
    }
}

/// A lower-case hexadecimal digit.
pub open spec fn hex_digit(n: int) -> char {
    if n < 10 {
        (48 + n) as char
    } else {
        (87 + n) as char
    }
}

/// How a JSON string writes one character: `"` and `\` behind a backslash,
/// backspace, tab, line feed, form feed and carriage return as `\b`, `\t`,
/// `\n`, `\f`, `\r`, the other control characters below 0x20 as `\u00xx`,
/// everything else as itself.
pub open spec fn json_escape_char(c: char) -> Seq<char> {
    let n = c as int;
    if c == '"' {
        seq!['\\', '"']
    } else if c == '\\' {
        seq!['\\', '\\']
    } else if n == 8 {
        seq!['\\', 'b']
    } else if n == 9 {
        seq!['\\', 't']
    } else if n == 10 {
        seq!['\\', 'n']
    } else if n == 12 {
        seq!['\\', 'f']
    } else if n == 13 {
        seq!['\\', 'r']
    } else if n < 32 {
        seq!['\\', 'u', '0', '0', hex_digit(n / 16), hex_digit(n % 16)]
    } else {
        seq![c]
    }
}

/// The characters of a string, each written as a JSON string writes it.
pub open spec fn json_escaped(s: Seq<char>) -> Seq<char>
    decreases s.len(),
{
    if s.len() == 0 {
        Seq::empty()
    } else {
        json_escaped(s.drop_last()) + json_escape_char(s.last())
    }
}

/// A JSON string: the escaped characters between quotes.
pub open spec fn json_string(s: Seq<char>) -> Seq<char> {
    seq!['"'] + json_escaped(s) + seq!['"']
}

/// The members of a JSON object, `"key":"value"` each, separated by commas.
pub open spec fn json_members(e: Seq<(Seq<char>, Seq<char>)>) -> Seq<char>
    decreases e.len(),
{
    if e.len() == 0 {
        Seq::empty()
    } else if e.len() == 1 {
        json_string(e[0].0) + seq![':'] + json_string(e[0].1)
    } else {
        json_members(e.drop_last()) + seq![','] + json_string(e.last().0) + seq![':'] + json_string(
            e.last().1,
        )
    }
}

/// The compact JSON object of key-value pairs, in their order.
pub open spec fn json_object_text(e: Seq<(Seq<char>, Seq<char>)>) -> Seq<char> {
    seq!['{'] + json_members(e) + seq!['}']
}

/// The hash that `std`'s `DefaultHasher` (as `DefaultHasher::new` makes it)
/// gives for a string.
pub uninterp spec fn spec_signature_hash(text: Seq<char>) -> u64;

/// Trusted: `serde_json::to_string` of the `BTreeMap` that holds the pairs
/// (keys already in increasing order, none twice), an error turned into its
/// text. Claims, as serde_json's compact serializer shows, that it succeeds
/// (strings into a `Vec` cannot fail) with the JSON object of the pairs in
/// their (the map's) order, each string escaped as [`json_escape_char`] says.
#[verifier::external_body]
fn json_object(entries: &Vec<(String, String)>) -> (r: Result<String, String>)
    requires
        keys_sorted(entry_views(entries@)),
    ensures
        r is Ok,
        r->Ok_0@ == json_object_text(entry_views(entries@)),
{
    let map: std::collections::BTreeMap<&str, &str> = entries.iter().map(
        |(k, v)| (k.as_str(), v.as_str()),
    ).collect();
    serde_json::to_string(&map).map_err(|e| e.to_string())
}

/// Trusted: `BuildHasher::hash_one` with `BuildHasherDefault<DefaultHasher>`,
/// which hashes the string with a fresh `DefaultHasher::new()` and finishes.
/// Claims that the result is the named hash of the text.
#[verifier::external_body]
fn signature_hash(text: &String) -> (h: u64)
    ensures
        h == spec_signature_hash(text@),
{
    std::hash::BuildHasher::hash_one(
        &std::hash::BuildHasherDefault::<std::hash::DefaultHasher>::default(),
        text,
    )
}

/// The binding name of a simple-identifier pattern.
pub open spec fn pat_name(p: PatModel) -> Seq<char> {
    match p {
        PatModel::Ident(n) => n@,
        PatModel::Other => Seq::empty(),
    }
}

/// The parameters behind references.
pub open spec fn deref_params(ps: Seq<&TypedParam>) -> Seq<TypedParam> {
    ps.map_values(|p: &TypedParam| *p)
}

/// Every parameter binds a simple identifier.
pub open spec fn all_simple_idents(ps: Seq<TypedParam>) -> bool {
    forall|i: int| 0 <= i < ps.len() ==> #[trigger] ps[i].pat is Ident
}

/// Name-type pairs of the parameters, in order.
pub open spec fn param_pairs(ps: Seq<TypedParam>) -> Seq<(Seq<char>, Seq<char>)> {
    ps.map_values(|p: TypedParam| (pat_name(p.pat), p.ty_text@))
}

/// The signature map: each parameter name to its type's token text (for a
/// repeated name, the last parameter's type).
pub open spec fn signature_map(ps: Seq<TypedParam>) -> Map<Seq<char>, Seq<char>> {
    listing_map(param_pairs(ps))
}

/// Why signature metadata could not be built.
#[derive(Debug)]
pub enum MetadataError {
    /// A parameter after the context is a pattern, not a simple identifier.
    ParamNotSimpleIdent,
    /// The JSON serializer failed; its message. `serde_json` reports no
    /// failure for a map of strings, so this does not occur.
    Json(String),
}

/// Mathematical form of a [`MetadataError`].
pub enum MetadataErrorView {
    ParamNotSimpleIdent,
    Json(Seq<char>),
}

impl View for MetadataError {
    type V = MetadataErrorView;

    open spec fn view(&self) -> MetadataErrorView {
        match self {
            MetadataError::ParamNotSimpleIdent => MetadataErrorView::ParamNotSimpleIdent,
            MetadataError::Json(m) => MetadataErrorView::Json(m@),
        }
    }
}

/// The diagnostic text of a metadata error.
pub open spec fn metadata_error_message(e: MetadataErrorView) -> Seq<char> {
    match e {
        MetadataErrorView::ParamNotSimpleIdent =>
            "#[chronon_coordinator_macros::script] parameters after ScriptContext must be simple identifiers"@,
        MetadataErrorView::Json(m) => "failed to build script signature metadata: "@ + m,
    }
}

impl MetadataError {
    /// The diagnostic text.
    pub fn message(&self) -> (m: String)
        ensures
            m@ == metadata_error_message(self@),
    {
        match self {
            MetadataError::ParamNotSimpleIdent => String::from_str(
                "#[chronon_coordinator_macros::script] parameters after ScriptContext must be simple identifiers",
            ),
            MetadataError::Json(m) => String::from_str("failed to build script signature metadata: ").concat(
                m.as_str(),
            ),
        }
    }
}

/// The listing of a map sorted by key, no key twice.
pub open spec fn sorted_listing(m: Map<Seq<char>, Seq<char>>) -> Seq<(Seq<char>, Seq<char>)> {
    choose|e: Seq<(Seq<char>, Seq<char>)>| keys_sorted(e) && listing_map(e) == m
}

/// The JSON object of a map: its members in key order.
pub open spec fn map_json(m: Map<Seq<char>, Seq<char>>) -> Seq<char> {
    json_object_text(sorted_listing(m))
}

/// The metadata of parameters: the JSON of their signature map and its hash.
pub open spec fn spec_build_signature_metadata(ps: Seq<TypedParam>) -> Result<
    (Seq<char>, u64),
    MetadataErrorView,
> {
    if !all_simple_idents(ps) {
        Err(MetadataErrorView::ParamNotSimpleIdent)
    } else {
        let json = map_json(signature_map(ps));
        Ok((json, spec_signature_hash(json)))
    }
}

/// Builds the signature metadata: the JSON object mapping each parameter name
/// to its type's token text, and the hash of that JSON text.
pub fn build_signature_metadata(params: &Vec<&TypedParam>) -> (res: Result<(String, u64), MetadataError>)
    ensures
        result_view(res) == spec_build_signature_metadata(deref_params(params@)),
{
    let ghost ps = deref_params(params@);
    let mut entries: Vec<(String, String)> = Vec::new();
    let n = params.len();
    let mut i: usize = 0;
    while i < n
        invariant
            n == params@.len(),
            ps == deref_params(params@),
            i <= n,
            all_simple_idents(ps.take(i as int)),
            keys_sorted(entry_views(entries@)),
            listing_map(entry_views(entries@)) == signature_map(ps.take(i as int)),
        decreases n - i,
    {
        let p = params[i];
        match &p.pat {
            PatModel::Ident(name) => {
                insert_sorted(&mut entries, name.clone(), p.ty_text.clone());
            },
            PatModel::Other => {
                proof {
                    assert(ps[i as int].pat is Other);
                }
                return Err(MetadataError::ParamNotSimpleIdent);
            },
        }
        proof {
            assert(param_pairs(ps.take(i + 1)).drop_last() =~= param_pairs(ps.take(i as int)));
            assert(ps.take(i + 1)[i as int] == ps[i as int]);
            assert forall|j: int| 0 <= j < i + 1 implies #[trigger] ps.take(i + 1)[j].pat is Ident by {
                if j < i {
                    assert(ps.take(i + 1)[j] == ps.take(i as int)[j]);
                }
            }
        }
        i += 1;
    }
    proof {
        assert(ps.take(n as int) =~= ps);
    }
    proof {
        let e = entry_views(entries@);
        lemma_sorted_listing_unique(e, sorted_listing(signature_map(ps)));
    }
    let json = match json_object(&entries) {
        Ok(json) => json,
        Err(m) => return Err(MetadataError::Json(m)),
    };
    let hash = signature_hash(&json);
    Ok((json, hash))
}

/// The value of a key in `listing_map(e)` is that of its last pair.
pub proof fn lemma_listing_map_last_wins(e: Seq<(Seq<char>, Seq<char>)>, i: int)
    requires
        0 <= i < e.len(),
        forall|j: int| i < j < e.len() ==> #[trigger] e[j].0 != e[i].0,
    ensures
        listing_map(e).contains_key(e[i].0),
        listing_map(e)[e[i].0] == e[i].1,
    decreases e.len(),
{
    if i < e.len() - 1 {
        let d = e.drop_last();
        assert forall|j: int| i < j < d.len() implies #[trigger] d[j].0 != d[i].0 by {
            assert(d[j] == e[j]);
        }
        lemma_listing_map_last_wins(d, i);
        assert(e[e.len() - 1].0 != e[i].0);
    }
}

/// Swapping two neighbouring pairs with different keys does not change the map.
proof fn lemma_listing_map_swap(e: Seq<(Seq<char>, Seq<char>)>, i: int)
    requires
        0 <= i,
        i + 1 < e.len(),
        e[i].0 != e[i + 1].0,
    ensures
        listing_map(e.update(i, e[i + 1]).update(i + 1, e[i])) == listing_map(e),
    decreases e.len(),
{
    let f = e.update(i, e[i + 1]).update(i + 1, e[i]);
    if i + 1 < e.len() - 1 {
        lemma_listing_map_swap(e.drop_last(), i);
        assert(f.drop_last() =~= e.drop_last().update(i, e[i + 1]).update(i + 1, e[i]));
        assert(f.last() == e.last());
    } else {
        let base = e.drop_last().drop_last();
        assert(f.drop_last().drop_last() =~= base);
        assert(e.drop_last().last() == e[i] && f.drop_last().last() == e[i + 1]);
        assert(f.last() == e[i] && e.last() == e[i + 1]);
        let m = listing_map(base);
        assert(listing_map(e.drop_last()) == m.insert(e[i].0, e[i].1));
        assert(listing_map(f.drop_last()) == m.insert(e[i + 1].0, e[i + 1].1));
        assert(listing_map(e) == m.insert(e[i].0, e[i].1).insert(e[i + 1].0, e[i + 1].1));
        assert(listing_map(f) == m.insert(e[i + 1].0, e[i + 1].1).insert(e[i].0, e[i].1));
        assert(listing_map(f) =~= listing_map(e));
    }
}

/// The signature metadata records every parameter name, with the type of the
/// last parameter of that name, and no other name.
pub proof fn lemma_signature_map_records_params(ps: Seq<TypedParam>)
    ensures
        forall|k: Seq<char>|
            #[trigger] signature_map(ps).contains_key(k) <==> exists|i: int|
                0 <= i < ps.len() && pat_name(ps[i].pat) == k,
        forall|i: int|
            0 <= i < ps.len() && (forall|j: int|
                i < j < ps.len() ==> pat_name(#[trigger] ps[j].pat) != pat_name(ps[i].pat)) ==> #[trigger] signature_map(
                ps,
            )[pat_name(ps[i].pat)] == ps[i].ty_text@,
{
    let e = param_pairs(ps);
    lemma_listing_map_dom(e);
    assert forall|k: Seq<char>| #[trigger] signature_map(ps).contains_key(k) <==> exists|i: int|
        0 <= i < ps.len() && pat_name(ps[i].pat) == k by {
        if signature_map(ps).contains_key(k) {
            let i = choose|i: int| 0 <= i < e.len() && e[i].0 == k;
            assert(pat_name(ps[i].pat) == k);
        }
        if exists|i: int| 0 <= i < ps.len() && pat_name(ps[i].pat) == k {
            let i = choose|i: int| 0 <= i < ps.len() && pat_name(ps[i].pat) == k;
            assert(e[i].0 == k);
        }
    }
    assert forall|i: int|
        0 <= i < ps.len() && (forall|j: int|
            i < j < ps.len() ==> pat_name(#[trigger] ps[j].pat) != pat_name(ps[i].pat)) implies #[trigger] signature_map(
        ps,
    )[pat_name(ps[i].pat)] == ps[i].ty_text@ by {
        assert forall|j: int| i < j < e.len() implies #[trigger] e[j].0 != e[i].0 by {
            assert(e[j].0 == pat_name(ps[j].pat));
        }
        lemma_listing_map_last_wins(e, i);
    }
}

/// Where every pair with key `k` has the value `v`, `v` is the value of `k`.
proof fn lemma_listing_map_same_value(e: Seq<(Seq<char>, Seq<char>)>, k: Seq<char>, v: Seq<char>)
    requires
        forall|i: int| 0 <= i < e.len() && (#[trigger] e[i]).0 == k ==> e[i].1 == v,
    ensures
        listing_map(e).contains_key(k) ==> listing_map(e)[k] == v,
    decreases e.len(),
{
    if e.len() > 0 {
        let d = e.drop_last();
        assert forall|i: int| 0 <= i < d.len() && (#[trigger] d[i]).0 == k implies d[i].1 == v by {
            assert(d[i] == e[i]);
        }
        lemma_listing_map_same_value(d, k, v);
        assert(e.last() == e[e.len() - 1]);
    }
}

/// Parameters with distinct names give the same metadata, JSON and hash, in
/// any order: a rearrangement of them changes nothing.
pub proof fn lemma_metadata_any_order(ps: Seq<TypedParam>, qs: Seq<TypedParam>)
    requires
        qs.to_multiset() == ps.to_multiset(),
        forall|i: int, j: int|
            0 <= i < j < ps.len() ==> pat_name(#[trigger] ps[i].pat) != pat_name(#[trigger] ps[j].pat),
    ensures
        spec_build_signature_metadata(qs) == spec_build_signature_metadata(ps),
{
    ps.to_multiset_ensures();
    qs.to_multiset_ensures();
    assert forall|p: TypedParam| ps.contains(p) <==> qs.contains(p) by {
        assert(ps.contains(p) <==> ps.to_multiset().count(p) > 0);
        assert(qs.contains(p) <==> qs.to_multiset().count(p) > 0);
    }
    assert(all_simple_idents(qs) == all_simple_idents(ps)) by {
        if all_simple_idents(ps) {
            assert forall|j: int| 0 <= j < qs.len() implies #[trigger] qs[j].pat is Ident by {
                assert(qs.contains(qs[j]));
                let a = choose|a: int| 0 <= a < ps.len() && ps[a] == qs[j];
            }
        }
        if all_simple_idents(qs) {
            assert forall|j: int| 0 <= j < ps.len() implies #[trigger] ps[j].pat is Ident by {
                assert(ps.contains(ps[j]));
                let a = choose|a: int| 0 <= a < qs.len() && qs[a] == ps[j];
            }
        }
    }
    let ep = param_pairs(ps);
    let eq = param_pairs(qs);
    let mp = signature_map(ps);
    let mq = signature_map(qs);
    lemma_listing_map_dom(ep);
    lemma_listing_map_dom(eq);
    assert forall|k: Seq<char>| mq.contains_key(k) <==> mp.contains_key(k) by {
        if mq.contains_key(k) {
            let i = choose|i: int| 0 <= i < eq.len() && eq[i].0 == k;
            assert(qs.contains(qs[i]));
            let a = choose|a: int| 0 <= a < ps.len() && ps[a] == qs[i];
            assert(ep[a].0 == k);
        }
        if mp.contains_key(k) {
            let i = choose|i: int| 0 <= i < ep.len() && ep[i].0 == k;
            assert(ps.contains(ps[i]));
            let a = choose|a: int| 0 <= a < qs.len() && qs[a] == ps[i];
            assert(eq[a].0 == k);
        }
    }
    assert forall|k: Seq<char>| #[trigger] mp.contains_key(k) implies mq[k] == mp[k] by {
        let j = choose|j: int| 0 <= j < ep.len() && ep[j].0 == k;
        let v = ps[j].ty_text@;
        assert forall|i: int| 0 <= i < ep.len() && (#[trigger] ep[i]).0 == k implies ep[i].1 == v by {
            if i != j {
                if i < j {
                    assert(pat_name(ps[i].pat) != pat_name(ps[j].pat));
                } else {
                    assert(pat_name(ps[j].pat) != pat_name(ps[i].pat));
                }
            }
        }
        lemma_listing_map_same_value(ep, k, v);
        assert forall|i: int| 0 <= i < eq.len() && (#[trigger] eq[i]).0 == k implies eq[i].1 == v by {
            assert(qs.contains(qs[i]));
            let a = choose|a: int| 0 <= a < ps.len() && ps[a] == qs[i];
            if a != j {
                if a < j {
                    assert(pat_name(ps[a].pat) != pat_name(ps[j].pat));
                } else {
                    assert(pat_name(ps[j].pat) != pat_name(ps[a].pat));
                }
            }
        }
        lemma_listing_map_same_value(eq, k, v);
    }
    assert(mq =~= mp);
}

/// Swapping two neighbouring parameters with different names changes neither
/// the signature JSON nor its hash: the metadata depends on the name-to-type
/// map alone, not on the parameter order.
pub proof fn lemma_metadata_ignores_order(ps: Seq<TypedParam>, i: int)
    requires
        0 <= i,
        i + 1 < ps.len(),
        pat_name(ps[i].pat) != pat_name(ps[i + 1].pat),
    ensures
        spec_build_signature_metadata(ps.update(i, ps[i + 1]).update(i + 1, ps[i]))
            == spec_build_signature_metadata(ps),
{
    let qs = ps.update(i, ps[i + 1]).update(i + 1, ps[i]);
    let e = param_pairs(ps);
    lemma_listing_map_swap(e, i);
    assert(param_pairs(qs) =~= e.update(i, e[i + 1]).update(i + 1, e[i]));
    assert(all_simple_idents(qs) == all_simple_idents(ps)) by {
        if all_simple_idents(ps) {
            assert forall|j: int| 0 <= j < qs.len() implies #[trigger] qs[j].pat is Ident by {
                if j == i {
                    assert(qs[j] == ps[i + 1]);
                } else if j == i + 1 {
                    assert(qs[j] == ps[i]);
                } else {
                    assert(qs[j] == ps[j]);
                }
            }
        }
        if all_simple_idents(qs) {
            assert forall|j: int| 0 <= j < ps.len() implies #[trigger] ps[j].pat is Ident by {
                if j == i {
                    assert(qs[i + 1] == ps[j]);
                } else if j == i + 1 {
                    assert(qs[i] == ps[j]);
                } else {
                    assert(qs[j] == ps[j]);
                }
            }
        }
    }
}

} // verus!
