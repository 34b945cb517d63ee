//! Normalized prompt names: lower case, with each space turned into `-`.
use vstd::prelude::*;
use crate::text::{chars_of, lower_of, str_eq, string_of, to_lowercase};

verus! {

/// Each space turned into `-`.
pub open spec fn dashes(s: Seq<char>) -> Seq<char> {
    s.map_values(|c: char| if c == ' ' { '-' } else { c })
}

/// The normal form of a name: its lower case, with each space turned into `-`.
pub open spec fn normal_form(s: Seq<char>) -> Seq<char> {
    dashes(lower_of(s))
}

/// A name already in normal form.
pub open spec fn is_normal(s: Seq<char>) -> bool {
    normal_form(s) == s
}

/// Turns each space of an already lower-cased name into `-`.
pub fn dash_spaces(lowered: &str) -> (r: String)
    ensures
        r@ == dashes(lowered@),
{
    let v = chars_of(lowered);
    let mut out: Vec<char> = Vec::new();
    let mut i: usize = 0;
    while i < v.len()
        invariant
            v@ == lowered@,
            i <= v@.len(),
            out@ == dashes(v@.subrange(0, i as int)),
        decreases v.len() - i,
    {
        let c = v[i];
        out.push(if c == ' ' { '-' } else { c });
        assert(dashes(v@.subrange(0, i + 1)) =~= dashes(v@.subrange(0, i as int)).push(
            if c == ' ' { '-' } else { c },
        ));
        i += 1;
    }
    assert(v@.subrange(0, v@.len() as int) =~= v@);
    string_of(&out)
}

/// Normalizes a display name into the key under which a prompt is stored.
pub fn normalize(name: &str) -> (r: String)
    ensures
        r@ == normal_form(name@),
{
    dash_spaces(to_lowercase(name).as_str())
}

/// Tells whether `name` is already in normal form.
pub fn is_normalized(name: &str) -> (r: bool)
    ensures
        r == is_normal(name@),
{
    str_eq(normalize(name).as_str(), name)
}

/// Turning spaces into `-` twice gives what doing it once gives.
pub proof fn lemma_dashes_idempotent(s: Seq<char>)
    ensures
        dashes(dashes(s)) == dashes(s),
        dashes(s).len() == s.len(),
{
    assert(dashes(dashes(s)) =~= dashes(s));
}

/// Normalizing twice gives what normalizing once gives, for every name whose
/// normal form is its own lower case (lower-casing settles a name in one
/// step, but nothing here assumes that of `str::to_lowercase`).
pub proof fn lemma_normalize_idempotent(s: Seq<char>)
    requires
        lower_of(normal_form(s)) == normal_form(s),
    ensures
        normal_form(normal_form(s)) == normal_form(s),
        is_normal(normal_form(s)),
{
    lemma_dashes_idempotent(lower_of(s));
}

} // verus!
