//! The canonical names of a member: its lookup key and its type reference.

use vstd::prelude::*;

verus! {

/// The two canonical forms of one declared member name.
#[derive(Clone, Debug)]
pub struct CanonicalName {
    /// The key under which the member is looked up by name.
    pub lookup_key: String,
    /// The identifier of the member's column and of its tagged-value variant.
    pub type_ref: String,
}

/// The mathematical value of a [`CanonicalName`].
pub struct CanonicalNameView {
    pub lookup_key: Seq<char>,
    pub type_ref: Seq<char>,
}

impl View for CanonicalName {
    type V = CanonicalNameView;

    open spec fn view(&self) -> CanonicalNameView {
        CanonicalNameView { lookup_key: self.lookup_key@, type_ref: self.type_ref@ }
    }
}

/// The values of a sequence of canonical names, in the same order.
pub open spec fn name_views(names: Seq<CanonicalName>) -> Seq<CanonicalNameView> {
    names.map_values(|n: CanonicalName| n@)
}

/// Whether `s` starts with the raw-identifier prefix `r#`.
pub open spec fn spec_has_raw_prefix(s: Seq<char>) -> bool {
    s.len() >= 2 && s[0] == 'r' && s[1] == '#'
}

/// The normal form of an identifier: the identifier with every leading `r#`
/// taken off.
pub open spec fn spec_normal_ident(s: Seq<char>) -> Seq<char>
    decreases s.len(),
{
    if spec_has_raw_prefix(s) {
        spec_normal_ident(s.subrange(2, s.len() as int))
    } else {
        s
    }
}

/// The upper-camel-case form of a string, as `heck` computes it.
pub uninterp spec fn upper_camel_case(s: Seq<char>) -> Seq<char>;

/// The canonical names that belong to a declared name.
pub open spec fn spec_canonical(declared: Seq<char>) -> CanonicalNameView {
    CanonicalNameView {
        lookup_key: spec_normal_ident(declared),
        type_ref: upper_camel_case(spec_normal_ident(declared)),
    }
}

/// The canonical names of each field, in the same order.
pub open spec fn spec_canonical_names(declared: Seq<Seq<char>>) -> Seq<CanonicalNameView> {
    declared.map_values(|d: Seq<char>| spec_canonical(d))
}

/// Calls `convert_ident::to_normal_ident`, which trims every leading match of
/// the pattern `r#` from the identifier and returns what is left as an owned
/// string. Trusted: the contract restates that trimming.
#[verifier::external_body]
fn to_normal_ident(ident: &str) -> (r: String)
    ensures
        r@ == spec_normal_ident(ident@),
{
    convert_ident::to_normal_ident(ident)
}

/// Calls `heck::ToUpperCamelCase::to_upper_camel_case` on a string slice.
/// Trusted: the contract only gives the result its name; the conversion
/// depends on the characters of the argument and on nothing else.
#[verifier::external_body]
fn to_upper_camel_case(s: &str) -> (r: String)
    ensures
        r@ == upper_camel_case(s@),
{
    heck::ToUpperCamelCase::to_upper_camel_case(s)
}

/// Puts a normal-form name and its upper-camel-case form together.
pub fn canonical_from_parts(normal: String, camel: String) -> (r: CanonicalName)
    ensures
        r@ == (CanonicalNameView { lookup_key: normal@, type_ref: camel@ }),
{
    CanonicalName { lookup_key: normal, type_ref: camel }
}

/// Derives the canonical names of a declared member name: the lookup key is
/// the normal form of the name, the type reference is the upper-camel-case
/// form of the lookup key.
pub fn canonicalize(declared: &str) -> (r: CanonicalName)
    ensures
        r@ == spec_canonical(declared@),
{
    let normal = to_normal_ident(declared);
    let camel = to_upper_camel_case(normal.as_str());
    canonical_from_parts(normal, camel)
}

/// The normal form of a name never starts with `r#`, so taking the normal
/// form twice changes nothing.
pub proof fn lemma_normal_ident_idempotent(s: Seq<char>)
    ensures
        !spec_has_raw_prefix(spec_normal_ident(s)),
        spec_normal_ident(spec_normal_ident(s)) == spec_normal_ident(s),
    decreases s.len(),
{
    if spec_has_raw_prefix(s) {
        lemma_normal_ident_idempotent(s.subrange(2, s.len() as int));
    }
}

/// Canonicalization is a function of the declared name alone: two members
/// with the same declared name have the same canonical names.
pub proof fn lemma_canonical_depends_on_name_only(a: Seq<char>, b: Seq<char>)
    requires
        a == b,
    ensures
        spec_canonical(a) == spec_canonical(b),
{
}

} // verus!
