//! Name validation and case conversion, delegated to outside crates.
//!
//! Identifier and path validity are decided by `syn`'s parser, and the
//! default variant-name conversion by `inflector`; each call stands behind
//! a trusted wrapper whose result is a function of its argument alone.

use vstd::prelude::*;
use inflector::Inflector;

verus! {

/// Whether a string forms a valid Rust identifier (and not a keyword),
/// exactly as `syn`'s identifier parser decides it.
pub uninterp spec fn is_rust_ident(s: Seq<char>) -> bool;

/// Whether a string forms a valid Rust path, exactly as `syn`'s path
/// parser decides it.
pub uninterp spec fn is_rust_path(s: Seq<char>) -> bool;

/// The PascalCase form of a string, as `inflector` computes it.
pub uninterp spec fn pascal_of(s: Seq<char>) -> Seq<char>;

/// Relies on `syn::parse_str::<syn::Ident>`: it accepts exactly the strings
/// that parse as one Rust identifier, and its result depends on the input
/// characters alone.
#[verifier::external_body]
pub fn check_ident(s: &str) -> (r: bool)
    ensures
        r == is_rust_ident(s@),
{
    syn::parse_str::<syn::Ident>(s).is_ok()
}

/// Relies on `syn::parse_str::<syn::Path>`: it accepts exactly the strings
/// that form a valid Rust path, and its result depends on the input
/// characters alone.
#[verifier::external_body]
pub fn check_path(s: &str) -> (r: bool)
    ensures
        r == is_rust_path(s@),
{
    syn::parse_str::<syn::Path>(s).is_ok()
}

/// Relies on `inflector`'s `to_pascal_case`: the result depends on the
/// input characters alone.
#[verifier::external_body]
pub fn to_pascal(s: &str) -> (r: String)
    ensures
        r@ == pascal_of(s@),
{
    s.to_pascal_case()
}

} // verus!
