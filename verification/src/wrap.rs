//! Soft wrapping of composer text. The wrapping itself comes from the
//! textwrap crate (first-fit algorithm); its result is named here so
//! contracts can speak about it.

use vstd::prelude::*;

verus! {

/// The wrapped lines textwrap's first-fit algorithm produces for `s` at
/// `width` columns.
pub uninterp spec fn wrap_of(s: Seq<char>, width: int) -> Seq<Seq<char>>;

/// Relies on textwrap::wrap with the first-fit algorithm: the wrapped lines
/// of `s` at `width` columns, which depend on the text and width alone.
#[verifier::external_body]
pub fn wrap_first_fit(s: &str, width: usize) -> (r: Vec<String>)
    ensures
        r@.map_values(|line: String| line@) == wrap_of(s@, width as int),
{
    textwrap::wrap(
        s,
        textwrap::Options::new(width).wrap_algorithm(textwrap::WrapAlgorithm::FirstFit),
    ).into_iter().map(|line| line.into_owned()).collect()
}

} // verus!
