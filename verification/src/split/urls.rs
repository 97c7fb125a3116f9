use vstd::prelude::*;

verus! {

/// Whether url::Url::parse accepts `s`. The answer is a function of the
/// characters alone; nothing more is assumed about it.
pub uninterp spec fn is_parsable_url(s: Seq<char>) -> bool;

/// Relies on url::Url::parse (the parser behind reqwest::Url): whether
/// `s` is a well-formed absolute URL.
#[verifier::external_body]
pub(crate) fn url_parses(s: &str) -> (r: bool)
    ensures
        r == is_parsable_url(s@),
{
    url::Url::parse(s).is_ok()
}

} // verus!
