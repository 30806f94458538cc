use vstd::prelude::*;

verus! {

/// Joins two strings: relies on `concat` of a slice of `&str`, which returns
/// the pieces' characters one after another.
#[verifier::external_body]
pub(crate) fn concat(a: &str, b: &str) -> (r: String)
    ensures
        r@ == a@ + b@,
{
    [a, b].concat()
}

/// `s` with each occurrence of `pat` replaced by `with`, occurrences taken left
/// to right without overlap.
pub open spec fn replace_all(s: Seq<char>, pat: Seq<char>, with: Seq<char>) -> Seq<char>
    decreases s.len(),
{
    if pat.len() == 0 || s.len() < pat.len() {
        s
    } else if s.take(pat.len() as int) == pat {
        with + replace_all(s.skip(pat.len() as int), pat, with)
    } else {
        seq![s[0]] + replace_all(s.drop_first(), pat, with)
    }
}

/// Relies on `str::replace`, which replaces every match of a non-empty pattern,
/// matches found from the left without overlap.
#[verifier::external_body]
pub(crate) fn replace(s: &str, from: &str, to: &str) -> (r: String)
    requires
        from@.len() > 0,
    ensures
        r@ == replace_all(s@, from@, to@),
{
    s.replace(from, to)
}

} // verus!
