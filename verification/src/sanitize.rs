use vstd::prelude::*;
use vstd::string::StrSliceExecFns;
use crate::text::push_char;

verus! {

/// A quote character is replaced by a space so that sanitized text can be
/// embedded in the report without escaping; every other character is kept.
pub open spec fn sanitize_char(c: char) -> char {
    if c == '\'' || c == '`' || c == '"' {
        ' '
    } else {
        c
    }
}

/// The sanitized form of a piece of text: each character replaced by its
/// sanitized form, length unchanged.
pub open spec fn sanitized(s: Seq<char>) -> Seq<char> {
    s.map_values(|c: char| sanitize_char(c))
}

/// Strips single quotes, backticks and double quotes from free text,
/// replacing each with a space.
pub fn sanitize_string(input: String) -> (r: String)
    ensures
        r@ == sanitized(input@),
{
    let n = input.as_str().unicode_len();
    let mut out = String::new();
    let mut i: usize = 0;
    while i < n
        invariant
            n == input@.len(),
            i <= n,
            out@ == sanitized(input@.take(i as int)),
        decreases n - i,
    {
        let c = input.as_str().get_char(i);
        let sc = if c == '\'' || c == '`' || c == '"' {
            ' '
        } else {
            c
        };
        push_char(&mut out, sc);
        assert(sanitized(input@.take(i + 1)) =~= sanitized(input@.take(i as int)).push(
            sanitize_char(input@[i as int]),
        ));
        i += 1;
    }
    assert(input@.take(n as int) =~= input@);
    out
}

/// Sanitized text never contains a single quote, a backtick or a double
/// quote.
pub proof fn lemma_sanitized_has_no_quotes(s: Seq<char>)
    ensures
        forall|i: int|
            0 <= i < sanitized(s).len() ==> sanitized(s)[i] != '\'' && sanitized(s)[i] != '`'
                && sanitized(s)[i] != '"',
{
}

/// Sanitizing is idempotent: sanitizing already-sanitized text changes
/// nothing.
pub proof fn lemma_sanitize_idempotent(s: Seq<char>)
    ensures
        sanitized(sanitized(s)) == sanitized(s),
{
    assert(sanitized(sanitized(s)) =~= sanitized(s));
}

} // verus!
