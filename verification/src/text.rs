//! Output lines: trailing-space trimming and the step from ASCII bytes to
//! `String`.

use vstd::prelude::*;

verus! {

/// Length of `s` once trailing space characters are removed.
pub open spec fn trimmed_len_spec(s: Seq<u8>) -> int
    decreases s.len(),
{
    if s.len() == 0 {
        0
    } else if s[s.len() - 1] == 0x20 {
        trimmed_len_spec(s.drop_last())
    } else {
        s.len() as int
    }
}

/// `s` with its trailing space characters removed.
pub open spec fn trim_spec(s: Seq<u8>) -> Seq<u8> {
    s.take(trimmed_len_spec(s))
}

/// The characters the ASCII bytes stand for, code point for code point.
pub open spec fn ascii_chars(s: Seq<u8>) -> Seq<char> {
    s.map_values(|b: u8| b as char)
}

pub proof fn lemma_trimmed_len_bounds(s: Seq<u8>)
    ensures
        0 <= trimmed_len_spec(s) <= s.len(),
    decreases s.len(),
{
    if s.len() > 0 && s[s.len() - 1] == 0x20 {
        lemma_trimmed_len_bounds(s.drop_last());
    }
}

proof fn lemma_trim_drop_space(s: Seq<u8>)
    requires
        s.len() > 0,
        s[s.len() - 1] == 0x20,
    ensures
        trim_spec(s) == trim_spec(s.drop_last()),
{
    lemma_trimmed_len_bounds(s.drop_last());
    assert(trim_spec(s) =~= trim_spec(s.drop_last()));
}

/// Removes trailing space characters.
pub fn trim_trailing_spaces(s: Vec<u8>) -> (r: Vec<u8>)
    ensures
        r@ == trim_spec(s@),
{
    let mut r = s;
    while r.len() > 0 && r[r.len() - 1] == 0x20
        invariant
            trim_spec(r@) == trim_spec(s@),
        decreases r@.len(),
    {
        proof {
            lemma_trim_drop_space(r@);
            assert(r@.drop_last() =~= r@.take(r@.len() - 1));
        }
        r.pop();
    }
    proof {
        lemma_trimmed_len_bounds(r@);
        assert(r@ =~= trim_spec(r@));
    }
    r
}

/// Relies on String::from_utf8: bytes below 0x80 are valid UTF-8 and decode
/// to exactly the characters with the same code points.
#[verifier::external_body]
pub(crate) fn ascii_to_string(bytes: Vec<u8>) -> (r: String)
    requires
        forall|i: int| 0 <= i < bytes@.len() ==> bytes@[i] < 0x80,
    ensures
        r@ == ascii_chars(bytes@),
{
    String::from_utf8(bytes).unwrap()
}

} // verus!
