//! ASCII case folding, used for the case-insensitive header-name matching
//! of the request transformer and the response post-processor.

use vstd::prelude::*;

verus! {

/// ASCII lower-casing of a single character; all other characters are kept.
pub open spec fn lower_char(c: char) -> char {
    if 65 <= c as u32 && c as u32 <= 90 {
        ((c as u32 + 32) as u8) as char
    } else {
        c
    }
}

/// ASCII lower-casing of a character sequence.
pub open spec fn lower_chars(s: Seq<char>) -> Seq<char> {
    s.map_values(|c: char| lower_char(c))
}

fn lower_char_exec(c: char) -> (r: char)
    ensures
        r == lower_char(c),
{
    let u = c as u32;
    if 65 <= u && u <= 90 {
        ((u + 32) as u8) as char
    } else {
        c
    }
}

/// Whether two strings are equal up to ASCII case.
pub fn eq_ignore_ascii_case(s: &str, t: &str) -> (r: bool)
    ensures
        r == (lower_chars(s@) == lower_chars(t@)),
{
    let n = s.unicode_len();
    if n != t.unicode_len() {
        proof {
            assert(lower_chars(s@).len() != lower_chars(t@).len());
        }
        return false;
    }
    let mut i: usize = 0;
    while i < n
        invariant
            i <= n,
            n == s@.len(),
            n == t@.len(),
            forall|j: int| 0 <= j < i ==> lower_chars(s@)[j] == lower_chars(t@)[j],
        decreases n - i,
    {
        let a = lower_char_exec(s.get_char(i));
        let b = lower_char_exec(t.get_char(i));
        if a != b {
            proof {
                assert(lower_chars(s@)[i as int] != lower_chars(t@)[i as int]);
            }
            return false;
        }
        i = i + 1;
    }
    proof {
        assert(lower_chars(s@) =~= lower_chars(t@));
    }
    true
}

/// The header names singled out by the proxy are already lower case, so
/// folding them is the identity.
pub proof fn lemma_reserved_names_are_lower_case()
    ensures
        lower_chars("host"@) == "host"@,
        lower_chars("authorization"@) == "authorization"@,
        lower_chars("content-length"@) == "content-length"@,
        lower_chars("content-type"@) == "content-type"@,
        lower_chars("transfer-encoding"@) == "transfer-encoding"@,
{
    reveal_strlit("host");
    reveal_strlit("authorization");
    reveal_strlit("content-length");
    reveal_strlit("content-type");
    reveal_strlit("transfer-encoding");
    assert(lower_chars("host"@) =~= "host"@);
    assert(lower_chars("authorization"@) =~= "authorization"@);
    assert(lower_chars("content-length"@) =~= "content-length"@);
    assert(lower_chars("content-type"@) =~= "content-type"@);
    assert(lower_chars("transfer-encoding"@) =~= "transfer-encoding"@);
}

} // verus!
