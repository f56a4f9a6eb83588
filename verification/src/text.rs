use vstd::prelude::*;

verus! {

/// ASCII-style case folding of one character: `'A'..='Z'` map to
/// `'a'..='z'`, every other character is unchanged. The domain's names are
/// ASCII, so this folding is all the query pipeline needs.
pub open spec fn lower_char(c: char) -> char {
    if 'A' <= c && c <= 'Z' {
        (((c as u8) + 32) as char)
    } else {
        c
    }
}

/// Character-wise ASCII case folding of a whole string.
pub open spec fn to_lower(s: Seq<char>) -> Seq<char> {
    s.map_values(|c: char| lower_char(c))
}

/// `needle` occurs contiguously somewhere in `hay`.
pub open spec fn is_substring(hay: Seq<char>, needle: Seq<char>) -> bool {
    exists|k: int|
        0 <= k && k + needle.len() <= hay.len() && #[trigger] hay.subrange(k, k + needle.len())
            == needle
}

/// A name passes the name filter when its folded form contains the folded
/// filter as a substring.
pub open spec fn name_matches(name: Seq<char>, filter: Seq<char>) -> bool {
    is_substring(to_lower(name), to_lower(filter))
}

fn lower_char_exec(c: char) -> (r: char)
    ensures
        r == lower_char(c),
{
    if 'A' <= c && c <= 'Z' {
        ((c as u8) + 32) as char
    } else {
        c
    }
}

/// The folded characters of `hay` starting at `k` agree with the folded
/// characters of `needle`.
fn folded_match_at(hay: &str, needle: &str, k: usize) -> (r: bool)
    requires
        k + needle@.len() <= hay@.len(),
        hay@.len() <= usize::MAX,
    ensures
        r == (to_lower(hay@).subrange(k as int, k as int + needle@.len() as int) == to_lower(
            needle@,
        )),
{
    let n = needle.unicode_len();
    let mut j: usize = 0;
    while j < n
        invariant
            n == needle@.len(),
            k + n <= hay@.len(),
            hay@.len() <= usize::MAX,
            j <= n,
            forall|t: int|
                0 <= t < j ==> lower_char(hay@[k + t]) == lower_char(#[trigger] needle@[t]),
        decreases n - j,
    {
        let hc = lower_char_exec(hay.get_char(k + j));
        let nc = lower_char_exec(needle.get_char(j));
        if hc != nc {
            proof {
                let lh = to_lower(hay@).subrange(k as int, k as int + needle@.len() as int);
                let ln = to_lower(needle@);
                assert(lh[j as int] == lower_char(hay@[k + j]));
                assert(ln[j as int] == lower_char(needle@[j as int]));
                assert(lh != ln);
            }
            return false;
        }
        j += 1;
    }
    proof {
        let lh = to_lower(hay@).subrange(k as int, k as int + needle@.len() as int);
        let ln = to_lower(needle@);
        assert forall|t: int| 0 <= t < ln.len() implies lh[t] == ln[t] by {
            assert(lower_char(hay@[k + t]) == lower_char(needle@[t]));
        }
        assert(lh =~= ln);
    }
    true
}

/// Exact string equality, character by character.
pub fn str_eq(a: &str, b: &str) -> (r: bool)
    ensures
        r == (a@ == b@),
{
    let n = a.unicode_len();
    if n != b.unicode_len() {
        return false;
    }
    let mut i: usize = 0;
    while i < n
        invariant
            n == a@.len(),
            n == b@.len(),
            i <= n,
            forall|t: int| 0 <= t < i ==> a@[t] == #[trigger] b@[t],
        decreases n - i,
    {
        if a.get_char(i) != b.get_char(i) {
            return false;
        }
        i += 1;
    }
    proof {
        assert(a@ =~= b@);
    }
    true
}

/// Case-insensitive substring test: `needle`, folded, occurs in `hay`,
/// folded.
pub fn contains_case_insensitive(hay: &str, needle: &str) -> (r: bool)
    ensures
        r == name_matches(hay@, needle@),
{
    let n = needle.unicode_len();
    let h = hay.unicode_len();
    if n == 0 {
        proof {
            let lh = to_lower(hay@);
            let ln = to_lower(needle@);
            assert(lh.subrange(0, 0 + ln.len() as int) =~= ln);
            assert(0 <= 0 && 0 + ln.len() <= lh.len() && lh.subrange(0, 0 + ln.len() as int)
                == ln);
        }
        return true;
    }
    if n > h {
        proof {
            assert(to_lower(hay@).len() < to_lower(needle@).len());
        }
        return false;
    }
    let mut k: usize = 0;
    while k <= h - n
        invariant
            n == needle@.len(),
            h == hay@.len(),
            1 <= n <= h,
            k <= h - n + 1,
            forall|t: int|
                0 <= t < k ==> #[trigger] to_lower(hay@).subrange(t, t + needle@.len() as int)
                    != to_lower(needle@),
        decreases h - n - k + 1,
    {
        if folded_match_at(hay, needle, k) {
            proof {
                assert(to_lower(hay@).subrange(k as int, k as int + to_lower(needle@).len() as int)
                    == to_lower(needle@));
            }
            return true;
        }
        k += 1;
    }
    proof {
        assert forall|t: int|
            0 <= t && t + to_lower(needle@).len() <= to_lower(hay@).len() implies #[trigger] to_lower(
            hay@,
        ).subrange(t, t + to_lower(needle@).len() as int) != to_lower(needle@) by {
            assert(to_lower(hay@).subrange(t, t + needle@.len() as int) != to_lower(needle@));
        }
    }
    false
}

} // verus!
