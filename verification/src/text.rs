//! Character-level text utilities shared by the license engine:
//! conversion between `str` and `Vec<char>`, ASCII case folding,
//! whitespace trimming, substring search and separator splitting.

use vstd::prelude::*;

verus! {

/// Whitespace characters recognised as separators.
pub open spec fn is_space(c: char) -> bool {
    c == ' ' || c == '\t' || c == '\n' || c == '\r' || c == '\u{c}'
}

/// Executable test for [`is_space`].
pub fn is_space_char(c: char) -> (r: bool)
    ensures
        r == is_space(c),
{
    c == ' ' || c == '\t' || c == '\n' || c == '\r' || c == '\u{c}'
}

/// ASCII lower-casing of one character; other characters are unchanged.
pub open spec fn lower_char(c: char) -> char {
    if 'A' <= c && c <= 'Z' {
        ((c as u8) + 32) as char
    } else {
        c
    }
}

/// ASCII lower-casing of a whole character sequence.
pub open spec fn lower_seq(s: Seq<char>) -> Seq<char> {
    s.map_values(|c: char| lower_char(c))
}

/// Executable ASCII lower-casing of one character.
pub fn lower_char_exec(c: char) -> (r: char)
    ensures
        r == lower_char(c),
{
    if 'A' <= c && c <= 'Z' {
        ((c as u8) + 32) as char
    } else {
        c
    }
}

/// Collect the characters of a string slice.
pub fn chars_of(s: &str) -> (v: Vec<char>)
    ensures
        v@ == s@,
{
    let n: usize = s.unicode_len();
    let mut v: Vec<char> = Vec::new();
    let mut i: usize = 0;
    while i < n
        invariant
            i <= n,
            n == s@.len(),
            v@ =~= s@.take(i as int),
        decreases n - i,
    {
        v.push(s.get_char(i));
        i = i + 1;
    }
    proof {
        assert(v@ =~= s@);
    }
    v
}

/// Relies on `String::push`: appends the given character to the end of
/// the string.
#[verifier::external_body]
fn push_char(s: &mut String, c: char)
    ensures
        final(s)@ == old(s)@.push(c),
{
    s.push(c)
}

/// Build a `String` from a vector of characters.
pub fn string_of(v: &Vec<char>) -> (s: String)
    ensures
        s@ == v@,
{
    let mut s = String::new();
    let mut i: usize = 0;
    while i < v.len()
        invariant
            i <= v@.len(),
            s@ =~= v@.take(i as int),
        decreases v@.len() - i,
    {
        push_char(&mut s, v[i]);
        i = i + 1;
    }
    proof {
        assert(s@ =~= v@);
    }
    s
}

/// Compare a character vector with a string slice.
pub fn chars_eq_str(v: &Vec<char>, s: &str) -> (r: bool)
    ensures
        r == (v@ == s@),
{
    let n: usize = s.unicode_len();
    if v.len() != n {
        proof {
            assert(v@.len() != s@.len());
        }
        return false;
    }
    let mut i: usize = 0;
    while i < n
        invariant
            i <= n,
            n == s@.len(),
            v@.len() == n,
            forall|j: int| 0 <= j < i ==> v@[j] == s@[j],
        decreases n - i,
    {
        if v[i] != s.get_char(i) {
            return false;
        }
        i = i + 1;
    }
    proof {
        assert(v@ =~= s@);
    }
    true
}

/// Copy a character vector.
pub fn copy_chars(v: &Vec<char>) -> (r: Vec<char>)
    ensures
        r@ == v@,
{
    let mut r: Vec<char> = Vec::new();
    let mut i: usize = 0;
    while i < v.len()
        invariant
            i <= v@.len(),
            r@ =~= v@.take(i as int),
        decreases v@.len() - i,
    {
        r.push(v[i]);
        i = i + 1;
    }
    proof {
        assert(r@ =~= v@);
    }
    r
}

/// Compare two character vectors.
pub fn chars_eq(a: &Vec<char>, b: &Vec<char>) -> (r: bool)
    ensures
        r == (a@ == b@),
{
    if a.len() != b.len() {
        proof {
            assert(a@.len() != b@.len());
        }
        return false;
    }
    let mut i: usize = 0;
    while i < a.len()
        invariant
            i <= a@.len(),
            a@.len() == b@.len(),
            forall|j: int| 0 <= j < i ==> a@[j] == b@[j],
        decreases a@.len() - i,
    {
        if a[i] != b[i] {
            return false;
        }
        i = i + 1;
    }
    proof {
        assert(a@ =~= b@);
    }
    true
}

/// Lower-case a character vector (ASCII case folding).
pub fn to_lower(v: &Vec<char>) -> (r: Vec<char>)
    ensures
        r@ == lower_seq(v@),
{
    let mut r: Vec<char> = Vec::new();
    let mut i: usize = 0;
    while i < v.len()
        invariant
            i <= v@.len(),
            r@.len() == i,
            forall|j: int| 0 <= j < i ==> r@[j] == lower_char(v@[j]),
        decreases v@.len() - i,
    {
        r.push(lower_char_exec(v[i]));
        i = i + 1;
    }
    proof {
        assert(r@ =~= lower_seq(v@));
    }
    r
}

// ---------------------------------------------------------------------------
// Trimming
// ---------------------------------------------------------------------------

/// Number of leading whitespace characters.
pub open spec fn leading_spaces(s: Seq<char>) -> nat
    decreases s.len(),
{
    if s.len() == 0 {
        0
    } else if is_space(s[0]) {
        1 + leading_spaces(s.drop_first())
    } else {
        0
    }
}

/// Number of trailing whitespace characters.
pub open spec fn trailing_spaces(s: Seq<char>) -> nat
    decreases s.len(),
{
    if s.len() == 0 {
        0
    } else if is_space(s[s.len() - 1]) {
        1 + trailing_spaces(s.drop_last())
    } else {
        0
    }
}

/// The sequence with leading and trailing whitespace removed.
pub open spec fn spec_trim(s: Seq<char>) -> Seq<char> {
    if leading_spaces(s) == s.len() {
        Seq::empty()
    } else {
        s.subrange(leading_spaces(s) as int, s.len() - trailing_spaces(s))
    }
}

/// `leading_spaces` counts exactly the longest all-whitespace prefix.
pub proof fn lemma_leading_spaces(s: Seq<char>)
    ensures
        leading_spaces(s) <= s.len(),
        forall|j: int| 0 <= j < leading_spaces(s) ==> is_space(s[j]),
        leading_spaces(s) < s.len() ==> !is_space(s[leading_spaces(s) as int]),
    decreases s.len(),
{
    if s.len() > 0 && is_space(s[0]) {
        lemma_leading_spaces(s.drop_first());
        assert forall|j: int| 0 <= j < leading_spaces(s) implies is_space(s[j]) by {
            if j > 0 {
                assert(is_space(s.drop_first()[j - 1]));
            }
        }
    }
}

/// `trailing_spaces` counts exactly the longest all-whitespace suffix.
pub proof fn lemma_trailing_spaces(s: Seq<char>)
    ensures
        trailing_spaces(s) <= s.len(),
        forall|j: int| s.len() - trailing_spaces(s) <= j < s.len() ==> is_space(s[j]),
        trailing_spaces(s) < s.len() ==> !is_space(s[s.len() - trailing_spaces(s) - 1]),
    decreases s.len(),
{
    if s.len() > 0 && is_space(s[s.len() - 1]) {
        lemma_trailing_spaces(s.drop_last());
        assert forall|j: int| s.len() - trailing_spaces(s) <= j < s.len() implies is_space(
            s[j],
        ) by {
            if j < s.len() - 1 {
                assert(is_space(s.drop_last()[j]));
            }
        }
    }
}

/// If the prefix of whitespace does not cover everything, the whitespace
/// suffix cannot overlap it.
pub proof fn lemma_trim_bounds(s: Seq<char>)
    ensures
        leading_spaces(s) <= s.len(),
        trailing_spaces(s) <= s.len(),
        leading_spaces(s) < s.len() ==> leading_spaces(s) + trailing_spaces(s) < s.len(),
        leading_spaces(s) == s.len() <==> (forall|j: int| 0 <= j < s.len() ==> is_space(s[j])),
{
    lemma_leading_spaces(s);
    lemma_trailing_spaces(s);
    if leading_spaces(s) < s.len() {
        let a = leading_spaces(s) as int;
        // s[a] is not a space, so the trailing run stops before it.
        if trailing_spaces(s) > s.len() - a - 1 {
            assert(is_space(s[a]));
        }
    }
}

/// Trimming is idempotent: a trimmed sequence trims to itself.
pub proof fn lemma_trim_idempotent(s: Seq<char>)
    ensures
        spec_trim(spec_trim(s)) == spec_trim(s),
{
    lemma_trim_bounds(s);
    if leading_spaces(s) == s.len() {
        assert(spec_trim(s) =~= Seq::<char>::empty());
        assert(spec_trim(spec_trim(s)) =~= spec_trim(s));
    } else {
        lemma_leading_spaces(s);
        lemma_trailing_spaces(s);
        let a = leading_spaces(s) as int;
        let b = trailing_spaces(s) as int;
        let r = s.subrange(a, s.len() - b);
        assert(r.len() > 0);
        assert(r[0] == s[a]);
        assert(!is_space(r[0]));
        assert(leading_spaces(r) == 0);
        assert(r[r.len() - 1] == s[s.len() - b - 1]);
        assert(!is_space(r[r.len() - 1]));
        assert(trailing_spaces(r) == 0);
        assert(spec_trim(r) =~= r);
    }
}

/// Remove leading and trailing whitespace.
pub fn trim_chars(v: &Vec<char>) -> (r: Vec<char>)
    ensures
        r@ == spec_trim(v@),
        r@ == spec_trim(r@),
{
    proof {
        lemma_trim_idempotent(v@);
    }
    proof {
        lemma_trim_bounds(v@);
    }
    let n: usize = v.len();
    let mut a: usize = 0;
    while a < n && is_space_char(v[a])
        invariant
            a <= n,
            n == v@.len(),
            forall|j: int| 0 <= j < a ==> is_space(v@[j]),
        decreases n - a,
    {
        a = a + 1;
    }
    proof {
        lemma_leading_spaces(v@);
        // a is the length of the longest all-space prefix.
        if a < n {
            if leading_spaces(v@) < a {
                assert(is_space(v@[leading_spaces(v@) as int]));
            }
            if leading_spaces(v@) > a {
                assert(is_space(v@[a as int]));
            }
        } else {
            if leading_spaces(v@) < n {
                assert(is_space(v@[leading_spaces(v@) as int]));
            }
        }
        assert(a == leading_spaces(v@));
    }
    if a == n {
        let r: Vec<char> = Vec::new();
        proof {
            assert(r@ =~= spec_trim(v@));
        }
        return r;
    }
    let mut b: usize = n;
    while b > a && is_space_char(v[b - 1])
        invariant
            a <= b <= n,
            n == v@.len(),
            a == leading_spaces(v@),
            a < n,
            !is_space(v@[a as int]),
            forall|j: int| b <= j < n ==> is_space(v@[j]),
        decreases b,
    {
        b = b - 1;
    }
    proof {
        lemma_trailing_spaces(v@);
        let t = trailing_spaces(v@) as int;
        if b > a {
            // b-1 is not a space, so the trailing run is exactly n - b.
            if t < n - b {
                assert(is_space(v@[n - t - 1]));
            }
            if t > n - b {
                assert(is_space(v@[b - 1]));
            }
        }
        assert(n - b == trailing_spaces(v@));
    }
    let mut r: Vec<char> = Vec::new();
    let mut i: usize = a;
    while i < b
        invariant
            a <= i <= b <= n,
            n == v@.len(),
            r@.len() == i - a,
            forall|j: int| 0 <= j < r@.len() ==> r@[j] == v@[a + j],
        decreases b - i,
    {
        r.push(v[i]);
        i = i + 1;
    }
    proof {
        assert(r@ =~= spec_trim(v@));
    }
    r
}

// ---------------------------------------------------------------------------
// Substring search and splitting
// ---------------------------------------------------------------------------

/// `sep` occurs in `s` at position `i`.
pub open spec fn match_at(s: Seq<char>, sep: Seq<char>, i: int) -> bool {
    0 <= i && i + sep.len() <= s.len() && s.subrange(i, i + sep.len()) == sep
}

/// Position of the first occurrence of `sep` in `s`, if any.
pub open spec fn first_match(s: Seq<char>, sep: Seq<char>) -> Option<nat>
    decreases s.len(),
{
    if sep.len() == 0 || s.len() < sep.len() {
        None
    } else if s.take(sep.len() as int) == sep {
        Some(0)
    } else {
        match first_match(s.drop_first(), sep) {
            Some(i) => Some((i + 1) as nat),
            None => None,
        }
    }
}

/// `first_match` returns the least position at which `sep` occurs.
pub proof fn lemma_first_match(s: Seq<char>, sep: Seq<char>)
    requires
        sep.len() > 0,
    ensures
        match first_match(s, sep) {
            Some(i) => match_at(s, sep, i as int) && (forall|j: int|
                0 <= j < i ==> !match_at(s, sep, j)),
            None => forall|j: int| !match_at(s, sep, j),
        },
    decreases s.len(),
{
    if s.len() < sep.len() {
        assert forall|j: int| !match_at(s, sep, j) by {}
    } else if s.take(sep.len() as int) == sep {
        assert(s.subrange(0, sep.len() as int) == s.take(sep.len() as int));
    } else {
        lemma_first_match(s.drop_first(), sep);
        let d = s.drop_first();
        assert forall|j: int| 0 <= j implies (match_at(s, sep, j + 1) == match_at(d, sep, j)) by {
            if 0 <= j && j + 1 + sep.len() <= s.len() {
                assert(s.subrange(j + 1, j + 1 + sep.len()) =~= d.subrange(j, j + sep.len()));
            }
        }
        assert(!match_at(s, sep, 0)) by {
            if match_at(s, sep, 0) {
                assert(s.subrange(0, sep.len() as int) =~= s.take(sep.len() as int));
            }
        }
        match first_match(d, sep) {
            Some(i) => {
                assert forall|j: int| 0 <= j < i + 1 implies !match_at(s, sep, j) by {
                    if j > 0 {
                        assert(!match_at(d, sep, j - 1));
                    }
                }
            },
            None => {
                assert forall|j: int| !match_at(s, sep, j) implies true by {}
                assert forall|j: int| !match_at(s, sep, j) by {
                    if j > 0 {
                        assert(!match_at(d, sep, j - 1));
                    }
                }
            },
        }
    }
}

/// Find the first occurrence of `sep` in `v`.
pub fn find_sub(v: &Vec<char>, sep: &Vec<char>) -> (r: Option<usize>)
    requires
        sep@.len() > 0,
    ensures
        match r {
            Some(i) => first_match(v@, sep@) == Some(i as nat),
            None => first_match(v@, sep@) is None,
        },
{
    proof {
        lemma_first_match(v@, sep@);
    }
    let n: usize = v.len();
    let m: usize = sep.len();
    if n < m {
        return None;
    }
    let mut i: usize = 0;
    while i <= n - m
        invariant
            0 <= i <= n - m + 1,
            n == v@.len(),
            m == sep@.len(),
            m >= 1,
            m <= n,
            forall|j: int| 0 <= j < i ==> !match_at(v@, sep@, j),
        decreases n - m - i + 1,
    {
        let mut k: usize = 0;
        let mut hit: bool = true;
        while k < m
            invariant
                0 <= k <= m,
                i + m <= n,
                n == v@.len(),
                m == sep@.len(),
                hit ==> (forall|l: int| 0 <= l < k ==> v@[i + l] == sep@[l]),
                !hit ==> (exists|l: int| 0 <= l < m && v@[i + l] != sep@[l]),
            decreases m - k,
        {
            if v[i + k] != sep[k] {
                proof {
                    assert(v@[i + k] != sep@[k as int]);
                }
                hit = false;
                k = m;
            } else {
                k = k + 1;
            }
        }
        if hit {
            proof {
                assert(v@.subrange(i as int, i + m) =~= sep@);
                assert(match_at(v@, sep@, i as int));
                lemma_first_match(v@, sep@);
                match first_match(v@, sep@) {
                    Some(fi) => {
                        if fi < i {
                            assert(!match_at(v@, sep@, fi as int));
                        }
                        if fi > i {
                            assert(!match_at(v@, sep@, i as int));
                        }
                    },
                    None => {
                        assert(!match_at(v@, sep@, i as int));
                    },
                }
            }
            return Some(i);
        }
        proof {
            if match_at(v@, sep@, i as int) {
                assert(v@.subrange(i as int, i + m) == sep@);
                assert forall|l: int| 0 <= l < m implies v@[i + l] == sep@[l] by {
                    assert(v@.subrange(i as int, i + m)[l] == v@[i + l]);
                }
            }
        }
        i = i + 1;
    }
    proof {
        assert forall|j: int| !match_at(v@, sep@, j) by {
            if 0 <= j && j + m <= n {
                assert(!match_at(v@, sep@, j));
            }
        }
    }
    None
}

/// Split `s` on every occurrence of `sep`, keeping empty parts.
pub open spec fn spec_split(s: Seq<char>, sep: Seq<char>) -> Seq<Seq<char>>
    decreases s.len(),
{
    match first_match(s, sep) {
        None => seq![s],
        Some(i) => {
            let rest = s.skip(min_int(i + sep.len() as int, s.len() as int));
            seq![s.take(i as int)] + spec_split(rest, sep)
        },
    }
}

/// Minimum of two integers.
pub open spec fn min_int(a: int, b: int) -> int {
    if a <= b {
        a
    } else {
        b
    }
}

/// A match found by `first_match` lies entirely inside `s`.
pub proof fn lemma_first_match_in_range(s: Seq<char>, sep: Seq<char>)
    requires
        sep.len() > 0,
        first_match(s, sep) is Some,
    ensures
        first_match(s, sep)->Some_0 + sep.len() <= s.len(),
{
    lemma_first_match(s, sep);
}

/// Split a character vector on a separator.
#[verifier::loop_isolation(false)]
pub fn split_chars(v: &Vec<char>, sep: &Vec<char>) -> (parts: Vec<Vec<char>>)
    requires
        sep@.len() > 0,
    ensures
        parts.deep_view() == spec_split(v@, sep@),
        parts@.len() >= 1,
    decreases v@.len(),
{
    match find_sub(v, sep) {
        None => {
            let mut parts: Vec<Vec<char>> = Vec::new();
            parts.push(copy_chars(v));
            proof {
                assert(parts.deep_view() =~~= spec_split(v@, sep@));
            }
            parts
        },
        Some(i) => {
            let n: usize = v.len();
            proof {
                lemma_first_match_in_range(v@, sep@);
                assert(i + sep@.len() <= n);
            }
            let mut head: Vec<char> = Vec::new();
            let mut j: usize = 0;
            while j < i
                invariant
                    j <= i,
                    head@ =~= v@.take(j as int),
                decreases i - j,
            {
                head.push(v[j]);
                j = j + 1;
            }
            let start: usize = i + sep.len();
            let mut rest: Vec<char> = Vec::new();
            let mut k: usize = start;
            while k < v.len()
                invariant
                    start <= k <= v@.len(),
                    rest@ =~= v@.subrange(start as int, k as int),
                decreases v@.len() - k,
            {
                rest.push(v[k]);
                k = k + 1;
            }
            proof {
                assert(rest@ =~= v@.skip(min_int(i + sep@.len(), v@.len() as int)));
            }
            let tail_parts = split_chars(&rest, sep);
            let mut parts: Vec<Vec<char>> = Vec::new();
            parts.push(head);
            let mut t: usize = 0;
            while t < tail_parts.len()
                invariant
                    t <= tail_parts@.len(),
                    parts@.len() == t + 1,
                    parts@[0]@ == v@.take(i as int),
                    forall|k: int| 1 <= k < parts@.len() ==> parts@[k]@ == tail_parts@[k - 1]@,
                decreases tail_parts@.len() - t,
            {
                parts.push(copy_chars(&tail_parts[t]));
                t = t + 1;
            }
            proof {
                let full = spec_split(v@, sep@);
                assert(full == seq![v@.take(i as int)] + spec_split(rest@, sep@));
                assert forall|k: int| 0 <= k < tail_parts@.len() implies tail_parts@[k]@
                    =~= spec_split(rest@, sep@)[k] by {
                    assert(tail_parts.deep_view()[k] == spec_split(rest@, sep@)[k]);
                    assert(tail_parts.deep_view()[k] =~= tail_parts@[k]@);
                }
                assert forall|k: int| 0 <= k < parts@.len() implies parts.deep_view()[k]
                    =~= full[k] by {
                    assert(parts.deep_view()[k] =~= parts@[k]@);
                    if k >= 1 {
                        assert(parts@[k]@ == tail_parts@[k - 1]@);
                        assert(full[k] == spec_split(rest@, sep@)[k - 1]);
                    }
                }
                assert(parts.deep_view() =~~= full);
            }
            parts
        },
    }
}

/// `sep` occurs somewhere in `s`.
pub open spec fn contains_sub(s: Seq<char>, sep: Seq<char>) -> bool {
    first_match(s, sep) is Some
}

/// Executable containment test.
pub fn contains_chars(v: &Vec<char>, sep: &Vec<char>) -> (r: bool)
    requires
        sep@.len() > 0,
    ensures
        r == contains_sub(v@, sep@),
{
    match find_sub(v, sep) {
        Some(_) => true,
        None => false,
    }
}

/// Replace every `/` by ` OR ` (legacy slash-separated license lists).
pub open spec fn slash_to_or(s: Seq<char>) -> Seq<char>
    decreases s.len(),
{
    if s.len() == 0 {
        Seq::empty()
    } else {
        slash_to_or(s.drop_last()) + (if s[s.len() - 1] == '/' {
            " OR "@
        } else {
            seq![s[s.len() - 1]]
        })
    }
}

/// Executable slash normalization.
pub fn replace_slash_or(v: &Vec<char>) -> (r: Vec<char>)
    ensures
        r@ == slash_to_or(v@),
{
    let mut r: Vec<char> = Vec::new();
    let mut i: usize = 0;
    while i < v.len()
        invariant
            i <= v@.len(),
            r@ =~= slash_to_or(v@.take(i as int)),
        decreases v@.len() - i,
    {
        proof {
            assert(v@.take(i + 1).drop_last() =~= v@.take(i as int));
            assert(v@.take(i + 1)[i as int] == v@[i as int]);
        }
        if v[i] == '/' {
            r.push(' ');
            r.push('O');
            r.push('R');
            r.push(' ');
            proof {
                reveal_strlit(" OR ");
                assert(r@ =~= slash_to_or(v@.take(i + 1)));
            }
        } else {
            r.push(v[i]);
            proof {
                assert(r@ =~= slash_to_or(v@.take(i + 1)));
            }
        }
        i = i + 1;
    }
    proof {
        assert(v@.take(v@.len() as int) =~= v@);
    }
    r
}

/// Compare two string slices character by character.
pub fn str_eq_str(a: &str, b: &str) -> (r: bool)
    ensures
        r == (a@ == b@),
{
    let na: usize = a.unicode_len();
    let nb: usize = b.unicode_len();
    if na != nb {
        proof {
            assert(a@.len() != b@.len());
        }
        return false;
    }
    let mut i: usize = 0;
    while i < na
        invariant
            i <= na,
            na == a@.len(),
            na == b@.len(),
            forall|j: int| 0 <= j < i ==> a@[j] == b@[j],
        decreases na - i,
    {
        if a.get_char(i) != b.get_char(i) {
            return false;
        }
        i = i + 1;
    }
    proof {
        assert(a@ =~= b@);
    }
    true
}

/// `s` ends with `suffix`.
pub open spec fn ends_with(s: Seq<char>, suffix: Seq<char>) -> bool {
    s.len() >= suffix.len() && s.skip(s.len() - suffix.len()) == suffix
}

/// Executable suffix test.
pub fn ends_with_str(s: &str, suffix: &str) -> (r: bool)
    ensures
        r == ends_with(s@, suffix@),
{
    let n: usize = s.unicode_len();
    let m: usize = suffix.unicode_len();
    if n < m {
        return false;
    }
    let mut k: usize = 0;
    while k < m
        invariant
            k <= m,
            m <= n,
            n == s@.len(),
            m == suffix@.len(),
            forall|j: int| 0 <= j < k ==> s@[n - m + j] == suffix@[j],
        decreases m - k,
    {
        if s.get_char(n - m + k) != suffix.get_char(k) {
            proof {
                if s@.skip(n - m) == suffix@ {
                    assert(s@.skip(n - m)[k as int] == s@[n - m + k]);
                }
            }
            return false;
        }
        k = k + 1;
    }
    proof {
        assert(s@.skip(n - m) =~= suffix@);
    }
    true
}

/// Lexicographic order over character sequences, by code point.
pub open spec fn str_le(a: Seq<char>, b: Seq<char>) -> bool
    decreases a.len(),
{
    if a.len() == 0 {
        true
    } else if b.len() == 0 {
        false
    } else if a[0] != b[0] {
        a[0] < b[0]
    } else {
        str_le(a.drop_first(), b.drop_first())
    }
}

/// The lexicographic order is total.
pub proof fn lemma_str_le_total(a: Seq<char>, b: Seq<char>)
    ensures
        str_le(a, b) || str_le(b, a),
        str_le(a, b) && str_le(b, a) ==> a == b,
    decreases a.len(),
{
    if a.len() > 0 && b.len() > 0 && a[0] == b[0] {
        lemma_str_le_total(a.drop_first(), b.drop_first());
        if str_le(a, b) && str_le(b, a) {
            assert(a.drop_first() == b.drop_first());
            assert forall|i: int| 0 <= i < a.len() implies a[i] == b[i] by {
                if i > 0 {
                    assert(a.drop_first()[i - 1] == b.drop_first()[i - 1]);
                }
            }
            assert(a =~= b);
        }
    }
}

/// The lexicographic order is transitive.
pub proof fn lemma_str_le_trans(a: Seq<char>, b: Seq<char>, c: Seq<char>)
    requires
        str_le(a, b),
        str_le(b, c),
    ensures
        str_le(a, c),
    decreases a.len(),
{
    if a.len() > 0 && b.len() > 0 && c.len() > 0 && a[0] == b[0] && b[0] == c[0] {
        lemma_str_le_trans(a.drop_first(), b.drop_first(), c.drop_first());
    }
}

/// Executable lexicographic comparison of two strings.
pub fn str_le_exec(a: &str, b: &str) -> (r: bool)
    ensures
        r == str_le(a@, b@),
{
    let na: usize = a.unicode_len();
    let nb: usize = b.unicode_len();
    let mut i: usize = 0;
    proof {
        assert(a@.skip(0) =~= a@);
        assert(b@.skip(0) =~= b@);
    }
    while i < na && i < nb
        invariant
            i <= na,
            i <= nb,
            na == a@.len(),
            nb == b@.len(),
            str_le(a@, b@) == str_le(a@.skip(i as int), b@.skip(i as int)),
        decreases na - i,
    {
        let ca = a.get_char(i);
        let cb = b.get_char(i);
        proof {
            assert(a@.skip(i as int)[0] == a@[i as int]);
            assert(b@.skip(i as int)[0] == b@[i as int]);
            assert(a@.skip(i as int).drop_first() =~= a@.skip(i + 1));
            assert(b@.skip(i as int).drop_first() =~= b@.skip(i + 1));
        }
        if ca != cb {
            return ca < cb;
        }
        i = i + 1;
    }
    proof {
        if i >= na {
            assert(a@.skip(i as int).len() == 0);
        } else {
            assert(b@.skip(i as int).len() == 0);
            assert(a@.skip(i as int).len() > 0);
        }
    }
    na <= nb
}

/// Copy `v[from..to]` into a new vector.
pub fn copy_range(v: &Vec<char>, from: usize, to: usize) -> (r: Vec<char>)
    requires
        from <= to <= v@.len(),
    ensures
        r@ == v@.subrange(from as int, to as int),
{
    let mut r: Vec<char> = Vec::new();
    let mut i: usize = from;
    while i < to
        invariant
            from <= i <= to <= v@.len(),
            r@ =~= v@.subrange(from as int, i as int),
        decreases to - i,
    {
        r.push(v[i]);
        i = i + 1;
    }
    proof {
        assert(r@ =~= v@.subrange(from as int, to as int));
    }
    r
}

} // verus!
