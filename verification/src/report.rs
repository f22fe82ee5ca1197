//! Pure helpers for the report renderers: text truncation, word
//! wrapping, dependency count lines and scan-date formatting. The
//! drawing and printing themselves live outside the library.

use vstd::prelude::*;

use crate::text::{chars_of, is_space_char, string_of};

verus! {

/// Does `cur + sep + add` exceed `max`? (Overflow-safe.)
fn exceeds(cur: usize, sep: usize, add: usize, max: usize) -> (r: bool)
    ensures
        r == (cur + sep + add > max),
{
    if cur > max {
        true
    } else if sep > max - cur {
        true
    } else {
        add > max - cur - sep
    }
}

/// Truncation to `max` characters: longer strings keep their first
/// `max - 1` characters and end in an ellipsis.
pub open spec fn spec_truncate(s: Seq<char>, max: int) -> Seq<char> {
    if s.len() > max {
        s.take(max - 1).push('…')
    } else {
        s
    }
}

/// Truncate a string to at most `max` characters for display.
pub fn truncate(s: &str, max: usize) -> (r: String)
    requires
        max >= 1,
    ensures
        r@ == spec_truncate(s@, max as int),
{
    let v = chars_of(s);
    if v.len() > max {
        let mut t = crate::text::copy_range(&v, 0, max - 1);
        t.push('…');
        proof {
            assert(t@ =~= spec_truncate(s@, max as int));
        }
        string_of(&t)
    } else {
        string_of(&v)
    }
}

/// Greedy word wrap: words are whitespace-separated runs; each line
/// takes words while they fit in `max_chars`. A string that already
/// fits is returned as its own single line.
pub fn wrap_text(text: &str, max_chars: usize) -> (r: Vec<String>)
    ensures
        text@.len() <= max_chars ==> r@.len() == 1 && r@[0]@ == text@,
{
    let v = chars_of(text);
    if v.len() <= max_chars {
        let mut r: Vec<String> = Vec::new();
        r.push(string_of(&v));
        return r;
    }
    let mut lines: Vec<String> = Vec::new();
    let mut current: Vec<char> = Vec::new();
    let mut i: usize = 0;
    while i < v.len()
        invariant
            i <= v@.len(),
        decreases v@.len() - i,
    {
        // skip separators
        if is_space_char(v[i]) {
            i = i + 1;
        } else {
            // collect one word
            let mut word: Vec<char> = Vec::new();
            word.push(v[i]);
            i = i + 1;
            let ghost istart = i as int;
            while i < v.len() && !is_space_char(v[i])
                invariant
                    istart <= i <= v@.len(),
                decreases v@.len() - i,
            {
                word.push(v[i]);
                i = i + 1;
            }
            if current.len() == 0 {
                current = word;
            } else if exceeds(current.len(), 1, word.len(), max_chars) {
                lines.push(string_of(&current));
                current = word;
            } else {
                current.push(' ');
                let mut k: usize = 0;
                while k < word.len()
                    invariant
                        k <= word@.len(),
                    decreases word@.len() - k,
                {
                    current.push(word[k]);
                    k = k + 1;
                }
            }
        }
    }
    if current.len() > 0 {
        lines.push(string_of(&current));
    }
    lines
}

/// The decimal digit character of a value below ten.
pub open spec fn spec_digit(d: int) -> char {
    if d == 0 {
        '0'
    } else if d == 1 {
        '1'
    } else if d == 2 {
        '2'
    } else if d == 3 {
        '3'
    } else if d == 4 {
        '4'
    } else if d == 5 {
        '5'
    } else if d == 6 {
        '6'
    } else if d == 7 {
        '7'
    } else if d == 8 {
        '8'
    } else {
        '9'
    }
}

/// The decimal spelling of a natural number.
pub open spec fn spec_dec(n: int) -> Seq<char>
    decreases n,
{
    if n < 10 {
        seq![spec_digit(n)]
    } else {
        spec_dec(n / 10).push(spec_digit(n % 10))
    }
}

/// The digit character of one decimal digit.
fn digit_char(d: u64) -> (c: char)
    requires
        d < 10,
    ensures
        c == spec_digit(d as int),
{
    if d == 0 {
        '0'
    } else if d == 1 {
        '1'
    } else if d == 2 {
        '2'
    } else if d == 3 {
        '3'
    } else if d == 4 {
        '4'
    } else if d == 5 {
        '5'
    } else if d == 6 {
        '6'
    } else if d == 7 {
        '7'
    } else if d == 8 {
        '8'
    } else {
        '9'
    }
}

/// The decimal digits of a number.
pub fn dec_chars(n: u64) -> (r: Vec<char>)
    ensures
        r@ == spec_dec(n as int),
    decreases n,
{
    if n < 10 {
        let mut r: Vec<char> = Vec::new();
        r.push(digit_char(n));
        proof {
            assert(r@ =~= spec_dec(n as int));
        }
        r
    } else {
        let mut r = dec_chars(n / 10);
        r.push(digit_char(n % 10));
        r
    }
}

/// The decimal spelling of a count.
pub fn dec_string(n: u64) -> (r: String)
    ensures
        r@ == spec_dec(n as int),
{
    string_of(&dec_chars(n))
}

/// The final count line of a dependency list:
/// `N package` or `N packages`.
pub open spec fn spec_count_line(n: int) -> Seq<char> {
    spec_dec(n) + (if n == 1 {
        " package"@
    } else {
        " packages"@
    })
}

/// Wrap dependency names into lines of at most `max_chars`
/// characters, comma separated, and close with the count line.
/// An empty list is shown as a dash.
pub fn format_dep_count_list(names: &Vec<String>, max_chars: usize) -> (r: Vec<String>)
    ensures
        names@.len() == 0 ==> r@.len() == 1 && r@[0]@ == "—"@,
        names@.len() > 0 ==> r@.len() >= 1 && r@[r@.len() - 1]@ == spec_count_line(
            names@.len() as int,
        ),
{
    let mut r: Vec<String> = Vec::new();
    if names.len() == 0 {
        r.push(String::from_str("—"));
        return r;
    }
    let mut current: Vec<char> = Vec::new();
    let mut i: usize = 0;
    while i < names.len()
        invariant
            i <= names@.len(),
        decreases names@.len() - i,
    {
        let name = chars_of(names[i].as_str());
        let sep_len: usize = if current.len() == 0 {
            0
        } else {
            2
        };
        if current.len() > 0 && exceeds(current.len(), sep_len, name.len(), max_chars) {
            r.push(string_of(&current));
            current = name;
        } else {
            if current.len() > 0 {
                current.push(',');
                current.push(' ');
            }
            let mut k: usize = 0;
            while k < name.len()
                invariant
                    k <= name@.len(),
                decreases name@.len() - k,
            {
                current.push(name[k]);
                k = k + 1;
            }
        }
        i = i + 1;
    }
    if current.len() > 0 {
        r.push(string_of(&current));
    }
    let mut count_line = dec_chars(names.len() as u64);
    let suffix: &str = if names.len() == 1 {
        " package"
    } else {
        " packages"
    };
    let suffix_chars = chars_of(suffix);
    let mut k: usize = 0;
    while k < suffix_chars.len()
        invariant
            k <= suffix_chars@.len(),
            count_line@ =~= spec_dec(names@.len() as int) + suffix_chars@.take(k as int),
        decreases suffix_chars@.len() - k,
    {
        count_line.push(suffix_chars[k]);
        k = k + 1;
    }
    proof {
        assert(count_line@ =~= spec_count_line(names@.len() as int));
    }
    r.push(string_of(&count_line));
    r
}

/// The scan date derived from a Unix timestamp with the flat
/// 365-day-year, 30-day-month approximation: `YYYY-MM-DD`, month
/// capped at 12 and day at 31.
pub open spec fn spec_date(secs: int) -> Seq<char> {
    let days = secs / 86400;
    let year = 1970 + days / 365;
    let doy = days % 365;
    let month = if doy / 30 + 1 <= 12 {
        doy / 30 + 1
    } else {
        12
    };
    let day = if doy % 30 + 1 <= 31 {
        doy % 30 + 1
    } else {
        31
    };
    spec_dec(year) + "-"@ + spec_pad2(month) + "-"@ + spec_pad2(day)
}

/// Two-digit zero padding of a value below one hundred.
pub open spec fn spec_pad2(n: int) -> Seq<char> {
    if n < 10 {
        seq!['0'] + spec_dec(n)
    } else {
        spec_dec(n)
    }
}

/// Two-digit zero padding.
fn pad2_chars(n: u64) -> (r: Vec<char>)
    requires
        n < 100,
    ensures
        r@ == spec_pad2(n as int),
{
    if n < 10 {
        let mut r: Vec<char> = Vec::new();
        r.push('0');
        r.push(digit_char(n));
        proof {
            assert(spec_dec(n as int) =~= seq![spec_digit(n as int)]);
            assert(r@ =~= spec_pad2(n as int));
        }
        r
    } else {
        dec_chars(n)
    }
}

/// Format a Unix timestamp as the scan date shown in reports.
pub fn format_unix_date(secs: u64) -> (r: String)
    ensures
        r@ == spec_date(secs as int),
{
    let days: u64 = secs / 86400;
    proof {
        assert(days <= u64::MAX / 86400) by (nonlinear_arith)
            requires
                days == secs / 86400,
                secs <= u64::MAX,
        ;
    }
    let year: u64 = 1970 + days / 365;
    proof {
        assert(days / 365 <= days) by (nonlinear_arith)
            requires
                days >= 0,
        ;
    }
    let doy: u64 = days % 365;
    let m0: u64 = doy / 30 + 1;
    let month: u64 = if m0 <= 12 {
        m0
    } else {
        12
    };
    let d0: u64 = doy % 30 + 1;
    let day: u64 = if d0 <= 31 {
        d0
    } else {
        31
    };
    let mut out = dec_chars(year);
    out.push('-');
    let mon = pad2_chars(month);
    let mut k: usize = 0;
    while k < mon.len()
        invariant
            k <= mon@.len(),
            out@ =~= spec_dec(year as int) + seq!['-'] + mon@.take(k as int),
        decreases mon@.len() - k,
    {
        out.push(mon[k]);
        k = k + 1;
    }
    out.push('-');
    let dd = pad2_chars(day);
    let mut j: usize = 0;
    while j < dd.len()
        invariant
            j <= dd@.len(),
            out@ =~= spec_dec(year as int) + seq!['-'] + mon@ + seq!['-'] + dd@.take(j as int),
        decreases dd@.len() - j,
    {
        out.push(dd[j]);
        j = j + 1;
    }
    proof {
        reveal_strlit("-");
        assert(out@ =~= spec_date(secs as int));
    }
    string_of(&out)
}

} // verus!
