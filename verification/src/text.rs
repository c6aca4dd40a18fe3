//! Character-level text helpers shared by the rest of the library:
//! string / character-vector conversion, decimal rendering of integers,
//! substring search, ASCII case-insensitive comparison, joining, and
//! query-string encoding.

use vstd::prelude::*;
use vstd::string::StrSliceExecFns;

verus! {

/// Copy the characters of a string slice into a vector, one per element.
pub fn chars_vec(s: &str) -> (v: Vec<char>)
    ensures
        v@ == s@,
{
    let n = s.unicode_len();
    let mut v: Vec<char> = Vec::new();
    let mut i: usize = 0;
    while i < n
        invariant
            n == s@.len(),
            i <= n,
            v@ == s@.subrange(0, i as int),
        decreases n - i,
    {
        v.push(s.get_char(i));
        i += 1;
        proof {
            assert(v@ =~= s@.subrange(0, i as int));
        }
    }
    proof {
        assert(v@ =~= s@);
    }
    v
}

/// Relies on `String`'s `FromIterator<char>`: collecting yields exactly the
/// iterated characters, in order.
#[verifier::external_body]
pub fn string_from_chars(v: &Vec<char>) -> (s: String)
    ensures
        s@ == v@,
{
    v.iter().collect()
}

/// The character for one decimal digit.
pub open spec fn dec_digit(d: int) -> char {
    if d == 0 {
        '0'
    } else if d == 1 {
        '1'
    } else if d == 2 {
        '2'
    } else if d == 3 {
        '3'
    } else if d == 4 {
        '4'
    } else if d == 5 {
        '5'
    } else if d == 6 {
        '6'
    } else if d == 7 {
        '7'
    } else if d == 8 {
        '8'
    } else {
        '9'
    }
}

/// The decimal rendering of a non-negative integer, most significant digit
/// first, with no leading zeros (except for zero itself).
pub open spec fn spec_dec(n: int) -> Seq<char>
    decreases n,
{
    if n < 10 {
        seq![dec_digit(n)]
    } else {
        spec_dec(n / 10).push(dec_digit(n % 10))
    }
}

fn digit_char(d: u64) -> (c: char)
    requires
        d < 10,
    ensures
        c == dec_digit(d as int),
{
    match d {
        0 => '0',
        1 => '1',
        2 => '2',
        3 => '3',
        4 => '4',
        5 => '5',
        6 => '6',
        7 => '7',
        8 => '8',
        _ => '9',
    }
}

/// The decimal digits of `n`, as characters.
pub fn u64_dec_chars(n: u64) -> (v: Vec<char>)
    ensures
        v@ == spec_dec(n as int),
    decreases n,
{
    if n < 10 {
        let mut v: Vec<char> = Vec::new();
        v.push(digit_char(n));
        proof {
            assert(v@ =~= spec_dec(n as int));
        }
        v
    } else {
        let mut v = u64_dec_chars(n / 10);
        v.push(digit_char(n % 10));
        v
    }
}

/// The decimal rendering of `n` as a `String`.
pub fn u64_string(n: u64) -> (s: String)
    ensures
        s@ == spec_dec(n as int),
{
    let v = u64_dec_chars(n);
    string_from_chars(&v)
}

/// The decimal rendering of a signed integer.
pub open spec fn spec_dec_signed(n: int) -> Seq<char> {
    if n < 0 {
        seq!['-'] + spec_dec(-n)
    } else {
        spec_dec(n)
    }
}

/// The decimal digits of a signed integer, as characters.
pub fn i64_dec_chars(n: i64) -> (v: Vec<char>)
    ensures
        v@ == spec_dec_signed(n as int),
{
    if n >= 0 {
        u64_dec_chars(n as u64)
    } else {
        let wide: i128 = n as i128;
        let mag: u64 = (-wide) as u64;
        let digits = u64_dec_chars(mag);
        let mut v: Vec<char> = Vec::new();
        v.push('-');
        let mut i: usize = 0;
        while i < digits.len()
            invariant
                i <= digits.len(),
                v@ == seq!['-'] + digits@.subrange(0, i as int),
            decreases digits.len() - i,
        {
            v.push(digits[i]);
            i += 1;
            proof {
                assert(v@ =~= seq!['-'] + digits@.subrange(0, i as int));
            }
        }
        proof {
            assert(v@ =~= seq!['-'] + digits@);
        }
        v
    }
}

/// `needle` occurs in `hay` starting at position `i`.
pub open spec fn matches_at(hay: Seq<char>, needle: Seq<char>, i: int) -> bool {
    0 <= i && i + needle.len() <= hay.len() && hay.subrange(i, i + needle.len()) == needle
}

/// `needle` occurs somewhere in `hay` (an empty needle always occurs).
pub open spec fn contains_seq(hay: Seq<char>, needle: Seq<char>) -> bool {
    exists|i: int| matches_at(hay, needle, i)
}

fn matches_at_exec(hay: &Vec<char>, needle: &Vec<char>, i: usize) -> (r: bool)
    requires
        i + needle.len() <= hay.len(),
    ensures
        r == matches_at(hay@, needle@, i as int),
{
    let mut j: usize = 0;
    while j < needle.len()
        invariant
            i + needle.len() <= hay.len(),
            j <= needle.len(),
            forall|k: int| 0 <= k < j ==> hay@[i + k] == needle@[k],
        decreases needle.len() - j,
    {
        if hay[i + j] != needle[j] {
            proof {
                assert(hay@.subrange(i as int, i + needle@.len())[j as int] != needle@[j as int]);
            }
            return false;
        }
        j += 1;
    }
    proof {
        assert(hay@.subrange(i as int, i + needle@.len()) =~= needle@);
    }
    true
}

/// Find the first position at which `needle` occurs in `hay`.
pub fn find_chars(hay: &Vec<char>, needle: &Vec<char>) -> (r: Option<usize>)
    ensures
        match r {
            Some(i) => matches_at(hay@, needle@, i as int) && forall|k: int|
                0 <= k < i ==> !matches_at(hay@, needle@, k),
            None => !contains_seq(hay@, needle@),
        },
{
    if needle.len() > hay.len() {
        return None;
    }
    let limit: usize = hay.len() - needle.len();
    let mut i: usize = 0;
    while i < limit
        invariant
            needle.len() <= hay.len(),
            limit == hay.len() - needle.len(),
            i <= limit,
            forall|k: int| 0 <= k < i ==> !matches_at(hay@, needle@, k),
        decreases limit - i,
    {
        if matches_at_exec(hay, needle, i) {
            return Some(i);
        }
        i += 1;
    }
    if matches_at_exec(hay, needle, limit) {
        Some(limit)
    } else {
        None
    }
}

/// Does `needle` occur in `hay`?
pub fn contains_chars(hay: &Vec<char>, needle: &Vec<char>) -> (r: bool)
    ensures
        r == contains_seq(hay@, needle@),
{
    match find_chars(hay, needle) {
        Some(_) => true,
        None => false,
    }
}

/// The code point of a character, with ASCII upper case folded to lower case.
pub open spec fn ascii_lower_code(c: char) -> int {
    if 'A' <= c && c <= 'Z' {
        c as int + 32
    } else {
        c as int
    }
}

/// Character sequences equal up to ASCII case.
pub open spec fn ascii_ci_eq_seq(a: Seq<char>, b: Seq<char>) -> bool {
    a.len() == b.len() && forall|i: int|
        0 <= i < a.len() ==> ascii_lower_code(a[i]) == ascii_lower_code(b[i])
}

fn ascii_ci_eq_char(a: char, b: char) -> (r: bool)
    ensures
        r == (ascii_lower_code(a) == ascii_lower_code(b)),
{
    let ca: u32 = a as u32;
    let cb: u32 = b as u32;
    let fa: u32 = if 'A' <= a && a <= 'Z' {
        ca + 32
    } else {
        ca
    };
    let fb: u32 = if 'A' <= b && b <= 'Z' {
        cb + 32
    } else {
        cb
    };
    fa == fb
}

/// Strings equal up to ASCII case, as `str::eq_ignore_ascii_case` decides it.
pub fn ascii_ci_eq(a: &str, b: &str) -> (r: bool)
    ensures
        r == ascii_ci_eq_seq(a@, b@),
{
    let va = chars_vec(a);
    let vb = chars_vec(b);
    if va.len() != vb.len() {
        return false;
    }
    let mut i: usize = 0;
    while i < va.len()
        invariant
            va@ == a@,
            vb@ == b@,
            va.len() == vb.len(),
            i <= va.len(),
            forall|k: int| 0 <= k < i ==> ascii_lower_code(a@[k]) == ascii_lower_code(b@[k]),
        decreases va.len() - i,
    {
        if !ascii_ci_eq_char(va[i], vb[i]) {
            return false;
        }
        i += 1;
    }
    true
}

/// What `str::to_lowercase` returns: a function of the characters alone.
pub uninterp spec fn lower_of(s: Seq<char>) -> Seq<char>;

/// Relies on `str::to_lowercase`: the result depends only on the input
/// characters, so equal inputs fold to equal outputs.
#[verifier::external_body]
pub fn lowercase(s: &str) -> (r: String)
    ensures
        r@ == lower_of(s@),
{
    s.to_lowercase()
}

/// What `char::is_alphanumeric` returns for a character.
pub uninterp spec fn alphanumeric(c: char) -> bool;

/// Relies on `char::is_alphanumeric`: a fixed predicate on the character.
#[verifier::external_body]
pub fn is_alphanumeric_char(c: char) -> (r: bool)
    ensures
        r == alphanumeric(c),
{
    c.is_alphanumeric()
}

/// `parts` joined with `sep` between consecutive elements.
pub open spec fn spec_join(parts: Seq<Seq<char>>, sep: Seq<char>) -> Seq<char>
    decreases parts.len(),
{
    if parts.len() == 0 {
        Seq::empty()
    } else if parts.len() == 1 {
        parts[0]
    } else {
        spec_join(parts.drop_last(), sep) + sep + parts.last()
    }
}

/// Join strings with a separator.
pub fn join_with(parts: &Vec<String>, sep: &str) -> (r: String)
    ensures
        r@ == spec_join(parts@.map_values(|p: String| p@), sep@),
{
    let ghost views = parts@.map_values(|p: String| p@);
    let mut out = String::new();
    let mut i: usize = 0;
    while i < parts.len()
        invariant
            views == parts@.map_values(|p: String| p@),
            i <= parts.len(),
            out@ == spec_join(views.subrange(0, i as int), sep@),
        decreases parts.len() - i,
    {
        if i > 0 {
            out.append(sep);
        }
        out.append(parts[i].as_str());
        i += 1;
        proof {
            assert(views.subrange(0, i as int).drop_last() =~= views.subrange(0, i - 1));
            if i == 1 {
                assert(out@ =~= spec_join(views.subrange(0, 1), sep@));
            }
        }
    }
    proof {
        assert(views.subrange(0, parts@.len() as int) =~= views);
    }
    out
}

/// How one character of a query string is encoded: space, `&` and `=` become
/// percent escapes, everything else is kept.
pub open spec fn enc_char(c: char) -> Seq<char> {
    if c == ' ' {
        seq!['%', '2', '0']
    } else if c == '&' {
        seq!['%', '2', '6']
    } else if c == '=' {
        seq!['%', '3', 'D']
    } else {
        seq![c]
    }
}

/// The whole query string, encoded character by character.
pub open spec fn spec_encode_query(s: Seq<char>) -> Seq<char>
    decreases s.len(),
{
    if s.len() == 0 {
        Seq::empty()
    } else {
        spec_encode_query(s.drop_last()) + enc_char(s.last())
    }
}

/// Encode a search term for use in a query string, escaping space, `&` and
/// `=` as their percent forms.
pub fn encode_query(s: &str) -> (r: String)
    ensures
        r@ == spec_encode_query(s@),
{
    let v = chars_vec(s);
    let mut out: Vec<char> = Vec::new();
    let mut i: usize = 0;
    while i < v.len()
        invariant
            v@ == s@,
            i <= v.len(),
            out@ == spec_encode_query(s@.subrange(0, i as int)),
        decreases v.len() - i,
    {
        let c = v[i];
        if c == ' ' {
            out.push('%');
            out.push('2');
            out.push('0');
        } else if c == '&' {
            out.push('%');
            out.push('2');
            out.push('6');
        } else if c == '=' {
            out.push('%');
            out.push('3');
            out.push('D');
        } else {
            out.push(c);
        }
        i += 1;
        proof {
            let pre = s@.subrange(0, i as int);
            assert(pre.drop_last() =~= s@.subrange(0, i - 1));
            assert(out@ =~= spec_encode_query(pre.drop_last()) + enc_char(pre.last()));
        }
    }
    proof {
        assert(s@.subrange(0, s@.len() as int) =~= s@);
    }
    string_from_chars(&out)
}

} // verus!
