//! Character-level text handling: whitespace trimming, string building,
//! decimal rendering and the file-name sanitiser.
use vstd::prelude::*;

verus! {

// ---------------------------------------------------------------------------
// Specifications
// ---------------------------------------------------------------------------

/// The Unicode `White_Space` property, which is what `char::is_whitespace`
/// (and therefore `str::trim`) tests for.
pub open spec fn is_white(c: char) -> bool {
    let u = c as u32;
    ||| 0x09 <= u <= 0x0D
    ||| u == 0x20
    ||| u == 0x85
    ||| u == 0xA0
    ||| u == 0x1680
    ||| 0x2000 <= u <= 0x200A
    ||| u == 0x2028
    ||| u == 0x2029
    ||| u == 0x202F
    ||| u == 0x205F
    ||| u == 0x3000
}

/// `s` with its leading whitespace removed.
pub open spec fn trim_start(s: Seq<char>) -> Seq<char>
    decreases s.len(),
{
    if s.len() > 0 && is_white(s[0]) {
        trim_start(s.drop_first())
    } else {
        s
    }
}

/// `s` with its trailing whitespace removed.
pub open spec fn trim_end(s: Seq<char>) -> Seq<char>
    decreases s.len(),
{
    if s.len() > 0 && is_white(s.last()) {
        trim_end(s.drop_last())
    } else {
        s
    }
}

/// `s` with whitespace removed at both ends.
pub open spec fn trim(s: Seq<char>) -> Seq<char> {
    trim_end(trim_start(s))
}

/// `s` with every leading copy of the character `c` removed.
pub open spec fn strip_all_prefix_char(s: Seq<char>, c: char) -> Seq<char>
    decreases s.len(),
{
    if s.len() > 0 && s[0] == c {
        strip_all_prefix_char(s.drop_first(), c)
    } else {
        s
    }
}

/// The decimal digit for `d` (for `d < 10`).
pub open spec fn digit_char(d: nat) -> char {
    (48 + d) as char
}

/// The decimal rendering of `n`, without leading zeros.
pub open spec fn decimal(n: nat) -> Seq<char>
    decreases n,
{
    if n < 10 {
        seq![digit_char(n)]
    } else {
        decimal(n / 10).push(digit_char(n % 10))
    }
}

/// The decimal rendering of a signed integer, with a leading `-` when negative.
pub open spec fn signed_decimal(n: int) -> Seq<char> {
    if n < 0 {
        seq!['-'] + decimal((-n) as nat)
    } else {
        decimal(n as nat)
    }
}

/// Name for the result of `char::is_alphanumeric` (the Unicode `Alphabetic`
/// property or a numeric general category).
pub uninterp spec fn char_is_alphanumeric(c: char) -> bool;

/// The character that the file-name sanitiser puts in place of `c`.
pub open spec fn sanitized_char(c: char) -> char {
    if char_is_alphanumeric(c) || c == '-' || c == '_' {
        c
    } else {
        '_'
    }
}

/// A character that may stand in a sanitised file name.
pub open spec fn is_name_safe(c: char) -> bool {
    char_is_alphanumeric(c) || c == '-' || c == '_'
}

/// An ASCII character that the file-name sanitiser keeps: a letter, a digit,
/// `-` or `_`.
pub open spec fn ascii_name_char(c: char) -> bool {
    ('a' <= c && c <= 'z') || ('A' <= c && c <= 'Z') || ('0' <= c && c <= '9') || c == '-' || c
        == '_'
}

/// The sanitised form of a set name: every character kept when it is
/// alphanumeric, `-` or `_`, and replaced by `_` otherwise.
pub open spec fn sanitized(s: Seq<char>) -> Seq<char> {
    Seq::new(s.len(), |i: int| sanitized_char(s[i]))
}

// ---------------------------------------------------------------------------
// Trusted calls into std
// ---------------------------------------------------------------------------

/// `String::push`: appends the character `c` at the end of `s`.
#[verifier::external_body]
pub(crate) fn push_char(s: &mut String, c: char)
    ensures
        final(s)@ == old(s)@.push(c),
{
    s.push(c);
}

/// `char::is_alphanumeric`. The result is named by `char_is_alphanumeric`;
/// for ASCII characters the documentation shows it is true exactly for
/// letters and digits.
#[verifier::external_body]
pub(crate) fn is_alphanumeric(c: char) -> (r: bool)
    ensures
        r == char_is_alphanumeric(c),
        (c as u32) < 128 ==> (r <==> (('a' <= c && c <= 'z') || ('A' <= c && c <= 'Z') || ('0'
            <= c && c <= '9'))),
{
    c.is_alphanumeric()
}

// ---------------------------------------------------------------------------
// Building blocks
// ---------------------------------------------------------------------------

/// The characters of `s`, in order.
pub fn chars_of(s: &str) -> (r: Vec<char>)
    ensures
        r@ == s@,
{
    let mut out: Vec<char> = Vec::new();
    for c in it: s.chars()
        invariant
            out@ == it.seq().take(it.index() as int),
    {
        out.push(c);
    }
    out
}

/// Appends the characters `cs[lo..hi]` to `out`.
pub fn push_chars(out: &mut String, cs: &Vec<char>, lo: usize, hi: usize)
    requires
        lo <= hi <= cs@.len(),
    ensures
        final(out)@ == old(out)@ + cs@.subrange(lo as int, hi as int),
{
    let mut i = lo;
    while i < hi
        invariant
            lo <= i <= hi <= cs@.len(),
            out@ == old(out)@ + cs@.subrange(lo as int, i as int),
        decreases hi - i,
    {
        push_char(out, cs[i]);
        assert(cs@.subrange(lo as int, i + 1) == cs@.subrange(lo as int, i as int).push(cs@[i as int]));
        i = i + 1;
    }
}

/// A string made of the characters `cs[lo..hi]`.
pub fn string_of_range(cs: &Vec<char>, lo: usize, hi: usize) -> (r: String)
    requires
        lo <= hi <= cs@.len(),
    ensures
        r@ == cs@.subrange(lo as int, hi as int),
{
    let mut out = String::new();
    push_chars(&mut out, cs, lo, hi);
    out
}

/// A string made of all the characters of `cs`.
pub fn string_of(cs: &Vec<char>) -> (r: String)
    ensures
        r@ == cs@,
{
    let r = string_of_range(cs, 0, cs.len());
    assert(cs@.subrange(0, cs@.len() as int) == cs@);
    r
}

/// `str` to owned `String`, keeping every character.
pub fn to_owned(s: &str) -> (r: String)
    ensures
        r@ == s@,
{
    String::from_str(s)
}

/// Whether `a` and `b` hold the same characters.
pub fn str_equal(a: &str, b: &str) -> (r: bool)
    ensures
        r == (a@ == b@),
{
    let x = chars_of(a);
    let y = chars_of(b);
    if x.len() != y.len() {
        return false;
    }
    let mut i: usize = 0;
    while i < x.len()
        invariant
            x@ == a@,
            y@ == b@,
            x@.len() == y@.len(),
            i <= x@.len(),
            forall|j: int| 0 <= j < i ==> x@[j] == y@[j],
        decreases x.len() - i,
    {
        if x[i] != y[i] {
            return false;
        }
        i = i + 1;
    }
    assert(x@ =~= y@);
    true
}

/// Whether the character `c` occurs in `s`.
pub fn contains_char(s: &str, c: char) -> (r: bool)
    ensures
        r == s@.contains(c),
{
    let cs = chars_of(s);
    let mut i: usize = 0;
    while i < cs.len()
        invariant
            cs@ == s@,
            i <= cs@.len(),
            forall|j: int| 0 <= j < i ==> cs@[j] != c,
        decreases cs.len() - i,
    {
        if cs[i] == c {
            assert(s@[i as int] == c);
            return true;
        }
        i = i + 1;
    }
    false
}

/// `char::is_whitespace`: the Unicode `White_Space` property.
pub fn is_whitespace(c: char) -> (r: bool)
    ensures
        r == is_white(c),
{
    let u = c as u32;
    (0x09 <= u && u <= 0x0D) || u == 0x20 || u == 0x85 || u == 0xA0 || u == 0x1680 || (0x2000
        <= u && u <= 0x200A) || u == 0x2028 || u == 0x2029 || u == 0x202F || u == 0x205F || u
        == 0x3000
}

// ---------------------------------------------------------------------------
// Trimming
// ---------------------------------------------------------------------------

proof fn lemma_trim_start_skip(s: Seq<char>, i: int)
    requires
        0 <= i < s.len(),
        is_white(s[i]),
    ensures
        trim_start(s.skip(i)) == trim_start(s.skip(i + 1)),
{
    assert(s.skip(i).drop_first() =~= s.skip(i + 1));
}

proof fn lemma_trim_end_take(s: Seq<char>, i: int)
    requires
        0 < i <= s.len(),
        is_white(s[i - 1]),
    ensures
        trim_end(s.take(i)) == trim_end(s.take(i - 1)),
{
    assert(s.take(i).drop_last() =~= s.take(i - 1));
}

/// Index of the first non-whitespace character of `cs` (or its length).
pub fn leading_white_len(cs: &Vec<char>) -> (k: usize)
    ensures
        k <= cs@.len(),
        trim_start(cs@) == cs@.skip(k as int),
        forall|j: int| 0 <= j < k ==> is_white(cs@[j]),
        k < cs@.len() ==> !is_white(cs@[k as int]),
{
    let mut i: usize = 0;
    assert(cs@.skip(0) =~= cs@);
    while i < cs.len() && is_whitespace(cs[i])
        invariant
            i <= cs@.len(),
            trim_start(cs@) == trim_start(cs@.skip(i as int)),
            forall|j: int| 0 <= j < i ==> is_white(cs@[j]),
        decreases cs.len() - i,
    {
        proof {
            lemma_trim_start_skip(cs@, i as int);
        }
        i = i + 1;
    }
    proof {
        if i < cs@.len() {
            assert(cs@.skip(i as int)[0] == cs@[i as int]);
        }
    }
    i
}

/// Index of the first non-whitespace character of `cs` at or after `lo`
/// (or the length of `cs`).
pub fn white_run_end(cs: &Vec<char>, lo: usize) -> (k: usize)
    requires
        lo <= cs@.len(),
    ensures
        lo <= k <= cs@.len(),
        trim_start(cs@.skip(lo as int)) == cs@.skip(k as int),
        forall|j: int| lo <= j < k ==> is_white(cs@[j]),
        k < cs@.len() ==> !is_white(cs@[k as int]),
{
    let mut i: usize = lo;
    while i < cs.len() && is_whitespace(cs[i])
        invariant
            lo <= i <= cs@.len(),
            trim_start(cs@.skip(lo as int)) == trim_start(cs@.skip(i as int)),
            forall|j: int| lo <= j < i ==> is_white(cs@[j]),
        decreases cs.len() - i,
    {
        proof {
            lemma_trim_start_skip(cs@, i as int);
        }
        i = i + 1;
    }
    proof {
        if i < cs@.len() {
            assert(cs@.skip(i as int)[0] == cs@[i as int]);
        }
    }
    i
}

/// End of `cs[lo..]` once its trailing whitespace is dropped.
pub fn trailing_white_start(cs: &Vec<char>, lo: usize) -> (k: usize)
    requires
        lo <= cs@.len(),
    ensures
        lo <= k <= cs@.len(),
        trim_end(cs@.skip(lo as int)) == cs@.subrange(lo as int, k as int),
        forall|j: int| k <= j < cs@.len() ==> is_white(cs@[j]),
        k > lo ==> !is_white(cs@[k - 1]),
{
    let ghost t = cs@.skip(lo as int);
    let mut k: usize = cs.len();
    assert(t.take(t.len() as int) =~= t);
    while k > lo && is_whitespace(cs[k - 1])
        invariant
            lo <= k <= cs@.len(),
            t == cs@.skip(lo as int),
            trim_end(t) == trim_end(t.take(k - lo)),
            forall|j: int| k <= j < cs@.len() ==> is_white(cs@[j]),
        decreases k,
    {
        proof {
            assert(t[k - lo - 1] == cs@[k - 1]);
            lemma_trim_end_take(t, k - lo);
        }
        k = k - 1;
    }
    proof {
        assert(t.take(k - lo) =~= cs@.subrange(lo as int, k as int));
        if k > lo {
            assert(t.take(k - lo).last() == cs@[k - 1]);
        }
    }
    k
}

/// `str::trim`: `s` without leading and trailing whitespace.
pub fn trim_str(s: &str) -> (r: String)
    ensures
        r@ == trim(s@),
{
    let cs = chars_of(s);
    let lo = leading_white_len(&cs);
    let hi = trailing_white_start(&cs, lo);
    string_of_range(&cs, lo, hi)
}

/// `str::trim_start`: `s` without leading whitespace.
pub fn trim_start_str(s: &str) -> (r: String)
    ensures
        r@ == trim_start(s@),
{
    let cs = chars_of(s);
    let lo = leading_white_len(&cs);
    let r = string_of_range(&cs, lo, cs.len());
    assert(cs@.subrange(lo as int, cs@.len() as int) =~= cs@.skip(lo as int));
    r
}

/// Whether `s` is empty once trimmed (`s.trim().is_empty()`).
pub fn is_blank(s: &str) -> (r: bool)
    ensures
        r == (trim(s@).len() == 0),
{
    let t = trim_str(s);
    t.as_str().unicode_len() == 0
}

proof fn lemma_strip_prefix_skip(s: Seq<char>, c: char, i: int)
    requires
        0 <= i < s.len(),
        s[i] == c,
    ensures
        strip_all_prefix_char(s.skip(i), c) == strip_all_prefix_char(s.skip(i + 1), c),
{
    assert(s.skip(i).drop_first() =~= s.skip(i + 1));
}

/// `str::trim_start_matches(c)` for a single character: every leading copy
/// of `c` removed.
pub fn strip_prefix_all(s: &str, c: char) -> (r: String)
    ensures
        r@ == strip_all_prefix_char(s@, c),
{
    let cs = chars_of(s);
    let mut i: usize = 0;
    assert(cs@.skip(0) =~= cs@);
    while i < cs.len() && cs[i] == c
        invariant
            cs@ == s@,
            i <= cs@.len(),
            strip_all_prefix_char(s@, c) == strip_all_prefix_char(cs@.skip(i as int), c),
        decreases cs.len() - i,
    {
        proof {
            lemma_strip_prefix_skip(cs@, c, i as int);
        }
        i = i + 1;
    }
    proof {
        if i < cs@.len() {
            assert(cs@.skip(i as int)[0] == cs@[i as int]);
        }
    }
    let r = string_of_range(&cs, i, cs.len());
    assert(cs@.subrange(i as int, cs@.len() as int) =~= cs@.skip(i as int));
    r
}

// ---------------------------------------------------------------------------
// Decimal rendering
// ---------------------------------------------------------------------------

/// Appends the decimal rendering of `n` to `out` (`format!("{n}")`).
pub fn push_decimal(out: &mut String, n: u64)
    ensures
        final(out)@ == old(out)@ + decimal(n as nat),
    decreases n,
{
    if n >= 10 {
        push_decimal(out, n / 10);
    }
    let d: u32 = (n % 10) as u32;
    let c = char_from_digit(d);
    push_char(out, c);
    proof {
        if n < 10 {
            assert(old(out)@ + decimal(n as nat) =~= old(out)@.push(digit_char(n as nat)));
        } else {
            assert(old(out)@ + decimal(n as nat) =~= (old(out)@ + decimal((n / 10) as nat)).push(
                digit_char((n % 10) as nat),
            ));
        }
    }
}

/// The decimal digit character for `d < 10`.
pub fn char_from_digit(d: u32) -> (c: char)
    requires
        d < 10,
    ensures
        c == digit_char(d as nat),
{
    match d {
        0 => '0',
        1 => '1',
        2 => '2',
        3 => '3',
        4 => '4',
        5 => '5',
        6 => '6',
        7 => '7',
        8 => '8',
        _ => '9',
    }
}

/// Appends the decimal rendering of a signed `n` to `out`.
pub fn push_signed_decimal(out: &mut String, n: i64)
    ensures
        final(out)@ == old(out)@ + signed_decimal(n as int),
{
    if n < 0 {
        push_char(out, '-');
        let m: u64 = (0i128 - (n as i128)) as u64;
        push_decimal(out, m);
        assert(final(out)@ =~= old(out)@ + signed_decimal(n as int));
    } else {
        push_decimal(out, n as u64);
    }
}

// ---------------------------------------------------------------------------
// File names
// ---------------------------------------------------------------------------

/// The file-name form of a set name: each character that is alphanumeric,
/// `-` or `_` is kept, and every other character becomes `_`. Of ASCII
/// characters exactly the letters, digits, `-` and `_` are kept, so the
/// result holds no path separator, colon or dot.
pub fn sanitize_name(name: &str) -> (r: String)
    ensures
        r@ == sanitized(name@),
        forall|i: int|
            0 <= i < name@.len() && (name@[i] as u32) < 128 ==> #[trigger] r@[i] == if ascii_name_char(
                name@[i],
            ) {
                name@[i]
            } else {
                '_'
            },
        forall|i: int|
            0 <= i < r@.len() ==> #[trigger] r@[i] != '/' && r@[i] != '\\' && r@[i] != ':' && r@[i]
                != '.',
{
    let cs = chars_of(name);
    let mut out = String::new();
    let mut i: usize = 0;
    while i < cs.len()
        invariant
            cs@ == name@,
            i <= cs@.len(),
            out@ == sanitized(name@).take(i as int),
            forall|j: int|
                0 <= j < i && (name@[j] as u32) < 128 ==> (char_is_alphanumeric(#[trigger] name@[j])
                    <==> (('a' <= name@[j] && name@[j] <= 'z') || ('A' <= name@[j] && name@[j]
                    <= 'Z') || ('0' <= name@[j] && name@[j] <= '9'))),
        decreases cs.len() - i,
    {
        let c = cs[i];
        let keep = is_alphanumeric(c) || c == '-' || c == '_';
        if keep {
            push_char(&mut out, c);
        } else {
            push_char(&mut out, '_');
        }
        assert(sanitized(name@).take(i + 1) =~= sanitized(name@).take(i as int).push(
            sanitized_char(name@[i as int]),
        ));
        i = i + 1;
    }
    assert(sanitized(name@).take(cs@.len() as int) =~= sanitized(name@));
    proof {
        assert forall|i: int| 0 <= i < out@.len() implies #[trigger] out@[i] != '/' && out@[i]
            != '\\' && out@[i] != ':' && out@[i] != '.' by {
            assert(out@[i] == sanitized_char(name@[i]));
            if (name@[i] as u32) >= 128 {
                assert(('/' as u32) < 128 && ('\\' as u32) < 128 && (':' as u32) < 128 && ('.' as u32) < 128);
            }
        }
    }
    out
}

/// Sanitising twice gives what sanitising once gives.
pub proof fn sanitize_is_idempotent(s: Seq<char>)
    ensures
        sanitized(sanitized(s)) == sanitized(s),
{
    assert(sanitized(sanitized(s)) =~= sanitized(s));
}

/// A sanitised name has as many characters as the name, and each of them is
/// alphanumeric, `-` or `_` (which ASCII characters those are, `sanitize_name`
/// states).
pub proof fn sanitized_is_safe(s: Seq<char>)
    ensures
        sanitized(s).len() == s.len(),
        forall|i: int| 0 <= i < s.len() ==> is_name_safe(#[trigger] sanitized(s)[i]),
{
}

// ---------------------------------------------------------------------------
// Laws of trimming
// ---------------------------------------------------------------------------

proof fn lemma_trim_start_shape(s: Seq<char>)
    ensures
        exists|k: int| 0 <= k <= s.len() && trim_start(s) == #[trigger] s.skip(k),
        trim_start(s).len() > 0 ==> !is_white(trim_start(s)[0]),
    decreases s.len(),
{
    if s.len() > 0 && is_white(s[0]) {
        lemma_trim_start_shape(s.drop_first());
        let k = choose|k: int|
            0 <= k <= s.drop_first().len() && trim_start(s.drop_first()) == #[trigger] s.drop_first().skip(k);
        assert(s.drop_first().skip(k) =~= s.skip(k + 1));
    } else {
        assert(s.skip(0) =~= s);
    }
}

proof fn lemma_trim_end_shape(s: Seq<char>)
    ensures
        exists|k: int| 0 <= k <= s.len() && trim_end(s) == #[trigger] s.take(k),
        trim_end(s).len() > 0 ==> !is_white(trim_end(s).last()),
    decreases s.len(),
{
    if s.len() > 0 && is_white(s.last()) {
        lemma_trim_end_shape(s.drop_last());
        let k = choose|k: int|
            0 <= k <= s.drop_last().len() && trim_end(s.drop_last()) == #[trigger] s.drop_last().take(k);
        assert(s.drop_last().take(k) =~= s.take(k));
    } else {
        assert(s.take(s.len() as int) =~= s);
    }
}

/// A trimmed text starts and ends with a character that is not whitespace.
pub proof fn trim_has_no_white_ends(s: Seq<char>)
    ensures
        trim(s).len() > 0 ==> !is_white(trim(s)[0]) && !is_white(trim(s).last()),
{
    let x = trim_start(s);
    lemma_trim_start_shape(s);
    lemma_trim_end_shape(x);
    if trim(s).len() > 0 {
        let k = choose|k: int| 0 <= k <= x.len() && trim_end(x) == #[trigger] x.take(k);
        assert(trim(s)[0] == x[0]);
    }
}

/// Trimming twice gives what trimming once gives.
pub proof fn trim_is_idempotent(s: Seq<char>)
    ensures
        trim(trim(s)) == trim(s),
{
    let t = trim(s);
    trim_has_no_white_ends(s);
    if t.len() > 0 {
        assert(trim_start(t) == t);
        assert(trim_end(t) == t);
    } else {
        assert(trim_start(t) == t);
        assert(trim_end(t) == t);
    }
}

/// Removing the leading copies of a character leaves a text that does not
/// start with it, and doing it again changes nothing.
pub proof fn strip_prefix_char_is_idempotent(s: Seq<char>, c: char)
    ensures
        strip_all_prefix_char(s, c).len() > 0 ==> strip_all_prefix_char(s, c)[0] != c,
        strip_all_prefix_char(strip_all_prefix_char(s, c), c) == strip_all_prefix_char(s, c),
    decreases s.len(),
{
    if s.len() > 0 && s[0] == c {
        strip_prefix_char_is_idempotent(s.drop_first(), c);
    }
}

/// The decimal rendering of a number is made of digits only and is never
/// empty.
pub proof fn decimal_is_digits(n: nat)
    ensures
        decimal(n).len() > 0,
        forall|i: int| 0 <= i < decimal(n).len() ==> '0' <= #[trigger] decimal(n)[i] <= '9',
    decreases n,
{
    if n >= 10 {
        decimal_is_digits(n / 10);
    }
}

} // verus!
