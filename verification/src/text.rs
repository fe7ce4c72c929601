//! Character-level primitives: classification, case folding, trimming,
//! decimal parsing and formatting, and conversions between `String` and
//! `Vec<char>`.
//!
//! The engine scans XML text as a sequence of characters; everything here is
//! specified over `Seq<char>`.

use vstd::prelude::*;
use vstd::string::StrSliceExecFns;

verus! {

/// Whitespace as the scanner understands it: space, tab, line feed,
/// carriage return.
pub open spec fn is_space_char(c: char) -> bool {
    c == ' ' || c == '\t' || c == '\n' || c == '\r'
}

/// Decimal digit.
pub open spec fn is_digit_char(c: char) -> bool {
    48 <= c as u32 <= 57
}

/// Upper-case letter of the scanner's alphabet: A-Z and the upper-case
/// German umlauts.
pub open spec fn is_upper_char(c: char) -> bool {
    (65 <= c as u32 <= 90) || c as u32 == 196 || c as u32 == 214 || c as u32 == 220
}

/// Case folding for case-insensitive comparison: A-Z fold to a-z and the
/// upper-case German umlauts fold to their lower-case forms; every other
/// character is left alone.
pub open spec fn fold_code(c: char) -> u32 {
    let u = c as u32;
    if 65 <= u <= 90 {
        (u + 32) as u32
    } else if u == 196 {
        228
    } else if u == 214 {
        246
    } else if u == 220 {
        252
    } else {
        u
    }
}

/// Two character sequences are equal up to case folding.
pub open spec fn eq_fold(a: Seq<char>, b: Seq<char>) -> bool {
    a.len() == b.len() && forall|i: int| 0 <= i < a.len() ==> fold_code(a[i]) == fold_code(b[i])
}

/// The sequence with leading whitespace removed.
pub open spec fn trim_front(s: Seq<char>) -> Seq<char>
    decreases s.len(),
{
    if s.len() > 0 && is_space_char(s[0]) {
        trim_front(s.drop_first())
    } else {
        s
    }
}

/// The sequence with trailing whitespace removed.
pub open spec fn trim_back(s: Seq<char>) -> Seq<char>
    decreases s.len(),
{
    if s.len() > 0 && is_space_char(s[s.len() - 1]) {
        trim_back(s.drop_last())
    } else {
        s
    }
}

/// The sequence with leading and trailing whitespace removed.
pub open spec fn trim(s: Seq<char>) -> Seq<char> {
    trim_back(trim_front(s))
}

proof fn lemma_trim_front_steps(s: Seq<char>, k: int)
    requires
        0 <= k <= s.len(),
        forall|i: int| 0 <= i < k ==> is_space_char(s[i]),
        k < s.len() ==> !is_space_char(s[k]),
    ensures
        trim_front(s) =~= s.subrange(k, s.len() as int),
    decreases k,
{
    if k == 0 {
        if s.len() > 0 && is_space_char(s[0]) {
            assert(false);
        }
        assert(trim_front(s) =~= s.subrange(0, s.len() as int));
    } else {
        assert(is_space_char(s[0]));
        let t = s.drop_first();
        assert(forall|i: int| 0 <= i < k - 1 ==> is_space_char(t[i]));
        lemma_trim_front_steps(t, k - 1);
        assert(t.subrange(k - 1, t.len() as int) =~= s.subrange(k, s.len() as int));
    }
}

proof fn lemma_trim_back_steps(s: Seq<char>, k: int)
    requires
        0 <= k <= s.len(),
        forall|i: int| k <= i < s.len() ==> is_space_char(s[i]),
        k > 0 ==> !is_space_char(s[k - 1]),
    ensures
        trim_back(s) =~= s.subrange(0, k),
    decreases s.len() - k,
{
    if k == s.len() {
        if s.len() > 0 && is_space_char(s[s.len() - 1]) {
            assert(false);
        }
        assert(trim_back(s) =~= s.subrange(0, k));
    } else {
        assert(is_space_char(s[s.len() - 1]));
        let t = s.drop_last();
        assert(forall|i: int| k <= i < t.len() ==> is_space_char(t[i]));
        lemma_trim_back_steps(t, k);
    }
}

/// Exec check for whitespace.
pub fn is_space(c: char) -> (r: bool)
    ensures
        r == is_space_char(c),
{
    c == ' ' || c == '\t' || c == '\n' || c == '\r'
}

/// Exec check for a decimal digit.
pub fn is_digit(c: char) -> (r: bool)
    ensures
        r == is_digit_char(c),
{
    let u = c as u32;
    48 <= u && u <= 57
}

/// Exec check for an upper-case letter (A-Z or upper-case umlaut).
pub fn is_upper(c: char) -> (r: bool)
    ensures
        r == is_upper_char(c),
{
    let u = c as u32;
    (65 <= u && u <= 90) || u == 196 || u == 214 || u == 220
}

/// Exec case folding.
pub fn fold_char(c: char) -> (r: u32)
    ensures
        r == fold_code(c),
{
    let u = c as u32;
    if 65 <= u && u <= 90 {
        u + 32
    } else if u == 196 {
        228
    } else if u == 214 {
        246
    } else if u == 220 {
        252
    } else {
        u
    }
}

/// Exec comparison up to case folding.
pub fn eq_fold_exec(a: &Vec<char>, b: &Vec<char>) -> (r: bool)
    ensures
        r == eq_fold(a@, b@),
{
    if a.len() != b.len() {
        return false;
    }
    let mut i: usize = 0;
    while i < a.len()
        invariant
            i <= a.len(),
            a@.len() == b@.len(),
            forall|j: int| 0 <= j < i ==> fold_code(a@[j]) == fold_code(b@[j]),
        decreases a.len() - i,
    {
        if fold_char(a[i]) != fold_char(b[i]) {
            return false;
        }
        i = i + 1;
    }
    true
}

/// Exec exact equality of two character vectors.
pub fn chars_eq(a: &Vec<char>, b: &Vec<char>) -> (r: bool)
    ensures
        r == (a@ == b@),
{
    if a.len() != b.len() {
        proof {
            assert(a@.len() != b@.len());
        }
        return false;
    }
    let mut i: usize = 0;
    while i < a.len()
        invariant
            i <= a@.len(),
            a@.len() == b@.len(),
            forall|j: int| 0 <= j < i ==> a@[j] == b@[j],
        decreases a.len() - i,
    {
        if a[i] != b[i] {
            return false;
        }
        i = i + 1;
    }
    proof {
        assert(a@ =~= b@);
    }
    true
}

/// Exec: is the vector a digit string of one to nine digits?
pub fn is_numeric_vec(v: &Vec<char>) -> (r: bool)
    ensures
        r == (1 <= v@.len() <= 9 && all_digits(v@)),
{
    let n = v.len();
    if n < 1 || n > 9 {
        return false;
    }
    let mut i: usize = 0;
    while i < n
        invariant
            i <= n,
            n == v@.len(),
            forall|j: int| 0 <= j < i ==> is_digit_char(v@[j]),
        decreases n - i,
    {
        if !is_digit(v[i]) {
            return false;
        }
        i = i + 1;
    }
    true
}

/// Copy of the subrange `[from, to)` of a character vector.
pub fn subvec(v: &Vec<char>, from: usize, to: usize) -> (r: Vec<char>)
    requires
        from <= to <= v@.len(),
    ensures
        r@ == v@.subrange(from as int, to as int),
{
    let mut r: Vec<char> = Vec::new();
    let mut i: usize = from;
    while i < to
        invariant
            from <= i <= to <= v@.len(),
            r@ =~= v@.subrange(from as int, i as int),
        decreases to - i,
    {
        r.push(v[i]);
        assert(r@ =~= v@.subrange(from as int, i + 1));
        i = i + 1;
    }
    r
}

/// Trimmed copy of a character vector.
pub fn trim_exec(v: &Vec<char>) -> (r: Vec<char>)
    ensures
        r@ == trim(v@),
{
    let n = v.len();
    let mut a: usize = 0;
    while a < n && is_space(v[a])
        invariant
            a <= n,
            n == v@.len(),
            forall|i: int| 0 <= i < a ==> is_space_char(v@[i]),
        decreases n - a,
    {
        a = a + 1;
    }
    proof {
        lemma_trim_front_steps(v@, a as int);
    }
    if a == n {
        // everything is whitespace
        assert(trim_front(v@) =~= Seq::<char>::empty());
        assert(trim(v@) =~= Seq::<char>::empty());
        let r: Vec<char> = Vec::new();
        return r;
    }
    let ghost f = trim_front(v@);
    assert(f =~= v@.subrange(a as int, n as int));
    let mut b: usize = n;
    while b > a && is_space(v[b - 1])
        invariant
            a <= b <= n,
            n == v@.len(),
            a < n,
            forall|i: int| b <= i < n ==> is_space_char(v@[i]),
        decreases b,
    {
        b = b - 1;
    }
    // v[a] is not whitespace, so b > a and v[b - 1] is not whitespace
    assert(b > a);
    proof {
        assert(forall|i: int| b - a <= i < f.len() ==> is_space_char(f[i]));
        assert(!is_space_char(f[b - a - 1]));
        lemma_trim_back_steps(f, b - a);
        assert(trim(v@) =~= v@.subrange(a as int, b as int));
    }
    subvec(v, a, b)
}

/// Powers of ten, for digit-string bounds.
pub open spec fn pow10(n: nat) -> nat
    decreases n,
{
    if n == 0 {
        1
    } else {
        10 * pow10((n - 1) as nat)
    }
}

/// Numeric value of a digit string.
pub open spec fn digits_val(s: Seq<char>) -> nat
    decreases s.len(),
{
    if s.len() == 0 {
        0
    } else {
        (digits_val(s.drop_last()) * 10 + (s[s.len() - 1] as u32 - 48)) as nat
    }
}

/// Every character is a digit.
pub open spec fn all_digits(s: Seq<char>) -> bool {
    forall|i: int| 0 <= i < s.len() ==> is_digit_char(s[i])
}

pub proof fn lemma_digits_val_bound(s: Seq<char>)
    requires
        all_digits(s),
    ensures
        digits_val(s) < pow10(s.len()),
    decreases s.len(),
{
    if s.len() > 0 {
        let t = s.drop_last();
        assert(all_digits(t));
        lemma_digits_val_bound(t);
        assert(is_digit_char(s[s.len() - 1]));
    }
}

/// A digit string of at most nine digits, parsed as a `u32`.
///
/// Nine digits always fit: the value is below 10^9.
pub fn parse_digits(v: &Vec<char>) -> (r: u32)
    requires
        all_digits(v@),
        1 <= v@.len() <= 9,
    ensures
        r == digits_val(v@),
{
    proof {
        lemma_digits_val_bound(v@);
        lemma_pow10_nine();
        lemma_pow10_mono(v@.len() as nat, 9);
    }
    let mut acc: u32 = 0;
    let mut i: usize = 0;
    while i < v.len()
        invariant
            i <= v@.len() <= 9,
            all_digits(v@),
            acc == digits_val(v@.subrange(0, i as int)),
            acc < pow10(i as nat),
            pow10(v@.len() as nat) <= 1000000000,
        decreases v.len() - i,
    {
        proof {
            lemma_digits_val_bound(v@.subrange(0, i as int));
            lemma_pow10_mono(i as nat, v@.len() as nat);
            assert(pow10(i as nat) <= 1000000000);
            assert(pow10((i + 1) as nat) == 10 * pow10(i as nat));
            lemma_pow10_mono((i + 1) as nat, v@.len() as nat);
        }
        let d = v[i] as u32;
        assert(is_digit_char(v@[i as int]));
        acc = acc * 10 + (d - 48);
        proof {
            let p = v@.subrange(0, (i + 1) as int);
            assert(p.drop_last() =~= v@.subrange(0, i as int));
            assert(acc == digits_val(p));
        }
        i = i + 1;
    }
    assert(v@.subrange(0, v@.len() as int) =~= v@);
    acc
}

pub proof fn lemma_pow10_nine()
    ensures
        pow10(9) == 1000000000,
{
    assert(pow10(0) == 1);
    assert(pow10(1) == 10);
    assert(pow10(2) == 100);
    assert(pow10(3) == 1000);
    assert(pow10(4) == 10000);
    assert(pow10(5) == 100000);
    assert(pow10(6) == 1000000);
    assert(pow10(7) == 10000000);
    assert(pow10(8) == 100000000);
    assert(pow10(9) == 1000000000);
}

pub proof fn lemma_pow10_mono(a: nat, b: nat)
    requires
        a <= b,
    ensures
        pow10(a) <= pow10(b),
    decreases b,
{
    if a < b {
        lemma_pow10_mono(a, (b - 1) as nat);
        assert(pow10(b) == 10 * pow10((b - 1) as nat));
    }
}

/// The digit character for `n % 10`.
pub open spec fn digit_char(n: u32) -> char {
    ((48 + (n % 10)) as u8) as char
}

/// Decimal representation of a `u32`, most significant digit first.
pub open spec fn spec_dec(n: u32) -> Seq<char>
    decreases n,
{
    if n < 10 {
        seq![digit_char(n)]
    } else {
        spec_dec(n / 10).push(digit_char(n))
    }
}

/// Appends the decimal representation of `n` to `out`.
pub fn dec_append(n: u32, out: &mut Vec<char>)
    ensures
        final(out)@ == old(out)@ + spec_dec(n),
    decreases n,
{
    if n >= 10 {
        dec_append(n / 10, out);
    }
    let d = 48 + (n % 10);
    assert(d < 128);
    out.push((d as u8) as char);
    assert(out@ =~= old(out)@ + spec_dec(n));
}

/// Decimal representation of a `u64`, most significant digit first.
pub open spec fn spec_dec64(n: u64) -> Seq<char>
    decreases n,
{
    if n < 10 {
        seq![digit_char(n as u32)]
    } else {
        spec_dec64(n / 10).push(digit_char((n % 10) as u32))
    }
}

/// Appends the decimal representation of a `u64` to `out`.
pub fn dec64_append(n: u64, out: &mut Vec<char>)
    ensures
        final(out)@ == old(out)@ + spec_dec64(n),
    decreases n,
{
    if n >= 10 {
        dec64_append(n / 10, out);
    }
    let d = 48 + (n % 10);
    assert(d < 128);
    out.push((d as u8) as char);
    assert(out@ =~= old(out)@ + spec_dec64(n));
}

/// Appends a copy of `s` to `out`.
pub fn append_chars(out: &mut Vec<char>, s: &Vec<char>)
    ensures
        final(out)@ == old(out)@ + s@,
{
    let mut i: usize = 0;
    while i < s.len()
        invariant
            i <= s@.len(),
            out@ =~= old(out)@ + s@.subrange(0, i as int),
        decreases s.len() - i,
    {
        out.push(s[i]);
        assert(out@ =~= old(out)@ + s@.subrange(0, i + 1));
        i = i + 1;
    }
    assert(out@ =~= old(out)@ + s@);
}

/// Appends the characters of a string literal to `out`.
pub fn append_str(out: &mut Vec<char>, s: &str)
    ensures
        final(out)@ == old(out)@ + s@,
{
    let v = str_to_chars(s);
    append_chars(out, &v);
}

/// Relies on `String::push`: appends one character to the string.
#[verifier::external_body]
pub fn push_char(s: &mut String, c: char)
    ensures
        final(s)@ == old(s)@.push(c),
{
    s.push(c)
}

/// The characters of a string slice, as a vector.
pub fn str_to_chars(s: &str) -> (r: Vec<char>)
    ensures
        r@ == s@,
{
    let n = s.unicode_len();
    let mut r: Vec<char> = Vec::new();
    let mut i: usize = 0;
    while i < n
        invariant
            i <= n,
            n == s@.len(),
            r@ =~= s@.subrange(0, i as int),
        decreases n - i,
    {
        r.push(s.get_char(i));
        assert(r@ =~= s@.subrange(0, i + 1));
        i = i + 1;
    }
    assert(r@ =~= s@);
    r
}

/// A vector of characters, as a `String`.
pub fn chars_to_string(v: &Vec<char>) -> (r: String)
    ensures
        r@ == v@,
{
    let mut r = String::new();
    let mut i: usize = 0;
    while i < v.len()
        invariant
            i <= v@.len(),
            r@ =~= v@.subrange(0, i as int),
        decreases v.len() - i,
    {
        push_char(&mut r, v[i]);
        assert(r@ =~= v@.subrange(0, i + 1));
        i = i + 1;
    }
    assert(r@ =~= v@);
    r
}

} // verus!
