//! Character-sequence utilities: digit runs, decimal values, padding,
//! truncation, and the two conversions between `str` and `Vec<char>`.

use vstd::prelude::*;

verus! {

/// Relies on `str::chars` of std: the characters of a string slice,
/// in order, are exactly its view.
#[verifier::external_body]
pub fn str_chars(s: &str) -> (v: Vec<char>)
    ensures
        v@ == s@,
{
    s.chars().collect()
}

/// Relies on `String::from_iter` of std: collecting characters yields
/// the string of exactly those characters, in order.
#[verifier::external_body]
pub fn chars_to_string(v: &Vec<char>) -> (s: String)
    ensures
        s@ == v@,
{
    v.iter().collect()
}

pub open spec fn is_digit(c: char) -> bool {
    '0' as int <= c as int && c as int <= '9' as int
}

pub open spec fn digit_val(c: char) -> int {
    c as int - '0' as int
}

/// Decimal value of a digit string, most significant digit first.
pub open spec fn digits_val(s: Seq<char>) -> int
    decreases s.len(),
{
    if s.len() == 0 {
        0
    } else {
        digits_val(s.drop_last()) * 10 + digit_val(s.last())
    }
}

pub proof fn lemma_digits_val_nonneg(s: Seq<char>)
    requires
        forall|i: int| 0 <= i < s.len() ==> is_digit(#[trigger] s[i]),
    ensures
        digits_val(s) >= 0,
    decreases s.len(),
{
    if s.len() > 0 {
        lemma_digits_val_nonneg(s.drop_last());
    }
}

/// End of the run of decimal digits that starts at `from`.
pub open spec fn digit_run_end(s: Seq<char>, from: int) -> int
    decreases s.len() - from,
{
    if 0 <= from && from < s.len() && is_digit(s[from]) {
        digit_run_end(s, from + 1)
    } else {
        from
    }
}

pub proof fn lemma_digit_run_end(s: Seq<char>, from: int)
    requires
        0 <= from <= s.len(),
    ensures
        from <= digit_run_end(s, from) <= s.len(),
        forall|i: int| from <= i < digit_run_end(s, from) ==> is_digit(#[trigger] s[i]),
        digit_run_end(s, from) < s.len() ==> !is_digit(s[digit_run_end(s, from)]),
    decreases s.len() - from,
{
    if from < s.len() && is_digit(s[from]) {
        lemma_digit_run_end(s, from + 1);
    }
}

/// Whitespace, as the grammar knows it.
pub open spec fn is_ws(c: char) -> bool {
    c == ' ' || c == '\t' || c == '\r' || c == '\n'
}

/// End of the run of whitespace that starts at `from`.
pub open spec fn ws_run_end(s: Seq<char>, from: int) -> int
    decreases s.len() - from,
{
    if 0 <= from && from < s.len() && is_ws(s[from]) {
        ws_run_end(s, from + 1)
    } else {
        from
    }
}

pub proof fn lemma_ws_run_end(s: Seq<char>, from: int)
    requires
        0 <= from <= s.len(),
    ensures
        from <= ws_run_end(s, from) <= s.len(),
    decreases s.len() - from,
{
    if from < s.len() && is_ws(s[from]) {
        lemma_ws_run_end(s, from + 1);
    }
}

pub fn exec_is_digit(c: char) -> (r: bool)
    ensures
        r == is_digit(c),
{
    '0' <= c && c <= '9'
}

pub fn exec_is_ws(c: char) -> (r: bool)
    ensures
        r == is_ws(c),
{
    c == ' ' || c == '\t' || c == '\r' || c == '\n'
}

/// Walks to the end of the digit run that starts at `from`.
pub fn scan_digit_run(v: &Vec<char>, from: usize) -> (e: usize)
    requires
        from <= v@.len(),
    ensures
        e as int == digit_run_end(v@, from as int),
        from <= e <= v@.len(),
{
    let mut i: usize = from;
    while i < v.len() && exec_is_digit(v[i])
        invariant
            from <= i <= v@.len(),
            digit_run_end(v@, i as int) == digit_run_end(v@, from as int),
        decreases v@.len() - i,
    {
        assert(digit_run_end(v@, i as int) == digit_run_end(v@, i + 1));
        i = i + 1;
    }
    proof {
        lemma_digit_run_end(v@, i as int);
    }
    i
}

/// Walks to the end of the whitespace run that starts at `from`.
pub fn scan_ws_run(v: &Vec<char>, from: usize) -> (e: usize)
    requires
        from <= v@.len(),
    ensures
        e as int == ws_run_end(v@, from as int),
        from <= e <= v@.len(),
{
    let mut i: usize = from;
    while i < v.len() && exec_is_ws(v[i])
        invariant
            from <= i <= v@.len(),
            ws_run_end(v@, i as int) == ws_run_end(v@, from as int),
        decreases v@.len() - i,
    {
        assert(ws_run_end(v@, i as int) == ws_run_end(v@, i + 1));
        i = i + 1;
    }
    proof {
        lemma_ws_run_end(v@, i as int);
    }
    i
}

/// Reads the digit run at `from`; the value is `None` when it does not
/// fit an unsigned 32-bit integer.
pub fn scan_u32(v: &Vec<char>, from: usize) -> (r: (usize, Option<u32>))
    requires
        from <= v@.len(),
    ensures
        r.0 as int == digit_run_end(v@, from as int),
        from <= r.0 <= v@.len(),
        r.1 matches Some(x) ==> x as int == digits_val(v@.subrange(from as int, r.0 as int)),
        (r.1 is Some) == (digits_val(v@.subrange(from as int, r.0 as int)) <= u32::MAX as int),
    decreases v@.len() - from,
{
    proof {
        lemma_digit_run_end(v@, from as int);
    }
    let ghost s = v@;
    let end: usize = scan_digit_run(v, from);
    let mut i: usize = from;
    let mut acc: u64 = 0;
    let mut over: bool = false;
    while i < end
        invariant
            from <= i <= end <= s.len(),
            s == v@,
            end as int == digit_run_end(s, from as int),
            forall|j: int| from <= j < end ==> is_digit(#[trigger] s[j]),
            over == (digits_val(s.subrange(from as int, i as int)) > u32::MAX as int),
            !over ==> acc as int == digits_val(s.subrange(from as int, i as int)),
            !over ==> acc <= u32::MAX as u64,
        decreases end - i,
    {
        let ghost pre = s.subrange(from as int, i as int);
        let ghost post = s.subrange(from as int, i + 1);
        assert(post.drop_last() =~= pre);
        assert(post.last() == s[i as int]);
        let d: u32 = (v[i] as u32) - ('0' as u32);
        proof {
            lemma_digits_val_nonneg(pre);
        }
        if !over {
            let next: u64 = acc * 10 + (d as u64);
            if next > u32::MAX as u64 {
                over = true;
            } else {
                acc = next;
            }
        } else {
            assert(digits_val(post) == digits_val(pre) * 10 + digit_val(s[i as int]));
            assert(digits_val(pre) > u32::MAX as int);
            assert(digits_val(post) > u32::MAX as int);
        }
        i = i + 1;
    }
    assert(s.subrange(from as int, end as int) == s.subrange(from as int, i as int));
    if over {
        (end, None)
    } else {
        (end, Some(acc as u32))
    }
}

/// The characters of `v` from `a` (incl.) to `b` (excl.).
pub fn sub_chars(v: &Vec<char>, a: usize, b: usize) -> (r: Vec<char>)
    requires
        a <= b <= v@.len(),
    ensures
        r@ == v@.subrange(a as int, b as int),
{
    let mut r: Vec<char> = Vec::new();
    let mut i: usize = a;
    while i < b
        invariant
            a <= i <= b <= v@.len(),
            r@ == v@.subrange(a as int, i as int),
        decreases b - i,
    {
        r.push(v[i]);
        assert(r@ =~= v@.subrange(a as int, i + 1));
        i = i + 1;
    }
    r
}

/// `n` spaces.
pub open spec fn spec_spaces(n: int) -> Seq<char> {
    Seq::new(n as nat, |i: int| ' ')
}

pub fn spaces(n: usize) -> (r: Vec<char>)
    ensures
        r@ == spec_spaces(n as int),
{
    let mut r: Vec<char> = Vec::new();
    let mut i: usize = 0;
    while i < n
        invariant
            i <= n,
            r@ =~= spec_spaces(i as int),
        decreases n - i,
    {
        r.push(' ');
        assert(r@ =~= spec_spaces(i + 1));
        i = i + 1;
    }
    r
}

/// At most the first `w` characters of `s`.
pub open spec fn spec_truncate(s: Seq<char>, w: int) -> Seq<char> {
    if s.len() <= w {
        s
    } else {
        s.subrange(0, w)
    }
}

/// `s` right-aligned in a field of width `w`; never truncates.
pub open spec fn spec_pad_left(s: Seq<char>, w: int) -> Seq<char> {
    if s.len() >= w {
        s
    } else {
        spec_spaces(w - s.len()) + s
    }
}

/// `s` left-aligned in a field of width `w`; never truncates.
pub open spec fn spec_pad_right(s: Seq<char>, w: int) -> Seq<char> {
    if s.len() >= w {
        s
    } else {
        s + spec_spaces(w - s.len())
    }
}

pub fn truncate_chars(v: &Vec<char>, w: usize) -> (r: Vec<char>)
    ensures
        r@ == spec_truncate(v@, w as int),
{
    if v.len() <= w {
        sub_chars(v, 0, v.len())
    } else {
        sub_chars(v, 0, w)
    }
}

pub fn pad_left_chars(v: &Vec<char>, w: usize) -> (r: Vec<char>)
    ensures
        r@ == spec_pad_left(v@, w as int),
        r@.len() >= w,
        r@.len() >= v@.len(),
{
    if v.len() >= w {
        sub_chars(v, 0, v.len())
    } else {
        let mut r = spaces(w - v.len());
        let mut i: usize = 0;
        while i < v.len()
            invariant
                i <= v@.len(),
                r@ =~= spec_spaces(w - v@.len()) + v@.subrange(0, i as int),
            decreases v@.len() - i,
        {
            r.push(v[i]);
            assert(r@ =~= spec_spaces(w - v@.len()) + v@.subrange(0, i + 1));
            i = i + 1;
        }
        assert(v@.subrange(0, v@.len() as int) =~= v@);
        r
    }
}

pub fn pad_right_chars(v: &Vec<char>, w: usize) -> (r: Vec<char>)
    ensures
        r@ == spec_pad_right(v@, w as int),
        r@.len() >= w,
        r@.len() >= v@.len(),
{
    let mut r = sub_chars(v, 0, v.len());
    assert(r@ =~= v@);
    if v.len() < w {
        let mut i: usize = v.len();
        while i < w
            invariant
                v@.len() <= i <= w,
                r@ =~= v@ + spec_spaces(i - v@.len()),
            decreases w - i,
        {
            r.push(' ');
            assert(r@ =~= v@ + spec_spaces(i + 1 - v@.len()));
            i = i + 1;
        }
    }
    r
}

/// The digit character of a value below ten.
pub open spec fn spec_digit_char(d: int) -> char {
    if d == 0 {
        '0'
    } else if d == 1 {
        '1'
    } else if d == 2 {
        '2'
    } else if d == 3 {
        '3'
    } else if d == 4 {
        '4'
    } else if d == 5 {
        '5'
    } else if d == 6 {
        '6'
    } else if d == 7 {
        '7'
    } else if d == 8 {
        '8'
    } else {
        '9'
    }
}

pub fn digit_char(d: u32) -> (c: char)
    requires
        d < 10,
    ensures
        c == spec_digit_char(d as int),
{
    if d == 0 {
        '0'
    } else if d == 1 {
        '1'
    } else if d == 2 {
        '2'
    } else if d == 3 {
        '3'
    } else if d == 4 {
        '4'
    } else if d == 5 {
        '5'
    } else if d == 6 {
        '6'
    } else if d == 7 {
        '7'
    } else if d == 8 {
        '8'
    } else {
        '9'
    }
}

/// Two-digit, zero-padded decimal form of a value below one hundred.
pub open spec fn spec_two_digits(n: int) -> Seq<char> {
    seq![spec_digit_char(n / 10), spec_digit_char(n % 10)]
}

pub fn push_two_digits(dst: &mut Vec<char>, n: u32)
    requires
        n < 100,
    ensures
        final(dst)@ == old(dst)@ + spec_two_digits(n as int),
{
    dst.push(digit_char(n / 10));
    dst.push(digit_char(n % 10));
    assert(dst@ =~= old(dst)@ + spec_two_digits(n as int));
}

/// Decimal form of an unsigned value, no leading zeros (except "0").
pub open spec fn spec_u32_dec(n: int) -> Seq<char>
    decreases n,
{
    if n < 10 {
        seq![spec_digit_char(n)]
    } else {
        spec_u32_dec(n / 10) + seq![spec_digit_char(n % 10)]
    }
}

pub fn u32_dec_chars(n: u32) -> (r: Vec<char>)
    ensures
        r@ == spec_u32_dec(n as int),
    decreases n,
{
    if n < 10 {
        let mut r: Vec<char> = Vec::new();
        r.push(digit_char(n));
        assert(r@ =~= seq![spec_digit_char(n as int)]);
        r
    } else {
        let mut r = u32_dec_chars(n / 10);
        r.push(digit_char(n % 10));
        assert(r@ =~= spec_u32_dec(n as int / 10) + seq![spec_digit_char(n as int % 10)]);
        r
    }
}

/// Appends all of `src` to `dst`.
pub fn push_all(dst: &mut Vec<char>, src: &Vec<char>)
    ensures
        final(dst)@ == old(dst)@ + src@,
{
    let mut i: usize = 0;
    while i < src.len()
        invariant
            i <= src@.len(),
            dst@ =~= old(dst)@ + src@.subrange(0, i as int),
        decreases src@.len() - i,
    {
        dst.push(src[i]);
        assert(dst@ =~= old(dst)@ + src@.subrange(0, i + 1));
        i = i + 1;
    }
    assert(dst@ =~= old(dst)@ + src@);
}

/// True exactly when `v` holds the characters of `w`.
pub fn chars_match_str(v: &Vec<char>, w: &str) -> (r: bool)
    ensures
        r == (v@ == w@),
{
    let wv = str_chars(w);
    chars_equal(v, &wv)
}

/// True exactly when the two character vectors hold the same characters.
pub fn chars_equal(a: &Vec<char>, b: &Vec<char>) -> (r: bool)
    ensures
        r == (a@ == b@),
{
    if a.len() != b.len() {
        assert(a@ !~= b@);
        return false;
    }
    let mut i: usize = 0;
    while i < a.len()
        invariant
            i <= a@.len(),
            a@.len() == b@.len(),
            forall|j: int| 0 <= j < i ==> a@[j] == b@[j],
        decreases a@.len() - i,
    {
        if a[i] != b[i] {
            assert(a@ !~= b@);
            return false;
        }
        i = i + 1;
    }
    assert(a@ =~= b@);
    true
}

} // verus!
