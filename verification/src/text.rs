//! Character-sequence utilities on which the rest of the library is built.
//!
//! Text is modelled as `Seq<char>`. Executable code converts a `&str` to a
//! `Vec<char>` once, works on vectors, and converts back at the end.

use vstd::prelude::*;
use vstd::std_specs::iter::IteratorSpec;
use vstd::string::*;

verus! {

/// `String::push` of the standard library: appends exactly one character at
/// the end of the string and changes nothing before it.
pub assume_specification[ String::push ](s: &mut String, c: char)
    ensures
        final(s)@ == old(s)@.push(c),
;

/// The characters of a string slice, in order.
pub fn chars_of(s: &str) -> (v: Vec<char>)
    ensures
        v@ == s@,
{
    broadcast use vstd::string::group_string_axioms;

    let mut v: Vec<char> = Vec::new();
    let mut rest = s.chars();
    assert(v@ + rest.remaining() =~= s@);
    loop
        invariant
            v@ + rest.remaining() == s@,
            rest.decrease() is Some,
        decreases rest.decrease()->0,
    {
        match rest.next() {
            Some(c) => {
                v.push(c);
                assert(v@ + rest.remaining() =~= s@);
            },
            None => {
                assert(v@ =~= s@);
                return v;
            },
        }
    }
}

/// The string made of the given characters, in order.
pub fn string_of(v: &Vec<char>) -> (s: String)
    ensures
        s@ == v@,
{
    let mut s = String::new();
    let mut i: usize = 0;
    while i < v.len()
        invariant
            i <= v.len(),
            s@ == v@.subrange(0, i as int),
        decreases v.len() - i,
    {
        s.push(v[i]);
        i += 1;
        assert(s@ =~= v@.subrange(0, i as int));
    }
    assert(s@ =~= v@);
    s
}

/// Appends one text to a list of texts.
pub fn push_text(out: &mut Vec<String>, s: String)
    ensures
        final(out)@ == old(out)@.push(s),
        final(out).deep_view() == old(out).deep_view().push(s@),
{
    out.push(s);
    assert(out.deep_view() =~= old(out).deep_view().push(s@));
}

/// A copy of the characters of `v` from index `from` up to, not including, `to`.
pub fn slice(v: &Vec<char>, from: usize, to: usize) -> (r: Vec<char>)
    requires
        from <= to <= v.len(),
    ensures
        r@ == v@.subrange(from as int, to as int),
{
    let mut r: Vec<char> = Vec::new();
    let mut i: usize = from;
    while i < to
        invariant
            from <= i <= to <= v.len(),
            r@ == v@.subrange(from as int, i as int),
        decreases to - i,
    {
        r.push(v[i]);
        i += 1;
        assert(r@ =~= v@.subrange(from as int, i as int));
    }
    r
}

/// Appends the characters of `tail` to `out`.
pub fn append(out: &mut Vec<char>, tail: &Vec<char>)
    ensures
        final(out)@ == old(out)@ + tail@,
{
    let mut i: usize = 0;
    while i < tail.len()
        invariant
            i <= tail.len(),
            out@ == old(out)@ + tail@.subrange(0, i as int),
        decreases tail.len() - i,
    {
        out.push(tail[i]);
        i += 1;
        assert(out@ =~= old(out)@ + tail@.subrange(0, i as int));
    }
    assert(tail@.subrange(0, tail.len() as int) =~= tail@);
}

/// The concatenation of `a` and `b`.
pub fn concat(a: &Vec<char>, b: &Vec<char>) -> (r: Vec<char>)
    ensures
        r@ == a@ + b@,
{
    let mut r: Vec<char> = Vec::new();
    append(&mut r, a);
    append(&mut r, b);
    assert(r@ =~= a@ + b@);
    r
}

/// Whether two character vectors hold the same text.
pub fn same(a: &Vec<char>, b: &Vec<char>) -> (r: bool)
    ensures
        r == (a@ == b@),
{
    if a.len() != b.len() {
        return false;
    }
    let mut i: usize = 0;
    while i < a.len()
        invariant
            i <= a.len(),
            a.len() == b.len(),
            a@.subrange(0, i as int) == b@.subrange(0, i as int),
        decreases a.len() - i,
    {
        if a[i] != b[i] {
            return false;
        }
        i += 1;
        assert(a@.subrange(0, i as int) =~= a@.subrange(0, i - 1).push(a@[i - 1]));
        assert(b@.subrange(0, i as int) =~= b@.subrange(0, i - 1).push(b@[i - 1]));
    }
    assert(a@ =~= a@.subrange(0, a.len() as int));
    assert(b@ =~= b@.subrange(0, b.len() as int));
    true
}

/// Whether `v` holds exactly the text of `lit`.
pub fn is_text(v: &Vec<char>, lit: &str) -> (r: bool)
    ensures
        r == (v@ == lit@),
{
    let w = chars_of(lit);
    same(v, &w)
}

/// Index of the first occurrence of `c` in `s` at or after `start`, or the
/// length of `s` when there is none.
pub open spec fn find_from(s: Seq<char>, c: char, start: int) -> int
    decreases s.len() - start,
{
    if start < 0 || start >= s.len() {
        s.len() as int
    } else if s[start] == c {
        start
    } else {
        find_from(s, c, start + 1)
    }
}

/// Index of the first occurrence of `c` in `s`, or the length of `s` when
/// `c` does not occur.
pub open spec fn find(s: Seq<char>, c: char) -> int {
    find_from(s, c, 0)
}

/// `find_from` returns the least index at or after `start` that holds `c`.
pub proof fn lemma_find_from(s: Seq<char>, c: char, start: int)
    requires
        0 <= start <= s.len(),
    ensures
        start <= find_from(s, c, start) <= s.len(),
        find_from(s, c, start) < s.len() ==> s[find_from(s, c, start)] == c,
        forall|j: int| start <= j < find_from(s, c, start) ==> s[j] != c,
    decreases s.len() - start,
{
    if start < s.len() && s[start] != c {
        lemma_find_from(s, c, start + 1);
    }
}

/// `find` returns the least index that holds `c`, or the length.
pub proof fn lemma_find(s: Seq<char>, c: char)
    ensures
        0 <= find(s, c) <= s.len(),
        find(s, c) < s.len() ==> s[find(s, c)] == c,
        forall|j: int| 0 <= j < find(s, c) ==> s[j] != c,
        find(s, c) < s.len() <==> s.contains(c),
{
    lemma_find_from(s, c, 0);
    if s.contains(c) {
        let k = choose|k: int| 0 <= k < s.len() && s[k] == c;
        assert(find(s, c) <= k);
    }
}

/// Position of the first `c` in `v`, or `v.len()` when absent.
pub fn find_char(v: &Vec<char>, c: char) -> (i: usize)
    ensures
        i == find(v@, c),
        i <= v.len(),
        i < v.len() <==> v@.contains(c),
{
    let mut i: usize = 0;
    while i < v.len() && v[i] != c
        invariant
            i <= v.len(),
            find_from(v@, c, i as int) == find(v@, c),
        decreases v.len() - i,
    {
        i += 1;
    }
    proof {
        lemma_find(v@, c);
    }
    i
}

/// Whether `p` occurs in `s` starting exactly at index `i`.
pub open spec fn occurs_at(s: Seq<char>, p: Seq<char>, i: int) -> bool {
    0 <= i && i + p.len() <= s.len() && s.subrange(i, i + p.len()) == p
}

/// Whether `s` begins with `p`.
pub open spec fn starts_with(s: Seq<char>, p: Seq<char>) -> bool {
    occurs_at(s, p, 0)
}

/// Whether `p` occurs in `v` at index `i`.
pub fn matches_at(v: &Vec<char>, p: &Vec<char>, i: usize) -> (r: bool)
    ensures
        r == occurs_at(v@, p@, i as int),
{
    if p.len() > v.len() || i > v.len() - p.len() {
        return false;
    }
    let mut k: usize = 0;
    while k < p.len()
        invariant
            k <= p.len(),
            i + p.len() <= v.len(),
            v@.subrange(i as int, i + k) == p@.subrange(0, k as int),
        decreases p.len() - k,
    {
        if v[i + k] != p[k] {
            assert(v@.subrange(i as int, i + p.len())[k as int] != p@[k as int]);
            return false;
        }
        k += 1;
        assert(v@.subrange(i as int, i + k) =~= v@.subrange(i as int, i + k - 1).push(v@[i + k - 1]));
        assert(p@.subrange(0, k as int) =~= p@.subrange(0, k - 1).push(p@[k - 1]));
    }
    assert(p@ =~= p@.subrange(0, p.len() as int));
    true
}

/// Whether `v` begins with the text of `lit`.
pub fn begins_with(v: &Vec<char>, lit: &str) -> (r: bool)
    ensures
        r == starts_with(v@, lit@),
{
    let p = chars_of(lit);
    matches_at(v, &p, 0)
}

/// Whether `p` occurs in `s` at some index at or after `i`.
pub open spec fn contains_from(s: Seq<char>, p: Seq<char>, i: int) -> bool
    decreases s.len() - i,
{
    if i < 0 || i + p.len() > s.len() {
        false
    } else if occurs_at(s, p, i) {
        true
    } else if i >= s.len() {
        false
    } else {
        contains_from(s, p, i + 1)
    }
}

/// Whether `p` occurs somewhere in `s` as a contiguous run.
pub open spec fn contains_text(s: Seq<char>, p: Seq<char>) -> bool {
    contains_from(s, p, 0)
}

/// Whether the text of `lit` occurs somewhere in `v`.
pub fn has_text(v: &Vec<char>, lit: &str) -> (r: bool)
    ensures
        r == contains_text(v@, lit@),
{
    let p = chars_of(lit);
    if p.len() > v.len() {
        return false;
    }
    let last: usize = v.len() - p.len();
    let mut i: usize = 0;
    while i < last
        invariant
            i <= last,
            last + p.len() == v.len(),
            p@ == lit@,
            contains_from(v@, p@, i as int) == contains_text(v@, p@),
        decreases last - i,
    {
        if matches_at(v, &p, i) {
            return true;
        }
        i += 1;
    }
    assert(!contains_from(v@, p@, last + 1));
    matches_at(v, &p, last)
}

/// `s` from index `i` on, with every non-overlapping occurrence of `p`,
/// scanning left to right, replaced by `t`.
pub open spec fn replace_from(s: Seq<char>, p: Seq<char>, t: Seq<char>, i: int) -> Seq<char>
    decreases s.len() - i,
{
    if i < 0 || i >= s.len() {
        Seq::empty()
    } else if p.len() > 0 && occurs_at(s, p, i) {
        t + replace_from(s, p, t, i + p.len())
    } else {
        seq![s[i]] + replace_from(s, p, t, i + 1)
    }
}

/// `s` with every non-overlapping occurrence of the non-empty pattern `p`,
/// scanning left to right, replaced by `t`.
pub open spec fn replaced(s: Seq<char>, p: Seq<char>, t: Seq<char>) -> Seq<char> {
    replace_from(s, p, t, 0)
}

/// `v` with every occurrence of the text `pat` replaced by the text `to`.
pub fn replace_all(v: &Vec<char>, pat: &str, to: &str) -> (r: Vec<char>)
    ensures
        r@ == replaced(v@, pat@, to@),
{
    let p = chars_of(pat);
    let t = chars_of(to);
    let mut r: Vec<char> = Vec::new();
    let mut i: usize = 0;
    while i < v.len()
        invariant
            i <= v.len(),
            r@ + replace_from(v@, p@, t@, i as int) == replaced(v@, p@, t@),
        decreases v.len() - i,
    {
        let ghost before = r@;
        if p.len() > 0 && matches_at(v, &p, i) {
            append(&mut r, &t);
            i += p.len();
            assert(r@ + replace_from(v@, p@, t@, i as int) =~= before + (t@ + replace_from(
                v@,
                p@,
                t@,
                i as int,
            )));
        } else {
            r.push(v[i]);
            i += 1;
            assert(r@ + replace_from(v@, p@, t@, i as int) =~= before + (seq![v@[i - 1]]
                + replace_from(v@, p@, t@, i as int)));
        }
    }
    assert(r@ + Seq::<char>::empty() =~= r@);
    r
}

/// `s` from index `i` on, without the characters that occur in `unwanted`.
pub open spec fn without_from(s: Seq<char>, unwanted: Seq<char>, i: int) -> Seq<char>
    decreases s.len() - i,
{
    if i < 0 || i >= s.len() {
        Seq::empty()
    } else if unwanted.contains(s[i]) {
        without_from(s, unwanted, i + 1)
    } else {
        seq![s[i]] + without_from(s, unwanted, i + 1)
    }
}

/// `s` without the characters that occur in `unwanted`.
pub open spec fn without(s: Seq<char>, unwanted: Seq<char>) -> Seq<char> {
    without_from(s, unwanted, 0)
}

/// `v` without the characters of `unwanted`.
pub fn remove_chars(v: &Vec<char>, unwanted: &str) -> (r: Vec<char>)
    ensures
        r@ == without(v@, unwanted@),
{
    let u = chars_of(unwanted);
    let mut r: Vec<char> = Vec::new();
    let mut i: usize = 0;
    while i < v.len()
        invariant
            i <= v.len(),
            r@ + without_from(v@, u@, i as int) == without(v@, u@),
        decreases v.len() - i,
    {
        let ghost before = r@;
        if find_char(&u, v[i]) == u.len() {
            r.push(v[i]);
            assert(r@ + without_from(v@, u@, i + 1) =~= before + (seq![v@[i as int]]
                + without_from(v@, u@, i + 1)));
        }
        i += 1;
    }
    assert(r@ + Seq::<char>::empty() =~= r@);
    r
}

/// The lower-case form of an ASCII capital letter; any other character
/// unchanged.
pub open spec fn lower_char(c: char) -> char {
    if 'A' <= c && c <= 'Z' {
        ((c as u8) + 32) as char
    } else {
        c
    }
}

/// `s` with every ASCII capital letter replaced by its lower-case form.
pub open spec fn lowered(s: Seq<char>) -> Seq<char> {
    Seq::new(s.len(), |i: int| lower_char(s[i]))
}

/// The lower-case form of `c` when it is an ASCII capital letter, else `c`.
pub fn to_lower_char(c: char) -> (r: char)
    ensures
        r == lower_char(c),
{
    if c >= 'A' && c <= 'Z' {
        ((c as u8) + 32) as char
    } else {
        c
    }
}

/// `v` with every ASCII capital letter in lower case.
pub fn to_lower(v: &Vec<char>) -> (r: Vec<char>)
    ensures
        r@ == lowered(v@),
{
    let mut r: Vec<char> = Vec::new();
    let mut i: usize = 0;
    while i < v.len()
        invariant
            i <= v.len(),
            r@.len() == i,
            forall|j: int| 0 <= j < i ==> r@[j] == lower_char(v@[j]),
        decreases v.len() - i,
    {
        r.push(to_lower_char(v[i]));
        i += 1;
    }
    assert(r@ =~= lowered(v@));
    r
}

/// Whether `c` is white space: the code points that carry the Unicode
/// property `White_Space`.
pub open spec fn is_space(c: char) -> bool {
    let u = c as u32;
    (0x09 <= u <= 0x0D) || u == 0x20 || u == 0x85 || u == 0xA0 || u == 0x1680 || (0x2000 <= u
        <= 0x200A) || u == 0x2028 || u == 0x2029 || u == 0x202F || u == 0x205F || u == 0x3000
}

/// Whether `c` is white space.
pub fn is_space_char(c: char) -> (r: bool)
    ensures
        r == is_space(c),
{
    let u: u32 = c as u32;
    (0x09 <= u && u <= 0x0D) || u == 0x20 || u == 0x85 || u == 0xA0 || u == 0x1680 || (0x2000 <= u
        && u <= 0x200A) || u == 0x2028 || u == 0x2029 || u == 0x202F || u == 0x205F || u == 0x3000
}

/// The first index at or after `i` whose character is not white space, or the
/// length of `s`.
pub open spec fn skip_spaces(s: Seq<char>, i: int) -> int
    decreases s.len() - i,
{
    if 0 <= i < s.len() && is_space(s[i]) {
        skip_spaces(s, i + 1)
    } else {
        i
    }
}

/// The least end `j >= lo` such that no white space stands directly before
/// `j`, walking down from `j`.
pub open spec fn drop_spaces(s: Seq<char>, lo: int, j: int) -> int
    decreases j - lo,
{
    if 0 <= lo < j <= s.len() && is_space(s[j - 1]) {
        drop_spaces(s, lo, j - 1)
    } else {
        j
    }
}

/// `s` without its leading and trailing white space.
pub open spec fn trimmed(s: Seq<char>) -> Seq<char> {
    let a = skip_spaces(s, 0);
    s.subrange(a, drop_spaces(s, a, s.len() as int))
}

/// `v` without its leading and trailing white space.
pub fn trim(v: &Vec<char>) -> (r: Vec<char>)
    ensures
        r@ == trimmed(v@),
{
    let mut a: usize = 0;
    while a < v.len() && is_space_char(v[a])
        invariant
            a <= v.len(),
            skip_spaces(v@, a as int) == skip_spaces(v@, 0),
        decreases v.len() - a,
    {
        a += 1;
    }
    let mut b: usize = v.len();
    while a < b && is_space_char(v[b - 1])
        invariant
            a <= b <= v.len(),
            drop_spaces(v@, a as int, b as int) == drop_spaces(v@, a as int, v.len() as int),
        decreases b,
    {
        b -= 1;
    }
    slice(v, a, b)
}

/// The character for a decimal digit `0..=9`.
pub open spec fn digit_char(d: int) -> char {
    (('0' as u8) + (d as u8)) as char
}

/// The decimal notation of `n`, without sign or leading zeros.
pub open spec fn decimal(n: nat) -> Seq<char>
    decreases n,
{
    if n < 10 {
        seq![digit_char(n as int)]
    } else {
        decimal(n / 10).push(digit_char((n % 10) as int))
    }
}

/// The decimal notation of an integer: a minus sign for a negative number,
/// then the digits of its magnitude.
pub open spec fn signed_decimal(n: int) -> Seq<char> {
    if n < 0 {
        seq!['-'] + decimal((-n) as nat)
    } else {
        decimal(n as nat)
    }
}

/// The character for one decimal digit.
pub fn digit_to_char(d: u8) -> (c: char)
    requires
        d <= 9,
    ensures
        c == digit_char(d as int),
{
    (48u8 + d) as char
}

/// Appends the decimal notation of `n` to `out`.
pub fn push_decimal(out: &mut Vec<char>, n: u8)
    ensures
        final(out)@ == old(out)@ + decimal(n as nat),
{
    let ghost before = out@;
    if n >= 100 {
        out.push(digit_to_char(n / 100));
    }
    if n >= 10 {
        out.push(digit_to_char((n / 10) % 10));
    }
    out.push(digit_to_char(n % 10));
    proof {
        reveal_with_fuel(decimal, 3);
        assert(out@ =~= before + decimal(n as nat));
    }
}

/// Appends the decimal notation of a number of any size to `out`.
pub fn push_number(out: &mut Vec<char>, n: u64)
    ensures
        final(out)@ == old(out)@ + decimal(n as nat),
    decreases n,
{
    let ghost before = out@;
    if n >= 10 {
        push_number(out, n / 10);
        out.push(digit_to_char((n % 10) as u8));
        assert(out@ =~= before + decimal(n as nat));
    } else {
        out.push(digit_to_char(n as u8));
        assert(out@ =~= before + decimal(n as nat));
    }
}

/// Appends the decimal notation of the signed number `n` to `out`.
pub fn push_signed_decimal(out: &mut Vec<char>, n: i8)
    ensures
        final(out)@ == old(out)@ + signed_decimal(n as int),
{
    let ghost before = out@;
    if n < 0 {
        out.push('-');
        let m: u8 = if n == -128 {
            128
        } else {
            (-n) as u8
        };
        push_decimal(out, m);
        assert(out@ =~= before + (seq!['-'] + decimal((-n) as nat)));
    } else {
        push_decimal(out, n as u8);
    }
}

/// The value of a decimal digit character, if it is one.
pub open spec fn digit_value(c: char) -> Option<int> {
    if '0' <= c && c <= '9' {
        Some((c as u8) - ('0' as u8))
    } else {
        None
    }
}

/// The value of a non-empty run of decimal digits; `None` when `s` is empty
/// or holds anything else.
pub open spec fn digits_value(s: Seq<char>) -> Option<int>
    decreases s.len(),
{
    if s.len() == 0 {
        None
    } else if s.len() == 1 {
        digit_value(s[0])
    } else {
        match (digits_value(s.drop_last()), digit_value(s.last())) {
            (Some(high), Some(d)) => Some(10 * high + d),
            _ => None,
        }
    }
}

/// The number that `s` denotes as an unsigned 8-bit decimal: an optional
/// `+`, then one or more digits, with a value of at most 255.
pub open spec fn parsed_u8(s: Seq<char>) -> Option<u8> {
    fitting_u8(digits_value(without_plus(s)))
}

/// `s` without a `+` at its beginning.
pub open spec fn without_plus(s: Seq<char>) -> Seq<char> {
    if s.len() > 0 && s[0] == '+' {
        s.skip(1)
    } else {
        s
    }
}

/// A value as an unsigned 8-bit number, if there is a value and it fits.
pub open spec fn fitting_u8(value: Option<int>) -> Option<u8> {
    match value {
        Some(n) => if 0 <= n <= 255 {
            Some(n as u8)
        } else {
            None
        },
        None => None,
    }
}

/// The value of a digit run is never negative and grows with each digit.
pub proof fn lemma_digits_value_grows(s: Seq<char>, k: int)
    requires
        0 < k <= s.len(),
        digits_value(s) is Some,
    ensures
        digits_value(s.take(k)) is Some,
        0 <= digits_value(s.take(k))->0 <= digits_value(s)->0,
    decreases s.len(),
{
    if s.len() == 1 {
        assert(s.take(k) =~= s);
    } else if k == s.len() {
        assert(s.take(k) =~= s);
        lemma_digits_value_grows(s.drop_last(), k - 1);
        assert(s.drop_last().take(k - 1) =~= s.drop_last());
    } else {
        lemma_digits_value_grows(s.drop_last(), k);
        assert(s.drop_last().take(k) =~= s.take(k));
    }
}

/// Reads `v` as an unsigned 8-bit decimal number.
pub fn parse_u8(v: &Vec<char>) -> (r: Option<u8>)
    ensures
        r == parsed_u8(v@),
{
    let start: usize = if v.len() > 0 && v[0] == '+' {
        1
    } else {
        0
    };
    let ghost body = without_plus(v@);
    assert(v@.skip(0) =~= v@);
    if start == v.len() {
        return None;
    }
    let mut acc: u32 = 0;
    let mut i: usize = start;
    while i < v.len()
        invariant
            start <= i <= v.len(),
            start < v.len(),
            body == without_plus(v@),
            body.len() == v@.len() - start,
            forall|j: int| 0 <= j < body.len() ==> body[j] == v@[start + j],
            acc <= 255,
            i == start ==> acc == 0,
            i > start ==> digits_value(body.take(i - start)) == Some(acc as int),
        decreases v.len() - i,
    {
        let c = v[i];
        proof {
            let t = body.take(i - start + 1);
            assert(t.drop_last() =~= body.take(i - start));
            assert(t.last() == c);
            assert(t[0] == body[0]);
            assert(digits_value(t) == if t.len() == 1 {
                digit_value(c)
            } else {
                match (digits_value(t.drop_last()), digit_value(c)) {
                    (Some(high), Some(d)) => Some(10 * high + d),
                    _ => None,
                }
            });
            if digits_value(body) is Some {
                lemma_digits_value_grows(body, i - start + 1);
            }
        }
        if !(c >= '0' && c <= '9') {
            return None;
        }
        let d: u32 = ((c as u8) - 48u8) as u32;
        let next: u32 = acc * 10 + d;
        if next > 255 {
            return None;
        }
        acc = next;
        i += 1;
    }
    assert(body.take(v.len() - start) =~= body);
    Some(acc as u8)
}

/// `s` cut at its first `/`: what stands before it, and what follows it if
/// there is a `/`.
pub open spec fn split_slash(s: Seq<char>) -> (Seq<char>, Option<Seq<char>>) {
    let cut = find(s, '/');
    if cut < s.len() {
        (s.take(cut), Some(s.skip(cut + 1)))
    } else {
        (s, None)
    }
}

/// Cuts `v` at its first `/`.
pub fn split_at_slash(v: &Vec<char>) -> (r: (Vec<char>, Option<Vec<char>>))
    ensures
        r.0@ == split_slash(v@).0,
        match r.1 {
            Some(tail) => split_slash(v@).1 == Some(tail@),
            None => split_slash(v@).1 is None,
        },
        r.1 is Some <==> v@.contains('/'),
{
    let cut = find_char(v, '/');
    if cut < v.len() {
        (slice(v, 0, cut), Some(slice(v, cut + 1, v.len())))
    } else {
        let whole = slice(v, 0, v.len());
        assert(whole@ =~= v@);
        (whole, None)
    }
}

/// `s` with its prefix `p` replaced by `t`, if `s` begins with `p`.
pub open spec fn with_prefix_replaced(s: Seq<char>, p: Seq<char>, t: Seq<char>) -> Option<
    Seq<char>,
> {
    if starts_with(s, p) {
        Some(t + s.skip(p.len() as int))
    } else {
        None
    }
}

/// `v` with the prefix `p` replaced by `t`, if `v` begins with `p`.
pub fn replace_prefix(v: &Vec<char>, p: &str, t: &str) -> (r: Option<Vec<char>>)
    ensures
        match r {
            Some(w) => with_prefix_replaced(v@, p@, t@) == Some(w@),
            None => with_prefix_replaced(v@, p@, t@) is None,
        },
{
    let pv = chars_of(p);
    if matches_at(v, &pv, 0) {
        let rest = slice(v, pv.len(), v.len());
        Some(concat(&chars_of(t), &rest))
    } else {
        None
    }
}

/// Searching the tail of a text finds what searching the whole text from
/// the same place finds.
pub proof fn lemma_find_shifted(s: Seq<char>, c: char, start: int)
    requires
        0 <= start <= s.len(),
    ensures
        find_from(s, c, start) == start + find(s.skip(start), c),
{
    lemma_find_shifted_from(s, c, start, 0);
}

/// The induction behind [`lemma_find_shifted`].
pub proof fn lemma_find_shifted_from(s: Seq<char>, c: char, start: int, k: int)
    requires
        0 <= start <= s.len(),
        0 <= k <= s.len() - start,
    ensures
        find_from(s, c, start + k) == start + find_from(s.skip(start), c, k),
    decreases s.len() - start - k,
{
    if k < s.len() - start {
        lemma_find_shifted_from(s, c, start, k + 1);
    }
}

/// Searching a text that begins with a part without `c` finds what
/// searching the rest finds, that much further on.
pub proof fn lemma_find_after(a: Seq<char>, b: Seq<char>, c: char)
    requires
        !a.contains(c),
    ensures
        find(a + b, c) == a.len() + find(b, c),
{
    let s = a + b;
    assert(s.skip(a.len() as int) =~= b);
    assert forall|j: int| 0 <= j < a.len() implies s[j] != c by {
        assert(a[j] == s[j]);
        assert(a.contains(a[j]));
    }
    lemma_find_from(s, c, 0);
    lemma_find_from(s, c, a.len() as int);
    lemma_find_shifted(s, c, a.len() as int);
    if find(s, c) < a.len() {
        assert(false);
    }
    if find_from(s, c, a.len() as int) < s.len() {
        assert(find(s, c) <= find_from(s, c, a.len() as int));
    }
    if find(s, c) < s.len() {
        assert(find_from(s, c, a.len() as int) <= find(s, c));
    }
}

/// Text that neither begins nor ends with white space is its own trimmed
/// form.
pub proof fn lemma_trimmed_same(s: Seq<char>)
    requires
        s.len() > 0,
        !is_space(s[0]),
        !is_space(s[s.len() - 1]),
    ensures
        trimmed(s) == s,
{
    assert(s.subrange(0, s.len() as int) =~= s);
}

} // verus!
