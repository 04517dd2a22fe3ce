//! Character-level text helpers: decimal rendering with Rust's padding
//! rules, integer parsing with `FromStr` semantics, and field splitting.

use vstd::prelude::*;

verus! {

/// The ASCII digit for a value below ten.
pub open spec fn digit_char(d: nat) -> char {
    ((d + 48) as u32) as char
}

/// Decimal digits of a natural number, most significant first, no leading zeros.
pub open spec fn digits_of(n: nat) -> Seq<char>
    decreases n,
{
    if n < 10 {
        seq![digit_char(n)]
    } else {
        digits_of(n / 10).push(digit_char(n % 10))
    }
}

pub open spec fn abs_int(i: int) -> nat {
    if i < 0 {
        (-i) as nat
    } else {
        i as nat
    }
}

/// What `format!("{}", i)` renders for an integer.
pub open spec fn int_text(i: int) -> Seq<char> {
    if i < 0 {
        seq!['-'] + digits_of(abs_int(i))
    } else {
        digits_of(abs_int(i))
    }
}

pub open spec fn zeros(n: nat) -> Seq<char> {
    Seq::new(n, |k: int| '0')
}

/// What `format!("{:0w$}", i)` renders: the sign first, then zeros up to width `w`.
pub open spec fn padded_text(i: int, w: nat) -> Seq<char> {
    let d = digits_of(abs_int(i));
    let sign: Seq<char> = if i < 0 { seq!['-'] } else { seq![] };
    let fill: nat = if d.len() + sign.len() < w { (w - d.len() - sign.len()) as nat } else { 0 };
    sign + zeros(fill) + d
}

pub proof fn lemma_digits_nonempty(n: nat)
    ensures
        digits_of(n).len() >= 1,
    decreases n,
{
    if n >= 10 {
        lemma_digits_nonempty(n / 10);
    }
}

pub open spec fn is_digit(c: char) -> bool {
    '0' <= c <= '9'
}

/// The value of a string of ASCII digits.
pub open spec fn digits_value(s: Seq<char>) -> nat
    decreases s.len(),
{
    if s.len() == 0 {
        0
    } else {
        digits_value(s.drop_last()) * 10 + ((s.last() as int - 48) as nat)
    }
}

pub open spec fn all_digits(s: Seq<char>) -> bool {
    forall|k: int| 0 <= k < s.len() ==> is_digit(#[trigger] s[k])
}

/// The integer written by `s` in the grammar of Rust's `FromStr` for signed
/// integers: an optional `+` or `-`, then one or more ASCII digits.
pub open spec fn signed_value(s: Seq<char>) -> Option<int> {
    if s.len() > 0 && (s[0] == '+' || s[0] == '-') {
        let rest = s.skip(1);
        if rest.len() > 0 && all_digits(rest) {
            Some(if s[0] == '-' { -(digits_value(rest) as int) } else { digits_value(rest) as int })
        } else {
            None
        }
    } else if s.len() > 0 && all_digits(s) {
        Some(digits_value(s) as int)
    } else {
        None
    }
}

/// The same grammar for unsigned integers: a `-` sign is not accepted.
pub open spec fn unsigned_value(s: Seq<char>) -> Option<int> {
    if s.len() > 0 && s[0] == '-' {
        None
    } else {
        signed_value(s)
    }
}

/// `s.parse::<T>()` for an integer type `T` whose values are `lo..=hi`.
pub open spec fn parse_in_range(s: Seq<char>, signed: bool, lo: int, hi: int) -> Option<int> {
    let v = if signed { signed_value(s) } else { unsigned_value(s) };
    match v {
        Some(x) => if lo <= x <= hi { Some(x) } else { None },
        None => None,
    }
}

pub open spec fn parse_i64_spec(s: Seq<char>) -> Option<int> {
    parse_in_range(s, true, i64::MIN as int, i64::MAX as int)
}

pub open spec fn parse_i32_spec(s: Seq<char>) -> Option<int> {
    parse_in_range(s, true, i32::MIN as int, i32::MAX as int)
}

pub open spec fn parse_u32_spec(s: Seq<char>) -> Option<int> {
    parse_in_range(s, false, 0, u32::MAX as int)
}

pub open spec fn parse_u16_spec(s: Seq<char>) -> Option<int> {
    parse_in_range(s, false, 0, u16::MAX as int)
}

/// Fields of `s` between occurrences of separator characters, as `str::split`
/// yields them (empty fields included; one more field than separators).
pub open spec fn split_by(s: Seq<char>, seps: Seq<char>) -> Seq<Seq<char>>
    decreases s.len(),
{
    if s.len() == 0 {
        seq![Seq::<char>::empty()]
    } else {
        let rest = split_by(s.drop_last(), seps);
        if seps.contains(s.last()) {
            rest.push(Seq::<char>::empty())
        } else {
            rest.update(rest.len() - 1, rest.last().push(s.last()))
        }
    }
}

pub proof fn lemma_split_nonempty(s: Seq<char>, seps: Seq<char>)
    ensures
        split_by(s, seps).len() >= 1,
    decreases s.len(),
{
    if s.len() > 0 {
        lemma_split_nonempty(s.drop_last(), seps);
    }
}

/// The characters of a string slice.
pub fn chars_of(s: &str) -> (r: Vec<char>)
    ensures
        r@ == s@,
{
    let mut r: Vec<char> = Vec::new();
    for c in it: s.chars()
        invariant
            r@ == it.seq().take(it.index() as int),
            it.seq() == s@,
    {
        r.push(c);
        assert(r@ == it.seq().take(it.index() + 1));
    }
    r
}

/// Collects characters into an owned string (`Iterator::collect`).
#[verifier::external_body]
pub(crate) fn string_of(v: &Vec<char>) -> (r: String)
    ensures
        r@ == v@,
{
    v.iter().collect()
}

pub fn digit_of(d: u64) -> (c: char)
    requires
        d < 10,
    ensures
        c == digit_char(d as nat),
{
    ((d + 48) as u8) as char
}

/// Appends the decimal digits of `n`.
pub fn push_digits(buf: &mut Vec<char>, n: u64)
    ensures
        final(buf)@ == old(buf)@ + digits_of(n as nat),
    decreases n,
{
    if n >= 10 {
        push_digits(buf, n / 10);
    }
    let ghost before = buf@;
    buf.push(digit_of(n % 10));
    proof {
        if n >= 10 {
            assert(digits_of(n as nat) == digits_of((n / 10) as nat).push(digit_char((n % 10) as nat)));
        }
    }
}

pub fn magnitude(i: i64) -> (m: u64)
    ensures
        m as nat == abs_int(i as int),
{
    if i < 0 {
        (0 - (i as i128)) as u64
    } else {
        i as u64
    }
}

/// Appends `format!("{}", i)`.
pub fn push_int(buf: &mut Vec<char>, i: i64)
    ensures
        final(buf)@ == old(buf)@ + int_text(i as int),
{
    let ghost start = buf@;
    if i < 0 {
        buf.push('-');
    }
    push_digits(buf, magnitude(i));
    proof {
        if i < 0 {
            assert(buf@ == start + (seq!['-'] + digits_of(abs_int(i as int))));
        }
    }
}

/// Appends `format!("{:0w$}", i)`.
pub fn push_padded(buf: &mut Vec<char>, i: i64, w: usize)
    ensures
        final(buf)@ == old(buf)@ + padded_text(i as int, w as nat),
{
    let ghost start = buf@;
    let mut digits: Vec<char> = Vec::new();
    push_digits(&mut digits, magnitude(i));
    assert(digits@ == digits_of(abs_int(i as int)));
    let sign_len: usize = if i < 0 { 1 } else { 0 };
    if i < 0 {
        buf.push('-');
    }
    let ghost after_sign = buf@;
    let mut fill: usize = 0;
    if digits.len() < w && w - digits.len() > sign_len {
        fill = w - digits.len() - sign_len;
    }
    let mut k: usize = 0;
    while k < fill
        invariant
            k <= fill,
            buf@ == after_sign + zeros(k as nat),
        decreases fill - k,
    {
        buf.push('0');
        k = k + 1;
        assert(buf@ == after_sign + zeros(k as nat));
    }
    let mut j: usize = 0;
    let ghost after_fill = buf@;
    while j < digits.len()
        invariant
            j <= digits.len(),
            buf@ == after_fill + digits@.take(j as int),
        decreases digits.len() - j,
    {
        buf.push(digits[j]);
        j = j + 1;
        assert(buf@ == after_fill + digits@.take(j as int));
    }
    assert(digits@.take(digits.len() as int) == digits@);
    proof {
        let sign: Seq<char> = if i < 0 { seq!['-'] } else { seq![] };
        assert(after_sign == start + sign);
        assert(buf@ == start + sign + zeros(fill as nat) + digits@);
        assert(buf@ == start + padded_text(i as int, w as nat));
    }
}

/// Appends the characters of `s`.
pub fn push_str(buf: &mut Vec<char>, s: &str)
    ensures
        final(buf)@ == old(buf)@ + s@,
{
    let cs = chars_of(s);
    push_all(buf, &cs);
}

/// Appends a copy of `src`.
pub fn push_all(buf: &mut Vec<char>, src: &Vec<char>)
    ensures
        final(buf)@ == old(buf)@ + src@,
{
    let ghost start = buf@;
    let mut j: usize = 0;
    while j < src.len()
        invariant
            j <= src.len(),
            buf@ == start + src@.take(j as int),
        decreases src.len() - j,
    {
        buf.push(src[j]);
        j = j + 1;
        assert(buf@ == start + src@.take(j as int));
    }
    assert(src@.take(src.len() as int) == src@);
}


/// Reads an optional exec integer result as a mathematical one.
pub open spec fn opt_int(r: Option<i128>) -> Option<int> {
    match r {
        Some(x) => Some(x as int),
        None => None,
    }
}

pub open spec fn min_int(a: int, b: int) -> int {
    if a <= b { a } else { b }
}

/// Parses `s` as Rust's `FromStr` does for an integer type with values
/// `lo..=hi` (signed types accept a leading `-`).
pub fn parse_int(s: &[char], signed: bool, lo: i128, hi: i128) -> (r: Option<i128>)
    requires
        -0x10000000000000000 <= lo,
        hi <= 0x10000000000000000,
    ensures
        opt_int(r) == parse_in_range(s@, signed, lo as int, hi as int),
{
    let n = s.len();
    if n == 0 {
        return None;
    }
    let mut start: usize = 0;
    let mut neg = false;
    if s[0] == '+' || s[0] == '-' {
        if s[0] == '-' {
            if !signed {
                return None;
            }
            neg = true;
        }
        start = 1;
    }
    if start >= n {
        proof {
            assert(s@.skip(1).len() == 0);
        }
        return None;
    }
    let cap: u128 = 0x20000000000000000;
    let mut acc: u128 = 0;
    let mut i: usize = start;
    while i < n
        invariant
            start <= i <= n,
            n == s@.len(),
            start == 0 || start == 1,
            n > 0,
            start == 0 ==> !(s@[0] == '+' || s@[0] == '-'),
            start == 1 ==> (s@[0] == '+' || s@[0] == '-'),
            neg == (start == 1 && s@[0] == '-'),
            neg ==> signed,
            acc as int == min_int(digits_value(s@.subrange(start as int, i as int)) as int, cap as int),
            cap == 0x20000000000000000,
            forall|k: int| start <= k < i ==> is_digit(#[trigger] s@[k]),
        decreases n - i,
    {
        let c = s[i];
        if !('0' <= c && c <= '9') {
            proof {
                let rest = s@.subrange(start as int, n as int);
                assert(rest[i - start] == c);
                assert(!all_digits(rest));
                if start == 1 {
                    assert(s@.skip(1) == rest);
                } else {
                    assert(s@ == rest);
                }
            }
            return None;
        }
        let d = (c as u32 - 48) as u128;
        proof {
            let pre = s@.subrange(start as int, i as int);
            let nxt = s@.subrange(start as int, i + 1);
            assert(nxt.drop_last() == pre);
            assert(nxt.last() == c);
            assert(digits_value(nxt) == digits_value(pre) * 10 + d);
        }
        acc = acc * 10 + d;
        if acc > cap {
            acc = cap;
        }
        i = i + 1;
    }
    proof {
        let rest = s@.subrange(start as int, n as int);
        assert(all_digits(rest));
        if start == 1 {
            assert(s@.skip(1) == rest);
        } else {
            assert(s@ == rest);
        }
    }
    if acc == cap {
        return None;
    }
    let v: i128 = if neg { 0 - (acc as i128) } else { acc as i128 };
    if lo <= v && v <= hi {
        Some(v)
    } else {
        None
    }
}

/// Whether `c` occurs in `v`.
pub fn contains_char(v: &[char], c: char) -> (b: bool)
    ensures
        b == v@.contains(c),
{
    let mut i: usize = 0;
    while i < v.len()
        invariant
            i <= v.len(),
            forall|k: int| 0 <= k < i ==> v@[k] != c,
        decreases v.len() - i,
    {
        if v[i] == c {
            assert(v@[i as int] == c);
            return true;
        }
        i = i + 1;
    }
    false
}

pub open spec fn views(v: Seq<Vec<char>>) -> Seq<Seq<char>> {
    v.map_values(|x: Vec<char>| x@)
}

/// Splits `s` at every separator character (`str::split` with a char set).
pub fn split_chars(s: &[char], seps: &[char]) -> (r: Vec<Vec<char>>)
    ensures
        views(r@) == split_by(s@, seps@),
{
    let mut fields: Vec<Vec<char>> = Vec::new();
    let mut cur: Vec<char> = Vec::new();
    let mut i: usize = 0;
    assert(s@.take(0) == Seq::<char>::empty());
    assert(views(fields@).push(cur@) == split_by(s@.take(0), seps@));
    while i < s.len()
        invariant
            i <= s.len(),
            views(fields@).push(cur@) == split_by(s@.take(i as int), seps@),
        decreases s.len() - i,
    {
        let c = s[i];
        let ghost pre = s@.take(i as int);
        let ghost nxt = s@.take(i + 1);
        assert(nxt.drop_last() == pre);
        assert(nxt.last() == c);
        if contains_char(seps, c) {
            let done = cur;
            fields.push(done);
            cur = Vec::new();
            assert(views(fields@) == views(fields@).drop_last().push(done@));
        } else {
            cur.push(c);
        }
        i = i + 1;
        assert(views(fields@).push(cur@) == split_by(nxt, seps@));
    }
    assert(s@.take(s.len() as int) == s@);
    fields.push(cur);
    assert(views(fields@) == split_by(s@, seps@));
    fields
}

/// Unicode `White_Space`, as `char::is_whitespace` classifies it.
pub open spec fn is_ws(c: char) -> bool {
    let u = c as u32;
    (0x09 <= u <= 0x0D) || u == 0x20 || u == 0x85 || u == 0xA0 || u == 0x1680
        || (0x2000 <= u <= 0x200A) || u == 0x2028 || u == 0x2029 || u == 0x202F
        || u == 0x205F || u == 0x3000
}

pub fn is_whitespace(c: char) -> (b: bool)
    ensures
        b == is_ws(c),
{
    let u = c as u32;
    (0x09 <= u && u <= 0x0D) || u == 0x20 || u == 0x85 || u == 0xA0 || u == 0x1680
        || (0x2000 <= u && u <= 0x200A) || u == 0x2028 || u == 0x2029 || u == 0x202F
        || u == 0x205F || u == 0x3000
}

pub open spec fn trim_start_spec(s: Seq<char>) -> Seq<char>
    decreases s.len(),
{
    if s.len() > 0 && is_ws(s[0]) {
        trim_start_spec(s.skip(1))
    } else {
        s
    }
}

pub open spec fn trim_end_spec(s: Seq<char>) -> Seq<char>
    decreases s.len(),
{
    if s.len() > 0 && is_ws(s.last()) {
        trim_end_spec(s.drop_last())
    } else {
        s
    }
}

/// `str::trim`: leading and trailing whitespace removed.
pub open spec fn trim_spec(s: Seq<char>) -> Seq<char> {
    trim_end_spec(trim_start_spec(s))
}

pub fn trim_chars(s: &[char]) -> (r: Vec<char>)
    ensures
        r@ == trim_spec(s@),
{
    let n = s.len();
    let mut lo: usize = 0;
    assert(s@.skip(0) == s@);
    while lo < n && is_whitespace(s[lo])
        invariant
            lo <= n,
            n == s@.len(),
            trim_start_spec(s@) == trim_start_spec(s@.skip(lo as int)),
        decreases n - lo,
    {
        assert(s@.skip(lo as int).skip(1) == s@.skip(lo + 1));
        lo = lo + 1;
    }
    let mut hi: usize = n;
    assert(s@.skip(lo as int).subrange(0, (n - lo) as int) == s@.skip(lo as int));
    while hi > lo && is_whitespace(s[hi - 1])
        invariant
            lo <= hi <= n,
            n == s@.len(),
            trim_start_spec(s@) == s@.skip(lo as int),
            trim_spec(s@) == trim_end_spec(s@.subrange(lo as int, hi as int)),
        decreases hi,
    {
        assert(s@.subrange(lo as int, hi as int).drop_last() == s@.subrange(lo as int, hi - 1));
        hi = hi - 1;
    }
    let mut r: Vec<char> = Vec::new();
    let mut k: usize = lo;
    while k < hi
        invariant
            lo <= k <= hi <= n,
            n == s@.len(),
            r@ == s@.subrange(lo as int, k as int),
        decreases hi - k,
    {
        r.push(s[k]);
        k = k + 1;
        assert(r@ == s@.subrange(lo as int, k as int));
    }
    r
}

/// Whether `needle` occurs as a contiguous run inside `hay`.
pub open spec fn contains_run(hay: Seq<char>, needle: Seq<char>) -> bool {
    exists|i: int| 0 <= i && i + needle.len() <= hay.len() && #[trigger] hay.subrange(i, i + needle.len()) == needle
}

pub open spec fn starts_with_spec(hay: Seq<char>, prefix: Seq<char>) -> bool {
    prefix.len() <= hay.len() && hay.subrange(0, prefix.len() as int) == prefix
}

pub fn starts_with(hay: &[char], prefix: &[char]) -> (b: bool)
    ensures
        b == starts_with_spec(hay@, prefix@),
{
    if prefix.len() > hay.len() {
        return false;
    }
    let mut i: usize = 0;
    while i < prefix.len()
        invariant
            i <= prefix.len() <= hay.len(),
            forall|k: int| 0 <= k < i ==> hay@[k] == prefix@[k],
        decreases prefix.len() - i,
    {
        if hay[i] != prefix[i] {
            assert(hay@.subrange(0, prefix.len() as int)[i as int] != prefix@[i as int]);
            return false;
        }
        i = i + 1;
    }
    assert(hay@.subrange(0, prefix.len() as int) == prefix@);
    true
}

/// Whether `needle` matches `hay` at position `at`.
pub fn matches_at(hay: &[char], needle: &[char], at: usize) -> (b: bool)
    requires
        at + needle.len() <= hay.len(),
    ensures
        b == (hay@.subrange(at as int, at + needle.len()) == needle@),
{
    let mut i: usize = 0;
    while i < needle.len()
        invariant
            i <= needle.len(),
            at + needle.len() <= hay.len(),
            forall|k: int| 0 <= k < i ==> hay@[at + k] == needle@[k],
        decreases needle.len() - i,
    {
        if hay[at + i] != needle[i] {
            assert(hay@.subrange(at as int, at + needle.len())[i as int] != needle@[i as int]);
            return false;
        }
        i = i + 1;
    }
    assert(hay@.subrange(at as int, at + needle.len()) == needle@);
    true
}

/// Whether `needle` occurs in `hay` (`str::contains`).
pub fn contains_chars(hay: &[char], needle: &[char]) -> (b: bool)
    ensures
        b == contains_run(hay@, needle@),
{
    if needle.len() > hay.len() {
        return false;
    }
    if needle.len() == 0 {
        assert(hay@.subrange(0, 0 + needle@.len() as int) == needle@);
        return true;
    }
    let mut i: usize = 0;
    let last = hay.len() - needle.len();
    while i <= last
        invariant
            1 <= needle.len() <= hay.len(),
            last == hay.len() - needle.len(),
            i <= last + 1,
            forall|k: int| 0 <= k < i ==> #[trigger] hay@.subrange(k, k + needle.len()) != needle@,
        decreases last + 1 - i,
    {
        if matches_at(hay, needle, i) {
            return true;
        }
        i = i + 1;
    }
    false
}

pub open spec fn ascii_lower_char(c: char) -> char {
    if 'A' <= c <= 'Z' { ((c as u8) + 32) as char } else { c }
}

/// `str::to_ascii_lowercase`.
pub open spec fn ascii_lower(s: Seq<char>) -> Seq<char> {
    s.map_values(|c: char| ascii_lower_char(c))
}

pub fn lower_ascii_char(c: char) -> (r: char)
    ensures
        r == ascii_lower_char(c),
{
    if 'A' <= c && c <= 'Z' {
        ((c as u8) + 32) as char
    } else {
        c
    }
}

pub fn to_ascii_lowercase(s: &[char]) -> (r: Vec<char>)
    ensures
        r@ == ascii_lower(s@),
{
    let mut r: Vec<char> = Vec::new();
    let mut i: usize = 0;
    while i < s.len()
        invariant
            i <= s.len(),
            r@ == ascii_lower(s@.take(i as int)),
        decreases s.len() - i,
    {
        r.push(lower_ascii_char(s[i]));
        i = i + 1;
        assert(r@ == ascii_lower(s@.take(i as int)));
    }
    assert(s@.take(s.len() as int) == s@);
    r
}

/// Whether two character runs are equal.
pub fn chars_eq(a: &[char], b: &[char]) -> (r: bool)
    ensures
        r == (a@ == b@),
{
    if a.len() != b.len() {
        return false;
    }
    let mut i: usize = 0;
    while i < a.len()
        invariant
            i <= a.len(),
            a.len() == b.len(),
            forall|k: int| 0 <= k < i ==> a@[k] == b@[k],
        decreases a.len() - i,
    {
        if a[i] != b[i] {
            return false;
        }
        i = i + 1;
    }
    assert(a@ == b@);
    true
}


/// Upper bound kept by [`digits_capped`]; above it only "large" matters.
pub open spec fn digit_cap() -> int {
    0x400000000000000000000
}

/// The value of the ASCII digits `s[from..to]`, capped at [`digit_cap`];
/// `None` when a character there is not a digit.
pub fn digits_capped(s: &[char], from: usize, to: usize) -> (r: Option<u128>)
    requires
        from <= to <= s.len(),
    ensures
        match r {
            Some(v) => all_digits(s@.subrange(from as int, to as int)) && v as int == min_int(
                digits_value(s@.subrange(from as int, to as int)) as int,
                digit_cap(),
            ),
            None => !all_digits(s@.subrange(from as int, to as int)),
        },
{
    let cap: u128 = 0x400000000000000000000;
    let mut acc: u128 = 0;
    let mut i: usize = from;
    while i < to
        invariant
            from <= i <= to <= s.len(),
            acc as int == min_int(digits_value(s@.subrange(from as int, i as int)) as int, digit_cap()),
            cap == digit_cap(),
            forall|k: int| from <= k < i ==> is_digit(#[trigger] s@[k]),
        decreases to - i,
    {
        let c = s[i];
        if !('0' <= c && c <= '9') {
            proof {
                let sub = s@.subrange(from as int, to as int);
                assert(sub[i - from] == c);
            }
            return None;
        }
        let d = (c as u32 - 48) as u128;
        proof {
            let pre = s@.subrange(from as int, i as int);
            let nxt = s@.subrange(from as int, i + 1);
            assert(nxt.drop_last() == pre);
            assert(nxt.last() == c);
        }
        acc = acc * 10 + d;
        if acc > cap {
            acc = cap;
        }
        i = i + 1;
    }
    proof {
        let sub = s@.subrange(from as int, to as int);
        assert forall|k: int| 0 <= k < sub.len() implies is_digit(#[trigger] sub[k]) by {
            assert(sub[k] == s@[from + k]);
        }
    }
    Some(acc)
}


/// `format!("{}", n)` for an unsigned integer.
pub fn decimal_string(n: u64) -> (r: String)
    ensures
        r@ == digits_of(n as nat),
{
    let mut buf: Vec<char> = Vec::new();
    push_digits(&mut buf, n);
    string_of(&buf)
}

/// `a == b` on string slices.
pub fn str_eq(a: &str, b: &str) -> (r: bool)
    ensures
        r == (a@ == b@),
{
    let x = chars_of(a);
    let y = chars_of(b);
    chars_eq(&x, &y)
}

/// `hay.contains(needle)` for a string needle.
pub fn str_contains(hay: &str, needle: &str) -> (r: bool)
    ensures
        r == contains_run(hay@, needle@),
{
    let x = chars_of(hay);
    let y = chars_of(needle);
    contains_chars(&x, &y)
}

/// `hay.starts_with(prefix)` for a string prefix.
pub fn str_starts_with(hay: &str, prefix: &str) -> (r: bool)
    ensures
        r == starts_with_spec(hay@, prefix@),
{
    let x = chars_of(hay);
    let y = chars_of(prefix);
    starts_with(&x, &y)
}

/// Whether `c` is an ASCII digit.
pub fn is_digit_char(c: char) -> (b: bool)
    ensures
        b == is_digit(c),
{
    '0' <= c && c <= '9'
}

/// What `str::to_lowercase` gives for a string: Unicode lower-case mapping,
/// which can change the length.
pub uninterp spec fn unicode_lowercase(s: Seq<char>) -> Seq<char>;

/// `str::to_lowercase`. Its contract says only that the result is the
/// Unicode lower-case mapping of the argument, named above.
#[verifier::external_body]
pub(crate) fn to_lowercase(s: &str) -> (r: String)
    ensures
        r@ == unicode_lowercase(s@),
{
    s.to_lowercase()
}

/// A value read in a narrower integer range reads the same as an `i64`.
pub proof fn lemma_parse_widen(s: Seq<char>, signed: bool, lo: int, hi: int)
    requires
        i64::MIN <= lo,
        hi <= i64::MAX,
    ensures
        parse_in_range(s, signed, lo, hi) is Some ==> parse_i64_spec(s) == parse_in_range(
            s,
            signed,
            lo,
            hi,
        ),
{
}

pub open spec fn ascii_upper_char(c: char) -> char {
    if 'a' <= c <= 'z' { ((c as u8) - 32) as char } else { c }
}

pub fn upper_ascii_char(c: char) -> (r: char)
    ensures
        r == ascii_upper_char(c),
{
    if 'a' <= c && c <= 'z' {
        ((c as u8) - 32) as char
    } else {
        c
    }
}

/// Appends the decimal digits of a wide unsigned integer.
pub fn push_digits_wide(buf: &mut Vec<char>, n: u128)
    ensures
        final(buf)@ == old(buf)@ + digits_of(n as nat),
    decreases n,
{
    if n >= 10 {
        push_digits_wide(buf, n / 10);
    }
    buf.push(((48 + (n % 10)) as u8) as char);
    proof {
        if n >= 10 {
            assert(digits_of(n as nat) == digits_of((n / 10) as nat).push(digit_char((n % 10) as nat)));
        }
    }
}

/// Appends `format!("{:0w$}", i)` for a wide integer.
pub fn push_padded_wide(buf: &mut Vec<char>, i: i128, w: usize)
    requires
        i > i128::MIN,
    ensures
        final(buf)@ == old(buf)@ + padded_text(i as int, w as nat),
{
    let ghost start = buf@;
    let mag: u128 = if i < 0 { (0 - i) as u128 } else { i as u128 };
    assert(mag as nat == abs_int(i as int));
    let mut digits: Vec<char> = Vec::new();
    push_digits_wide(&mut digits, mag);
    let sign_len: usize = if i < 0 { 1 } else { 0 };
    if i < 0 {
        buf.push('-');
    }
    let ghost after_sign = buf@;
    let mut fill: usize = 0;
    if digits.len() < w && w - digits.len() > sign_len {
        fill = w - digits.len() - sign_len;
    }
    let mut k: usize = 0;
    while k < fill
        invariant
            k <= fill,
            buf@ == after_sign + zeros(k as nat),
        decreases fill - k,
    {
        buf.push('0');
        k = k + 1;
        assert(buf@ == after_sign + zeros(k as nat));
    }
    push_all(buf, &digits);
    proof {
        let sign: Seq<char> = if i < 0 { seq!['-'] } else { seq![] };
        assert(after_sign == start + sign);
        assert(buf@ == start + sign + zeros(fill as nat) + digits@);
    }
}


/// Parts with `sep` between neighbours (`[..].join(sep)`).
pub open spec fn join_with(parts: Seq<Seq<char>>, sep: Seq<char>) -> Seq<char>
    decreases parts.len(),
{
    if parts.len() == 0 {
        Seq::empty()
    } else if parts.len() == 1 {
        parts[0]
    } else {
        join_with(parts.drop_last(), sep) + sep + parts.last()
    }
}

/// `parts.join(sep)`.
pub fn join_strings(parts: &Vec<String>, sep: &str) -> (r: String)
    ensures
        r@ == join_with(crate::config::strs(parts@), sep@),
{
    let ghost pv = crate::config::strs(parts@);
    let mut out: Vec<char> = Vec::new();
    let mut i: usize = 0;
    while i < parts.len()
        invariant
            i <= parts.len(),
            pv == crate::config::strs(parts@),
            out@ == join_with(pv.take(i as int), sep@),
        decreases parts.len() - i,
    {
        assert(pv.take(i + 1).drop_last() == pv.take(i as int));
        assert(pv.take(i + 1).last() == parts@[i as int]@);
        if i > 0 {
            push_str(&mut out, sep);
        } else {
            assert(pv.take(1)[0] == parts@[0]@);
        }
        push_str(&mut out, parts[i].as_str());
        i = i + 1;
    }
    assert(pv.take(parts.len() as int) == pv);
    string_of(&out)
}

/// `str::replace` with a non-empty pattern: matches are replaced left to
/// right, none overlapping another.
pub open spec fn replace_spec(s: Seq<char>, from: Seq<char>, to: Seq<char>) -> Seq<char>
    decreases s.len(),
{
    if s.len() == 0 {
        s
    } else if from.len() > 0 && from.len() <= s.len() && s.take(from.len() as int) == from {
        to + replace_spec(s.skip(from.len() as int), from, to)
    } else {
        seq![s[0]] + replace_spec(s.skip(1), from, to)
    }
}

pub fn replace_all(s: &str, from: &str, to: &str) -> (r: String)
    requires
        from@.len() > 0,
    ensures
        r@ == replace_spec(s@, from@, to@),
{
    let cs = chars_of(s);
    let f = chars_of(from);
    let t = chars_of(to);
    let mut out: Vec<char> = Vec::new();
    let mut i: usize = 0;
    assert(cs@.skip(0) == cs@);
    assert(out@ + cs@ == cs@);
    while i < cs.len()
        invariant
            i <= cs.len(),
            f@ == from@,
            f@.len() > 0,
            out@ + replace_spec(cs@.skip(i as int), f@, t@) == replace_spec(cs@, f@, t@),
        decreases cs.len() - i,
    {
        let ghost rest = cs@.skip(i as int);
        if f.len() <= cs.len() - i && matches_at(&cs, &f, i) {
            assert(rest.take(f@.len() as int) == cs@.subrange(i as int, i + f@.len()));
            assert(rest.skip(f@.len() as int) == cs@.skip(i + f@.len()));
            push_all(&mut out, &t);
            i = i + f.len();
        } else {
            assert(f@.len() <= rest.len() ==> rest.take(f@.len() as int) == cs@.subrange(
                i as int,
                i + f@.len(),
            ));
            assert(rest.skip(1) == cs@.skip(i + 1));
            assert(rest[0] == cs@[i as int]);
            out.push(cs[i]);
            i = i + 1;
        }
    }
    assert(cs@.skip(cs.len() as int).len() == 0);
    string_of(&out)
}

/// Decimal digits read back give the number.
pub proof fn lemma_digits_roundtrip(n: nat)
    ensures
        digits_of(n).len() >= 1,
        all_digits(digits_of(n)),
        digits_value(digits_of(n)) == n,
        !digits_of(n).contains('.'),
        !digits_of(n).contains(','),
        digits_of(n)[0] != '-' && digits_of(n)[0] != '+',
    decreases n,
{
    let d = digits_of(n);
    if n < 10 {
        assert(d == seq![digit_char(n)]);
        assert(digit_char(n) as int == n + 48);
        assert(d.drop_last() =~= Seq::<char>::empty());
        assert(d.last() == digit_char(n));
        assert(digits_value(d) == digits_value(d.drop_last()) * 10 + (d.last() as int - 48));
        assert(d[0] == digit_char(n));
        assert(is_digit(d[0]));
        assert forall|c: char| d.contains(c) implies c == digit_char(n) by {
            let k = choose|k: int| 0 <= k < d.len() && d[k] == c;
            assert(k == 0);
        }
    } else {
        lemma_digits_roundtrip(n / 10);
        let p = digits_of(n / 10);
        assert(d == p.push(digit_char(n % 10)));
        assert(d.drop_last() == p);
        assert(d.last() == digit_char(n % 10));
        assert(digit_char(n % 10) as int == n % 10 + 48);
        assert(digits_value(d) == digits_value(p) * 10 + (d.last() as int - 48));
        assert(n == (n / 10) * 10 + n % 10);
        assert forall|k: int| 0 <= k < d.len() implies is_digit(#[trigger] d[k]) by {
            if k < p.len() {
                assert(d[k] == p[k]);
            }
        }
        assert forall|c: char| d.contains(c) implies (c != '.' && c != ',') by {
            let k = choose|k: int| 0 <= k < d.len() && d[k] == c;
            if k < p.len() {
                assert(d[k] == p[k]);
                assert(p.contains(c));
            }
        }
        assert(d[0] == p[0]);
    }
}

/// Parsing the decimal digits of a number in range gives the number.
pub proof fn lemma_parse_digits(n: nat, signed: bool, lo: int, hi: int)
    requires
        lo <= n <= hi,
    ensures
        parse_in_range(digits_of(n), signed, lo, hi) == Some(n as int),
{
    lemma_digits_roundtrip(n);
}

/// A number below a thousand padded to three digits reads back as itself.
pub proof fn lemma_padded3(r: int)
    requires
        0 <= r < 1000,
    ensures
        padded_text(r, 3).len() == 3,
        all_digits(padded_text(r, 3)),
        digits_value(padded_text(r, 3)) == r,
        !padded_text(r, 3).contains('.'),
        !padded_text(r, 3).contains(','),
{
    let n = r as nat;
    lemma_digits_roundtrip(n);
    let d = digits_of(n);
    if n >= 100 {
        assert(digits_of(n / 10).len() == 2) by {
            assert(digits_of(n / 10 / 10).len() == 1);
        }
    } else if n >= 10 {
        assert(digits_of(n / 10).len() == 1);
    }
    let p = padded_text(r, 3);
    assert(d.len() <= 3);
    let fill: nat = (3 - d.len()) as nat;
    assert(p =~= zeros(fill) + d);
    lemma_value_leading_zeros(fill, d);
    assert forall|k: int| 0 <= k < p.len() implies is_digit(#[trigger] p[k]) by {
        if k < fill {
            assert(p[k] == '0');
        } else {
            assert(p[k] == d[k - fill]);
        }
    }
    assert forall|c: char| p.contains(c) implies (c != '.' && c != ',') by {
        let k = choose|k: int| 0 <= k < p.len() && p[k] == c;
        if k >= fill {
            assert(p[k] == d[k - fill]);
            assert(d.contains(c));
        }
    }
}

/// Leading zeros do not change the value of digits.
pub proof fn lemma_value_leading_zeros(k: nat, d: Seq<char>)
    ensures
        digits_value(zeros(k) + d) == digits_value(d),
    decreases d.len(),
{
    if d.len() == 0 {
        assert(zeros(k) + d =~= zeros(k));
        lemma_value_zeros(k);
    } else {
        lemma_value_leading_zeros(k, d.drop_last());
        assert((zeros(k) + d).drop_last() =~= zeros(k) + d.drop_last());
    }
}

pub proof fn lemma_value_zeros(k: nat)
    ensures
        digits_value(zeros(k)) == 0,
    decreases k,
{
    if k > 0 {
        lemma_value_zeros((k - 1) as nat);
        assert(zeros(k).drop_last() =~= zeros((k - 1) as nat));
    }
}

/// A field without separators splits into itself.
pub proof fn lemma_split_plain(b: Seq<char>, sep: char)
    requires
        !b.contains(sep),
    ensures
        split_by(b, seq![sep]) == seq![b],
    decreases b.len(),
{
    if b.len() > 0 {
        let d = b.drop_last();
        assert(!d.contains(sep)) by {
            if d.contains(sep) {
                let k = choose|k: int| 0 <= k < d.len() && d[k] == sep;
                assert(b[k] == sep);
            }
        }
        lemma_split_plain(d, sep);
        assert(b[b.len() - 1] != sep);
        assert(!seq![sep].contains(b.last())) by {
            if seq![sep].contains(b.last()) {
                let k = choose|k: int| 0 <= k < 1 && seq![sep][k] == b.last();
            }
        }
        assert(d.push(b.last()) =~= b);
        let r = split_by(d, seq![sep]);
        assert(split_by(b, seq![sep]) == r.update(r.len() - 1, r.last().push(b.last())));
        assert(r.update(r.len() - 1, r.last().push(b.last())) =~= seq![b]);
    } else {
        assert(b =~= Seq::<char>::empty());
    }
}

/// A separator and a field without separators add one field.
pub proof fn lemma_split_append(a: Seq<char>, b: Seq<char>, sep: char)
    requires
        !b.contains(sep),
    ensures
        split_by(a + seq![sep] + b, seq![sep]) == split_by(a, seq![sep]).push(b),
    decreases b.len(),
{
    lemma_split_nonempty(a, seq![sep]);
    if b.len() == 0 {
        let w = a + seq![sep] + b;
        assert(w =~= a.push(sep));
        assert(w.drop_last() =~= a);
        assert(w.last() == sep);
        assert(seq![sep].contains(sep)) by {
            assert(seq![sep][0] == sep);
        }
        assert(split_by(w, seq![sep]) == split_by(w.drop_last(), seq![sep]).push(Seq::<char>::empty()));
        assert(b =~= Seq::<char>::empty());
    } else {
        let d = b.drop_last();
        assert(!d.contains(sep)) by {
            if d.contains(sep) {
                let k = choose|k: int| 0 <= k < d.len() && d[k] == sep;
                assert(b[k] == sep);
            }
        }
        lemma_split_append(a, d, sep);
        assert(b[b.len() - 1] != sep);
        assert(!seq![sep].contains(b.last())) by {
            if seq![sep].contains(b.last()) {
                let k = choose|k: int| 0 <= k < 1 && seq![sep][k] == b.last();
            }
        }
        let w = a + seq![sep] + b;
        assert(w.drop_last() =~= a + seq![sep] + d);
        assert(w.last() == b.last());
        assert(d.push(b.last()) =~= b);
        let r = split_by(a, seq![sep]).push(d);
        assert(split_by(w.drop_last(), seq![sep]) == r);
        assert(split_by(w, seq![sep]) == r.update(r.len() - 1, r.last().push(w.last())));
        assert(r.update(r.len() - 1, r.last().push(b.last())) =~= split_by(a, seq![sep]).push(b));
    }
}


/// The first position at or after `i` where `pat` occurs in `s`.
pub open spec fn find_from(s: Seq<char>, pat: Seq<char>, i: int) -> Option<int>
    decreases s.len() + 1 - i,
{
    if i < 0 || i + pat.len() > s.len() {
        None
    } else if s.subrange(i, i + pat.len()) == pat {
        Some(i)
    } else {
        find_from(s, pat, i + 1)
    }
}

/// `str::find`: the first position where `pat` occurs.
pub fn find_run(s: &[char], pat: &[char]) -> (r: Option<usize>)
    ensures
        match r {
            Some(i) => find_from(s@, pat@, 0) == Some(i as int),
            None => find_from(s@, pat@, 0) is None,
        },
{
    if pat.len() > s.len() {
        return None;
    }
    let last: usize = s.len() - pat.len();
    let mut i: usize = 0;
    loop
        invariant
            pat.len() <= s.len(),
            last == s.len() - pat.len(),
            i <= last,
            find_from(s@, pat@, 0) == find_from(s@, pat@, i as int),
        decreases last - i,
    {
        if matches_at(s, pat, i) {
            return Some(i);
        }
        if i == last {
            return None;
        }
        i = i + 1;
    }
}

/// `s` with the first occurrence of `from` replaced by `to` (`replacen`
/// with a count of one).
pub open spec fn replace_first(s: Seq<char>, from: Seq<char>, to: Seq<char>) -> Seq<char> {
    match find_from(s, from, 0) {
        Some(i) => s.take(i) + to + s.skip(i + from.len()),
        None => s,
    }
}

pub fn replace_first_chars(s: &Vec<char>, from: &Vec<char>, to: &Vec<char>) -> (r: Vec<char>)
    ensures
        r@ == replace_first(s@, from@, to@),
{
    match find_run(s.as_slice(), from.as_slice()) {
        Some(i) => {
            proof {
                lemma_find_from_bounds(s@, from@, 0);
            }
            let mut out: Vec<char> = Vec::new();
            let mut j: usize = 0;
            while j < i
                invariant
                    j <= i <= s.len(),
                    out@ == s@.take(j as int),
                decreases i - j,
            {
                out.push(s[j]);
                j = j + 1;
                assert(out@ == s@.take(j as int));
            }
            push_all(&mut out, to);
            let ghost mid = out@;
            let mut k: usize = i + from.len();
            while k < s.len()
                invariant
                    i + from.len() <= k <= s.len(),
                    out@ == mid + s@.subrange(i + from.len(), k as int),
                decreases s.len() - k,
            {
                out.push(s[k]);
                k = k + 1;
                assert(out@ == mid + s@.subrange(i + from.len(), k as int));
            }
            assert(s@.subrange(i + from.len(), s.len() as int) == s@.skip(i + from.len()));
            out
        },
        None => s.clone(),
    }
}

pub proof fn lemma_find_from_bounds(s: Seq<char>, pat: Seq<char>, i: int)
    ensures
        find_from(s, pat, i) matches Some(k) ==> i <= k && k + pat.len() <= s.len() && s.subrange(
            k,
            k + pat.len(),
        ) == pat,
    decreases s.len() + 1 - i,
{
    if i >= 0 && i + pat.len() <= s.len() && s.subrange(i, i + pat.len()) != pat {
        lemma_find_from_bounds(s, pat, i + 1);
    }
}

/// A line without the `\r` of a `\r\n` ending.
pub open spec fn strip_cr(l: Seq<char>) -> Seq<char> {
    if l.len() > 0 && l.last() == '\r' {
        l.drop_last()
    } else {
        l
    }
}

/// `str::lines`: the pieces between `\n`s, a `\r` before a `\n` dropped,
/// and no empty last line after a final line ending.
pub open spec fn lines_spec(s: Seq<char>) -> Seq<Seq<char>> {
    let p = split_by(s, seq!['\n']);
    let body = p.drop_last().map_values(|l: Seq<char>| strip_cr(l));
    if p.last().len() > 0 {
        body.push(p.last())
    } else {
        body
    }
}

pub fn text_lines(s: &str) -> (r: Vec<Vec<char>>)
    ensures
        views(r@) == lines_spec(s@),
{
    let cs = chars_of(s);
    let mut lines: Vec<Vec<char>> = Vec::new();
    let mut cur: Vec<char> = Vec::new();
    let ghost mut raw: Seq<Seq<char>> = Seq::empty();
    let mut i: usize = 0;
    assert(cs@.take(0) == Seq::<char>::empty());
    while i < cs.len()
        invariant
            i <= cs.len(),
            cs@ == s@,
            split_by(cs@.take(i as int), seq!['\n']) == raw.push(cur@),
            views(lines@) == raw.map_values(|l: Seq<char>| strip_cr(l)),
        decreases cs.len() - i,
    {
        let c = cs[i];
        assert(cs@.take(i + 1).drop_last() == cs@.take(i as int));
        assert(cs@.take(i + 1).last() == c);
        if c == '\n' {
            assert(seq!['\n'].contains(c)) by {
                assert(seq!['\n'][0] == c);
            }
            let mut line = cur.clone();
            assert(line@ == cur@);
            if line.len() > 0 && line[line.len() - 1] == '\r' {
                line.pop();
            }
            assert(line@ == strip_cr(cur@));
            let ghost old_raw = raw;
            let ghost old_views = views(lines@);
            proof {
                raw = raw.push(cur@);
            }
            lines.push(line);
            assert(views(lines@) == old_views.push(strip_cr(cur@)));
            assert(raw.map_values(|l: Seq<char>| strip_cr(l)) == old_raw.map_values(
                |l: Seq<char>| strip_cr(l),
            ).push(strip_cr(cur@)));
            cur = Vec::new();
            assert(split_by(cs@.take(i + 1), seq!['\n']) == raw.push(cur@));
        } else {
            assert(!seq!['\n'].contains(c));
            let ghost before = cur@;
            cur.push(c);
            assert(split_by(cs@.take(i + 1), seq!['\n']) == raw.push(before).update(
                raw.len() as int,
                before.push(c),
            ));
            assert(raw.push(before).update(raw.len() as int, before.push(c)) == raw.push(cur@));
        }
        i = i + 1;
    }
    assert(cs@.take(cs.len() as int) == cs@);
    let ghost p = split_by(s@, seq!['\n']);
    assert(p.drop_last() == raw);
    assert(p.last() == cur@);
    if cur.len() > 0 {
        lines.push(cur);
    }
    lines
}

} // verus!
