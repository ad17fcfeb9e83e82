//! Strings as sequences of characters: decimal text, padding, truncation,
//! lines, trimming, search and order.
use vstd::prelude::*;

verus! {

/// `String::push` appends one character at the end.
pub assume_specification[ String::push ](s: &mut String, c: char)
    ensures
        final(s)@ == old(s)@.push(c),
;

/// The characters with the Unicode property White_Space.
pub open spec fn white_space(c: char) -> bool {
    let n = c as u32;
    9 <= n <= 13 || n == 32 || n == 0x85 || n == 0xa0 || n == 0x1680 || 0x2000 <= n <= 0x200a || n
        == 0x2028 || n == 0x2029 || n == 0x202f || n == 0x205f || n == 0x3000
}

/// `char::is_whitespace` answers whether the character has the Unicode property
/// White_Space.
pub assume_specification[ char::is_whitespace ](c: char) -> (r: bool)
    ensures
        r == white_space(c),
;

/// What `String::from_utf8_lossy` reads bytes as.
pub uninterp spec fn lossy_text(bytes: Seq<u8>) -> Seq<char>;

/// `String::from_utf8_lossy`: the text depends on the bytes alone, and is what
/// they encode where they are valid UTF-8. What stands in for other bytes is
/// named, not stated.
#[verifier::external_body]
pub(crate) fn decode_lossy(bytes: &Vec<u8>) -> (r: String)
    ensures
        r@ == lossy_text(bytes@),
        vstd::utf8::valid_utf8(bytes@) ==> r@ == vstd::utf8::decode_utf8(bytes@),
{
    String::from_utf8_lossy(bytes).into_owned()
}

/// The characters of `s`, in order.
pub fn chars_of(s: &str) -> (r: Vec<char>)
    ensures
        r@ == s@,
{
    let mut v: Vec<char> = Vec::new();
    for c in it: s.chars()
        invariant
            v@ == it.seq().take(it.index() as int),
            it.seq() == s@,
    {
        v.push(c);
    }
    v
}

/// The string made of `v[from..to]`.
pub fn string_of(v: &Vec<char>, from: usize, to: usize) -> (r: String)
    requires
        from <= to <= v@.len(),
    ensures
        r@ == v@.subrange(from as int, to as int),
{
    let mut s: String = String::new();
    let mut i: usize = from;
    while i < to
        invariant
            from <= i <= to <= v@.len(),
            s@ == v@.subrange(from as int, i as int),
        decreases to - i,
    {
        s.push(v[i]);
        i += 1;
    }
    s
}

/// Whether two strings hold the same characters.
pub fn str_eq(a: &str, b: &str) -> (r: bool)
    ensures
        r == (a@ == b@),
{
    let x: Vec<char> = chars_of(a);
    let y: Vec<char> = chars_of(b);
    if x.len() != y.len() {
        return false;
    }
    let mut i: usize = 0;
    while i < x.len()
        invariant
            i <= x@.len(),
            x@.len() == y@.len(),
            x@ == a@,
            y@ == b@,
            forall|k: int| 0 <= k < i ==> x@[k] == y@[k],
        decreases x@.len() - i,
    {
        if x[i] != y[i] {
            assert(a@[i as int] != b@[i as int]);
            return false;
        }
        i += 1;
    }
    assert(a@ =~= b@);
    true
}


/// The views of a sequence of strings.
pub open spec fn texts(v: Seq<String>) -> Seq<Seq<char>> {
    v.map_values(|s: String| s@)
}

/// The views of an optional list of strings.
pub open spec fn opt_texts(v: Option<Vec<String>>) -> Option<Seq<Seq<char>>> {
    match v {
        Some(l) => Some(texts(l@)),
        None => None,
    }
}

/// `a` followed by `b`.
pub fn cat(a: &str, b: &str) -> (r: String)
    ensures
        r@ == a@ + b@,
{
    let mut s: String = a.to_owned();
    s.append(b);
    s
}

/// `a`, `b` and `c` in a row.
pub fn cat3(a: &str, b: &str, c: &str) -> (r: String)
    ensures
        r@ == a@ + b@ + c@,
{
    let mut s: String = a.to_owned();
    s.append(b);
    s.append(c);
    s
}

/// Whether an optional string is present and equal to `b`.
pub fn opt_is(a: &Option<String>, b: &str) -> (r: bool)
    ensures
        r == (a is Some && a->0@ == b@),
{
    match a {
        Some(x) => str_eq(x.as_str(), b),
        None => false,
    }
}

/// The view of an optional string.
pub open spec fn opt_text(a: Option<String>) -> Option<Seq<char>> {
    match a {
        Some(s) => Some(s@),
        None => None,
    }
}

/// The optional string's text, or `default` when it is absent.
pub open spec fn text_or(a: Option<String>, default: Seq<char>) -> Seq<char> {
    match a {
        Some(s) => s@,
        None => default,
    }
}

/// The optional string's text, or `default` when it is absent.
pub fn str_or<'a>(a: &'a Option<String>, default: &'a str) -> (r: &'a str)
    ensures
        r@ == text_or(*a, default@),
{
    match a {
        Some(x) => x.as_str(),
        None => default,
    }
}

/// A copy of an optional string.
pub fn opt_copy(a: &Option<String>) -> (r: Option<String>)
    ensures
        r == *a,
{
    match a {
        Some(s) => Some(s.clone()),
        None => None,
    }
}

/// Number of characters of `s`.
pub fn char_count(s: &str) -> (r: usize)
    ensures
        r == s@.len(),
{
    chars_of(s).len()
}

/// Number of bytes of `s` in UTF-8.
pub open spec fn byte_len(s: Seq<char>) -> nat {
    vstd::utf8::encode_utf8(s).len()
}

/// Number of bytes of `s` in UTF-8.
pub fn byte_count(s: &str) -> (r: usize)
    ensures
        r == byte_len(s@),
{
    s.as_bytes().len()
}

/// Number of bytes of a character in UTF-8.
pub open spec fn char_width(c: char) -> nat {
    if (c as u32) < 0x80 {
        1
    } else if (c as u32) < 0x800 {
        2
    } else if (c as u32) < 0x10000 {
        3
    } else {
        4
    }
}

/// The characters of `s` that end within its first `n` bytes.
pub open spec fn within_bytes(s: Seq<char>, n: nat) -> Seq<char>
    decreases s.len(),
{
    if s.len() == 0 || char_width(s[0]) > n {
        seq![]
    } else {
        seq![s[0]] + within_bytes(s.skip(1), (n - char_width(s[0])) as nat)
    }
}

/// The characters of `s` that end within its first `n` bytes.
pub fn first_bytes(s: &str, n: usize) -> (r: String)
    ensures
        r@ == within_bytes(s@, n as nat),
{
    let v: Vec<char> = chars_of(s);
    let mut r: String = String::new();
    let mut left: usize = n;
    let mut i: usize = 0;
    assert(v@.skip(0) =~= v@);
    while i < v.len()
        invariant
            i <= v@.len(),
            v@ == s@,
            r@ + within_bytes(v@.skip(i as int), left as nat) =~= within_bytes(s@, n as nat),
        decreases v@.len() - i,
    {
        let c: char = v[i];
        let code: u32 = c as u32;
        let width: usize = if code < 0x80 {
            1
        } else if code < 0x800 {
            2
        } else if code < 0x10000 {
            3
        } else {
            4
        };
        let ghost rest = v@.skip(i as int);
        assert(rest[0] == c);
        if width > left {
            assert(within_bytes(rest, left as nat) =~= seq![]);
            return r;
        }
        assert(rest.skip(1) =~= v@.skip(i + 1));
        r.push(c);
        left -= width;
        i += 1;
    }
    r
}

// ── Decimal numbers ──────────────────────────────────────────────────────────

/// The decimal digit `d`.
pub open spec fn digit(d: nat) -> char {
    (48 + d) as char
}

/// `n` in decimal, without leading zeros.
pub open spec fn dec(n: nat) -> Seq<char>
    decreases n,
{
    if n < 10 {
        seq![digit(n)]
    } else {
        dec(n / 10).push(digit(n % 10))
    }
}

/// `n` in decimal, with a leading `-` when negative.
pub open spec fn dec_int(n: int) -> Seq<char> {
    if n < 0 {
        seq!['-'] + dec((-n) as nat)
    } else {
        dec(n as nat)
    }
}

fn digit_of(d: u64) -> (r: char)
    requires
        d < 10,
    ensures
        r == digit(d as nat),
{
    match d {
        0 => '0',
        1 => '1',
        2 => '2',
        3 => '3',
        4 => '4',
        5 => '5',
        6 => '6',
        7 => '7',
        8 => '8',
        _ => '9',
    }
}

/// `n` in decimal.
pub fn u64_text(n: u64) -> (r: String)
    ensures
        r@ == dec(n as nat),
    decreases n,
{
    if n < 10 {
        let mut s: String = String::new();
        s.push(digit_of(n));
        assert(s@ =~= seq![digit(n as nat)]);
        s
    } else {
        let mut s: String = u64_text(n / 10);
        s.push(digit_of(n % 10));
        s
    }
}

/// `n` in decimal.
pub fn i64_text(n: i64) -> (r: String)
    ensures
        r@ == dec_int(n as int),
{
    if n < 0 {
        let m: u64 = (-((n + 1) as i128) + 1) as u64;
        let mut s: String = String::new();
        s.push('-');
        let t: String = u64_text(m);
        s.append(t.as_str());
        assert(s@ =~= dec_int(n as int));
        s
    } else {
        u64_text(n as u64)
    }
}

/// `n` in decimal.
pub fn usize_text(n: usize) -> (r: String)
    ensures
        r@ == dec(n as nat),
{
    u64_text(n as u64)
}

// ── Padding and truncation ───────────────────────────────────────────────────

/// `n` copies of `c`.
pub open spec fn copies(c: char, n: nat) -> Seq<char> {
    Seq::new(n, |i: int| c)
}

/// `n` copies of the text `t` in a row.
pub open spec fn repeated(t: Seq<char>, n: nat) -> Seq<char>
    decreases n,
{
    if n == 0 {
        seq![]
    } else {
        repeated(t, (n - 1) as nat) + t
    }
}

/// `n` copies of `t` in a row.
pub fn repeat_text(t: &str, n: usize) -> (r: String)
    ensures
        r@ == repeated(t@, n as nat),
{
    let mut s: String = String::new();
    let mut i: usize = 0;
    while i < n
        invariant
            i <= n,
            s@ == repeated(t@, i as nat),
        decreases n - i,
    {
        s.append(t);
        i += 1;
    }
    s
}

/// `s` filled up with spaces on the right to `width` characters.
pub open spec fn padded_right(s: Seq<char>, width: nat) -> Seq<char> {
    if s.len() < width {
        s + copies(' ', (width - s.len()) as nat)
    } else {
        s
    }
}

/// `s` filled up with spaces on the right to `width` characters.
pub fn pad_right(s: &str, width: usize) -> (r: String)
    ensures
        r@ == padded_right(s@, width as nat),
{
    let mut out: String = s.to_owned();
    let n: usize = char_count(s);
    let mut i: usize = n;
    while i < width
        invariant
            n == s@.len(),
            n <= i,
            n < width ==> i <= width,
            n >= width ==> i == n,
            out@ == s@ + copies(' ', (i - n) as nat),
        decreases width - i,
    {
        out.push(' ');
        i += 1;
        assert(out@ =~= s@ + copies(' ', (i - n) as nat));
    }
    assert(n >= width ==> out@ =~= s@);
    out
}

// ── Lines ────────────────────────────────────────────────────────────────────

/// The first index from `from` on at which `s` holds `c`, or `s.len()`.
pub open spec fn index_from(s: Seq<char>, c: char, from: int) -> int
    decreases s.len() - from,
{
    if from >= s.len() {
        s.len() as int
    } else if s[from] == c {
        from
    } else {
        index_from(s, c, from + 1)
    }
}

/// `index_from` lies between `from` and the end, at the first `c` if there is one.
pub proof fn lemma_index_from(s: Seq<char>, c: char, from: int)
    requires
        0 <= from <= s.len(),
    ensures
        from <= index_from(s, c, from) <= s.len(),
        index_from(s, c, from) < s.len() ==> s[index_from(s, c, from)] == c,
        forall|k: int| from <= k < index_from(s, c, from) ==> s[k] != c,
    decreases s.len() - from,
{
    if from < s.len() && s[from] != c {
        lemma_index_from(s, c, from + 1);
    }
}

/// Where `c` first stands in `v` from `from` on, or `v.len()`.
pub fn find_char(v: &Vec<char>, c: char, from: usize) -> (r: usize)
    requires
        from <= v@.len(),
    ensures
        r == index_from(v@, c, from as int),
        from <= r <= v@.len(),
{
    let mut i: usize = from;
    while i < v.len() && v[i] != c
        invariant
            from <= i <= v@.len(),
            index_from(v@, c, from as int) == index_from(v@, c, i as int),
        decreases v@.len() - i,
    {
        i += 1;
    }
    i
}

/// A line without the carriage return before its line feed.
pub open spec fn without_cr(s: Seq<char>) -> Seq<char> {
    if s.len() > 0 && s.last() == '\r' {
        s.drop_last()
    } else {
        s
    }
}

/// The lines of `s`: it is cut at each line feed, a carriage return directly
/// before a line feed goes with it, and nothing follows a final line feed.
pub open spec fn lines_of(s: Seq<char>) -> Seq<Seq<char>>
    decreases s.len(),
{
    if s.len() == 0 {
        seq![]
    } else {
        let i = index_from(s, '\n', 0);
        if 0 <= i < s.len() {
            seq![without_cr(s.take(i))] + lines_of(s.skip(i + 1))
        } else {
            seq![s]
        }
    }
}

/// The lines of `s`.
pub fn split_lines(s: &str) -> (r: Vec<String>)
    ensures
        texts(r@) == lines_of(s@),
{
    let v: Vec<char> = chars_of(s);
    let mut out: Vec<String> = Vec::new();
    let mut pos: usize = 0;
    assert(s@.skip(0) =~= s@);
    assert(texts(out@) + lines_of(s@) =~= lines_of(s@));
    while pos < v.len()
        invariant
            v@ == s@,
            pos <= v@.len(),
            texts(out@) + lines_of(s@.skip(pos as int)) == lines_of(s@),
        decreases v@.len() - pos,
    {
        let ghost rest = s@.skip(pos as int);
        let ghost before = texts(out@);
        let i: usize = find_char(&v, '\n', pos);
        proof {
            lemma_index_from_shift(s@, '\n', pos as int, 0);
        }
        if i < v.len() {
            let end: usize = if i > pos && v[i - 1] == '\r' {
                i - 1
            } else {
                i
            };
            let line: String = string_of(&v, pos, end);
            assert(line@ =~= without_cr(rest.take(i - pos)));
            out.push(line);
            assert(rest.skip(i - pos + 1) =~= s@.skip(i + 1));
            assert(texts(out@) =~= before.push(line@));
            assert(before + (seq![line@] + lines_of(s@.skip(i + 1))) =~= before.push(line@)
                + lines_of(s@.skip(i + 1)));
            pos = i + 1;
        } else {
            let line: String = string_of(&v, pos, v.len());
            assert(line@ =~= rest);
            out.push(line);
            assert(texts(out@) =~= before.push(line@));
            assert(before + seq![line@] =~= before.push(line@));
            pos = v.len();
            assert(s@.skip(pos as int).len() == 0);
            assert(texts(out@) + lines_of(s@.skip(pos as int)) =~= before.push(line@));
        }
    }
    assert(s@.skip(pos as int).len() == 0);
    assert(texts(out@) + lines_of(s@.skip(pos as int)) =~= texts(out@));
    out
}

/// Searching in a suffix gives the shifted index.
proof fn lemma_index_from_shift(s: Seq<char>, c: char, k: int, from: int)
    requires
        0 <= k <= s.len(),
        0 <= from <= s.len() - k,
    ensures
        index_from(s.skip(k), c, from) + k == index_from(s, c, from + k),
    decreases s.len() - k - from,
{
    if from < s.len() - k && s.skip(k)[from] != c {
        lemma_index_from_shift(s, c, k, from + 1);
    }
}

/// The texts of `parts` with `sep` between neighbours.
pub open spec fn joined(parts: Seq<Seq<char>>, sep: Seq<char>) -> Seq<char>
    decreases parts.len(),
{
    if parts.len() == 0 {
        seq![]
    } else if parts.len() == 1 {
        parts[0]
    } else {
        joined(parts.drop_last(), sep) + sep + parts.last()
    }
}

/// The strings of `parts` with `sep` between neighbours.
pub fn join(parts: &Vec<String>, sep: &str) -> (r: String)
    ensures
        r@ == joined(texts(parts@), sep@),
{
    let mut out: String = String::new();
    let mut i: usize = 0;
    while i < parts.len()
        invariant
            i <= parts@.len(),
            out@ == joined(texts(parts@.take(i as int)), sep@),
        decreases parts@.len() - i,
    {
        let ghost before = texts(parts@.take(i as int));
        let ghost after = texts(parts@.take(i + 1));
        if i > 0 {
            out.append(sep);
        }
        out.append(parts[i].as_str());
        assert(after.drop_last() =~= before);
        assert(after.last() == parts@[i as int]@);
        assert(i == 0 ==> out@ =~= after[0]);
        i += 1;
    }
    assert(parts@.take(i as int) =~= parts@);
    out
}

// ── Trimming ─────────────────────────────────────────────────────────────────

/// `s` without the white space at either end.
pub open spec fn trimmed(s: Seq<char>) -> Seq<char>
    decreases s.len(),
{
    if s.len() == 0 {
        s
    } else if white_space(s[0]) {
        trimmed(s.drop_first())
    } else if white_space(s.last()) {
        trimmed(s.drop_last())
    } else {
        s
    }
}

/// `s` without the white space at its start.
pub open spec fn trimmed_start(s: Seq<char>) -> Seq<char>
    decreases s.len(),
{
    if s.len() == 0 || !white_space(s[0]) {
        s
    } else {
        trimmed_start(s.drop_first())
    }
}

/// `s` without the white space at either end.
pub fn trim(s: &str) -> (r: String)
    ensures
        r@ == trimmed(s@),
{
    let v: Vec<char> = chars_of(s);
    let mut lo: usize = 0;
    let mut hi: usize = v.len();
    assert(s@.subrange(0, hi as int) =~= s@);
    while lo < hi && v[lo].is_whitespace()
        invariant
            v@ == s@,
            lo <= hi == v@.len(),
            trimmed(s@.subrange(lo as int, hi as int)) == trimmed(s@),
        decreases hi - lo,
    {
        assert(s@.subrange(lo as int, hi as int).drop_first() =~= s@.subrange(lo + 1, hi as int));
        lo += 1;
    }
    while lo < hi && v[hi - 1].is_whitespace()
        invariant
            v@ == s@,
            lo <= hi <= v@.len(),
            lo < hi ==> !white_space(v@[lo as int]),
            trimmed(s@.subrange(lo as int, hi as int)) == trimmed(s@),
        decreases hi - lo,
    {
        assert(s@.subrange(lo as int, hi as int).drop_last() =~= s@.subrange(lo as int, hi - 1));
        hi -= 1;
    }
    string_of(&v, lo, hi)
}

/// `s` without the white space at its start.
pub fn trim_start(s: &str) -> (r: String)
    ensures
        r@ == trimmed_start(s@),
{
    let v: Vec<char> = chars_of(s);
    let mut lo: usize = 0;
    assert(s@.skip(0) =~= s@);
    while lo < v.len() && v[lo].is_whitespace()
        invariant
            v@ == s@,
            lo <= v@.len(),
            trimmed_start(s@.skip(lo as int)) == trimmed_start(s@),
        decreases v@.len() - lo,
    {
        assert(s@.skip(lo as int).drop_first() =~= s@.skip(lo + 1));
        lo += 1;
    }
    assert(s@.skip(lo as int) =~= s@.subrange(lo as int, s@.len() as int));
    string_of(&v, lo, v.len())
}

// ── Search ───────────────────────────────────────────────────────────────────

/// Whether `pat` stands in `s` at index `i`.
pub open spec fn occurs_at(s: Seq<char>, pat: Seq<char>, i: int) -> bool {
    0 <= i && i + pat.len() <= s.len() && s.subrange(i, i + pat.len()) == pat
}

/// Whether `pat` stands anywhere in `s`.
pub open spec fn contains_text(s: Seq<char>, pat: Seq<char>) -> bool {
    exists|i: int| occurs_at(s, pat, i)
}

fn occurs(v: &Vec<char>, pat: &Vec<char>, at: usize) -> (r: bool)
    requires
        at <= v@.len(),
    ensures
        r == occurs_at(v@, pat@, at as int),
{
    if pat.len() > v.len() - at {
        return false;
    }
    let mut k: usize = 0;
    while k < pat.len()
        invariant
            k <= pat@.len(),
            at + pat@.len() <= v.len(),
            forall|j: int| 0 <= j < k ==> v@[at + j] == pat@[j],
        decreases pat@.len() - k,
    {
        if v[at + k] != pat[k] {
            assert(v@.subrange(at as int, at + pat@.len())[k as int] != pat@[k as int]);
            return false;
        }
        k += 1;
    }
    assert(v@.subrange(at as int, at + pat@.len()) =~= pat@);
    true
}

/// Whether `pat` stands anywhere in `s`.
pub fn contains(s: &str, pat: &str) -> (r: bool)
    ensures
        r == contains_text(s@, pat@),
{
    let v: Vec<char> = chars_of(s);
    let p: Vec<char> = chars_of(pat);
    let mut i: usize = 0;
    while i < v.len()
        invariant
            v@ == s@,
            p@ == pat@,
            i <= v@.len(),
            forall|j: int| 0 <= j < i ==> !occurs_at(s@, pat@, j),
        decreases v@.len() - i,
    {
        if occurs(&v, &p, i) {
            return true;
        }
        i += 1;
    }
    let last: bool = occurs(&v, &p, i);
    proof {
        if contains_text(s@, pat@) {
            let w = choose|w: int| occurs_at(s@, pat@, w);
            assert(w == i);
        }
    }
    last
}

/// Whether `s` begins with `pat`.
pub fn starts_with(s: &str, pat: &str) -> (r: bool)
    ensures
        r == occurs_at(s@, pat@, 0),
{
    let v: Vec<char> = chars_of(s);
    let p: Vec<char> = chars_of(pat);
    occurs(&v, &p, 0)
}

/// `s` with each occurrence of `from`, taken from the left without overlap,
/// replaced by `to`.
pub open spec fn replaced(s: Seq<char>, from: Seq<char>, to: Seq<char>) -> Seq<char>
    decreases s.len(),
{
    if from.len() == 0 || s.len() == 0 {
        s
    } else if occurs_at(s, from, 0) {
        to + replaced(s.skip(from.len() as int), from, to)
    } else {
        seq![s[0]] + replaced(s.drop_first(), from, to)
    }
}

/// `s` with each occurrence of `from` replaced by `to`.
pub fn replace(s: &str, from: &str, to: &str) -> (r: String)
    requires
        from@.len() > 0,
    ensures
        r@ == replaced(s@, from@, to@),
{
    let v: Vec<char> = chars_of(s);
    let p: Vec<char> = chars_of(from);
    let mut out: String = String::new();
    let mut i: usize = 0;
    assert(s@.skip(0) =~= s@);
    assert(out@ + replaced(s@, from@, to@) =~= replaced(s@, from@, to@));
    while i < v.len()
        invariant
            v@ == s@,
            p@ == from@,
            from@.len() > 0,
            i <= v@.len(),
            out@ + replaced(s@.skip(i as int), from@, to@) == replaced(s@, from@, to@),
        decreases v@.len() - i,
    {
        let ghost rest = s@.skip(i as int);
        let ghost before = out@;
        let hit: bool = occurs(&v, &p, i);
        proof {
            if i + from@.len() <= s@.len() {
                assert(rest.subrange(0, from@.len() as int) =~= s@.subrange(
                    i as int,
                    i + from@.len(),
                ));
            }
        }
        if hit {
            out.append(to);
            assert(rest.skip(from@.len() as int) =~= s@.skip(i + from@.len()));
            i += p.len();
            assert(before + (to@ + replaced(s@.skip(i as int), from@, to@)) =~= out@ + replaced(
                s@.skip(i as int),
                from@,
                to@,
            ));
        } else {
            out.push(v[i]);
            assert(rest.drop_first() =~= s@.skip(i + 1));
            i += 1;
            assert(before + (seq![rest[0]] + replaced(s@.skip(i as int), from@, to@)) =~= out@
                + replaced(s@.skip(i as int), from@, to@));
        }
    }
    assert(s@.skip(i as int) =~= Seq::<char>::empty());
    assert(out@ + replaced(s@.skip(i as int), from@, to@) =~= out@);
    out
}

// ── Order ────────────────────────────────────────────────────────────────────

/// Lexicographic order by code point, which is also the order of the UTF-8 bytes.
pub open spec fn text_less(a: Seq<char>, b: Seq<char>) -> bool
    decreases a.len(),
{
    if b.len() == 0 {
        false
    } else if a.len() == 0 {
        true
    } else if a[0] != b[0] {
        (a[0] as int) < (b[0] as int)
    } else {
        text_less(a.drop_first(), b.drop_first())
    }
}

/// Whether `a` comes before `b`.
pub fn less(a: &str, b: &str) -> (r: bool)
    ensures
        r == text_less(a@, b@),
{
    let x: Vec<char> = chars_of(a);
    let y: Vec<char> = chars_of(b);
    let mut i: usize = 0;
    assert(a@.skip(0) =~= a@);
    assert(b@.skip(0) =~= b@);
    while i < x.len() && i < y.len()
        invariant
            x@ == a@,
            y@ == b@,
            i <= x@.len(),
            i <= y@.len(),
            text_less(a@, b@) == text_less(a@.skip(i as int), b@.skip(i as int)),
        decreases x@.len() - i,
    {
        if x[i] != y[i] {
            return x[i] < y[i];
        }
        assert(a@.skip(i as int).drop_first() =~= a@.skip(i + 1));
        assert(b@.skip(i as int).drop_first() =~= b@.skip(i + 1));
        i += 1;
    }
    i < y.len()
}

/// The order is irreflexive.
pub proof fn lemma_less_irreflexive(a: Seq<char>)
    ensures
        !text_less(a, a),
    decreases a.len(),
{
    if a.len() > 0 {
        lemma_less_irreflexive(a.drop_first());
    }
}

/// The order is transitive.
pub proof fn lemma_less_transitive(a: Seq<char>, b: Seq<char>, c: Seq<char>)
    requires
        text_less(a, b),
        text_less(b, c),
    ensures
        text_less(a, c),
    decreases a.len(),
{
    if a.len() > 0 && a[0] == b[0] && b[0] == c[0] {
        lemma_less_transitive(a.drop_first(), b.drop_first(), c.drop_first());
    }
}

/// Of two different texts one comes before the other.
pub proof fn lemma_less_total(a: Seq<char>, b: Seq<char>)
    ensures
        a == b || text_less(a, b) || text_less(b, a),
    decreases a.len(),
{
    if a.len() == 0 && b.len() == 0 {
        assert(a =~= b);
    } else if a.len() > 0 && b.len() > 0 && a[0] == b[0] {
        lemma_less_total(a.drop_first(), b.drop_first());
        if a.drop_first() == b.drop_first() {
            assert(seq![a[0]] + a.drop_first() =~= a);
            assert(seq![b[0]] + b.drop_first() =~= b);
        }
    } else if a.len() > 0 && b.len() > 0 {
        assert((a[0] as int) != (b[0] as int));
    }
}

// ── Case ─────────────────────────────────────────────────────────────────────

/// An ASCII capital in lower case; any other character unchanged.
pub open spec fn ascii_lower(c: char) -> char {
    if 'A' <= c <= 'Z' {
        (c as u32 + 32) as char
    } else {
        c
    }
}

/// Equality up to the case of ASCII letters.
pub open spec fn same_ignoring_case(a: Seq<char>, b: Seq<char>) -> bool {
    a.map_values(|c: char| ascii_lower(c)) == b.map_values(|c: char| ascii_lower(c))
}

fn lower(c: char) -> (r: u32)
    ensures
        r == ascii_lower(c) as u32,
{
    if 'A' <= c && c <= 'Z' {
        c as u32 + 32
    } else {
        c as u32
    }
}

/// Whether `a` and `b` are equal up to the case of ASCII letters.
pub fn eq_ignore_case(a: &str, b: &str) -> (r: bool)
    ensures
        r == same_ignoring_case(a@, b@),
{
    let x: Vec<char> = chars_of(a);
    let y: Vec<char> = chars_of(b);
    let ghost la = a@.map_values(|c: char| ascii_lower(c));
    let ghost lb = b@.map_values(|c: char| ascii_lower(c));
    if x.len() != y.len() {
        assert(la.len() != lb.len());
        return false;
    }
    let mut i: usize = 0;
    while i < x.len()
        invariant
            x@ == a@,
            y@ == b@,
            x@.len() == y@.len(),
            i <= x@.len(),
            la == a@.map_values(|c: char| ascii_lower(c)),
            lb == b@.map_values(|c: char| ascii_lower(c)),
            forall|k: int| 0 <= k < i ==> la[k] == lb[k],
        decreases x@.len() - i,
    {
        if lower(x[i]) != lower(y[i]) {
            assert(la[i as int] != lb[i as int]);
            return false;
        }
        i += 1;
    }
    assert(la =~= lb);
    true
}

// ── Reading numbers ──────────────────────────────────────────────────────────

/// The number that decimal digits stand for; nothing where another character
/// stands among them.
pub open spec fn digits_value(s: Seq<char>) -> Option<nat>
    decreases s.len(),
{
    if s.len() == 0 {
        Some(0)
    } else {
        match digits_value(s.drop_last()) {
            Some(n) if '0' <= s.last() <= '9' => Some(10 * n + (s.last() as u32 - 48) as nat),
            _ => None,
        }
    }
}

/// The number that a non-empty run of digits, after an optional plus sign,
/// stands for.
pub open spec fn unsigned_value(s: Seq<char>) -> Option<nat> {
    if s.len() > 0 && s[0] == '+' {
        if s.len() > 1 {
            digits_value(s.skip(1))
        } else {
            None
        }
    } else if s.len() > 0 {
        digits_value(s)
    } else {
        None
    }
}

/// The 64-bit number that a text stands for.
pub open spec fn read_u64(s: Seq<char>) -> Option<u64> {
    match unsigned_value(s) {
        Some(n) if n <= u64::MAX => Some(n as u64),
        _ => None,
    }
}

/// The signed 64-bit number that a text stands for.
pub open spec fn read_i64(s: Seq<char>) -> Option<i64> {
    if s.len() > 1 && s[0] == '-' {
        match digits_value(s.skip(1)) {
            Some(n) if n <= 9223372036854775808 => Some((-(n as int)) as i64),
            _ => None,
        }
    } else {
        match unsigned_value(s) {
            Some(n) if n <= i64::MAX => Some(n as i64),
            _ => None,
        }
    }
}

proof fn lemma_digits_prefix(s: Seq<char>, k: int)
    requires
        0 <= k <= s.len(),
    ensures
        digits_value(s) is Some ==> digits_value(s.take(k)) is Some && digits_value(s.take(k))->0
            <= digits_value(s)->0,
    decreases s.len() - k,
{
    if k < s.len() {
        lemma_digits_prefix(s, k + 1);
        assert(s.take(k + 1).drop_last() =~= s.take(k));
    } else {
        assert(s.take(k) =~= s);
    }
}

/// The value of the digits `v[from..]`, if it is below 2 to the 64th.
fn digits_from(v: &Vec<char>, from: usize) -> (r: Option<u64>)
    requires
        from <= v@.len(),
    ensures
        r == match digits_value(v@.skip(from as int)) {
            Some(n) if n <= u64::MAX => Some(n as u64),
            _ => None,
        },
{
    let ghost s = v@.skip(from as int);
    let mut n: u64 = 0;
    let mut i: usize = from;
    assert(s.take(0) =~= Seq::<char>::empty());
    while i < v.len()
        invariant
            from <= i <= v@.len(),
            s == v@.skip(from as int),
            digits_value(s.take(i - from)) == Some(n as nat),
        decreases v@.len() - i,
    {
        let c: char = v[i];
        let ghost k = i - from;
        assert(s.take(k + 1).drop_last() =~= s.take(k));
        assert(s.take(k + 1).last() == c);
        proof {
            lemma_digits_prefix(s, k + 1);
        }
        if !('0' <= c && c <= '9') {
            return None;
        }
        let d: u64 = c as u64 - 48;
        if n > (u64::MAX - d) / 10 {
            assert(10 * n + d > u64::MAX);
            return None;
        }
        n = 10 * n + d;
        i += 1;
    }
    assert(s.take(i - from) =~= s);
    Some(n)
}

/// The 64-bit number that a text stands for.
pub fn parse_u64(s: &str) -> (r: Option<u64>)
    ensures
        r == read_u64(s@),
{
    let v: Vec<char> = chars_of(s);
    if v.len() == 0 {
        return None;
    }
    if v[0] == '+' {
        if v.len() == 1 {
            return None;
        }
        return digits_from(&v, 1);
    }
    assert(v@.skip(0) =~= v@);
    digits_from(&v, 0)
}

/// The signed 64-bit number that a text stands for.
pub fn parse_i64(s: &str) -> (r: Option<i64>)
    ensures
        r == read_i64(s@),
{
    let v: Vec<char> = chars_of(s);
    if v.len() > 1 && v[0] == '-' {
        return match digits_from(&v, 1) {
            Some(n) => if n == 9223372036854775808 {
                Some(i64::MIN)
            } else if n < 9223372036854775808 {
                Some(-(n as i64))
            } else {
                None
            },
            None => None,
        };
    }
    match parse_u64(s) {
        Some(n) => if n <= i64::MAX as u64 {
            Some(n as i64)
        } else {
            None
        },
        None => None,
    }
}

/// The digits of a decimal text stand for its number.
pub proof fn lemma_dec_value(n: nat)
    ensures
        digits_value(dec(n)) == Some(n),
        dec(n).len() > 0,
        forall|i: int| 0 <= i < dec(n).len() ==> '0' <= #[trigger] dec(n)[i] <= '9',
    decreases n,
{
    if n < 10 {
        let s = seq![digit(n)];
        assert(s.drop_last() =~= Seq::<char>::empty());
        assert(digits_value(s.drop_last()) == Some(0nat));
        assert(dec(n) == s);
    } else {
        lemma_dec_value(n / 10);
        assert(dec(n).drop_last() =~= dec(n / 10));
    }
}

// ── Laws ─────────────────────────────────────────────────────────────────────

/// Where two texts first differ decides which comes first; a text comes before
/// those that it begins.
pub proof fn law_first_difference_decides(a: Seq<char>, b: Seq<char>, k: int)
    requires
        0 <= k <= a.len(),
        k <= b.len(),
        a.take(k) == b.take(k),
    ensures
        k < a.len() && k < b.len() && a[k] < b[k] ==> text_less(a, b) && !text_less(b, a),
        k == a.len() && k < b.len() ==> text_less(a, b) && !text_less(b, a),
        k == a.len() && k == b.len() ==> !text_less(a, b) && !text_less(b, a),
    decreases k,
{
    if k > 0 {
        assert(a[0] == a.take(k)[0] && b[0] == b.take(k)[0]);
        assert(a.drop_first().take(k - 1) =~= a.take(k).drop_first());
        assert(b.drop_first().take(k - 1) =~= b.take(k).drop_first());
        law_first_difference_decides(a.drop_first(), b.drop_first(), k - 1);
        assert(text_less(a, b) == text_less(a.drop_first(), b.drop_first()));
        assert(text_less(b, a) == text_less(b.drop_first(), a.drop_first()));
    }
}

/// Trimming takes white space off both ends, all of it and nothing else: what is
/// left stands at the position that is handed back.
pub proof fn law_trim_takes_white_space(s: Seq<char>) -> (from: int)
    ensures
        0 <= from,
        from + trimmed(s).len() <= s.len(),
        trimmed(s) == s.subrange(from, from + trimmed(s).len()),
        forall|i: int| 0 <= i < from ==> #[trigger] white_space(s[i]),
        forall|i: int|
            from + trimmed(s).len() <= i < s.len() ==> #[trigger] white_space(s[i]),
        trimmed(s).len() > 0 ==> !white_space(trimmed(s)[0]) && !white_space(trimmed(s).last()),
    decreases s.len(),
{
    if s.len() == 0 {
        0
    } else if white_space(s[0]) {
        let t = s.drop_first();
        let f = law_trim_takes_white_space(t);
        assert(trimmed(s) =~= s.subrange(f + 1, f + 1 + trimmed(s).len()));
        assert forall|i: int| 0 <= i < f + 1 implies #[trigger] white_space(s[i]) by {
            if i > 0 {
                assert(white_space(t[i - 1]));
            }
        }
        assert forall|i: int| f + 1 + trimmed(s).len() <= i < s.len() implies #[trigger] white_space(
            s[i],
        ) by {
            assert(white_space(t[i - 1]));
        }
        f + 1
    } else if white_space(s.last()) {
        let t = s.drop_last();
        let f = law_trim_takes_white_space(t);
        assert(trimmed(s) =~= s.subrange(f, f + trimmed(s).len()));
        assert forall|i: int| 0 <= i < f implies #[trigger] white_space(s[i]) by {
            assert(white_space(t[i]));
        }
        assert forall|i: int| f + trimmed(s).len() <= i < s.len() implies #[trigger] white_space(
            s[i],
        ) by {
            if i < s.len() - 1 {
                assert(white_space(t[i]));
            }
        }
        f
    } else {
        assert(trimmed(s) =~= s.subrange(0, s.len() as int));
        0
    }
}

/// Trimming the start takes the white space that a text begins with, and nothing
/// else.
pub proof fn law_trim_start_takes_white_space(s: Seq<char>)
    ensures
        trimmed_start(s).len() <= s.len(),
        trimmed_start(s) == s.skip(s.len() - trimmed_start(s).len()),
        forall|i: int|
            0 <= i < s.len() - trimmed_start(s).len() ==> #[trigger] white_space(s[i]),
        trimmed_start(s).len() > 0 ==> !white_space(trimmed_start(s)[0]),
    decreases s.len(),
{
    if s.len() > 0 && white_space(s[0]) {
        let t = s.drop_first();
        law_trim_start_takes_white_space(t);
        assert(trimmed_start(s) =~= s.skip(s.len() - trimmed_start(s).len()));
        assert forall|i: int| 0 <= i < s.len() - trimmed_start(s).len() implies #[trigger] white_space(
            s[i],
        ) by {
            if i > 0 {
                assert(white_space(t[i - 1]));
            }
        }
    } else {
        assert(s.skip(0) =~= s);
    }
}

/// A line ends at its line feed; the rest is split in the same way. A carriage
/// return before the line feed is left out, one at the very end is not.
pub proof fn law_lines_end_at_line_feeds(l: Seq<char>, rest: Seq<char>)
    requires
        !l.contains('\n'),
    ensures
        lines_of(l + seq!['\n'] + rest) == seq![without_cr(l)] + lines_of(rest),
        l.len() > 0 ==> lines_of(l) == seq![l],
        lines_of(Seq::empty()) == Seq::<Seq<char>>::empty(),
        without_cr(l.push('\r')) == l,
        l.len() > 0 && l.last() != '\r' ==> without_cr(l) == l,
{
    let s = l + seq!['\n'] + rest;
    lemma_index_from(s, '\n', 0);
    let i = index_from(s, '\n', 0);
    assert(s[l.len() as int] == '\n');
    assert(i <= l.len());
    if i < l.len() {
        assert(s[i] == l[i]);
        assert(l.contains('\n'));
    }
    assert(s.take(i) =~= l);
    assert(s.skip(i + 1) =~= rest);
    if l.len() > 0 {
        lemma_index_from(l, '\n', 0);
        let j = index_from(l, '\n', 0);
        if j < l.len() {
            assert(l.contains('\n'));
        }
    }
    assert(l.push('\r').drop_last() =~= l);
}

/// Joined parts stand one after the other with the separator between them.
pub proof fn law_joined_one_more(parts: Seq<Seq<char>>, p: Seq<char>, sep: Seq<char>)
    ensures
        joined(Seq::empty(), sep) == Seq::<char>::empty(),
        joined(seq![p], sep) == p,
        parts.len() > 0 ==> joined(parts.push(p), sep) == joined(parts, sep) + sep + p,
{
    assert(parts.push(p).drop_last() =~= parts);
}

/// The first place where the text occurs is replaced, and so is the rest; where
/// it does not occur nothing changes.
pub proof fn law_first_occurrence_is_replaced(
    a: Seq<char>,
    b: Seq<char>,
    from: Seq<char>,
    to: Seq<char>,
)
    requires
        from.len() > 0,
        forall|i: int| 0 <= i < a.len() ==> !#[trigger] occurs_at(a + from + b, from, i),
    ensures
        replaced(a + from + b, from, to) == a + to + replaced(b, from, to),
    decreases a.len(),
{
    let s = a + from + b;
    if a.len() == 0 {
        assert(s.subrange(0, from.len() as int) =~= from);
        assert(occurs_at(s, from, 0));
        assert(s.skip(from.len() as int) =~= b);
        assert(a + to + replaced(b, from, to) =~= to + replaced(b, from, to));
    } else {
        assert(!occurs_at(s, from, 0));
        let t = a.drop_first();
        assert(s.drop_first() =~= t + from + b);
        assert forall|i: int| 0 <= i < t.len() implies !#[trigger] occurs_at(
            t + from + b,
            from,
            i,
        ) by {
            assert(!occurs_at(s, from, i + 1));
            assert(s.subrange(i + 1, i + 1 + from.len()) =~= (t + from + b).subrange(
                i,
                i + from.len(),
            ));
        }
        law_first_occurrence_is_replaced(t, b, from, to);
        assert(seq![a[0]] + (t + to + replaced(b, from, to)) =~= a + to + replaced(b, from, to));
    }
}

/// A text in which another does not occur is left as it is.
pub proof fn law_nothing_to_replace(s: Seq<char>, from: Seq<char>, to: Seq<char>)
    requires
        from.len() > 0,
        !contains_text(s, from),
    ensures
        replaced(s, from, to) == s,
    decreases s.len(),
{
    if s.len() > 0 {
        assert(!occurs_at(s, from, 0));
        let t = s.drop_first();
        assert forall|i: int| !#[trigger] occurs_at(t, from, i) by {
            if occurs_at(t, from, i) {
                assert(s.subrange(i + 1, i + 1 + from.len()) =~= t.subrange(i, i + from.len()));
                assert(occurs_at(s, from, i + 1));
            }
        }
        law_nothing_to_replace(t, from, to);
        assert(seq![s[0]] + t =~= s);
    }
}

/// A text occurs in every text that is built round it.
pub proof fn law_occurs_in_the_middle(a: Seq<char>, pat: Seq<char>, b: Seq<char>)
    ensures
        occurs_at(a + pat + b, pat, a.len() as int),
        contains_text(a + pat + b, pat),
        occurs_at(pat + b, pat, 0),
        pat.len() > a.len() ==> !contains_text(a, pat),
{
    let s = a + pat + b;
    assert(s.subrange(a.len() as int, (a.len() + pat.len()) as int) =~= pat);
    assert(occurs_at(s, pat, a.len() as int));
    assert((pat + b).subrange(0, pat.len() as int) =~= pat);
}

/// A number is written without leading zeroes, and is read back as it was; signs
/// are read too.
pub proof fn law_numbers_round_trip(n: u64, i: i64)
    ensures
        read_u64(dec(n as nat)) == Some(n),
        read_u64(seq!['+'] + dec(n as nat)) == Some(n),
        read_i64(dec_int(i as int)) == Some(i),
        n > 0 ==> dec(n as nat)[0] != '0',
        i < 0 ==> dec_int(i as int)[0] == '-',
        read_u64(Seq::empty()) is None,
        read_i64(Seq::empty()) is None,
        read_u64(seq!['+']) is None,
        read_u64(seq!['-'] + dec(n as nat)) is None,
{
    lemma_dec_value(n as nat);
    lemma_dec_start(n as nat);
    assert((seq!['+'] + dec(n as nat)).skip(1) =~= dec(n as nat));
    let m = (if i < 0 {
        -(i as int)
    } else {
        i as int
    }) as nat;
    lemma_dec_value(m);
    if i < 0 {
        assert((seq!['-'] + dec(m)).skip(1) =~= dec(m));
    } else {
        assert('0' <= dec(m)[0] <= '9');
    }
    assert('0' <= dec(n as nat)[0] <= '9');
    let s = seq!['-'] + dec(n as nat);
    lemma_digits_prefix(s, 1);
    assert(s.take(1) =~= seq!['-']);
    assert(seq!['-'].drop_last() =~= Seq::<char>::empty());
    assert(seq!['-'].last() == '-');
}

proof fn lemma_dec_start(n: nat)
    ensures
        n > 0 ==> dec(n)[0] != '0',
    decreases n,
{
    if n >= 10 {
        lemma_dec_start(n / 10);
        lemma_dec_value(n / 10);
    }
}

/// A number is read digit by digit; any other character makes it no number.
pub proof fn law_one_more_digit(s: Seq<char>, c: char)
    ensures
        '0' <= c <= '9' && digits_value(s) is Some ==> digits_value(s.push(c)) == Some(
            10 * digits_value(s)->0 + (c as u32 - '0' as u32) as nat,
        ),
        !('0' <= c <= '9') ==> digits_value(s.push(c)) is None,
        digits_value(s) is None ==> digits_value(s.push(c)) is None,
{
    assert(s.push(c).drop_last() =~= s);
}

/// A padded text begins with the text, is as wide as was asked or as the text,
/// and holds nothing but spaces after it.
pub proof fn law_padding(s: Seq<char>, width: nat)
    ensures
        padded_right(s, width).take(s.len() as int) == s,
        s.len() <= width ==> padded_right(s, width).len() == width,
        s.len() >= width ==> padded_right(s, width) == s,
        forall|i: int|
            s.len() <= i < padded_right(s, width).len() ==> #[trigger] padded_right(s, width)[i]
                == ' ',
{
    assert(padded_right(s, width).take(s.len() as int) =~= s);
}

/// One time more is one copy more, at either end.
pub proof fn law_repeated_once_more(t: Seq<char>, n: nat)
    ensures
        repeated(t, 0).len() == 0,
        repeated(t, 1) == t,
        repeated(t, n + 1) == t + repeated(t, n),
        repeated(t, n + 1) == repeated(t, n) + t,
    decreases n,
{
    assert(repeated(t, 0) =~= Seq::<char>::empty());
    assert(repeated(t, 1) =~= t);
    if n > 0 {
        law_repeated_once_more(t, (n - 1) as nat);
        assert(repeated(t, n + 1) =~= t + repeated(t, n));
    } else {
        assert(t + repeated(t, 0) =~= t);
    }
}

/// Case is ignored for the letters of ASCII alone.
pub proof fn law_case_is_ignored(a: Seq<char>, b: Seq<char>)
    ensures
        same_ignoring_case(a, a),
        same_ignoring_case(a, b) ==> a.len() == b.len(),
        same_ignoring_case(a, b) <==> a.len() == b.len() && forall|i: int|
            0 <= i < a.len() ==> {
                ||| #[trigger] a[i] == b[i]
                ||| 'A' <= a[i] <= 'Z' && b[i] as u32 == a[i] as u32 + 32
                ||| 'A' <= b[i] <= 'Z' && a[i] as u32 == b[i] as u32 + 32
            },
{
    let f = |c: char| ascii_lower(c);
    if same_ignoring_case(a, b) {
        assert(a.len() == a.map_values(f).len());
        assert(b.len() == b.map_values(f).len());
        assert forall|i: int| 0 <= i < a.len() implies {
            ||| #[trigger] a[i] == b[i]
            ||| 'A' <= a[i] <= 'Z' && b[i] as u32 == a[i] as u32 + 32
            ||| 'A' <= b[i] <= 'Z' && a[i] as u32 == b[i] as u32 + 32
        } by {
            assert(a.map_values(f)[i] == b.map_values(f)[i]);
        }
    }
    if a.len() == b.len() && forall|i: int|
        0 <= i < a.len() ==> {
            ||| #[trigger] a[i] == b[i]
            ||| 'A' <= a[i] <= 'Z' && b[i] as u32 == a[i] as u32 + 32
            ||| 'A' <= b[i] <= 'Z' && a[i] as u32 == b[i] as u32 + 32
        } {
        assert(a.map_values(f) =~= b.map_values(f));
    }
}

/// The first bytes of a text are whole characters from its beginning.
pub proof fn law_first_bytes_are_a_beginning(s: Seq<char>, n: nat)
    ensures
        within_bytes(s, n).len() <= s.len(),
        within_bytes(s, n) == s.take(within_bytes(s, n).len() as int),
        within_bytes(s, n).len() <= n <= 4 * within_bytes(s, n).len() + 3 || within_bytes(s, n)
            == s,
    decreases s.len(),
{
    if s.len() > 0 && char_width(s[0]) <= n {
        let w = char_width(s[0]);
        law_first_bytes_are_a_beginning(s.skip(1), (n - w) as nat);
        let r = within_bytes(s.skip(1), (n - w) as nat);
        assert(within_bytes(s, n) =~= s.take(within_bytes(s, n).len() as int)) by {
            assert(within_bytes(s, n) =~= seq![s[0]] + r);
            assert(r == s.skip(1).take(r.len() as int));
        }
        if r == s.skip(1) {
            assert(seq![s[0]] + s.skip(1) =~= s);
        }
    } else {
        assert(s.take(0) =~= Seq::<char>::empty());
    }
}

/// How many bytes a character takes.
pub proof fn law_character_bytes(c: char)
    ensures
        char_width(c) == 1 <==> c as u32 <= 0x7f,
        char_width(c) == 2 <==> 0x80 <= c as u32 <= 0x7ff,
        char_width(c) == 3 <==> 0x800 <= c as u32 <= 0xffff,
        char_width(c) == 4 <==> 0x10000 <= c as u32,
{
}

/// A text that is there is taken, another one only where it is missing.
pub proof fn law_missing_texts(s: String, default: Seq<char>)
    ensures
        text_or(Some(s), default) == s@,
        text_or(None, default) == default,
        opt_text(Some(s)) == Some(s@),
        opt_text(None) is None,
{
}

} // verus!
