//! Character-sequence helpers shared by the parsers and emitters: whitespace
//! trimming, ASCII case folding, decimal rendering and parsing, and the small
//! string operations the rest of the crate builds on.
use vstd::prelude::*;

verus! {

// ── Character classes ───────────────────────────────────────────────────────

/// Unicode `White_Space`, exactly the set that `char::is_whitespace` tests.
pub open spec fn is_ws(c: char) -> bool {
    let u = c as u32;
    ||| (0x09 <= u && u <= 0x0d)
    ||| u == 0x20
    ||| u == 0x85
    ||| u == 0xa0
    ||| u == 0x1680
    ||| (0x2000 <= u && u <= 0x200a)
    ||| u == 0x2028
    ||| u == 0x2029
    ||| u == 0x202f
    ||| u == 0x205f
    ||| u == 0x3000
}

pub fn is_whitespace(c: char) -> (r: bool)
    ensures
        r == is_ws(c),
{
    let u = c as u32;
    (0x09 <= u && u <= 0x0d) || u == 0x20 || u == 0x85 || u == 0xa0 || u == 0x1680 || (0x2000
        <= u && u <= 0x200a) || u == 0x2028 || u == 0x2029 || u == 0x202f || u == 0x205f || u
        == 0x3000
}

pub open spec fn is_digit(c: char) -> bool {
    '0' <= c && c <= '9'
}

pub open spec fn digit_of(c: char) -> nat {
    (c as u32 - '0' as u32) as nat
}

pub open spec fn is_hex(c: char) -> bool {
    ||| is_digit(c)
    ||| ('a' <= c && c <= 'f')
    ||| ('A' <= c && c <= 'F')
}

pub open spec fn hex_of(c: char) -> nat {
    if is_digit(c) {
        digit_of(c)
    } else if 'a' <= c && c <= 'f' {
        (c as u32 - 'a' as u32 + 10) as nat
    } else {
        (c as u32 - 'A' as u32 + 10) as nat
    }
}

pub fn hex_value(c: char) -> (r: Option<u32>)
    ensures
        is_hex(c) ==> r == Some(hex_of(c) as u32),
        !is_hex(c) ==> r is None,
        r matches Some(x) ==> x < 16,
{
    if '0' <= c && c <= '9' {
        Some(c as u32 - '0' as u32)
    } else if 'a' <= c && c <= 'f' {
        Some(c as u32 - 'a' as u32 + 10)
    } else if 'A' <= c && c <= 'F' {
        Some(c as u32 - 'A' as u32 + 10)
    } else {
        None
    }
}

/// ASCII-only lowercase mapping of one character.
pub open spec fn ascii_lower(c: char) -> char {
    if 'A' <= c && c <= 'Z' {
        ((c as u32) + 32) as char
    } else {
        c
    }
}

/// ASCII-only uppercase mapping of one character.
pub open spec fn ascii_upper(c: char) -> char {
    if 'a' <= c && c <= 'z' {
        ((c as u32) - 32) as char
    } else {
        c
    }
}

pub open spec fn all_ascii(s: Seq<char>) -> bool {
    forall|i: int| 0 <= i < s.len() ==> (s[i] as u32) < 128
}

// ── Strings as character vectors ────────────────────────────────────────────

#[verifier::external_body]
pub fn push_char(s: &mut String, c: char)
    ensures
        final(s)@ == old(s)@.push(c),
{
    s.push(c);
}

/// The characters of a string slice.
pub fn chars_of(s: &str) -> (v: Vec<char>)
    ensures
        v@ == s@,
{
    let mut v: Vec<char> = Vec::new();
    for c in it: s.chars()
        invariant
            v@ == it.seq().take(it.index() as int),
    {
        v.push(c);
    }
    v
}

/// Append a character sequence to a string.
pub fn push_chars(out: &mut String, v: &Vec<char>)
    ensures
        final(out)@ == old(out)@ + v@,
{
    let n = v.len();
    for i in 0..n
        invariant
            n == v@.len(),
            out@ == old(out)@ + v@.take(i as int),
    {
        push_char(out, v[i]);
        assert(v@.take(i + 1) =~= v@.take(i as int).push(v@[i as int]));
    }
    assert(v@.take(n as int) =~= v@);
}

/// A string made of the given characters.
pub fn string_of(v: &Vec<char>) -> (s: String)
    ensures
        s@ == v@,
{
    let mut s = String::new();
    push_chars(&mut s, v);
    s
}

/// Character-wise equality of two strings.
pub fn str_eq(a: &str, b: &str) -> (r: bool)
    ensures
        r == (a@ == b@),
{
    let va = chars_of(a);
    let vb = chars_of(b);
    seq_eq(&va, &vb)
}

pub fn seq_eq(va: &Vec<char>, vb: &Vec<char>) -> (r: bool)
    ensures
        r == (va@ == vb@),
{
    if va.len() != vb.len() {
        return false;
    }
    let n = va.len();
    for i in 0..n
        invariant
            n == va@.len(),
            n == vb@.len(),
            forall|k: int| 0 <= k < i ==> va@[k] == vb@[k],
    {
        if va[i] != vb[i] {
            return false;
        }
    }
    assert(va@ =~= vb@);
    true
}

/// Whether a string occurs (by content) in a list of strings.
pub fn contains_str(list: &Vec<String>, s: &str) -> (r: bool)
    ensures
        r == exists|i: int| 0 <= i < list@.len() && list@[i]@ == s@,
{
    let n = list.len();
    for i in 0..n
        invariant
            n == list@.len(),
            forall|k: int| 0 <= k < i ==> list@[k]@ != s@,
    {
        if str_eq(list[i].as_str(), s) {
            return true;
        }
    }
    false
}

/// Position of the first string equal (by content) to `s`.
pub fn position_str(list: &Vec<String>, s: &str) -> (r: Option<usize>)
    ensures
        r == first_index(list@.map_values(|x: String| x@), s@),
{
    let ghost names = list@.map_values(|x: String| x@);
    let n = list.len();
    for i in 0..n
        invariant
            n == list@.len(),
            names == list@.map_values(|x: String| x@),
            forall|k: int| 0 <= k < i ==> names[k] != s@,
    {
        if str_eq(list[i].as_str(), s) {
            proof {
                lemma_first_index_at(names, s@, i as int);
            }
            return Some(i);
        }
    }
    proof {
        lemma_first_index_none(names, s@);
    }
    None
}

/// Index of the first occurrence of `x` in `s`, if any.
pub open spec fn first_index<A>(s: Seq<A>, x: A) -> Option<usize> {
    if exists|i: int| 0 <= i < s.len() && s[i] == x {
        let i = choose|i: int|
            0 <= i < s.len() && s[i] == x && forall|k: int| 0 <= k < i ==> s[k] != x;
        Some(i as usize)
    } else {
        None
    }
}

pub proof fn lemma_first_index_at<A>(s: Seq<A>, x: A, i: int)
    requires
        0 <= i < s.len(),
        s[i] == x,
        forall|k: int| 0 <= k < i ==> s[k] != x,
        i <= usize::MAX,
    ensures
        first_index(s, x) == Some(i as usize),
{
    let j = choose|j: int|
        0 <= j < s.len() && s[j] == x && forall|k: int| 0 <= k < j ==> s[k] != x;
    assert(0 <= j < s.len() && s[j] == x && forall|k: int| 0 <= k < j ==> s[k] != x);
    if j < i {
        assert(s[j] != x);
    }
    if i < j {
        assert(s[i] != x);
    }
}

pub proof fn lemma_first_index_none<A>(s: Seq<A>, x: A)
    requires
        forall|k: int| 0 <= k < s.len() ==> s[k] != x,
    ensures
        first_index(s, x) is None,
{
}

// ── Trimming ────────────────────────────────────────────────────────────────

pub open spec fn trim_start(s: Seq<char>) -> Seq<char>
    decreases s.len(),
{
    if s.len() > 0 && is_ws(s[0]) {
        trim_start(s.drop_first())
    } else {
        s
    }
}

pub open spec fn trim_end(s: Seq<char>) -> Seq<char>
    decreases s.len(),
{
    if s.len() > 0 && is_ws(s.last()) {
        trim_end(s.drop_last())
    } else {
        s
    }
}

/// `str::trim`: leading and trailing whitespace removed.
pub open spec fn trim(s: Seq<char>) -> Seq<char> {
    trim_end(trim_start(s))
}

pub fn trim_chars(v: &Vec<char>) -> (r: Vec<char>)
    ensures
        r@ == trim(v@),
{
    let n = v.len();
    let mut i: usize = 0;
    assert(v@.skip(0) =~= v@);
    while i < n && is_whitespace(v[i])
        invariant
            n == v@.len(),
            i <= n,
            trim_start(v@) == trim_start(v@.skip(i as int)),
        decreases n - i,
    {
        assert(v@.skip(i as int).drop_first() =~= v@.skip(i + 1));
        i = i + 1;
    }
    assert(trim_start(v@) == v@.skip(i as int));
    let mut j: usize = n;
    while j > i && is_whitespace(v[j - 1])
        invariant
            n == v@.len(),
            i <= j <= n,
            trim_end(v@.skip(i as int)) == trim_end(v@.subrange(i as int, j as int)),
        decreases j - i,
    {
        assert(v@.subrange(i as int, j as int).drop_last() =~= v@.subrange(i as int, j - 1));
        j = j - 1;
    }
    if j == n {
        assert(v@.subrange(i as int, j as int) =~= v@.skip(i as int));
    }
    let mut r: Vec<char> = Vec::new();
    let mut k = i;
    while k < j
        invariant
            n == v@.len(),
            i <= k <= j <= n,
            r@ == v@.subrange(i as int, k as int),
        decreases j - k,
    {
        r.push(v[k]);
        assert(v@.subrange(i as int, k + 1) =~= v@.subrange(i as int, k as int).push(v@[k as int]));
        k = k + 1;
    }
    r
}

/// `str::trim` on a string slice, as characters.
pub fn trimmed(s: &str) -> (r: Vec<char>)
    ensures
        r@ == trim(s@),
{
    let v = chars_of(s);
    trim_chars(&v)
}

// ── Case folding ────────────────────────────────────────────────────────────

/// What `str::to_lowercase` returns for a string that holds a non-ASCII
/// character.
pub uninterp spec fn lowercase_beyond_ascii(s: Seq<char>) -> Seq<char>;

/// `str::to_lowercase`: on ASCII text, `A`-`Z` lowered and every other
/// character kept; on other text, the Unicode mapping the standard library
/// applies.
pub open spec fn lowercase(s: Seq<char>) -> Seq<char> {
    if all_ascii(s) {
        s.map_values(|c: char| ascii_lower(c))
    } else {
        lowercase_beyond_ascii(s)
    }
}

/// Calls `str::to_lowercase` (Unicode `Lowercase` mapping). The contract
/// states the fact the standard library documents plainly: on ASCII input it
/// lowercases `A`-`Z` and keeps every other character, one for one. For text
/// with a non-ASCII character it only names the result.
#[verifier::external_body]
pub fn to_lowercase_chars(v: &Vec<char>) -> (r: Vec<char>)
    ensures
        all_ascii(v@) ==> r@ == v@.map_values(|c: char| ascii_lower(c)),
        !all_ascii(v@) ==> r@ == lowercase_beyond_ascii(v@),
{
    v.iter().collect::<String>().to_lowercase().chars().collect()
}

/// Replace every `-` and space with `_`.
pub open spec fn dash_space_to_underscore(s: Seq<char>) -> Seq<char> {
    s.map_values(|c: char| if c == '-' || c == ' ' { '_' } else { c })
}

pub fn replace_dash_space(v: &Vec<char>) -> (r: Vec<char>)
    ensures
        r@ == dash_space_to_underscore(v@),
{
    let mut r: Vec<char> = Vec::new();
    let n = v.len();
    for i in 0..n
        invariant
            n == v@.len(),
            r@ == dash_space_to_underscore(v@.take(i as int)),
    {
        let c = v[i];
        r.push(if c == '-' || c == ' ' { '_' } else { c });
        assert(dash_space_to_underscore(v@.take(i + 1)) =~= dash_space_to_underscore(
            v@.take(i as int),
        ).push(if c == '-' || c == ' ' { '_' } else { c }));
    }
    assert(v@.take(n as int) =~= v@);
    r
}

/// The canonical lookup key shared by color names and arrange modes:
/// trimmed, lowercased, with `-` and spaces turned into `_`.
pub open spec fn canonical_key(s: Seq<char>) -> Seq<char> {
    dash_space_to_underscore(lowercase(trim(s)))
}

pub fn canonical_key_of(s: &str) -> (r: Vec<char>)
    ensures
        r@ == canonical_key(s@),
{
    let t = trimmed(s);
    let l = to_lowercase_chars(&t);
    replace_dash_space(&l)
}

// ── Decimal rendering ───────────────────────────────────────────────────────

pub open spec fn digit_char(d: nat) -> char {
    if d == 0 {
        '0'
    } else if d == 1 {
        '1'
    } else if d == 2 {
        '2'
    } else if d == 3 {
        '3'
    } else if d == 4 {
        '4'
    } else if d == 5 {
        '5'
    } else if d == 6 {
        '6'
    } else if d == 7 {
        '7'
    } else if d == 8 {
        '8'
    } else {
        '9'
    }
}

/// Decimal digits of a natural number, most significant first, no padding.
pub open spec fn dec(n: nat) -> Seq<char>
    decreases n,
{
    if n < 10 {
        seq![digit_char(n)]
    } else {
        dec(n / 10).push(digit_char(n % 10))
    }
}

/// Decimal rendering of an integer (`-` before negative values), as `to_string`.
pub open spec fn dec_int(i: int) -> Seq<char> {
    if i < 0 {
        seq!['-'] + dec((-i) as nat)
    } else {
        dec(i as nat)
    }
}

fn digit(d: u64) -> (c: char)
    requires
        d < 10,
    ensures
        c == digit_char(d as nat),
{
    if d == 0 {
        '0'
    } else if d == 1 {
        '1'
    } else if d == 2 {
        '2'
    } else if d == 3 {
        '3'
    } else if d == 4 {
        '4'
    } else if d == 5 {
        '5'
    } else if d == 6 {
        '6'
    } else if d == 7 {
        '7'
    } else if d == 8 {
        '8'
    } else {
        '9'
    }
}

pub fn push_dec(out: &mut String, n: u64)
    ensures
        final(out)@ == old(out)@ + dec(n as nat),
    decreases n,
{
    if n >= 10 {
        push_dec(out, n / 10);
    }
    push_char(out, digit(n % 10));
    proof {
        if n < 10 {
            assert(dec(n as nat) == seq![digit_char(n as nat)]);
        }
    }
}

pub fn push_int(out: &mut String, n: i64)
    ensures
        final(out)@ == old(out)@ + dec_int(n as int),
{
    if n < 0 {
        push_char(out, '-');
        let m: u64 = (0i128 - (n as i128)) as u64;
        push_dec(out, m);
        assert(old(out)@.push('-') + dec(m as nat) =~= old(out)@ + (seq!['-'] + dec(m as nat)));
    } else {
        push_dec(out, n as u64);
    }
}

pub fn u64_string(n: u64) -> (s: String)
    ensures
        s@ == dec(n as nat),
{
    let mut s = String::new();
    push_dec(&mut s, n);
    assert(s@ =~= dec(n as nat));
    s
}

pub fn i64_string(n: i64) -> (s: String)
    ensures
        s@ == dec_int(n as int),
{
    let mut s = String::new();
    push_int(&mut s, n);
    assert(s@ =~= dec_int(n as int));
    s
}

// ── Decimal parsing ─────────────────────────────────────────────────────────

pub open spec fn all_digits(s: Seq<char>) -> bool {
    forall|i: int| 0 <= i < s.len() ==> is_digit(s[i])
}

/// The value of a run of decimal digits.
pub open spec fn digits_val(s: Seq<char>) -> nat
    decreases s.len(),
{
    if s.len() == 0 {
        0
    } else {
        digits_val(s.drop_last()) * 10 + digit_of(s.last())
    }
}

/// The body of an integer literal after an optional leading sign.
pub open spec fn unsigned_body(s: Seq<char>) -> Seq<char> {
    if s.len() > 0 && s[0] == '+' {
        s.drop_first()
    } else {
        s
    }
}

/// `str::parse` for an unsigned integer type whose largest value is `max`:
/// an optional `+`, then at least one ASCII digit, and a value that fits.
pub open spec fn parse_unsigned(s: Seq<char>, max: nat) -> Option<nat> {
    let body = unsigned_body(s);
    if body.len() > 0 && all_digits(body) && digits_val(body) <= max {
        Some(digits_val(body))
    } else {
        None
    }
}

pub open spec fn signed_body(s: Seq<char>) -> Seq<char> {
    if s.len() > 0 && (s[0] == '+' || s[0] == '-') {
        s.drop_first()
    } else {
        s
    }
}

/// `str::parse::<i64>`: an optional sign, then at least one ASCII digit, and a
/// value inside the `i64` range.
pub open spec fn parse_i64(s: Seq<char>) -> Option<int> {
    let body = signed_body(s);
    let neg = s.len() > 0 && s[0] == '-';
    if body.len() > 0 && all_digits(body) {
        let v = digits_val(body);
        if neg && v <= 0x8000_0000_0000_0000 {
            Some(-v)
        } else if !neg && v <= 0x7fff_ffff_ffff_ffff {
            Some(v as int)
        } else {
            None
        }
    } else {
        None
    }
}

/// Value of `v[start..end]` when it is a non-empty run of digits not above `cap`.
fn digits_capped(v: &Vec<char>, start: usize, end: usize, cap: u64) -> (r: Option<u64>)
    requires
        start <= end <= v@.len(),
    ensures
        ({
            let s = v@.subrange(start as int, end as int);
            if s.len() > 0 && all_digits(s) && digits_val(s) <= cap {
                r == Some(digits_val(s) as u64)
            } else {
                r is None
            }
        }),
{
    if start == end {
        return None;
    }
    let mut acc: u64 = 0;
    let mut over = false;
    let mut k = start;
    while k < end
        invariant
            start <= k <= end <= v@.len(),
            all_digits(v@.subrange(start as int, k as int)),
            !over ==> acc == digits_val(v@.subrange(start as int, k as int)) && acc <= cap,
            over ==> digits_val(v@.subrange(start as int, k as int)) > cap,
        decreases end - k,
    {
        let c = v[k];
        let ghost prev = v@.subrange(start as int, k as int);
        let ghost next = v@.subrange(start as int, k + 1);
        assert(next.drop_last() =~= prev);
        if !('0' <= c && c <= '9') {
            assert(!is_digit(v@.subrange(start as int, end as int)[k - start]));
            return None;
        }
        if !over {
            let d = (c as u32 - '0' as u32) as u128;
            let n: u128 = acc as u128 * 10 + d;
            if n > cap as u128 {
                over = true;
            } else {
                acc = n as u64;
            }
        }
        k = k + 1;
    }
    if over {
        None
    } else {
        Some(acc)
    }
}

/// `str::parse` for an unsigned integer bounded by `max`, on `v[start..end]`.
pub fn parse_unsigned_range(v: &Vec<char>, start: usize, end: usize, max: u64) -> (r: Option<
    u64,
>)
    requires
        start <= end <= v@.len(),
    ensures
        r == (match parse_unsigned(v@.subrange(start as int, end as int), max as nat) {
            Some(x) => Some(x as u64),
            None => None,
        }),
{
    let ghost s = v@.subrange(start as int, end as int);
    if start < end && v[start] == '+' {
        assert(v@.subrange(start + 1, end as int) =~= s.drop_first());
        digits_capped(v, start + 1, end, max)
    } else {
        digits_capped(v, start, end, max)
    }
}

/// `str::parse::<i64>` on a whole character sequence.
pub fn parse_i64_chars(v: &Vec<char>) -> (r: Option<i64>)
    ensures
        r == (match parse_i64(v@) {
            Some(x) => Some(x as i64),
            None => None,
        }),
{
    let n = v.len();
    assert(v@.subrange(0, n as int) =~= v@);
    if n > 0 && (v[0] == '+' || v[0] == '-') {
        assert(v@.subrange(1, n as int) =~= v@.drop_first());
        let neg = v[0] == '-';
        let cap: u64 = if neg { 0x8000_0000_0000_0000 } else { 0x7fff_ffff_ffff_ffff };
        match digits_capped(v, 1, n, cap) {
            Some(x) => {
                if neg {
                    Some((0i128 - x as i128) as i64)
                } else {
                    Some(x as i64)
                }
            },
            None => None,
        }
    } else {
        match digits_capped(v, 0, n, 0x7fff_ffff_ffff_ffff) {
            Some(x) => Some(x as i64),
            None => None,
        }
    }
}

/// What `str::to_uppercase` returns for a string that holds a non-ASCII
/// character.
pub uninterp spec fn uppercase_beyond_ascii(s: Seq<char>) -> Seq<char>;

/// `str::to_uppercase`: on ASCII text, `a`-`z` raised and every other
/// character kept; on other text, the Unicode mapping the standard library
/// applies.
pub open spec fn uppercase(s: Seq<char>) -> Seq<char> {
    if all_ascii(s) {
        s.map_values(|c: char| ascii_upper(c))
    } else {
        uppercase_beyond_ascii(s)
    }
}

/// Calls `str::to_uppercase` (Unicode `Uppercase` mapping). The contract
/// states the fact the standard library documents plainly: on ASCII input it
/// uppercases `a`-`z` and keeps every other character, one for one. For text
/// with a non-ASCII character it only names the result.
#[verifier::external_body]
pub fn to_uppercase_chars(v: &Vec<char>) -> (r: Vec<char>)
    ensures
        all_ascii(v@) ==> r@ == v@.map_values(|c: char| ascii_upper(c)),
        !all_ascii(v@) ==> r@ == uppercase_beyond_ascii(v@),
{
    v.iter().collect::<String>().to_uppercase().chars().collect()
}

// ── Splitting ───────────────────────────────────────────────────────────────

/// `str::split` on a single character: the pieces between separators, in
/// order (always at least one, possibly empty).
pub open spec fn split_seq(s: Seq<char>, sep: char) -> Seq<Seq<char>>
    decreases s.len(),
{
    if s.len() == 0 {
        seq![seq![]]
    } else {
        let p = split_seq(s.drop_last(), sep);
        if s.last() == sep {
            p.push(seq![])
        } else {
            p.update(p.len() - 1, p.last().push(s.last()))
        }
    }
}

pub proof fn split_nonempty(s: Seq<char>, sep: char)
    ensures
        split_seq(s, sep).len() >= 1,
    decreases s.len(),
{
    if s.len() > 0 {
        split_nonempty(s.drop_last(), sep);
    }
}

/// Split a character sequence on `sep`, as [`split_seq`].
pub fn split_chars(v: &Vec<char>, sep: char) -> (parts: Vec<Vec<char>>)
    ensures
        parts@.len() == split_seq(v@, sep).len(),
        forall|i: int| 0 <= i < parts@.len() ==> #[trigger] parts@[i]@ == split_seq(v@, sep)[i],
{
    let mut done: Vec<Vec<char>> = Vec::new();
    let mut cur: Vec<char> = Vec::new();
    let n = v.len();
    for i in 0..n
        invariant
            n == v@.len(),
            split_seq(v@.take(i as int), sep).len() == done@.len() + 1,
            forall|k: int|
                0 <= k < done@.len() ==> #[trigger] done@[k]@ == split_seq(v@.take(i as int), sep)[k],
            cur@ == split_seq(v@.take(i as int), sep).last(),
    {
        let c = v[i];
        proof {
            split_nonempty(v@.take(i as int), sep);
            assert(v@.take(i + 1).drop_last() =~= v@.take(i as int));
        }
        if c == sep {
            let finished = cur;
            done.push(finished);
            cur = Vec::new();
            assert(cur@ =~= seq![]);
        } else {
            cur.push(c);
        }
    }
    assert(v@.take(n as int) =~= v@);
    done.push(cur);
    done
}

/// Index of the last occurrence of `c` in `s`.
pub open spec fn last_index(s: Seq<char>, c: char) -> Option<int>
    decreases s.len(),
{
    if s.len() == 0 {
        None
    } else if s.last() == c {
        Some(s.len() - 1)
    } else {
        last_index(s.drop_last(), c)
    }
}

pub proof fn last_index_in_range(s: Seq<char>, c: char)
    ensures
        last_index(s, c) matches Some(i) ==> 0 <= i < s.len() && s[i] == c,
    decreases s.len(),
{
    if s.len() > 0 && s.last() != c {
        last_index_in_range(s.drop_last(), c);
    }
}

pub fn find_last(v: &Vec<char>, c: char) -> (r: Option<usize>)
    ensures
        r matches Some(i) ==> last_index(v@, c) == Some(i as int),
        r is None ==> last_index(v@, c) is None,
{
    let mut j = v.len();
    assert(v@.take(j as int) =~= v@);
    while j > 0
        invariant
            j <= v@.len(),
            last_index(v@, c) == last_index(v@.take(j as int), c),
        decreases j,
    {
        if v[j - 1] == c {
            return Some(j - 1);
        }
        assert(v@.take(j as int).drop_last() =~= v@.take(j - 1));
        j = j - 1;
    }
    None
}

/// The characters `v[start..end]`.
pub fn slice_chars(v: &Vec<char>, start: usize, end: usize) -> (r: Vec<char>)
    requires
        start <= end <= v@.len(),
    ensures
        r@ == v@.subrange(start as int, end as int),
{
    let mut r: Vec<char> = Vec::new();
    let mut k = start;
    while k < end
        invariant
            start <= k <= end <= v@.len(),
            r@ == v@.subrange(start as int, k as int),
        decreases end - k,
    {
        r.push(v[k]);
        assert(v@.subrange(start as int, k + 1) =~= v@.subrange(start as int, k as int).push(
            v@[k as int],
        ));
        k = k + 1;
    }
    r
}

// ── Zero padding ────────────────────────────────────────────────────────────

pub open spec fn zeros(n: int) -> Seq<char> {
    Seq::new(if n > 0 { n as nat } else { 0 }, |i: int| '0')
}

/// `format!("{:0w$}", i)`: the decimal digits padded with zeros to width `w`,
/// a minus sign counting toward the width.
pub open spec fn zpad(i: int, w: int) -> Seq<char> {
    if i < 0 {
        seq!['-'] + zeros(w - 1 - dec((-i) as nat).len()) + dec((-i) as nat)
    } else {
        zeros(w - dec(i as nat).len()) + dec(i as nat)
    }
}

fn push_zeros(out: &mut String, n: usize)
    ensures
        final(out)@ == old(out)@ + zeros(n as int),
{
    let mut i: usize = 0;
    while i < n
        invariant
            i <= n,
            out@ == old(out)@ + zeros(i as int),
        decreases n - i,
    {
        push_char(out, '0');
        assert(zeros(i + 1) =~= zeros(i as int).push('0'));
        i = i + 1;
    }
}

pub fn push_zpad(out: &mut String, i: i64, w: usize)
    ensures
        final(out)@ == old(out)@ + zpad(i as int, w as int),
{
    let m: u64 = if i < 0 {
        (0i128 - i as i128) as u64
    } else {
        i as u64
    };
    let digits = u64_string(m);
    let dv = chars_of(digits.as_str());
    if i < 0 {
        push_char(out, '-');
        if w > dv.len() && w - dv.len() > 1 {
            push_zeros(out, w - 1 - dv.len());
        } else {
            assert(zeros(w - 1 - dec(m as nat).len()) =~= seq![]);
        }
    } else {
        if w > dv.len() {
            push_zeros(out, w - dv.len());
        } else {
            assert(zeros(w - dec(m as nat).len()) =~= seq![]);
        }
    }
    push_chars(out, &dv);
    assert(final(out)@ =~= old(out)@ + zpad(i as int, w as int));
}


/// The number of characters in a string (`chars().count()`).
pub fn char_count(s: &str) -> (n: usize)
    ensures
        n == s@.len(),
{
    chars_of(s).len()
}

/// Whether a string holds no character.
pub fn is_empty_str(s: &str) -> (r: bool)
    ensures
        r == (s@.len() == 0),
{
    char_count(s) == 0
}


/// Whether `s` begins with `prefix`.
pub open spec fn starts_with(s: Seq<char>, prefix: Seq<char>) -> bool {
    prefix.len() <= s.len() && s.take(prefix.len() as int) == prefix
}

pub fn has_prefix(s: &str, prefix: &str) -> (r: bool)
    ensures
        r == starts_with(s@, prefix@),
{
    let v = chars_of(s);
    let p = chars_of(prefix);
    if p.len() > v.len() {
        return false;
    }
    let n = p.len();
    for i in 0..n
        invariant
            n == p@.len(),
            n <= v@.len(),
            v@ == s@,
            p@ == prefix@,
            forall|k: int| 0 <= k < i ==> v@[k] == p@[k],
    {
        if v[i] != p[i] {
            assert(v@.take(n as int)[i as int] != p@[i as int]);
            return false;
        }
    }
    assert(v@.take(n as int) =~= p@);
    true
}

} // verus!
