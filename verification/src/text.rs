//! Text building blocks: number formatting, padding, comparison and trimming,
//! each stated over the characters of the text.

use vstd::prelude::*;
use vstd::string::StringExecFns;
use vstd::string::StrSliceExecFns;

verus! {

// ── Digits ─────────────────────────────────────────────────────────────────

/// The character of one lowercase hexadecimal digit (decimal for `d < 10`).
pub open spec fn digit(d: nat) -> char {
    if d < 10 {
        (48 + d) as char
    } else {
        (87 + d) as char
    }
}

/// `n` in decimal, without leading zeros.
pub open spec fn dec(n: nat) -> Seq<char>
    decreases n,
{
    if n < 10 {
        seq![digit(n)]
    } else {
        dec(n / 10).push(digit(n % 10))
    }
}

/// `n` in decimal, with a leading minus sign when negative.
pub open spec fn dec_int(n: int) -> Seq<char> {
    if n < 0 {
        seq!['-'] + dec((-n) as nat)
    } else {
        dec(n as nat)
    }
}

/// `n` in lowercase hexadecimal, with leading zeros up to `w` digits.
pub open spec fn hex(n: nat, w: nat) -> Seq<char>
    decreases n + w,
{
    if n < 16 && w <= 1 {
        seq![digit(n)]
    } else {
        hex(n / 16, if w > 0 {
            (w - 1) as nat
        } else {
            0
        }).push(digit(n % 16))
    }
}

/// Different numbers read differently.
pub proof fn lemma_dec_injective(a: nat, b: nat)
    ensures
        dec(a) == dec(b) ==> a == b,
    decreases a,
{
    if dec(a) == dec(b) {
        lemma_dec_len(a);
        lemma_dec_len(b);
        assert(dec(a).last() == digit(a % 10));
        assert(dec(b).last() == digit(b % 10));
        assert(digit(a % 10) as int == 48 + a % 10);
        assert(digit(b % 10) as int == 48 + b % 10);
        if a >= 10 && b >= 10 {
            assert(dec(a).drop_last() =~= dec(a / 10));
            assert(dec(b).drop_last() =~= dec(b / 10));
            lemma_dec_injective(a / 10, b / 10);
        }
    }
}

proof fn lemma_dec_len(n: nat)
    ensures
        n < 10 <==> dec(n).len() == 1,
        dec(n).len() >= 1,
    decreases n,
{
    if n >= 10 {
        lemma_dec_len(n / 10);
    }
}

/// Append one hexadecimal digit.
pub fn push_digit(s: &mut String, d: u8)
    requires
        d < 16,
    ensures
        final(s)@ == old(s)@.push(digit(d as nat)),
{
    proof {
        reveal_strlit("0");
        reveal_strlit("1");
        reveal_strlit("2");
        reveal_strlit("3");
        reveal_strlit("4");
        reveal_strlit("5");
        reveal_strlit("6");
        reveal_strlit("7");
        reveal_strlit("8");
        reveal_strlit("9");
        reveal_strlit("a");
        reveal_strlit("b");
        reveal_strlit("c");
        reveal_strlit("d");
        reveal_strlit("e");
        reveal_strlit("f");
    }
    let c: &str = match d {
        0 => "0",
        1 => "1",
        2 => "2",
        3 => "3",
        4 => "4",
        5 => "5",
        6 => "6",
        7 => "7",
        8 => "8",
        9 => "9",
        10 => "a",
        11 => "b",
        12 => "c",
        13 => "d",
        14 => "e",
        _ => "f",
    };
    assert(c@ =~= seq![digit(d as nat)]);
    s.append(c);
    assert(s@ =~= old(s)@.push(digit(d as nat)));
}

/// Append `n` in decimal.
pub fn push_dec(s: &mut String, n: u64)
    ensures
        final(s)@ == old(s)@ + dec(n as nat),
    decreases n,
{
    if n < 10 {
        push_digit(s, n as u8);
        assert(s@ =~= old(s)@ + dec(n as nat));
    } else {
        push_dec(s, n / 10);
        push_digit(s, (n % 10) as u8);
        assert(s@ =~= old(s)@ + dec(n as nat));
    }
}

/// Append `n` in decimal, with its sign when negative.
pub fn push_int(s: &mut String, n: i64)
    ensures
        final(s)@ == old(s)@ + dec_int(n as int),
{
    if n < 0 {
        proof {
            reveal_strlit("-");
        }
        s.append("-");
        let magnitude: u64 = (-(n + 1)) as u64 + 1;
        push_dec(s, magnitude);
        assert(s@ =~= old(s)@ + dec_int(n as int)) by {
            assert("-"@ =~= seq!['-']);
        }
    } else {
        push_dec(s, n as u64);
    }
}

/// Append `n` in hexadecimal, with leading zeros up to `w` digits.
pub fn push_hex(s: &mut String, n: u64, w: u8)
    ensures
        final(s)@ == old(s)@ + hex(n as nat, w as nat),
    decreases n + w,
{
    if n < 16 && w <= 1 {
        push_digit(s, n as u8);
        assert(s@ =~= old(s)@ + hex(n as nat, w as nat));
    } else {
        push_hex(s, n / 16, if w > 0 {
            w - 1
        } else {
            0
        });
        push_digit(s, (n % 16) as u8);
        assert(s@ =~= old(s)@ + hex(n as nat, w as nat));
    }
}

/// `n` in decimal.
pub fn dec_text(n: u64) -> (s: String)
    ensures
        s@ == dec(n as nat),
{
    let mut s = String::new();
    push_dec(&mut s, n);
    assert(s@ =~= dec(n as nat));
    s
}

/// `n` in decimal, with its sign when negative.
pub fn int_text(n: i64) -> (s: String)
    ensures
        s@ == dec_int(n as int),
{
    let mut s = String::new();
    push_int(&mut s, n);
    assert(s@ =~= dec_int(n as int));
    s
}

/// A lowercase hexadecimal digit.
pub open spec fn is_hex_digit(c: char) -> bool {
    ('0' <= c && c <= '9') || ('a' <= c && c <= 'f')
}

/// Hexadecimal text holds hexadecimal digits only.
pub proof fn lemma_hex_digits(n: nat, w: nat)
    ensures
        forall|i: int| 0 <= i < hex(n, w).len() ==> is_hex_digit(#[trigger] hex(n, w)[i]),
    decreases n + w,
{
    if n < 16 && w <= 1 {
        assert(is_hex_digit(digit(n)));
    } else {
        let rest = hex(n / 16, if w > 0 {
            (w - 1) as nat
        } else {
            0
        });
        lemma_hex_digits(n / 16, if w > 0 {
            (w - 1) as nat
        } else {
            0
        });
        assert forall|i: int| 0 <= i < hex(n, w).len() implies is_hex_digit(
            #[trigger] hex(n, w)[i],
        ) by {
            if i < rest.len() {
                assert(hex(n, w)[i] == rest[i]);
            } else {
                assert(is_hex_digit(digit(n % 16)));
            }
        }
    }
}

/// Hexadecimal text has at least the asked number of digits.
pub proof fn lemma_hex_len(n: nat, w: nat)
    ensures
        hex(n, w).len() >= w,
        hex(n, w).len() >= 1,
    decreases n + w,
{
    if n < 16 && w <= 1 {
    } else {
        lemma_hex_len(n / 16, if w > 0 {
            (w - 1) as nat
        } else {
            0
        });
    }
}

// ── Padding ────────────────────────────────────────────────────────────────

/// How many characters are missing to reach `w`.
pub open spec fn missing(len: nat, w: nat) -> nat {
    if len < w {
        (w - len) as nat
    } else {
        0
    }
}

/// `n` copies of `c`.
pub open spec fn repeat(c: char, n: nat) -> Seq<char> {
    Seq::new(n, |i: int| c)
}

/// `s` left-aligned in a column of `w` characters; longer texts stay whole.
pub open spec fn pad_right(s: Seq<char>, w: nat, fill: char) -> Seq<char> {
    s + repeat(fill, missing(s.len(), w))
}

/// `s` right-aligned in a column of `w` characters; longer texts stay whole.
pub open spec fn pad_left(s: Seq<char>, w: nat, fill: char) -> Seq<char> {
    repeat(fill, missing(s.len(), w)) + s
}

/// Append `n` copies of the one-character text `c`.
pub fn push_repeat(s: &mut String, c: &str, n: usize)
    requires
        c@.len() == 1,
    ensures
        final(s)@ == old(s)@ + repeat(c@[0], n as nat),
{
    assert(s@ =~= old(s)@ + repeat(c@[0], 0));
    for i in 0..n
        invariant
            c@.len() == 1,
            s@ == old(s)@ + repeat(c@[0], i as nat),
    {
        s.append(c);
        assert(s@ =~= old(s)@ + repeat(c@[0], (i + 1) as nat));
    }
}

fn missing_chars(t: &str, w: usize) -> (n: usize)
    ensures
        n == missing(t@.len(), w as nat),
{
    let len: usize = t.unicode_len();
    if len < w {
        w - len
    } else {
        0
    }
}

/// Append `t` left-aligned in a column of `w` characters.
pub fn push_padded_right(s: &mut String, t: &str, w: usize, fill: &str)
    requires
        fill@.len() == 1,
    ensures
        final(s)@ == old(s)@ + pad_right(t@, w as nat, fill@[0]),
{
    let n: usize = missing_chars(t, w);
    s.append(t);
    push_repeat(s, fill, n);
    assert(s@ =~= old(s)@ + pad_right(t@, w as nat, fill@[0]));
}

/// Append `t` right-aligned in a column of `w` characters.
pub fn push_padded_left(s: &mut String, t: &str, w: usize, fill: &str)
    requires
        fill@.len() == 1,
    ensures
        final(s)@ == old(s)@ + pad_left(t@, w as nat, fill@[0]),
{
    let n: usize = missing_chars(t, w);
    push_repeat(s, fill, n);
    s.append(t);
    assert(s@ =~= old(s)@ + pad_left(t@, w as nat, fill@[0]));
}

// ── Comparison ─────────────────────────────────────────────────────────────

/// Whether two texts hold the same characters.
pub fn str_eq(a: &str, b: &str) -> (r: bool)
    ensures
        r == (a@ == b@),
{
    let x = a.as_bytes();
    let y = b.as_bytes();
    proof {
        vstd::utf8::encode_utf8_decode_utf8(a@);
        vstd::utf8::encode_utf8_decode_utf8(b@);
    }
    if x.len() != y.len() {
        return false;
    }
    let n: usize = x.len();
    for i in 0..n
        invariant
            n == x@.len(),
            n == y@.len(),
            x@ == vstd::utf8::encode_utf8(a@),
            y@ == vstd::utf8::encode_utf8(b@),
            forall|j: int| 0 <= j < i ==> x@[j] == y@[j],
    {
        if x[i] != y[i] {
            return false;
        }
    }
    assert(x@ =~= y@);
    true
}

// ── Parts ──────────────────────────────────────────────────────────────────

pub open spec fn starts_with(s: Seq<char>, prefix: Seq<char>) -> bool {
    prefix.len() <= s.len() && s.take(prefix.len() as int) == prefix
}

/// What follows a prefix, if the text starts with it.
pub fn strip_prefix<'a>(s: &'a str, prefix: &str) -> (r: Option<&'a str>)
    ensures
        match r {
            Some(rest) => starts_with(s@, prefix@) && rest@ == s@.skip(prefix@.len() as int),
            None => !starts_with(s@, prefix@),
        },
{
    let n: usize = s.unicode_len();
    let k: usize = prefix.unicode_len();
    if k > n {
        return None;
    }
    let head = s.substring_char(0, k);
    assert(head@ =~= s@.take(k as int));
    if str_eq(head, prefix) {
        let rest = s.substring_char(k, n);
        assert(rest@ =~= s@.skip(k as int));
        Some(rest)
    } else {
        None
    }
}

pub open spec fn ends_with(s: Seq<char>, suffix: Seq<char>) -> bool {
    suffix.len() <= s.len() && s.skip(s.len() - suffix.len()) == suffix
}

/// Whether a text ends with another.
pub fn has_suffix(s: &str, suffix: &str) -> (r: bool)
    ensures
        r == ends_with(s@, suffix@),
{
    let n: usize = s.unicode_len();
    let k: usize = suffix.unicode_len();
    if k > n {
        return false;
    }
    let tail = s.substring_char(n - k, n);
    assert(tail@ =~= s@.skip(n - k));
    str_eq(tail, suffix)
}

/// Whether a character has the Unicode property White_Space.
pub open spec fn is_white_space(c: char) -> bool {
    let u = c as u32;
    ||| 0x9 <= u <= 0xd
    ||| u == 0x20
    ||| u == 0x85
    ||| u == 0xa0
    ||| u == 0x1680
    ||| 0x2000 <= u <= 0x200a
    ||| 0x2028 <= u <= 0x2029
    ||| u == 0x202f
    ||| u == 0x205f
    ||| u == 0x3000
}

/// `char::is_whitespace`: whether the character has the Unicode property
/// White_Space.
pub assume_specification[ char::is_whitespace ](c: char) -> (r: bool)
    ensures
        r == is_white_space(c),
;

/// A text without the white space around it: what is left neither starts nor
/// ends with white space, and only white space was taken off.
pub open spec fn is_trimmed(s: Seq<char>, t: Seq<char>) -> bool {
    exists|a: int, b: int| #[trigger] is_trimmed_at(s, t, a, b)
}

/// `t` is `s[a..b]`, and everything around it is white space.
pub open spec fn is_trimmed_at(s: Seq<char>, t: Seq<char>, a: int, b: int) -> bool {
    &&& 0 <= a <= b <= s.len()
    &&& t == s.subrange(a, b)
    &&& forall|i: int| 0 <= i < a ==> is_white_space(#[trigger] s[i])
    &&& forall|i: int| b <= i < s.len() ==> is_white_space(#[trigger] s[i])
    &&& t.len() > 0 ==> !is_white_space(t.first()) && !is_white_space(t.last())
}

/// A text without the white space around it.
pub open spec fn trimmed(s: Seq<char>) -> Seq<char> {
    choose|t: Seq<char>| is_trimmed(s, t)
}

/// Every text can be trimmed.
pub proof fn lemma_trim_exists(s: Seq<char>)
    ensures
        is_trimmed(s, trimmed(s)),
    decreases s.len(),
{
    if s.len() == 0 {
        assert(is_trimmed_at(s, s.subrange(0, 0), 0, 0));
        assert(is_trimmed(s, s.subrange(0, 0)));
    } else if is_white_space(s.first()) {
        let rest = s.drop_first();
        lemma_trim_exists(rest);
        let t = trimmed(rest);
        let (a, b) = choose|a: int, b: int| #[trigger] is_trimmed_at(rest, t, a, b);
        assert forall|i: int| 0 <= i < a + 1 implies is_white_space(#[trigger] s[i]) by {
            if i > 0 {
                assert(rest[i - 1] == s[i]);
            }
        }
        assert forall|i: int| b + 1 <= i < s.len() implies is_white_space(#[trigger] s[i]) by {
            assert(rest[i - 1] == s[i]);
        }
        assert(t =~= s.subrange(a + 1, b + 1));
        assert(is_trimmed_at(s, t, a + 1, b + 1));
        assert(is_trimmed(s, t));
    } else if is_white_space(s.last()) {
        let rest = s.drop_last();
        lemma_trim_exists(rest);
        let t = trimmed(rest);
        let (a, b) = choose|a: int, b: int| #[trigger] is_trimmed_at(rest, t, a, b);
        assert forall|i: int| 0 <= i < a implies is_white_space(#[trigger] s[i]) by {
            assert(rest[i] == s[i]);
        }
        assert forall|i: int| b <= i < s.len() implies is_white_space(#[trigger] s[i]) by {
            if i < s.len() - 1 {
                assert(rest[i] == s[i]);
            }
        }
        assert(t =~= s.subrange(a, b));
        assert(is_trimmed_at(s, t, a, b));
        assert(is_trimmed(s, t));
    } else {
        let t = s.subrange(0, s.len() as int);
        assert(is_trimmed_at(s, t, 0, s.len() as int));
        assert(is_trimmed(s, t));
    }
}

/// There is only one way to trim a text.
pub proof fn lemma_trimmed(s: Seq<char>, t: Seq<char>)
    requires
        is_trimmed(s, t),
    ensures
        trimmed(s) == t,
{
    let u = trimmed(s);
    assert(is_trimmed(s, u));
    let (a, b) = choose|a: int, b: int| #[trigger] is_trimmed_at(s, t, a, b);
    let (c, d) = choose|c: int, d: int| #[trigger] is_trimmed_at(s, u, c, d);
    if t.len() > 0 && u.len() > 0 {
        assert(t.first() == s[a] && t.last() == s[b - 1]);
        assert(u.first() == s[c] && u.last() == s[d - 1]);
        assert(a == c && b == d);
    } else if t.len() > 0 {
        assert(t.first() == s[a]);
    } else if u.len() > 0 {
        assert(u.first() == s[c]);
    }
    assert(t =~= u);
}

/// A text is trimmed to nothing exactly when it is all white space.
pub proof fn law_blank_is_trimmed_to_nothing(s: Seq<char>)
    ensures
        trimmed(s).len() == 0 <==> (forall|i: int|
            0 <= i < s.len() ==> is_white_space(#[trigger] s[i])),
{
    let t = trimmed(s);
    lemma_trim_exists(s);
    let (a, b) = choose|a: int, b: int| #[trigger] is_trimmed_at(s, t, a, b);
    if t.len() > 0 {
        assert(t.first() == s[a]);
    }
}

/// The characters of a text.
pub fn chars_of(s: &str) -> (v: Vec<char>)
    ensures
        v@ == s@,
{
    let mut v: Vec<char> = Vec::new();
    for c in it: s.chars()
        invariant
            v@ == s@.take(it.index() as int),
            it.seq() == s@,
    {
        v.push(c);
        assert(v@ =~= s@.take(it.index() + 1));
    }
    assert(v@ =~= s@);
    v
}

/// A text without the white space around it.
pub fn trim(s: &str) -> (r: &str)
    ensures
        r@ == trimmed(s@),
        is_trimmed(s@, r@),
{
    let v = chars_of(s);
    let n: usize = v.len();
    let mut a: usize = 0;
    while a < n && v[a].is_whitespace()
        invariant
            n == v@.len(),
            v@ == s@,
            a <= n,
            forall|i: int| 0 <= i < a ==> is_white_space(#[trigger] s@[i]),
        decreases n - a,
    {
        a = a + 1;
    }
    let mut b: usize = n;
    while b > a && v[b - 1].is_whitespace()
        invariant
            n == v@.len(),
            v@ == s@,
            a <= b <= n,
            a < b ==> !is_white_space(s@[a as int]),
            forall|i: int| b <= i < n ==> is_white_space(#[trigger] s@[i]),
        decreases b,
    {
        b = b - 1;
    }
    let r = s.substring_char(a, b);
    assert(is_trimmed_at(s@, r@, a as int, b as int));
    proof {
        lemma_trimmed(s@, r@);
    }
    r
}

// ── Sizes ──────────────────────────────────────────────────────────────────

/// The size of a text in bytes (UTF-8).
pub open spec fn byte_len(s: Seq<char>) -> nat {
    vstd::utf8::encode_utf8(s).len()
}

/// A text never has fewer bytes than characters.
pub proof fn lemma_byte_len(s: Seq<char>)
    ensures
        s.len() <= byte_len(s),
    decreases s.len(),
{
    if s.len() > 0 {
        lemma_byte_len(s.drop_first());
    }
}

/// The size of a text in bytes.
pub fn size_of(s: &str) -> (r: usize)
    ensures
        r == byte_len(s@),
{
    s.as_bytes().len()
}

// ── Order ──────────────────────────────────────────────────────────────────

/// `a` comes before `b` in the order of their characters' code points.
pub open spec fn less(a: Seq<char>, b: Seq<char>) -> bool
    decreases a.len(),
{
    if b.len() == 0 {
        false
    } else if a.len() == 0 {
        true
    } else if a[0] != b[0] {
        a[0] < b[0]
    } else {
        less(a.drop_first(), b.drop_first())
    }
}

/// The order of texts is total: of two different texts one comes first.
pub proof fn lemma_less_total(a: Seq<char>, b: Seq<char>)
    ensures
        a != b ==> less(a, b) || less(b, a),
        !(less(a, b) && less(b, a)),
        !less(a, a),
    decreases a.len(),
{
    if a.len() > 0 && b.len() > 0 && a[0] == b[0] {
        lemma_less_total(a.drop_first(), b.drop_first());
        if a.drop_first() == b.drop_first() {
            assert(a =~= seq![a[0]] + a.drop_first());
            assert(b =~= seq![b[0]] + b.drop_first());
        }
    } else if a.len() == 0 && b.len() == 0 {
        assert(a =~= b);
    }
    if a.len() > 0 {
        lemma_less_total(a.drop_first(), a.drop_first());
    }
}

/// The order of texts is transitive.
pub proof fn lemma_less_trans(a: Seq<char>, b: Seq<char>, c: Seq<char>)
    requires
        less(a, b),
        less(b, c),
    ensures
        less(a, c),
    decreases a.len(),
{
    if a.len() > 0 && a[0] == b[0] && b[0] == c[0] {
        lemma_less_trans(a.drop_first(), b.drop_first(), c.drop_first());
    }
}

/// Whether one text comes before another.
pub fn is_less(a: &str, b: &str) -> (r: bool)
    ensures
        r == less(a@, b@),
{
    let x = chars_of(a);
    let y = chars_of(b);
    let n: usize = x.len();
    let m: usize = y.len();
    let mut i: usize = 0;
    assert(a@.skip(0) =~= a@);
    assert(b@.skip(0) =~= b@);
    while i < n && i < m
        invariant
            x@ == a@,
            y@ == b@,
            n == x@.len(),
            m == y@.len(),
            i <= n,
            i <= m,
            less(a@, b@) == less(a@.skip(i as int), b@.skip(i as int)),
        decreases n - i,
    {
        assert(a@.skip(i as int)[0] == x@[i as int]);
        assert(b@.skip(i as int)[0] == y@[i as int]);
        if x[i] != y[i] {
            return x[i] < y[i];
        }
        assert(a@.skip(i as int).drop_first() =~= a@.skip(i + 1));
        assert(b@.skip(i as int).drop_first() =~= b@.skip(i + 1));
        i = i + 1;
    }
    i < m
}

// ── Shortening ─────────────────────────────────────────────────────────────

/// At most `max` characters; a longer text ends in an ellipsis.
pub open spec fn shortened(s: Seq<char>, max: nat) -> Seq<char> {
    if s.len() <= max {
        s
    } else {
        s.take(if max > 0 {
            max - 1
        } else {
            0
        }) + "…"@
    }
}

/// Shorten a text to at most `max` characters (an ellipsis alone for 0).
pub fn truncate(s: &str, max: usize) -> (r: String)
    ensures
        r@ == shortened(s@, max as nat),
{
    let n: usize = s.unicode_len();
    if n <= max {
        s.to_owned()
    } else {
        let keep: usize = if max > 0 {
            max - 1
        } else {
            0
        };
        let head = s.substring_char(0, keep);
        assert(head@ =~= s@.take(keep as int));
        let mut t = head.to_owned();
        t.append("…");
        t
    }
}

// ── What texts say ─────────────────────────────────────────────────────────

/// A part stands in a text at a place.
pub open spec fn stands_at(s: Seq<char>, part: Seq<char>, at: int) -> bool {
    0 <= at && at + part.len() <= s.len() && s.subrange(at, at + part.len()) == part
}

/// A part stands somewhere in a text.
pub open spec fn mentions(s: Seq<char>, part: Seq<char>) -> bool {
    exists|at: int| #[trigger] stands_at(s, part, at)
}

/// A text made of three parts mentions the middle one.
pub proof fn lemma_mentions(a: Seq<char>, part: Seq<char>, b: Seq<char>)
    ensures
        mentions(a + part + b, part),
{
    let s = a + part + b;
    assert(s.subrange(a.len() as int, a.len() + part.len() as int) =~= part);
    assert(stands_at(s, part, a.len() as int));
}

/// Parts can be put together in any grouping.
pub proof fn lemma_grouping(a: Seq<char>, b: Seq<char>, c: Seq<char>)
    ensures
        a + b + c == a + (b + c),
{
    assert(a + b + c =~= a + (b + c));
}

/// A text mentions its last part.
pub proof fn lemma_mentions_last(a: Seq<char>, part: Seq<char>)
    ensures
        mentions(a + part, part),
{
    lemma_mentions(a, part, Seq::empty());
    assert(a + part + Seq::empty() =~= a + part);
}

/// Nothing behind a text takes away from what it mentions or starts with.
pub proof fn lemma_more_behind(s: Seq<char>, more: Seq<char>, part: Seq<char>)
    ensures
        mentions(s, part) ==> mentions(s + more, part),
        starts_with(s, part) ==> starts_with(s + more, part),
{
    if mentions(s, part) {
        lemma_mentions_deep(Seq::empty(), s, more, part);
        assert(Seq::empty() + s + more =~= s + more);
    }
    if starts_with(s, part) {
        assert((s + more).take(part.len() as int) =~= s.take(part.len() as int));
    }
}

/// A text mentions what a part of it mentions.
pub proof fn lemma_mentions_deep(a: Seq<char>, part: Seq<char>, b: Seq<char>, inner: Seq<char>)
    requires
        mentions(part, inner),
    ensures
        mentions(a + part + b, inner),
{
    let s = a + part + b;
    let at = choose|at: int| #[trigger] stands_at(part, inner, at);
    assert(s.subrange(a.len() + at, a.len() + at + inner.len()) =~= part.subrange(
        at,
        at + inner.len(),
    ));
    assert(stands_at(s, inner, a.len() + at));
}

/// The number that digits of a base stand for.
pub open spec fn number_of(s: Seq<char>, base: nat) -> int
    decreases s.len(),
{
    if s.len() == 0 {
        0
    } else {
        let c = s.last() as int;
        number_of(s.drop_last(), base) * base + (if c >= 'a' as int {
            c - 'a' as int + 10
        } else {
            c - '0' as int
        })
    }
}

/// A decimal text reads as its number. It holds digits only, and starts with a
/// zero only if it is a single one.
pub proof fn law_decimal(n: nat)
    ensures
        number_of(dec(n), 10) == n,
        dec(n).len() > 0,
        forall|i: int| 0 <= i < dec(n).len() ==> '0' <= #[trigger] dec(n)[i] && dec(n)[i] <= '9',
        n > 0 ==> dec(n)[0] != '0',
        n == 0 ==> dec(n).len() == 1,
    decreases n,
{
    let s = dec(n);
    if n < 10 {
        assert(s.drop_last() =~= Seq::empty());
        assert(s.last() == digit(n));
        assert(number_of(s.drop_last(), 10) == 0);
    } else {
        law_decimal(n / 10);
        assert(s.drop_last() =~= dec(n / 10));
        assert(s.last() == digit(n % 10));
        assert(s[0] == dec(n / 10)[0]);
        assert forall|i: int| 0 <= i < s.len() implies '0' <= #[trigger] s[i] && s[i] <= '9' by {
            if i < s.len() - 1 {
                assert(s[i] == dec(n / 10)[i]);
            }
        }
    }
}

/// A signed text starts with a minus sign exactly for a negative number, and
/// its digits read as the number without its sign.
pub proof fn law_signed_decimal(n: int)
    ensures
        n >= 0 ==> number_of(dec_int(n), 10) == n && dec_int(n)[0] != '-',
        n < 0 ==> dec_int(n)[0] == '-' && number_of(dec_int(n).skip(1), 10) == -n,
{
    if n >= 0 {
        law_decimal(n as nat);
    } else {
        law_decimal((-n) as nat);
        assert(dec_int(n).skip(1) =~= dec((-n) as nat));
    }
}

/// A hexadecimal text reads as its number.
pub proof fn law_hexadecimal(n: nat, w: nat)
    ensures
        number_of(hex(n, w), 16) == n,
    decreases n + w,
{
    let s = hex(n, w);
    if n < 16 && w <= 1 {
        assert(s.drop_last() =~= Seq::empty());
        assert(s.last() == digit(n));
        assert(number_of(s.drop_last(), 16) == 0);
    } else {
        let v: nat = if w > 0 {
            (w - 1) as nat
        } else {
            0
        };
        law_hexadecimal(n / 16, v);
        assert(s.drop_last() =~= hex(n / 16, v));
        assert(s.last() == digit(n % 16));
    }
}

/// A column has its width, or that of a longer text; a left-aligned text stands
/// at its start and a right-aligned one at its end, and the rest is filling.
pub proof fn law_columns(s: Seq<char>, w: nat, fill: char, i: int)
    ensures
        pad_right(s, w, fill).len() == (if s.len() > w {
            s.len()
        } else {
            w
        }),
        pad_left(s, w, fill).len() == pad_right(s, w, fill).len(),
        pad_right(s, w, fill).take(s.len() as int) == s,
        pad_left(s, w, fill).skip(pad_left(s, w, fill).len() - s.len()) == s,
        s.len() <= i < w ==> pad_right(s, w, fill)[i] == fill,
        0 <= i < w - s.len() ==> pad_left(s, w, fill)[i] == fill,
{
    assert(pad_right(s, w, fill).take(s.len() as int) =~= s);
    assert(pad_left(s, w, fill).skip(pad_left(s, w, fill).len() - s.len()) =~= s);
}

/// A text that fits stays whole; a longer one is cut to the asked number of
/// characters, the last of which is an ellipsis.
pub proof fn law_shortened(s: Seq<char>, max: nat)
    ensures
        s.len() <= max ==> shortened(s, max) == s,
        s.len() > max && max > 0 ==> {
            &&& shortened(s, max).len() == max
            &&& shortened(s, max).last() == '…'
            &&& shortened(s, max).drop_last() == s.take(max - 1)
        },
{
    reveal_strlit("…");
    if s.len() > max && max > 0 {
        assert(shortened(s, max).drop_last() =~= s.take(max - 1));
    }
}

/// A text starts with what it was made to start with, and ends with what it was
/// made to end with; every text that starts or ends with another was made so.
pub proof fn law_parts(s: Seq<char>, part: Seq<char>)
    ensures
        starts_with(part + s, part),
        ends_with(s + part, part),
        starts_with(s, part) ==> s == part + s.skip(part.len() as int),
        ends_with(s, part) ==> s == s.take(s.len() - part.len()) + part,
{
    assert((part + s).take(part.len() as int) =~= part);
    assert((s + part).skip(s.len() as int) =~= part);
    if starts_with(s, part) {
        assert(s =~= s.take(part.len() as int) + s.skip(part.len() as int));
    }
    if ends_with(s, part) {
        assert(s =~= s.take(s.len() - part.len()) + s.skip(s.len() - part.len()));
    }
}

/// Texts are ordered by their first different character; a text comes after
/// what it starts with.
pub proof fn law_text_order(
    same: Seq<char>,
    x: char,
    y: char,
    a: Seq<char>,
    b: Seq<char>,
)
    requires
        x != y,
    ensures
        less(same + seq![x] + a, same + seq![y] + b) <==> x < y,
        less(same, same + seq![y] + b),
        !less(same + seq![y] + b, same),
    decreases same.len(),
{
    let s = same + seq![x] + a;
    let t = same + seq![y] + b;
    if same.len() == 0 {
        assert(s[0] == x && t[0] == y);
    } else {
        law_text_order(same.drop_first(), x, y, a, b);
        assert(s.drop_first() =~= same.drop_first() + seq![x] + a);
        assert(t.drop_first() =~= same.drop_first() + seq![y] + b);
        assert(s[0] == same[0] && t[0] == same[0]);
    }
}

/// Trimming takes off the white space around a text, and nothing else.
pub proof fn law_trimmed(a: Seq<char>, core: Seq<char>, b: Seq<char>)
    requires
        forall|i: int| 0 <= i < a.len() ==> is_white_space(#[trigger] a[i]),
        forall|i: int| 0 <= i < b.len() ==> is_white_space(#[trigger] b[i]),
        core.len() > 0,
        !is_white_space(core.first()),
        !is_white_space(core.last()),
    ensures
        trimmed(a + core + b) == core,
{
    let s = a + core + b;
    let from = a.len() as int;
    let to = a.len() + core.len() as int;
    assert(s.subrange(from, to) =~= core);
    assert forall|i: int| 0 <= i < from implies is_white_space(#[trigger] s[i]) by {
        assert(s[i] == a[i]);
    }
    assert forall|i: int| to <= i < s.len() implies is_white_space(#[trigger] s[i]) by {
        assert(s[i] == b[i - to]);
    }
    assert(is_trimmed_at(s, core, from, to));
    lemma_trimmed(s, core);
}

} // verus!
