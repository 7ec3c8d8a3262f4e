//! Decoding of fixed-width text fields and byte strings.
use vstd::prelude::*;
use vstd::utf8::{decode_utf8, valid_utf8};

verus! {

/// Name for the text that `String::from_utf8_lossy` decodes from `bytes`.
pub uninterp spec fn utf8_lossy(bytes: Seq<u8>) -> Seq<char>;

/// Decodes bytes as UTF-8 through `String::from_utf8_lossy`, which replaces
/// invalid sequences with U+FFFD. Claimed of it: the text is a function of the
/// bytes alone, and bytes that are valid UTF-8 decode to the characters they
/// encode. How invalid sequences are replaced is left to the name.
#[verifier::external_body]
pub fn lossy_string(bytes: &[u8]) -> (s: String)
    ensures
        s@ == utf8_lossy(bytes@),
        valid_utf8(bytes@) ==> s@ == decode_utf8(bytes@),
{
    String::from_utf8_lossy(bytes).into_owned()
}

/// `s` with all leading and trailing zero bytes removed.
pub open spec fn trim_nul(s: Seq<u8>) -> Seq<u8>
    decreases s.len(),
{
    if s.len() > 0 && s[0] == 0 {
        trim_nul(s.drop_first())
    } else if s.len() > 0 && s.last() == 0 {
        trim_nul(s.drop_last())
    } else {
        s
    }
}

/// Bounds `(a, b)` such that `s[a..b]` is `s` without its leading and
/// trailing zero bytes.
pub fn nul_trimmed_bounds(s: &[u8]) -> (r: (usize, usize))
    ensures
        r.0 <= r.1 <= s@.len(),
        s@.subrange(r.0 as int, r.1 as int) == trim_nul(s@),
{
    let n = s.len();
    let mut a: usize = 0;
    assert(s@.subrange(0, n as int) =~= s@);
    while a < n && s[a] == 0
        invariant
            a <= n == s@.len(),
            trim_nul(s@) == trim_nul(s@.subrange(a as int, n as int)),
        decreases n - a,
    {
        assert(s@.subrange(a as int, n as int).drop_first() =~= s@.subrange(a + 1, n as int));
        a += 1;
    }
    let mut b: usize = n;
    while b > a && s[b - 1] == 0
        invariant
            a <= b <= n == s@.len(),
            a < n ==> s@[a as int] != 0,
            trim_nul(s@) == trim_nul(s@.subrange(a as int, b as int)),
        decreases b - a,
    {
        assert(s@.subrange(a as int, b as int).drop_last() =~= s@.subrange(a as int, b - 1));
        b -= 1;
    }
    (a, b)
}

/// Decodes a zero-padded text field: zero bytes are stripped from both ends
/// and the rest is decoded as UTF-8 with replacement characters.
pub fn nul_trimmed_string(s: &[u8]) -> (r: String)
    ensures
        r@ == utf8_lossy(trim_nul(s@)),
{
    let (a, b) = nul_trimmed_bounds(s);
    lossy_string(vstd::slice::slice_subrange(s, a, b))
}

} // verus!

verus! {

/// The characters of `s`, in order.
pub fn chars_of(s: &str) -> (r: Vec<char>)
    ensures
        r@ == s@,
{
    let mut out: Vec<char> = Vec::new();
    for c in it: s.chars()
        invariant
            out@ == it.seq().take(it.index() as int),
    {
        out.push(c);
    }
    out
}

} // verus!

verus! {

/// Appends `c` with `String::push`. Claimed of it: the text gains `c` at its end.
#[verifier::external_body]
pub fn push_char(s: &mut String, c: char)
    ensures
        final(s)@ == old(s)@.push(c),
{
    s.push(c);
}

/// A string holding the characters of `cs`.
pub fn string_from_chars(cs: &[char]) -> (r: String)
    ensures
        r@ == cs@,
{
    let mut s = String::new();
    let mut i: usize = 0;
    while i < cs.len()
        invariant
            i <= cs@.len(),
            s@ == cs@.take(i as int),
        decreases cs@.len() - i,
    {
        push_char(&mut s, cs[i]);
        assert(cs@.take(i + 1) =~= cs@.take(i as int).push(cs@[i as int]));
        i += 1;
    }
    assert(cs@.take(i as int) =~= cs@);
    s
}

/// `c` with ASCII upper-case letters mapped to lower case.
pub open spec fn ascii_lower(c: char) -> char {
    if 'A' <= c <= 'Z' { ((c as u32) + 32) as char } else { c }
}

/// `c` with ASCII lower-case letters mapped to upper case.
pub open spec fn ascii_upper(c: char) -> char {
    if 'a' <= c <= 'z' { ((c as u32) - 32) as char } else { c }
}

/// Lower-cases an ASCII letter.
pub fn char_ascii_lower(c: char) -> (r: char)
    ensures
        r == ascii_lower(c),
{
    if 'A' <= c && c <= 'Z' {
        let v: u8 = (c as u8) + 32;
        v as char
    } else {
        c
    }
}

/// Upper-cases an ASCII letter.
pub fn char_ascii_upper(c: char) -> (r: char)
    ensures
        r == ascii_upper(c),
{
    if 'a' <= c && c <= 'z' {
        let v: u8 = (c as u8) - 32;
        v as char
    } else {
        c
    }
}

/// `s` with ASCII letters lower-cased, as `str::to_ascii_lowercase` does.
pub fn to_ascii_lowercase(s: &str) -> (r: String)
    ensures
        r@ == s@.map_values(|c: char| ascii_lower(c)),
{
    let cs = chars_of(s);
    let mut out: Vec<char> = Vec::new();
    let mut i: usize = 0;
    while i < cs.len()
        invariant
            i <= cs@.len(),
            out@ =~= cs@.take(i as int).map_values(|c: char| ascii_lower(c)),
        decreases cs@.len() - i,
    {
        out.push(char_ascii_lower(cs[i]));
        i += 1;
    }
    assert(cs@.take(i as int) =~= cs@);
    string_from_chars(out.as_slice())
}

/// `s` with ASCII letters upper-cased, as `str::to_ascii_uppercase` does.
pub fn to_ascii_uppercase(s: &str) -> (r: String)
    ensures
        r@ == s@.map_values(|c: char| ascii_upper(c)),
{
    let cs = chars_of(s);
    let mut out: Vec<char> = Vec::new();
    let mut i: usize = 0;
    while i < cs.len()
        invariant
            i <= cs@.len(),
            out@ =~= cs@.take(i as int).map_values(|c: char| ascii_upper(c)),
        decreases cs@.len() - i,
    {
        out.push(char_ascii_upper(cs[i]));
        i += 1;
    }
    assert(cs@.take(i as int) =~= cs@);
    string_from_chars(out.as_slice())
}

/// The White_Space characters of Unicode, which `char::is_whitespace` recognizes.
pub open spec fn is_white_space(c: char) -> bool {
    ||| '\u{9}' <= c <= '\u{d}'
    ||| c == ' '
    ||| c == '\u{85}'
    ||| c == '\u{a0}'
    ||| c == '\u{1680}'
    ||| '\u{2000}' <= c <= '\u{200a}'
    ||| c == '\u{2028}'
    ||| c == '\u{2029}'
    ||| c == '\u{202f}'
    ||| c == '\u{205f}'
    ||| c == '\u{3000}'
}

/// Whether `c` is a White_Space character.
pub fn char_is_white_space(c: char) -> (r: bool)
    ensures
        r == is_white_space(c),
{
    ('\u{9}' <= c && c <= '\u{d}') || c == ' ' || c == '\u{85}' || c == '\u{a0}' || c == '\u{1680}'
        || ('\u{2000}' <= c && c <= '\u{200a}') || c == '\u{2028}' || c == '\u{2029}' || c == '\u{202f}'
        || c == '\u{205f}' || c == '\u{3000}'
}

/// `s` without leading and trailing White_Space characters.
pub open spec fn trim_ws(s: Seq<char>) -> Seq<char>
    decreases s.len(),
{
    if s.len() > 0 && is_white_space(s[0]) {
        trim_ws(s.drop_first())
    } else if s.len() > 0 && is_white_space(s.last()) {
        trim_ws(s.drop_last())
    } else {
        s
    }
}

/// Bounds `(a, b)` of `cs` without its leading and trailing white space.
pub fn trim_bounds(cs: &[char]) -> (r: (usize, usize))
    ensures
        r.0 <= r.1 <= cs@.len(),
        cs@.subrange(r.0 as int, r.1 as int) == trim_ws(cs@),
{
    let n: usize = cs.len();
    let mut a: usize = 0;
    assert(cs@.subrange(0, n as int) =~= cs@);
    while a < n && char_is_white_space(cs[a])
        invariant
            a <= n == cs@.len(),
            trim_ws(cs@) == trim_ws(cs@.subrange(a as int, n as int)),
        decreases n - a,
    {
        assert(cs@.subrange(a as int, n as int).drop_first() =~= cs@.subrange(a + 1, n as int));
        a += 1;
    }
    let mut b: usize = n;
    while b > a && char_is_white_space(cs[b - 1])
        invariant
            a <= b <= n == cs@.len(),
            a < n ==> !is_white_space(cs@[a as int]),
            trim_ws(cs@) == trim_ws(cs@.subrange(a as int, b as int)),
        decreases b - a,
    {
        assert(cs@.subrange(a as int, b as int).drop_last() =~= cs@.subrange(a as int, b - 1));
        b -= 1;
    }
    (a, b)
}

/// `s` without leading and trailing white space, as `str::trim` gives it.
pub fn trim_str(s: &str) -> (r: String)
    ensures
        r@ == trim_ws(s@),
{
    let cs = chars_of(s);
    let (a, b) = trim_bounds(cs.as_slice());
    string_from_chars(vstd::slice::slice_subrange(cs.as_slice(), a, b))
}

/// Index of the first `c` in `s` at or after `p`, or the length of `s`.
pub open spec fn first_index_from(s: Seq<char>, p: int, c: char) -> int
    decreases s.len() - p,
{
    if p < 0 || p >= s.len() {
        s.len() as int
    } else if s[p] == c {
        p
    } else {
        first_index_from(s, p + 1, c)
    }
}

/// The first index found from `p` lies between `p` and the length.
pub proof fn lemma_first_index_bounds(s: Seq<char>, p: int, c: char)
    requires
        0 <= p <= s.len(),
    ensures
        p <= first_index_from(s, p, c) <= s.len(),
    decreases s.len() - p,
{
    if p < s.len() && s[p] != c {
        lemma_first_index_bounds(s, p + 1, c);
    }
}

pub fn first_index(s: &[char], p: usize, c: char) -> (r: usize)
    requires
        p <= s@.len(),
    ensures
        r == first_index_from(s@, p as int, c),
        p <= r <= s@.len(),
{
    let mut k: usize = p;
    while k < s.len() && s[k] != c
        invariant
            p <= k <= s@.len(),
            first_index_from(s@, p as int, c) == first_index_from(s@, k as int, c),
        decreases s@.len() - k,
    {
        k += 1;
    }
    k
}

/// Value of a sequence of decimal digit characters.
pub open spec fn digits_value(s: Seq<char>) -> int
    decreases s.len(),
{
    if s.len() == 0 {
        0
    } else {
        digits_value(s.drop_last()) * 10 + (s.last() as int - '0' as int)
    }
}

/// Every character is a decimal digit.
pub open spec fn all_digits(s: Seq<char>) -> bool {
    forall|i: int| 0 <= i < s.len() ==> '0' <= #[trigger] s[i] <= '9'
}

/// Text read as an unsigned 32-bit decimal number, as `str::parse::<u32>`
/// does: an optional leading `+`, then one or more digits, below 2^32.
pub open spec fn parse_u32_text(s: Seq<char>) -> Option<u32> {
    let digits = if s.len() >= 2 && s[0] == '+' { s.drop_first() } else { s };
    if digits.len() == 0 || !all_digits(digits) || digits_value(digits) > 0xFFFF_FFFF {
        None
    } else {
        Some(digits_value(digits) as u32)
    }
}

/// Parses an unsigned 32-bit decimal number.
pub fn parse_u32_chars(s: &[char]) -> (r: Option<u32>)
    ensures
        r == parse_u32_text(s@),
{
    let n: usize = s.len();
    let start: usize = if n >= 2 && s[0] == '+' { 1 } else { 0 };
    let ghost digits = s@.subrange(start as int, n as int);
    assert(digits =~= (if n >= 2 && s@[0] == '+' { s@.drop_first() } else { s@ }));
    if start == n {
        return None;
    }
    let mut acc: u64 = 0;
    let mut i: usize = start;
    while i < n
        invariant
            n == s@.len(),
            start <= i <= n,
            digits == s@.subrange(start as int, n as int),
            digits == (if n >= 2 && s@[0] == '+' { s@.drop_first() } else { s@ }),
            all_digits(s@.subrange(start as int, i as int)),
            acc == if digits_value(s@.subrange(start as int, i as int)) >= 0x1_0000_0000 {
                0x1_0000_0000
            } else {
                digits_value(s@.subrange(start as int, i as int))
            },
        decreases n - i,
    {
        let c = s[i];
        if c < '0' || c > '9' {
            assert(!all_digits(digits)) by {
                assert(digits[i - start] == c);
            }
            return None;
        }
        proof {
            let p = s@.subrange(start as int, i + 1);
            assert(p.drop_last() =~= s@.subrange(start as int, i as int));
            assert forall|k: int| 0 <= k < p.len() implies '0' <= #[trigger] p[k] <= '9' by {
                if k < p.len() - 1 {
                    assert(p[k] == s@.subrange(start as int, i as int)[k]);
                }
            }
        }
        let d: u64 = (c as u32 - '0' as u32) as u64;
        acc = if acc >= 0x1_0000_0000 {
            0x1_0000_0000
        } else if acc * 10 + d >= 0x1_0000_0000 {
            0x1_0000_0000
        } else {
            acc * 10 + d
        };
        i += 1;
    }
    if acc >= 0x1_0000_0000 {
        None
    } else {
        Some(acc as u32)
    }
}

/// Index of the first White_Space character of `s` at or after `p`, or the length.
pub open spec fn word_end(s: Seq<char>, p: int) -> int
    decreases s.len() - p,
{
    if p < 0 || p >= s.len() {
        s.len() as int
    } else if is_white_space(s[p]) {
        p
    } else {
        word_end(s, p + 1)
    }
}

/// Index of the first character of `s` at or after `p` that is not White_Space, or the length.
pub open spec fn word_start(s: Seq<char>, p: int) -> int
    decreases s.len() - p,
{
    if p < 0 || p >= s.len() {
        s.len() as int
    } else if !is_white_space(s[p]) {
        p
    } else {
        word_start(s, p + 1)
    }
}

/// Both scans stay between `p` and the length, and a word starting at a
/// character that is not white space is not empty.
pub proof fn lemma_word_bounds(s: Seq<char>, p: int)
    requires
        0 <= p <= s.len(),
    ensures
        p <= word_start(s, p) <= s.len(),
        p <= word_end(s, p) <= s.len(),
        p < s.len() && !is_white_space(s[p]) ==> word_end(s, p) > p,
        word_start(s, p) < s.len() ==> !is_white_space(s[word_start(s, p)]),
    decreases s.len() - p,
{
    if p < s.len() {
        lemma_word_bounds(s, p + 1);
    }
}

/// The words of `s` from `p` on: the maximal runs of characters that are not
/// White_Space, as `str::split_whitespace` yields them.
pub open spec fn words_from(s: Seq<char>, p: int) -> Seq<Seq<char>>
    decreases s.len() - p,
{
    if p < 0 || p >= s.len() {
        Seq::empty()
    } else {
        let a = word_start(s, p);
        if a >= s.len() {
            Seq::empty()
        } else {
            let b = word_end(s, a);
            proof {
                lemma_word_bounds(s, p);
                lemma_word_bounds(s, a);
            }
            seq![s.subrange(a, b)] + words_from(s, b)
        }
    }
}

/// The words of `s`.
pub open spec fn words(s: Seq<char>) -> Seq<Seq<char>> {
    words_from(s, 0)
}

/// The words of `cs`, each as its characters.
pub fn split_words(cs: &[char]) -> (r: Vec<Vec<char>>)
    ensures
        r@.len() == words(cs@).len(),
        forall|i: int| 0 <= i < r@.len() ==> (#[trigger] r@[i])@ == words(cs@)[i],
{
    let n: usize = cs.len();
    let mut out: Vec<Vec<char>> = Vec::new();
    let mut p: usize = 0;
    let ghost done: Seq<Seq<char>> = Seq::empty();
    while p < n
        invariant
            n == cs@.len(),
            p <= n,
            out@.len() == done.len(),
            forall|i: int| 0 <= i < out@.len() ==> (#[trigger] out@[i])@ == done[i],
            done + words_from(cs@, p as int) == words(cs@),
        decreases n - p,
    {
        let mut a: usize = p;
        while a < n && char_is_white_space(cs[a])
            invariant
                p <= a <= n == cs@.len(),
                word_start(cs@, p as int) == word_start(cs@, a as int),
            decreases n - a,
        {
            a += 1;
        }
        if a >= n {
            assert(words_from(cs@, p as int) =~= Seq::<Seq<char>>::empty());
            assert(done =~= words(cs@));
            p = n;
        } else {
            let mut b: usize = a;
            while b < n && !char_is_white_space(cs[b])
                invariant
                    a <= b <= n == cs@.len(),
                    word_end(cs@, a as int) == word_end(cs@, b as int),
                decreases n - b,
            {
                b += 1;
            }
            let w = vstd::slice::slice_to_vec(vstd::slice::slice_subrange(cs, a, b));
            proof {
                lemma_word_bounds(cs@, p as int);
                lemma_word_bounds(cs@, a as int);
                assert(words_from(cs@, p as int) =~= seq![cs@.subrange(a as int, b as int)] + words_from(
                    cs@,
                    b as int,
                ));
                assert((done.push(cs@.subrange(a as int, b as int))) + words_from(cs@, b as int) =~= done
                    + words_from(cs@, p as int));
            }
            out.push(w);
            proof {
                done = done.push(cs@.subrange(a as int, b as int));
            }
            p = b;
        }
    }
    assert(words_from(cs@, p as int) =~= Seq::<Seq<char>>::empty());
    assert(done =~= words(cs@));
    out
}

/// The character of a digit value below 16: `0`-`9`, then `A`-`F`.
pub open spec fn digit_char(d: int) -> char {
    if d < 10 {
        ((d + 48) as u8) as char
    } else {
        ((d + 55) as u8) as char
    }
}

/// Decimal digits of `n`, without leading zeros.
pub open spec fn dec_nat(n: nat) -> Seq<char>
    decreases n,
{
    if n < 10 {
        seq![digit_char(n as int)]
    } else {
        dec_nat(n / 10).push(digit_char((n % 10) as int))
    }
}

/// Decimal text of `i`, with `-` before a negative number.
pub open spec fn dec_int(i: int) -> Seq<char> {
    if i < 0 {
        seq!['-'] + dec_nat((-i) as nat)
    } else {
        dec_nat(i as nat)
    }
}

/// Upper-case hexadecimal digits of `n`, without leading zeros.
pub open spec fn hex_nat(n: nat) -> Seq<char>
    decreases n,
{
    if n < 16 {
        seq![digit_char(n as int)]
    } else {
        hex_nat(n / 16).push(digit_char((n % 16) as int))
    }
}

/// Upper-case hexadecimal digits of `n`, with zeros in front up to `width`.
pub open spec fn hex_pad(n: nat, width: nat) -> Seq<char> {
    let h = hex_nat(n);
    if h.len() >= width {
        h
    } else {
        Seq::new((width - h.len()) as nat, |i: int| '0') + h
    }
}

fn digit_of(d: u64) -> (c: char)
    requires
        d < 16,
    ensures
        c == digit_char(d as int),
{
    let b: u8 = d as u8;
    if b < 10 {
        (b + 48) as char
    } else {
        (b + 55) as char
    }
}

/// Appends the decimal digits of `n`.
pub fn push_dec(out: &mut Vec<char>, n: u64)
    ensures
        final(out)@ == old(out)@ + dec_nat(n as nat),
    decreases n,
{
    if n >= 10 {
        push_dec(out, n / 10);
    }
    out.push(digit_of(n % 10));
    assert(dec_nat(n as nat) =~= if n < 10 {
        seq![digit_char(n as int)]
    } else {
        dec_nat((n / 10) as nat).push(digit_char((n % 10) as int))
    });
}

/// Appends the decimal text of `v`.
pub fn push_dec_i32(out: &mut Vec<char>, v: i32)
    ensures
        final(out)@ == old(out)@ + dec_int(v as int),
{
    if v < 0 {
        out.push('-');
        let m: u64 = (0i64 - v as i64) as u64;
        push_dec(out, m);
    } else {
        push_dec(out, v as u64);
    }
}

fn push_hex_digits(out: &mut Vec<char>, n: u64)
    ensures
        final(out)@ == old(out)@ + hex_nat(n as nat),
    decreases n,
{
    if n >= 16 {
        push_hex_digits(out, n / 16);
    }
    out.push(digit_of(n % 16));
    assert(hex_nat(n as nat) =~= if n < 16 {
        seq![digit_char(n as int)]
    } else {
        hex_nat((n / 16) as nat).push(digit_char((n % 16) as int))
    });
}

/// Decimal digits of `n`, with zeros in front up to `width`.
pub open spec fn dec_pad(n: nat, width: nat) -> Seq<char> {
    let d = dec_nat(n);
    if d.len() >= width {
        d
    } else {
        Seq::new((width - d.len()) as nat, |i: int| '0') + d
    }
}

/// Appends the decimal digits of `n`, zero-padded to `width`.
pub fn push_dec_pad(out: &mut Vec<char>, n: u64, width: usize)
    ensures
        final(out)@ == old(out)@ + dec_pad(n as nat, width as nat),
{
    let mut digits: Vec<char> = Vec::new();
    push_dec(&mut digits, n);
    assert(digits@ =~= dec_nat(n as nat));
    let mut k: usize = digits.len();
    let ghost start = out@;
    while k < width
        invariant
            digits.len() <= k <= width || (k == digits.len() && k >= width),
            out@ == start + Seq::new((k - digits@.len()) as nat, |i: int| '0'),
        decreases width - k,
    {
        out.push('0');
        k += 1;
        assert(out@ =~= start + Seq::new((k - digits@.len()) as nat, |i: int| '0'));
    }
    out.append(&mut digits);
    assert(out@ =~= start + dec_pad(n as nat, width as nat));
}

/// Appends the upper-case hexadecimal digits of `n`, zero-padded to `width`.
pub fn push_hex(out: &mut Vec<char>, n: u64, width: usize)
    ensures
        final(out)@ == old(out)@ + hex_pad(n as nat, width as nat),
{
    let mut digits: Vec<char> = Vec::new();
    push_hex_digits(&mut digits, n);
    assert(digits@ =~= hex_nat(n as nat));
    let mut k: usize = digits.len();
    let ghost start = out@;
    while k < width
        invariant
            digits.len() <= k <= width || (k == digits.len() && k >= width),
            out@ == start + Seq::new((k - digits@.len()) as nat, |i: int| '0'),
        decreases width - k,
    {
        out.push('0');
        k += 1;
        assert(out@ =~= start + Seq::new((k - digits@.len()) as nat, |i: int| '0'));
    }
    let ghost before = out@;
    out.append(&mut digits);
    assert(out@ =~= start + hex_pad(n as nat, width as nat));
}

/// Appends the characters of a string literal or other text.
pub fn push_str_chars(out: &mut Vec<char>, s: &str)
    ensures
        final(out)@ == old(out)@ + s@,
{
    let mut cs = chars_of(s);
    out.append(&mut cs);
}

/// Whether the characters `a` are the text `s`.
pub fn chars_eq_str(a: &[char], s: &str) -> (r: bool)
    ensures
        r == (a@ == s@),
{
    let b = chars_of(s);
    if a.len() != b.len() {
        return false;
    }
    let mut i: usize = 0;
    while i < a.len()
        invariant
            a@.len() == b@.len(),
            b@ == s@,
            i <= a@.len(),
            a@.subrange(0, i as int) == b@.subrange(0, i as int),
        decreases a@.len() - i,
    {
        if a[i] != b[i] {
            assert(a@[i as int] != b@[i as int]);
            return false;
        }
        assert(a@.subrange(0, i + 1) =~= a@.subrange(0, i as int).push(a@[i as int]));
        assert(b@.subrange(0, i + 1) =~= b@.subrange(0, i as int).push(b@[i as int]));
        i += 1;
    }
    assert(a@ =~= a@.subrange(0, i as int));
    assert(b@ =~= b@.subrange(0, i as int));
    true
}

/// `cs` with its ASCII letters lower-cased.
pub fn lower_vec(cs: &[char]) -> (r: Vec<char>)
    ensures
        r@ == cs@.map_values(|c: char| ascii_lower(c)),
{
    let mut out: Vec<char> = Vec::new();
    let mut i: usize = 0;
    while i < cs.len()
        invariant
            i <= cs@.len(),
            out@ =~= cs@.take(i as int).map_values(|c: char| ascii_lower(c)),
        decreases cs@.len() - i,
    {
        out.push(char_ascii_lower(cs[i]));
        i += 1;
    }
    assert(cs@.take(i as int) =~= cs@);
    out
}

/// Bytes that the UTF-8 encoding of `c` takes.
pub open spec fn utf8_width(c: char) -> int {
    if (c as u32) < 0x80 {
        1
    } else if (c as u32) < 0x800 {
        2
    } else if (c as u32) < 0x10000 {
        3
    } else {
        4
    }
}

/// Bytes that the UTF-8 encoding of `s` takes.
pub open spec fn utf8_len(s: Seq<char>) -> int
    decreases s.len(),
{
    if s.len() == 0 {
        0
    } else {
        utf8_len(s.drop_last()) + utf8_width(s.last())
    }
}

/// The encoding of a prefix is no longer than that of the whole, and each
/// character adds at least one byte.
pub proof fn lemma_utf8_len_prefix(s: Seq<char>, k: int)
    requires
        0 <= k <= s.len(),
    ensures
        utf8_len(s.take(k)) <= utf8_len(s),
        utf8_len(s.take(k)) + (s.len() - k) <= utf8_len(s),
    decreases s.len(),
{
    if k < s.len() {
        assert(s.drop_last().take(k) =~= s.take(k));
        lemma_utf8_len_prefix(s.drop_last(), k);
    } else {
        assert(s.take(k) =~= s);
    }
}

/// Bytes that `c` takes in UTF-8, as `char::len_utf8` gives them.
pub fn char_utf8_width(c: char) -> (r: usize)
    ensures
        r == utf8_width(c),
{
    let v = c as u32;
    if v < 0x80 {
        1
    } else if v < 0x800 {
        2
    } else if v < 0x10000 {
        3
    } else {
        4
    }
}

/// The UTF-8 length of `cs` when it is at most `cap`, else `cap + 1`.
pub fn utf8_len_capped(cs: &[char], cap: usize) -> (r: usize)
    requires
        cap < usize::MAX,
    ensures
        utf8_len(cs@) <= cap ==> r == utf8_len(cs@),
        utf8_len(cs@) > cap ==> r == cap + 1,
{
    let mut acc: usize = 0;
    let mut i: usize = 0;
    while i < cs.len()
        invariant
            i <= cs@.len(),
            acc == utf8_len(cs@.take(i as int)),
            acc <= cap < usize::MAX,
        decreases cs@.len() - i,
    {
        assert(cs@.take(i + 1).drop_last() =~= cs@.take(i as int));
        let w = char_utf8_width(cs[i]);
        if w > cap - acc {
            proof {
                lemma_utf8_len_prefix(cs@, i + 1);
            }
            return cap + 1;
        }
        acc = acc + w;
        i += 1;
    }
    assert(cs@.take(i as int) =~= cs@);
    acc
}

/// `s` repeated `n` times.
pub open spec fn repeat_text(s: Seq<char>, n: nat) -> Seq<char>
    decreases n,
{
    if n == 0 {
        Seq::empty()
    } else {
        repeat_text(s, (n - 1) as nat) + s
    }
}

/// A decimal text has one digit below 10 and more from 10 on.
pub proof fn lemma_dec_nat_len(n: nat)
    ensures
        n < 10 ==> dec_nat(n).len() == 1,
        n >= 10 ==> dec_nat(n).len() >= 2,
    decreases n,
{
    if n >= 10 {
        lemma_dec_nat_len(n / 10);
    }
}

/// Distinct digit values below 10 have distinct characters.
pub proof fn lemma_digit_char_injective(x: int, y: int)
    requires
        0 <= x < 10,
        0 <= y < 10,
        digit_char(x) == digit_char(y),
    ensures
        x == y,
{
    let bx: u8 = (x + 48) as u8;
    let by_: u8 = (y + 48) as u8;
    assert(bx == x + 48);
    assert(by_ == y + 48);
    assert(bx as char == by_ as char);
    assert((bx as char) as u32 == bx as u32);
    assert((by_ as char) as u32 == by_ as u32);
}

/// Distinct numbers have distinct decimal texts.
pub proof fn lemma_dec_nat_injective(a: nat, b: nat)
    requires
        dec_nat(a) == dec_nat(b),
    ensures
        a == b,
    decreases a,
{
    lemma_dec_nat_len(a);
    lemma_dec_nat_len(b);
    if a < 10 {
        assert(b < 10);
        assert(dec_nat(a)[0] == digit_char(a as int));
        assert(dec_nat(b)[0] == digit_char(b as int));
        lemma_digit_char_injective(a as int, b as int);
    } else {
        let da = dec_nat(a);
        let db = dec_nat(b);
        assert(da.last() == db.last());
        lemma_digit_char_injective((a % 10) as int, (b % 10) as int);
        assert(da.drop_last() == db.drop_last());
        assert(da.drop_last() =~= dec_nat(a / 10));
        assert(db.drop_last() =~= dec_nat(b / 10));
        lemma_dec_nat_injective(a / 10, b / 10);
    }
}

} // verus!
