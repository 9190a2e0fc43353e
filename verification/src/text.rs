//! Decoding of guest strings, and the pieces that report lines are put together from.

use vstd::prelude::*;
use vstd::string::StringExecFns;

verus! {

// ---- std --------------------------------------------------------------------------------------

/// `String::push` appends the character to the end.
pub assume_specification[ String::push ](s: &mut String, ch: char)
    ensures
        final(s)@ == old(s)@.push(ch),
;

/// `v` is a Unicode scalar value: not a surrogate, and at most 0x10ffff.
pub open spec fn is_scalar_value(v: u32) -> bool {
    v < 0xd800 || 0xe000 <= v <= 0x10ffff
}

/// `char::from_u32` is the character with that code point, and `None` where there is none.
pub assume_specification[ char::from_u32 ](i: u32) -> (r: Option<char>)
    ensures
        r == if is_scalar_value(i) {
            Some(i as char)
        } else {
            None
        },
;

/// What `String::from_utf8_lossy` makes of a byte string.
pub uninterp spec fn utf8_lossy_chars(bytes: Seq<u8>) -> Seq<char>;

/// `String::from_utf8_lossy`: the string that the bytes encode where they are well-formed UTF-8.
/// How ill-formed stretches are split into replacement characters is left to the name.
#[verifier::external_body]
pub(crate) fn utf8_lossy(bytes: &[u8]) -> (r: String)
    ensures
        r@ == utf8_lossy_chars(bytes@),
        vstd::utf8::valid_utf8(bytes@) ==> r@ == vstd::utf8::decode_utf8(bytes@),
{
    String::from_utf8_lossy(bytes).into_owned()
}

/// What `str`'s `Debug` makes of a string: quoted, with escapes.
pub uninterp spec fn debug_chars(s: Seq<char>) -> Seq<char>;

/// Printable ASCII without quotes and backslashes.
pub open spec fn is_plain(s: Seq<char>) -> bool {
    forall|i: int|
        0 <= i < s.len() ==> ' ' <= #[trigger] s[i] <= '~' && s[i] != '"' && s[i] != '\'' && s[i]
            != '\\'
}

/// The text between double quotes.
pub open spec fn quoted(s: Seq<char>) -> Seq<char> {
    seq!['"'] + s + seq!['"']
}

/// `str`'s `Debug`, through `format!("{:?}")`. The claims are that the result depends on the string
/// alone, and that plain text is only put between quotes; which other characters are escaped, and
/// how, is left to the name.
#[verifier::external_body]
pub(crate) fn debug_text(s: &str) -> (r: String)
    ensures
        r@ == debug_chars(s@),
        is_plain(s@) ==> r@ == quoted(s@),
{
    format!("{:?}", s)
}

// ---- characters -------------------------------------------------------------------------------

pub(crate) fn chars_of(s: &str) -> (r: Vec<char>)
    ensures
        r@ == s@,
{
    let mut r: Vec<char> = Vec::new();
    for c in it: s.chars()
        invariant
            r@ == it.seq().take(it.index() as int),
            it.seq() == s@,
    {
        r.push(c);
    }
    r
}

/// `pat` occurs in `s`.
pub open spec fn contains_text(s: Seq<char>, pat: Seq<char>) -> bool {
    exists|i: int| 0 <= i <= s.len() - pat.len() && #[trigger] s.subrange(i, i + pat.len()) == pat
}

pub fn contains(s: &str, pat: &str) -> (r: bool)
    ensures
        r == contains_text(s@, pat@),
{
    let hay = chars_of(s);
    let needle = chars_of(pat);
    if needle.len() > hay.len() {
        return false;
    }
    let last: usize = hay.len() - needle.len();
    let mut i: usize = 0;
    while i <= last
        invariant
            hay@ == s@,
            needle@ == pat@,
            last == hay.len() - needle.len(),
            i <= last + 1,
            forall|j: int| 0 <= j < i ==> #[trigger] s@.subrange(j, j + pat@.len()) != pat@,
        decreases last + 1 - i,
    {
        let mut k: usize = 0;
        while k < needle.len() && hay[i + k] == needle[k]
            invariant
                hay@ == s@,
                needle@ == pat@,
                i + needle.len() <= hay.len(),
                k <= needle.len(),
                forall|j: int| 0 <= j < k ==> hay@[i + j] == needle@[j],
            decreases needle.len() - k,
        {
            k += 1;
        }
        if k == needle.len() {
            assert(s@.subrange(i as int, i + pat@.len()) =~= pat@);
            return true;
        }
        assert(s@.subrange(i as int, i + pat@.len())[k as int] != pat@[k as int]);
        if i == last {
            return false;
        }
        i += 1;
    }
    false
}

// ---- UTF-16 -----------------------------------------------------------------------------------

/// The supplementary character of a surrogate pair.
pub open spec fn surrogate_pair(high: u16, low: u16) -> char {
    (0x10000 + (high - 0xd800) * 0x400 + (low - 0xdc00)) as char
}

/// UTF-16 with every unpaired surrogate replaced by U+FFFD.
pub open spec fn utf16_lossy_chars(units: Seq<u16>) -> Seq<char>
    decreases units.len(),
{
    if units.len() == 0 {
        seq![]
    } else if units[0] < 0xd800 || 0xdfff < units[0] {
        seq![units[0] as char] + utf16_lossy_chars(units.skip(1))
    } else if units[0] < 0xdc00 && units.len() > 1 && 0xdc00 <= units[1] <= 0xdfff {
        seq![surrogate_pair(units[0], units[1])] + utf16_lossy_chars(units.skip(2))
    } else {
        seq!['\u{fffd}'] + utf16_lossy_chars(units.skip(1))
    }
}

fn scalar(v: u32) -> (r: char)
    requires
        is_scalar_value(v),
    ensures
        r == v as char,
{
    match char::from_u32(v) {
        Some(c) => c,
        None => '\u{fffd}',
    }
}

pub fn utf16_lossy(units: &Vec<u16>) -> (r: String)
    ensures
        r@ == utf16_lossy_chars(units@),
{
    let mut r = String::new();
    let mut i: usize = 0;
    assert(units@.skip(0) =~= units@);
    while i < units.len()
        invariant
            i <= units.len(),
            utf16_lossy_chars(units@) == r@ + utf16_lossy_chars(units@.skip(i as int)),
        decreases units.len() - i,
    {
        let ghost rest = units@.skip(i as int);
        assert(rest.skip(1) =~= units@.skip(i + 1));
        let ghost done = r@;
        let u: u16 = units[i];
        if u < 0xd800 || 0xdfff < u {
            let c = scalar(u as u32);
            assert(c == u as char);
            r.push(c);
            i += 1;
            assert(r@ =~= done + seq![c]);
        } else if u < 0xdc00 && i + 1 < units.len() && 0xdc00 <= units[i + 1] && units[i + 1]
            <= 0xdfff {
            let v: u16 = units[i + 1];
            assert(rest.skip(2) =~= units@.skip(i + 2));
            let c = scalar(0x10000u32 + (u as u32 - 0xd800) * 0x400 + (v as u32 - 0xdc00));
            r.push(c);
            i += 2;
            assert(r@ =~= done + seq![c]);
        } else {
            r.push('\u{fffd}');
            i += 1;
            assert(r@ =~= done + seq!['\u{fffd}']);
        }
        assert(utf16_lossy_chars(units@) =~= r@ + utf16_lossy_chars(units@.skip(i as int)));
    }
    assert(units@.skip(i as int) =~= seq![]);
    assert(r@ + Seq::<char>::empty() =~= r@);
    r
}

// ---- numbers ----------------------------------------------------------------------------------

pub open spec fn digit_char(d: nat) -> char {
    if d < 10 {
        (48 + d) as char
    } else {
        (87 + d) as char
    }
}

/// The digits of `n` to the given base, most significant first, without leading zeros.
pub open spec fn digits(n: nat, base: nat) -> Seq<char>
    decreases n,
    when base >= 2
    via digits_decreases
{
    if n < base {
        seq![digit_char(n)]
    } else {
        digits(n / base, base).push(digit_char(n % base))
    }
}

#[via_fn]
proof fn digits_decreases(n: nat, base: nat) {
    if n >= base {
        vstd::arithmetic::div_mod::lemma_div_decreases(n as int, base as int);
    }
}

pub open spec fn decimal_chars(n: u64) -> Seq<char> {
    digits(n as nat, 10)
}

/// `{:#x}`
pub open spec fn hex_chars(n: u64) -> Seq<char> {
    seq!['0', 'x'] + digits(n as nat, 16)
}

pub open spec fn signed_chars(n: i64) -> Seq<char> {
    if n < 0 {
        seq!['-'] + digits(-n as nat, 10)
    } else {
        digits(n as nat, 10)
    }
}

fn digit_of(d: u64) -> (r: char)
    requires
        d < 16,
    ensures
        r == digit_char(d as nat),
{
    if d < 10 {
        (48 + d) as u8 as char
    } else {
        (87 + d) as u8 as char
    }
}

fn push_digits(r: &mut String, n: u64, base: u64)
    requires
        2 <= base <= 16,
    ensures
        final(r)@ == old(r)@ + digits(n as nat, base as nat),
    decreases n,
{
    if n < base {
        r.push(digit_of(n));
    } else {
        proof {
            vstd::arithmetic::div_mod::lemma_div_decreases(n as int, base as int);
        }
        push_digits(r, n / base, base);
        r.push(digit_of(n % base));
    }
    assert(r@ =~= old(r)@ + digits(n as nat, base as nat));
}

pub fn decimal(n: u64) -> (r: String)
    ensures
        r@ == decimal_chars(n),
{
    let mut r = String::new();
    push_digits(&mut r, n, 10);
    assert(r@ =~= decimal_chars(n));
    r
}

pub fn hex(n: u64) -> (r: String)
    ensures
        r@ == hex_chars(n),
{
    let mut r = String::new();
    r.push('0');
    r.push('x');
    push_digits(&mut r, n, 16);
    assert(r@ =~= hex_chars(n));
    r
}

pub fn signed(n: i64) -> (r: String)
    ensures
        r@ == signed_chars(n),
{
    let mut r = String::new();
    if n < 0 {
        r.push('-');
        let m: u64 = if n == i64::MIN {
            0x8000_0000_0000_0000
        } else {
            (-n) as u64
        };
        push_digits(&mut r, m, 10);
    } else {
        push_digits(&mut r, n as u64, 10);
    }
    assert(r@ =~= signed_chars(n));
    r
}

// ---- layout -----------------------------------------------------------------------------------

pub open spec fn repeated(c: char, n: int) -> Seq<char> {
    Seq::new(
        if n > 0 {
            n as nat
        } else {
            0
        },
        |i: int| c,
    )
}

/// `{:<width}`
pub open spec fn padded_right(s: Seq<char>, width: nat) -> Seq<char> {
    s + repeated(' ', width - s.len())
}

/// `{:>width}`
pub open spec fn padded_left(s: Seq<char>, width: nat) -> Seq<char> {
    repeated(' ', width - s.len()) + s
}

/// `{:#0widthx}`: the prefix counts towards the width.
pub open spec fn hex_padded_chars(n: u64, width: nat) -> Seq<char> {
    seq!['0', 'x'] + repeated('0', width - 2 - digits(n as nat, 16).len()) + digits(n as nat, 16)
}

fn push_repeated(r: &mut String, c: char, from: usize, to: usize)
    ensures
        final(r)@ == old(r)@ + repeated(c, to - from),
{
    let mut i: usize = from;
    let ghost start = r@;
    assert(r@ =~= start + repeated(c, 0));
    while i < to
        invariant
            from <= i,
            i <= to || i == from,
            r@ == start + repeated(c, i - from),
        decreases to - i,
    {
        r.push(c);
        i += 1;
        assert(r@ =~= start + repeated(c, i - from));
    }
    assert(r@ =~= start + repeated(c, to - from));
}

pub fn pad_right(s: &str, width: usize) -> (r: String)
    ensures
        r@ == padded_right(s@, width as nat),
{
    let n: usize = chars_of(s).len();
    let mut r = s.to_owned();
    push_repeated(&mut r, ' ', n, width);
    r
}

pub fn pad_left(s: &str, width: usize) -> (r: String)
    ensures
        r@ == padded_left(s@, width as nat),
{
    let n: usize = chars_of(s).len();
    let mut r = String::new();
    push_repeated(&mut r, ' ', n, width);
    r.append(s);
    assert(r@ =~= padded_left(s@, width as nat));
    r
}

pub fn hex_padded(n: u64, width: usize) -> (r: String)
    requires
        width >= 2,
    ensures
        r@ == hex_padded_chars(n, width as nat),
{
    let mut body = String::new();
    push_digits(&mut body, n, 16);
    let len: usize = chars_of(body.as_str()).len();
    let mut r = String::new();
    r.push('0');
    r.push('x');
    push_repeated(&mut r, '0', len, width - 2);
    r.append(body.as_str());
    assert(body@ =~= digits(n as nat, 16));
    assert(r@ =~= hex_padded_chars(n, width as nat));
    r
}

/// The parts in order, `sep` between each two.
pub open spec fn joined(parts: Seq<Seq<char>>, sep: Seq<char>) -> Seq<char>
    decreases parts.len(),
{
    if parts.len() == 0 {
        seq![]
    } else if parts.len() == 1 {
        parts[0]
    } else {
        joined(parts.drop_last(), sep) + sep + parts.last()
    }
}

/// The contents of each string.
pub open spec fn texts(v: Seq<String>) -> Seq<Seq<char>> {
    Seq::new(v.len(), |i: int| v[i]@)
}

pub broadcast proof fn texts_push(v: Seq<String>, s: String)
    ensures
        #[trigger] texts(v.push(s)) == texts(v).push(s@),
{
    assert(texts(v.push(s)) =~= texts(v).push(s@));
}

pub fn join(parts: &Vec<String>, sep: &str) -> (r: String)
    ensures
        r@ == joined(texts(parts@), sep@),
{
    let mut r = String::new();
    let mut i: usize = 0;
    while i < parts.len()
        invariant
            i <= parts.len(),
            r@ == joined(texts(parts@).take(i as int), sep@),
        decreases parts.len() - i,
    {
        if i > 0 {
            r.append(sep);
        }
        r.append(parts[i].as_str());
        proof {
            let next = texts(parts@).take(i + 1);
            assert(next.drop_last() =~= texts(parts@).take(i as int));
            assert(r@ =~= joined(next, sep@));
        }
        i += 1;
    }
    assert(texts(parts@).take(i as int) =~= texts(parts@));
    r
}

/// `{:?}` of a list of numbers.
pub open spec fn number_list_chars(v: Seq<u64>) -> Seq<char> {
    seq!['['] + joined(Seq::new(v.len(), |i: int| decimal_chars(v[i])), ", "@) + seq![']']
}

pub fn number_list(v: &Vec<u64>) -> (r: String)
    ensures
        r@ == number_list_chars(v@),
{
    let mut parts: Vec<String> = Vec::new();
    let mut i: usize = 0;
    while i < v.len()
        invariant
            i <= v.len(),
            parts.len() == i,
            forall|j: int| 0 <= j < i ==> (#[trigger] parts@[j])@ == decimal_chars(v@[j]),
        decreases v.len() - i,
    {
        parts.push(decimal(v[i]));
        i += 1;
    }
    let mut r = String::new();
    r.push('[');
    let body = join(&parts, ", ");
    assert(texts(parts@) =~= Seq::new(v@.len(), |i: int| decimal_chars(v@[i])));
    r.append(body.as_str());
    r.push(']');
    assert(r@ =~= number_list_chars(v@));
    r
}

} // verus!
