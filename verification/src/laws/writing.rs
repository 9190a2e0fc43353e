//! What written numbers and texts can be read back as.

use crate::text::{
    contains_text, decimal_chars, digit_char, digits, hex_chars, hex_padded_chars, joined,
    number_list_chars, padded_left, padded_right, repeated, signed_chars, surrogate_pair,
    utf16_lossy_chars,
};
use vstd::prelude::*;

verus! {

// ---- numbers ----------------------------------------------------------------------------------

/// What a digit stands for; 99 for any other character.
pub open spec fn worth(c: char) -> int {
    if '0' <= c <= '9' {
        c as int - '0' as int
    } else if 'a' <= c <= 'f' {
        c as int - 'a' as int + 10
    } else {
        99
    }
}

/// The number that digits to some base read as.
pub open spec fn reads_as(s: Seq<char>, base: int) -> int
    decreases s.len(),
{
    if s.len() == 0 {
        0
    } else {
        reads_as(s.drop_last(), base) * base + worth(s.last())
    }
}

/// The usual way to write `n` to some base: digits only, no leading zero.
pub open spec fn writes(s: Seq<char>, n: int, base: int) -> bool {
    &&& s.len() > 0
    &&& forall|i: int| 0 <= i < s.len() ==> worth(#[trigger] s[i]) < base
    &&& s.len() > 1 ==> s[0] != '0'
    &&& reads_as(s, base) == n
}

pub open spec fn is_decimal(s: Seq<char>, n: int) -> bool {
    writes(s, n, 10)
}

/// The number in decimal, with a minus sign if it is negative.
pub open spec fn is_signed(s: Seq<char>, n: int) -> bool {
    if n < 0 {
        s.len() > 0 && s[0] == '-' && is_decimal(s.skip(1), -n)
    } else {
        is_decimal(s, n)
    }
}

/// `0x` and the number to base 16.
pub open spec fn is_hex(s: Seq<char>, n: int) -> bool {
    s.len() > 2 && s[0] == '0' && s[1] == 'x' && writes(s.skip(2), n, 16)
}

proof fn lemma_digits(n: nat, base: nat)
    requires
        2 <= base <= 16,
    ensures
        writes(digits(n, base), n as int, base as int),
        n > 0 ==> digits(n, base)[0] != '0',
    decreases n,
{
    let s = digits(n, base);
    if n < base {
        assert(s =~= seq![digit_char(n)]);
        assert(s.drop_last() =~= seq![]);
        assert(reads_as(s.drop_last(), base as int) == 0);
        assert(0int * base == 0) by (nonlinear_arith);
    } else {
        vstd::arithmetic::div_mod::lemma_div_decreases(n as int, base as int);
        vstd::arithmetic::div_mod::lemma_fundamental_div_mod(n as int, base as int);
        vstd::arithmetic::div_mod::lemma_mod_bound(n as int, base as int);
        assert(n / base > 0) by (nonlinear_arith)
            requires
                n >= base,
                base > 0,
        ;
        lemma_digits(n / base, base);
        let front = digits(n / base, base);
        assert(s.drop_last() =~= front);
        assert(base * (n / base) == (n / base) * base) by (nonlinear_arith);
        assert forall|i: int| 0 <= i < s.len() implies worth(#[trigger] s[i]) < base by {
            if i < front.len() {
                assert(s[i] == front[i]);
            }
        }
        assert(s[0] == front[0]);
    }
}

/// A number that was written in decimal reads as that number.
pub proof fn decimals_read_back(n: u64)
    ensures
        is_decimal(decimal_chars(n), n as int),
{
    lemma_digits(n as nat, 10);
}

/// So does a signed one.
pub proof fn signed_decimals_read_back(n: i64)
    ensures
        is_signed(signed_chars(n), n as int),
{
    lemma_digits((if n < 0 { -n } else { n as int }) as nat, 10);
    if n < 0 {
        assert(signed_chars(n).skip(1) =~= digits(-n as nat, 10));
    }
}

/// A number that was written in hexadecimal reads as that number.
pub proof fn hex_reads_back(n: u64)
    ensures
        is_hex(hex_chars(n), n as int),
{
    lemma_digits(n as nat, 16);
    assert(hex_chars(n).skip(2) =~= digits(n as nat, 16));
}

/// Filled up to a width, a hexadecimal number is not shorter than that, longer only where it has
/// to be, and reads as the same number.
pub proof fn padded_hex_reads_back(n: u64, width: nat)
    requires
        width >= 2,
    ensures
        ({
            let s = hex_padded_chars(n, width);
            let plain = hex_chars(n);
            &&& s.len() == if plain.len() > width {
                plain.len()
            } else {
                width
            }
            &&& s[0] == '0' && s[1] == 'x'
            &&& s.skip(s.len() - (plain.len() - 2)) == plain.skip(2)
            &&& forall|i: int| 2 <= i < s.len() - (plain.len() - 2) ==> s[i] == '0'
        }),
{
    lemma_digits(n as nat, 16);
    let s = hex_padded_chars(n, width);
    let d = digits(n as nat, 16);
    let k = width - 2 - d.len();
    assert(hex_chars(n).skip(2) =~= d);
    let z = repeated('0', k);
    assert(s =~= seq!['0', 'x'] + z + d);
    assert(s.skip(s.len() - d.len()) =~= d);
}

// ---- layout -----------------------------------------------------------------------------------

/// A padded text is at least as long as asked for, no longer than it has to be, and apart from the
/// text itself only spaces: behind it, or in front of it.
pub proof fn padding_is_spaces(s: Seq<char>, width: nat)
    ensures
        ({
            let r = padded_right(s, width);
            let l = padded_left(s, width);
            let n = if s.len() > width {
                s.len()
            } else {
                width
            };
            &&& r.len() == n && l.len() == n
            &&& r.take(s.len() as int) == s && l.skip(n - s.len()) == s
            &&& forall|i: int| s.len() <= i < n ==> r[i] == ' '
            &&& forall|i: int| 0 <= i < n - s.len() ==> l[i] == ' '
        }),
{
    let r = padded_right(s, width);
    let l = padded_left(s, width);
    assert(r.take(s.len() as int) =~= s);
    assert(l.skip(l.len() - s.len()) =~= s);
}

/// Joining what is in front and what is behind, with the separator between, is joining all.
pub proof fn joining_is_associative(a: Seq<Seq<char>>, b: Seq<Seq<char>>, sep: Seq<char>)
    requires
        a.len() > 0,
        b.len() > 0,
    ensures
        joined(a + b, sep) == joined(a, sep) + sep + joined(b, sep),
    decreases b.len(),
{
    assert((a + b).drop_last() =~= a + b.drop_last());
    if b.len() == 1 {
        assert(b.drop_last() =~= seq![]);
        assert(a + b.drop_last() =~= a);
    } else {
        joining_is_associative(a, b.drop_last(), sep);
        assert(joined(a + b, sep) =~= joined(a, sep) + sep + joined(b, sep));
    }
}

/// Nothing joined is empty, and one part is itself.
pub proof fn joining_few(part: Seq<char>, sep: Seq<char>)
    ensures
        joined(seq![], sep).len() == 0,
        joined(seq![part], sep) == part,
{
}

/// A list of numbers is written between brackets, and one more number at its end adds a separator
/// (unless it is the first) and its decimal.
pub proof fn number_lists_grow_at_the_end(v: Seq<u64>, n: u64)
    ensures
        number_list_chars(seq![]) == seq!['[', ']'],
        v.len() == 0 ==> number_list_chars(v.push(n)) == seq!['['] + decimal_chars(n) + seq![']'],
        v.len() > 0 ==> number_list_chars(v.push(n)) == number_list_chars(v).drop_last() + seq![
            ',',
            ' ',
        ] + decimal_chars(n) + seq![']'],
{
    reveal_strlit(", ");
    let of = |w: Seq<u64>| Seq::new(w.len(), |i: int| decimal_chars(w[i]));
    let one = seq![decimal_chars(n)];
    assert(of(seq![]) =~= seq![]);
    assert(number_list_chars(seq![]) =~= seq!['[', ']']);
    assert(Seq::new(v.push(n).len(), |i: int| decimal_chars(v.push(n)[i])) =~= Seq::new(
        v.len(),
        |i: int| decimal_chars(v[i]),
    ) + one);
    joining_few(decimal_chars(n), ", "@);
    if v.len() > 0 {
        joining_is_associative(Seq::new(v.len(), |i: int| decimal_chars(v[i])), one, ", "@);
        assert(", "@ =~= seq![',', ' ']);
        assert(number_list_chars(v.push(n)) =~= number_list_chars(v).drop_last() + seq![',', ' ']
            + decimal_chars(n) + seq![']']);
    } else {
        assert(Seq::new(v.len(), |i: int| decimal_chars(v[i])) + one =~= one);
    }
}

/// A text contains what stands somewhere in it, and nothing else.
pub proof fn contained_texts_stand_inside(before: Seq<char>, pat: Seq<char>, after: Seq<char>)
    ensures
        contains_text(before + pat + after, pat),
{
    let s = before + pat + after;
    assert(s.subrange(before.len() as int, before.len() as int + pat.len()) =~= pat);
}

/// What is contained stands somewhere inside.
pub proof fn texts_without_it_do_not_contain_it(s: Seq<char>, pat: Seq<char>)
    ensures
        contains_text(s, pat) ==> exists|i: int|
            0 <= i <= s.len() - pat.len() && s =~= #[trigger] s.take(i) + pat + s.skip(
                i + pat.len(),
            ),
{
    if contains_text(s, pat) {
        let i = choose|i: int|
            0 <= i <= s.len() - pat.len() && #[trigger] s.subrange(i, i + pat.len()) == pat;
        assert forall|k: int| 0 <= k < s.len() implies s[k] == (s.take(i) + pat + s.skip(
            i + pat.len(),
        ))[k] by {
            if i <= k < i + pat.len() {
                assert(pat[k - i] == s.subrange(i, i + pat.len())[k - i]);
            }
        }
        assert(s =~= s.take(i) + pat + s.skip(i + pat.len()));
    }
}

// ---- UTF-16 -----------------------------------------------------------------------------------

/// A character in UTF-16.
pub open spec fn units_of_char(c: char) -> Seq<u16> {
    let v = c as int;
    if v < 0x10000 {
        seq![v as u16]
    } else {
        seq![(0xd800 + (v - 0x10000) / 0x400) as u16, (0xdc00 + (v - 0x10000) % 0x400) as u16]
    }
}

/// A text in UTF-16.
pub open spec fn units_of_text(s: Seq<char>) -> Seq<u16>
    decreases s.len(),
{
    if s.len() == 0 {
        seq![]
    } else {
        units_of_char(s[0]) + units_of_text(s.skip(1))
    }
}

/// Text that was written in UTF-16 reads as that text.
pub proof fn utf16_reads_back(s: Seq<char>)
    ensures
        utf16_lossy_chars(units_of_text(s)) == s,
    decreases s.len(),
{
    if s.len() > 0 {
        utf16_reads_back(s.skip(1));
        utf16_reads_on(s[0], units_of_text(s.skip(1)));
        assert(seq![s[0]] + s.skip(1) =~= s);
    } else {
        assert(s =~= seq![]);
    }
}

/// A surrogate that is not one of a pair reads as U+FFFD, and what follows is read as ever.
pub proof fn lone_surrogates_are_replaced(units: Seq<u16>)
    requires
        units.len() > 0,
        0xd800 <= units[0] <= 0xdfff,
        0xdc00 <= units[0] || units.len() == 1 || !(0xdc00 <= units[1] <= 0xdfff),
    ensures
        utf16_lossy_chars(units).len() > 0,
        utf16_lossy_chars(units)[0] == '\u{fffd}',
        utf16_lossy_chars(units).skip(1) == utf16_lossy_chars(units.skip(1)),
{
    assert((seq!['\u{fffd}'] + utf16_lossy_chars(units.skip(1))).skip(1) =~= utf16_lossy_chars(
        units.skip(1),
    ));
}

/// A text is read character by character, so one that is followed by anything is read first.
pub proof fn utf16_reads_on(c: char, units: Seq<u16>)
    ensures
        utf16_lossy_chars(units_of_char(c) + units) == seq![c] + utf16_lossy_chars(units),
{
    let u = units_of_char(c) + units;
    let v = c as int;
    assert(v < 0xd800 || 0xe000 <= v <= 0x10ffff);
    if v < 0x10000 {
        assert(u.skip(1) =~= units);
        assert(u[0] as char == c);
    } else {
        assert(u.skip(2) =~= units);
        assert(surrogate_pair(u[0], u[1]) == c);
    }
}

} // verus!
