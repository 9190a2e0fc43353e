//! Profiles as they are shipped: xz-compressed text.

use crate::text::{utf8_lossy, utf8_lossy_chars};
use vstd::prelude::*;
use vstd::slice::slice_subrange;
use vstd::utf8::{
    decode_utf8, encode_utf8, encode_utf8_decode_utf8, encode_utf8_valid_utf8, valid_utf8,
};

verus! {

/// Why a compressed profile cannot be used.
#[derive(Clone, Copy, Debug, PartialEq, Eq, Structural)]
pub enum ProfileError {
    /// The file holds nothing.
    Empty,
    /// The file is no intact xz stream.
    Corrupt,
}

// ---- checksums --------------------------------------------------------------------------------

/// One bit of a CRC-32 (reflected, polynomial 0x04c11db7).
pub open spec fn crc_bit(c: u32) -> u32 {
    if c & 1 == 1 {
        (c >> 1) ^ 0xedb8_8320u32
    } else {
        c >> 1
    }
}

pub open spec fn crc_bits(c: u32, n: nat) -> u32
    decreases n,
{
    if n == 0 {
        c
    } else {
        crc_bit(crc_bits(c, (n - 1) as nat))
    }
}

pub open spec fn crc_state(bytes: Seq<u8>) -> u32
    decreases bytes.len(),
{
    if bytes.len() == 0 {
        0xffff_ffff
    } else {
        crc_bits(crc_state(bytes.drop_last()) ^ (bytes.last() as u32), 8)
    }
}

/// The CRC-32 that xz uses.
pub open spec fn crc32(bytes: Seq<u8>) -> u32 {
    !crc_state(bytes)
}

fn crc32_of(bytes: &Vec<u8>) -> (r: u32)
    ensures
        r == crc32(bytes@),
{
    let mut c: u32 = 0xffff_ffff;
    let mut i: usize = 0;
    while i < bytes.len()
        invariant
            i <= bytes.len(),
            c == crc_state(bytes@.take(i as int)),
        decreases bytes.len() - i,
    {
        let ghost upto = bytes@.take(i + 1);
        assert(upto.drop_last() =~= bytes@.take(i as int));
        let start: u32 = c ^ (bytes[i] as u32);
        c = start;
        let mut n: u8 = 0;
        while n < 8
            invariant
                n <= 8,
                c == crc_bits(start, n as nat),
            decreases 8 - n,
        {
            c = if c & 1 == 1 {
                (c >> 1) ^ 0xedb8_8320u32
            } else {
                c >> 1
            };
            n += 1;
        }
        i += 1;
    }
    assert(bytes@.take(i as int) =~= bytes@);
    !c
}

proof fn lemma_crc_bits_differ(a: u32, b: u32, n: nat)
    requires
        a != b,
    ensures
        crc_bits(a, n) != crc_bits(b, n),
    decreases n,
{
    if n > 0 {
        lemma_crc_bits_differ(a, b, (n - 1) as nat);
        let x = crc_bits(a, (n - 1) as nat);
        let y = crc_bits(b, (n - 1) as nat);
        assert(crc_bit(x) != crc_bit(y)) by (bit_vector)
            requires
                x != y,
        ;
    }
}

/// Texts of the same length that differ in one byte have different checksums.
proof fn lemma_crc_differs(a: Seq<u8>, b: Seq<u8>, at: int)
    requires
        a.len() == b.len(),
        0 <= at < a.len(),
        a[at] != b[at],
        forall|j: int| 0 <= j < a.len() && j != at ==> a[j] == b[j],
    ensures
        crc_state(a) != crc_state(b),
    decreases a.len(),
{
    let c = crc_state(a.drop_last());
    let d = crc_state(b.drop_last());
    let x = a.last() as u32;
    let y = b.last() as u32;
    if at == a.len() - 1 {
        assert(a.drop_last() =~= b.drop_last());
        assert(c ^ x != c ^ y) by (bit_vector)
            requires
                x != y,
        ;
        lemma_crc_bits_differ(c ^ x, c ^ y, 8);
    } else {
        lemma_crc_differs(a.drop_last(), b.drop_last(), at);
        assert(c ^ x != d ^ x) by (bit_vector)
            requires
                c != d,
        ;
        lemma_crc_bits_differ(c ^ x, d ^ x, 8);
    }
}

/// The four bytes of a word, the lowest first.
pub open spec fn le_bytes(v: u32) -> Seq<u8> {
    seq![
        (v & 0xff) as u8,
        ((v >> 8) & 0xff) as u8,
        ((v >> 16) & 0xff) as u8,
        ((v >> 24) & 0xff) as u8,
    ]
}

fn push_le(out: &mut Vec<u8>, v: u32)
    ensures
        final(out)@ == old(out)@ + le_bytes(v),
{
    out.push((v & 0xff) as u8);
    out.push(((v >> 8) & 0xff) as u8);
    out.push(((v >> 16) & 0xff) as u8);
    out.push(((v >> 24) & 0xff) as u8);
    assert(out@ =~= old(out)@ + le_bytes(v));
}

// ---- where a footer can be --------------------------------------------------------------------

/// A number of an index, at most `left` bytes long: seven bits a byte, the lowest first, the top
/// bit set on all but the last. With it comes the offset behind it.
pub open spec fn number(file: Seq<u8>, at: int, left: nat) -> Option<(nat, int)>
    decreases left,
{
    if left == 0 || !(0 <= at < file.len()) {
        None
    } else if file[at] < 0x80 {
        Some((file[at] as nat, at + 1))
    } else {
        match number(file, at + 1, (left - 1) as nat) {
            None => None,
            Some((high, end)) => Some(((file[at] - 0x80 + 0x80 * high) as nat, end)),
        }
    }
}

/// The offset behind `count` numbers.
pub open spec fn behind_numbers(file: Seq<u8>, at: int, count: nat) -> Option<int>
    decreases count,
{
    if count == 0 {
        Some(at)
    } else {
        match number(file, at, 9) {
            None => None,
            Some((_, end)) => behind_numbers(file, end, (count - 1) as nat),
        }
    }
}

/// If an index starts at `s`, the offset of the backward size in the footer behind it. An index is
/// a zero byte, the number of records, two numbers for each, padding to a multiple of four and a
/// checksum; the footer starts with a checksum too.
pub open spec fn size_offset(file: Seq<u8>, s: int) -> Option<int> {
    if !(0 <= s < file.len()) || file[s] != 0 {
        None
    } else {
        match number(file, s + 1, 9) {
            None => None,
            Some((records, at)) => match behind_numbers(file, at, 2 * records) {
                None => None,
                Some(end) => Some((end + 3) / 4 * 4 + 8),
            },
        }
    }
}

pub open spec fn all_ones_at(file: Seq<u8>, i: int) -> bool {
    &&& 0 <= i
    &&& i + 4 <= file.len()
    &&& file[i] == 0xff
    &&& file[i + 1] == 0xff
    &&& file[i + 2] == 0xff
    &&& file[i + 3] == 0xff
}

/// What could be an index at `s` is followed by what would be a footer with a backward size, at
/// `i`, of all ones.
pub open spec fn ones_behind_index(file: Seq<u8>, s: int, i: int) -> bool {
    &&& 12 <= s
    &&& s % 4 == 0
    &&& size_offset(file, s) == Some(i)
    &&& all_ones_at(file, i)
}

/// The backward size of an index from `s` to the footer that has it at `i`. It counts words, less
/// one; of these 32 bits only the lower 30 matter.
pub open spec fn backward_size(s: int, i: int) -> u32 {
    (((i - 4 - s) / 4 - 1) % 0x4000_0000) as u32
}

/// What the checksum of a footer covers: the backward size and the flags of the stream header.
pub open spec fn footer_fields(file: Seq<u8>, size: u32) -> Seq<u8> {
    le_bytes(size) + file.subrange(6, 8)
}

/// The fields of a proper footer whose checksum is not all ones.
pub open spec fn proper_fields(file: Seq<u8>, s: int, i: int) -> Seq<u8> {
    let fields = footer_fields(file, backward_size(s, i));
    if crc32(fields) == 0xffff_ffff {
        footer_fields(file, (backward_size(s, i) + 0x4000_0000) as u32)
    } else {
        fields
    }
}

/// The file up to the footer with its backward size at `i`, and a proper footer there.
pub open spec fn refooted(file: Seq<u8>, s: int, i: int) -> Seq<u8> {
    let fields = proper_fields(file, s, i);
    file.take(i - 4) + le_bytes(crc32(fields)) + fields + seq![0x59u8, 0x5a]
}

// ---- the decoder ------------------------------------------------------------------------------

/// The error of the xz decoder.
#[verifier::external_type_specification]
#[verifier::external_body]
pub struct ExLzmaError(lzma_rs::error::Error);

/// What `lzma_rs::xz_decompress` makes of a file: the decompressed bytes, or `None` where it does
/// not accept the file.
pub uninterp spec fn xz_decompressed(file: Seq<u8>) -> Option<Seq<u8>>;

/// The file is intact up to its footer, which holds all ones for the backward size: with a proper
/// footer there, the decoder accepts it.
pub open spec fn sized_by_ones(file: Seq<u8>) -> bool {
    exists|s: int, i: int| #[trigger]
        ones_behind_index(file, s, i) && xz_decompressed(refooted(file, s, i)) is Some
}

/// `other` is what `stream` is up to its footer, and has all ones for the backward size there. It
/// is shorter than 4 GiB, so that its index is no multiple of that, which all ones could stand for
/// in 32 bits.
pub open spec fn differs_by_ones(stream: Seq<u8>, other: Seq<u8>) -> bool {
    &&& 24 <= stream.len()
    &&& stream.len() - 12 <= other.len() <= u32::MAX
    &&& other.take(stream.len() - 12) == stream.take(stream.len() - 12)
    &&& all_ones_at(other, stream.len() - 8)
}

/// Calls `lzma_rs::xz_decompress`, which decodes an xz stream from a reader and writes the bytes
/// to a writer. The claims: On a file in memory the outcome depends on the file alone, and is
/// named by [`xz_decompressed`]. The decoder accepts a stream only if the footer ends the file, so
/// where it accepts one, it gets as far as the backward size in every file that is the same up to
/// the footer, and turns those away that have all ones there. It adds one to that size, so a file
/// in which it would come upon all ones is left out; in such a file an index precedes the footer,
/// and the decoder accepts the file with a proper footer in that place.
#[verifier::external_body]
fn xz_decompress(file: &[u8]) -> (r: Result<Vec<u8>, lzma_rs::error::Error>)
    requires
        !sized_by_ones(file@),
    ensures
        match r {
            Ok(bytes) => xz_decompressed(file@) == Some(bytes@),
            Err(_) => xz_decompressed(file@) is None,
        },
        r is Ok ==> forall|other: Seq<u8>| #[trigger]
            differs_by_ones(file@, other) ==> xz_decompressed(other) is None,
{
    let mut input: &[u8] = file;
    let mut output: Vec<u8> = Vec::new();
    lzma_rs::xz_decompress(&mut input, &mut output)?;
    Ok(output)
}

// ---- looking for footers ----------------------------------------------------------------------

spec fn number_limit(left: nat) -> nat
    decreases left,
{
    if left == 0 {
        1
    } else {
        0x80 * number_limit((left - 1) as nat)
    }
}

proof fn lemma_number_limit(left: nat)
    requires
        left <= 9,
    ensures
        number_limit(left) <= 0x8000_0000_0000_0000,
{
    reveal_with_fuel(number_limit, 10);
}

fn number_at(file: &[u8], at: usize, left: u8) -> (r: Option<(u64, usize)>)
    requires
        left <= 9,
    ensures
        match r {
            Some((v, end)) => {
                &&& number(file@, at as int, left as nat) == Some((v as nat, end as int))
                &&& v < number_limit(left as nat)
                &&& at < end <= file@.len()
            },
            None => number(file@, at as int, left as nat) is None,
        },
    decreases left,
{
    if left == 0 || at >= file.len() {
        return None;
    }
    proof {
        lemma_number_limit(left as nat);
        lemma_number_limit((left - 1) as nat);
    }
    let b: u8 = file[at];
    if b < 0x80 {
        assert(number_limit((left - 1) as nat) >= 1) by {
            lemma_number_limit_positive((left - 1) as nat);
        }
        return Some((b as u64, at + 1));
    }
    match number_at(file, at + 1, left - 1) {
        Some((high, end)) => Some(((b - 0x80) as u64 + 0x80 * high, end)),
        None => None,
    }
}

proof fn lemma_number_limit_positive(left: nat)
    ensures
        number_limit(left) >= 1,
    decreases left,
{
    if left > 0 {
        lemma_number_limit_positive((left - 1) as nat);
    }
}

fn behind_numbers_at(file: &[u8], start: usize, count: u64) -> (r: Option<usize>)
    requires
        start <= file@.len(),
    ensures
        match r {
            Some(end) => behind_numbers(file@, start as int, count as nat) == Some(end as int)
                && start <= end <= file@.len(),
            None => behind_numbers(file@, start as int, count as nat) is None,
        },
{
    let mut at: usize = start;
    let mut left: u64 = count;
    while left > 0
        invariant
            start <= at <= file@.len(),
            left <= count,
            behind_numbers(file@, start as int, count as nat) == behind_numbers(
                file@,
                at as int,
                left as nat,
            ),
        decreases left,
    {
        match number_at(file, at, 9) {
            Some((_, end)) => {
                at = end;
                left -= 1;
            },
            None => return None,
        }
    }
    Some(at)
}

/// The offset that matters behind an index at `s`, where there is a word of all ones.
fn ones_offset(file: &[u8], s: usize) -> (r: Option<usize>)
    requires
        12 <= s < file@.len(),
        s % 4 == 0,
    ensures
        match r {
            Some(i) => ones_behind_index(file@, s as int, i as int),
            None => forall|i: int| !#[trigger] ones_behind_index(file@, s as int, i),
        },
{
    if file[s] != 0 {
        return None;
    }
    let (records, at) = match number_at(file, s + 1, 9) {
        Some(found) => found,
        None => return None,
    };
    proof {
        lemma_number_limit(9);
    }
    let end: usize = match behind_numbers_at(file, at, 2 * records) {
        Some(end) => end,
        None => return None,
    };
    // Behind the index come two checksums and the word itself.
    if file.len() - end < 12 {
        return None;
    }
    let i: usize = (end + 3) / 4 * 4 + 8;
    if file.len() - i >= 4 && file[i] == 0xff && file[i + 1] == 0xff && file[i + 2] == 0xff
        && file[i + 3] == 0xff {
        Some(i)
    } else {
        None
    }
}

/// Every index that is followed by a word of all ones, with the offset of that word.
fn find_ones(file: &[u8]) -> (r: Vec<(usize, usize)>)
    ensures
        forall|k: int|
            0 <= k < r@.len() ==> ones_behind_index(
                file@,
                (#[trigger] r@[k]).0 as int,
                r@[k].1 as int,
            ),
        forall|s: int, i: int| #[trigger]
            ones_behind_index(file@, s, i) ==> exists|k: int|
                0 <= k < r@.len() && (#[trigger] r@[k]).0 == s && r@[k].1 == i,
{
    let mut out: Vec<(usize, usize)> = Vec::new();
    let mut s: usize = 12;
    while s < file.len()
        invariant
            12 <= s,
            s % 4 == 0,
            forall|k: int|
                0 <= k < out@.len() ==> ones_behind_index(
                    file@,
                    (#[trigger] out@[k]).0 as int,
                    out@[k].1 as int,
                ),
            forall|t: int, i: int| #[trigger]
                ones_behind_index(file@, t, i) && t < s ==> exists|k: int|
                    0 <= k < out@.len() && (#[trigger] out@[k]).0 == t && out@[k].1 == i,
        decreases file.len() - s,
    {
        let ghost before = out@;
        match ones_offset(file, s) {
            Some(i) => {
                out.push((s, i));
                assert forall|t: int, j: int| #[trigger]
                    ones_behind_index(file@, t, j) && t < s + 4 implies exists|k: int|
                    0 <= k < out@.len() && (#[trigger] out@[k]).0 == t && out@[k].1 == j by {
                    if t < s {
                        let k = choose|k: int|
                            0 <= k < before.len() && (#[trigger] before[k]).0 == t && before[k].1
                                == j;
                        assert(out@[k] == before[k]);
                    } else {
                        assert(t == s);
                        assert(out@[before.len() as int] == (s, i));
                    }
                }
            },
            None => {},
        }
        if file.len() - s <= 4 {
            return out;
        }
        s += 4;
    }
    out
}

fn fields_of(file: &[u8], size: u32) -> (r: Vec<u8>)
    requires
        8 <= file@.len(),
    ensures
        r@ == footer_fields(file@, size),
{
    let mut r: Vec<u8> = Vec::new();
    push_le(&mut r, size);
    r.push(file[6]);
    r.push(file[7]);
    assert(r@ =~= footer_fields(file@, size));
    r
}

fn refoot(file: &[u8], s: usize, i: usize) -> (r: Vec<u8>)
    requires
        ones_behind_index(file@, s as int, i as int),
        s + 12 <= i,
        i % 4 == 0,
    ensures
        r@ == refooted(file@, s as int, i as int),
{
    let size: u32 = (((i - 4 - s) / 4 - 1) % 0x4000_0000) as u32;
    let mut fields = fields_of(file, size);
    if crc32_of(&fields) == 0xffff_ffff {
        fields = fields_of(file, size + 0x4000_0000);
    }
    let mut r: Vec<u8> = vstd::slice::slice_to_vec(slice_subrange(file, 0, i - 4));
    push_le(&mut r, crc32_of(&fields));
    let ghost head = r@;
    let ghost tail = fields@;
    r.append(&mut fields);
    r.push(0x59);
    r.push(0x5a);
    assert(r@ =~= head + tail + seq![0x59u8, 0x5a]);
    assert(file@.subrange(0, i - 4) =~= file@.take(i - 4));
    r
}

proof fn lemma_number_agrees(a: Seq<u8>, b: Seq<u8>, m: int, at: int, left: nat)
    requires
        m <= a.len(),
        m <= b.len(),
        a.take(m) == b.take(m),
        number(a, at, left) matches Some((_, end)) && end <= m,
    ensures
        number(b, at, left) == number(a, at, left),
        number(a, at, left) matches Some((_, end)) && at < end,
    decreases left,
{
    lemma_number_grows(a, at, left);
    assert(a[at] == a.take(m)[at] && b[at] == b.take(m)[at]);
    if a[at] >= 0x80 {
        lemma_number_agrees(a, b, m, at + 1, (left - 1) as nat);
    }
}

proof fn lemma_behind_numbers_grows(a: Seq<u8>, at: int, count: nat)
    requires
        behind_numbers(a, at, count) is Some,
    ensures
        at <= behind_numbers(a, at, count).unwrap(),
    decreases count,
{
    if count > 0 {
        if let Some((_, end)) = number(a, at, 9) {
            lemma_number_grows(a, at, 9);
            lemma_behind_numbers_grows(a, end, (count - 1) as nat);
        }
    }
}

proof fn lemma_number_grows(a: Seq<u8>, at: int, left: nat)
    ensures
        number(a, at, left) matches Some((_, end)) ==> at < end,
    decreases left,
{
    if left > 0 && 0 <= at < a.len() && a[at] >= 0x80 {
        lemma_number_grows(a, at + 1, (left - 1) as nat);
    }
}

proof fn lemma_behind_numbers_agrees(a: Seq<u8>, b: Seq<u8>, m: int, at: int, count: nat)
    requires
        m <= a.len(),
        m <= b.len(),
        a.take(m) == b.take(m),
        behind_numbers(a, at, count) matches Some(end) && end <= m,
    ensures
        behind_numbers(b, at, count) == behind_numbers(a, at, count),
    decreases count,
{
    if count > 0 {
        if let Some((_, next)) = number(a, at, 9) {
            lemma_behind_numbers_grows(a, next, (count - 1) as nat);
            lemma_number_agrees(a, b, m, at, 9);
            lemma_behind_numbers_agrees(a, b, m, next, (count - 1) as nat);
        }
    }
}

/// Files that are the same up to `m` have the same indexes as far as those end there.
proof fn lemma_index_agrees(a: Seq<u8>, b: Seq<u8>, m: int, s: int, i: int)
    requires
        m <= a.len(),
        m <= b.len(),
        a.take(m) == b.take(m),
        size_offset(a, s) == Some(i),
        i - 8 <= m,
        0 <= s,
    ensures
        size_offset(b, s) == Some(i),
        s + 12 <= i || s % 4 != 0,
        i % 4 == 0,
{
    if let Some((records, at)) = number(a, s + 1, 9) {
        lemma_number_grows(a, s + 1, 9);
        lemma_behind_numbers_grows(a, at, 2 * records);
        lemma_number_agrees(a, b, m, s + 1, 9);
        lemma_behind_numbers_agrees(a, b, m, at, 2 * records);
        assert(a[s] == a.take(m)[s] && b[s] == b.take(m)[s]);
    }
}

/// The checksum of a proper footer is not all ones.
proof fn lemma_proper_checksum(file: Seq<u8>, s: int, i: int)
    requires
        8 <= file.len(),
        s + 12 <= i,
    ensures
        crc32(proper_fields(file, s, i)) != 0xffff_ffff,
        proper_fields(file, s, i).len() == 6,
        proper_fields(file, s, i)[3] < 0x80,
{
    let v = backward_size(s, i);
    let w = (v + 0x4000_0000) as u32;
    let a = footer_fields(file, v);
    let b = footer_fields(file, w);
    assert(v < 0x4000_0000);
    assert({
        &&& (v & 0xff) as u8 == (w & 0xff) as u8
        &&& ((v >> 8) & 0xff) as u8 == ((w >> 8) & 0xff) as u8
        &&& ((v >> 16) & 0xff) as u8 == ((w >> 16) & 0xff) as u8
        &&& ((v >> 24) & 0xff) as u8 != ((w >> 24) & 0xff) as u8
        &&& ((v >> 24) & 0xff) < 0x80
        &&& ((w >> 24) & 0xff) < 0x80
    }) by (bit_vector)
        requires
            v < 0x4000_0000,
            w == (v + 0x4000_0000) as u32,
    ;
    assert(forall|j: int| 0 <= j < a.len() && j != 3 ==> a[j] == b[j]);
    lemma_crc_differs(a, b, 3);
    let x = crc_state(a);
    let y = crc_state(b);
    assert(!x != !y) by (bit_vector)
        requires
            x != y,
    ;
}

proof fn lemma_footer(head: Seq<u8>, sum: u32, fields: Seq<u8>)
    requires
        sum != 0xffff_ffff,
        fields.len() == 6,
        fields[3] < 0x80,
    ensures
        ({
            let v = head + le_bytes(sum) + fields + seq![0x59u8, 0x5a];
            &&& v.len() == head.len() + 12
            &&& v.take(head.len() as int) == head
            &&& !all_ones_at(v, head.len() as int)
            &&& !all_ones_at(v, head.len() as int + 4)
            &&& !all_ones_at(v, head.len() as int + 8)
        }),
{
    let v = head + le_bytes(sum) + fields + seq![0x59u8, 0x5a];
    let n = head.len() as int;
    assert(v.take(n) =~= head);
    assert(v[n + 10] == 0x59);
    assert(v[n + 7] == fields[3]);
    assert(!((sum & 0xff) as u8 == 0xff && ((sum >> 8) & 0xff) as u8 == 0xff && ((sum >> 16)
        & 0xff) as u8 == 0xff && ((sum >> 24) & 0xff) as u8 == 0xff)) by (bit_vector)
        requires
            sum != 0xffff_ffffu32,
    ;
    assert(v[n] == le_bytes(sum)[0] && v[n + 1] == le_bytes(sum)[1] && v[n + 2] == le_bytes(sum)[2]
        && v[n + 3] == le_bytes(sum)[3]);
}

/// With the footer put right, only an earlier word of all ones can still be in the way.
proof fn lemma_refooted(file: Seq<u8>, s: int, i: int, t: int, j: int)
    requires
        ones_behind_index(file, s, i),
        ones_behind_index(refooted(file, s, i), t, j),
    ensures
        j < i,
        ones_behind_index(file, t, j),
        refooted(refooted(file, s, i), t, j) == refooted(file, t, j),
{
    let v = refooted(file, s, i);
    let m = i - 4;
    assert(v.take(m) == file.take(m) && j <= i - 8) by {
        lemma_index_agrees(file, file, file.len() as int, s, i);
        lemma_index_agrees(v, v, v.len() as int, t, j);
        lemma_proper_checksum(file, s, i);
        let fields = proper_fields(file, s, i);
        lemma_footer(file.take(m), crc32(fields), fields);
    }
    lemma_index_agrees(file, file, file.len() as int, s, i);
    assert forall|k: int| 0 <= k < m implies v[k] == file[k] by {
        assert(v.take(m)[k] == file.take(m)[k]);
    }
    lemma_index_agrees(v, file, m, t, j);
    assert(v.subrange(6, 8) =~= file.subrange(6, 8));
    assert(v.take(j - 4) =~= file.take(j - 4));
}

/// The decompressed bytes of a file, also where the decoder cannot be handed it: each word of all
/// ones that could be a backward size is tried first, the foremost first.
fn decompressed(file: &[u8]) -> (r: Option<Vec<u8>>)
    ensures
        match r {
            Some(bytes) => !sized_by_ones(file@) && xz_decompressed(file@) == Some(bytes@),
            None => sized_by_ones(file@) || xz_decompressed(file@) is None,
        },
        sized_by_ones(file@) && file@.len() <= u32::MAX ==> xz_decompressed(file@) is None,
{
    let found = find_ones(file);
    let mut done: usize = 0;
    loop
        invariant_except_break
            forall|k: int|
                0 <= k < found@.len() ==> ones_behind_index(
                    file@,
                    (#[trigger] found@[k]).0 as int,
                    found@[k].1 as int,
                ),
            forall|s: int, i: int| #[trigger]
                ones_behind_index(file@, s, i) ==> exists|k: int|
                    0 <= k < found@.len() && (#[trigger] found@[k]).0 == s && found@[k].1 == i,
            forall|s: int, i: int| #[trigger]
                ones_behind_index(file@, s, i) && i < done ==> xz_decompressed(
                    refooted(file@, s, i),
                ) is None,
        ensures
            !sized_by_ones(file@),
        decreases file.len() - done,
    {
        let next = foremost(&found, done);
        let i: usize = match next {
            Some(i) => i,
            None => {
                assert forall|s: int, i: int| #[trigger] ones_behind_index(file@, s, i) implies i
                    < done by {
                    let k = choose|k: int|
                        0 <= k < found@.len() && (#[trigger] found@[k]).0 == s && found@[k].1 == i;
                    assert(found@[k].1 < done);
                }
                break ;
            },
        };
        proof {
            let k = choose|k: int| 0 <= k < found@.len() && (#[trigger] found@[k]).1 == i;
            assert(ones_behind_index(file@, found@[k].0 as int, found@[k].1 as int));
        }
        assert forall|t: int, j: int| #[trigger] ones_behind_index(file@, t, j) && j
            < i implies xz_decompressed(refooted(file@, t, j)) is None by {
            let k = choose|k: int|
                0 <= k < found@.len() && (#[trigger] found@[k]).0 == t && found@[k].1 == j;
            assert(found@[k].1 < done);
        }
        if is_sized_by(file, &found, i) {
            return None;
        }
        done = i + 1;
    }
    match xz_decompress(file) {
        Ok(bytes) => Some(bytes),
        Err(_) => None,
    }
}

/// The smallest offset in the list that is not below `done`.
fn foremost(found: &Vec<(usize, usize)>, done: usize) -> (r: Option<usize>)
    ensures
        match r {
            Some(i) => {
                &&& done <= i
                &&& exists|k: int| 0 <= k < found@.len() && (#[trigger] found@[k]).1 == i
                &&& forall|k: int|
                    0 <= k < found@.len() ==> (#[trigger] found@[k]).1 < done || i <= found@[k].1
            },
            None => forall|k: int| 0 <= k < found@.len() ==> (#[trigger] found@[k]).1 < done,
        },
{
    let mut best: Option<usize> = None;
    let mut k: usize = 0;
    while k < found.len()
        invariant
            k <= found.len(),
            match best {
                Some(i) => {
                    &&& done <= i
                    &&& exists|n: int| 0 <= n < k && (#[trigger] found@[n]).1 == i
                    &&& forall|n: int|
                        0 <= n < k ==> (#[trigger] found@[n]).1 < done || i <= found@[n].1
                },
                None => forall|n: int| 0 <= n < k ==> (#[trigger] found@[n]).1 < done,
            },
        decreases found.len() - k,
    {
        let i: usize = found[k].1;
        if i >= done {
            let closer = match best {
                Some(b) => i < b,
                None => true,
            };
            if closer {
                assert(found@[k as int].1 == i);
                best = Some(i);
            }
        }
        k += 1;
    }
    best
}

/// Whether the decoder would take the word at `i` for the backward size.
fn is_sized_by(file: &[u8], found: &Vec<(usize, usize)>, i: usize) -> (r: bool)
    requires
        forall|k: int|
            0 <= k < found@.len() ==> ones_behind_index(
                file@,
                (#[trigger] found@[k]).0 as int,
                found@[k].1 as int,
            ),
        forall|s: int, j: int| #[trigger]
            ones_behind_index(file@, s, j) ==> exists|k: int|
                0 <= k < found@.len() && (#[trigger] found@[k]).0 == s && found@[k].1 == j,
        forall|t: int, j: int| #[trigger]
            ones_behind_index(file@, t, j) && j < i ==> xz_decompressed(
                refooted(file@, t, j),
            ) is None,
    ensures
        r ==> sized_by_ones(file@) && (file@.len() <= u32::MAX ==> xz_decompressed(
            file@,
        ) is None),
        !r ==> forall|s: int, j: int| #[trigger]
            ones_behind_index(file@, s, j) && j <= i ==> xz_decompressed(
                refooted(file@, s, j),
            ) is None,
{
    let mut k: usize = 0;
    while k < found.len()
        invariant
            k <= found.len(),
            forall|n: int|
                0 <= n < found@.len() ==> ones_behind_index(
                    file@,
                    (#[trigger] found@[n]).0 as int,
                    found@[n].1 as int,
                ),
            forall|t: int, j: int| #[trigger]
                ones_behind_index(file@, t, j) && j < i ==> xz_decompressed(
                    refooted(file@, t, j),
                ) is None,
            forall|n: int|
                0 <= n < k && (#[trigger] found@[n]).1 == i ==> xz_decompressed(
                    refooted(file@, found@[n].0 as int, i as int),
                ) is None,
        decreases found.len() - k,
    {
        let (s, at) = found[k];
        if at == i {
            proof {
                assert(ones_behind_index(
                    file@,
                    found@[k as int].0 as int,
                    found@[k as int].1 as int,
                ));
                lemma_index_agrees(file@, file@, file@.len() as int, s as int, i as int);
            }
            let v = refoot(file, s, i);
            proof {
                lemma_proper_checksum(file@, s as int, i as int);
                if sized_by_ones(v@) {
                    let (t, j) = choose|t: int, j: int| #[trigger]
                        ones_behind_index(v@, t, j) && xz_decompressed(refooted(v@, t, j)) is Some;
                    lemma_refooted(file@, s as int, i as int, t, j);
                }
            }
            if xz_decompress(v.as_slice()).is_ok() {
                proof {
                    assert(v@.len() == i + 8);
                    if file@.len() <= u32::MAX {
                        assert(v@.take(i - 4) =~= file@.take(i - 4));
                        assert(differs_by_ones(v@, file@));
                    }
                }
                return true;
            }
        }
        k += 1;
    }
    assert forall|s: int, j: int| #[trigger] ones_behind_index(file@, s, j) && j
        <= i implies xz_decompressed(refooted(file@, s, j)) is None by {
        if j == i {
            let n = choose|n: int|
                0 <= n < found@.len() && (#[trigger] found@[n]).0 == s && found@[n].1 == j;
            assert(found@[n].1 == i);
        }
    }
    false
}

// ---- profiles ---------------------------------------------------------------------------------

/// The text of a profile, given what its file decompresses to.
pub open spec fn profile_text(decompressed: Option<Seq<u8>>) -> Result<Seq<char>, ProfileError> {
    match decompressed {
        Some(bytes) => Ok(utf8_lossy_chars(bytes)),
        None => Err(ProfileError::Corrupt),
    }
}

/// The text of a compressed profile.
pub open spec fn compressed_text(file: Seq<u8>) -> Result<Seq<char>, ProfileError> {
    if file.len() == 0 {
        Err(ProfileError::Empty)
    } else {
        profile_text(xz_decompressed(file))
    }
}

pub open spec fn profile_outcome(r: Result<String, ProfileError>) -> Result<
    Seq<char>,
    ProfileError,
> {
    match r {
        Ok(s) => Ok(s@),
        Err(e) => Err(e),
    }
}

/// Takes decompressed bytes for the text of a profile.
pub fn text_of_profile(decompressed: Option<Vec<u8>>) -> (r: Result<String, ProfileError>)
    ensures
        profile_outcome(r) == profile_text(
            match decompressed {
                Some(bytes) => Some(bytes@),
                None => None,
            },
        ),
        decompressed matches Some(bytes) ==> (valid_utf8(bytes@) ==> profile_outcome(r) == Ok::<
            Seq<char>,
            ProfileError,
        >(decode_utf8(bytes@))),
{
    match decompressed {
        Some(bytes) => Ok(utf8_lossy(bytes.as_slice())),
        None => Err(ProfileError::Corrupt),
    }
}

/// What a compressed profile gives also where the decoder cannot be handed it: a file that is
/// sized by all ones is no intact stream.
pub open spec fn checked_text(file: Seq<u8>) -> Result<Seq<char>, ProfileError> {
    if sized_by_ones(file) {
        Err(ProfileError::Corrupt)
    } else {
        compressed_text(file)
    }
}

/// Decompresses a profile to its text. Where the file is shorter than 4 GiB, the text is what the
/// decoder makes of it in every case, and an xz file of a UTF-8 text gives that text back.
pub fn decompress_profile(file: &[u8]) -> (r: Result<String, ProfileError>)
    ensures
        profile_outcome(r) == checked_text(file@),
        file@.len() <= u32::MAX ==> profile_outcome(r) == compressed_text(file@),
        file@.len() <= u32::MAX || !sized_by_ones(file@) ==> forall|text: Seq<char>|
            file@.len() > 0 && xz_decompressed(file@) == Some(#[trigger] encode_utf8(text))
                ==> profile_outcome(r) == Ok::<Seq<char>, ProfileError>(text),
{
    broadcast use {encode_utf8_decode_utf8, encode_utf8_valid_utf8};

    if file.len() == 0 {
        assert(!sized_by_ones(file@));
        return Err(ProfileError::Empty);
    }
    text_of_profile(decompressed(file))
}

} // verus!
