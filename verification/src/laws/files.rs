//! What compressed profiles hold.

use crate::compressed::{
    backward_size, behind_numbers, checked_text, compressed_text, crc32, le_bytes, number,
    ones_behind_index, profile_text, proper_fields, refooted, size_offset, sized_by_ones,
    xz_decompressed, ProfileError,
};
use crate::text::utf8_lossy_chars;
use vstd::prelude::*;

verus! {

// ---- texts ------------------------------------------------------------------------------------

/// The text of a profile is all of what its file decompresses to; a file that holds nothing is
/// empty, and any other is corrupt.
pub proof fn profiles_are_read_in_full(file: Seq<u8>, bytes: Seq<u8>)
    requires
        file.len() > 0,
    ensures
        profile_text(Some(bytes)) == Ok::<Seq<char>, ProfileError>(utf8_lossy_chars(bytes)),
        profile_text(None) == Err::<Seq<char>, ProfileError>(ProfileError::Corrupt),
        xz_decompressed(file) == Some(bytes) ==> compressed_text(file) == Ok::<
            Seq<char>,
            ProfileError,
        >(utf8_lossy_chars(bytes)),
        xz_decompressed(file) is None ==> compressed_text(file) == Err::<Seq<char>, ProfileError>(
            ProfileError::Corrupt,
        ),
        compressed_text(seq![]) == Err::<Seq<char>, ProfileError>(ProfileError::Empty),
        sized_by_ones(file) ==> checked_text(file) == Err::<Seq<char>, ProfileError>(
            ProfileError::Corrupt,
        ),
        !sized_by_ones(file) ==> checked_text(file) == compressed_text(file),
{
}

// ---- numbers ----------------------------------------------------------------------------------

/// The number that these bytes stand for: seven bits each, the lowest first.
pub open spec fn stands_for(b: Seq<u8>) -> int
    decreases b.len(),
{
    if b.len() == 0 {
        0
    } else {
        b[0] % 128 + 128 * stands_for(b.skip(1))
    }
}

/// A number as it is written in an index: one to nine bytes, of which all but the last have their
/// top bit set.
pub open spec fn is_number(b: Seq<u8>) -> bool {
    &&& 1 <= b.len() <= 9
    &&& b.last() < 128
    &&& forall|i: int| 0 <= i < b.len() - 1 ==> #[trigger] b[i] >= 128
}

/// `b` stands in the file at `at`.
pub open spec fn has_at(file: Seq<u8>, at: int, b: Seq<u8>) -> bool {
    0 <= at && at + b.len() <= file.len() && file.subrange(at, at + b.len()) == b
}

proof fn lemma_number(file: Seq<u8>, at: int, b: Seq<u8>, left: nat)
    requires
        has_at(file, at, b),
        1 <= b.len() <= left,
        b.last() < 128,
        forall|i: int| 0 <= i < b.len() - 1 ==> #[trigger] b[i] >= 128,
    ensures
        stands_for(b) >= 0,
        number(file, at, left) == Some((stands_for(b) as nat, at + b.len())),
    decreases b.len(),
{
    assert(file.subrange(at, at + b.len())[0] == file[at]);
    let rest = b.skip(1);
    if b.len() == 1 {
        assert(rest =~= seq![]);
        assert(b[0] == b.last());
    } else {
        assert(b[0] >= 128);
        assert(file.subrange(at + 1, at + 1 + rest.len()) =~= file.subrange(
            at,
            at + b.len(),
        ).skip(1));
        assert(rest.last() == b.last());
        assert forall|i: int| 0 <= i < rest.len() - 1 implies #[trigger] rest[i] >= 128 by {
            assert(rest[i] == b[i + 1]);
        }
        lemma_number(file, at + 1, rest, (left - 1) as nat);
    }
}

/// Numbers of an index are read with all their bytes.
pub proof fn numbers_are_read_in_full(file: Seq<u8>, at: int, b: Seq<u8>)
    requires
        has_at(file, at, b),
        is_number(b),
    ensures
        stands_for(b) >= 0,
        number(file, at, 9) == Some((stands_for(b) as nat, at + b.len())),
{
    lemma_number(file, at, b, 9);
}

/// The bytes of all numbers, one after the other.
pub open spec fn all_bytes(numbers: Seq<Seq<u8>>) -> Seq<u8>
    decreases numbers.len(),
{
    if numbers.len() == 0 {
        seq![]
    } else {
        numbers[0] + all_bytes(numbers.skip(1))
    }
}

proof fn lemma_numbers(file: Seq<u8>, at: int, numbers: Seq<Seq<u8>>)
    requires
        has_at(file, at, all_bytes(numbers)),
        forall|i: int| 0 <= i < numbers.len() ==> is_number(#[trigger] numbers[i]),
    ensures
        behind_numbers(file, at, numbers.len()) == Some((at + all_bytes(numbers).len()) as int),
    decreases numbers.len(),
{
    if numbers.len() > 0 {
        let b = numbers[0];
        let rest = numbers.skip(1);
        let whole = file.subrange(at, at + all_bytes(numbers).len());
        assert(file.subrange(at, at + b.len()) =~= whole.take(b.len() as int));
        assert(whole.take(b.len() as int) =~= b);
        numbers_are_read_in_full(file, at, b);
        let next = at + b.len();
        assert(file.subrange(next, next + all_bytes(rest).len()) =~= whole.skip(b.len() as int));
        assert(whole.skip(b.len() as int) =~= all_bytes(rest));
        assert forall|i: int| 0 <= i < rest.len() implies is_number(#[trigger] rest[i]) by {
            assert(rest[i] == numbers[i + 1]);
        }
        lemma_numbers(file, next, rest);
    }
}

/// The backward size stands behind an index, its padding to a multiple of four and two checksums.
pub proof fn sizes_stand_behind_the_index(
    file: Seq<u8>,
    s: int,
    count: Seq<u8>,
    numbers: Seq<Seq<u8>>,
)
    requires
        has_at(file, s, seq![0u8] + count + all_bytes(numbers)),
        is_number(count),
        numbers.len() == 2 * stands_for(count),
        forall|i: int| 0 <= i < numbers.len() ==> is_number(#[trigger] numbers[i]),
    ensures
        size_offset(file, s) matches Some(i) && i % 4 == 0 && ({
            let end = s + 1 + count.len() + all_bytes(numbers).len();
            end + 8 <= i < end + 12
        }),
{
    let b = seq![0u8] + count + all_bytes(numbers);
    let whole = file.subrange(s, s + b.len());
    assert(whole[0] == file[s]);
    assert(file.subrange(s + 1, s + 1 + count.len()) =~= whole.subrange(
        1,
        1 + count.len() as int,
    ));
    assert(whole.subrange(1, 1 + count.len() as int) =~= count);
    numbers_are_read_in_full(file, s + 1, count);
    let at = s + 1 + count.len();
    assert(file.subrange(at, at + all_bytes(numbers).len()) =~= whole.skip(
        1 + count.len() as int,
    ));
    assert(whole.skip(1 + count.len() as int) =~= all_bytes(numbers));
    lemma_numbers(file, at, numbers);
    assert(stands_for(count) as nat * 2 == numbers.len());
}

// ---- footers ----------------------------------------------------------------------------------

/// The number that four bytes stand for, the lowest first.
pub open spec fn word_of(b: Seq<u8>) -> int {
    b[0] + 0x100 * b[1] + 0x1_0000 * b[2] + 0x100_0000 * b[3]
}

proof fn lemma_le_bytes(v: u32)
    ensures
        le_bytes(v).len() == 4,
        word_of(le_bytes(v)) == v,
{
    assert((v & 0xff) as u8 + 0x100 * (((v >> 8) & 0xff) as u8) + 0x1_0000 * (((v >> 16)
        & 0xff) as u8) + 0x100_0000 * (((v >> 24) & 0xff) as u8) == v) by (bit_vector);
}

proof fn lemma_backward_size(s: int, i: int, size: int)
    requires
        s % 4 == 0,
        i % 4 == 0,
        size == ((i - 4 - s) / 4 - 1) % 0x4000_0000 || size == ((i - 4 - s) / 4 - 1) % 0x4000_0000
            + 0x4000_0000,
    ensures
        (4 * (size + 1)) % 0x1_0000_0000 == (i - 4 - s) % 0x1_0000_0000,
{
}

proof fn lemma_footer_parts(head: Seq<u8>, sum: Seq<u8>, fields: Seq<u8>)
    requires
        sum.len() == 4,
        fields.len() == 6,
    ensures
        ({
            let n = head.len() as int;
            let v = head + sum + fields + seq![0x59u8, 0x5au8];
            &&& v.len() == n + 12
            &&& v.take(n) == head
            &&& v.subrange(n, n + 4) == sum
            &&& v.subrange(n + 4, n + 8) == fields.take(4)
            &&& v.subrange(n + 8, n + 10) == fields.skip(4)
            &&& v.subrange(n + 4, n + 10) == fields
            &&& v.subrange(n + 10, n + 12) == seq![0x59u8, 0x5au8]
        }),
{
}

proof fn lemma_fields(file: Seq<u8>, s: int, i: int)
    requires
        8 <= file.len(),
        s % 4 == 0,
        i % 4 == 0,
    ensures
        ({
            let fields = proper_fields(file, s, i);
            &&& fields.len() == 6
            &&& fields.skip(4) == file.subrange(6, 8)
            &&& (4 * (word_of(fields.take(4)) + 1)) % 0x1_0000_0000 == (i - 4 - s) % 0x1_0000_0000
        }),
{
    let size = backward_size(s, i);
    let more = (size + 0x4000_0000) as u32;
    lemma_le_bytes(size);
    lemma_le_bytes(more);
    lemma_backward_size(s, i, size as int);
    lemma_backward_size(s, i, more as int);
    let flags = file.subrange(6, 8);
    assert((le_bytes(size) + flags).take(4) =~= le_bytes(size));
    assert((le_bytes(more) + flags).take(4) =~= le_bytes(more));
    assert((le_bytes(size) + flags).skip(4) =~= flags);
    assert((le_bytes(more) + flags).skip(4) =~= flags);
}

/// A proper footer, in place of the one whose backward size is at `i`: everything before it stays;
/// it has a checksum of what follows, the size of the index in words less one, the flags of the
/// stream's header, and the two letters that end a stream.
pub proof fn proper_footers_fit(file: Seq<u8>, s: int, i: int)
    requires
        8 <= file.len(),
        s % 4 == 0,
        i % 4 == 0,
        0 <= s,
        s + 12 <= i <= file.len(),
    ensures
        ({
            let other = refooted(file, s, i);
            let size = word_of(other.subrange(i, i + 4));
            &&& other.len() == i + 8
            &&& other.take(i - 4) == file.take(i - 4)
            &&& (4 * (size + 1)) % 0x1_0000_0000 == (i - 4 - s) % 0x1_0000_0000
            &&& other.subrange(i + 4, i + 6) == file.subrange(6, 8)
            &&& other.subrange(i + 6, i + 8) == seq![0x59u8, 0x5au8]
            &&& word_of(other.subrange(i - 4, i)) == crc32(other.subrange(i, i + 6))
        }),
{
    let fields = proper_fields(file, s, i);
    let sum = le_bytes(crc32(fields));
    lemma_le_bytes(crc32(fields));
    lemma_fields(file, s, i);
    lemma_footer_parts(file.take(i - 4), sum, fields);
}

/// A file is turned away for such a size only where one stands behind what could be an index, and
/// with a proper footer there the file would be intact.
pub proof fn sizes_of_all_ones_are_told_apart(file: Seq<u8>, s: int, i: int)
    requires
        12 <= s,
        s % 4 == 0,
        size_offset(file, s) == Some(i),
        has_at(file, i, seq![0xffu8, 0xff, 0xff, 0xff]),
    ensures
        xz_decompressed(refooted(file, s, i)) is Some ==> sized_by_ones(file),
{
    let four = file.subrange(i, i + 4);
    assert(four[0] == file[i] && four[1] == file[i + 1] && four[2] == file[i + 2] && four[3]
        == file[i + 3]);
    assert(four == seq![0xffu8, 0xff, 0xff, 0xff]);
    assert(ones_behind_index(file, s, i));
}

/// A file in which no such size stands behind an index is handed to the decoder as it is.
pub proof fn other_files_are_decoded(file: Seq<u8>)
    requires
        forall|i: int|
            0 <= i <= file.len() - 4 && i % 4 == 0 ==> #[trigger] file.subrange(i, i + 4) != seq![
                0xffu8,
                0xff,
                0xff,
                0xff,
            ],
    ensures
        checked_text(file) == compressed_text(file),
{
    if sized_by_ones(file) {
        let (s, i) = choose|s: int, i: int| #[trigger]
            ones_behind_index(file, s, i) && xz_decompressed(refooted(file, s, i)) is Some;
        assert(file.subrange(i, i + 4) =~= seq![0xffu8, 0xff, 0xff, 0xff]);
        assert(i % 4 == 0);
    }
}

} // verus!
