//! ASCII text as bytes.

use vstd::prelude::*;
use vstd::string::*;

verus! {

/// The bytes of a text made of ASCII characters: one byte per character.
pub open spec fn ascii(text: Seq<char>) -> Seq<u8> {
    Seq::new(text.len(), |i: int| text[i] as u8)
}

/// The decimal numeral of `n` in ASCII digits, without leading zeros.
pub open spec fn decimal_digits(n: nat) -> Seq<u8>
    decreases n,
{
    if n < 10 {
        seq![(0x30 + n) as u8]
    } else {
        decimal_digits(n / 10).push((0x30 + n % 10) as u8)
    }
}

/// The index of the first byte of `bytes` that equals `wanted`, or the
/// length of `bytes` if none does.
pub open spec fn first_index_of(bytes: Seq<u8>, wanted: u8) -> int
    decreases bytes.len(),
{
    if bytes.len() == 0 || bytes[0] == wanted {
        0
    } else {
        1 + first_index_of(bytes.skip(1), wanted)
    }
}

/// The first index of a byte lies inside the bytes or at their end, holds the
/// byte where it lies inside, and nothing before it does.
pub proof fn lemma_first_index_of(bytes: Seq<u8>, wanted: u8)
    ensures
        0 <= first_index_of(bytes, wanted) <= bytes.len(),
        forall|j: int| 0 <= j < first_index_of(bytes, wanted) ==> #[trigger] bytes[j] != wanted,
        first_index_of(bytes, wanted) < bytes.len() ==> bytes[first_index_of(bytes, wanted)]
            == wanted,
    decreases bytes.len(),
{
    if bytes.len() == 0 || bytes[0] == wanted {
    } else {
        let rest = bytes.skip(1);
        lemma_first_index_of(rest, wanted);
        assert forall|j: int| 0 <= j < first_index_of(bytes, wanted) implies #[trigger] bytes[j]
            != wanted by {
            if j > 0 {
                assert(bytes[j] == rest[j - 1]);
            }
        }
    }
}

/// A numeral is never longer than ten digits while its number fits 32 bits,
/// and has one digit per power of ten below that.
pub proof fn lemma_decimal_digits_len(n: nat)
    ensures
        decimal_digits(n).len() >= 1,
        n < 10 ==> decimal_digits(n).len() == 1,
        10 <= n < 100 ==> decimal_digits(n).len() == 2,
        100 <= n < 1_000 ==> decimal_digits(n).len() == 3,
        1_000 <= n < 10_000 ==> decimal_digits(n).len() == 4,
        10_000 <= n < 100_000 ==> decimal_digits(n).len() == 5,
        100_000 <= n < 1_000_000 ==> decimal_digits(n).len() == 6,
        1_000_000 <= n < 10_000_000 ==> decimal_digits(n).len() == 7,
        10_000_000 <= n < 100_000_000 ==> decimal_digits(n).len() == 8,
        100_000_000 <= n < 1_000_000_000 ==> decimal_digits(n).len() == 9,
        1_000_000_000 <= n < 10_000_000_000 ==> decimal_digits(n).len() == 10,
    decreases n,
{
    if n >= 10 {
        lemma_decimal_digits_len(n / 10);
    }
}

/// Borrows the bytes of a string, which are its characters one by one where
/// the string is ASCII.
pub fn ascii_bytes<'a>(text: &'a str) -> (res: &'a [u8])
    ensures
        res@ == text.spec_bytes(),
        is_ascii(text) ==> res@ == ascii(text@),
{
    let bytes = text.as_bytes();
    proof {
        if is_ascii(text) {
            is_ascii_spec_bytes(text);
            assert(bytes@ =~= ascii(text@));
        }
    }
    bytes
}

/// Finds the first byte at or after `from` that equals `wanted`.
pub fn find_byte(bytes: &[u8], from: usize, wanted: u8) -> (index: usize)
    requires
        from <= bytes@.len(),
    ensures
        from <= index <= bytes@.len(),
        index == from + first_index_of(bytes@.skip(from as int), wanted),
{
    let mut index: usize = from;
    while index < bytes.len() && bytes[index] != wanted
        invariant
            from <= index <= bytes@.len(),
            forall|j: int| from <= j < index ==> bytes@[j] != wanted,
        decreases bytes@.len() - index,
    {
        index = index + 1;
    }
    proof {
        let rest = bytes@.skip(from as int);
        lemma_first_index_of(rest, wanted);
        let found = first_index_of(rest, wanted);
        if found < index - from {
            assert(rest[found] == bytes@[from + found]);
        }
        if found > index - from {
            assert(rest[index - from] == bytes@[index as int]);
        }
    }
    index
}

/// Appends the decimal numeral of `n` to `out`.
pub fn push_decimal(out: &mut Vec<u8>, n: u32)
    ensures
        final(out)@ == old(out)@ + decimal_digits(n as nat),
    decreases n,
{
    if n >= 10 {
        push_decimal(out, n / 10);
    }
    let digit: u8 = (n % 10) as u8;
    out.push(0x30 + digit);
    proof {
        assert(out@ =~= old(out)@ + decimal_digits(n as nat));
    }
}

/// Appends `bytes` to `out`.
pub fn push_bytes(out: &mut Vec<u8>, bytes: &[u8])
    ensures
        final(out)@ == old(out)@ + bytes@,
{
    let mut i: usize = 0;
    while i < bytes.len()
        invariant
            0 <= i <= bytes@.len(),
            out@ == old(out)@ + bytes@.take(i as int),
        decreases bytes@.len() - i,
    {
        out.push(bytes[i]);
        i = i + 1;
        proof {
            assert(out@ =~= old(out)@ + bytes@.take(i as int));
        }
    }
    proof {
        assert(bytes@.take(i as int) =~= bytes@);
    }
}

/// Whether two slices hold the same bytes.
pub fn bytes_eq(left: &[u8], right: &[u8]) -> (res: bool)
    ensures
        res == (left@ == right@),
{
    if left.len() != right.len() {
        return false;
    }
    let mut i: usize = 0;
    while i < left.len()
        invariant
            0 <= i <= left@.len(),
            left@.len() == right@.len(),
            forall|j: int| 0 <= j < i ==> left@[j] == right@[j],
        decreases left@.len() - i,
    {
        if left[i] != right[i] {
            return false;
        }
        i = i + 1;
    }
    proof {
        assert(left@ =~= right@);
    }
    true
}

} // verus!
