//! Digits: lowercase hexadecimal for bytes and words, decimal for widths.

use vstd::prelude::*;
use vstd::string::*;

verus! {

/// The lowercase digit of a number below sixteen.
pub open spec fn digit(n: int) -> char {
    seq!['0', '1', '2', '3', '4', '5', '6', '7', '8', '9', 'a', 'b', 'c', 'd', 'e', 'f'][n]
}

/// The `i`-th half-byte of a byte string, high half first.
pub open spec fn nibble(bytes: Seq<u8>, i: int) -> int {
    if i % 2 == 0 {
        bytes[i / 2] as int / 16
    } else {
        bytes[i / 2] as int % 16
    }
}

/// Two lowercase hexadecimal digits for each byte, in order.
pub open spec fn hex_text(bytes: Seq<u8>) -> Seq<char> {
    Seq::new(2 * bytes.len(), |i: int| digit(nibble(bytes, i)))
}

/// The digits without their leading zeros; the last digit always stays.
pub open spec fn trim_zeros(digits: Seq<char>) -> Seq<char>
    decreases digits.len(),
{
    if digits.len() > 1 && digits[0] == '0' {
        trim_zeros(digits.skip(1))
    } else {
        digits
    }
}

/// A big-endian number in lowercase hexadecimal, without leading zeros.
pub open spec fn word_hex(word: Seq<u8>) -> Seq<char> {
    trim_zeros(hex_text(word))
}

/// A number in decimal.
pub open spec fn decimal_text(n: nat) -> Seq<char>
    decreases n,
{
    if n < 10 {
        seq![digit(n as int)]
    } else {
        decimal_text(n / 10) + seq![digit((n % 10) as int)]
    }
}

/// Dropping `k` zeros that stand before another digit is what trimming does.
pub proof fn lemma_trim_zeros_skip(digits: Seq<char>, k: int)
    requires
        0 <= k < digits.len(),
        forall|j: int| 0 <= j < k ==> digits[j] == '0',
        k == digits.len() - 1 || digits[k] != '0',
    ensures
        trim_zeros(digits) == digits.skip(k),
    decreases k,
{
    if k == 0 {
        assert(digits.skip(0) =~= digits);
    } else {
        let rest = digits.skip(1);
        assert forall|j: int| 0 <= j < k - 1 implies rest[j] == '0' by {
            assert(rest[j] == digits[j + 1]);
        }
        lemma_trim_zeros_skip(rest, k - 1);
        assert(rest.skip(k - 1) =~= digits.skip(k));
    }
}

/// The text of one digit.
fn digit_str(n: u8) -> (s: &'static str)
    requires
        n < 16,
    ensures
        s@ == seq![digit(n as int)],
{
    proof {
        reveal_strlit("0");
        reveal_strlit("1");
        reveal_strlit("2");
        reveal_strlit("3");
        reveal_strlit("4");
        reveal_strlit("5");
        reveal_strlit("6");
        reveal_strlit("7");
        reveal_strlit("8");
        reveal_strlit("9");
        reveal_strlit("a");
        reveal_strlit("b");
        reveal_strlit("c");
        reveal_strlit("d");
        reveal_strlit("e");
        reveal_strlit("f");
    }
    let s = match n {
        0 => "0",
        1 => "1",
        2 => "2",
        3 => "3",
        4 => "4",
        5 => "5",
        6 => "6",
        7 => "7",
        8 => "8",
        9 => "9",
        10 => "a",
        11 => "b",
        12 => "c",
        13 => "d",
        14 => "e",
        _ => "f",
    };
    assert(s@ =~= seq![digit(n as int)]);
    s
}

/// The `i`-th half-byte of `bytes`.
fn nibble_at(bytes: &[u8], i: usize) -> (n: u8)
    requires
        i < 2 * bytes@.len(),
    ensures
        n < 16,
        n == nibble(bytes@, i as int),
{
    let b = bytes[i / 2];
    if i % 2 == 0 {
        b / 16
    } else {
        b % 16
    }
}

/// Appends two lowercase hexadecimal digits for each byte.
pub fn push_hex(out: &mut String, bytes: &[u8])
    ensures
        final(out)@ == old(out)@ + hex_text(bytes@),
{
    let ghost start = out@;
    let mut i: usize = 0;
    assert(start + hex_text(bytes@.take(0)) =~= start);
    while i < bytes.len()
        invariant
            i <= bytes@.len(),
            out@ == start + hex_text(bytes@.take(i as int)),
        decreases bytes@.len() - i,
    {
        let b = bytes[i];
        let ghost before = out@;
        out.append(digit_str(b / 16));
        out.append(digit_str(b % 16));
        proof {
            let shorter = bytes@.take(i as int);
            let longer = bytes@.take(i + 1);
            assert forall|j: int| 0 <= j < 2 * longer.len() implies #[trigger] hex_text(longer)[j]
                == (hex_text(shorter) + seq![digit(b as int / 16), digit(b as int % 16)])[j] by {
                if j < 2 * i {
                    assert(longer[j / 2] == shorter[j / 2]);
                } else {
                    assert(longer[j / 2] == b);
                }
            }
            assert(hex_text(longer) =~= hex_text(shorter) + seq![
                digit(b as int / 16),
                digit(b as int % 16),
            ]);
            assert(out@ =~= start + hex_text(longer));
        }
        i += 1;
    }
    assert(bytes@.take(bytes@.len() as int) =~= bytes@);
}

/// Appends a 32-byte big-endian number in hexadecimal, without leading zeros.
pub fn push_word_hex(out: &mut String, word: &[u8; 32])
    ensures
        final(out)@ == old(out)@ + word_hex(word@),
{
    let bytes = word.as_slice();
    let ghost start = out@;
    let ghost all = hex_text(bytes@);
    let mut first: usize = 0;
    while first < 63 && nibble_at(bytes, first) == 0
        invariant
            first <= 63,
            bytes@.len() == 32,
            all == hex_text(bytes@),
            forall|j: int| 0 <= j < first ==> all[j] == '0',
        decreases 63 - first,
    {
        first += 1;
    }
    proof {
        if first < 63 {
            assert(all[first as int] == digit(nibble(bytes@, first as int)));
        }
        lemma_trim_zeros_skip(all, first as int);
        assert(all.subrange(first as int, first as int) =~= Seq::<char>::empty());
        assert(start + Seq::<char>::empty() =~= start);
    }
    let mut i: usize = first;
    while i < 64
        invariant
            first <= i <= 64,
            bytes@.len() == 32,
            all == hex_text(bytes@),
            out@ == start + all.subrange(first as int, i as int),
        decreases 64 - i,
    {
        let d = nibble_at(bytes, i);
        out.append(digit_str(d));
        assert(all.subrange(first as int, i as int) + seq![digit(d as int)] =~= all.subrange(
            first as int,
            i + 1,
        ));
        i += 1;
    }
    assert(all.subrange(first as int, 64) =~= all.skip(first as int));
}

/// Appends a number in decimal.
pub fn push_decimal(out: &mut String, n: usize)
    ensures
        final(out)@ == old(out)@ + decimal_text(n as nat),
    decreases n,
{
    if n >= 10 {
        push_decimal(out, n / 10);
    }
    let ghost before = out@;
    out.append(digit_str((n % 10) as u8));
    assert(before + seq![digit((n % 10) as int)] =~= old(out)@ + decimal_text(n as nat));
}

} // verus!
