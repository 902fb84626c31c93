//! Sixteen-byte identifiers and their textual forms.

use vstd::prelude::*;
use vstd::string::StringExecFns;

verus! {

/// A 16-byte identifier. Two identifiers are the same when their bytes are.
pub type Guid = [u8; 16];

/// The upper-case hexadecimal digit for `n` in `0..16`.
pub open spec fn hex_digit(n: int) -> char {
    seq!['0', '1', '2', '3', '4', '5', '6', '7', '8', '9', 'A', 'B', 'C', 'D', 'E', 'F'][n]
}

/// The two hexadecimal digits of one byte, high nibble first.
pub open spec fn hex_pair(byte: u8) -> Seq<char> {
    seq![hex_digit(byte as int / 16), hex_digit(byte as int % 16)]
}

/// The hexadecimal digits of a run of bytes, in order and without separators.
pub open spec fn hex_run(bytes: Seq<u8>) -> Seq<char>
    decreases bytes.len(),
{
    if bytes.len() == 0 {
        Seq::empty()
    } else {
        hex_run(bytes.drop_last()) + hex_pair(bytes.last())
    }
}

/// The text of an identifier in four groups of eight digits.
pub open spec fn grouped_hex(bytes: Seq<u8>) -> Seq<char> {
    hex_run(bytes.subrange(0, 4)) + seq!['-'] + hex_run(bytes.subrange(4, 8)) + seq!['-']
        + hex_run(bytes.subrange(8, 12)) + seq!['-'] + hex_run(bytes.subrange(12, 16))
}

/// The text under which an identifier is reported: `0` for the all-zero
/// identifier, otherwise digit groups of 8, 4, 4, 4 and 12.
pub open spec fn guid_text(bytes: Seq<u8>) -> Seq<char> {
    if forall|i: int| 0 <= i < bytes.len() ==> bytes[i] == 0 {
        seq!['0']
    } else {
        hex_run(bytes.subrange(0, 4)) + seq!['-'] + hex_run(bytes.subrange(4, 6)) + seq!['-']
            + hex_run(bytes.subrange(6, 8)) + seq!['-'] + hex_run(bytes.subrange(8, 10))
            + seq!['-'] + hex_run(bytes.subrange(10, 16))
    }
}

/// Whether two identifiers hold the same bytes.
pub fn guid_eq(a: &Guid, b: &Guid) -> (same: bool)
    ensures
        same == (a@ == b@),
{
    let mut i: usize = 0;
    while i < 16
        invariant
            i <= 16,
            forall|j: int| 0 <= j < i ==> a@[j] == b@[j],
        decreases 16 - i,
    {
        if a[i] != b[i] {
            return false;
        }
        i += 1;
    }
    assert(a@ =~= b@);
    true
}

/// `Display` of `gvas::types::Guid`: the text is `0` when every byte is
/// zero, and otherwise the bytes in upper-case hexadecimal, two digits each,
/// with a dash after the 4th, 6th, 8th and 10th byte.
#[verifier::external_body]
pub(crate) fn guid_to_string(guid: &Guid) -> (text: String)
    ensures
        text@ == guid_text(guid@),
{
    gvas::types::Guid(*guid).to_string()
}

fn hex_digit_str(n: u8) -> (digit: &'static str)
    requires
        n < 16,
    ensures
        digit@ == seq![hex_digit(n as int)],
{
    proof {
        reveal_strlit("0");
        reveal_strlit("1");
        reveal_strlit("2");
        reveal_strlit("3");
        reveal_strlit("4");
        reveal_strlit("5");
        reveal_strlit("6");
        reveal_strlit("7");
        reveal_strlit("8");
        reveal_strlit("9");
        reveal_strlit("A");
        reveal_strlit("B");
        reveal_strlit("C");
        reveal_strlit("D");
        reveal_strlit("E");
        reveal_strlit("F");
    }
    let digit = if n == 0 {
        "0"
    } else if n == 1 {
        "1"
    } else if n == 2 {
        "2"
    } else if n == 3 {
        "3"
    } else if n == 4 {
        "4"
    } else if n == 5 {
        "5"
    } else if n == 6 {
        "6"
    } else if n == 7 {
        "7"
    } else if n == 8 {
        "8"
    } else if n == 9 {
        "9"
    } else if n == 10 {
        "A"
    } else if n == 11 {
        "B"
    } else if n == 12 {
        "C"
    } else if n == 13 {
        "D"
    } else if n == 14 {
        "E"
    } else {
        "F"
    };
    assert(digit@ =~= seq![hex_digit(n as int)]);
    digit
}

fn append_hex(text: &mut String, bytes: &Guid, from: usize, to: usize)
    requires
        from <= to <= 16,
    ensures
        final(text)@ == old(text)@ + hex_run(bytes@.subrange(from as int, to as int)),
{
    let mut i: usize = from;
    assert(bytes@.subrange(from as int, from as int) =~= Seq::<u8>::empty());
    assert(text@ =~= old(text)@ + hex_run(bytes@.subrange(from as int, i as int)));
    while i < to
        invariant
            from <= i <= to <= 16,
            text@ == old(text)@ + hex_run(bytes@.subrange(from as int, i as int)),
        decreases to - i,
    {
        let byte: u8 = bytes[i];
        text.append(hex_digit_str(byte / 16));
        text.append(hex_digit_str(byte % 16));
        proof {
            let run = bytes@.subrange(from as int, i + 1);
            assert(run.drop_last() =~= bytes@.subrange(from as int, i as int));
            assert(run.last() == byte);
            assert(text@ =~= old(text)@ + hex_run(run));
        }
        i += 1;
    }
}

/// The text of an identifier in four dash-separated groups of eight
/// upper-case hexadecimal digits.
pub fn u8_to_string(arr: [u8; 16]) -> (text: String)
    ensures
        text@ == grouped_hex(arr@),
{
    proof {
        reveal_strlit("-");
    }
    let mut text = String::new();
    append_hex(&mut text, &arr, 0, 4);
    text.append("-");
    append_hex(&mut text, &arr, 4, 8);
    text.append("-");
    append_hex(&mut text, &arr, 8, 12);
    text.append("-");
    append_hex(&mut text, &arr, 12, 16);
    assert(text@ =~= grouped_hex(arr@));
    text
}

} // verus!
