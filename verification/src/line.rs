//! One line of log text, put together piece by piece in a string of fixed capacity.
//!
//! The string is a `heapless::String`, which holds its bytes in place and refuses a piece that
//! no longer fits.
use core::fmt::Write;
use vstd::prelude::*;
use vstd::string::StringSliceAdditionalSpecFns;

verus! {

/// The bytes that a line can hold.
pub const LINE_CAPACITY: usize = 64;

/// `heapless::String`, a string of at most `N` bytes without heap storage.
#[verifier::external_type_specification]
#[verifier::external_body]
pub struct ExString<const N: usize>(heapless::String<N>);

/// The bytes that a line holds.
pub uninterp spec fn line_bytes(line: heapless::String<64>) -> Seq<u8>;

/// Calls `heapless::String::new`, which makes a string without contents.
#[verifier::external_body]
pub(crate) fn line_new() -> (line: heapless::String<64>)
    ensures
        line_bytes(line) == Seq::<u8>::empty(),
{
    heapless::String::new()
}

/// Calls `heapless::String::push_str`. It appends all bytes of `piece` and reports success where
/// they fit into the capacity; where they do not, it reports failure and appends nothing.
#[verifier::external_body]
pub(crate) fn line_push_str(line: &mut heapless::String<64>, piece: &str) -> (ok: bool)
    ensures
        ok == (line_bytes(*old(line)).len() + piece.spec_bytes().len() <= LINE_CAPACITY),
        line_bytes(*final(line)) == if ok {
            line_bytes(*old(line)) + piece.spec_bytes()
        } else {
            line_bytes(*old(line))
        },
{
    line.push_str(piece).is_ok()
}

/// Writes an integer through the `core::fmt::Write` of `heapless::String`, which appends the
/// text that it is handed. The text of an integer is its decimal digits. Asked for only where
/// they fit.
#[verifier::external_body]
pub(crate) fn line_push_decimal(line: &mut heapless::String<64>, n: u64)
    requires
        line_bytes(*old(line)).len() + decimal(n as nat).len() <= LINE_CAPACITY,
    ensures
        line_bytes(*final(line)) == line_bytes(*old(line)) + decimal(n as nat),
{
    let _ = core::write!(line, "{}", n);
}

/// Calls `as_bytes` on the string slice that a `heapless::String` dereferences to: the bytes that
/// were appended.
#[verifier::external_body]
pub(crate) fn line_as_bytes(line: &heapless::String<64>) -> (bytes: &[u8])
    ensures
        bytes@ == line_bytes(*line),
{
    line.as_bytes()
}

/// The decimal digits of a number as ASCII text, without leading zeros.
pub open spec fn decimal(n: nat) -> Seq<u8>
    decreases n,
{
    if n < 10 {
        seq![(48 + n) as u8]
    } else {
        decimal(n / 10).push((48 + n % 10) as u8)
    }
}

/// Ten to the power `k`.
pub open spec fn pow10(k: nat) -> nat
    decreases k,
{
    if k == 0 {
        1
    } else {
        10 * pow10((k - 1) as nat)
    }
}

/// A number below ten to the power `k` has at most `k` digits, and all of them are digits.
pub(crate) proof fn lemma_decimal(n: nat, k: nat)
    requires
        k >= 1,
        n < pow10(k),
    ensures
        1 <= decimal(n).len() <= k,
        forall|i: int| 0 <= i < decimal(n).len() ==> 48 <= #[trigger] decimal(n)[i] <= 57,
    decreases n,
{
    if n >= 10 {
        assert(k >= 2) by {
            reveal_with_fuel(pow10, 2);
        }
        lemma_decimal(n / 10, (k - 1) as nat);
    }
}

/// The number that a run of digits reads as.
pub open spec fn reads_as(digits: Seq<u8>) -> int
    decreases digits.len(),
{
    if digits.len() == 0 {
        0
    } else {
        10 * reads_as(digits.drop_last()) + (digits.last() - 48)
    }
}

/// Whether a byte is the ASCII code of a digit.
pub open spec fn is_digit(byte: u8) -> bool {
    48 <= byte <= 57
}

/// The text of a number is digits alone, reads as that number, and has no zero in front of others.
pub proof fn law_decimal_reads_back(n: nat)
    ensures
        reads_as(decimal(n)) == n,
        decimal(n).len() > 0,
        forall|i: int| 0 <= i < decimal(n).len() ==> is_digit(#[trigger] decimal(n)[i]),
        decimal(n).len() > 1 ==> decimal(n)[0] != 48,
        n > 0 ==> decimal(n)[0] != 48,
    decreases n,
{
    if n < 10 {
        let none = decimal(n).drop_last();
        assert(none.len() == 0 && reads_as(none) == 0);
    } else {
        law_decimal_reads_back(n / 10);
        assert(decimal(n).drop_last() =~= decimal(n / 10));
    }
}

/// The numbers that stand in a text, in their order. `begun` is what has been read of a number that
/// has begun, if one has.
pub open spec fn numbers(text: Seq<u8>, begun: Option<int>) -> Seq<int>
    decreases text.len(),
{
    let ended = match begun {
        Some(n) => seq![n],
        None => Seq::empty(),
    };
    if text.len() == 0 {
        ended
    } else if is_digit(text[0]) {
        let before: int = match begun {
            Some(n) => 10 * n,
            None => 0,
        };
        numbers(text.drop_first(), Some(before + text[0] - 48))
    } else {
        ended + numbers(text.drop_first(), None)
    }
}

/// A text with each number in it written as a single zero. `begun` says whether a number has begun.
pub open spec fn shape(text: Seq<u8>, begun: bool) -> Seq<u8>
    decreases text.len(),
{
    if text.len() == 0 {
        Seq::empty()
    } else if is_digit(text[0]) {
        if begun {
            shape(text.drop_first(), true)
        } else {
            seq![48u8] + shape(text.drop_first(), true)
        }
    } else {
        seq![text[0]] + shape(text.drop_first(), false)
    }
}

/// Whether a piece of text is not empty and holds no digit.
pub open spec fn is_words(piece: Seq<u8>) -> bool {
    &&& piece.len() > 0
    &&& forall|i: int| 0 <= i < piece.len() ==> !is_digit(#[trigger] piece[i])
}

/// A number at the front of a text is read as a whole.
pub(crate) proof fn lemma_number_in_front(n: nat, rest: Seq<u8>)
    ensures
        numbers(decimal(n) + rest, None) == numbers(rest, Some(n as int)),
        shape(decimal(n) + rest, false) == seq![48u8] + shape(rest, true),
    decreases n,
{
    let text = decimal(n) + rest;
    if n < 10 {
        assert(text.drop_first() =~= rest);
    } else {
        let digit = (48 + n % 10) as u8;
        let tail = seq![digit] + rest;
        assert(text =~= decimal(n / 10) + tail);
        lemma_number_in_front(n / 10, tail);
        assert(tail.drop_first() =~= rest);
    }
}

/// A piece without digits in front of a text ends a number that has begun.
pub(crate) proof fn lemma_words_in_front(piece: Seq<u8>, rest: Seq<u8>, begun: Option<int>)
    requires
        is_words(piece),
    ensures
        numbers(piece + rest, begun) == (match begun {
            Some(n) => seq![n],
            None => Seq::empty(),
        }) + numbers(rest, None),
        shape(piece + rest, begun is Some) == piece + shape(rest, false),
    decreases piece.len(),
{
    let text = piece + rest;
    let less = piece.drop_first();
    assert(text[0] == piece[0]);
    assert(text.drop_first() =~= less + rest);
    if less.len() > 0 {
        assert forall|i: int| 0 <= i < less.len() implies !is_digit(#[trigger] less[i]) by {
            assert(less[i] == piece[i + 1]);
        }
        lemma_words_in_front(less, rest, None);
        assert(numbers(less + rest, None) =~= numbers(rest, None));
    } else {
        assert(less + rest =~= rest);
    }
    assert(shape(text, begun is Some) =~= piece + shape(rest, false));
}

/// A number and the words behind it at the front of a text are read one after the other.
pub(crate) proof fn lemma_field_in_front(n: nat, piece: Seq<u8>, rest: Seq<u8>)
    requires
        is_words(piece),
    ensures
        numbers(decimal(n) + (piece + rest), None) == seq![n as int] + numbers(rest, None),
        shape(decimal(n) + (piece + rest), false) == seq![48u8] + (piece + shape(rest, false)),
{
    lemma_number_in_front(n, piece + rest);
    lemma_words_in_front(piece, rest, Some(n as int));
}

} // verus!
