//! The envelope: a list of byte strings packed into one byte string.
//!
//! Each item is written as a frame: the little-endian digits of its length,
//! without trailing zero digits, then a zero byte, then the item. An empty
//! item is written as two zero bytes, and the empty list as one zero byte.

use vstd::prelude::*;

verus! {

/// The little-endian digits of `n` in base 256, without trailing zeros.
pub open spec fn le_digits(n: nat) -> Seq<u8>
    decreases n,
{
    if n == 0 {
        Seq::empty()
    } else {
        seq![(n % 256) as u8] + le_digits(n / 256)
    }
}

/// The number that a string of little-endian digits stands for.
pub open spec fn le_value(digits: Seq<u8>) -> nat
    decreases digits.len(),
{
    if digits.len() == 0 {
        0
    } else {
        digits[0] as nat + 256 * le_value(digits.skip(1))
    }
}

/// The frame of one item.
pub open spec fn frame(item: Seq<u8>) -> Seq<u8> {
    if item.len() == 0 {
        seq![0u8, 0u8]
    } else {
        le_digits(item.len()) + seq![0u8] + item
    }
}

/// The frames of the items, one after the other.
pub open spec fn frames(list: Seq<Seq<u8>>) -> Seq<u8>
    decreases list.len(),
{
    if list.len() == 0 {
        Seq::empty()
    } else {
        frame(list[0]) + frames(list.skip(1))
    }
}

/// The envelope of a list.
pub open spec fn envelope(list: Seq<Seq<u8>>) -> Seq<u8> {
    if list.len() == 0 {
        seq![0u8]
    } else {
        frames(list)
    }
}

/// The bytes of a machine word: no length is read from more digits.
pub open spec fn word_bytes() -> int {
    usize::BITS as int / 8
}

/// The place of the first zero byte at or after `at`, or the length of
/// `bytes` where there is none.
pub open spec fn zero_from(bytes: Seq<u8>, at: int) -> int
    decreases bytes.len() - at,
{
    if at < 0 || at >= bytes.len() {
        bytes.len() as int
    } else if bytes[at] == 0 {
        at
    } else {
        zero_from(bytes, at + 1)
    }
}

/// `zero_from` gives a place from `at` on, with no zero byte before it and,
/// where it is within `bytes`, a zero byte at it.
pub proof fn lemma_zero_from(bytes: Seq<u8>, at: int)
    requires
        0 <= at <= bytes.len(),
    ensures
        at <= zero_from(bytes, at) <= bytes.len(),
        forall|k: int| at <= k < zero_from(bytes, at) ==> bytes[k] != 0,
        zero_from(bytes, at) < bytes.len() ==> bytes[zero_from(bytes, at)] == 0,
    decreases bytes.len() - at,
{
    if at < bytes.len() && bytes[at] != 0 {
        lemma_zero_from(bytes, at + 1);
    }
}

/// `item` put before the items of `rest`, where there are any.
pub open spec fn prepend(item: Seq<u8>, rest: Option<Seq<Seq<u8>>>) -> Option<Seq<Seq<u8>>> {
    match rest {
        Some(list) => Some(seq![item] + list),
        None => None,
    }
}

/// The items framed in `bytes` from `at` on, or `None` where a frame is cut
/// short: its length has no closing zero byte, or it announces more bytes
/// than are left. A zero byte where a frame begins stands for an empty item
/// and takes the byte after it along. A length of more digits than a machine
/// word holds ends the list there.
pub open spec fn items_from(bytes: Seq<u8>, at: int) -> Option<Seq<Seq<u8>>>
    decreases bytes.len() + 1 - at,
{
    if at < 0 || at >= bytes.len() {
        Some(Seq::empty())
    } else if bytes[at] == 0 {
        prepend(Seq::empty(), items_from(bytes, at + 2))
    } else {
        let end = zero_from(bytes, at);
        if end >= bytes.len() {
            None
        } else if end - at > word_bytes() {
            Some(Seq::empty())
        } else {
            let size = le_value(bytes.subrange(at, end));
            if end + 1 + size > bytes.len() {
                None
            } else {
                proof {
                    lemma_zero_from(bytes, at);
                }
                prepend(
                    bytes.subrange(end + 1, end + 1 + size),
                    items_from(bytes, end + 1 + size),
                )
            }
        }
    }
}

/// The list that an envelope holds, or `None` where it is cut short.
pub open spec fn items(bytes: Seq<u8>) -> Option<Seq<Seq<u8>>> {
    if bytes == seq![0u8] {
        Some(Seq::empty())
    } else {
        items_from(bytes, 0)
    }
}

/// The digits to the right of `from` alone stand for no more than the whole.
proof fn lemma_le_value_suffix(bytes: Seq<u8>, from: int, mid: int, to: int)
    requires
        0 <= from <= mid <= to <= bytes.len(),
    ensures
        le_value(bytes.subrange(mid, to)) <= le_value(bytes.subrange(from, to)),
    decreases mid - from,
{
    if from < mid {
        lemma_le_value_suffix(bytes, from + 1, mid, to);
        assert(bytes.subrange(from, to).skip(1) == bytes.subrange(from + 1, to));
    }
}

/// The place of the first zero byte at or after `at`.
fn find_zero(bytes: &Vec<u8>, at: usize) -> (end: usize)
    requires
        at <= bytes.len(),
    ensures
        end == zero_from(bytes@, at as int),
        at <= end <= bytes.len(),
{
    let mut end: usize = at;
    while end < bytes.len() && bytes[end] != 0
        invariant
            at <= end <= bytes.len(),
            zero_from(bytes@, at as int) == zero_from(bytes@, end as int),
        decreases bytes.len() - end,
    {
        end += 1;
    }
    end
}

/// The length that the digits in `bytes[from..to]` announce, or `None`
/// where it is beyond any length of a byte string on this machine.
fn announced(bytes: &Vec<u8>, from: usize, to: usize) -> (size: Option<usize>)
    requires
        from <= to <= bytes.len(),
    ensures
        match size {
            Some(n) => n == le_value(bytes@.subrange(from as int, to as int)),
            None => le_value(bytes@.subrange(from as int, to as int)) > usize::MAX,
        },
{
    let mut acc: usize = 0;
    let mut k: usize = to;
    while k > from
        invariant
            from <= k <= to <= bytes.len(),
            acc == le_value(bytes@.subrange(k as int, to as int)),
        decreases k - from,
    {
        k -= 1;
        let digit: usize = bytes[k] as usize;
        proof {
            assert(bytes@.subrange(k as int, to as int).skip(1) == bytes@.subrange(
                k as int + 1,
                to as int,
            ));
        }
        if acc > (usize::MAX - digit) / 256 {
            proof {
                lemma_le_value_suffix(bytes@, from as int, k as int, to as int);
            }
            return None;
        }
        acc = acc * 256 + digit;
    }
    Some(acc)
}

/// Whether `bytes` hold a list: whether no frame in them is cut short.
pub fn is_framed(bytes: &Vec<u8>) -> (ok: bool)
    ensures
        ok == items(bytes@).is_some(),
{
    let len: usize = bytes.len();
    if len == 1 && bytes[0] == 0 {
        assert(bytes@ == seq![0u8]);
        return true;
    }
    assert(bytes@ != seq![0u8]) by {
        if bytes@ == seq![0u8] {
            assert(seq![0u8].len() == 1);
            assert(seq![0u8][0] == 0u8);
        }
    }
    let word: usize = (usize::BITS / 8) as usize;
    let mut at: usize = 0;
    while at < len
        invariant
            len == bytes.len(),
            word == word_bytes(),
            at <= len,
            bytes@ != seq![0u8],
            items_from(bytes@, at as int).is_some() == items_from(bytes@, 0).is_some(),
        decreases len - at,
    {
        if bytes[at] == 0 {
            if len - at <= 2 {
                assert(items_from(bytes@, at + 2) == Some(Seq::<Seq<u8>>::empty()));
                return true;
            }
            at += 2;
        } else {
            let end: usize = find_zero(bytes, at);
            if end >= len {
                return false;
            }
            if end - at > word {
                return true;
            }
            match announced(bytes, at, end) {
                None => {
                    return false;
                },
                Some(size) => {
                    if size > len - (end + 1) {
                        return false;
                    }
                    at = end + 1 + size;
                },
            }
        }
    }
    true
}

/// Reads the list out of an envelope, or gives `None` where a frame in it is
/// cut short.
pub fn unpack(bytes: &Vec<u8>) -> (list: Option<Vec<Vec<u8>>>)
    ensures
        match list {
            Some(found) => items(bytes@) == Some(found.deep_view()),
            None => items(bytes@).is_none(),
        },
{
    if is_framed(bytes) {
        Some(decode(bytes))
    } else {
        None
    }
}

/// `astro_format::encode`: the frames of the items in their order, and the
/// single zero byte for a list without items.
#[verifier::external_body]
pub(crate) fn encode(list: &Vec<Vec<u8>>) -> (bytes: Vec<u8>)
    ensures
        bytes@ == envelope(list.deep_view()),
{
    astro_format::encode(list)
}

/// `astro_format::decode`: the items that it reads frame by frame. It is
/// called only on bytes in which no frame is cut short; on others it would
/// index beyond the end.
#[verifier::external_body]
pub(crate) fn decode(bytes: &Vec<u8>) -> (list: Vec<Vec<u8>>)
    requires
        items(bytes@).is_some(),
    ensures
        items(bytes@) == Some(list.deep_view()),
{
    astro_format::decode(bytes)
}

/// Whether a length is read back from its frame as it was written: it fits
/// a machine word, and none of its digits is zero.
pub open spec fn readable(n: nat) -> bool {
    n <= usize::MAX && forall|k: int| 0 <= k < le_digits(n).len() ==> le_digits(n)[k] != 0
}

/// 256 to the power of `k`.
pub open spec fn pow256(k: nat) -> nat
    decreases k,
{
    if k == 0 {
        1
    } else {
        256 * pow256((k - 1) as nat)
    }
}

/// The digits of a number stand for it.
pub proof fn lemma_le_digits_value(n: nat)
    ensures
        le_value(le_digits(n)) == n,
        n > 0 ==> le_digits(n).len() > 0,
    decreases n,
{
    if n > 0 {
        lemma_le_digits_value(n / 256);
        assert(le_digits(n).skip(1) == le_digits(n / 256));
    }
}

/// A number below `256^k` has at most `k` digits.
pub proof fn lemma_digit_count(n: nat, k: nat)
    requires
        n < pow256(k),
    ensures
        le_digits(n).len() <= k,
    decreases k,
{
    if n > 0 {
        lemma_digit_count(n / 256, (k - 1) as nat);
    }
}

/// The digits of a length fit a machine word.
pub proof fn lemma_word_digits(n: nat)
    requires
        n <= usize::MAX,
    ensures
        le_digits(n).len() <= word_bytes(),
{
    if usize::BITS == 32 {
        assert(pow256(4) == 0x1_0000_0000) by {
            reveal_with_fuel(pow256, 5);
        }
        lemma_digit_count(n, 4);
    } else {
        assert(pow256(8) == 0x1_0000_0000_0000_0000) by {
            reveal_with_fuel(pow256, 9);
        }
        lemma_digit_count(n, 8);
    }
}

/// Where the bytes from `at` up to `end` are not zero and the byte at `end`
/// is, `end` is the place of the first zero byte from `at` on.
proof fn lemma_zero_from_is(bytes: Seq<u8>, at: int, end: int)
    requires
        0 <= at <= end < bytes.len(),
        forall|k: int| at <= k < end ==> bytes[k] != 0,
        bytes[end] == 0,
    ensures
        zero_from(bytes, at) == end,
    decreases end - at,
{
    if at < end {
        lemma_zero_from_is(bytes, at + 1, end);
    }
}

/// The frames of a list, read from where they begin, give the list back.
pub proof fn lemma_frames_read_back(before: Seq<u8>, list: Seq<Seq<u8>>)
    requires
        forall|i: int| 0 <= i < list.len() ==> readable(#[trigger] list[i].len()),
    ensures
        items_from(before + frames(list), before.len() as int) == Some(list),
    decreases list.len(),
{
    let bytes = before + frames(list);
    let at = before.len() as int;
    if list.len() == 0 {
        assert(list == Seq::<Seq<u8>>::empty());
    } else {
        let item = list[0];
        let rest = list.skip(1);
        assert forall|i: int| 0 <= i < rest.len() implies readable(#[trigger] rest[i].len()) by {
            assert(rest[i] == list[i + 1]);
        }
        lemma_frames_read_back(before + frame(item), rest);
        assert(bytes == (before + frame(item)) + frames(rest));
        assert(seq![item] + rest == list);
        if item.len() == 0 {
            assert(item == Seq::<u8>::empty());
            assert(bytes[at] == 0);
        } else {
            let n = item.len();
            let digits = le_digits(n);
            let end = at + digits.len();
            assert(readable(list[0].len()));
            lemma_le_digits_value(n);
            lemma_word_digits(n);
            assert forall|k: int| at <= k < end implies bytes[k] != 0 by {
                assert(bytes[k] == digits[k - at]);
            }
            assert(bytes[end] == 0);
            lemma_zero_from_is(bytes, at, end);
            assert(bytes.subrange(at, end) == digits);
            assert(bytes.subrange(end + 1, end + 1 + n) == item);
            assert(bytes[at] != 0);
        }
    }
}

/// Reading an envelope gives back the list that it was made of, where the
/// length of each item is read back as written.
pub proof fn lemma_envelope_read_back(list: Seq<Seq<u8>>)
    requires
        forall|i: int| 0 <= i < list.len() ==> readable(#[trigger] list[i].len()),
    ensures
        items(envelope(list)) == Some(list),
{
    if list.len() == 0 {
        assert(list == Seq::<Seq<u8>>::empty());
    } else {
        lemma_frames_read_back(Seq::empty(), list);
        assert(Seq::<u8>::empty() + frames(list) == frames(list));
        assert(frame(list[0]).len() >= 2) by {
            lemma_le_digits_value(list[0].len());
        }
        assert(frames(list).len() >= 2);
        assert(seq![0u8].len() == 1);
    }
}

} // verus!
