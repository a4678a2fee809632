//! Non-negative integers of any size, held as big-endian digits in base 256.

use opis::Int;
use vstd::prelude::*;

verus! {

/// The number that a string of big-endian digits in base 256 stands for.
pub open spec fn be_value(digits: Seq<u8>) -> nat
    decreases digits.len(),
{
    if digits.len() == 0 {
        0
    } else {
        256 * be_value(digits.drop_last()) + digits.last() as nat
    }
}

/// A digit string is canonical when no zero digit leads it, the single
/// digit zero and the empty string being the two accepted forms of zero.
pub open spec fn canonical(digits: Seq<u8>) -> bool {
    digits.len() <= 1 || digits[0] != 0
}

/// The digit string without its leading zero digits, of which the last is
/// kept when nothing else would be left.
pub open spec fn minimal(digits: Seq<u8>) -> Seq<u8>
    decreases digits.len(),
{
    if digits.len() > 1 && digits[0] == 0 {
        minimal(digits.skip(1))
    } else {
        digits
    }
}

/// A leading zero digit does not change the number.
pub proof fn lemma_leading_zero(digits: Seq<u8>)
    requires
        digits.len() > 0,
        digits[0] == 0,
    ensures
        be_value(digits) == be_value(digits.skip(1)),
    decreases digits.len(),
{
    if digits.len() == 1 {
        reveal_with_fuel(be_value, 2);
        assert(digits.drop_last().len() == 0);
        assert(digits.skip(1).len() == 0);
    } else {
        lemma_leading_zero(digits.drop_last());
        assert(digits.drop_last().skip(1) == digits.skip(1).drop_last());
        assert(digits.skip(1).last() == digits.last());
    }
}

/// `minimal` yields a canonical string that stands for the same number and
/// is the string itself when that is canonical already.
pub proof fn lemma_minimal(digits: Seq<u8>)
    ensures
        canonical(minimal(digits)),
        be_value(minimal(digits)) == be_value(digits),
        minimal(digits).len() <= digits.len(),
        canonical(digits) ==> minimal(digits) == digits,
        minimal(minimal(digits)) == minimal(digits),
    decreases digits.len(),
{
    if digits.len() > 1 && digits[0] == 0 {
        lemma_minimal(digits.skip(1));
        lemma_leading_zero(digits);
    }
}

/// A non-negative integer of any size.
#[derive(Debug, PartialEq, Eq)]
pub struct Natural {
    digits: Vec<u8>,
}

impl Clone for Natural {
    fn clone(&self) -> (out: Self)
        ensures
            out@ == self@,
    {
        proof {
            use_type_invariant(self);
        }
        Natural { digits: self.digits.clone() }
    }
}

impl View for Natural {
    type V = Seq<u8>;

    /// The big-endian digits.
    closed spec fn view(&self) -> Seq<u8> {
        self.digits@
    }
}

impl Natural {
    /// Every value holds canonical digits.
    #[verifier::type_invariant]
    pub open spec fn well_formed(&self) -> bool {
        canonical(self@)
    }

    /// The number held.
    pub open spec fn value(&self) -> nat {
        be_value(self@)
    }

    /// Zero, in the form of the single digit zero.
    pub fn zero() -> (n: Natural)
        ensures
            n@ == seq![0u8],
            n.value() == 0,
            n.well_formed(),
    {
        let digits = int_zero_digits();
        proof {
            reveal_with_fuel(be_value, 2);
            assert(digits@.drop_last().len() == 0);
        }
        Natural { digits }
    }

    /// The integer that `bytes` spell in big-endian order. Leading zero
    /// bytes are dropped; an empty string stays empty and stands for zero.
    pub fn from_bytes(bytes: &Vec<u8>) -> (n: Natural)
        ensures
            n@ == minimal(bytes@),
            n.value() == be_value(bytes@),
            n.well_formed(),
    {
        let digits = int_digits(bytes);
        proof {
            lemma_minimal(bytes@);
        }
        Natural { digits }
    }

    /// The digits, most significant first.
    pub fn to_bytes(&self) -> (out: Vec<u8>)
        ensures
            out@ == self@,
            canonical(out@),
    {
        proof {
            use_type_invariant(self);
        }
        self.digits.clone()
    }
}

/// `opis::Int::zero`, read back through `opis::Int::to_bytes`: the integer
/// zero of opis is written as the single byte zero.
#[verifier::external_body]
fn int_zero_digits() -> (digits: Vec<u8>)
    ensures
        digits@ == seq![0u8],
{
    Int::zero().to_bytes()
}

/// `opis::Int::from_bytes`, read back through `opis::Int::to_bytes`: opis
/// takes the bytes as big-endian digits, drops the leading zero bits but the
/// last, and writes the bits that are left as the fewest bytes that hold
/// them; no bits give no bytes.
#[verifier::external_body]
fn int_digits(bytes: &Vec<u8>) -> (digits: Vec<u8>)
    ensures
        digits@ == minimal(bytes@),
{
    Int::from_bytes(bytes).to_bytes()
}

} // verus!
