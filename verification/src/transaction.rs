//! The transaction: eight fields in a fixed order, written to bytes, read
//! from bytes, hashed and checked against the sender's signature.

use crate::digest::merkle;
use crate::digest::merkle_root;
use crate::envelope::encode;
use crate::envelope::envelope;
use crate::envelope::items;
use crate::envelope::le_digits;
use crate::envelope::lemma_envelope_read_back;
use crate::envelope::readable;
use crate::envelope::unpack;
use crate::error::DecodeError;
use crate::error::Field;
use crate::natural::canonical;
use crate::natural::lemma_minimal;
use crate::natural::minimal;
use crate::natural::Natural;
use crate::signature::signed;
use vstd::prelude::*;
use vstd::slice::slice_to_vec;

verus! {

/// A transaction as a mathematical value: the integers by their big-endian
/// digits, the other fields by their bytes.
pub struct TransactionView {
    pub chain: Seq<u8>,
    pub counter: Seq<u8>,
    pub recipient: Seq<u8>,
    pub sender: Seq<u8>,
    pub signature: Seq<u8>,
    pub solar_limit: Seq<u8>,
    pub solar_price: Seq<u8>,
    pub value: Seq<u8>,
}

/// `n` zero bytes.
pub open spec fn zeros(n: nat) -> Seq<u8> {
    Seq::new(n, |i: int| 0u8)
}

impl TransactionView {
    /// The transaction of which every integer is zero and every byte of the
    /// other fields is zero.
    pub open spec fn zero() -> TransactionView {
        TransactionView {
            chain: seq![0u8],
            counter: seq![0u8],
            recipient: zeros(32),
            sender: zeros(32),
            signature: zeros(64),
            solar_limit: seq![0u8],
            solar_price: seq![0u8],
            value: seq![0u8],
        }
    }

    /// What holds of every transaction: the integers are written without
    /// leading zero digits, and the other fields have their sizes.
    pub open spec fn valid(self) -> bool {
        &&& canonical(self.chain)
        &&& canonical(self.counter)
        &&& self.recipient.len() == 32
        &&& self.sender.len() == 32
        &&& self.signature.len() == 64
        &&& canonical(self.solar_limit)
        &&& canonical(self.solar_price)
        &&& canonical(self.value)
    }

    /// Whether the number of digits of each integer is read back from the
    /// envelope as it was written.
    pub open spec fn readable(self) -> bool {
        &&& readable(self.chain.len())
        &&& readable(self.counter.len())
        &&& readable(self.solar_limit.len())
        &&& readable(self.solar_price.len())
        &&& readable(self.value.len())
    }

    /// The eight fields in the order of the envelope.
    pub open spec fn fields(self) -> Seq<Seq<u8>> {
        seq![
            self.chain,
            self.counter,
            self.recipient,
            self.sender,
            self.signature,
            self.solar_limit,
            self.solar_price,
            self.value,
        ]
    }

    /// The bytes of the transaction.
    pub open spec fn wire(self) -> Seq<u8> {
        envelope(self.fields())
    }

    /// The seven fields that are signed, in their order.
    pub open spec fn body_leaves(self) -> Seq<Seq<u8>> {
        seq![
            self.chain,
            self.counter,
            self.recipient,
            self.sender,
            self.solar_limit,
            self.solar_price,
            self.value,
        ]
    }

    /// The digest that is signed.
    pub open spec fn body_digest(self) -> Seq<u8> {
        merkle(self.body_leaves())
    }

    /// The digest that is signed, and the signature.
    pub open spec fn hash_leaves(self) -> Seq<Seq<u8>> {
        seq![self.body_digest(), self.signature]
    }

    /// The digest of the whole transaction.
    pub open spec fn full_digest(self) -> Seq<u8> {
        merkle(self.hash_leaves())
    }

    /// Whether the signature is one of the body digest by the sender.
    pub open spec fn verifies(self) -> bool {
        signed(self.body_digest(), self.sender, self.signature)
    }

    /// The transaction that a list of items stands for. The list has eight
    /// items; the third and the fourth have 32 bytes and the fifth has 64.
    /// Of two faults the first in this order is reported.
    pub open spec fn from_fields(list: Seq<Seq<u8>>) -> Result<TransactionView, DecodeError> {
        if list.len() != 8 {
            Err(DecodeError::Format)
        } else if list[2].len() != 32 {
            Err(DecodeError::FieldLength(Field::Recipient))
        } else if list[3].len() != 32 {
            Err(DecodeError::FieldLength(Field::Sender))
        } else if list[4].len() != 64 {
            Err(DecodeError::FieldLength(Field::Signature))
        } else {
            Ok(
                TransactionView {
                    chain: minimal(list[0]),
                    counter: minimal(list[1]),
                    recipient: list[2],
                    sender: list[3],
                    signature: list[4],
                    solar_limit: minimal(list[5]),
                    solar_price: minimal(list[6]),
                    value: minimal(list[7]),
                },
            )
        }
    }

    /// The transaction that bytes stand for.
    pub open spec fn parse(bytes: Seq<u8>) -> Result<TransactionView, DecodeError> {
        match items(bytes) {
            Some(list) => Self::from_fields(list),
            None => Err(DecodeError::Format),
        }
    }
}

/// A length below 256 is written as one digit and read back as written.
pub proof fn lemma_one_digit_readable(n: nat)
    requires
        n < 256,
    ensures
        readable(n),
{
    reveal_with_fuel(le_digits, 2);
}

/// Reading the bytes of a transaction gives the transaction back, field by
/// field, where the envelope reads the number of digits of each integer
/// back as written.
pub proof fn lemma_round_trip(tx: TransactionView)
    requires
        tx.valid(),
        tx.readable(),
    ensures
        TransactionView::parse(tx.wire()) == Ok::<TransactionView, DecodeError>(tx),
{
    let list = tx.fields();
    lemma_one_digit_readable(32);
    lemma_one_digit_readable(64);
    lemma_envelope_read_back(list);
    lemma_minimal(tx.chain);
    lemma_minimal(tx.counter);
    lemma_minimal(tx.solar_limit);
    lemma_minimal(tx.solar_price);
    lemma_minimal(tx.value);
}

/// What is read from bytes is a valid transaction.
pub proof fn lemma_parse_valid(bytes: Seq<u8>)
    requires
        TransactionView::parse(bytes).is_ok(),
    ensures
        TransactionView::parse(bytes).unwrap().valid(),
{
    let list = items(bytes).unwrap();
    lemma_minimal(list[0]);
    lemma_minimal(list[1]);
    lemma_minimal(list[5]);
    lemma_minimal(list[6]);
    lemma_minimal(list[7]);
}

/// Both digests are determined by the fields: transactions that agree in
/// every field agree in both digests.
pub proof fn lemma_digests_determined(a: Transaction, b: Transaction)
    requires
        a@ == b@,
    ensures
        a@.body_digest() == b@.body_digest(),
        a@.full_digest() == b@.full_digest(),
{
}

/// The body digest does not depend on the signature: transactions that
/// agree in the seven other fields agree in it.
pub proof fn lemma_body_digest_ignores_signature(a: TransactionView, b: TransactionView)
    requires
        a.chain == b.chain,
        a.counter == b.counter,
        a.recipient == b.recipient,
        a.sender == b.sender,
        a.solar_limit == b.solar_limit,
        a.solar_price == b.solar_price,
        a.value == b.value,
    ensures
        a.body_digest() == b.body_digest(),
{
}

/// The signature is a leaf of the full digest: transactions with different
/// signatures hand different leaves to the Merkle root.
pub proof fn lemma_signature_is_hashed(a: TransactionView, b: TransactionView)
    requires
        a.signature != b.signature,
    ensures
        a.hash_leaves() != b.hash_leaves(),
{
    assert(a.hash_leaves()[1] == a.signature);
    assert(b.hash_leaves()[1] == b.signature);
}

/// A transaction.
#[derive(Debug)]
pub struct Transaction {
    pub chain: Natural,
    pub counter: Natural,
    pub recipient: [u8; 32],
    pub sender: [u8; 32],
    pub signature: [u8; 64],
    pub solar_limit: Natural,
    pub solar_price: Natural,
    pub value: Natural,
}

impl View for Transaction {
    type V = TransactionView;

    open spec fn view(&self) -> TransactionView {
        TransactionView {
            chain: self.chain@,
            counter: self.counter@,
            recipient: self.recipient@,
            sender: self.sender@,
            signature: self.signature@,
            solar_limit: self.solar_limit@,
            solar_price: self.solar_price@,
            value: self.value@,
        }
    }
}

impl Clone for Transaction {
    fn clone(&self) -> (out: Self)
        ensures
            out@ == self@,
    {
        Transaction {
            chain: self.chain.clone(),
            counter: self.counter.clone(),
            recipient: self.recipient,
            sender: self.sender,
            signature: self.signature,
            solar_limit: self.solar_limit.clone(),
            solar_price: self.solar_price.clone(),
            value: self.value.clone(),
        }
    }
}

/// The bytes of `bytes` as an array.
fn to_array<const N: usize>(bytes: &Vec<u8>) -> (out: [u8; N])
    requires
        bytes.len() == N,
    ensures
        out@ == bytes@,
{
    let mut out: [u8; N] = [0u8;N];
    let mut i: usize = 0;
    while i < N
        invariant
            i <= N,
            bytes.len() == N,
            forall|k: int| 0 <= k < i ==> out@[k] == bytes@[k],
        decreases N - i,
    {
        out[i] = bytes[i];
        i += 1;
    }
    assert(out@ =~= bytes@);
    out
}

/// The deep view of a list of byte strings holds the view of each.
proof fn lemma_deep_view(list: &Vec<Vec<u8>>)
    ensures
        list.deep_view().len() == list.len(),
        forall|i: int| 0 <= i < list.len() ==> #[trigger] list.deep_view()[i] == list[i]@,
{
    assert forall|i: int| 0 <= i < list.len() implies #[trigger] list.deep_view()[i]
        == list[i]@ by {
        assert(list[i].deep_view() =~= list[i]@);
    }
}

impl Transaction {
    /// The transaction of which every integer is zero and every byte of the
    /// other fields is zero. It is a start for filling in the fields, and
    /// no transfer that anybody signed.
    pub fn new() -> (tx: Transaction)
        ensures
            tx@ == TransactionView::zero(),
            tx.chain.value() == 0,
            tx.counter.value() == 0,
            tx.solar_limit.value() == 0,
            tx.solar_price.value() == 0,
            tx.value.value() == 0,
    {
        let tx = Transaction {
            chain: Natural::zero(),
            counter: Natural::zero(),
            recipient: [0u8;32],
            sender: [0u8;32],
            signature: [0u8;64],
            solar_limit: Natural::zero(),
            solar_price: Natural::zero(),
            value: Natural::zero(),
        };
        proof {
            assert(tx.recipient@ =~= zeros(32));
            assert(tx.sender@ =~= zeros(32));
            assert(tx.signature@ =~= zeros(64));
        }
        tx
    }

    /// The seven fields that are signed, in their order.
    pub fn body_leaves(&self) -> (leaves: Vec<Vec<u8>>)
        ensures
            leaves.deep_view() == self@.body_leaves(),
    {
        let mut leaves: Vec<Vec<u8>> = Vec::new();
        leaves.push(self.chain.to_bytes());
        leaves.push(self.counter.to_bytes());
        leaves.push(slice_to_vec(self.recipient.as_slice()));
        leaves.push(slice_to_vec(self.sender.as_slice()));
        leaves.push(self.solar_limit.to_bytes());
        leaves.push(self.solar_price.to_bytes());
        leaves.push(self.value.to_bytes());
        proof {
            lemma_deep_view(&leaves);
            assert(leaves.deep_view() =~= self@.body_leaves());
        }
        leaves
    }

    /// The digest that is signed: the Merkle root over the seven fields
    /// other than the signature.
    pub fn body_hash(&self) -> (digest: [u8; 32])
        ensures
            digest@ == self@.body_digest(),
    {
        let leaves = self.body_leaves();
        merkle_root(&leaves)
    }

    /// The digest of the whole transaction: the Merkle root over the body
    /// digest and the signature.
    pub fn hash(&self) -> (digest: [u8; 32])
        ensures
            digest@ == self@.full_digest(),
    {
        let body = self.body_hash();
        let mut leaves: Vec<Vec<u8>> = Vec::new();
        leaves.push(slice_to_vec(body.as_slice()));
        leaves.push(slice_to_vec(self.signature.as_slice()));
        proof {
            lemma_deep_view(&leaves);
            assert(leaves.deep_view() =~= self@.hash_leaves());
        }
        merkle_root(&leaves)
    }

    /// The eight fields in the order of the envelope.
    pub fn fields(&self) -> (list: Vec<Vec<u8>>)
        ensures
            list.deep_view() == self@.fields(),
    {
        let mut list: Vec<Vec<u8>> = Vec::new();
        list.push(self.chain.to_bytes());
        list.push(self.counter.to_bytes());
        list.push(slice_to_vec(self.recipient.as_slice()));
        list.push(slice_to_vec(self.sender.as_slice()));
        list.push(slice_to_vec(self.signature.as_slice()));
        list.push(self.solar_limit.to_bytes());
        list.push(self.solar_price.to_bytes());
        list.push(self.value.to_bytes());
        proof {
            lemma_deep_view(&list);
            assert(list.deep_view() =~= self@.fields());
        }
        list
    }

    /// The bytes of the transaction: the envelope of its eight fields.
    pub fn to_bytes(&self) -> (bytes: Vec<u8>)
        ensures
            bytes@ == self@.wire(),
            self@.valid(),
            self@.readable() ==> TransactionView::parse(bytes@) == Ok::<
                TransactionView,
                DecodeError,
            >(self@),
    {
        proof {
            use_type_invariant(&self.chain);
            use_type_invariant(&self.counter);
            use_type_invariant(&self.solar_limit);
            use_type_invariant(&self.solar_price);
            use_type_invariant(&self.value);
            if self@.readable() {
                lemma_round_trip(self@);
            }
        }
        let list = self.fields();
        encode(&list)
    }

    /// The transaction that a list of items stands for, or what is wrong
    /// with the list.
    pub fn from_fields(list: &Vec<Vec<u8>>) -> (out: Result<Transaction, DecodeError>)
        ensures
            match out {
                Ok(tx) => TransactionView::from_fields(list.deep_view()) == Ok::<
                    TransactionView,
                    DecodeError,
                >(tx@),
                Err(error) => TransactionView::from_fields(list.deep_view()) == Err::<
                    TransactionView,
                    DecodeError,
                >(error),
            },
    {
        proof {
            lemma_deep_view(list);
        }
        if list.len() != 8 {
            return Err(DecodeError::Format);
        }
        if list[2].len() != 32 {
            return Err(DecodeError::FieldLength(Field::Recipient));
        }
        if list[3].len() != 32 {
            return Err(DecodeError::FieldLength(Field::Sender));
        }
        if list[4].len() != 64 {
            return Err(DecodeError::FieldLength(Field::Signature));
        }
        Ok(
            Transaction {
                chain: Natural::from_bytes(&list[0]),
                counter: Natural::from_bytes(&list[1]),
                recipient: to_array(&list[2]),
                sender: to_array(&list[3]),
                signature: to_array(&list[4]),
                solar_limit: Natural::from_bytes(&list[5]),
                solar_price: Natural::from_bytes(&list[6]),
                value: Natural::from_bytes(&list[7]),
            },
        )
    }

    /// The transaction that `arg` stands for, or what is wrong with the
    /// bytes. Bytes that are no envelope are a fault of format.
    pub fn from_bytes(arg: &Vec<u8>) -> (out: Result<Transaction, DecodeError>)
        ensures
            match out {
                Ok(tx) => TransactionView::parse(arg@) == Ok::<TransactionView, DecodeError>(tx@),
                Err(error) => TransactionView::parse(arg@) == Err::<TransactionView, DecodeError>(
                    error,
                ),
            },
    {
        match unpack(arg) {
            Some(list) => Transaction::from_fields(&list),
            None => Err(DecodeError::Format),
        }
    }

    /// Whether the signature is one of the body digest by the sender. A
    /// sender that is no key and a signature that is none give `false`.
    pub fn verify(&self) -> (ok: bool)
        ensures
            ok == self@.verifies(),
    {
        let digest = self.body_hash();
        crate::signature::verify(&digest, &self.sender, &self.signature)
    }
}

} // verus!
