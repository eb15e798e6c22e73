//! Elements of the scalar field of BN254 and their 32-byte big-endian encoding.

use crate::error::{Field, SchemaError};
use ark_bn254::Fr;
use ark_ff::{BigInteger, PrimeField};
use vstd::prelude::*;

verus! {

/// Width of an encoded field element, in bytes.
pub const FIELD_BYTES: usize = 32;

/// The order of the scalar field of BN254.
pub open spec fn modulus() -> nat {
    21888242871839275222246405745257275088548364400416034343698204186575808495617nat
}

/// The natural number that a byte string denotes when read big-endian.
pub open spec fn be_value(bytes: Seq<u8>) -> nat
    decreases bytes.len(),
{
    if bytes.len() == 0 {
        0
    } else {
        be_value(bytes.drop_last()) * 256 + bytes.last() as nat
    }
}

/// What decoding makes of a byte string: nothing unless it holds between one
/// and thirty-two bytes, else its big-endian value reduced modulo the field order.
pub open spec fn decoded(bytes: Seq<u8>) -> Option<nat> {
    if 1 <= bytes.len() <= FIELD_BYTES {
        Some(be_value(bytes) % modulus())
    } else {
        None
    }
}

/// The error that decoding `bytes` as the named field ends in, if any.
pub open spec fn field_error(field: Field, bytes: Seq<u8>) -> Option<SchemaError> {
    if bytes.len() == 0 {
        Some(SchemaError::EmptyFieldBytes { field })
    } else if bytes.len() > FIELD_BYTES {
        Some(SchemaError::OversizedFieldBytes { field, len: bytes.len() as usize })
    } else {
        None
    }
}

/// The value that `bytes` decode to, where they decode.
pub open spec fn field_value(bytes: Seq<u8>) -> nat {
    decoded(bytes).unwrap()
}

/// The error of the first of the named byte strings that does not decode.
pub open spec fn first_field_error(fields: Seq<(Field, Seq<u8>)>) -> Option<SchemaError>
    decreases fields.len(),
{
    if fields.len() == 0 {
        None
    } else if first_field_error(fields.drop_last()) is Some {
        first_field_error(fields.drop_last())
    } else {
        field_error(fields.last().0, fields.last().1)
    }
}

/// The first error among three named byte strings.
pub proof fn lemma_first_field_error3(a: (Field, Seq<u8>), b: (Field, Seq<u8>), c: (Field, Seq<u8>))
    ensures
        first_field_error(seq![a, b, c]) == if field_error(a.0, a.1) is Some {
            field_error(a.0, a.1)
        } else if field_error(b.0, b.1) is Some {
            field_error(b.0, b.1)
        } else {
            field_error(c.0, c.1)
        },
{
    reveal_with_fuel(first_field_error, 4);
    let fields = seq![a, b, c];
    assert(fields.drop_last() =~= seq![a, b]);
    assert(fields.drop_last().drop_last() =~= seq![a]);
    assert(fields.drop_last().drop_last().drop_last() =~= Seq::<(Field, Seq<u8>)>::empty());
}

/// The first error among four named byte strings.
pub proof fn lemma_first_field_error4(
    a: (Field, Seq<u8>),
    b: (Field, Seq<u8>),
    c: (Field, Seq<u8>),
    d: (Field, Seq<u8>),
)
    ensures
        first_field_error(seq![a, b, c, d]) == if field_error(a.0, a.1) is Some {
            field_error(a.0, a.1)
        } else if field_error(b.0, b.1) is Some {
            field_error(b.0, b.1)
        } else if field_error(c.0, c.1) is Some {
            field_error(c.0, c.1)
        } else {
            field_error(d.0, d.1)
        },
{
    lemma_first_field_error3(a, b, c);
    let fields = seq![a, b, c, d];
    assert(fields.drop_last() =~= seq![a, b, c]);
}

/// Two byte strings of one length that denote the same number are the same string.
pub proof fn lemma_be_value_injective(a: Seq<u8>, b: Seq<u8>)
    requires
        a.len() == b.len(),
        be_value(a) == be_value(b),
    ensures
        a == b,
    decreases a.len(),
{
    if a.len() > 0 {
        lemma_be_value_injective(a.drop_last(), b.drop_last());
        assert(a =~= a.drop_last().push(a.last()));
        assert(b =~= b.drop_last().push(b.last()));
    } else {
        assert(a =~= b);
    }
}

/// A field element, held as its canonical 32-byte big-endian encoding.
#[derive(Clone, Copy, Debug, PartialEq, Eq)]
pub struct FieldElement {
    pub(crate) bytes: [u8; 32],
}

impl View for FieldElement {
    type V = nat;

    closed spec fn view(&self) -> nat {
        be_value(self.bytes@)
    }
}

impl FieldElement {
    /// Whether the stored bytes denote a number below the field order. Every
    /// element that executable code can hold is valid.
    #[verifier::type_invariant]
    pub closed spec fn valid(self) -> bool {
        be_value(self.bytes@) < modulus()
    }

    /// The canonical encoding of the element.
    pub closed spec fn encoding(self) -> Seq<u8> {
        self.bytes@
    }

    /// The element whose canonical encoding is `bytes`.
    pub(crate) fn from_canonical(bytes: [u8; 32]) -> (fe: FieldElement)
        requires
            be_value(bytes@) < modulus(),
        ensures
            fe@ == be_value(bytes@),
            fe.encoding() == bytes@,
            fe.valid(),
    {
        FieldElement { bytes }
    }

    /// The field element with the value of `n`.
    pub fn from_u64(n: u64) -> (fe: FieldElement)
        ensures
            fe@ == n,
            fe.valid(),
    {
        let bytes = encode_u64(n);
        FieldElement { bytes }
    }

    /// The canonical encoding, as an array.
    pub fn to_bytes(&self) -> (out: [u8; 32])
        ensures
            out@ == self.encoding(),
    {
        self.bytes
    }

    /// Whether two elements are the same element of the field.
    pub fn eq(&self, other: &FieldElement) -> (same: bool)
        ensures
            same == (self@ == other@),
    {
        let mut i: usize = 0;
        while i < 32
            invariant
                i <= 32,
                self.bytes@.subrange(0, i as int) == other.bytes@.subrange(0, i as int),
            decreases 32 - i,
        {
            if self.bytes[i] != other.bytes[i] {
                proof {
                    if self@ == other@ {
                        lemma_be_value_injective(self.bytes@, other.bytes@);
                    }
                }
                return false;
            }
            assert(self.bytes@.subrange(0, i + 1) =~= self.bytes@.subrange(0, i as int).push(
                self.bytes@[i as int],
            ));
            assert(other.bytes@.subrange(0, i + 1) =~= other.bytes@.subrange(0, i as int).push(
                other.bytes@[i as int],
            ));
            i = i + 1;
        }
        assert(self.bytes@ =~= self.bytes@.subrange(0, 32));
        assert(other.bytes@ =~= other.bytes@.subrange(0, 32));
        true
    }
}

/// Whether two arrays of thirty-two bytes hold the same bytes.
pub fn same_bytes(a: &[u8; 32], b: &[u8; 32]) -> (same: bool)
    ensures
        same == (a@ == b@),
{
    let mut i: usize = 0;
    while i < 32
        invariant
            i <= 32,
            forall|j: int| 0 <= j < i ==> a@[j] == b@[j],
        decreases 32 - i,
    {
        if a[i] != b[i] {
            return false;
        }
        i = i + 1;
    }
    assert(a@ =~= b@);
    true
}

/// Decodes a field element from between one and thirty-two big-endian bytes,
/// reducing modulo the field order. `field` names the bytes in the error.
pub fn fr_from_bytes(field: Field, bytes: &[u8]) -> (res: Result<FieldElement, SchemaError>)
    ensures
        bytes@.len() == 0 ==> res == Err::<FieldElement, SchemaError>(
            SchemaError::EmptyFieldBytes { field },
        ),
        bytes@.len() > FIELD_BYTES ==> res == Err::<FieldElement, SchemaError>(
            SchemaError::OversizedFieldBytes { field, len: bytes@.len() as usize },
        ),
        1 <= bytes@.len() <= FIELD_BYTES ==> (res matches Ok(fe) && fe.valid() && Some(fe@)
            == decoded(bytes@)),
{
    if bytes.len() == 0 {
        return Err(SchemaError::EmptyFieldBytes { field });
    }
    if bytes.len() > FIELD_BYTES {
        return Err(SchemaError::OversizedFieldBytes { field, len: bytes.len() });
    }
    let reduced = reduce_be_bytes(bytes);
    Ok(FieldElement { bytes: reduced })
}

/// Decodes a field element from exactly thirty-two big-endian bytes, reducing
/// modulo the field order. This never fails.
pub fn fr_from_fixed_bytes(field: Field, bytes: &[u8; 32]) -> (res: Result<
    FieldElement,
    SchemaError,
>)
    ensures
        res matches Ok(fe) && fe.valid() && Some(fe@) == decoded(bytes@),
{
    let reduced = reduce_be_bytes(bytes.as_slice());
    Ok(FieldElement { bytes: reduced })
}

/// The canonical encoding of a field element: thirty-two bytes, big-endian,
/// padded with zeros on the left.
pub fn fr_to_fixed_bytes(value: &FieldElement) -> (out: Vec<u8>)
    ensures
        out@ == value.encoding(),
{
    let mut out: Vec<u8> = Vec::with_capacity(FIELD_BYTES);
    let mut i: usize = 0;
    while i < FIELD_BYTES
        invariant
            i <= FIELD_BYTES,
            out@ == value.bytes@.subrange(0, i as int),
        decreases FIELD_BYTES - i,
    {
        out.push(value.bytes[i]);
        assert(out@ =~= value.bytes@.subrange(0, i + 1));
        i = i + 1;
    }
    assert(out@ =~= value.bytes@);
    out
}

/// `bytes` behind as many zero bytes as bring the length to thirty-two.
pub open spec fn left_padded(bytes: Seq<u8>) -> Seq<u8> {
    Seq::new((FIELD_BYTES - bytes.len()) as nat, |i: int| 0u8) + bytes
}

/// Zero bytes in front of a byte string do not change the number it denotes.
pub proof fn lemma_leading_zeros(zeros: nat, bytes: Seq<u8>)
    ensures
        be_value(Seq::new(zeros, |i: int| 0u8) + bytes) == be_value(bytes),
    decreases bytes.len(),
{
    let padded = Seq::new(zeros, |i: int| 0u8) + bytes;
    if bytes.len() == 0 {
        assert(padded =~= Seq::new(zeros, |i: int| 0u8));
        lemma_zeros_denote_zero(zeros);
    } else {
        assert(padded.drop_last() =~= Seq::new(zeros, |i: int| 0u8) + bytes.drop_last());
        lemma_leading_zeros(zeros, bytes.drop_last());
    }
}

/// A string of zero bytes denotes zero.
pub proof fn lemma_zeros_denote_zero(zeros: nat)
    ensures
        be_value(Seq::new(zeros, |i: int| 0u8)) == 0,
    decreases zeros,
{
    if zeros > 0 {
        assert(Seq::new(zeros, |i: int| 0u8).drop_last() =~= Seq::new(
            (zeros - 1) as nat,
            |i: int| 0u8,
        ));
        lemma_zeros_denote_zero((zeros - 1) as nat);
    }
}

/// The thirty-two bytes of an array as a byte string.
pub fn slice_to_vec32(bytes: &[u8; 32]) -> (out: Vec<u8>)
    ensures
        out@ == bytes@,
{
    let mut out: Vec<u8> = Vec::with_capacity(FIELD_BYTES);
    let mut i: usize = 0;
    while i < FIELD_BYTES
        invariant
            i <= FIELD_BYTES,
            out@ == bytes@.subrange(0, i as int),
        decreases FIELD_BYTES - i,
    {
        out.push(bytes[i]);
        assert(out@ =~= bytes@.subrange(0, i + 1));
        i = i + 1;
    }
    assert(out@ =~= bytes@);
    out
}

/// Pads between one and thirty-two bytes with zeros on the left to
/// thirty-two. `field` names the bytes in the error.
pub fn fixed_bytes32(field: Field, data: &[u8]) -> (res: Result<[u8; 32], SchemaError>)
    ensures
        match res {
            Ok(fixed) => field_error(field, data@) is None && fixed@ == left_padded(data@)
                && field_value(fixed@) == field_value(data@),
            Err(e) => field_error(field, data@) == Some(e),
        },
{
    if data.len() == 0 {
        return Err(SchemaError::EmptyFieldBytes { field });
    }
    if data.len() > FIELD_BYTES {
        return Err(SchemaError::OversizedFieldBytes { field, len: data.len() });
    }
    let mut fixed = [0u8; 32];
    let offset = FIELD_BYTES - data.len();
    let mut i: usize = 0;
    while i < data.len()
        invariant
            i <= data@.len(),
            1 <= data@.len() <= FIELD_BYTES,
            offset == FIELD_BYTES - data@.len(),
            forall|j: int| 0 <= j < offset ==> fixed@[j] == 0u8,
            forall|j: int| 0 <= j < i ==> fixed@[offset + j] == data@[j],
        decreases data@.len() - i,
    {
        fixed[offset + i] = data[i];
        i = i + 1;
    }
    proof {
        assert(fixed@ =~= left_padded(data@));
        lemma_leading_zeros((FIELD_BYTES - data@.len()) as nat, data@);
    }
    Ok(fixed)
}

/// The encoding of a valid element has thirty-two bytes and denotes the element.
pub proof fn lemma_encoding(v: FieldElement)
    ensures
        v.encoding().len() == FIELD_BYTES,
        be_value(v.encoding()) == v@,
        v.valid() <==> v@ < modulus(),
{
}

/// Two elements with one value are one element.
pub proof fn lemma_value_determines_element(a: FieldElement, b: FieldElement)
    requires
        a@ == b@,
    ensures
        a == b,
{
    lemma_be_value_injective(a.bytes@, b.bytes@);
    assert(a.bytes =~= b.bytes);
}

/// Decoding the encoding of a field element gives the element back.
pub proof fn lemma_decode_encode(v: FieldElement)
    requires
        v.valid(),
    ensures
        decoded(v.encoding()) == Some(v@),
{
    vstd::arithmetic::div_mod::lemma_small_mod(v@, modulus());
}

/// Calls `Fr::from_be_bytes_mod_order` of ark-ff on `bytes` and hands back the
/// canonical big-endian bytes of the element (`into_bigint`, `to_bytes_be`).
/// Trusted: the result is the big-endian value of `bytes` reduced modulo the
/// field order, written on 32 bytes.
#[verifier::external_body]
fn reduce_be_bytes(bytes: &[u8]) -> (out: [u8; 32])
    requires
        1 <= bytes@.len() <= 32,
    ensures
        be_value(out@) == be_value(bytes@) % modulus(),
{
    let element = Fr::from_be_bytes_mod_order(bytes);
    let mut out = [0u8; 32];
    out.copy_from_slice(&element.into_bigint().to_bytes_be());
    out
}

/// Calls `Fr::from(u64)` of ark-ff and hands back the canonical big-endian
/// bytes of the element. Trusted: they denote `n`.
#[verifier::external_body]
fn encode_u64(n: u64) -> (out: [u8; 32])
    ensures
        be_value(out@) == n,
{
    let mut out = [0u8; 32];
    out.copy_from_slice(&Fr::from(n).into_bigint().to_bytes_be());
    out
}

} // verus!
