//! The binary encoding of the records: fixed-width integers little-endian,
//! a bit as one byte, thirty-two-byte fields as they are, and every list
//! behind its length as a little-endian 64-bit count.

use crate::membership::schema::MerklePathNodeBytes;
use vstd::bytes::{
    lemma_auto_spec_u16_to_from_le_bytes, lemma_auto_spec_u32_to_from_le_bytes,
    lemma_auto_spec_u64_to_from_le_bytes, spec_u16_from_le_bytes, spec_u16_to_le_bytes,
    spec_u32_from_le_bytes, spec_u32_to_le_bytes, spec_u64_from_le_bytes, spec_u64_to_le_bytes,
};
use vstd::prelude::*;

verus! {

/// Why bytes are not the encoding of a record.
#[derive(Clone, Copy, Debug, PartialEq, Eq, Structural)]
pub enum WireError {
    /// The bytes end before the record does.
    UnexpectedEnd,
    /// A byte that should be a bit is neither 0 nor 1.
    InvalidBool { value: u8 },
    /// The length of a list does not fit the machine's addresses.
    LengthOverflow,
}

/// The kinds of fields that records are made of.
pub enum Kind {
    U8,
    U16,
    U32,
    /// Thirty-two bytes.
    Fixed32,
    /// A byte string.
    Bytes,
    /// A list of byte strings.
    ByteLists,
    /// A list of bits.
    Bits,
    /// A list of pairs of a byte string and a bit.
    Nodes,
}

/// A field of a record.
pub enum Item {
    U8(u8),
    U16(u16),
    U32(u32),
    Fixed32(Seq<u8>),
    Bytes(Seq<u8>),
    ByteLists(Seq<Seq<u8>>),
    Bits(Seq<bool>),
    Nodes(Seq<(Seq<u8>, bool)>),
}

/// The kind of a field.
pub open spec fn kind_of(item: Item) -> Kind {
    match item {
        Item::U8(_) => Kind::U8,
        Item::U16(_) => Kind::U16,
        Item::U32(_) => Kind::U32,
        Item::Fixed32(_) => Kind::Fixed32,
        Item::Bytes(_) => Kind::Bytes,
        Item::ByteLists(_) => Kind::ByteLists,
        Item::Bits(_) => Kind::Bits,
        Item::Nodes(_) => Kind::Nodes,
    }
}

/// Whether a field can be encoded: a fixed field has thirty-two bytes, and
/// the length of every list fits the machine's addresses.
pub open spec fn encodable(item: Item) -> bool {
    match item {
        Item::U8(_) | Item::U16(_) | Item::U32(_) => true,
        Item::Fixed32(bytes) => bytes.len() == 32,
        Item::Bytes(bytes) => bytes.len() <= usize::MAX,
        Item::ByteLists(list) => list.len() <= usize::MAX && forall|i: int|
            0 <= i < list.len() ==> (#[trigger] list[i]).len() <= usize::MAX,
        Item::Bits(list) => list.len() <= usize::MAX,
        Item::Nodes(list) => list.len() <= usize::MAX && forall|i: int|
            0 <= i < list.len() ==> (#[trigger] list[i]).0.len() <= usize::MAX,
    }
}

/// The encoding of a length.
pub open spec fn encode_len(len: nat) -> Seq<u8> {
    spec_u64_to_le_bytes(len as u64)
}

/// The encoding of a bit.
pub open spec fn encode_bit(bit: bool) -> Seq<u8> {
    seq![if bit { 1u8 } else { 0u8 }]
}

/// The encoding of a byte string: its length, then its bytes.
pub open spec fn encode_bytes(bytes: Seq<u8>) -> Seq<u8> {
    encode_len(bytes.len()) + bytes
}

/// The encodings of a list of byte strings, one after the other.
pub open spec fn encode_each_string(list: Seq<Seq<u8>>) -> Seq<u8>
    decreases list.len(),
{
    if list.len() == 0 {
        Seq::empty()
    } else {
        encode_each_string(list.drop_last()) + encode_bytes(list.last())
    }
}

/// The encodings of a list of bits, one after the other.
pub open spec fn encode_each_bit(list: Seq<bool>) -> Seq<u8>
    decreases list.len(),
{
    if list.len() == 0 {
        Seq::empty()
    } else {
        encode_each_bit(list.drop_last()) + encode_bit(list.last())
    }
}

/// The encodings of a list of pairs of a byte string and a bit, one after
/// the other.
pub open spec fn encode_each_node(list: Seq<(Seq<u8>, bool)>) -> Seq<u8>
    decreases list.len(),
{
    if list.len() == 0 {
        Seq::empty()
    } else {
        encode_each_node(list.drop_last()) + encode_bytes(list.last().0) + encode_bit(
            list.last().1,
        )
    }
}

/// The encoding of a field.
pub open spec fn encode_item(item: Item) -> Seq<u8> {
    match item {
        Item::U8(v) => seq![v],
        Item::U16(v) => spec_u16_to_le_bytes(v),
        Item::U32(v) => spec_u32_to_le_bytes(v),
        Item::Fixed32(bytes) => bytes,
        Item::Bytes(bytes) => encode_bytes(bytes),
        Item::ByteLists(list) => encode_len(list.len()) + encode_each_string(list),
        Item::Bits(list) => encode_len(list.len()) + encode_each_bit(list),
        Item::Nodes(list) => encode_len(list.len()) + encode_each_node(list),
    }
}

/// The encoding of a record: the encodings of its fields, one after the other.
pub open spec fn encode_items(items: Seq<Item>) -> Seq<u8>
    decreases items.len(),
{
    if items.len() == 0 {
        Seq::empty()
    } else {
        encode_items(items.drop_last()) + encode_item(items.last())
    }
}

/// A length at the head of `bytes`, with the number of bytes it takes.
pub open spec fn parse_len(bytes: Seq<u8>) -> Result<(nat, nat), WireError> {
    if bytes.len() < 8 {
        Err(WireError::UnexpectedEnd)
    } else if spec_u64_from_le_bytes(bytes.subrange(0, 8)) > usize::MAX {
        Err(WireError::LengthOverflow)
    } else {
        Ok((spec_u64_from_le_bytes(bytes.subrange(0, 8)) as nat, 8))
    }
}

/// A bit at the head of `bytes`, with the number of bytes it takes.
pub open spec fn parse_bit(bytes: Seq<u8>) -> Result<(bool, nat), WireError> {
    if bytes.len() < 1 {
        Err(WireError::UnexpectedEnd)
    } else if bytes[0] == 0 {
        Ok((false, 1))
    } else if bytes[0] == 1 {
        Ok((true, 1))
    } else {
        Err(WireError::InvalidBool { value: bytes[0] })
    }
}

/// As many bytes as `count` says at the head of `bytes`.
pub open spec fn parse_fixed(bytes: Seq<u8>, count: nat) -> Result<(Seq<u8>, nat), WireError> {
    if bytes.len() < count {
        Err(WireError::UnexpectedEnd)
    } else {
        Ok((bytes.subrange(0, count as int), count))
    }
}

/// A byte string at the head of `bytes`, with the number of bytes it takes.
pub open spec fn parse_bytes(bytes: Seq<u8>) -> Result<(Seq<u8>, nat), WireError> {
    match parse_len(bytes) {
        Err(e) => Err(e),
        Ok((len, _)) => match parse_fixed(bytes.skip(8), len) {
            Err(e) => Err(e),
            Ok((string, _)) => Ok((string, 8 + len)),
        },
    }
}

/// The first `count` byte strings at the head of `bytes`, with the number of
/// bytes they take.
pub open spec fn parse_each_string(bytes: Seq<u8>, count: nat) -> Result<
    (Seq<Seq<u8>>, nat),
    WireError,
>
    decreases count,
{
    if count == 0 {
        Ok((Seq::empty(), 0))
    } else {
        match parse_each_string(bytes, (count - 1) as nat) {
            Err(e) => Err(e),
            Ok((list, taken)) => match parse_bytes(bytes.skip(taken as int)) {
                Err(e) => Err(e),
                Ok((string, more)) => Ok((list.push(string), taken + more)),
            },
        }
    }
}

/// The first `count` bits at the head of `bytes`, with the number of bytes
/// they take.
pub open spec fn parse_each_bit(bytes: Seq<u8>, count: nat) -> Result<(Seq<bool>, nat), WireError>
    decreases count,
{
    if count == 0 {
        Ok((Seq::empty(), 0))
    } else {
        match parse_each_bit(bytes, (count - 1) as nat) {
            Err(e) => Err(e),
            Ok((list, taken)) => match parse_bit(bytes.skip(taken as int)) {
                Err(e) => Err(e),
                Ok((bit, more)) => Ok((list.push(bit), taken + more)),
            },
        }
    }
}

/// The first `count` pairs of a byte string and a bit at the head of
/// `bytes`, with the number of bytes they take.
pub open spec fn parse_each_node(bytes: Seq<u8>, count: nat) -> Result<
    (Seq<(Seq<u8>, bool)>, nat),
    WireError,
>
    decreases count,
{
    if count == 0 {
        Ok((Seq::empty(), 0))
    } else {
        match parse_each_node(bytes, (count - 1) as nat) {
            Err(e) => Err(e),
            Ok((list, taken)) => match parse_bytes(bytes.skip(taken as int)) {
                Err(e) => Err(e),
                Ok((string, more)) => match parse_bit(bytes.skip((taken + more) as int)) {
                    Err(e) => Err(e),
                    Ok((bit, last)) => Ok((list.push((string, bit)), taken + more + last)),
                },
            },
        }
    }
}

/// A field of the given kind at the head of `bytes`, with the number of
/// bytes it takes.
pub open spec fn parse_item(kind: Kind, bytes: Seq<u8>) -> Result<(Item, nat), WireError> {
    match kind {
        Kind::U8 => match parse_fixed(bytes, 1) {
            Err(e) => Err(e),
            Ok((b, n)) => Ok((Item::U8(b[0]), n)),
        },
        Kind::U16 => match parse_fixed(bytes, 2) {
            Err(e) => Err(e),
            Ok((b, n)) => Ok((Item::U16(spec_u16_from_le_bytes(b)), n)),
        },
        Kind::U32 => match parse_fixed(bytes, 4) {
            Err(e) => Err(e),
            Ok((b, n)) => Ok((Item::U32(spec_u32_from_le_bytes(b)), n)),
        },
        Kind::Fixed32 => match parse_fixed(bytes, 32) {
            Err(e) => Err(e),
            Ok((b, n)) => Ok((Item::Fixed32(b), n)),
        },
        Kind::Bytes => match parse_bytes(bytes) {
            Err(e) => Err(e),
            Ok((b, n)) => Ok((Item::Bytes(b), n)),
        },
        Kind::ByteLists => match parse_len(bytes) {
            Err(e) => Err(e),
            Ok((count, _)) => match parse_each_string(bytes.skip(8), count) {
                Err(e) => Err(e),
                Ok((list, n)) => Ok((Item::ByteLists(list), 8 + n)),
            },
        },
        Kind::Bits => match parse_len(bytes) {
            Err(e) => Err(e),
            Ok((count, _)) => match parse_each_bit(bytes.skip(8), count) {
                Err(e) => Err(e),
                Ok((list, n)) => Ok((Item::Bits(list), 8 + n)),
            },
        },
        Kind::Nodes => match parse_len(bytes) {
            Err(e) => Err(e),
            Ok((count, _)) => match parse_each_node(bytes.skip(8), count) {
                Err(e) => Err(e),
                Ok((list, n)) => Ok((Item::Nodes(list), 8 + n)),
            },
        },
    }
}

/// The fields of a record of the given layout at the head of `bytes`, with
/// the number of bytes they take; what follows them is not looked at.
pub open spec fn parse_items(layout: Seq<Kind>, bytes: Seq<u8>) -> Result<
    (Seq<Item>, nat),
    WireError,
>
    decreases layout.len(),
{
    if layout.len() == 0 {
        Ok((Seq::empty(), 0))
    } else {
        match parse_items(layout.drop_last(), bytes) {
            Err(e) => Err(e),
            Ok((items, taken)) => match parse_item(layout.last(), bytes.skip(taken as int)) {
                Err(e) => Err(e),
                Ok((item, more)) => Ok((items.push(item), taken + more)),
            },
        }
    }
}

/// Whether `bytes` begin with the encoding of the given fields in the given
/// layout.
pub open spec fn decodes_to(bytes: Seq<u8>, layout: Seq<Kind>, items: Seq<Item>) -> bool {
    parse_items(layout, bytes) is Ok && parse_items(layout, bytes).unwrap().0 == items
}

/// The layout of a list of fields.
pub open spec fn layout_of(items: Seq<Item>) -> Seq<Kind> {
    Seq::new(items.len(), |i: int| kind_of(items[i]))
}

/// Whether every field of a list can be encoded.
pub open spec fn all_encodable(items: Seq<Item>) -> bool {
    forall|i: int| 0 <= i < items.len() ==> encodable(#[trigger] items[i])
}

/// A length that fits the machine's addresses is read back from its
/// encoding, whatever follows.
pub proof fn lemma_parse_encoded_len(len: nat, rest: Seq<u8>)
    requires
        len <= usize::MAX,
    ensures
        encode_len(len).len() == 8,
        parse_len(encode_len(len) + rest) == Ok::<(nat, nat), WireError>((len, 8)),
{
    lemma_auto_spec_u64_to_from_le_bytes();
    assert((encode_len(len) + rest).subrange(0, 8) =~= encode_len(len));
}

/// A length that was read is encoded by the eight bytes it was read from.
pub proof fn lemma_encode_parsed_len(bytes: Seq<u8>)
    requires
        parse_len(bytes) is Ok,
    ensures
        bytes.len() >= 8,
        parse_len(bytes).unwrap().1 == 8,
        parse_len(bytes).unwrap().0 <= usize::MAX,
        encode_len(parse_len(bytes).unwrap().0) == bytes.subrange(0, 8),
{
    lemma_auto_spec_u64_to_from_le_bytes();
}

/// A byte string is read back from its encoding, whatever follows.
pub proof fn lemma_parse_encoded_bytes(string: Seq<u8>, rest: Seq<u8>)
    requires
        string.len() <= usize::MAX,
    ensures
        parse_bytes(encode_bytes(string) + rest) == Ok::<(Seq<u8>, nat), WireError>(
            (string, encode_bytes(string).len()),
        ),
        encode_bytes(string).len() == 8 + string.len(),
{
    lemma_parse_encoded_len(string.len(), string + rest);
    assert(encode_bytes(string) + rest =~= encode_len(string.len()) + (string + rest));
    assert((encode_bytes(string) + rest).skip(8) =~= string + rest);
    assert((string + rest).subrange(0, string.len() as int) =~= string);
}

/// A byte string that was read is encoded by the bytes it was read from.
pub proof fn lemma_encode_parsed_bytes(bytes: Seq<u8>)
    requires
        parse_bytes(bytes) is Ok,
    ensures
        parse_bytes(bytes).unwrap().1 <= bytes.len(),
        parse_bytes(bytes).unwrap().0.len() <= usize::MAX,
        encode_bytes(parse_bytes(bytes).unwrap().0) == bytes.subrange(
            0,
            parse_bytes(bytes).unwrap().1 as int,
        ),
{
    lemma_encode_parsed_len(bytes);
    let (string, taken) = parse_bytes(bytes).unwrap();
    assert(encode_bytes(string) =~= bytes.subrange(0, taken as int));
}

/// A bit is read back from its encoding, whatever follows, and a bit that
/// was read is encoded by the byte it was read from.
pub proof fn lemma_bit_round_trip(bit: bool, bytes: Seq<u8>)
    ensures
        parse_bit(encode_bit(bit) + bytes) == Ok::<(bool, nat), WireError>((bit, 1)),
        parse_bit(bytes) is Ok ==> bytes.len() >= 1 && parse_bit(bytes).unwrap().1 == 1
            && encode_bit(parse_bit(bytes).unwrap().0) == bytes.subrange(0, 1),
{
    if parse_bit(bytes) is Ok {
        assert(encode_bit(parse_bit(bytes).unwrap().0) =~= bytes.subrange(0, 1));
    }
}

/// A list of byte strings is read back from its encodings, whatever follows.
pub proof fn lemma_parse_encoded_strings(list: Seq<Seq<u8>>, rest: Seq<u8>)
    requires
        forall|i: int| 0 <= i < list.len() ==> (#[trigger] list[i]).len() <= usize::MAX,
    ensures
        parse_each_string(encode_each_string(list) + rest, list.len()) == Ok::<
            (Seq<Seq<u8>>, nat),
            WireError,
        >((list, encode_each_string(list).len())),
    decreases list.len(),
{
    if list.len() > 0 {
        let front = list.drop_last();
        let tail = encode_bytes(list.last()) + rest;
        assert(encode_each_string(list) + rest =~= encode_each_string(front) + tail);
        lemma_parse_encoded_strings(front, tail);
        assert((encode_each_string(front) + tail).skip(encode_each_string(front).len() as int)
            =~= tail);
        lemma_parse_encoded_bytes(list.last(), rest);
        assert(front.push(list.last()) =~= list);
        assert(front.len() == (list.len() - 1) as nat);
    } else {
        assert(list =~= Seq::<Seq<u8>>::empty());
    }
}

/// The byte strings that were read are encoded by the bytes they were read
/// from.
pub proof fn lemma_encode_parsed_strings(bytes: Seq<u8>, count: nat)
    requires
        parse_each_string(bytes, count) is Ok,
    ensures
        parse_each_string(bytes, count).unwrap().0.len() == count,
        parse_each_string(bytes, count).unwrap().1 <= bytes.len(),
        forall|i: int|
            0 <= i < count ==> (#[trigger] parse_each_string(bytes, count).unwrap().0[i]).len()
                <= usize::MAX,
        encode_each_string(parse_each_string(bytes, count).unwrap().0) == bytes.subrange(
            0,
            parse_each_string(bytes, count).unwrap().1 as int,
        ),
    decreases count,
{
    if count > 0 {
        lemma_encode_parsed_strings(bytes, (count - 1) as nat);
        let (front, taken) = parse_each_string(bytes, (count - 1) as nat).unwrap();
        lemma_encode_parsed_bytes(bytes.skip(taken as int));
        let (string, more) = parse_bytes(bytes.skip(taken as int)).unwrap();
        let list = front.push(string);
        assert(list.drop_last() =~= front);
        assert(bytes.subrange(0, (taken + more) as int) =~= bytes.subrange(0, taken as int) + bytes.skip(
            taken as int,
        ).subrange(0, more as int));
    } else {
        assert(bytes.subrange(0, 0) =~= Seq::<u8>::empty());
    }
}

/// A list of bits is read back from its encodings, whatever follows.
pub proof fn lemma_parse_encoded_bits(list: Seq<bool>, rest: Seq<u8>)
    ensures
        parse_each_bit(encode_each_bit(list) + rest, list.len()) == Ok::<
            (Seq<bool>, nat),
            WireError,
        >((list, encode_each_bit(list).len())),
        encode_each_bit(list).len() == list.len(),
    decreases list.len(),
{
    if list.len() > 0 {
        let front = list.drop_last();
        let tail = encode_bit(list.last()) + rest;
        assert(encode_each_bit(list) + rest =~= encode_each_bit(front) + tail);
        lemma_parse_encoded_bits(front, tail);
        assert((encode_each_bit(front) + tail).skip(encode_each_bit(front).len() as int) =~= tail);
        lemma_bit_round_trip(list.last(), rest);
        assert(front.push(list.last()) =~= list);
        assert(front.len() == (list.len() - 1) as nat);
    } else {
        assert(list =~= Seq::<bool>::empty());
    }
}

/// The bits that were read are encoded by the bytes they were read from.
pub proof fn lemma_encode_parsed_bits(bytes: Seq<u8>, count: nat)
    requires
        parse_each_bit(bytes, count) is Ok,
    ensures
        parse_each_bit(bytes, count).unwrap().0.len() == count,
        parse_each_bit(bytes, count).unwrap().1 == count,
        count <= bytes.len(),
        encode_each_bit(parse_each_bit(bytes, count).unwrap().0) == bytes.subrange(
            0,
            count as int,
        ),
    decreases count,
{
    if count > 0 {
        lemma_encode_parsed_bits(bytes, (count - 1) as nat);
        let (front, taken) = parse_each_bit(bytes, (count - 1) as nat).unwrap();
        lemma_bit_round_trip(false, bytes.skip(taken as int));
        let (bit, more) = parse_bit(bytes.skip(taken as int)).unwrap();
        let list = front.push(bit);
        assert(list.drop_last() =~= front);
        assert(bytes.subrange(0, (taken + more) as int) =~= bytes.subrange(0, taken as int) + bytes.skip(
            taken as int,
        ).subrange(0, more as int));
    } else {
        assert(bytes.subrange(0, 0) =~= Seq::<u8>::empty());
    }
}

/// A list of pairs of a byte string and a bit is read back from its
/// encodings, whatever follows.
pub proof fn lemma_parse_encoded_nodes(list: Seq<(Seq<u8>, bool)>, rest: Seq<u8>)
    requires
        forall|i: int| 0 <= i < list.len() ==> (#[trigger] list[i]).0.len() <= usize::MAX,
    ensures
        parse_each_node(encode_each_node(list) + rest, list.len()) == Ok::<
            (Seq<(Seq<u8>, bool)>, nat),
            WireError,
        >((list, encode_each_node(list).len())),
    decreases list.len(),
{
    if list.len() > 0 {
        let front = list.drop_last();
        let after_string = encode_bit(list.last().1) + rest;
        let tail = encode_bytes(list.last().0) + after_string;
        assert(encode_each_node(list) + rest =~= encode_each_node(front) + tail);
        lemma_parse_encoded_nodes(front, tail);
        let taken = encode_each_node(front).len();
        assert((encode_each_node(front) + tail).skip(taken as int) =~= tail);
        lemma_parse_encoded_bytes(list.last().0, after_string);
        let more = encode_bytes(list.last().0).len();
        assert((encode_each_node(front) + tail).skip((taken + more) as int) =~= after_string);
        lemma_bit_round_trip(list.last().1, rest);
        assert(front.push(list.last()) =~= list);
        assert(front.len() == (list.len() - 1) as nat);
    } else {
        assert(list =~= Seq::<(Seq<u8>, bool)>::empty());
    }
}

/// The pairs that were read are encoded by the bytes they were read from.
pub proof fn lemma_encode_parsed_nodes(bytes: Seq<u8>, count: nat)
    requires
        parse_each_node(bytes, count) is Ok,
    ensures
        parse_each_node(bytes, count).unwrap().0.len() == count,
        parse_each_node(bytes, count).unwrap().1 <= bytes.len(),
        forall|i: int|
            0 <= i < count ==> (#[trigger] parse_each_node(bytes, count).unwrap().0[i]).0.len()
                <= usize::MAX,
        encode_each_node(parse_each_node(bytes, count).unwrap().0) == bytes.subrange(
            0,
            parse_each_node(bytes, count).unwrap().1 as int,
        ),
    decreases count,
{
    if count > 0 {
        lemma_encode_parsed_nodes(bytes, (count - 1) as nat);
        let (front, taken) = parse_each_node(bytes, (count - 1) as nat).unwrap();
        lemma_encode_parsed_bytes(bytes.skip(taken as int));
        let (string, more) = parse_bytes(bytes.skip(taken as int)).unwrap();
        lemma_bit_round_trip(false, bytes.skip((taken + more) as int));
        let (bit, last) = parse_bit(bytes.skip((taken + more) as int)).unwrap();
        let list = front.push((string, bit));
        assert(list.drop_last() =~= front);
        assert(bytes.subrange(0, (taken + more + last) as int) =~= bytes.subrange(0, taken as int)
            + bytes.skip(taken as int).subrange(0, more as int) + bytes.skip(
            (taken + more) as int,
        ).subrange(0, 1));
    } else {
        assert(bytes.subrange(0, 0) =~= Seq::<u8>::empty());
    }
}

/// A field that can be encoded is read back from its encoding, whatever
/// follows.
pub proof fn lemma_parse_encoded_item(item: Item, rest: Seq<u8>)
    requires
        encodable(item),
    ensures
        parse_item(kind_of(item), encode_item(item) + rest) == Ok::<(Item, nat), WireError>(
            (item, encode_item(item).len()),
        ),
{
    lemma_auto_spec_u16_to_from_le_bytes();
    lemma_auto_spec_u32_to_from_le_bytes();
    let bytes = encode_item(item) + rest;
    match item {
        Item::U8(v) => {
            assert(bytes.subrange(0, 1) =~= seq![v]);
        },
        Item::U16(v) => {
            assert(bytes.subrange(0, 2) =~= spec_u16_to_le_bytes(v));
        },
        Item::U32(v) => {
            assert(bytes.subrange(0, 4) =~= spec_u32_to_le_bytes(v));
        },
        Item::Fixed32(b) => {
            assert(bytes.subrange(0, 32) =~= b);
        },
        Item::Bytes(b) => {
            lemma_parse_encoded_bytes(b, rest);
        },
        Item::ByteLists(list) => {
            lemma_parse_encoded_len(list.len(), encode_each_string(list) + rest);
            assert(bytes =~= encode_len(list.len()) + (encode_each_string(list) + rest));
            assert(bytes.skip(8) =~= encode_each_string(list) + rest);
            lemma_parse_encoded_strings(list, rest);
        },
        Item::Bits(list) => {
            lemma_parse_encoded_len(list.len(), encode_each_bit(list) + rest);
            assert(bytes =~= encode_len(list.len()) + (encode_each_bit(list) + rest));
            assert(bytes.skip(8) =~= encode_each_bit(list) + rest);
            lemma_parse_encoded_bits(list, rest);
        },
        Item::Nodes(list) => {
            lemma_parse_encoded_len(list.len(), encode_each_node(list) + rest);
            assert(bytes =~= encode_len(list.len()) + (encode_each_node(list) + rest));
            assert(bytes.skip(8) =~= encode_each_node(list) + rest);
            lemma_parse_encoded_nodes(list, rest);
        },
    }
}

/// A field that was read is of the kind asked for, can be encoded, and is
/// encoded by the bytes it was read from.
pub proof fn lemma_encode_parsed_item(kind: Kind, bytes: Seq<u8>)
    requires
        parse_item(kind, bytes) is Ok,
    ensures
        kind_of(parse_item(kind, bytes).unwrap().0) == kind,
        encodable(parse_item(kind, bytes).unwrap().0),
        parse_item(kind, bytes).unwrap().1 <= bytes.len(),
        encode_item(parse_item(kind, bytes).unwrap().0) == bytes.subrange(
            0,
            parse_item(kind, bytes).unwrap().1 as int,
        ),
{
    lemma_auto_spec_u16_to_from_le_bytes();
    lemma_auto_spec_u32_to_from_le_bytes();
    let (item, taken) = parse_item(kind, bytes).unwrap();
    match kind {
        Kind::U8 => {
            assert(encode_item(item) =~= bytes.subrange(0, 1));
        },
        Kind::U16 | Kind::U32 | Kind::Fixed32 => {},
        Kind::Bytes => {
            lemma_encode_parsed_bytes(bytes);
        },
        Kind::ByteLists => {
            lemma_encode_parsed_len(bytes);
            let count = parse_len(bytes).unwrap().0;
            lemma_encode_parsed_strings(bytes.skip(8), count);
            assert(bytes.subrange(0, taken as int) =~= bytes.subrange(0, 8) + bytes.skip(
                8,
            ).subrange(0, taken - 8));
        },
        Kind::Bits => {
            lemma_encode_parsed_len(bytes);
            let count = parse_len(bytes).unwrap().0;
            lemma_encode_parsed_bits(bytes.skip(8), count);
            assert(bytes.subrange(0, taken as int) =~= bytes.subrange(0, 8) + bytes.skip(
                8,
            ).subrange(0, taken - 8));
        },
        Kind::Nodes => {
            lemma_encode_parsed_len(bytes);
            let count = parse_len(bytes).unwrap().0;
            lemma_encode_parsed_nodes(bytes.skip(8), count);
            assert(bytes.subrange(0, taken as int) =~= bytes.subrange(0, 8) + bytes.skip(
                8,
            ).subrange(0, taken - 8));
        },
    }
}

/// Fields that can be encoded are read back from the encoding of their
/// record, whatever follows it.
pub proof fn lemma_parse_encoded(items: Seq<Item>, rest: Seq<u8>)
    requires
        all_encodable(items),
    ensures
        parse_items(layout_of(items), encode_items(items) + rest) == Ok::<
            (Seq<Item>, nat),
            WireError,
        >((items, encode_items(items).len())),
    decreases items.len(),
{
    if items.len() > 0 {
        let front = items.drop_last();
        let tail = encode_item(items.last()) + rest;
        assert(encode_items(items) + rest =~= encode_items(front) + tail);
        assert(layout_of(items).drop_last() =~= layout_of(front));
        lemma_parse_encoded(front, tail);
        assert((encode_items(front) + tail).skip(encode_items(front).len() as int) =~= tail);
        lemma_parse_encoded_item(items.last(), rest);
        assert(front.push(items.last()) =~= items);
        assert(layout_of(items).last() == kind_of(items.last()));
    } else {
        assert(items =~= Seq::<Item>::empty());
    }
}

/// The fields that were read have the layout asked for, can be encoded, and
/// are encoded by the bytes they were read from.
pub proof fn lemma_encode_parsed(layout: Seq<Kind>, bytes: Seq<u8>)
    requires
        parse_items(layout, bytes) is Ok,
    ensures
        layout_of(parse_items(layout, bytes).unwrap().0) == layout,
        all_encodable(parse_items(layout, bytes).unwrap().0),
        parse_items(layout, bytes).unwrap().1 <= bytes.len(),
        encode_items(parse_items(layout, bytes).unwrap().0) == bytes.subrange(
            0,
            parse_items(layout, bytes).unwrap().1 as int,
        ),
    decreases layout.len(),
{
    if layout.len() > 0 {
        lemma_encode_parsed(layout.drop_last(), bytes);
        let (front, taken) = parse_items(layout.drop_last(), bytes).unwrap();
        lemma_encode_parsed_item(layout.last(), bytes.skip(taken as int));
        let (item, more) = parse_item(layout.last(), bytes.skip(taken as int)).unwrap();
        let items = front.push(item);
        assert(items.drop_last() =~= front);
        assert forall|i: int| 0 <= i < layout.len() implies layout_of(items)[i] == layout[i] by {
            if i < layout.len() - 1 {
                assert(layout_of(front)[i] == layout.drop_last()[i]);
            }
        }
        assert(layout_of(items) =~= layout);
        assert(bytes.subrange(0, (taken + more) as int) =~= bytes.subrange(0, taken as int) + bytes.skip(
            taken as int,
        ).subrange(0, more as int));
    } else {
        assert(bytes.subrange(0, 0) =~= Seq::<u8>::empty());
        assert(layout_of(Seq::<Item>::empty()) =~= layout);
    }
}

/// Encoding what was decoded gives the bytes back, where the record takes
/// all of them.
pub proof fn lemma_reencode(layout: Seq<Kind>, bytes: Seq<u8>)
    requires
        parse_items(layout, bytes) is Ok,
        parse_items(layout, bytes).unwrap().1 == bytes.len(),
    ensures
        encode_items(parse_items(layout, bytes).unwrap().0) == bytes,
{
    lemma_encode_parsed(layout, bytes);
    assert(bytes.subrange(0, bytes.len() as int) =~= bytes);
}

/// The byte strings of a list.
pub open spec fn strings(list: Seq<Vec<u8>>) -> Seq<Seq<u8>> {
    Seq::new(list.len(), |i: int| list[i]@)
}

/// The pairs of a list of path nodes.
pub open spec fn node_pairs(list: Seq<MerklePathNodeBytes>) -> Seq<(Seq<u8>, bool)> {
    Seq::new(list.len(), |i: int| (list[i].sibling@, list[i].is_left))
}

/// The parsing of a layout with one more kind.
pub proof fn lemma_parse_push(layout: Seq<Kind>, kind: Kind, bytes: Seq<u8>)
    ensures
        parse_items(layout.push(kind), bytes) == match parse_items(layout, bytes) {
            Err(e) => Err(e),
            Ok((items, taken)) => match parse_item(kind, bytes.skip(taken as int)) {
                Err(e) => Err(e),
                Ok((item, more)) => Ok((items.push(item), taken + more)),
            },
        },
{
    assert(layout.push(kind).drop_last() =~= layout);
}

/// The encoding of a record with one more field.
pub proof fn lemma_encode_push(items: Seq<Item>, item: Item)
    ensures
        encode_items(items.push(item)) == encode_items(items) + encode_item(item),
{
    assert(items.push(item).drop_last() =~= items);
}

/// Writes the encoding of a record, field by field.
pub struct Writer {
    out: Vec<u8>,
    items: Ghost<Seq<Item>>,
}

impl Writer {
    /// The fields written so far.
    pub closed spec fn items(&self) -> Seq<Item> {
        self.items@
    }

    /// Whether the bytes are the encoding of the fields.
    pub closed spec fn wf(&self) -> bool {
        self.out@ == encode_items(self.items@)
    }

    /// A writer that has written nothing.
    pub fn new() -> (writer: Writer)
        ensures
            writer.wf(),
            writer.items() == Seq::<Item>::empty(),
    {
        Writer { out: Vec::new(), items: Ghost(Seq::empty()) }
    }

    /// The bytes written.
    pub fn finish(self) -> (out: Vec<u8>)
        requires
            self.wf(),
        ensures
            out@ == encode_items(self.items()),
    {
        self.out
    }

    /// Writes a length.
    fn len(&mut self, len: usize)
        ensures
            final(self).out@ == old(self).out@ + encode_len(len as nat),
            final(self).items == old(self).items,
    {
        let mut bytes = vstd::bytes::u64_to_le_bytes(len as u64);
        self.out.append(&mut bytes);
    }

    /// Writes the bytes of a slice as they are.
    fn raw(&mut self, bytes: &[u8])
        ensures
            final(self).out@ == old(self).out@ + bytes@,
            final(self).items == old(self).items,
    {
        let mut i: usize = 0;
        while i < bytes.len()
            invariant
                i <= bytes@.len(),
                self.out@ == old(self).out@ + bytes@.subrange(0, i as int),
                self.items == old(self).items,
            decreases bytes@.len() - i,
        {
            self.out.push(bytes[i]);
            assert(self.out@ =~= old(self).out@ + bytes@.subrange(0, i + 1));
            i = i + 1;
        }
        assert(bytes@.subrange(0, i as int) =~= bytes@);
    }

    /// Writes a bit.
    fn bit(&mut self, bit: bool)
        ensures
            final(self).out@ == old(self).out@ + encode_bit(bit),
            final(self).items == old(self).items,
    {
        self.out.push(if bit { 1u8 } else { 0u8 });
        assert(self.out@ =~= old(self).out@ + encode_bit(bit));
    }

    /// Writes a byte string behind its length.
    fn string(&mut self, bytes: &[u8])
        ensures
            final(self).out@ == old(self).out@ + encode_bytes(bytes@),
            final(self).items == old(self).items,
    {
        self.len(bytes.len());
        self.raw(bytes);
        assert(self.out@ =~= old(self).out@ + encode_bytes(bytes@));
    }

    /// Writes a one-byte field.
    pub fn u8(&mut self, value: u8)
        requires
            old(self).wf(),
        ensures
            final(self).wf(),
            final(self).items() == old(self).items().push(Item::U8(value)),
    {
        self.out.push(value);
        proof {
            lemma_encode_push(self.items@, Item::U8(value));
            assert(self.out@ =~= old(self).out@ + seq![value]);
            self.items@ = self.items@.push(Item::U8(value));
        }
    }

    /// Writes a two-byte field.
    pub fn u16(&mut self, value: u16)
        requires
            old(self).wf(),
        ensures
            final(self).wf(),
            final(self).items() == old(self).items().push(Item::U16(value)),
    {
        let mut bytes = vstd::bytes::u16_to_le_bytes(value);
        self.out.append(&mut bytes);
        proof {
            lemma_encode_push(self.items@, Item::U16(value));
            self.items@ = self.items@.push(Item::U16(value));
        }
    }

    /// Writes a four-byte field.
    pub fn u32(&mut self, value: u32)
        requires
            old(self).wf(),
        ensures
            final(self).wf(),
            final(self).items() == old(self).items().push(Item::U32(value)),
    {
        let mut bytes = vstd::bytes::u32_to_le_bytes(value);
        self.out.append(&mut bytes);
        proof {
            lemma_encode_push(self.items@, Item::U32(value));
            self.items@ = self.items@.push(Item::U32(value));
        }
    }

    /// Writes a field of thirty-two bytes.
    pub fn fixed32(&mut self, value: &[u8; 32])
        requires
            old(self).wf(),
        ensures
            final(self).wf(),
            final(self).items() == old(self).items().push(Item::Fixed32(value@)),
    {
        self.raw(value.as_slice());
        proof {
            lemma_encode_push(self.items@, Item::Fixed32(value@));
            self.items@ = self.items@.push(Item::Fixed32(value@));
        }
    }

    /// Writes a byte string.
    pub fn bytes_field(&mut self, value: &Vec<u8>)
        requires
            old(self).wf(),
        ensures
            final(self).wf(),
            final(self).items() == old(self).items().push(Item::Bytes(value@)),
    {
        self.string(value.as_slice());
        proof {
            lemma_encode_push(self.items@, Item::Bytes(value@));
            self.items@ = self.items@.push(Item::Bytes(value@));
        }
    }

    /// Writes a list of byte strings.
    pub fn byte_lists(&mut self, value: &Vec<Vec<u8>>)
        requires
            old(self).wf(),
        ensures
            final(self).wf(),
            final(self).items() == old(self).items().push(Item::ByteLists(strings(value@))),
    {
        self.len(value.len());
        let ghost start = self.out@;
        let mut i: usize = 0;
        while i < value.len()
            invariant
                i <= value@.len(),
                self.out@ == start + encode_each_string(strings(value@).subrange(0, i as int)),
                self.items == old(self).items,
            decreases value@.len() - i,
        {
            proof {
                let upto = strings(value@).subrange(0, i + 1);
                assert(upto.drop_last() =~= strings(value@).subrange(0, i as int));
                assert(upto.last() == value@[i as int]@);
            }
            self.string(value[i].as_slice());
            assert(self.out@ =~= start + encode_each_string(
                strings(value@).subrange(0, i + 1),
            ));
            i = i + 1;
        }
        proof {
            assert(strings(value@).subrange(0, i as int) =~= strings(value@));
            let item = Item::ByteLists(strings(value@));
            lemma_encode_push(self.items@, item);
            assert(self.out@ =~= old(self).out@ + encode_item(item));
            self.items@ = self.items@.push(item);
        }
    }

    /// Writes a list of bits.
    pub fn bits(&mut self, value: &Vec<bool>)
        requires
            old(self).wf(),
        ensures
            final(self).wf(),
            final(self).items() == old(self).items().push(Item::Bits(value@)),
    {
        self.len(value.len());
        let ghost start = self.out@;
        let mut i: usize = 0;
        while i < value.len()
            invariant
                i <= value@.len(),
                self.out@ == start + encode_each_bit(value@.subrange(0, i as int)),
                self.items == old(self).items,
            decreases value@.len() - i,
        {
            proof {
                let upto = value@.subrange(0, i + 1);
                assert(upto.drop_last() =~= value@.subrange(0, i as int));
                assert(upto.last() == value@[i as int]);
            }
            self.bit(value[i]);
            assert(self.out@ =~= start + encode_each_bit(value@.subrange(0, i + 1)));
            i = i + 1;
        }
        proof {
            assert(value@.subrange(0, i as int) =~= value@);
            let item = Item::Bits(value@);
            lemma_encode_push(self.items@, item);
            assert(self.out@ =~= old(self).out@ + encode_item(item));
            self.items@ = self.items@.push(item);
        }
    }

    /// Writes a list of path nodes: pairs of a byte string and a bit.
    pub fn nodes(&mut self, value: &Vec<MerklePathNodeBytes>)
        requires
            old(self).wf(),
        ensures
            final(self).wf(),
            final(self).items() == old(self).items().push(Item::Nodes(node_pairs(value@))),
    {
        self.len(value.len());
        let ghost start = self.out@;
        let ghost pairs = node_pairs(value@);
        let mut i: usize = 0;
        while i < value.len()
            invariant
                i <= value@.len(),
                pairs == node_pairs(value@),
                self.out@ == start + encode_each_node(pairs.subrange(0, i as int)),
                self.items == old(self).items,
            decreases value@.len() - i,
        {
            proof {
                let upto = pairs.subrange(0, i + 1);
                assert(upto.drop_last() =~= pairs.subrange(0, i as int));
                assert(upto.last() == (value@[i as int].sibling@, value@[i as int].is_left));
            }
            self.string(value[i].sibling.as_slice());
            self.bit(value[i].is_left);
            assert(self.out@ =~= start + encode_each_node(pairs.subrange(0, i + 1)));
            i = i + 1;
        }
        proof {
            assert(pairs.subrange(0, i as int) =~= pairs);
            let item = Item::Nodes(pairs);
            lemma_encode_push(self.items@, item);
            assert(self.out@ =~= old(self).out@ + encode_item(item));
            self.items@ = self.items@.push(item);
        }
    }
}

/// Where the first byte strings cannot be read, no longer list can.
pub proof fn lemma_strings_stay_unreadable(bytes: Seq<u8>, short: nat, count: nat)
    requires
        short <= count,
        parse_each_string(bytes, short) is Err,
    ensures
        parse_each_string(bytes, count) == parse_each_string(bytes, short),
    decreases count,
{
    if short < count {
        lemma_strings_stay_unreadable(bytes, short, (count - 1) as nat);
    }
}

/// Where the first bits cannot be read, no longer list can.
pub proof fn lemma_bits_stay_unreadable(bytes: Seq<u8>, short: nat, count: nat)
    requires
        short <= count,
        parse_each_bit(bytes, short) is Err,
    ensures
        parse_each_bit(bytes, count) == parse_each_bit(bytes, short),
    decreases count,
{
    if short < count {
        lemma_bits_stay_unreadable(bytes, short, (count - 1) as nat);
    }
}

/// Where the first path nodes cannot be read, no longer list can.
pub proof fn lemma_nodes_stay_unreadable(bytes: Seq<u8>, short: nat, count: nat)
    requires
        short <= count,
        parse_each_node(bytes, short) is Err,
    ensures
        parse_each_node(bytes, count) == parse_each_node(bytes, short),
    decreases count,
{
    if short < count {
        lemma_nodes_stay_unreadable(bytes, short, (count - 1) as nat);
    }
}

/// Reads the fields of a record from the head of a byte string, one after
/// the other. After the first field that cannot be read, every further field
/// comes out empty and the reader keeps the error.
pub struct Reader<'a> {
    source: &'a [u8],
    position: usize,
    failure: Option<WireError>,
    layout: Ghost<Seq<Kind>>,
    items: Ghost<Seq<Item>>,
}

impl<'a> Reader<'a> {
    /// The bytes that are read from.
    pub closed spec fn source(&self) -> Seq<u8> {
        self.source@
    }

    /// The kinds of the fields asked for so far.
    pub closed spec fn layout(&self) -> Seq<Kind> {
        self.layout@
    }

    /// The fields read so far, where none failed.
    pub closed spec fn items(&self) -> Seq<Item> {
        self.items@
    }

    /// Whether some field could not be read.
    pub closed spec fn failed(&self) -> bool {
        self.failure is Some
    }

    /// Whether the reader stands where parsing the layout so far ends.
    pub closed spec fn wf(&self) -> bool {
        &&& self.position <= self.source@.len()
        &&& match self.failure {
            Some(e) => parse_items(self.layout@, self.source@) == Err::<(Seq<Item>, nat), WireError>(
                e,
            ),
            None => parse_items(self.layout@, self.source@) == Ok::<(Seq<Item>, nat), WireError>(
                (self.items@, self.position as nat),
            ),
        }
    }

    /// A reader at the head of `source`.
    pub fn new(source: &'a [u8]) -> (reader: Reader<'a>)
        ensures
            reader.wf(),
            !reader.failed(),
            reader.source() == source@,
            reader.layout() == Seq::<Kind>::empty(),
            reader.items() == Seq::<Item>::empty(),
    {
        Reader {
            source,
            position: 0,
            failure: None,
            layout: Ghost(Seq::empty()),
            items: Ghost(Seq::empty()),
        }
    }

    /// Whether every field was read, and the first error where not.
    pub fn finish(self) -> (res: Result<(), WireError>)
        requires
            self.wf(),
        ensures
            match res {
                Ok(_) => !self.failed() && parse_items(self.layout(), self.source()) is Ok
                    && parse_items(self.layout(), self.source()).unwrap().0 == self.items(),
                Err(e) => parse_items(self.layout(), self.source()) == Err::<
                    (Seq<Item>, nat),
                    WireError,
                >(e),
            },
    {
        match self.failure {
            Some(e) => Err(e),
            None => Ok(()),
        }
    }

    /// What is left of the source.
    spec fn rest(&self) -> Seq<u8> {
        self.source@.skip(self.position as int)
    }

    /// Takes `count` bytes as they are.
    fn take(&mut self, count: usize) -> (res: Result<&'a [u8], WireError>)
        requires
            old(self).position <= old(self).source@.len(),
        ensures
            final(self).source == old(self).source,
            final(self).failure == old(self).failure,
            final(self).layout == old(self).layout,
            final(self).items == old(self).items,
            final(self).position <= final(self).source@.len(),
            match res {
                Ok(bytes) => parse_fixed(old(self).rest(), count as nat) == Ok::<
                    (Seq<u8>, nat),
                    WireError,
                >((bytes@, count as nat)) && final(self).position == old(self).position + count,
                Err(e) => parse_fixed(old(self).rest(), count as nat) == Err::<
                    (Seq<u8>, nat),
                    WireError,
                >(e) && final(self).position == old(self).position,
            },
    {
        if self.source.len() - self.position < count {
            return Err(WireError::UnexpectedEnd);
        }
        let bytes = vstd::slice::slice_subrange(self.source, self.position, self.position + count);
        assert(bytes@ =~= self.rest().subrange(0, count as int));
        self.position = self.position + count;
        Ok(bytes)
    }

    /// Reads a length.
    fn len(&mut self) -> (res: Result<usize, WireError>)
        requires
            old(self).position <= old(self).source@.len(),
        ensures
            final(self).source == old(self).source,
            final(self).failure == old(self).failure,
            final(self).layout == old(self).layout,
            final(self).items == old(self).items,
            final(self).position <= final(self).source@.len(),
            match res {
                Ok(len) => parse_len(old(self).rest()) == Ok::<(nat, nat), WireError>(
                    (len as nat, 8),
                ) && final(self).position == old(self).position + 8,
                Err(e) => parse_len(old(self).rest()) == Err::<(nat, nat), WireError>(e),
            },
    {
        let bytes = match self.take(8) {
            Ok(bytes) => bytes,
            Err(e) => {
                return Err(e);
            },
        };
        let len = vstd::bytes::u64_from_le_bytes(bytes);
        if len > usize::MAX as u64 {
            return Err(WireError::LengthOverflow);
        }
        Ok(len as usize)
    }

    /// Reads a bit.
    fn bit(&mut self) -> (res: Result<bool, WireError>)
        requires
            old(self).position <= old(self).source@.len(),
        ensures
            final(self).source == old(self).source,
            final(self).failure == old(self).failure,
            final(self).layout == old(self).layout,
            final(self).items == old(self).items,
            final(self).position <= final(self).source@.len(),
            match res {
                Ok(bit) => parse_bit(old(self).rest()) == Ok::<(bool, nat), WireError>((bit, 1))
                    && final(self).position == old(self).position + 1,
                Err(e) => parse_bit(old(self).rest()) == Err::<(bool, nat), WireError>(e),
            },
    {
        let bytes = match self.take(1) {
            Ok(bytes) => bytes,
            Err(e) => {
                return Err(e);
            },
        };
        let byte = bytes[0];
        if byte == 0 {
            Ok(false)
        } else if byte == 1 {
            Ok(true)
        } else {
            Err(WireError::InvalidBool { value: byte })
        }
    }

    /// Reads a byte string behind its length.
    fn string(&mut self) -> (res: Result<Vec<u8>, WireError>)
        requires
            old(self).position <= old(self).source@.len(),
        ensures
            final(self).source == old(self).source,
            final(self).failure == old(self).failure,
            final(self).layout == old(self).layout,
            final(self).items == old(self).items,
            final(self).position <= final(self).source@.len(),
            match res {
                Ok(bytes) => parse_bytes(old(self).rest()) == Ok::<(Seq<u8>, nat), WireError>(
                    (bytes@, (final(self).position - old(self).position) as nat),
                ) && final(self).position >= old(self).position,
                Err(e) => parse_bytes(old(self).rest()) == Err::<(Seq<u8>, nat), WireError>(e),
            },
    {
        let len = match self.len() {
            Ok(len) => len,
            Err(e) => {
                return Err(e);
            },
        };
        assert(self.rest() =~= old(self).rest().skip(8));
        let bytes = match self.take(len) {
            Ok(bytes) => bytes,
            Err(e) => {
                return Err(e);
            },
        };
        Ok(vstd::slice::slice_to_vec(bytes))
    }

    /// Notes that a field of the given kind was asked for and could not be read.
    fn fail(&mut self, kind: Kind, error: WireError)
        requires
            old(self).position <= old(self).source@.len(),
            old(self).failure is None,
            parse_items(old(self).layout@.push(kind), old(self).source@) == Err::<
                (Seq<Item>, nat),
                WireError,
            >(error),
        ensures
            final(self).wf(),
            final(self).failed(),
            final(self).source() == old(self).source(),
            final(self).layout() == old(self).layout().push(kind),
    {
        self.failure = Some(error);
        proof {
            self.layout@ = self.layout@.push(kind);
        }
    }

    /// Notes that a field of the given kind was asked for after an earlier
    /// one could not be read.
    fn skip(&mut self, kind: Kind)
        requires
            old(self).wf(),
            old(self).failed(),
        ensures
            final(self).wf(),
            final(self).failed(),
            final(self).source() == old(self).source(),
            final(self).layout() == old(self).layout().push(kind),
    {
        proof {
            lemma_parse_push(self.layout@, kind, self.source@);
            self.layout@ = self.layout@.push(kind);
        }
    }

    /// Reads a one-byte field.
    pub fn u8(&mut self) -> (value: u8)
        requires
            old(self).wf(),
        ensures
            final(self).wf(),
            final(self).source() == old(self).source(),
            final(self).layout() == old(self).layout().push(Kind::U8),
            old(self).failed() ==> final(self).failed(),
            !final(self).failed() ==> final(self).items() == old(self).items().push(
                Item::U8(value),
            ),
    {
        if self.failure.is_some() {
            self.skip(Kind::U8);
            return 0;
        }
        proof {
            lemma_parse_push(self.layout@, Kind::U8, self.source@);
        }
        match self.take(1) {
            Ok(bytes) => {
                let value = bytes[0];
                proof {
                    self.layout@ = self.layout@.push(Kind::U8);
                    self.items@ = self.items@.push(Item::U8(value));
                }
                value
            },
            Err(e) => {
                self.fail(Kind::U8, e);
                0
            },
        }
    }

    /// Reads a two-byte field.
    pub fn u16(&mut self) -> (value: u16)
        requires
            old(self).wf(),
        ensures
            final(self).wf(),
            final(self).source() == old(self).source(),
            final(self).layout() == old(self).layout().push(Kind::U16),
            old(self).failed() ==> final(self).failed(),
            !final(self).failed() ==> final(self).items() == old(self).items().push(
                Item::U16(value),
            ),
    {
        if self.failure.is_some() {
            self.skip(Kind::U16);
            return 0;
        }
        proof {
            lemma_parse_push(self.layout@, Kind::U16, self.source@);
        }
        match self.take(2) {
            Ok(bytes) => {
                let value = vstd::bytes::u16_from_le_bytes(bytes);
                proof {
                    self.layout@ = self.layout@.push(Kind::U16);
                    self.items@ = self.items@.push(Item::U16(value));
                }
                value
            },
            Err(e) => {
                self.fail(Kind::U16, e);
                0
            },
        }
    }

    /// Reads a four-byte field.
    pub fn u32(&mut self) -> (value: u32)
        requires
            old(self).wf(),
        ensures
            final(self).wf(),
            final(self).source() == old(self).source(),
            final(self).layout() == old(self).layout().push(Kind::U32),
            old(self).failed() ==> final(self).failed(),
            !final(self).failed() ==> final(self).items() == old(self).items().push(
                Item::U32(value),
            ),
    {
        if self.failure.is_some() {
            self.skip(Kind::U32);
            return 0;
        }
        proof {
            lemma_parse_push(self.layout@, Kind::U32, self.source@);
        }
        match self.take(4) {
            Ok(bytes) => {
                let value = vstd::bytes::u32_from_le_bytes(bytes);
                proof {
                    self.layout@ = self.layout@.push(Kind::U32);
                    self.items@ = self.items@.push(Item::U32(value));
                }
                value
            },
            Err(e) => {
                self.fail(Kind::U32, e);
                0
            },
        }
    }

    /// Reads a field of thirty-two bytes.
    pub fn fixed32(&mut self) -> (value: [u8; 32])
        requires
            old(self).wf(),
        ensures
            final(self).wf(),
            final(self).source() == old(self).source(),
            final(self).layout() == old(self).layout().push(Kind::Fixed32),
            old(self).failed() ==> final(self).failed(),
            !final(self).failed() ==> final(self).items() == old(self).items().push(
                Item::Fixed32(value@),
            ),
    {
        let mut value = [0u8; 32];
        if self.failure.is_some() {
            self.skip(Kind::Fixed32);
            return value;
        }
        proof {
            lemma_parse_push(self.layout@, Kind::Fixed32, self.source@);
        }
        match self.take(32) {
            Ok(bytes) => {
                let mut i: usize = 0;
                while i < 32
                    invariant
                        i <= 32,
                        bytes@.len() == 32,
                        forall|j: int| 0 <= j < i ==> value@[j] == bytes@[j],
                    decreases 32 - i,
                {
                    value[i] = bytes[i];
                    i = i + 1;
                }
                assert(value@ =~= bytes@);
                proof {
                    self.layout@ = self.layout@.push(Kind::Fixed32);
                    self.items@ = self.items@.push(Item::Fixed32(value@));
                }
                value
            },
            Err(e) => {
                self.fail(Kind::Fixed32, e);
                value
            },
        }
    }

    /// Reads a byte string.
    pub fn bytes_field(&mut self) -> (value: Vec<u8>)
        requires
            old(self).wf(),
        ensures
            final(self).wf(),
            final(self).source() == old(self).source(),
            final(self).layout() == old(self).layout().push(Kind::Bytes),
            old(self).failed() ==> final(self).failed(),
            !final(self).failed() ==> final(self).items() == old(self).items().push(
                Item::Bytes(value@),
            ),
    {
        if self.failure.is_some() {
            self.skip(Kind::Bytes);
            return Vec::new();
        }
        proof {
            lemma_parse_push(self.layout@, Kind::Bytes, self.source@);
        }
        match self.string() {
            Ok(value) => {
                proof {
                    self.layout@ = self.layout@.push(Kind::Bytes);
                    self.items@ = self.items@.push(Item::Bytes(value@));
                }
                value
            },
            Err(e) => {
                self.fail(Kind::Bytes, e);
                Vec::new()
            },
        }
    }

    /// Reads a list of byte strings.
    pub fn byte_lists(&mut self) -> (value: Vec<Vec<u8>>)
        requires
            old(self).wf(),
        ensures
            final(self).wf(),
            final(self).source() == old(self).source(),
            final(self).layout() == old(self).layout().push(Kind::ByteLists),
            old(self).failed() ==> final(self).failed(),
            !final(self).failed() ==> final(self).items() == old(self).items().push(
                Item::ByteLists(strings(value@)),
            ),
    {
        let mut value: Vec<Vec<u8>> = Vec::new();
        if self.failure.is_some() {
            self.skip(Kind::ByteLists);
            return value;
        }
        proof {
            lemma_parse_push(self.layout@, Kind::ByteLists, self.source@);
        }
        let ghost head = self.rest();
        let count = match self.len() {
            Ok(count) => count,
            Err(e) => {
                self.fail(Kind::ByteLists, e);
                return value;
            },
        };
        let ghost body = head.skip(8);
        let ghost base = self.position;
        assert(self.rest() =~= body);
        assert(strings(value@) =~= Seq::<Seq<u8>>::empty());
        let mut i: usize = 0;
        while i < count
            invariant
                i <= count,
                old(self).wf(),
                old(self).failure is None,
                self.source == old(self).source,
                self.failure is None,
                self.layout == old(self).layout,
                self.items == old(self).items,
                base <= self.position <= self.source@.len(),
                base == old(self).position + 8,
                body == old(self).rest().skip(8),
                parse_len(old(self).rest()) == Ok::<(nat, nat), WireError>((count as nat, 8)),
                parse_items(old(self).layout@.push(Kind::ByteLists), old(self).source@)
                    == match parse_item(Kind::ByteLists, old(self).rest()) {
                    Err(e) => Err(e),
                    Ok((item, more)) => Ok(
                        (old(self).items@.push(item), old(self).position as nat + more),
                    ),
                },
                parse_each_string(body, i as nat) == Ok::<(Seq<Seq<u8>>, nat), WireError>(
                    (strings(value@), (self.position - base) as nat),
                ),
            decreases count - i,
        {
            assert(self.rest() =~= body.skip(self.position - base));
            let ghost before = strings(value@);
            match self.string() {
                Ok(string) => {
                    value.push(string);
                    assert(strings(value@) =~= before.push(string@));
                },
                Err(e) => {
                    proof {
                        lemma_strings_stay_unreadable(body, (i + 1) as nat, count as nat);
                    }
                    self.fail(Kind::ByteLists, e);
                    return Vec::new();
                },
            }
            i = i + 1;
        }
        proof {
            self.layout@ = self.layout@.push(Kind::ByteLists);
            self.items@ = self.items@.push(Item::ByteLists(strings(value@)));
        }
        value
    }

    /// Reads a list of bits.
    pub fn bits(&mut self) -> (value: Vec<bool>)
        requires
            old(self).wf(),
        ensures
            final(self).wf(),
            final(self).source() == old(self).source(),
            final(self).layout() == old(self).layout().push(Kind::Bits),
            old(self).failed() ==> final(self).failed(),
            !final(self).failed() ==> final(self).items() == old(self).items().push(
                Item::Bits(value@),
            ),
    {
        let mut value: Vec<bool> = Vec::new();
        if self.failure.is_some() {
            self.skip(Kind::Bits);
            return value;
        }
        proof {
            lemma_parse_push(self.layout@, Kind::Bits, self.source@);
        }
        let ghost head = self.rest();
        let count = match self.len() {
            Ok(count) => count,
            Err(e) => {
                self.fail(Kind::Bits, e);
                return value;
            },
        };
        let ghost body = head.skip(8);
        let ghost base = self.position;
        assert(self.rest() =~= body);
        assert(value@ =~= Seq::<bool>::empty());
        let mut i: usize = 0;
        while i < count
            invariant
                i <= count,
                old(self).wf(),
                old(self).failure is None,
                self.source == old(self).source,
                self.failure is None,
                self.layout == old(self).layout,
                self.items == old(self).items,
                base <= self.position <= self.source@.len(),
                base == old(self).position + 8,
                body == old(self).rest().skip(8),
                parse_len(old(self).rest()) == Ok::<(nat, nat), WireError>((count as nat, 8)),
                parse_items(old(self).layout@.push(Kind::Bits), old(self).source@)
                    == match parse_item(Kind::Bits, old(self).rest()) {
                    Err(e) => Err(e),
                    Ok((item, more)) => Ok(
                        (old(self).items@.push(item), old(self).position as nat + more),
                    ),
                },
                parse_each_bit(body, i as nat) == Ok::<(Seq<bool>, nat), WireError>(
                    (value@, (self.position - base) as nat),
                ),
            decreases count - i,
        {
            assert(self.rest() =~= body.skip(self.position - base));
            match self.bit() {
                Ok(bit) => {
                    value.push(bit);
                },
                Err(e) => {
                    proof {
                        lemma_bits_stay_unreadable(body, (i + 1) as nat, count as nat);
                    }
                    self.fail(Kind::Bits, e);
                    return Vec::new();
                },
            }
            i = i + 1;
        }
        proof {
            self.layout@ = self.layout@.push(Kind::Bits);
            self.items@ = self.items@.push(Item::Bits(value@));
        }
        value
    }

    /// Reads a list of path nodes: pairs of a byte string and a bit.
    pub fn nodes(&mut self) -> (value: Vec<MerklePathNodeBytes>)
        requires
            old(self).wf(),
        ensures
            final(self).wf(),
            final(self).source() == old(self).source(),
            final(self).layout() == old(self).layout().push(Kind::Nodes),
            old(self).failed() ==> final(self).failed(),
            !final(self).failed() ==> final(self).items() == old(self).items().push(
                Item::Nodes(node_pairs(value@)),
            ),
    {
        let mut value: Vec<MerklePathNodeBytes> = Vec::new();
        if self.failure.is_some() {
            self.skip(Kind::Nodes);
            return value;
        }
        proof {
            lemma_parse_push(self.layout@, Kind::Nodes, self.source@);
        }
        let ghost head = self.rest();
        let count = match self.len() {
            Ok(count) => count,
            Err(e) => {
                self.fail(Kind::Nodes, e);
                return value;
            },
        };
        let ghost body = head.skip(8);
        let ghost base = self.position;
        assert(self.rest() =~= body);
        assert(node_pairs(value@) =~= Seq::<(Seq<u8>, bool)>::empty());
        let mut i: usize = 0;
        while i < count
            invariant
                i <= count,
                old(self).wf(),
                old(self).failure is None,
                self.source == old(self).source,
                self.failure is None,
                self.layout == old(self).layout,
                self.items == old(self).items,
                base <= self.position <= self.source@.len(),
                base == old(self).position + 8,
                body == old(self).rest().skip(8),
                parse_len(old(self).rest()) == Ok::<(nat, nat), WireError>((count as nat, 8)),
                parse_items(old(self).layout@.push(Kind::Nodes), old(self).source@)
                    == match parse_item(Kind::Nodes, old(self).rest()) {
                    Err(e) => Err(e),
                    Ok((item, more)) => Ok(
                        (old(self).items@.push(item), old(self).position as nat + more),
                    ),
                },
                parse_each_node(body, i as nat) == Ok::<(Seq<(Seq<u8>, bool)>, nat), WireError>(
                    (node_pairs(value@), (self.position - base) as nat),
                ),
            decreases count - i,
        {
            assert(self.rest() =~= body.skip(self.position - base));
            let ghost before = node_pairs(value@);
            let ghost taken = self.position - base;
            let sibling = match self.string() {
                Ok(sibling) => sibling,
                Err(e) => {
                    proof {
                        lemma_nodes_stay_unreadable(body, (i + 1) as nat, count as nat);
                    }
                    self.fail(Kind::Nodes, e);
                    return Vec::new();
                },
            };
            assert(self.rest() =~= body.skip(self.position - base));
            let is_left = match self.bit() {
                Ok(is_left) => is_left,
                Err(e) => {
                    proof {
                        lemma_nodes_stay_unreadable(body, (i + 1) as nat, count as nat);
                    }
                    self.fail(Kind::Nodes, e);
                    return Vec::new();
                },
            };
            value.push(MerklePathNodeBytes { sibling, is_left });
            assert(node_pairs(value@) =~= before.push((sibling@, is_left)));
            i = i + 1;
        }
        proof {
            self.layout@ = self.layout@.push(Kind::Nodes);
            self.items@ = self.items@.push(Item::Nodes(node_pairs(value@)));
        }
        value
    }
}

} // verus!
