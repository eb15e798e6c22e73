//! The binary encoding of the membership records.

use crate::membership::schema::{
    MembershipInstanceBytes, MembershipInstanceV1Bytes, MembershipInstanceV2Bytes,
    MembershipPublicInputsBytes, MembershipPublicInputsV1Bytes, MembershipPublicInputsV2Bytes,
    MembershipWitnessBytes, MembershipWitnessV1Bytes, MembershipWitnessV2Bytes,
};
use crate::wire::{
    all_encodable, decodes_to, encode_items, layout_of, lemma_parse_encoded, node_pairs,
    parse_items, strings, Item, Kind, Reader, WireError, Writer,
};
use vstd::prelude::*;

verus! {

impl MembershipWitnessBytes {
    /// The fields of the witness of a record without a version, in the order
    /// of their encoding.
    pub open spec fn items(self) -> Seq<Item> {
        Seq::<Item>::empty()
            .push(Item::Bytes(self.identity_scalar@))
            .push(Item::Bytes(self.blinding@))
            .push(Item::Nodes(node_pairs(self.merkle_path@)))
    }

    /// The kinds of the fields of the witness of a record without a version.
    pub open spec fn layout() -> Seq<Kind> {
        Seq::<Kind>::empty()
            .push(Kind::Bytes)
            .push(Kind::Bytes)
            .push(Kind::Nodes)
    }

    /// Writes the witness of a record without a version behind what was
    /// written.
    pub fn write(&self, writer: &mut Writer)
        requires
            old(writer).wf(),
        ensures
            final(writer).wf(),
            final(writer).items() == old(writer).items() + self.items(),
    {
        writer.bytes_field(&self.identity_scalar);
        writer.bytes_field(&self.blinding);
        writer.nodes(&self.merkle_path);
        assert(writer.items() =~= old(writer).items() + self.items());
    }

    /// Reads the witness of a record without a version where the reader
    /// stands.
    pub fn read(reader: &mut Reader) -> (record: MembershipWitnessBytes)
        requires
            old(reader).wf(),
        ensures
            final(reader).wf(),
            final(reader).source() == old(reader).source(),
            final(reader).layout() == old(reader).layout() + MembershipWitnessBytes::layout(),
            old(reader).failed() ==> final(reader).failed(),
            !final(reader).failed() ==> final(reader).items() == old(reader).items()
                + record.items(),
    {
        let identity_scalar = reader.bytes_field();
        let blinding = reader.bytes_field();
        let merkle_path = reader.nodes();
        let record = MembershipWitnessBytes {
            identity_scalar,
            blinding,
            merkle_path,
        };
        assert(reader.layout() =~= old(reader).layout() + MembershipWitnessBytes::layout());
        assert(!reader.failed() ==> reader.items() =~= old(reader).items()
            + record.items());
        record
    }

    /// The encoding of the witness of a record without a version, from which
    /// decoding gives the fields back.
    pub fn serialize(&self) -> (out: Vec<u8>)
        ensures
            out@ == encode_items(self.items()),
            decodes_to(out@, MembershipWitnessBytes::layout(), self.items()),
    {
        let mut writer = Writer::new();
        self.write(&mut writer);
        proof {
            assert(writer.items() =~= self.items());
            self.lemma_decode_encode(Seq::empty());
            assert(encode_items(self.items()) + Seq::<u8>::empty() =~= encode_items(
                self.items(),
            ));
        }
        writer.finish()
    }

    /// Decodes the witness of a record without a version from the head of
    /// `bytes`; what follows it is not looked at.
    pub fn deserialize(bytes: &[u8]) -> (res: Result<MembershipWitnessBytes, WireError>)
        ensures
            match res {
                Ok(record) => decodes_to(bytes@, MembershipWitnessBytes::layout(), record.items()),
                Err(e) => parse_items(MembershipWitnessBytes::layout(), bytes@) == Err::<
                    (Seq<Item>, nat),
                    WireError,
                >(e),
            },
    {
        let mut reader = Reader::new(bytes);
        let record = MembershipWitnessBytes::read(&mut reader);
        assert(reader.layout() =~= MembershipWitnessBytes::layout());
        match reader.finish() {
            Ok(_) => {
                assert(reader.items() =~= record.items());
                Ok(record)
            },
            Err(e) => Err(e),
        }
    }

    /// The fields of the witness of a record without a version have its layout
    /// and can be encoded.
    pub proof fn lemma_items(self)
        ensures
            layout_of(self.items()) == MembershipWitnessBytes::layout(),
            all_encodable(self.items()),
    {
        assert(self.identity_scalar@.len() == self.identity_scalar.len());
        assert(self.blinding@.len() == self.blinding.len());
        assert(self.merkle_path@.len() == self.merkle_path.len());
        assert forall|i: int| 0 <= i < self.merkle_path@.len() implies (#[trigger] node_pairs(
            self.merkle_path@,
        )[i]).0.len() <= usize::MAX by {
            assert(self.merkle_path@[i].sibling@.len() == self.merkle_path@[i].sibling.len());
        }
        assert(layout_of(self.items()) =~= MembershipWitnessBytes::layout());
    }

    /// Decoding the encoding of the witness of a record without a version,
    /// whatever follows it, gives the fields back.
    pub proof fn lemma_decode_encode(self, rest: Seq<u8>)
        ensures
            decodes_to(
                encode_items(self.items()) + rest,
                MembershipWitnessBytes::layout(),
                self.items(),
            ),
    {
        self.lemma_items();
        lemma_parse_encoded(self.items(), rest);
    }
}

impl MembershipPublicInputsBytes {
    /// The fields of the public inputs of a record without a version, in the
    /// order of their encoding.
    pub open spec fn items(self) -> Seq<Item> {
        Seq::<Item>::empty()
            .push(Item::Bytes(self.root@))
            .push(Item::Bytes(self.commitment@))
    }

    /// The kinds of the fields of the public inputs of a record without a
    /// version.
    pub open spec fn layout() -> Seq<Kind> {
        Seq::<Kind>::empty()
            .push(Kind::Bytes)
            .push(Kind::Bytes)
    }

    /// Writes the public inputs of a record without a version behind what was
    /// written.
    pub fn write(&self, writer: &mut Writer)
        requires
            old(writer).wf(),
        ensures
            final(writer).wf(),
            final(writer).items() == old(writer).items() + self.items(),
    {
        writer.bytes_field(&self.root);
        writer.bytes_field(&self.commitment);
        assert(writer.items() =~= old(writer).items() + self.items());
    }

    /// Reads the public inputs of a record without a version where the reader
    /// stands.
    pub fn read(reader: &mut Reader) -> (record: MembershipPublicInputsBytes)
        requires
            old(reader).wf(),
        ensures
            final(reader).wf(),
            final(reader).source() == old(reader).source(),
            final(reader).layout() == old(reader).layout() + MembershipPublicInputsBytes::layout(),
            old(reader).failed() ==> final(reader).failed(),
            !final(reader).failed() ==> final(reader).items() == old(reader).items()
                + record.items(),
    {
        let root = reader.bytes_field();
        let commitment = reader.bytes_field();
        let record = MembershipPublicInputsBytes {
            root,
            commitment,
        };
        assert(reader.layout() =~= old(reader).layout() + MembershipPublicInputsBytes::layout());
        assert(!reader.failed() ==> reader.items() =~= old(reader).items()
            + record.items());
        record
    }

    /// The encoding of the public inputs of a record without a version, from
    /// which decoding gives the fields back.
    pub fn serialize(&self) -> (out: Vec<u8>)
        ensures
            out@ == encode_items(self.items()),
            decodes_to(out@, MembershipPublicInputsBytes::layout(), self.items()),
    {
        let mut writer = Writer::new();
        self.write(&mut writer);
        proof {
            assert(writer.items() =~= self.items());
            self.lemma_decode_encode(Seq::empty());
            assert(encode_items(self.items()) + Seq::<u8>::empty() =~= encode_items(
                self.items(),
            ));
        }
        writer.finish()
    }

    /// Decodes the public inputs of a record without a version from the head
    /// of `bytes`; what follows it is not looked at.
    pub fn deserialize(bytes: &[u8]) -> (res: Result<MembershipPublicInputsBytes, WireError>)
        ensures
            match res {
                Ok(record) => decodes_to(
                    bytes@,
                    MembershipPublicInputsBytes::layout(),
                    record.items(),
                ),
                Err(e) => parse_items(MembershipPublicInputsBytes::layout(), bytes@) == Err::<
                    (Seq<Item>, nat),
                    WireError,
                >(e),
            },
    {
        let mut reader = Reader::new(bytes);
        let record = MembershipPublicInputsBytes::read(&mut reader);
        assert(reader.layout() =~= MembershipPublicInputsBytes::layout());
        match reader.finish() {
            Ok(_) => {
                assert(reader.items() =~= record.items());
                Ok(record)
            },
            Err(e) => Err(e),
        }
    }

    /// The fields of the public inputs of a record without a version have its
    /// layout and can be encoded.
    pub proof fn lemma_items(self)
        ensures
            layout_of(self.items()) == MembershipPublicInputsBytes::layout(),
            all_encodable(self.items()),
    {
        assert(self.root@.len() == self.root.len());
        assert(self.commitment@.len() == self.commitment.len());
        assert(layout_of(self.items()) =~= MembershipPublicInputsBytes::layout());
    }

    /// Decoding the encoding of the public inputs of a record without a
    /// version, whatever follows it, gives the fields back.
    pub proof fn lemma_decode_encode(self, rest: Seq<u8>)
        ensures
            decodes_to(
                encode_items(self.items()) + rest,
                MembershipPublicInputsBytes::layout(),
                self.items(),
            ),
    {
        self.lemma_items();
        lemma_parse_encoded(self.items(), rest);
    }
}

impl MembershipInstanceBytes {
    /// The fields of a record without a version, in the order of their
    /// encoding.
    pub open spec fn items(self) -> Seq<Item> {
        self.public_inputs.items()
            + self.witness.items()
    }

    /// The kinds of the fields of a record without a version.
    pub open spec fn layout() -> Seq<Kind> {
        MembershipPublicInputsBytes::layout()
            + MembershipWitnessBytes::layout()
    }

    /// Writes a record without a version behind what was written.
    pub fn write(&self, writer: &mut Writer)
        requires
            old(writer).wf(),
        ensures
            final(writer).wf(),
            final(writer).items() == old(writer).items() + self.items(),
    {
        self.public_inputs.write(writer);
        self.witness.write(writer);
        assert(writer.items() =~= old(writer).items() + self.items());
    }

    /// Reads a record without a version where the reader stands.
    pub fn read(reader: &mut Reader) -> (record: MembershipInstanceBytes)
        requires
            old(reader).wf(),
        ensures
            final(reader).wf(),
            final(reader).source() == old(reader).source(),
            final(reader).layout() == old(reader).layout() + MembershipInstanceBytes::layout(),
            old(reader).failed() ==> final(reader).failed(),
            !final(reader).failed() ==> final(reader).items() == old(reader).items()
                + record.items(),
    {
        let public_inputs = MembershipPublicInputsBytes::read(reader);
        let witness = MembershipWitnessBytes::read(reader);
        let record = MembershipInstanceBytes {
            public_inputs,
            witness,
        };
        assert(reader.layout() =~= old(reader).layout() + MembershipInstanceBytes::layout());
        assert(!reader.failed() ==> reader.items() =~= old(reader).items()
            + record.items());
        record
    }

    /// The encoding of a record without a version, from which decoding gives
    /// the fields back.
    pub fn serialize(&self) -> (out: Vec<u8>)
        ensures
            out@ == encode_items(self.items()),
            decodes_to(out@, MembershipInstanceBytes::layout(), self.items()),
    {
        let mut writer = Writer::new();
        self.write(&mut writer);
        proof {
            assert(writer.items() =~= self.items());
            self.lemma_decode_encode(Seq::empty());
            assert(encode_items(self.items()) + Seq::<u8>::empty() =~= encode_items(
                self.items(),
            ));
        }
        writer.finish()
    }

    /// Decodes a record without a version from the head of `bytes`; what
    /// follows it is not looked at.
    pub fn deserialize(bytes: &[u8]) -> (res: Result<MembershipInstanceBytes, WireError>)
        ensures
            match res {
                Ok(record) => decodes_to(bytes@, MembershipInstanceBytes::layout(), record.items()),
                Err(e) => parse_items(MembershipInstanceBytes::layout(), bytes@) == Err::<
                    (Seq<Item>, nat),
                    WireError,
                >(e),
            },
    {
        let mut reader = Reader::new(bytes);
        let record = MembershipInstanceBytes::read(&mut reader);
        assert(reader.layout() =~= MembershipInstanceBytes::layout());
        match reader.finish() {
            Ok(_) => {
                assert(reader.items() =~= record.items());
                Ok(record)
            },
            Err(e) => Err(e),
        }
    }

    /// The fields of a record without a version have its layout and can be
    /// encoded.
    pub proof fn lemma_items(self)
        ensures
            layout_of(self.items()) == MembershipInstanceBytes::layout(),
            all_encodable(self.items()),
    {
        self.public_inputs.lemma_items();
        self.witness.lemma_items();
        assert(layout_of(self.items()) =~= MembershipInstanceBytes::layout());
    }

    /// Decoding the encoding of a record without a version, whatever follows
    /// it, gives the fields back.
    pub proof fn lemma_decode_encode(self, rest: Seq<u8>)
        ensures
            decodes_to(
                encode_items(self.items()) + rest,
                MembershipInstanceBytes::layout(),
                self.items(),
            ),
    {
        self.lemma_items();
        lemma_parse_encoded(self.items(), rest);
    }
}

impl MembershipWitnessV1Bytes {
    /// The fields of the witness of the first versioned schema, in the order
    /// of their encoding.
    pub open spec fn items(self) -> Seq<Item> {
        Seq::<Item>::empty()
            .push(Item::U8(self.version))
            .push(Item::U32(self.depth))
            .push(Item::Bytes(self.identity_scalar@))
            .push(Item::Bytes(self.blinding@))
            .push(Item::ByteLists(strings(self.merkle_siblings@)))
            .push(Item::Bits(self.merkle_directions@))
    }

    /// The kinds of the fields of the witness of the first versioned schema.
    pub open spec fn layout() -> Seq<Kind> {
        Seq::<Kind>::empty()
            .push(Kind::U8)
            .push(Kind::U32)
            .push(Kind::Bytes)
            .push(Kind::Bytes)
            .push(Kind::ByteLists)
            .push(Kind::Bits)
    }

    /// Writes the witness of the first versioned schema behind what was
    /// written.
    pub fn write(&self, writer: &mut Writer)
        requires
            old(writer).wf(),
        ensures
            final(writer).wf(),
            final(writer).items() == old(writer).items() + self.items(),
    {
        writer.u8(self.version);
        writer.u32(self.depth);
        writer.bytes_field(&self.identity_scalar);
        writer.bytes_field(&self.blinding);
        writer.byte_lists(&self.merkle_siblings);
        writer.bits(&self.merkle_directions);
        assert(writer.items() =~= old(writer).items() + self.items());
    }

    /// Reads the witness of the first versioned schema where the reader
    /// stands.
    pub fn read(reader: &mut Reader) -> (record: MembershipWitnessV1Bytes)
        requires
            old(reader).wf(),
        ensures
            final(reader).wf(),
            final(reader).source() == old(reader).source(),
            final(reader).layout() == old(reader).layout() + MembershipWitnessV1Bytes::layout(),
            old(reader).failed() ==> final(reader).failed(),
            !final(reader).failed() ==> final(reader).items() == old(reader).items()
                + record.items(),
    {
        let version = reader.u8();
        let depth = reader.u32();
        let identity_scalar = reader.bytes_field();
        let blinding = reader.bytes_field();
        let merkle_siblings = reader.byte_lists();
        let merkle_directions = reader.bits();
        let record = MembershipWitnessV1Bytes {
            version,
            depth,
            identity_scalar,
            blinding,
            merkle_siblings,
            merkle_directions,
        };
        assert(reader.layout() =~= old(reader).layout() + MembershipWitnessV1Bytes::layout());
        assert(!reader.failed() ==> reader.items() =~= old(reader).items()
            + record.items());
        record
    }

    /// The encoding of the witness of the first versioned schema, from which
    /// decoding gives the fields back.
    pub fn serialize(&self) -> (out: Vec<u8>)
        ensures
            out@ == encode_items(self.items()),
            decodes_to(out@, MembershipWitnessV1Bytes::layout(), self.items()),
    {
        let mut writer = Writer::new();
        self.write(&mut writer);
        proof {
            assert(writer.items() =~= self.items());
            self.lemma_decode_encode(Seq::empty());
            assert(encode_items(self.items()) + Seq::<u8>::empty() =~= encode_items(
                self.items(),
            ));
        }
        writer.finish()
    }

    /// Decodes the witness of the first versioned schema from the head of
    /// `bytes`; what follows it is not looked at.
    pub fn deserialize(bytes: &[u8]) -> (res: Result<MembershipWitnessV1Bytes, WireError>)
        ensures
            match res {
                Ok(record) => decodes_to(
                    bytes@,
                    MembershipWitnessV1Bytes::layout(),
                    record.items(),
                ),
                Err(e) => parse_items(MembershipWitnessV1Bytes::layout(), bytes@) == Err::<
                    (Seq<Item>, nat),
                    WireError,
                >(e),
            },
    {
        let mut reader = Reader::new(bytes);
        let record = MembershipWitnessV1Bytes::read(&mut reader);
        assert(reader.layout() =~= MembershipWitnessV1Bytes::layout());
        match reader.finish() {
            Ok(_) => {
                assert(reader.items() =~= record.items());
                Ok(record)
            },
            Err(e) => Err(e),
        }
    }

    /// The fields of the witness of the first versioned schema have its layout
    /// and can be encoded.
    pub proof fn lemma_items(self)
        ensures
            layout_of(self.items()) == MembershipWitnessV1Bytes::layout(),
            all_encodable(self.items()),
    {
        assert(self.identity_scalar@.len() == self.identity_scalar.len());
        assert(self.blinding@.len() == self.blinding.len());
        assert(self.merkle_siblings@.len() == self.merkle_siblings.len());
        assert forall|i: int| 0 <= i < self.merkle_siblings@.len() implies (#[trigger] strings(
            self.merkle_siblings@,
        )[i]).len() <= usize::MAX by {
            assert(self.merkle_siblings@[i]@.len() == self.merkle_siblings@[i].len());
        }
        assert(self.merkle_directions@.len() == self.merkle_directions.len());
        assert(layout_of(self.items()) =~= MembershipWitnessV1Bytes::layout());
    }

    /// Decoding the encoding of the witness of the first versioned schema,
    /// whatever follows it, gives the fields back.
    pub proof fn lemma_decode_encode(self, rest: Seq<u8>)
        ensures
            decodes_to(
                encode_items(self.items()) + rest,
                MembershipWitnessV1Bytes::layout(),
                self.items(),
            ),
    {
        self.lemma_items();
        lemma_parse_encoded(self.items(), rest);
    }
}

impl MembershipPublicInputsV1Bytes {
    /// The fields of the public inputs of the first versioned schema, in the
    /// order of their encoding.
    pub open spec fn items(self) -> Seq<Item> {
        Seq::<Item>::empty()
            .push(Item::U8(self.version))
            .push(Item::U32(self.depth))
            .push(Item::Bytes(self.root@))
            .push(Item::Bytes(self.commitment@))
    }

    /// The kinds of the fields of the public inputs of the first versioned
    /// schema.
    pub open spec fn layout() -> Seq<Kind> {
        Seq::<Kind>::empty()
            .push(Kind::U8)
            .push(Kind::U32)
            .push(Kind::Bytes)
            .push(Kind::Bytes)
    }

    /// Writes the public inputs of the first versioned schema behind what was
    /// written.
    pub fn write(&self, writer: &mut Writer)
        requires
            old(writer).wf(),
        ensures
            final(writer).wf(),
            final(writer).items() == old(writer).items() + self.items(),
    {
        writer.u8(self.version);
        writer.u32(self.depth);
        writer.bytes_field(&self.root);
        writer.bytes_field(&self.commitment);
        assert(writer.items() =~= old(writer).items() + self.items());
    }

    /// Reads the public inputs of the first versioned schema where the reader
    /// stands.
    pub fn read(reader: &mut Reader) -> (record: MembershipPublicInputsV1Bytes)
        requires
            old(reader).wf(),
        ensures
            final(reader).wf(),
            final(reader).source() == old(reader).source(),
            final(reader).layout() == old(reader).layout() + MembershipPublicInputsV1Bytes::layout(),
            old(reader).failed() ==> final(reader).failed(),
            !final(reader).failed() ==> final(reader).items() == old(reader).items()
                + record.items(),
    {
        let version = reader.u8();
        let depth = reader.u32();
        let root = reader.bytes_field();
        let commitment = reader.bytes_field();
        let record = MembershipPublicInputsV1Bytes {
            version,
            depth,
            root,
            commitment,
        };
        assert(reader.layout() =~= old(reader).layout() + MembershipPublicInputsV1Bytes::layout());
        assert(!reader.failed() ==> reader.items() =~= old(reader).items()
            + record.items());
        record
    }

    /// The encoding of the public inputs of the first versioned schema, from
    /// which decoding gives the fields back.
    pub fn serialize(&self) -> (out: Vec<u8>)
        ensures
            out@ == encode_items(self.items()),
            decodes_to(out@, MembershipPublicInputsV1Bytes::layout(), self.items()),
    {
        let mut writer = Writer::new();
        self.write(&mut writer);
        proof {
            assert(writer.items() =~= self.items());
            self.lemma_decode_encode(Seq::empty());
            assert(encode_items(self.items()) + Seq::<u8>::empty() =~= encode_items(
                self.items(),
            ));
        }
        writer.finish()
    }

    /// Decodes the public inputs of the first versioned schema from the head
    /// of `bytes`; what follows it is not looked at.
    pub fn deserialize(bytes: &[u8]) -> (res: Result<MembershipPublicInputsV1Bytes, WireError>)
        ensures
            match res {
                Ok(record) => decodes_to(
                    bytes@,
                    MembershipPublicInputsV1Bytes::layout(),
                    record.items(),
                ),
                Err(e) => parse_items(MembershipPublicInputsV1Bytes::layout(), bytes@) == Err::<
                    (Seq<Item>, nat),
                    WireError,
                >(e),
            },
    {
        let mut reader = Reader::new(bytes);
        let record = MembershipPublicInputsV1Bytes::read(&mut reader);
        assert(reader.layout() =~= MembershipPublicInputsV1Bytes::layout());
        match reader.finish() {
            Ok(_) => {
                assert(reader.items() =~= record.items());
                Ok(record)
            },
            Err(e) => Err(e),
        }
    }

    /// The fields of the public inputs of the first versioned schema have its
    /// layout and can be encoded.
    pub proof fn lemma_items(self)
        ensures
            layout_of(self.items()) == MembershipPublicInputsV1Bytes::layout(),
            all_encodable(self.items()),
    {
        assert(self.root@.len() == self.root.len());
        assert(self.commitment@.len() == self.commitment.len());
        assert(layout_of(self.items()) =~= MembershipPublicInputsV1Bytes::layout());
    }

    /// Decoding the encoding of the public inputs of the first versioned
    /// schema, whatever follows it, gives the fields back.
    pub proof fn lemma_decode_encode(self, rest: Seq<u8>)
        ensures
            decodes_to(
                encode_items(self.items()) + rest,
                MembershipPublicInputsV1Bytes::layout(),
                self.items(),
            ),
    {
        self.lemma_items();
        lemma_parse_encoded(self.items(), rest);
    }
}

impl MembershipInstanceV1Bytes {
    /// The fields of a record of the first versioned schema, in the order of
    /// their encoding.
    pub open spec fn items(self) -> Seq<Item> {
        Seq::<Item>::empty()
            .push(Item::U8(self.version))
            + self.public_inputs.items()
            + self.witness.items()
    }

    /// The kinds of the fields of a record of the first versioned schema.
    pub open spec fn layout() -> Seq<Kind> {
        Seq::<Kind>::empty()
            .push(Kind::U8)
            + MembershipPublicInputsV1Bytes::layout()
            + MembershipWitnessV1Bytes::layout()
    }

    /// Writes a record of the first versioned schema behind what was written.
    pub fn write(&self, writer: &mut Writer)
        requires
            old(writer).wf(),
        ensures
            final(writer).wf(),
            final(writer).items() == old(writer).items() + self.items(),
    {
        writer.u8(self.version);
        self.public_inputs.write(writer);
        self.witness.write(writer);
        assert(writer.items() =~= old(writer).items() + self.items());
    }

    /// Reads a record of the first versioned schema where the reader stands.
    pub fn read(reader: &mut Reader) -> (record: MembershipInstanceV1Bytes)
        requires
            old(reader).wf(),
        ensures
            final(reader).wf(),
            final(reader).source() == old(reader).source(),
            final(reader).layout() == old(reader).layout() + MembershipInstanceV1Bytes::layout(),
            old(reader).failed() ==> final(reader).failed(),
            !final(reader).failed() ==> final(reader).items() == old(reader).items()
                + record.items(),
    {
        let version = reader.u8();
        let public_inputs = MembershipPublicInputsV1Bytes::read(reader);
        let witness = MembershipWitnessV1Bytes::read(reader);
        let record = MembershipInstanceV1Bytes {
            version,
            public_inputs,
            witness,
        };
        assert(reader.layout() =~= old(reader).layout() + MembershipInstanceV1Bytes::layout());
        assert(!reader.failed() ==> reader.items() =~= old(reader).items()
            + record.items());
        record
    }

    /// The encoding of a record of the first versioned schema, from which
    /// decoding gives the fields back.
    pub fn serialize(&self) -> (out: Vec<u8>)
        ensures
            out@ == encode_items(self.items()),
            decodes_to(out@, MembershipInstanceV1Bytes::layout(), self.items()),
    {
        let mut writer = Writer::new();
        self.write(&mut writer);
        proof {
            assert(writer.items() =~= self.items());
            self.lemma_decode_encode(Seq::empty());
            assert(encode_items(self.items()) + Seq::<u8>::empty() =~= encode_items(
                self.items(),
            ));
        }
        writer.finish()
    }

    /// Decodes a record of the first versioned schema from the head of
    /// `bytes`; what follows it is not looked at.
    pub fn deserialize(bytes: &[u8]) -> (res: Result<MembershipInstanceV1Bytes, WireError>)
        ensures
            match res {
                Ok(record) => decodes_to(
                    bytes@,
                    MembershipInstanceV1Bytes::layout(),
                    record.items(),
                ),
                Err(e) => parse_items(MembershipInstanceV1Bytes::layout(), bytes@) == Err::<
                    (Seq<Item>, nat),
                    WireError,
                >(e),
            },
    {
        let mut reader = Reader::new(bytes);
        let record = MembershipInstanceV1Bytes::read(&mut reader);
        assert(reader.layout() =~= MembershipInstanceV1Bytes::layout());
        match reader.finish() {
            Ok(_) => {
                assert(reader.items() =~= record.items());
                Ok(record)
            },
            Err(e) => Err(e),
        }
    }

    /// The fields of a record of the first versioned schema have its layout
    /// and can be encoded.
    pub proof fn lemma_items(self)
        ensures
            layout_of(self.items()) == MembershipInstanceV1Bytes::layout(),
            all_encodable(self.items()),
    {
        self.public_inputs.lemma_items();
        self.witness.lemma_items();
        assert(layout_of(self.items()) =~= MembershipInstanceV1Bytes::layout());
    }

    /// Decoding the encoding of a record of the first versioned schema,
    /// whatever follows it, gives the fields back.
    pub proof fn lemma_decode_encode(self, rest: Seq<u8>)
        ensures
            decodes_to(
                encode_items(self.items()) + rest,
                MembershipInstanceV1Bytes::layout(),
                self.items(),
            ),
    {
        self.lemma_items();
        lemma_parse_encoded(self.items(), rest);
    }
}

impl MembershipWitnessV2Bytes {
    /// The fields of the witness of the second versioned schema, in the order
    /// of their encoding.
    pub open spec fn items(self) -> Seq<Item> {
        Seq::<Item>::empty()
            .push(Item::U16(self.schema_version))
            .push(Item::U32(self.depth))
            .push(Item::Bytes(self.identity_scalar@))
            .push(Item::Bytes(self.blinding@))
            .push(Item::ByteLists(strings(self.merkle_siblings@)))
            .push(Item::Bits(self.merkle_directions@))
    }

    /// The kinds of the fields of the witness of the second versioned schema.
    pub open spec fn layout() -> Seq<Kind> {
        Seq::<Kind>::empty()
            .push(Kind::U16)
            .push(Kind::U32)
            .push(Kind::Bytes)
            .push(Kind::Bytes)
            .push(Kind::ByteLists)
            .push(Kind::Bits)
    }

    /// Writes the witness of the second versioned schema behind what was
    /// written.
    pub fn write(&self, writer: &mut Writer)
        requires
            old(writer).wf(),
        ensures
            final(writer).wf(),
            final(writer).items() == old(writer).items() + self.items(),
    {
        writer.u16(self.schema_version);
        writer.u32(self.depth);
        writer.bytes_field(&self.identity_scalar);
        writer.bytes_field(&self.blinding);
        writer.byte_lists(&self.merkle_siblings);
        writer.bits(&self.merkle_directions);
        assert(writer.items() =~= old(writer).items() + self.items());
    }

    /// Reads the witness of the second versioned schema where the reader
    /// stands.
    pub fn read(reader: &mut Reader) -> (record: MembershipWitnessV2Bytes)
        requires
            old(reader).wf(),
        ensures
            final(reader).wf(),
            final(reader).source() == old(reader).source(),
            final(reader).layout() == old(reader).layout() + MembershipWitnessV2Bytes::layout(),
            old(reader).failed() ==> final(reader).failed(),
            !final(reader).failed() ==> final(reader).items() == old(reader).items()
                + record.items(),
    {
        let schema_version = reader.u16();
        let depth = reader.u32();
        let identity_scalar = reader.bytes_field();
        let blinding = reader.bytes_field();
        let merkle_siblings = reader.byte_lists();
        let merkle_directions = reader.bits();
        let record = MembershipWitnessV2Bytes {
            schema_version,
            depth,
            identity_scalar,
            blinding,
            merkle_siblings,
            merkle_directions,
        };
        assert(reader.layout() =~= old(reader).layout() + MembershipWitnessV2Bytes::layout());
        assert(!reader.failed() ==> reader.items() =~= old(reader).items()
            + record.items());
        record
    }

    /// The encoding of the witness of the second versioned schema, from which
    /// decoding gives the fields back.
    pub fn serialize(&self) -> (out: Vec<u8>)
        ensures
            out@ == encode_items(self.items()),
            decodes_to(out@, MembershipWitnessV2Bytes::layout(), self.items()),
    {
        let mut writer = Writer::new();
        self.write(&mut writer);
        proof {
            assert(writer.items() =~= self.items());
            self.lemma_decode_encode(Seq::empty());
            assert(encode_items(self.items()) + Seq::<u8>::empty() =~= encode_items(
                self.items(),
            ));
        }
        writer.finish()
    }

    /// Decodes the witness of the second versioned schema from the head of
    /// `bytes`; what follows it is not looked at.
    pub fn deserialize(bytes: &[u8]) -> (res: Result<MembershipWitnessV2Bytes, WireError>)
        ensures
            match res {
                Ok(record) => decodes_to(
                    bytes@,
                    MembershipWitnessV2Bytes::layout(),
                    record.items(),
                ),
                Err(e) => parse_items(MembershipWitnessV2Bytes::layout(), bytes@) == Err::<
                    (Seq<Item>, nat),
                    WireError,
                >(e),
            },
    {
        let mut reader = Reader::new(bytes);
        let record = MembershipWitnessV2Bytes::read(&mut reader);
        assert(reader.layout() =~= MembershipWitnessV2Bytes::layout());
        match reader.finish() {
            Ok(_) => {
                assert(reader.items() =~= record.items());
                Ok(record)
            },
            Err(e) => Err(e),
        }
    }

    /// The fields of the witness of the second versioned schema have its
    /// layout and can be encoded.
    pub proof fn lemma_items(self)
        ensures
            layout_of(self.items()) == MembershipWitnessV2Bytes::layout(),
            all_encodable(self.items()),
    {
        assert(self.identity_scalar@.len() == self.identity_scalar.len());
        assert(self.blinding@.len() == self.blinding.len());
        assert(self.merkle_siblings@.len() == self.merkle_siblings.len());
        assert forall|i: int| 0 <= i < self.merkle_siblings@.len() implies (#[trigger] strings(
            self.merkle_siblings@,
        )[i]).len() <= usize::MAX by {
            assert(self.merkle_siblings@[i]@.len() == self.merkle_siblings@[i].len());
        }
        assert(self.merkle_directions@.len() == self.merkle_directions.len());
        assert(layout_of(self.items()) =~= MembershipWitnessV2Bytes::layout());
    }

    /// Decoding the encoding of the witness of the second versioned schema,
    /// whatever follows it, gives the fields back.
    pub proof fn lemma_decode_encode(self, rest: Seq<u8>)
        ensures
            decodes_to(
                encode_items(self.items()) + rest,
                MembershipWitnessV2Bytes::layout(),
                self.items(),
            ),
    {
        self.lemma_items();
        lemma_parse_encoded(self.items(), rest);
    }
}

impl MembershipPublicInputsV2Bytes {
    /// The fields of the public inputs of the second versioned schema, in the
    /// order of their encoding.
    pub open spec fn items(self) -> Seq<Item> {
        Seq::<Item>::empty()
            .push(Item::U16(self.schema_version))
            .push(Item::U16(self.statement_type))
            .push(Item::U16(self.statement_version))
            .push(Item::U32(self.depth))
            .push(Item::Fixed32(self.root@))
            .push(Item::Fixed32(self.commitment@))
            .push(Item::Fixed32(self.domain_sep@))
            .push(Item::Fixed32(self.ctx_hash@))
    }

    /// The kinds of the fields of the public inputs of the second versioned
    /// schema.
    pub open spec fn layout() -> Seq<Kind> {
        Seq::<Kind>::empty()
            .push(Kind::U16)
            .push(Kind::U16)
            .push(Kind::U16)
            .push(Kind::U32)
            .push(Kind::Fixed32)
            .push(Kind::Fixed32)
            .push(Kind::Fixed32)
            .push(Kind::Fixed32)
    }

    /// Writes the public inputs of the second versioned schema behind what was
    /// written.
    pub fn write(&self, writer: &mut Writer)
        requires
            old(writer).wf(),
        ensures
            final(writer).wf(),
            final(writer).items() == old(writer).items() + self.items(),
    {
        writer.u16(self.schema_version);
        writer.u16(self.statement_type);
        writer.u16(self.statement_version);
        writer.u32(self.depth);
        writer.fixed32(&self.root);
        writer.fixed32(&self.commitment);
        writer.fixed32(&self.domain_sep);
        writer.fixed32(&self.ctx_hash);
        assert(writer.items() =~= old(writer).items() + self.items());
    }

    /// Reads the public inputs of the second versioned schema where the reader
    /// stands.
    pub fn read(reader: &mut Reader) -> (record: MembershipPublicInputsV2Bytes)
        requires
            old(reader).wf(),
        ensures
            final(reader).wf(),
            final(reader).source() == old(reader).source(),
            final(reader).layout() == old(reader).layout() + MembershipPublicInputsV2Bytes::layout(),
            old(reader).failed() ==> final(reader).failed(),
            !final(reader).failed() ==> final(reader).items() == old(reader).items()
                + record.items(),
    {
        let schema_version = reader.u16();
        let statement_type = reader.u16();
        let statement_version = reader.u16();
        let depth = reader.u32();
        let root = reader.fixed32();
        let commitment = reader.fixed32();
        let domain_sep = reader.fixed32();
        let ctx_hash = reader.fixed32();
        let record = MembershipPublicInputsV2Bytes {
            schema_version,
            statement_type,
            statement_version,
            depth,
            root,
            commitment,
            domain_sep,
            ctx_hash,
        };
        assert(reader.layout() =~= old(reader).layout() + MembershipPublicInputsV2Bytes::layout());
        assert(!reader.failed() ==> reader.items() =~= old(reader).items()
            + record.items());
        record
    }

    /// The encoding of the public inputs of the second versioned schema, from
    /// which decoding gives the fields back.
    pub fn serialize(&self) -> (out: Vec<u8>)
        ensures
            out@ == encode_items(self.items()),
            decodes_to(out@, MembershipPublicInputsV2Bytes::layout(), self.items()),
    {
        let mut writer = Writer::new();
        self.write(&mut writer);
        proof {
            assert(writer.items() =~= self.items());
            self.lemma_decode_encode(Seq::empty());
            assert(encode_items(self.items()) + Seq::<u8>::empty() =~= encode_items(
                self.items(),
            ));
        }
        writer.finish()
    }

    /// Decodes the public inputs of the second versioned schema from the head
    /// of `bytes`; what follows it is not looked at.
    pub fn deserialize(bytes: &[u8]) -> (res: Result<MembershipPublicInputsV2Bytes, WireError>)
        ensures
            match res {
                Ok(record) => decodes_to(
                    bytes@,
                    MembershipPublicInputsV2Bytes::layout(),
                    record.items(),
                ),
                Err(e) => parse_items(MembershipPublicInputsV2Bytes::layout(), bytes@) == Err::<
                    (Seq<Item>, nat),
                    WireError,
                >(e),
            },
    {
        let mut reader = Reader::new(bytes);
        let record = MembershipPublicInputsV2Bytes::read(&mut reader);
        assert(reader.layout() =~= MembershipPublicInputsV2Bytes::layout());
        match reader.finish() {
            Ok(_) => {
                assert(reader.items() =~= record.items());
                Ok(record)
            },
            Err(e) => Err(e),
        }
    }

    /// The fields of the public inputs of the second versioned schema have its
    /// layout and can be encoded.
    pub proof fn lemma_items(self)
        ensures
            layout_of(self.items()) == MembershipPublicInputsV2Bytes::layout(),
            all_encodable(self.items()),
    {
        assert(layout_of(self.items()) =~= MembershipPublicInputsV2Bytes::layout());
    }

    /// Decoding the encoding of the public inputs of the second versioned
    /// schema, whatever follows it, gives the fields back.
    pub proof fn lemma_decode_encode(self, rest: Seq<u8>)
        ensures
            decodes_to(
                encode_items(self.items()) + rest,
                MembershipPublicInputsV2Bytes::layout(),
                self.items(),
            ),
    {
        self.lemma_items();
        lemma_parse_encoded(self.items(), rest);
    }
}

impl MembershipInstanceV2Bytes {
    /// The fields of a record of the second versioned schema, in the order of
    /// their encoding.
    pub open spec fn items(self) -> Seq<Item> {
        Seq::<Item>::empty()
            .push(Item::U16(self.schema_version))
            + self.public_inputs.items()
            + self.witness.items()
    }

    /// The kinds of the fields of a record of the second versioned schema.
    pub open spec fn layout() -> Seq<Kind> {
        Seq::<Kind>::empty()
            .push(Kind::U16)
            + MembershipPublicInputsV2Bytes::layout()
            + MembershipWitnessV2Bytes::layout()
    }

    /// Writes a record of the second versioned schema behind what was written.
    pub fn write(&self, writer: &mut Writer)
        requires
            old(writer).wf(),
        ensures
            final(writer).wf(),
            final(writer).items() == old(writer).items() + self.items(),
    {
        writer.u16(self.schema_version);
        self.public_inputs.write(writer);
        self.witness.write(writer);
        assert(writer.items() =~= old(writer).items() + self.items());
    }

    /// Reads a record of the second versioned schema where the reader stands.
    pub fn read(reader: &mut Reader) -> (record: MembershipInstanceV2Bytes)
        requires
            old(reader).wf(),
        ensures
            final(reader).wf(),
            final(reader).source() == old(reader).source(),
            final(reader).layout() == old(reader).layout() + MembershipInstanceV2Bytes::layout(),
            old(reader).failed() ==> final(reader).failed(),
            !final(reader).failed() ==> final(reader).items() == old(reader).items()
                + record.items(),
    {
        let schema_version = reader.u16();
        let public_inputs = MembershipPublicInputsV2Bytes::read(reader);
        let witness = MembershipWitnessV2Bytes::read(reader);
        let record = MembershipInstanceV2Bytes {
            schema_version,
            public_inputs,
            witness,
        };
        assert(reader.layout() =~= old(reader).layout() + MembershipInstanceV2Bytes::layout());
        assert(!reader.failed() ==> reader.items() =~= old(reader).items()
            + record.items());
        record
    }

    /// The encoding of a record of the second versioned schema, from which
    /// decoding gives the fields back.
    pub fn serialize(&self) -> (out: Vec<u8>)
        ensures
            out@ == encode_items(self.items()),
            decodes_to(out@, MembershipInstanceV2Bytes::layout(), self.items()),
    {
        let mut writer = Writer::new();
        self.write(&mut writer);
        proof {
            assert(writer.items() =~= self.items());
            self.lemma_decode_encode(Seq::empty());
            assert(encode_items(self.items()) + Seq::<u8>::empty() =~= encode_items(
                self.items(),
            ));
        }
        writer.finish()
    }

    /// Decodes a record of the second versioned schema from the head of
    /// `bytes`; what follows it is not looked at.
    pub fn deserialize(bytes: &[u8]) -> (res: Result<MembershipInstanceV2Bytes, WireError>)
        ensures
            match res {
                Ok(record) => decodes_to(
                    bytes@,
                    MembershipInstanceV2Bytes::layout(),
                    record.items(),
                ),
                Err(e) => parse_items(MembershipInstanceV2Bytes::layout(), bytes@) == Err::<
                    (Seq<Item>, nat),
                    WireError,
                >(e),
            },
    {
        let mut reader = Reader::new(bytes);
        let record = MembershipInstanceV2Bytes::read(&mut reader);
        assert(reader.layout() =~= MembershipInstanceV2Bytes::layout());
        match reader.finish() {
            Ok(_) => {
                assert(reader.items() =~= record.items());
                Ok(record)
            },
            Err(e) => Err(e),
        }
    }

    /// The fields of a record of the second versioned schema have its layout
    /// and can be encoded.
    pub proof fn lemma_items(self)
        ensures
            layout_of(self.items()) == MembershipInstanceV2Bytes::layout(),
            all_encodable(self.items()),
    {
        self.public_inputs.lemma_items();
        self.witness.lemma_items();
        assert(layout_of(self.items()) =~= MembershipInstanceV2Bytes::layout());
    }

    /// Decoding the encoding of a record of the second versioned schema,
    /// whatever follows it, gives the fields back.
    pub proof fn lemma_decode_encode(self, rest: Seq<u8>)
        ensures
            decodes_to(
                encode_items(self.items()) + rest,
                MembershipInstanceV2Bytes::layout(),
                self.items(),
            ),
    {
        self.lemma_items();
        lemma_parse_encoded(self.items(), rest);
    }
}

} // verus!
