//! The binary encoding of the continuity records.

use crate::continuity::schema::{
    ContinuityInstanceV1, ContinuityInstanceV2, ContinuityPublicInputsV1, ContinuityPublicInputsV2,
};
use crate::wire::{
    all_encodable, decodes_to, encode_items, layout_of, lemma_parse_encoded,
    parse_items, Item, Kind, Reader, WireError, Writer,
};
use vstd::prelude::*;

verus! {

impl ContinuityInstanceV1 {
    /// The fields of a record of the first schema, in the order of their
    /// encoding.
    pub open spec fn items(self) -> Seq<Item> {
        Seq::<Item>::empty()
            .push(Item::U8(self.schema_version))
            .push(Item::Fixed32(self.id@))
            .push(Item::Fixed32(self.r1@))
            .push(Item::Fixed32(self.r2@))
            .push(Item::Fixed32(self.c1_hash@))
            .push(Item::Fixed32(self.c2_hash@))
            .push(Item::Fixed32(self.domain_sep@))
    }

    /// The kinds of the fields of a record of the first schema.
    pub open spec fn layout() -> Seq<Kind> {
        Seq::<Kind>::empty()
            .push(Kind::U8)
            .push(Kind::Fixed32)
            .push(Kind::Fixed32)
            .push(Kind::Fixed32)
            .push(Kind::Fixed32)
            .push(Kind::Fixed32)
            .push(Kind::Fixed32)
    }

    /// Writes a record of the first schema behind what was written.
    pub fn write(&self, writer: &mut Writer)
        requires
            old(writer).wf(),
        ensures
            final(writer).wf(),
            final(writer).items() == old(writer).items() + self.items(),
    {
        writer.u8(self.schema_version);
        writer.fixed32(&self.id);
        writer.fixed32(&self.r1);
        writer.fixed32(&self.r2);
        writer.fixed32(&self.c1_hash);
        writer.fixed32(&self.c2_hash);
        writer.fixed32(&self.domain_sep);
        assert(writer.items() =~= old(writer).items() + self.items());
    }

    /// Reads a record of the first schema where the reader stands.
    pub fn read(reader: &mut Reader) -> (record: ContinuityInstanceV1)
        requires
            old(reader).wf(),
        ensures
            final(reader).wf(),
            final(reader).source() == old(reader).source(),
            final(reader).layout() == old(reader).layout() + ContinuityInstanceV1::layout(),
            old(reader).failed() ==> final(reader).failed(),
            !final(reader).failed() ==> final(reader).items() == old(reader).items()
                + record.items(),
    {
        let schema_version = reader.u8();
        let id = reader.fixed32();
        let r1 = reader.fixed32();
        let r2 = reader.fixed32();
        let c1_hash = reader.fixed32();
        let c2_hash = reader.fixed32();
        let domain_sep = reader.fixed32();
        let record = ContinuityInstanceV1 {
            schema_version,
            id,
            r1,
            r2,
            c1_hash,
            c2_hash,
            domain_sep,
        };
        assert(reader.layout() =~= old(reader).layout() + ContinuityInstanceV1::layout());
        assert(!reader.failed() ==> reader.items() =~= old(reader).items()
            + record.items());
        record
    }

    /// The encoding of a record of the first schema, from which decoding gives
    /// the fields back.
    pub fn serialize(&self) -> (out: Vec<u8>)
        ensures
            out@ == encode_items(self.items()),
            decodes_to(out@, ContinuityInstanceV1::layout(), self.items()),
    {
        let mut writer = Writer::new();
        self.write(&mut writer);
        proof {
            assert(writer.items() =~= self.items());
            self.lemma_decode_encode(Seq::empty());
            assert(encode_items(self.items()) + Seq::<u8>::empty() =~= encode_items(
                self.items(),
            ));
        }
        writer.finish()
    }

    /// Decodes a record of the first schema from the head of `bytes`; what
    /// follows it is not looked at.
    pub fn deserialize(bytes: &[u8]) -> (res: Result<ContinuityInstanceV1, WireError>)
        ensures
            match res {
                Ok(record) => decodes_to(bytes@, ContinuityInstanceV1::layout(), record.items()),
                Err(e) => parse_items(ContinuityInstanceV1::layout(), bytes@) == Err::<
                    (Seq<Item>, nat),
                    WireError,
                >(e),
            },
    {
        let mut reader = Reader::new(bytes);
        let record = ContinuityInstanceV1::read(&mut reader);
        assert(reader.layout() =~= ContinuityInstanceV1::layout());
        match reader.finish() {
            Ok(_) => {
                assert(reader.items() =~= record.items());
                Ok(record)
            },
            Err(e) => Err(e),
        }
    }

    /// The fields of a record of the first schema have its layout and can be
    /// encoded.
    pub proof fn lemma_items(self)
        ensures
            layout_of(self.items()) == ContinuityInstanceV1::layout(),
            all_encodable(self.items()),
    {
        assert(layout_of(self.items()) =~= ContinuityInstanceV1::layout());
    }

    /// Decoding the encoding of a record of the first schema, whatever follows
    /// it, gives the fields back.
    pub proof fn lemma_decode_encode(self, rest: Seq<u8>)
        ensures
            decodes_to(
                encode_items(self.items()) + rest,
                ContinuityInstanceV1::layout(),
                self.items(),
            ),
    {
        self.lemma_items();
        lemma_parse_encoded(self.items(), rest);
    }
}

impl ContinuityPublicInputsV1 {
    /// The fields of the public inputs of the first schema, in the order of
    /// their encoding.
    pub open spec fn items(self) -> Seq<Item> {
        Seq::<Item>::empty()
            .push(Item::U8(self.schema_version))
            .push(Item::Fixed32(self.c1_hash@))
            .push(Item::Fixed32(self.c2_hash@))
            .push(Item::Fixed32(self.domain_sep@))
    }

    /// The kinds of the fields of the public inputs of the first schema.
    pub open spec fn layout() -> Seq<Kind> {
        Seq::<Kind>::empty()
            .push(Kind::U8)
            .push(Kind::Fixed32)
            .push(Kind::Fixed32)
            .push(Kind::Fixed32)
    }

    /// Writes the public inputs of the first schema behind what was written.
    pub fn write(&self, writer: &mut Writer)
        requires
            old(writer).wf(),
        ensures
            final(writer).wf(),
            final(writer).items() == old(writer).items() + self.items(),
    {
        writer.u8(self.schema_version);
        writer.fixed32(&self.c1_hash);
        writer.fixed32(&self.c2_hash);
        writer.fixed32(&self.domain_sep);
        assert(writer.items() =~= old(writer).items() + self.items());
    }

    /// Reads the public inputs of the first schema where the reader stands.
    pub fn read(reader: &mut Reader) -> (record: ContinuityPublicInputsV1)
        requires
            old(reader).wf(),
        ensures
            final(reader).wf(),
            final(reader).source() == old(reader).source(),
            final(reader).layout() == old(reader).layout() + ContinuityPublicInputsV1::layout(),
            old(reader).failed() ==> final(reader).failed(),
            !final(reader).failed() ==> final(reader).items() == old(reader).items()
                + record.items(),
    {
        let schema_version = reader.u8();
        let c1_hash = reader.fixed32();
        let c2_hash = reader.fixed32();
        let domain_sep = reader.fixed32();
        let record = ContinuityPublicInputsV1 {
            schema_version,
            c1_hash,
            c2_hash,
            domain_sep,
        };
        assert(reader.layout() =~= old(reader).layout() + ContinuityPublicInputsV1::layout());
        assert(!reader.failed() ==> reader.items() =~= old(reader).items()
            + record.items());
        record
    }

    /// The encoding of the public inputs of the first schema, from which
    /// decoding gives the fields back.
    pub fn serialize(&self) -> (out: Vec<u8>)
        ensures
            out@ == encode_items(self.items()),
            decodes_to(out@, ContinuityPublicInputsV1::layout(), self.items()),
    {
        let mut writer = Writer::new();
        self.write(&mut writer);
        proof {
            assert(writer.items() =~= self.items());
            self.lemma_decode_encode(Seq::empty());
            assert(encode_items(self.items()) + Seq::<u8>::empty() =~= encode_items(
                self.items(),
            ));
        }
        writer.finish()
    }

    /// Decodes the public inputs of the first schema from the head of `bytes`;
    /// what follows it is not looked at.
    pub fn deserialize(bytes: &[u8]) -> (res: Result<ContinuityPublicInputsV1, WireError>)
        ensures
            match res {
                Ok(record) => decodes_to(
                    bytes@,
                    ContinuityPublicInputsV1::layout(),
                    record.items(),
                ),
                Err(e) => parse_items(ContinuityPublicInputsV1::layout(), bytes@) == Err::<
                    (Seq<Item>, nat),
                    WireError,
                >(e),
            },
    {
        let mut reader = Reader::new(bytes);
        let record = ContinuityPublicInputsV1::read(&mut reader);
        assert(reader.layout() =~= ContinuityPublicInputsV1::layout());
        match reader.finish() {
            Ok(_) => {
                assert(reader.items() =~= record.items());
                Ok(record)
            },
            Err(e) => Err(e),
        }
    }

    /// The fields of the public inputs of the first schema have its layout and
    /// can be encoded.
    pub proof fn lemma_items(self)
        ensures
            layout_of(self.items()) == ContinuityPublicInputsV1::layout(),
            all_encodable(self.items()),
    {
        assert(layout_of(self.items()) =~= ContinuityPublicInputsV1::layout());
    }

    /// Decoding the encoding of the public inputs of the first schema,
    /// whatever follows it, gives the fields back.
    pub proof fn lemma_decode_encode(self, rest: Seq<u8>)
        ensures
            decodes_to(
                encode_items(self.items()) + rest,
                ContinuityPublicInputsV1::layout(),
                self.items(),
            ),
    {
        self.lemma_items();
        lemma_parse_encoded(self.items(), rest);
    }
}

impl ContinuityInstanceV2 {
    /// The fields of a record of the second schema, in the order of their
    /// encoding.
    pub open spec fn items(self) -> Seq<Item> {
        Seq::<Item>::empty()
            .push(Item::U16(self.schema_version))
            .push(Item::U16(self.statement_type))
            .push(Item::U16(self.statement_version))
            .push(Item::Fixed32(self.id@))
            .push(Item::Fixed32(self.r1@))
            .push(Item::Fixed32(self.r2@))
            .push(Item::Fixed32(self.c1_hash@))
            .push(Item::Fixed32(self.c2_hash@))
            .push(Item::Fixed32(self.domain_sep@))
            .push(Item::Fixed32(self.ctx_hash@))
    }

    /// The kinds of the fields of a record of the second schema.
    pub open spec fn layout() -> Seq<Kind> {
        Seq::<Kind>::empty()
            .push(Kind::U16)
            .push(Kind::U16)
            .push(Kind::U16)
            .push(Kind::Fixed32)
            .push(Kind::Fixed32)
            .push(Kind::Fixed32)
            .push(Kind::Fixed32)
            .push(Kind::Fixed32)
            .push(Kind::Fixed32)
            .push(Kind::Fixed32)
    }

    /// Writes a record of the second schema behind what was written.
    pub fn write(&self, writer: &mut Writer)
        requires
            old(writer).wf(),
        ensures
            final(writer).wf(),
            final(writer).items() == old(writer).items() + self.items(),
    {
        writer.u16(self.schema_version);
        writer.u16(self.statement_type);
        writer.u16(self.statement_version);
        writer.fixed32(&self.id);
        writer.fixed32(&self.r1);
        writer.fixed32(&self.r2);
        writer.fixed32(&self.c1_hash);
        writer.fixed32(&self.c2_hash);
        writer.fixed32(&self.domain_sep);
        writer.fixed32(&self.ctx_hash);
        assert(writer.items() =~= old(writer).items() + self.items());
    }

    /// Reads a record of the second schema where the reader stands.
    pub fn read(reader: &mut Reader) -> (record: ContinuityInstanceV2)
        requires
            old(reader).wf(),
        ensures
            final(reader).wf(),
            final(reader).source() == old(reader).source(),
            final(reader).layout() == old(reader).layout() + ContinuityInstanceV2::layout(),
            old(reader).failed() ==> final(reader).failed(),
            !final(reader).failed() ==> final(reader).items() == old(reader).items()
                + record.items(),
    {
        let schema_version = reader.u16();
        let statement_type = reader.u16();
        let statement_version = reader.u16();
        let id = reader.fixed32();
        let r1 = reader.fixed32();
        let r2 = reader.fixed32();
        let c1_hash = reader.fixed32();
        let c2_hash = reader.fixed32();
        let domain_sep = reader.fixed32();
        let ctx_hash = reader.fixed32();
        let record = ContinuityInstanceV2 {
            schema_version,
            statement_type,
            statement_version,
            id,
            r1,
            r2,
            c1_hash,
            c2_hash,
            domain_sep,
            ctx_hash,
        };
        assert(reader.layout() =~= old(reader).layout() + ContinuityInstanceV2::layout());
        assert(!reader.failed() ==> reader.items() =~= old(reader).items()
            + record.items());
        record
    }

    /// The encoding of a record of the second schema, from which decoding
    /// gives the fields back.
    pub fn serialize(&self) -> (out: Vec<u8>)
        ensures
            out@ == encode_items(self.items()),
            decodes_to(out@, ContinuityInstanceV2::layout(), self.items()),
    {
        let mut writer = Writer::new();
        self.write(&mut writer);
        proof {
            assert(writer.items() =~= self.items());
            self.lemma_decode_encode(Seq::empty());
            assert(encode_items(self.items()) + Seq::<u8>::empty() =~= encode_items(
                self.items(),
            ));
        }
        writer.finish()
    }

    /// Decodes a record of the second schema from the head of `bytes`; what
    /// follows it is not looked at.
    pub fn deserialize(bytes: &[u8]) -> (res: Result<ContinuityInstanceV2, WireError>)
        ensures
            match res {
                Ok(record) => decodes_to(bytes@, ContinuityInstanceV2::layout(), record.items()),
                Err(e) => parse_items(ContinuityInstanceV2::layout(), bytes@) == Err::<
                    (Seq<Item>, nat),
                    WireError,
                >(e),
            },
    {
        let mut reader = Reader::new(bytes);
        let record = ContinuityInstanceV2::read(&mut reader);
        assert(reader.layout() =~= ContinuityInstanceV2::layout());
        match reader.finish() {
            Ok(_) => {
                assert(reader.items() =~= record.items());
                Ok(record)
            },
            Err(e) => Err(e),
        }
    }

    /// The fields of a record of the second schema have its layout and can be
    /// encoded.
    pub proof fn lemma_items(self)
        ensures
            layout_of(self.items()) == ContinuityInstanceV2::layout(),
            all_encodable(self.items()),
    {
        assert(layout_of(self.items()) =~= ContinuityInstanceV2::layout());
    }

    /// Decoding the encoding of a record of the second schema, whatever
    /// follows it, gives the fields back.
    pub proof fn lemma_decode_encode(self, rest: Seq<u8>)
        ensures
            decodes_to(
                encode_items(self.items()) + rest,
                ContinuityInstanceV2::layout(),
                self.items(),
            ),
    {
        self.lemma_items();
        lemma_parse_encoded(self.items(), rest);
    }
}

impl ContinuityPublicInputsV2 {
    /// The fields of the public inputs of the second schema, in the order of
    /// their encoding.
    pub open spec fn items(self) -> Seq<Item> {
        Seq::<Item>::empty()
            .push(Item::U16(self.schema_version))
            .push(Item::U16(self.statement_type))
            .push(Item::U16(self.statement_version))
            .push(Item::Fixed32(self.c1_hash@))
            .push(Item::Fixed32(self.c2_hash@))
            .push(Item::Fixed32(self.domain_sep@))
            .push(Item::Fixed32(self.ctx_hash@))
    }

    /// The kinds of the fields of the public inputs of the second schema.
    pub open spec fn layout() -> Seq<Kind> {
        Seq::<Kind>::empty()
            .push(Kind::U16)
            .push(Kind::U16)
            .push(Kind::U16)
            .push(Kind::Fixed32)
            .push(Kind::Fixed32)
            .push(Kind::Fixed32)
            .push(Kind::Fixed32)
    }

    /// Writes the public inputs of the second schema behind what was written.
    pub fn write(&self, writer: &mut Writer)
        requires
            old(writer).wf(),
        ensures
            final(writer).wf(),
            final(writer).items() == old(writer).items() + self.items(),
    {
        writer.u16(self.schema_version);
        writer.u16(self.statement_type);
        writer.u16(self.statement_version);
        writer.fixed32(&self.c1_hash);
        writer.fixed32(&self.c2_hash);
        writer.fixed32(&self.domain_sep);
        writer.fixed32(&self.ctx_hash);
        assert(writer.items() =~= old(writer).items() + self.items());
    }

    /// Reads the public inputs of the second schema where the reader stands.
    pub fn read(reader: &mut Reader) -> (record: ContinuityPublicInputsV2)
        requires
            old(reader).wf(),
        ensures
            final(reader).wf(),
            final(reader).source() == old(reader).source(),
            final(reader).layout() == old(reader).layout() + ContinuityPublicInputsV2::layout(),
            old(reader).failed() ==> final(reader).failed(),
            !final(reader).failed() ==> final(reader).items() == old(reader).items()
                + record.items(),
    {
        let schema_version = reader.u16();
        let statement_type = reader.u16();
        let statement_version = reader.u16();
        let c1_hash = reader.fixed32();
        let c2_hash = reader.fixed32();
        let domain_sep = reader.fixed32();
        let ctx_hash = reader.fixed32();
        let record = ContinuityPublicInputsV2 {
            schema_version,
            statement_type,
            statement_version,
            c1_hash,
            c2_hash,
            domain_sep,
            ctx_hash,
        };
        assert(reader.layout() =~= old(reader).layout() + ContinuityPublicInputsV2::layout());
        assert(!reader.failed() ==> reader.items() =~= old(reader).items()
            + record.items());
        record
    }

    /// The encoding of the public inputs of the second schema, from which
    /// decoding gives the fields back.
    pub fn serialize(&self) -> (out: Vec<u8>)
        ensures
            out@ == encode_items(self.items()),
            decodes_to(out@, ContinuityPublicInputsV2::layout(), self.items()),
    {
        let mut writer = Writer::new();
        self.write(&mut writer);
        proof {
            assert(writer.items() =~= self.items());
            self.lemma_decode_encode(Seq::empty());
            assert(encode_items(self.items()) + Seq::<u8>::empty() =~= encode_items(
                self.items(),
            ));
        }
        writer.finish()
    }

    /// Decodes the public inputs of the second schema from the head of
    /// `bytes`; what follows it is not looked at.
    pub fn deserialize(bytes: &[u8]) -> (res: Result<ContinuityPublicInputsV2, WireError>)
        ensures
            match res {
                Ok(record) => decodes_to(
                    bytes@,
                    ContinuityPublicInputsV2::layout(),
                    record.items(),
                ),
                Err(e) => parse_items(ContinuityPublicInputsV2::layout(), bytes@) == Err::<
                    (Seq<Item>, nat),
                    WireError,
                >(e),
            },
    {
        let mut reader = Reader::new(bytes);
        let record = ContinuityPublicInputsV2::read(&mut reader);
        assert(reader.layout() =~= ContinuityPublicInputsV2::layout());
        match reader.finish() {
            Ok(_) => {
                assert(reader.items() =~= record.items());
                Ok(record)
            },
            Err(e) => Err(e),
        }
    }

    /// The fields of the public inputs of the second schema have its layout
    /// and can be encoded.
    pub proof fn lemma_items(self)
        ensures
            layout_of(self.items()) == ContinuityPublicInputsV2::layout(),
            all_encodable(self.items()),
    {
        assert(layout_of(self.items()) =~= ContinuityPublicInputsV2::layout());
    }

    /// Decoding the encoding of the public inputs of the second schema,
    /// whatever follows it, gives the fields back.
    pub proof fn lemma_decode_encode(self, rest: Seq<u8>)
        ensures
            decodes_to(
                encode_items(self.items()) + rest,
                ContinuityPublicInputsV2::layout(),
                self.items(),
            ),
    {
        self.lemma_items();
        lemma_parse_encoded(self.items(), rest);
    }
}

} // verus!
