//! The binary encoding of the unlinkability records.

use crate::unlinkability::schema::{UnlinkabilityInstanceV2, UnlinkabilityPublicInputsV2};
use crate::wire::{
    all_encodable, decodes_to, encode_items, layout_of, lemma_parse_encoded,
    parse_items, Item, Kind, Reader, WireError, Writer,
};
use vstd::prelude::*;

verus! {

impl UnlinkabilityInstanceV2 {
    /// The fields of a record, in the order of their encoding.
    pub open spec fn items(self) -> Seq<Item> {
        Seq::<Item>::empty()
            .push(Item::U16(self.schema_version))
            .push(Item::U16(self.statement_type))
            .push(Item::U16(self.statement_version))
            .push(Item::Fixed32(self.id@))
            .push(Item::Fixed32(self.blinding@))
            .push(Item::Fixed32(self.tag@))
            .push(Item::Fixed32(self.domain_sep@))
            .push(Item::Fixed32(self.ctx_hash@))
    }

    /// The kinds of the fields of a record.
    pub open spec fn layout() -> Seq<Kind> {
        Seq::<Kind>::empty()
            .push(Kind::U16)
            .push(Kind::U16)
            .push(Kind::U16)
            .push(Kind::Fixed32)
            .push(Kind::Fixed32)
            .push(Kind::Fixed32)
            .push(Kind::Fixed32)
            .push(Kind::Fixed32)
    }

    /// Writes a record behind what was written.
    pub fn write(&self, writer: &mut Writer)
        requires
            old(writer).wf(),
        ensures
            final(writer).wf(),
            final(writer).items() == old(writer).items() + self.items(),
    {
        writer.u16(self.schema_version);
        writer.u16(self.statement_type);
        writer.u16(self.statement_version);
        writer.fixed32(&self.id);
        writer.fixed32(&self.blinding);
        writer.fixed32(&self.tag);
        writer.fixed32(&self.domain_sep);
        writer.fixed32(&self.ctx_hash);
        assert(writer.items() =~= old(writer).items() + self.items());
    }

    /// Reads a record where the reader stands.
    pub fn read(reader: &mut Reader) -> (record: UnlinkabilityInstanceV2)
        requires
            old(reader).wf(),
        ensures
            final(reader).wf(),
            final(reader).source() == old(reader).source(),
            final(reader).layout() == old(reader).layout() + UnlinkabilityInstanceV2::layout(),
            old(reader).failed() ==> final(reader).failed(),
            !final(reader).failed() ==> final(reader).items() == old(reader).items()
                + record.items(),
    {
        let schema_version = reader.u16();
        let statement_type = reader.u16();
        let statement_version = reader.u16();
        let id = reader.fixed32();
        let blinding = reader.fixed32();
        let tag = reader.fixed32();
        let domain_sep = reader.fixed32();
        let ctx_hash = reader.fixed32();
        let record = UnlinkabilityInstanceV2 {
            schema_version,
            statement_type,
            statement_version,
            id,
            blinding,
            tag,
            domain_sep,
            ctx_hash,
        };
        assert(reader.layout() =~= old(reader).layout() + UnlinkabilityInstanceV2::layout());
        assert(!reader.failed() ==> reader.items() =~= old(reader).items()
            + record.items());
        record
    }

    /// The encoding of a record, from which decoding gives the fields back.
    pub fn serialize(&self) -> (out: Vec<u8>)
        ensures
            out@ == encode_items(self.items()),
            decodes_to(out@, UnlinkabilityInstanceV2::layout(), self.items()),
    {
        let mut writer = Writer::new();
        self.write(&mut writer);
        proof {
            assert(writer.items() =~= self.items());
            self.lemma_decode_encode(Seq::empty());
            assert(encode_items(self.items()) + Seq::<u8>::empty() =~= encode_items(
                self.items(),
            ));
        }
        writer.finish()
    }

    /// Decodes a record from the head of `bytes`; what follows it is not
    /// looked at.
    pub fn deserialize(bytes: &[u8]) -> (res: Result<UnlinkabilityInstanceV2, WireError>)
        ensures
            match res {
                Ok(record) => decodes_to(bytes@, UnlinkabilityInstanceV2::layout(), record.items()),
                Err(e) => parse_items(UnlinkabilityInstanceV2::layout(), bytes@) == Err::<
                    (Seq<Item>, nat),
                    WireError,
                >(e),
            },
    {
        let mut reader = Reader::new(bytes);
        let record = UnlinkabilityInstanceV2::read(&mut reader);
        assert(reader.layout() =~= UnlinkabilityInstanceV2::layout());
        match reader.finish() {
            Ok(_) => {
                assert(reader.items() =~= record.items());
                Ok(record)
            },
            Err(e) => Err(e),
        }
    }

    /// The fields of a record have its layout and can be encoded.
    pub proof fn lemma_items(self)
        ensures
            layout_of(self.items()) == UnlinkabilityInstanceV2::layout(),
            all_encodable(self.items()),
    {
        assert(layout_of(self.items()) =~= UnlinkabilityInstanceV2::layout());
    }

    /// Decoding the encoding of a record, whatever follows it, gives the
    /// fields back.
    pub proof fn lemma_decode_encode(self, rest: Seq<u8>)
        ensures
            decodes_to(
                encode_items(self.items()) + rest,
                UnlinkabilityInstanceV2::layout(),
                self.items(),
            ),
    {
        self.lemma_items();
        lemma_parse_encoded(self.items(), rest);
    }
}

impl UnlinkabilityPublicInputsV2 {
    /// The fields of the public inputs, in the order of their encoding.
    pub open spec fn items(self) -> Seq<Item> {
        Seq::<Item>::empty()
            .push(Item::U16(self.schema_version))
            .push(Item::U16(self.statement_type))
            .push(Item::U16(self.statement_version))
            .push(Item::Fixed32(self.tag@))
            .push(Item::Fixed32(self.domain_sep@))
            .push(Item::Fixed32(self.ctx_hash@))
    }

    /// The kinds of the fields of the public inputs.
    pub open spec fn layout() -> Seq<Kind> {
        Seq::<Kind>::empty()
            .push(Kind::U16)
            .push(Kind::U16)
            .push(Kind::U16)
            .push(Kind::Fixed32)
            .push(Kind::Fixed32)
            .push(Kind::Fixed32)
    }

    /// Writes the public inputs behind what was written.
    pub fn write(&self, writer: &mut Writer)
        requires
            old(writer).wf(),
        ensures
            final(writer).wf(),
            final(writer).items() == old(writer).items() + self.items(),
    {
        writer.u16(self.schema_version);
        writer.u16(self.statement_type);
        writer.u16(self.statement_version);
        writer.fixed32(&self.tag);
        writer.fixed32(&self.domain_sep);
        writer.fixed32(&self.ctx_hash);
        assert(writer.items() =~= old(writer).items() + self.items());
    }

    /// Reads the public inputs where the reader stands.
    pub fn read(reader: &mut Reader) -> (record: UnlinkabilityPublicInputsV2)
        requires
            old(reader).wf(),
        ensures
            final(reader).wf(),
            final(reader).source() == old(reader).source(),
            final(reader).layout() == old(reader).layout() + UnlinkabilityPublicInputsV2::layout(),
            old(reader).failed() ==> final(reader).failed(),
            !final(reader).failed() ==> final(reader).items() == old(reader).items()
                + record.items(),
    {
        let schema_version = reader.u16();
        let statement_type = reader.u16();
        let statement_version = reader.u16();
        let tag = reader.fixed32();
        let domain_sep = reader.fixed32();
        let ctx_hash = reader.fixed32();
        let record = UnlinkabilityPublicInputsV2 {
            schema_version,
            statement_type,
            statement_version,
            tag,
            domain_sep,
            ctx_hash,
        };
        assert(reader.layout() =~= old(reader).layout() + UnlinkabilityPublicInputsV2::layout());
        assert(!reader.failed() ==> reader.items() =~= old(reader).items()
            + record.items());
        record
    }

    /// The encoding of the public inputs, from which decoding gives the fields
    /// back.
    pub fn serialize(&self) -> (out: Vec<u8>)
        ensures
            out@ == encode_items(self.items()),
            decodes_to(out@, UnlinkabilityPublicInputsV2::layout(), self.items()),
    {
        let mut writer = Writer::new();
        self.write(&mut writer);
        proof {
            assert(writer.items() =~= self.items());
            self.lemma_decode_encode(Seq::empty());
            assert(encode_items(self.items()) + Seq::<u8>::empty() =~= encode_items(
                self.items(),
            ));
        }
        writer.finish()
    }

    /// Decodes the public inputs from the head of `bytes`; what follows it is
    /// not looked at.
    pub fn deserialize(bytes: &[u8]) -> (res: Result<UnlinkabilityPublicInputsV2, WireError>)
        ensures
            match res {
                Ok(record) => decodes_to(
                    bytes@,
                    UnlinkabilityPublicInputsV2::layout(),
                    record.items(),
                ),
                Err(e) => parse_items(UnlinkabilityPublicInputsV2::layout(), bytes@) == Err::<
                    (Seq<Item>, nat),
                    WireError,
                >(e),
            },
    {
        let mut reader = Reader::new(bytes);
        let record = UnlinkabilityPublicInputsV2::read(&mut reader);
        assert(reader.layout() =~= UnlinkabilityPublicInputsV2::layout());
        match reader.finish() {
            Ok(_) => {
                assert(reader.items() =~= record.items());
                Ok(record)
            },
            Err(e) => Err(e),
        }
    }

    /// The fields of the public inputs have its layout and can be encoded.
    pub proof fn lemma_items(self)
        ensures
            layout_of(self.items()) == UnlinkabilityPublicInputsV2::layout(),
            all_encodable(self.items()),
    {
        assert(layout_of(self.items()) =~= UnlinkabilityPublicInputsV2::layout());
    }

    /// Decoding the encoding of the public inputs, whatever follows it, gives
    /// the fields back.
    pub proof fn lemma_decode_encode(self, rest: Seq<u8>)
        ensures
            decodes_to(
                encode_items(self.items()) + rest,
                UnlinkabilityPublicInputsV2::layout(),
                self.items(),
            ),
    {
        self.lemma_items();
        lemma_parse_encoded(self.items(), rest);
    }
}

} // verus!
