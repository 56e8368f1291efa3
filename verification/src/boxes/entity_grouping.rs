//! Entity grouping (ISO/IEC 14496-12 - 8.18).

use vstd::prelude::*;

use crate::codec::{
    be_u24_at, be_u32_at, lemma_append_prefix, lemma_u24_at, lemma_u32_at, read_u24_at, read_u32_at,
    u24_bytes, u32_bytes, write_u24, write_u32, write_u8, IsoError, SpecParse,
};
use crate::frame::{add_header_size, add_header_size_exec, BoxBody};
use crate::header::{spec_uuid_fourcc, FullBoxHeader};
use crate::wire::{
    lemma_count_roundtrip, lemma_parse_count_len, lemma_ser_seq_fixed, parse_count, parse_counted, ser_seq,
    serialize_all, views, IsoSized, Wire,
};

verus! {

/// A group of entities (items or tracks).
///
/// ISO/IEC 14496-12 - 8.18.3
#[derive(Debug, PartialEq, Eq)]
pub struct EntityToGroupBox {
    /// The identifier of the group.
    pub group_id: u32,
    /// The number of entities in the group.
    pub num_entities_in_group: u32,
    /// The entities, each an item or a track.
    pub entity_id: Vec<u32>,
}

/// The model of an [`EntityToGroupBox`].
pub struct EntityToGroupBoxModel {
    pub group_id: u32,
    pub num_entities_in_group: u32,
    pub entity_id: Seq<u32>,
}

impl View for EntityToGroupBox {
    type V = EntityToGroupBoxModel;

    open spec fn view(&self) -> EntityToGroupBoxModel {
        EntityToGroupBoxModel {
            group_id: self.group_id,
            num_entities_in_group: self.num_entities_in_group,
            entity_id: self.entity_id@,
        }
    }
}

impl IsoSized for EntityToGroupBox {
    open spec fn spec_size(&self) -> nat {
        8 + 4 * self.entity_id@.len()
    }

    fn size(&self) -> (n: usize) {
        8 + 4 * self.entity_id.len()
    }
}

impl Wire for EntityToGroupBox {
    /// The group, the count, then that many entities.
    open spec fn spec_parse(s: Seq<u8>) -> SpecParse<EntityToGroupBoxModel> {
        if s.len() < 8 {
            Err(IsoError::UnexpectedEof)
        } else {
            match parse_count::<u32>(s.skip(8), be_u32_at(s, 4) as nat) {
                Ok((ids, n)) => Ok(
                    (
                        EntityToGroupBoxModel {
                            group_id: be_u32_at(s, 0),
                            num_entities_in_group: be_u32_at(s, 4),
                            entity_id: ids,
                        },
                        8 + n,
                    ),
                ),
                Err(e) => Err(e),
            }
        }
    }

    open spec fn spec_writable(v: EntityToGroupBoxModel) -> bool {
        true
    }

    open spec fn spec_serialize(v: EntityToGroupBoxModel) -> Seq<u8> {
        u32_bytes(v.group_id) + u32_bytes(v.num_entities_in_group) + ser_seq::<u32>(v.entity_id)
    }

    /// The count is the number of entities.
    open spec fn spec_canonical(v: EntityToGroupBoxModel) -> bool {
        v.entity_id.len() == v.num_entities_in_group
    }

    proof fn lemma_parse_len(s: Seq<u8>) {
        if s.len() >= 8 {
            lemma_parse_count_len::<u32>(s.skip(8), be_u32_at(s, 4) as nat);
        }
    }

    proof fn lemma_size(x: EntityToGroupBox) {
        lemma_ser_seq_fixed::<u32>(x.entity_id@, 4);
    }

    proof fn lemma_roundtrip(v: EntityToGroupBoxModel, rest: Seq<u8>) {
        let ids = ser_seq::<u32>(v.entity_id);
        let s = Self::spec_serialize(v) + rest;
        assert(s.subrange(0, 4) =~= u32_bytes(v.group_id));
        lemma_u32_at(s, 0, v.group_id);
        assert(s.subrange(4, 8) =~= u32_bytes(v.num_entities_in_group));
        lemma_u32_at(s, 4, v.num_entities_in_group);
        assert(s.skip(8) =~= ids + rest);
        lemma_count_roundtrip::<u32>(v.entity_id, rest);
    }

    fn parse(data: &[u8], pos: usize) -> (r: Result<(EntityToGroupBox, usize), IsoError>) {
        if data.len() - pos < 8 {
            return Err(IsoError::UnexpectedEof);
        }
        let d = vstd::slice::slice_subrange(data, pos, data.len());
        proof {
            assert(d@ =~= data@.skip(pos as int));
        }
        let group_id = read_u32_at(d, 0);
        let num_entities_in_group = read_u32_at(d, 4);
        let (entity_id, end) = parse_counted::<u32>(d, 8, num_entities_in_group as usize)?;
        proof {
            lemma_parse_count_len::<u32>(d@.skip(8), num_entities_in_group as nat);
            assert(entity_id@ =~= views(entity_id@));
        }
        Ok((EntityToGroupBox { group_id, num_entities_in_group, entity_id }, pos + end))
    }

    fn serialize(&self, out: &mut Vec<u8>) -> (r: Result<(), IsoError>) {
        let ghost before = out@;
        write_u32(out, self.group_id);
        write_u32(out, self.num_entities_in_group);
        proof {
            assert(self.entity_id@ =~= views(self.entity_id@));
        }
        let _ = serialize_all(&self.entity_id, out);
        proof {
            assert(out@ =~= before + Self::spec_serialize(self@));
            lemma_append_prefix(before, Self::spec_serialize(self@));
        }
        Ok(())
    }
}

/// Entity to group box of the type `altr`: entities that are alternatives to each other.
///
/// ISO/IEC 14496-12 - 8.18.3
#[derive(Debug, PartialEq, Eq)]
pub struct AltrEntityToGroupBox {
    /// The version and flags of the box.
    pub full_header: FullBoxHeader,
    /// The group.
    pub entity_to_group: EntityToGroupBox,
}

/// The model of an [`AltrEntityToGroupBox`].
pub struct AltrEntityToGroupBoxModel {
    pub full_header: FullBoxHeader,
    pub entity_to_group: EntityToGroupBoxModel,
}

impl View for AltrEntityToGroupBox {
    type V = AltrEntityToGroupBoxModel;

    open spec fn view(&self) -> AltrEntityToGroupBoxModel {
        AltrEntityToGroupBoxModel { full_header: self.full_header, entity_to_group: self.entity_to_group@ }
    }
}

impl IsoSized for AltrEntityToGroupBox {
    open spec fn spec_size(&self) -> nat {
        add_header_size(4 + self.entity_to_group.spec_size())
    }

    fn size(&self) -> (n: usize) {
        add_header_size_exec(4 + self.entity_to_group.size())
    }
}

impl BoxBody for AltrEntityToGroupBox {
    open spec fn spec_box_type() -> [u8; 4] {
        [0x61u8, 0x6cu8, 0x74u8, 0x72u8]
    }

    fn box_type() -> (r: [u8; 4]) {
        [0x61u8, 0x6cu8, 0x74u8, 0x72u8]
    }

    open spec fn spec_parse_body(s: Seq<u8>) -> Result<AltrEntityToGroupBoxModel, IsoError> {
        if s.len() < 4 {
            Err(IsoError::UnexpectedEof)
        } else {
            match EntityToGroupBox::spec_parse(s.skip(4)) {
                Ok((g, _)) => Ok(
                    AltrEntityToGroupBoxModel {
                        full_header: FullBoxHeader { version: s[0], flags: be_u24_at(s, 1) },
                        entity_to_group: g,
                    },
                ),
                Err(e) => Err(e),
            }
        }
    }

    open spec fn spec_writable(v: AltrEntityToGroupBoxModel) -> bool {
        true
    }

    open spec fn spec_serialize_body(v: AltrEntityToGroupBoxModel) -> Seq<u8> {
        seq![v.full_header.version] + u24_bytes(v.full_header.flags) + EntityToGroupBox::spec_serialize(
            v.entity_to_group,
        )
    }

    open spec fn spec_canonical(v: AltrEntityToGroupBoxModel) -> bool {
        v.full_header.flags < 0x100_0000 && EntityToGroupBox::spec_canonical(v.entity_to_group)
    }

    proof fn lemma_box_type() {
        assert(Self::spec_box_type()[0] != spec_uuid_fourcc()[0]);
    }

    proof fn lemma_body_size(x: AltrEntityToGroupBox) {
        EntityToGroupBox::lemma_size(x.entity_to_group);
    }

    proof fn lemma_body_roundtrip(v: AltrEntityToGroupBoxModel) {
        let s = Self::spec_serialize_body(v);
        assert(s.subrange(1, 4) =~= u24_bytes(v.full_header.flags));
        lemma_u24_at(s, 1, v.full_header.flags);
        let g = EntityToGroupBox::spec_serialize(v.entity_to_group);
        assert(s.skip(4) =~= g + Seq::<u8>::empty());
        EntityToGroupBox::lemma_roundtrip(v.entity_to_group, Seq::<u8>::empty());
    }

    fn parse_body(d: &[u8]) -> (r: Result<AltrEntityToGroupBox, IsoError>) {
        if d.len() < 4 {
            return Err(IsoError::UnexpectedEof);
        }
        let full_header = FullBoxHeader { version: d[0], flags: read_u24_at(d, 1) };
        let (entity_to_group, _end) = EntityToGroupBox::parse(d, 4)?;
        Ok(AltrEntityToGroupBox { full_header, entity_to_group })
    }

    fn serialize_body(&self, out: &mut Vec<u8>) -> (r: Result<(), IsoError>) {
        let ghost before = out@;
        write_u8(out, self.full_header.version);
        write_u24(out, self.full_header.flags);
        let _ = self.entity_to_group.serialize(out);
        proof {
            assert(out@ =~= before + Self::spec_serialize_body(self@));
            lemma_append_prefix(before, Self::spec_serialize_body(self@));
        }
        Ok(())
    }
}

} // verus!
