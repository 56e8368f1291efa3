//! Scheme type boxes of protected and restricted streams (ISO/IEC 14496-12 - 8.12.6, 8.15.5).

use vstd::prelude::*;

use crate::codec::{
    be_u24_at, be_u32_at, fourcc_at, lemma_append_prefix, lemma_fourcc_at, lemma_u24_at, lemma_u32_at,
    read_fourcc_at, read_u24_at, read_u32_at, u24_bytes, u32_bytes, write_fourcc, write_u24, write_u32,
    write_u8, IsoError,
};
use crate::common_types::Utf8String;
use crate::frame::{add_header_size, add_header_size_exec, BoxBody};
use crate::header::{spec_uuid_fourcc, FullBoxHeader};
use crate::wire::{IsoSized, Wire};

verus! {

/// Whether the flags of a scheme type box announce a URI (bit 0).
pub open spec fn scheme_uri_present(flags: u32) -> bool {
    flags % 2 == 1
}


/// Scheme type box
///
/// ISO/IEC 14496-12 - 8.12.6
#[derive(Debug)]
pub struct SchemeTypeBox {
    /// The full box header; bit 0 of the flags announces the URI.
    pub full_header: FullBoxHeader,
    /// The code of the protection or restriction scheme.
    pub scheme_type: [u8; 4],
    /// The version of the scheme.
    pub scheme_version: u32,
    /// A URI where the user can find the scheme.
    pub scheme_uri: Option<Utf8String>,
}

/// The model of a [`SchemeTypeBox`].
pub struct SchemeTypeBoxModel {
    pub full_header: FullBoxHeader,
    pub scheme_type: [u8; 4],
    pub scheme_version: u32,
    pub scheme_uri: Option<Seq<char>>,
}

impl View for SchemeTypeBox {
    type V = SchemeTypeBoxModel;

    open spec fn view(&self) -> SchemeTypeBoxModel {
        SchemeTypeBoxModel {
            full_header: self.full_header,
            scheme_type: self.scheme_type,
            scheme_version: self.scheme_version,
            scheme_uri: match self.scheme_uri {
                Some(u) => Some(u@),
                None => None,
            },
        }
    }
}

impl IsoSized for SchemeTypeBox {
    /// The fields that are present.
    open spec fn spec_size(&self) -> nat {
        add_header_size(
            12 + match self.scheme_uri {
                Some(u) => u.spec_size(),
                None => 0,
            },
        )
    }

    fn size(&self) -> (n: usize) {
        let u = match &self.scheme_uri {
            Some(u) => u.size(),
            None => 0,
        };
        add_header_size_exec(12 + u)
    }
}

impl BoxBody for SchemeTypeBox {
    open spec fn spec_box_type() -> [u8; 4] {
        [0x73u8, 0x63u8, 0x68u8, 0x6du8]
    }

    fn box_type() -> (r: [u8; 4]) {
        [0x73u8, 0x63u8, 0x68u8, 0x6du8]
    }

    /// The full header, the scheme type and version, then the URI where the flags
    /// announce it.
    open spec fn spec_parse_body(s: Seq<u8>) -> Result<SchemeTypeBoxModel, IsoError> {
        if s.len() < 12 {
            Err(IsoError::UnexpectedEof)
        } else {
            let flags = be_u24_at(s, 1);
            let uri = if scheme_uri_present(flags) {
                match Utf8String::spec_parse(s.skip(12)) {
                    Ok((u, _)) => Ok(Some(u)),
                    Err(e) => Err(e),
                }
            } else {
                Ok(None)
            };
            match uri {
                Ok(u) => Ok(
                    SchemeTypeBoxModel {
                        full_header: FullBoxHeader { version: s[0], flags },
                        scheme_type: fourcc_at(s, 4),
                        scheme_version: be_u32_at(s, 8),
                        scheme_uri: u,
                    },
                ),
                Err(e) => Err(e),
            }
        }
    }

    /// The URI where the flags announce it.
    open spec fn spec_writable(v: SchemeTypeBoxModel) -> bool {
        scheme_uri_present(v.full_header.flags) ==> v.scheme_uri is Some
    }

    open spec fn spec_serialize_body(v: SchemeTypeBoxModel) -> Seq<u8> {
        seq![v.full_header.version] + u24_bytes(v.full_header.flags) + v.scheme_type@ + u32_bytes(v.scheme_version) + if scheme_uri_present(
            v.full_header.flags,
        ) {
            Utf8String::spec_serialize(v.scheme_uri.unwrap())
        } else {
            Seq::empty()
        }
    }

    /// The URI is present exactly where the flags announce it, and holds no zero byte.
    open spec fn spec_canonical(v: SchemeTypeBoxModel) -> bool {
        &&& v.full_header.flags < 0x100_0000
        &&& scheme_uri_present(v.full_header.flags) == v.scheme_uri is Some
        &&& v.scheme_uri matches Some(u) ==> Utf8String::spec_canonical(u)
    }

    proof fn lemma_box_type() {
        assert(Self::spec_box_type()[0] != spec_uuid_fourcc()[0]);
    }

    proof fn lemma_body_size(x: SchemeTypeBox) {
        if let Some(u) = x.scheme_uri {
            Utf8String::lemma_size(u);
        }
    }

    proof fn lemma_body_roundtrip(v: SchemeTypeBoxModel) {
        let s = Self::spec_serialize_body(v);
        assert(s.subrange(1, 4) =~= u24_bytes(v.full_header.flags));
        lemma_u24_at(s, 1, v.full_header.flags);
        assert(s.subrange(4, 8) =~= v.scheme_type@);
        lemma_fourcc_at(s, 4, v.scheme_type);
        assert(s.subrange(8, 12) =~= u32_bytes(v.scheme_version));
        lemma_u32_at(s, 8, v.scheme_version);
        if let Some(u) = v.scheme_uri {
            assert(s.skip(12) =~= Utf8String::spec_serialize(u) + Seq::<u8>::empty());
            Utf8String::lemma_roundtrip(u, Seq::<u8>::empty());
        }
    }

    fn parse_body(d: &[u8]) -> (r: Result<SchemeTypeBox, IsoError>) {
        if d.len() < 12 {
            return Err(IsoError::UnexpectedEof);
        }
        let flags = read_u24_at(d, 1);
        let scheme_uri = if flags % 2 == 1 {
            let (u, _p) = Utf8String::parse(d, 12)?;
            Some(u)
        } else {
            None
        };
        Ok(
            SchemeTypeBox {
                full_header: FullBoxHeader { version: d[0], flags },
                scheme_type: read_fourcc_at(d, 4),
                scheme_version: read_u32_at(d, 8),
                scheme_uri,
            },
        )
    }

    fn serialize_body(&self, out: &mut Vec<u8>) -> (r: Result<(), IsoError>) {
        let flags = self.full_header.flags;
        proof {
            assert(out@.subrange(0, out@.len() as int) =~= out@);
        }
        if flags % 2 == 1 && self.scheme_uri.is_none() {
            return Err(IsoError::InvalidData);
        }
        let ghost before = out@;
        write_u8(out, self.full_header.version);
        write_u24(out, flags);
        write_fourcc(out, self.scheme_type);
        write_u32(out, self.scheme_version);
        if flags % 2 == 1 {
            match &self.scheme_uri {
                Some(u) => {
                    let _ = u.serialize(out);
                },
                None => {},
            }
        }
        proof {
            assert(out@ =~= before + Self::spec_serialize_body(self@));
            lemma_append_prefix(before, Self::spec_serialize_body(self@));
        }
        Ok(())
    }
}

/// Compatible scheme type box
///
/// ISO/IEC 14496-12 - 8.15.5
#[derive(Debug)]
pub struct CompatibleSchemeTypeBox {
    /// The full box header; bit 0 of the flags announces the URI.
    pub header: FullBoxHeader,
    /// The code of the protection or restriction scheme.
    pub scheme_type: [u8; 4],
    /// The version of the scheme.
    pub scheme_version: u32,
    /// A URI where the user can find the scheme.
    pub scheme_uri: Option<Utf8String>,
}

/// The model of a [`CompatibleSchemeTypeBox`].
pub struct CompatibleSchemeTypeBoxModel {
    pub header: FullBoxHeader,
    pub scheme_type: [u8; 4],
    pub scheme_version: u32,
    pub scheme_uri: Option<Seq<char>>,
}

impl View for CompatibleSchemeTypeBox {
    type V = CompatibleSchemeTypeBoxModel;

    open spec fn view(&self) -> CompatibleSchemeTypeBoxModel {
        CompatibleSchemeTypeBoxModel {
            header: self.header,
            scheme_type: self.scheme_type,
            scheme_version: self.scheme_version,
            scheme_uri: match self.scheme_uri {
                Some(u) => Some(u@),
                None => None,
            },
        }
    }
}

impl IsoSized for CompatibleSchemeTypeBox {
    /// The fields that are present.
    open spec fn spec_size(&self) -> nat {
        add_header_size(
            12 + match self.scheme_uri {
                Some(u) => u.spec_size(),
                None => 0,
            },
        )
    }

    fn size(&self) -> (n: usize) {
        let u = match &self.scheme_uri {
            Some(u) => u.size(),
            None => 0,
        };
        add_header_size_exec(12 + u)
    }
}

impl BoxBody for CompatibleSchemeTypeBox {
    open spec fn spec_box_type() -> [u8; 4] {
        [0x63u8, 0x73u8, 0x63u8, 0x68u8]
    }

    fn box_type() -> (r: [u8; 4]) {
        [0x63u8, 0x73u8, 0x63u8, 0x68u8]
    }

    /// The full header, the scheme type and version, then the URI where the flags
    /// announce it.
    open spec fn spec_parse_body(s: Seq<u8>) -> Result<CompatibleSchemeTypeBoxModel, IsoError> {
        if s.len() < 12 {
            Err(IsoError::UnexpectedEof)
        } else {
            let flags = be_u24_at(s, 1);
            let uri = if scheme_uri_present(flags) {
                match Utf8String::spec_parse(s.skip(12)) {
                    Ok((u, _)) => Ok(Some(u)),
                    Err(e) => Err(e),
                }
            } else {
                Ok(None)
            };
            match uri {
                Ok(u) => Ok(
                    CompatibleSchemeTypeBoxModel {
                        header: FullBoxHeader { version: s[0], flags },
                        scheme_type: fourcc_at(s, 4),
                        scheme_version: be_u32_at(s, 8),
                        scheme_uri: u,
                    },
                ),
                Err(e) => Err(e),
            }
        }
    }

    /// The URI where the flags announce it.
    open spec fn spec_writable(v: CompatibleSchemeTypeBoxModel) -> bool {
        scheme_uri_present(v.header.flags) ==> v.scheme_uri is Some
    }

    open spec fn spec_serialize_body(v: CompatibleSchemeTypeBoxModel) -> Seq<u8> {
        seq![v.header.version] + u24_bytes(v.header.flags) + v.scheme_type@ + u32_bytes(v.scheme_version) + if scheme_uri_present(
            v.header.flags,
        ) {
            Utf8String::spec_serialize(v.scheme_uri.unwrap())
        } else {
            Seq::empty()
        }
    }

    /// The URI is present exactly where the flags announce it, and holds no zero byte.
    open spec fn spec_canonical(v: CompatibleSchemeTypeBoxModel) -> bool {
        &&& v.header.flags < 0x100_0000
        &&& scheme_uri_present(v.header.flags) == v.scheme_uri is Some
        &&& v.scheme_uri matches Some(u) ==> Utf8String::spec_canonical(u)
    }

    proof fn lemma_box_type() {
        assert(Self::spec_box_type()[0] != spec_uuid_fourcc()[0]);
    }

    proof fn lemma_body_size(x: CompatibleSchemeTypeBox) {
        if let Some(u) = x.scheme_uri {
            Utf8String::lemma_size(u);
        }
    }

    proof fn lemma_body_roundtrip(v: CompatibleSchemeTypeBoxModel) {
        let s = Self::spec_serialize_body(v);
        assert(s.subrange(1, 4) =~= u24_bytes(v.header.flags));
        lemma_u24_at(s, 1, v.header.flags);
        assert(s.subrange(4, 8) =~= v.scheme_type@);
        lemma_fourcc_at(s, 4, v.scheme_type);
        assert(s.subrange(8, 12) =~= u32_bytes(v.scheme_version));
        lemma_u32_at(s, 8, v.scheme_version);
        if let Some(u) = v.scheme_uri {
            assert(s.skip(12) =~= Utf8String::spec_serialize(u) + Seq::<u8>::empty());
            Utf8String::lemma_roundtrip(u, Seq::<u8>::empty());
        }
    }

    fn parse_body(d: &[u8]) -> (r: Result<CompatibleSchemeTypeBox, IsoError>) {
        if d.len() < 12 {
            return Err(IsoError::UnexpectedEof);
        }
        let flags = read_u24_at(d, 1);
        let scheme_uri = if flags % 2 == 1 {
            let (u, _p) = Utf8String::parse(d, 12)?;
            Some(u)
        } else {
            None
        };
        Ok(
            CompatibleSchemeTypeBox {
                header: FullBoxHeader { version: d[0], flags },
                scheme_type: read_fourcc_at(d, 4),
                scheme_version: read_u32_at(d, 8),
                scheme_uri,
            },
        )
    }

    fn serialize_body(&self, out: &mut Vec<u8>) -> (r: Result<(), IsoError>) {
        let flags = self.header.flags;
        proof {
            assert(out@.subrange(0, out@.len() as int) =~= out@);
        }
        if flags % 2 == 1 && self.scheme_uri.is_none() {
            return Err(IsoError::InvalidData);
        }
        let ghost before = out@;
        write_u8(out, self.header.version);
        write_u24(out, flags);
        write_fourcc(out, self.scheme_type);
        write_u32(out, self.scheme_version);
        if flags % 2 == 1 {
            match &self.scheme_uri {
                Some(u) => {
                    let _ = u.serialize(out);
                },
                None => {},
            }
        }
        proof {
            assert(out@ =~= before + Self::spec_serialize_body(self@));
            lemma_append_prefix(before, Self::spec_serialize_body(self@));
        }
        Ok(())
    }
}


/// The scheme type box body (ISO/IEC 14496-12 - 8.12.6): after the version byte and three flag bytes, the scheme type in bytes 4..8, then the scheme version spelled by bytes 8..12.
pub proof fn lemma_scheme_type_layout(s: Seq<u8>)
    ensures
        s.len() < 12 ==> SchemeTypeBox::spec_parse_body(s) == Err::<SchemeTypeBoxModel, IsoError>(IsoError::UnexpectedEof),
        s.len() >= 12 ==> (SchemeTypeBox::spec_parse_body(s) matches Ok(h) ==> h.full_header.version == s[0] && h.full_header.flags == crate::codec::be_int(s, 1, 3) && h.scheme_version == crate::codec::be_int(s, 8, 4) && h.scheme_type@ == s.subrange(4, 8)),
{
    if s.len() >= 12 {
        crate::codec::lemma_be_int_u24(s, 1);
        crate::codec::lemma_be_int_u32(s, 8);
        broadcast use vstd::array::group_array_axioms;
        assert(fourcc_at(s, 4)@ =~= s.subrange(4, 8));
    }
}

} // verus!
