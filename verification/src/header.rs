//! The header that starts every box: its size and its type.

use vstd::prelude::*;

use crate::codec::{
    be_u128_at, be_u24_at, be_u32_at, be_u64_at, fourcc_at, fourcc_eq, lemma_append_prefix,
    lemma_fourcc_roundtrip, lemma_u128_roundtrip, lemma_u24_roundtrip, lemma_u32_roundtrip,
    lemma_u64_roundtrip, lemma_wide_bytes_len, lemma_wide_shift, read_fourcc_at, read_u128_at, read_u24_at, read_u32_at, read_u64_at,
    u128_bytes, u24_bytes, u32_bytes, u64_bytes, write_fourcc, write_u128, write_u24, write_u32,
    write_u64, write_u8, IsoError, SpecParse,
};
use crate::wire::{parse_matches, write_matches, IsoSized, Wire};

verus! {

/// The size field of a box header.
#[derive(Debug, Clone, Copy, PartialEq, Eq, Structural)]
pub enum BoxSize {
    /// A 32-bit size.
    Short(u32),
    /// A 64-bit size (the 32-bit field holds 1).
    Long(u64),
    /// The box extends to the end of the file (the 32-bit field holds 0).
    ToEnd,
}

impl BoxSize {
    /// The size in bytes, or `None` when the box extends to the end of the file.
    pub open spec fn spec_bytes(self) -> Option<usize> {
        match self {
            BoxSize::Short(s) => Some(s as usize),
            BoxSize::Long(s) => Some(s as usize),
            BoxSize::ToEnd => None,
        }
    }

    /// The size in bytes, or `None` when the box extends to the end of the file.
    pub fn size(&self) -> (r: Option<usize>)
        ensures
            r == self.spec_bytes(),
    {
        match self {
            BoxSize::Short(s) => Some(*s as usize),
            BoxSize::Long(s) => Some(*s as usize),
            BoxSize::ToEnd => None,
        }
    }

    /// The size field for a box of `value` bytes: long where the value does not fit in
    /// 32 bits or would read as one of the reserved values 0 and 1.
    pub open spec fn spec_from_usize(value: usize) -> BoxSize {
        if value > u32::MAX || value == 0 || value == 1 {
            BoxSize::Long(value as u64)
        } else {
            BoxSize::Short(value as u32)
        }
    }
}

impl BoxSize {
    /// The size field for a box of `value` bytes.
    pub fn for_total(value: usize) -> (r: BoxSize)
        ensures
            r == BoxSize::spec_from_usize(value),
    {
        if value > u32::MAX as usize || value == 0 || value == 1 {
            BoxSize::Long(value as u64)
        } else {
            BoxSize::Short(value as u32)
        }
    }
}

impl From<usize> for BoxSize {
    fn from(value: usize) -> (r: BoxSize) {
        BoxSize::for_total(value)
    }
}

impl vstd::std_specs::convert::FromSpecImpl<usize> for BoxSize {
    open spec fn obeys_from_spec() -> bool {
        true
    }

    open spec fn from_spec(v: usize) -> BoxSize {
        BoxSize::spec_from_usize(v)
    }
}

/// The four-character code that marks a box with a 16-byte user type.
pub open spec fn spec_uuid_fourcc() -> [u8; 4] {
    [0x75u8, 0x75u8, 0x69u8, 0x64u8]
}

pub fn uuid_fourcc() -> (r: [u8; 4])
    ensures
        r == spec_uuid_fourcc(),
{
    [0x75u8, 0x75u8, 0x69u8, 0x64u8]
}

/// The type of a box.
#[derive(Debug, Clone, Copy, PartialEq, Eq)]
pub enum BoxType {
    /// A four-character code.
    FourCc([u8; 4]),
    /// A 16-byte user type, held as the big-endian number of its bytes.
    Uuid(u128),
}

/// The last twelve bytes of the user type that stands for a four-character code,
/// as one big-endian number.
pub open spec fn fourcc_uuid_suffix() -> u128 {
    0x0011_0010_8000_00AA_0038_9B71u128
}

impl BoxType {
    pub fn is_four_cc(&self, four_cc: &[u8; 4]) -> (r: bool)
        ensures
            r == (*self == BoxType::FourCc(*four_cc)),
    {
        match self {
            BoxType::FourCc(b) => fourcc_eq(*b, *four_cc),
            BoxType::Uuid(_) => false,
        }
    }

    /// The user type that this box type stands for, as the big-endian number of its
    /// 16 bytes: a four-character code becomes its four bytes followed by the fixed
    /// suffix `00 11 00 10 80 00 00 AA 00 38 9B 71`.
    pub open spec fn spec_uuid(self) -> u128 {
        match self {
            BoxType::FourCc(b) => (be_u32_at(b@, 0) * 0x1_0000_0000_0000_0000_0000_0000
                + fourcc_uuid_suffix()) as u128,
            BoxType::Uuid(u) => u,
        }
    }

    pub fn to_uuid(&self) -> (r: u128)
        ensures
            r == self.spec_uuid(),
    {
        match self {
            BoxType::FourCc(b) => {
                let v = read_u32_at(b.as_slice(), 0) as u128;
                v * 0x1_0000_0000_0000_0000_0000_0000 + 0x0011_0010_8000_00AA_0038_9B71u128
            },
            BoxType::Uuid(u) => *u,
        }
    }
}

/// The header of a box.
#[derive(Debug, Clone, Copy, PartialEq, Eq)]
pub struct BoxHeader {
    pub size: BoxSize,
    pub box_type: BoxType,
}

impl View for BoxHeader {
    type V = BoxHeader;

    open spec fn view(&self) -> BoxHeader {
        *self
    }
}

impl BoxHeader {
    /// What the 32-bit size field holds.
    pub open spec fn size_field(self) -> u32 {
        match self.size {
            BoxSize::Short(s) => s,
            BoxSize::Long(_) => 1,
            BoxSize::ToEnd => 0,
        }
    }

    /// The number of bytes of the header itself.
    pub open spec fn header_len(self) -> nat {
        8 + (if self.size is Long { 8nat } else { 0 }) + (if self.box_type is Uuid { 16nat } else { 0 })
    }

    /// The number of payload bytes that the size announces, or `None` for a box that
    /// runs to the end of the file; a size smaller than the header gives 0.
    pub open spec fn spec_payload_size(self) -> Option<usize> {
        match self.size.spec_bytes() {
            Some(s) => Some(if s >= self.header_len() { (s - self.header_len()) as usize } else { 0 }),
            None => None,
        }
    }

    pub fn payload_size(&self) -> (r: Option<usize>)
        ensures
            r == self.spec_payload_size(),
    {
        let header_size = self.size();
        match self.size.size() {
            Some(s) => Some(s.saturating_sub(header_size)),
            None => None,
        }
    }
}

impl IsoSized for BoxHeader {
    open spec fn spec_size(&self) -> nat {
        self.header_len()
    }

    fn size(&self) -> (n: usize) {
        let mut size: usize = 4 + 4;
        if let BoxSize::Long(_) = self.size {
            size = size + 8;
        }
        if let BoxType::Uuid(_) = self.box_type {
            size = size + 16;
        }
        size
    }
}

impl Wire for BoxHeader {
    open spec fn spec_parse(s: Seq<u8>) -> SpecParse<BoxHeader> {
        if s.len() < 8 {
            Err(IsoError::UnexpectedEof)
        } else if be_u32_at(s, 0) == 1 && s.len() < 16 {
            Err(IsoError::UnexpectedEof)
        } else {
            let raw = be_u32_at(s, 0);
            let size = if raw == 0 {
                BoxSize::ToEnd
            } else if raw == 1 {
                BoxSize::Long(be_u64_at(s, 8))
            } else {
                BoxSize::Short(raw)
            };
            let n: int = if raw == 1 { 16 } else { 8 };
            if fourcc_at(s, 4) == spec_uuid_fourcc() {
                if s.len() < n + 16 {
                    Err(IsoError::UnexpectedEof)
                } else {
                    Ok((BoxHeader { size, box_type: BoxType::Uuid(be_u128_at(s, n)) }, n + 16))
                }
            } else {
                Ok((BoxHeader { size, box_type: BoxType::FourCc(fourcc_at(s, 4)) }, n))
            }
        }
    }

    open spec fn spec_writable(v: BoxHeader) -> bool {
        true
    }

    open spec fn spec_serialize(v: BoxHeader) -> Seq<u8> {
        u32_bytes(v.size_field()) + match v.box_type {
            BoxType::FourCc(b) => b@,
            BoxType::Uuid(_) => spec_uuid_fourcc()@,
        } + match v.size {
            BoxSize::Long(l) => u64_bytes(l),
            _ => Seq::empty(),
        } + match v.box_type {
            BoxType::Uuid(u) => u128_bytes(u),
            _ => Seq::empty(),
        }
    }

    /// The 32-bit size does not hold one of the reserved values, and a four-character
    /// type is not the one that announces a user type.
    open spec fn spec_canonical(v: BoxHeader) -> bool {
        &&& (v.size matches BoxSize::Short(s) ==> s >= 2)
        &&& (v.box_type matches BoxType::FourCc(b) ==> b != spec_uuid_fourcc())
    }

    proof fn lemma_parse_len(s: Seq<u8>) {
    }

    proof fn lemma_size(x: BoxHeader) {
        lemma_wide_bytes_len(0, 0);
        if let BoxSize::Long(l) = x.size {
            lemma_wide_bytes_len(l, 0);
        }
        if let BoxType::Uuid(u) = x.box_type {
            lemma_wide_bytes_len(0, u);
        }
    }

    #[verifier::spinoff_prover]
    #[verifier::rlimit(30)]
    proof fn lemma_roundtrip(v: BoxHeader, rest: Seq<u8>) {
        let tag = match v.box_type {
            BoxType::FourCc(b) => b,
            BoxType::Uuid(_) => spec_uuid_fourcc(),
        };
        let long = match v.size {
            BoxSize::Long(l) => u64_bytes(l),
            _ => Seq::empty(),
        };
        let user = match v.box_type {
            BoxType::Uuid(u) => u128_bytes(u),
            _ => Seq::empty(),
        };
        let ser = Self::spec_serialize(v);
        let s = ser + rest;
        if let BoxSize::Long(l) = v.size {
            lemma_wide_bytes_len(l, 0);
        }
        if let BoxType::Uuid(u) = v.box_type {
            lemma_wide_bytes_len(0, u);
        }
        assert(s =~= u32_bytes(v.size_field()) + (tag@ + (long + (user + rest))));
        lemma_u32_roundtrip(v.size_field(), tag@ + (long + (user + rest)));
        lemma_fourcc_roundtrip(tag, long + (user + rest));
        assert(fourcc_at(s, 4) == fourcc_at(s.skip(4), 0));
        if let BoxSize::Long(l) = v.size {
            lemma_u64_roundtrip(l, user + rest);
            assert(s.skip(8) =~= long + (user + rest));
            lemma_wide_shift(s, 8, 0);
        }
        let n: int = if v.size is Long { 16 } else { 8 };
        assert(s.skip(n) =~= user + rest);
        if let BoxType::Uuid(u) = v.box_type {
            lemma_u128_roundtrip(u, rest);
            lemma_wide_shift(s, n, 0);
        }
    }

    #[verifier::rlimit(40)]
    fn parse(data: &[u8], pos: usize) -> (r: Result<(BoxHeader, usize), IsoError>) {
        let avail = data.len() - pos;
        if avail < 8 {
            return Err(IsoError::UnexpectedEof);
        }
        let raw = read_u32_at(data, pos);
        if raw == 1 && avail < 16 {
            return Err(IsoError::UnexpectedEof);
        }
        let size = if raw == 0 {
            BoxSize::ToEnd
        } else if raw == 1 {
            BoxSize::Long(read_u64_at(data, pos + 8))
        } else {
            BoxSize::Short(raw)
        };
        let n: usize = if raw == 1 { 16 } else { 8 };
        let tag = read_fourcc_at(data, pos + 4);
        proof {
            let s = data@.skip(pos as int);
            assert(be_u32_at(s, 0) == raw);
            assert(fourcc_at(s, 4) == tag);
            lemma_wide_shift(data@, pos as int, 8);
        }
        if fourcc_eq(tag, uuid_fourcc()) {
            if avail < n + 16 {
                return Err(IsoError::UnexpectedEof);
            }
            let u = read_u128_at(data, pos + n);
            proof {
                lemma_wide_shift(data@, pos as int, n as int);
            }
            Ok((BoxHeader { size, box_type: BoxType::Uuid(u) }, pos + n + 16))
        } else {
            Ok((BoxHeader { size, box_type: BoxType::FourCc(tag) }, pos + n))
        }
    }

    fn serialize(&self, out: &mut Vec<u8>) -> (r: Result<(), IsoError>) {
        let size_field: u32 = match self.size {
            BoxSize::Short(s) => s,
            BoxSize::Long(_) => 1,
            BoxSize::ToEnd => 0,
        };
        write_u32(out, size_field);
        match self.box_type {
            BoxType::FourCc(b) => write_fourcc(out, b),
            BoxType::Uuid(_) => write_fourcc(out, uuid_fourcc()),
        }
        if let BoxSize::Long(l) = self.size {
            write_u64(out, l);
        }
        if let BoxType::Uuid(u) = self.box_type {
            write_u128(out, u);
        }
        proof {
            assert(final(out)@ =~= old(out)@ + Self::spec_serialize(self@));
            lemma_append_prefix(old(out)@, Self::spec_serialize(self@));
        }
        Ok(())
    }
}

/// The version and flags that follow the header of a full box.
#[derive(Debug, Clone, Copy, PartialEq, Eq, Structural, Default)]
pub struct FullBoxHeader {
    pub version: u8,
    /// 24 bits of flags.
    pub flags: u32,
}

impl View for FullBoxHeader {
    type V = FullBoxHeader;

    open spec fn view(&self) -> FullBoxHeader {
        *self
    }
}

impl IsoSized for FullBoxHeader {
    open spec fn spec_size(&self) -> nat {
        4
    }

    fn size(&self) -> (n: usize) {
        1 + 3
    }
}

impl Wire for FullBoxHeader {
    open spec fn spec_parse(s: Seq<u8>) -> SpecParse<FullBoxHeader> {
        if s.len() < 4 {
            Err(IsoError::UnexpectedEof)
        } else {
            Ok((FullBoxHeader { version: s[0], flags: be_u24_at(s, 1) }, 4))
        }
    }

    open spec fn spec_writable(v: FullBoxHeader) -> bool {
        true
    }

    open spec fn spec_serialize(v: FullBoxHeader) -> Seq<u8> {
        seq![v.version] + u24_bytes(v.flags)
    }

    /// The flags fit in 24 bits.
    open spec fn spec_canonical(v: FullBoxHeader) -> bool {
        v.flags < 0x100_0000
    }

    proof fn lemma_parse_len(s: Seq<u8>) {
    }

    proof fn lemma_size(x: FullBoxHeader) {
    }

    proof fn lemma_roundtrip(v: FullBoxHeader, rest: Seq<u8>) {
        let s = Self::spec_serialize(v) + rest;
        assert(s =~= seq![v.version] + (u24_bytes(v.flags) + rest));
        lemma_u24_roundtrip(v.flags, rest);
        assert(s.skip(1) =~= u24_bytes(v.flags) + rest);
        assert(be_u24_at(s, 1) == be_u24_at(s.skip(1), 0));
    }

    fn parse(data: &[u8], pos: usize) -> (r: Result<(FullBoxHeader, usize), IsoError>) {
        if data.len() - pos < 4 {
            Err(IsoError::UnexpectedEof)
        } else {
            let version = data[pos];
            let flags = read_u24_at(data, pos + 1);
            Ok((FullBoxHeader { version, flags }, pos + 4))
        }
    }

    fn serialize(&self, out: &mut Vec<u8>) -> (r: Result<(), IsoError>) {
        write_u8(out, self.version);
        write_u24(out, self.flags);
        proof {
            assert(final(out)@ =~= old(out)@ + Self::spec_serialize(self@));
            lemma_append_prefix(old(out)@, Self::spec_serialize(self@));
        }
        Ok(())
    }
}

} // verus!
