//! The descriptors of the MPEG-4 object description framework (ISO/IEC 14496-1 - 7.2).
//!
//! Every descriptor begins with a tag and the size of what follows, written in
//! groups of seven bits, most significant first, with the high bit set on every byte
//! but the last.

use vstd::prelude::*;

use crate::codec::{
    be_u16_at, be_u32_at, lemma_append_prefix, lemma_u16_at, lemma_u32_at, read_u16_at, read_u32_at, u16_bytes,
    u32_bytes, write_u16, write_u32, IsoError, SpecParse,
};
use crate::wire::{IsoSized, Wire};

verus! {

/// `128^k`.
pub open spec fn p128(k: nat) -> nat
    decreases k,
{
    if k == 0 {
        1
    } else {
        128 * p128((k - 1) as nat)
    }
}

/// The number of seven-bit groups that `v` takes: none for zero.
pub open spec fn vlq_len(v: nat) -> nat
    decreases v,
{
    if v == 0 {
        0
    } else {
        1 + vlq_len(v / 128)
    }
}

/// The `k` base-128 digits of `v`, most significant first.
pub open spec fn vlq_digits(v: nat, k: nat) -> Seq<u8> {
    Seq::new(k, |j: int| ((v / p128((k - 1 - j) as nat)) % 128) as u8)
}

/// Digits with the high bit set on every byte but the last.
pub open spec fn vlq_mark(d: Seq<u8>) -> Seq<u8> {
    Seq::new(d.len(), |j: int| if j < d.len() - 1 { (d[j] + 128) as u8 } else { d[j] })
}

/// The bytes that a size of `v` is written with.
pub open spec fn vlq_bytes(v: nat) -> Seq<u8> {
    vlq_mark(vlq_digits(v, vlq_len(v)))
}

/// The value of base-128 digits, most significant first.
pub open spec fn digits_value(d: Seq<u8>) -> nat
    decreases d.len(),
{
    if d.len() == 0 {
        0
    } else {
        (d[0] as nat) * p128((d.len() - 1) as nat) + digits_value(d.drop_first())
    }
}

/// Reading a size: each byte adds its seven low bits to the value, shifted left within
/// 32 bits, until a byte whose high bit is clear.
pub open spec fn vlq_parse(s: Seq<u8>, acc: u32) -> SpecParse<u32>
    decreases s.len(),
{
    if s.len() == 0 {
        Err(IsoError::UnexpectedEof)
    } else {
        let next = ((acc * 128 + s[0] % 128) % 0x1_0000_0000) as u32;
        if s[0] < 128 {
            Ok((next, 1))
        } else {
            match vlq_parse(s.skip(1), next) {
                Ok((v, n)) => Ok((v, n + 1)),
                Err(e) => Err(e),
            }
        }
    }
}

pub proof fn lemma_p128_pos(k: nat)
    ensures
        p128(k) >= 1,
    decreases k,
{
    if k > 0 {
        lemma_p128_pos((k - 1) as nat);
    }
}

/// A value below `128^k` takes at most `k` groups, and every value is below
/// `128^vlq_len(v)`.
pub proof fn lemma_vlq_len_bound(v: nat, k: nat)
    ensures
        v < p128(vlq_len(v)),
        v < p128(k) ==> vlq_len(v) <= k,
    decreases v,
{
    if v > 0 {
        lemma_vlq_len_bound(v / 128, (k - 1) as nat);
        if v < p128(k) {
            assert(k > 0);
        }
    }
}

/// The digits of `v` are worth `v` modulo `128^k`.
pub proof fn lemma_digits_value(v: nat, k: nat)
    ensures
        digits_value(vlq_digits(v, k)) == v % p128(k),
        forall|j: int| 0 <= j < k ==> #[trigger] vlq_digits(v, k)[j] < 128,
    decreases k,
{
    lemma_p128_pos(k);
    if k == 0 {
        assert(v % 1 == 0);
    } else {
        let d = vlq_digits(v, k);
        let p = p128((k - 1) as nat);
        lemma_p128_pos((k - 1) as nat);
        assert(d.drop_first() =~= vlq_digits(v, (k - 1) as nat));
        lemma_digits_value(v, (k - 1) as nat);
        assert(d[0] == ((v / p) % 128) as u8);
        vstd::arithmetic::div_mod::lemma_mod_breakdown(v as int, p as int, 128);
        assert(p * 128 == p128(k));
    }
}

pub proof fn lemma_vlq_parse_len(s: Seq<u8>, acc: u32)
    ensures
        vlq_parse(s, acc) matches Ok((v, n)) ==> 0 < n <= s.len(),
    decreases s.len(),
{
    if s.len() > 0 {
        let next = ((acc * 128 + s[0] % 128) % 0x1_0000_0000) as u32;
        lemma_vlq_parse_len(s.skip(1), next);
    }
}

/// Reading marked digits gives the accumulated value, when it fits in 32 bits.
pub proof fn lemma_vlq_parse_marked(d: Seq<u8>, acc: u32, rest: Seq<u8>)
    requires
        d.len() >= 1,
        forall|j: int| 0 <= j < d.len() ==> #[trigger] d[j] < 128,
        acc * p128(d.len()) + digits_value(d) < 0x1_0000_0000,
    ensures
        vlq_parse(vlq_mark(d) + rest, acc) == Ok::<(u32, int), IsoError>(
            ((acc * p128(d.len()) + digits_value(d)) as u32, d.len() as int),
        ),
    decreases d.len(),
{
    let n = d.len();
    let s = vlq_mark(d) + rest;
    let d0 = d[0];
    let p = p128((n - 1) as nat);
    lemma_p128_pos((n - 1) as nat);
    assert(p128(n) == 128 * p);
    let next_val = acc * 128 + d0;
    assert(next_val * p == acc * p128(n) + d0 * p) by (nonlinear_arith)
        requires
            next_val == acc * 128 + d0,
            p128(n) == 128 * p,
    ;
    assert(next_val <= next_val * p) by (nonlinear_arith)
        requires
            p >= 1,
            next_val >= 0,
    ;
    assert(digits_value(d) == d0 * p + digits_value(d.drop_first()));
    assert(next_val < 0x1_0000_0000);
    vstd::arithmetic::div_mod::lemma_small_mod(next_val as nat, 0x1_0000_0000);
    if n == 1 {
        assert(s[0] == d0);
        assert(s[0] % 128 == d0);
        assert(d.drop_first().len() == 0);
        assert(digits_value(d.drop_first()) == 0);
        assert(p == 1);
        assert(p128(n) == 128);
        assert(acc * p128(n) == acc * 128);
        assert(d0 * p == d0) by (nonlinear_arith)
            requires
                p == 1,
        ;
        assert(digits_value(d) == d0);
    } else {
        assert(s[0] == (d0 + 128) as u8);
        assert(((d0 + 128) as u8) % 128 == d0);
        let tail = d.drop_first();
        assert(vlq_mark(d).drop_first() =~= vlq_mark(tail));
        assert(s.skip(1) =~= vlq_mark(tail) + rest);
        assert forall|j: int| 0 <= j < tail.len() implies #[trigger] tail[j] < 128 by {
            assert(tail[j] == d[j + 1]);
        }
        assert(s[0] % 128 == d0);
        assert(s[0] >= 128);
        lemma_vlq_parse_marked(tail, next_val as u32, rest);
        assert(next_val * p + digits_value(tail) == acc * p128(n) + digits_value(d));
    }
}

/// A written size reads back as itself.
pub proof fn lemma_vlq_roundtrip(v: u32, rest: Seq<u8>)
    requires
        v > 0,
    ensures
        vlq_parse(vlq_bytes(v as nat) + rest, 0) == Ok::<(u32, int), IsoError>(
            (v, vlq_len(v as nat) as int),
        ),
{
    let k = vlq_len(v as nat);
    lemma_vlq_len_bound(v as nat, k);
    lemma_digits_value(v as nat, k);
    vstd::arithmetic::div_mod::lemma_small_mod(v as nat, p128(k));
    assert(k >= 1);
    lemma_vlq_parse_marked(vlq_digits(v as nat, k), 0, rest);
}

/// The number of seven-bit groups of a 32-bit value: at most five.
pub fn vlq_len_exec(v: u32) -> (k: usize)
    ensures
        k == vlq_len(v as nat),
        k <= 5,
{
    proof {
        assert(p128(5) == 0x8_0000_0000) by {
            reveal_with_fuel(p128, 6);
        }
        lemma_vlq_len_bound(v as nat, 5);
    }
    let mut k: usize = 0;
    let mut x = v;
    while x > 0
        invariant
            k + vlq_len(x as nat) == vlq_len(v as nat),
            vlq_len(v as nat) <= 5,
        decreases x,
    {
        x = x / 128;
        k = k + 1;
    }
    k
}

/// Writes a size in seven-bit groups.
pub fn write_vlq(out: &mut Vec<u8>, v: u32)
    ensures
        final(out)@ == old(out)@ + vlq_bytes(v as nat),
{
    let ghost before = out@;
    let k = vlq_len_exec(v);
    let ghost d = vlq_digits(v as nat, k as nat);
    if k == 0 {
        assert(vlq_bytes(v as nat) =~= Seq::<u8>::empty());
        assert(out@ =~= before + vlq_bytes(v as nat));
        return;
    }
    let mut p: u32 = 1;
    let mut i: usize = 1;
    while i < k
        invariant
            1 <= i <= k <= 5,
            p == p128((i - 1) as nat),
        decreases k - i,
    {
        proof {
            assert(p128(i as nat) == 128 * p128((i - 1) as nat));
            assert(p <= 0x20_0000) by {
                lemma_p128_mono((i - 1) as nat, 3);
                assert(p128(3) == 0x20_0000) by {
                    reveal_with_fuel(p128, 4);
                }
            }
        }
        p = p * 128;
        i = i + 1;
    }
    let mut j: usize = 0;
    while j < k
        invariant
            j <= k <= 5,
            k == vlq_len(v as nat),
            d == vlq_digits(v as nat, k as nat),
            j < k ==> p == p128((k - 1 - j) as nat),
            out@ == before + vlq_mark(d).take(j as int),
        decreases k - j,
    {
        proof {
            lemma_p128_pos((k - 1 - j) as nat);
        }
        let digit = ((v / p) % 128) as u8;
        let byte = if j + 1 < k { digit + 128 } else { digit };
        out.push(byte);
        proof {
            assert(vlq_mark(d)[j as int] == byte);
            assert(out@ =~= before + vlq_mark(d).take(j + 1));
        }
        if j + 1 < k {
            proof {
                assert(p128((k - 1 - j) as nat) == 128 * p128((k - 2 - j) as nat));
            }
            p = p / 128;
        }
        j = j + 1;
    }
    assert(vlq_mark(d).take(j as int) =~= vlq_bytes(v as nat));
}

pub proof fn lemma_p128_mono(a: nat, b: nat)
    requires
        a <= b,
    ensures
        p128(a) <= p128(b),
    decreases b,
{
    if a < b {
        lemma_p128_mono(a, (b - 1) as nat);
        lemma_p128_pos((b - 1) as nat);
    }
}

/// What one byte does to the value of a size being read.
pub proof fn lemma_vlq_step(acc: u32, b: u8)
    ensures
        ((acc << 7u32) | ((b & 0x7f) as u32)) == ((acc * 128 + b % 128) % 0x1_0000_0000) as u32,
        (b & 0x80 == 0) == (b < 128),
{
    assert(((acc << 7u32) | ((b & 0x7f) as u32)) == ((acc * 128 + b % 128) % 0x1_0000_0000) as u32)
        by (bit_vector);
    assert((b & 0x80 == 0) == (b < 128)) by (bit_vector);
}

/// Reads a size starting at `pos`.
pub fn read_vlq(data: &[u8], pos: usize) -> (r: Result<(u32, usize), IsoError>)
    requires
        pos <= data@.len(),
    ensures
        crate::wire::parse_matches(r, vlq_parse(data@.skip(pos as int), 0), pos),
{
    let ghost t = vlq_parse(data@.skip(pos as int), 0);
    let mut acc: u32 = 0;
    let mut i: usize = pos;
    assert(data@.skip(pos as int) =~= data@.skip(i as int));
    loop
        invariant
            pos <= i <= data@.len(),
            t == vlq_parse(data@.skip(pos as int), 0),
            t == match vlq_parse(data@.skip(i as int), acc) {
                Ok((v, n)) => Ok::<(u32, int), IsoError>((v, n + (i - pos))),
                Err(e) => Err(e),
            },
        decreases data@.len() - i,
    {
        if i >= data.len() {
            return Err(IsoError::UnexpectedEof);
        }
        let b = data[i];
        proof {
            lemma_vlq_step(acc, b);
            assert(data@.skip(i as int)[0] == b);
            assert(data@.skip(i as int).skip(1) =~= data@.skip(i + 1));
        }
        acc = (acc << 7u32) | ((b & 0x7f) as u32);
        i = i + 1;
        if b & 0x80 == 0 {
            return Ok((acc, i));
        }
    }
}

/// The tag of a descriptor.
#[derive(Debug, Clone, Copy, PartialEq, Eq, Structural)]
pub struct DescriptorTag(pub u8);

/// The tag of the sync layer configuration descriptor.
pub const SL_CONFIG_DESCR_TAG: u8 = 0x06;

/// The tag of the profile and level indication index descriptor.
pub const PROFILE_LEVEL_INDICATION_INDEX_DESCR_TAG: u8 = 0x14;

/// The fields that every descriptor begins with.
///
/// ISO/IEC 14496-1 - 7.2.2.2
#[derive(Debug, Clone, Copy, PartialEq, Eq, Structural)]
pub struct BaseDescriptor {
    /// The tag of the descriptor.
    pub tag: DescriptorTag,
    /// The number of bytes of the descriptor after this field.
    pub size_of_instance: u32,
}

impl View for BaseDescriptor {
    type V = BaseDescriptor;

    open spec fn view(&self) -> BaseDescriptor {
        *self
    }
}

impl IsoSized for BaseDescriptor {
    open spec fn spec_size(&self) -> nat {
        1 + vlq_len(self.size_of_instance as nat)
    }

    fn size(&self) -> (n: usize) {
        1 + vlq_len_exec(self.size_of_instance)
    }
}

impl Wire for BaseDescriptor {
    /// The tag, then the size in seven-bit groups.
    open spec fn spec_parse(s: Seq<u8>) -> SpecParse<BaseDescriptor> {
        if s.len() < 1 {
            Err(IsoError::UnexpectedEof)
        } else {
            match vlq_parse(s.skip(1), 0) {
                Ok((v, n)) => Ok((BaseDescriptor { tag: DescriptorTag(s[0]), size_of_instance: v }, 1 + n)),
                Err(e) => Err(e),
            }
        }
    }

    open spec fn spec_writable(v: BaseDescriptor) -> bool {
        true
    }

    open spec fn spec_serialize(v: BaseDescriptor) -> Seq<u8> {
        seq![v.tag.0] + vlq_bytes(v.size_of_instance as nat)
    }

    /// A size of zero is written with no byte at all, which does not read back.
    open spec fn spec_canonical(v: BaseDescriptor) -> bool {
        v.size_of_instance > 0
    }

    proof fn lemma_parse_len(s: Seq<u8>) {
        if s.len() >= 1 {
            lemma_vlq_parse_len(s.skip(1), 0);
        }
    }

    proof fn lemma_size(x: BaseDescriptor) {
    }

    proof fn lemma_roundtrip(v: BaseDescriptor, rest: Seq<u8>) {
        let s = Self::spec_serialize(v) + rest;
        assert(s.skip(1) =~= vlq_bytes(v.size_of_instance as nat) + rest);
        lemma_vlq_roundtrip(v.size_of_instance, rest);
    }

    fn parse(data: &[u8], pos: usize) -> (r: Result<(BaseDescriptor, usize), IsoError>) {
        if data.len() - pos < 1 {
            return Err(IsoError::UnexpectedEof);
        }
        let tag = DescriptorTag(data[pos]);
        proof {
            assert(data@.skip(pos as int).skip(1) =~= data@.skip(pos + 1));
        }
        let (size_of_instance, p) = read_vlq(data, pos + 1)?;
        Ok((BaseDescriptor { tag, size_of_instance }, p))
    }

    fn serialize(&self, out: &mut Vec<u8>) -> (r: Result<(), IsoError>) {
        let ghost before = out@;
        out.push(self.tag.0);
        write_vlq(out, self.size_of_instance);
        proof {
            assert(out@ =~= before + Self::spec_serialize(self@));
            lemma_append_prefix(before, Self::spec_serialize(self@));
        }
        Ok(())
    }
}


/// Profile and level indication index descriptor
///
/// ISO/IEC 14496-1 - 7.2.6.20
#[derive(Debug, Clone, Copy, PartialEq, Eq, Structural)]
pub struct ProfileLevelIndicationIndexDescriptor {
    /// The identifier of a set of profile and level indications within the initial
    /// object descriptor.
    pub profile_level_indication_index: u8,
}

impl View for ProfileLevelIndicationIndexDescriptor {
    type V = ProfileLevelIndicationIndexDescriptor;

    open spec fn view(&self) -> ProfileLevelIndicationIndexDescriptor {
        *self
    }
}

impl ProfileLevelIndicationIndexDescriptor {
    /// The fields that the descriptor begins with: its tag and a size of one byte.
    pub fn base_descriptor(&self) -> (r: BaseDescriptor)
        ensures
            r == (BaseDescriptor {
                tag: DescriptorTag(PROFILE_LEVEL_INDICATION_INDEX_DESCR_TAG),
                size_of_instance: 1,
            }),
    {
        BaseDescriptor { tag: DescriptorTag(PROFILE_LEVEL_INDICATION_INDEX_DESCR_TAG), size_of_instance: 1 }
    }
}

impl IsoSized for ProfileLevelIndicationIndexDescriptor {
    open spec fn spec_size(&self) -> nat {
        3
    }

    fn size(&self) -> (n: usize) {
        proof {
            reveal_with_fuel(vlq_len, 2);
        }
        self.base_descriptor().size() + 1
    }
}

impl Wire for ProfileLevelIndicationIndexDescriptor {
    /// The base descriptor, then the index, which must lie within the size it gives.
    open spec fn spec_parse(s: Seq<u8>) -> SpecParse<ProfileLevelIndicationIndexDescriptor> {
        match BaseDescriptor::spec_parse(s) {
            Ok((b, h)) => if b.size_of_instance < 1 || s.len() < h + 1 {
                Err(IsoError::UnexpectedEof)
            } else {
                Ok((ProfileLevelIndicationIndexDescriptor { profile_level_indication_index: s[h] }, h + 1))
            },
            Err(e) => Err(e),
        }
    }

    open spec fn spec_writable(v: ProfileLevelIndicationIndexDescriptor) -> bool {
        true
    }

    open spec fn spec_serialize(v: ProfileLevelIndicationIndexDescriptor) -> Seq<u8> {
        BaseDescriptor::spec_serialize(
            BaseDescriptor { tag: DescriptorTag(PROFILE_LEVEL_INDICATION_INDEX_DESCR_TAG), size_of_instance: 1 },
        ) + seq![v.profile_level_indication_index]
    }

    open spec fn spec_canonical(v: ProfileLevelIndicationIndexDescriptor) -> bool {
        true
    }

    proof fn lemma_parse_len(s: Seq<u8>) {
        BaseDescriptor::lemma_parse_len(s);
    }

    proof fn lemma_size(x: ProfileLevelIndicationIndexDescriptor) {
        reveal_with_fuel(vlq_len, 2);
    }

    proof fn lemma_roundtrip(v: ProfileLevelIndicationIndexDescriptor, rest: Seq<u8>) {
        let b = BaseDescriptor { tag: DescriptorTag(PROFILE_LEVEL_INDICATION_INDEX_DESCR_TAG), size_of_instance: 1 };
        let bs = BaseDescriptor::spec_serialize(b);
        reveal_with_fuel(vlq_len, 2);
        BaseDescriptor::lemma_roundtrip(b, seq![v.profile_level_indication_index] + rest);
        assert(Self::spec_serialize(v) + rest =~= bs + (seq![v.profile_level_indication_index] + rest));
        assert((Self::spec_serialize(v) + rest)[2] == v.profile_level_indication_index);
    }

    fn parse(data: &[u8], pos: usize) -> (r: Result<(ProfileLevelIndicationIndexDescriptor, usize), IsoError>) {
        let (b, h) = BaseDescriptor::parse(data, pos)?;
        proof {
            BaseDescriptor::lemma_parse_len(data@.skip(pos as int));
        }
        if b.size_of_instance < 1 || h >= data.len() {
            return Err(IsoError::UnexpectedEof);
        }
        proof {
            assert(data@.skip(pos as int)[h - pos] == data@[h as int]);
        }
        Ok((ProfileLevelIndicationIndexDescriptor { profile_level_indication_index: data[h] }, h + 1))
    }

    fn serialize(&self, out: &mut Vec<u8>) -> (r: Result<(), IsoError>) {
        let ghost before = out@;
        let _ = self.base_descriptor().serialize(out);
        out.push(self.profile_level_indication_index);
        proof {
            assert(out@ =~= before + Self::spec_serialize(self@));
            lemma_append_prefix(before, Self::spec_serialize(self@));
        }
        Ok(())
    }
}

/// The constant durations of a sync layer configuration, present when its duration flag is set.
#[derive(Debug, Clone, Copy, PartialEq, Eq, Structural)]
pub struct SLConfigDescriptorDuration {
    /// The number of parts that a second is divided into.
    pub time_scale: u32,
    /// The duration of an access unit, in those parts.
    pub access_unit_duration: u16,
    /// The duration of a composition unit, in those parts.
    pub composition_unit_duration: u16,
}

impl View for SLConfigDescriptorDuration {
    type V = SLConfigDescriptorDuration;

    open spec fn view(&self) -> SLConfigDescriptorDuration {
        *self
    }
}

impl IsoSized for SLConfigDescriptorDuration {
    open spec fn spec_size(&self) -> nat {
        8
    }

    fn size(&self) -> (n: usize) {
        8
    }
}

impl Wire for SLConfigDescriptorDuration {
    open spec fn spec_parse(s: Seq<u8>) -> SpecParse<SLConfigDescriptorDuration> {
        if s.len() < 8 {
            Err(IsoError::UnexpectedEof)
        } else {
            Ok((SLConfigDescriptorDuration {
                time_scale: be_u32_at(s, 0),
                access_unit_duration: be_u16_at(s, 4),
                composition_unit_duration: be_u16_at(s, 6),
            }, 8))
        }
    }

    open spec fn spec_writable(v: SLConfigDescriptorDuration) -> bool {
        true
    }

    open spec fn spec_serialize(v: SLConfigDescriptorDuration) -> Seq<u8> {
        u32_bytes(v.time_scale) + u16_bytes(v.access_unit_duration) + u16_bytes(v.composition_unit_duration)
    }

    open spec fn spec_canonical(v: SLConfigDescriptorDuration) -> bool {
        true
    }

    proof fn lemma_parse_len(s: Seq<u8>) {
    }

    proof fn lemma_size(x: SLConfigDescriptorDuration) {
    }

    proof fn lemma_roundtrip(v: SLConfigDescriptorDuration, rest: Seq<u8>) {
        let s = Self::spec_serialize(v) + rest;
        assert(s.subrange(0, 4) =~= u32_bytes(v.time_scale));
        lemma_u32_at(s, 0, v.time_scale);
        assert(s.subrange(4, 6) =~= u16_bytes(v.access_unit_duration));
        lemma_u16_at(s, 4, v.access_unit_duration);
        assert(s.subrange(6, 8) =~= u16_bytes(v.composition_unit_duration));
        lemma_u16_at(s, 6, v.composition_unit_duration);
    }

    fn parse(data: &[u8], pos: usize) -> (r: Result<(SLConfigDescriptorDuration, usize), IsoError>) {
        if data.len() - pos < 8 {
            return Err(IsoError::UnexpectedEof);
        }
        let d = &data[pos..data.len()];
        proof {
            assert(d@ =~= data@.skip(pos as int));
        }
        let time_scale = read_u32_at(d, 0);
        let access_unit_duration = read_u16_at(d, 4);
        let composition_unit_duration = read_u16_at(d, 6);
        Ok((SLConfigDescriptorDuration { time_scale, access_unit_duration, composition_unit_duration }, pos + 8))
    }

    fn serialize(&self, out: &mut Vec<u8>) -> (r: Result<(), IsoError>) {
        let ghost before = out@;
        write_u32(out, self.time_scale);
        write_u16(out, self.access_unit_duration);
        write_u16(out, self.composition_unit_duration);
        proof {
            assert(out@ =~= before + Self::spec_serialize(self@));
            lemma_append_prefix(before, Self::spec_serialize(self@));
        }
        Ok(())
    }
}

/// The durations of a sync layer configuration are eight bytes: the time scale
/// spelled by the first four, big-endian, then the access unit duration spelled by
/// the next two and the composition unit duration by the last two. Fewer than eight
/// bytes are an unexpected end.
pub proof fn lemma_sl_duration_layout(s: Seq<u8>)
    ensures
        s.len() < 8 ==> SLConfigDescriptorDuration::spec_parse(s) == Err::<(SLConfigDescriptorDuration, int), IsoError>(
            IsoError::UnexpectedEof,
        ),
        s.len() >= 8 ==> (SLConfigDescriptorDuration::spec_parse(s) matches Ok((d, n)) && n == 8 && d.time_scale
            == crate::codec::be_int(s, 0, 4) && d.access_unit_duration == crate::codec::be_int(s, 4, 2)
            && d.composition_unit_duration == crate::codec::be_int(s, 6, 2)),
{
    if s.len() >= 8 {
        crate::codec::lemma_be_int_u32(s, 0);
        crate::codec::lemma_be_int_u16(s, 4);
        crate::codec::lemma_be_int_u16(s, 6);
    }
}

/// Writing the durations gives eight bytes: the first four spell the time scale,
/// the next two the access unit duration, the last two the composition unit duration.
pub proof fn lemma_sl_duration_bytes(d: SLConfigDescriptorDuration)
    ensures
        SLConfigDescriptorDuration::spec_serialize(d).len() == 8,
        crate::codec::be_int(SLConfigDescriptorDuration::spec_serialize(d), 0, 4) == d.time_scale,
        crate::codec::be_int(SLConfigDescriptorDuration::spec_serialize(d), 4, 2) == d.access_unit_duration,
        crate::codec::be_int(SLConfigDescriptorDuration::spec_serialize(d), 6, 2) == d.composition_unit_duration,
{
    let w = SLConfigDescriptorDuration::spec_serialize(d);
    assert(w.subrange(0, 4) =~= u32_bytes(d.time_scale));
    assert(w.subrange(4, 6) =~= u16_bytes(d.access_unit_duration));
    assert(w.subrange(6, 8) =~= u16_bytes(d.composition_unit_duration));
    crate::codec::lemma_be_int_u32_bytes(w, 0, d.time_scale);
    crate::codec::lemma_be_int_u16_bytes(w, 4, d.access_unit_duration);
    crate::codec::lemma_be_int_u16_bytes(w, 6, d.composition_unit_duration);
}

/// The start time stamps of a sync layer configuration, present when its time stamp
/// flag is set.
#[derive(Debug, Clone, Copy, PartialEq, Eq, Structural)]
pub struct SLConfigDescriptorTimeStamps {
    /// When the first access unit is decoded.
    pub start_decoding_time_stamp: u64,
    /// When the composition unit of the first access unit is composed.
    pub start_composition_time_stamp: u64,
}

impl SLConfigDescriptorTimeStamps {
    /// The number of bytes that the two time stamps fill when each is written with
    /// `time_stamp_length` bits: the bits of both, rounded up to whole bytes.
    pub fn size(&self, time_stamp_length: u8) -> (n: usize)
        ensures
            n == (2 * time_stamp_length + 7) / 8,
    {
        (time_stamp_length as usize * 2 + 7) / 8
    }
}

/// Whether the sync layer configuration is predefined (1) or custom (0).
#[derive(Debug, Clone, Copy, PartialEq, Eq, Structural)]
pub struct SLConfigDescriptorPredefined(pub u8);

/// The custom sync layer configuration.
#[derive(Debug, Clone, Copy, PartialEq, Eq, Structural)]
pub struct SLConfigDescriptorCustom {
    /// Whether packet headers hold an access unit start flag.
    pub use_access_unit_start_flag: bool,
    /// Whether packet headers hold an access unit end flag.
    pub use_access_unit_end_flag: bool,
    /// Whether packet headers hold a random access point flag.
    pub use_random_access_point_flag: bool,
    /// Whether every packet is a random access point.
    pub has_random_access_units_only_flag: bool,
    /// Whether packet headers hold a padding flag.
    pub use_padding_flag: bool,
    /// Whether time stamps synchronize the stream.
    pub use_time_stamps_flag: bool,
    /// Whether the idle flag is used.
    pub use_idle_flag: bool,
    /// Whether the durations follow.
    pub duration_flag: bool,
    /// Clock ticks per second of the time stamps.
    pub time_stamp_resolution: u32,
    /// Cycles per second of the object time base.
    pub ocr_resolution: u32,
    /// The length of the time stamps, at most 64.
    pub time_stamp_length: u8,
    /// The length of the object clock reference, at most 64.
    pub ocr_length: u8,
    /// The length of the access unit length fields, at most 32.
    pub au_length: u8,
    /// The length of the instant bitrate field.
    pub instant_bitrate_length: u8,
    /// The length of the degradation priority field.
    pub degradation_priority_length: u8,
    /// The length of the access unit sequence number, at most 16.
    pub au_seq_num_length: u8,
    /// The length of the packet sequence number, at most 16.
    pub packet_seq_num_length: u8,
    /// Reserved bits.
    pub reserved: u8,
    /// The durations, present when the duration flag is set.
    pub duration: Option<SLConfigDescriptorDuration>,
    /// The start time stamps, present when the time stamp flag is set.
    pub time_stamps: Option<SLConfigDescriptorTimeStamps>,
}

/// The size that a custom configuration reports: fifteen bytes of fields, the
/// durations where present, and the bytes that the two time stamps fill where they
/// are present.
pub open spec fn sl_custom_size(c: SLConfigDescriptorCustom) -> nat {
    15 + (if c.duration is Some { 8nat } else { 0 }) + (if c.time_stamps is Some {
        ((2 * (c.time_stamp_length as nat) + 7) / 8) as nat
    } else {
        0
    })
}

impl SLConfigDescriptorCustom {
    /// The size that the configuration reports.
    pub fn size(&self) -> (n: usize)
        ensures
            n == sl_custom_size(*self),
    {
        let mut size: usize = 15;
        if self.duration.is_some() {
            size = size + 8;
        }
        if let Some(t) = &self.time_stamps {
            size = size + t.size(self.time_stamp_length);
        }
        size
    }
}

/// Sync layer configuration descriptor
///
/// ISO/IEC 14496-1 - 7.3.2.3
#[derive(Debug, Clone, Copy, PartialEq, Eq, Structural)]
pub struct SLConfigDescriptor {
    /// Whether the configuration is custom (0) or one of the predefined sets.
    pub predefined: SLConfigDescriptorPredefined,
    /// The custom configuration, present when it is custom.
    pub custom: Option<SLConfigDescriptorCustom>,
}

/// The size of the payload of a sync layer configuration descriptor: the predefined
/// byte and the custom configuration where present.
pub open spec fn sl_payload_size(d: SLConfigDescriptor) -> nat {
    1 + match d.custom {
        Some(c) => sl_custom_size(c),
        None => 0,
    }
}

impl SLConfigDescriptor {
    /// The fields that the descriptor begins with: its tag and the size of its payload.
    pub fn base_descriptor(&self) -> (r: BaseDescriptor)
        ensures
            r == (BaseDescriptor {
                tag: DescriptorTag(SL_CONFIG_DESCR_TAG),
                size_of_instance: sl_payload_size(*self) as u32,
            }),
    {
        let payload = 1 + match &self.custom {
            Some(c) => c.size(),
            None => 0,
        };
        BaseDescriptor { tag: DescriptorTag(SL_CONFIG_DESCR_TAG), size_of_instance: payload as u32 }
    }
}

} // verus!
