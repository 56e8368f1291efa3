//! Strings and small value types of the format: null-terminated UTF-8 strings,
//! base64 data, space-separated lists, packed language codes and odd-width integers.

use base64::Engine;
use vstd::prelude::*;
use vstd::utf8::{decode_utf8, encode_utf8, valid_utf8};

use crate::codec::{be_u16_at, be_u24_at, be_u32_at, lemma_append_prefix, lemma_u16_at, read_u16_at, read_u24_at, read_u32_at, u16_bytes, write_u16, IsoError, SpecParse};
use crate::wire::{IsoSized, Wire};

verus! {

// ---------------------------------------------------------------------------
// Null-terminated byte strings.
// ---------------------------------------------------------------------------

/// `k` is the position of the first zero byte of `s`.
pub open spec fn is_first_nul(s: Seq<u8>, k: int) -> bool {
    0 <= k < s.len() && s[k] == 0 && forall|j: int| 0 <= j < k ==> s[j] != 0
}

/// Whether `s` has a zero byte.
pub open spec fn has_nul(s: Seq<u8>) -> bool {
    exists|k: int| is_first_nul(s, k)
}

/// The position of the first zero byte of `s`.
pub open spec fn first_nul(s: Seq<u8>) -> int {
    choose|k: int| is_first_nul(s, k)
}

pub proof fn lemma_first_nul_unique(s: Seq<u8>, a: int, b: int)
    requires
        is_first_nul(s, a),
        is_first_nul(s, b),
    ensures
        a == b,
{
    if a < b {
        assert(s[a] != 0);
    } else if b < a {
        assert(s[b] != 0);
    }
}

/// The bytes up to the first zero byte, and the number of bytes read with the zero.
pub open spec fn nul_terminated(s: Seq<u8>) -> SpecParse<Seq<u8>> {
    if has_nul(s) {
        Ok((s.take(first_nul(s)), first_nul(s) + 1))
    } else {
        Err(IsoError::UnexpectedEof)
    }
}

/// Reading bytes written before a zero byte gives them back.
pub proof fn lemma_nul_terminated(b: Seq<u8>, rest: Seq<u8>)
    requires
        forall|i: int| 0 <= i < b.len() ==> b[i] != 0,
    ensures
        nul_terminated(b + seq![0u8] + rest) == Ok::<(Seq<u8>, int), IsoError>((b, b.len() + 1int)),
{
    let s = b + seq![0u8] + rest;
    assert(is_first_nul(s, b.len() as int));
    lemma_first_nul_unique(s, first_nul(s), b.len() as int);
    assert(s.take(b.len() as int) =~= b);
}

/// Reads the bytes from `pos` up to the first zero byte; the zero is consumed.
pub fn read_nul_terminated(data: &[u8], pos: usize) -> (r: Result<(Vec<u8>, usize), IsoError>)
    requires
        pos <= data@.len(),
    ensures
        match (nul_terminated(data@.skip(pos as int)), r) {
            (Ok((b, n)), Ok((v, p))) => v@ == b && p == pos + n,
            (Err(e), Err(f)) => e == f,
            _ => false,
        },
{
    let ghost s = data@.skip(pos as int);
    let mut bytes: Vec<u8> = Vec::new();
    let mut p = pos;
    while p < data.len()
        invariant
            s == data@.skip(pos as int),
            pos <= p <= data@.len(),
            bytes@ == s.take(p - pos),
            forall|j: int| 0 <= j < p - pos ==> s[j] != 0,
        decreases data@.len() - p,
    {
        let byte = data[p];
        if byte == 0 {
            proof {
                assert(is_first_nul(s, p - pos));
                lemma_first_nul_unique(s, first_nul(s), p - pos);
            }
            return Ok((bytes, p + 1));
        }
        bytes.push(byte);
        proof {
            assert(bytes@ =~= s.take(p + 1 - pos));
        }
        p = p + 1;
    }
    proof {
        if has_nul(s) {
            let k = first_nul(s);
            assert(is_first_nul(s, k));
            assert(s[k] != 0);
        }
    }
    Err(IsoError::UnexpectedEof)
}

/// Writes the bytes and a zero byte.
pub fn write_nul_terminated(out: &mut Vec<u8>, bytes: &[u8])
    ensures
        final(out)@ == old(out)@ + bytes@ + seq![0u8],
{
    let ghost before = out@;
    let mut i: usize = 0;
    while i < bytes.len()
        invariant
            i <= bytes@.len(),
            out@ == before + bytes@.take(i as int),
        decreases bytes@.len() - i,
    {
        out.push(bytes[i]);
        proof {
            assert(out@ =~= before + bytes@.take(i + 1));
        }
        i = i + 1;
    }
    out.push(0u8);
    proof {
        assert(bytes@.take(i as int) =~= bytes@);
        assert(out@ =~= before + bytes@ + seq![0u8]);
    }
}

/// Turns bytes into a string where they are valid UTF-8.
///
/// Calls `String::from_utf8`, which fails exactly on bytes that are not valid UTF-8,
/// and otherwise holds the characters the bytes encode.
#[verifier::external_body]
pub(crate) fn string_from_utf8(bytes: Vec<u8>) -> (r: Option<String>)
    ensures
        match r {
            Some(s) => valid_utf8(bytes@) && s@ == decode_utf8(bytes@),
            None => !valid_utf8(bytes@),
        },
{
    String::from_utf8(bytes).ok()
}

/// The UTF-8 bytes of a string.
pub(crate) fn string_bytes(s: &String) -> (b: &[u8])
    ensures
        b@ == encode_utf8(s@),
{
    s.as_str().as_bytes()
}

// ---------------------------------------------------------------------------
// UTF-8 strings.
// ---------------------------------------------------------------------------

/// A null-terminated UTF-8 string.
#[derive(Debug)]
pub struct Utf8String(pub String);

impl View for Utf8String {
    type V = Seq<char>;

    open spec fn view(&self) -> Seq<char> {
        self.0@
    }
}

impl IsoSized for Utf8String {
    open spec fn spec_size(&self) -> nat {
        encode_utf8(self.0@).len() + 1
    }

    fn size(&self) -> (n: usize) {
        string_bytes(&self.0).len() + 1
    }
}

impl Wire for Utf8String {
    /// The bytes up to the first zero byte, which must be valid UTF-8.
    open spec fn spec_parse(s: Seq<u8>) -> SpecParse<Seq<char>> {
        match nul_terminated(s) {
            Ok((b, n)) => if valid_utf8(b) { Ok((decode_utf8(b), n)) } else { Err(IsoError::InvalidData) },
            Err(e) => Err(e),
        }
    }

    open spec fn spec_writable(v: Seq<char>) -> bool {
        true
    }

    open spec fn spec_serialize(v: Seq<char>) -> Seq<u8> {
        encode_utf8(v) + seq![0u8]
    }

    /// The string holds no zero byte.
    open spec fn spec_canonical(v: Seq<char>) -> bool {
        forall|i: int| 0 <= i < encode_utf8(v).len() ==> encode_utf8(v)[i] != 0
    }

    proof fn lemma_parse_len(s: Seq<u8>) {
        if has_nul(s) {
            assert(is_first_nul(s, first_nul(s)));
        }
        assert(!has_nul(Seq::<u8>::empty()));
    }

    proof fn lemma_size(x: Utf8String) {
    }

    proof fn lemma_roundtrip(v: Seq<char>, rest: Seq<u8>) {
        lemma_nul_terminated(encode_utf8(v), rest);
        vstd::utf8::encode_utf8_valid_utf8(v);
        vstd::utf8::encode_utf8_decode_utf8(v);
    }

    fn parse(data: &[u8], pos: usize) -> (r: Result<(Utf8String, usize), IsoError>) {
        let (bytes, p) = read_nul_terminated(data, pos)?;
        match string_from_utf8(bytes) {
            Some(s) => Ok((Utf8String(s), p)),
            None => Err(IsoError::InvalidData),
        }
    }

    fn serialize(&self, out: &mut Vec<u8>) -> (r: Result<(), IsoError>) {
        let ghost before = out@;
        write_nul_terminated(out, string_bytes(&self.0));
        proof {
            lemma_append_prefix(before, encode_utf8(self.0@) + seq![0u8]);
            assert(out@ =~= before + (encode_utf8(self.0@) + seq![0u8]));
        }
        Ok(())
    }
}

// ---------------------------------------------------------------------------
// Lists of UTF-8 strings.
// ---------------------------------------------------------------------------

/// `k` is the position of the first space or zero byte of `s`.
pub open spec fn is_first_delim(s: Seq<u8>, k: int) -> bool {
    &&& 0 <= k < s.len()
    &&& (s[k] == 0x20 || s[k] == 0)
    &&& forall|j: int| 0 <= j < k ==> s[j] != 0x20 && s[j] != 0
}

pub proof fn lemma_first_delim_unique(s: Seq<u8>, a: int, b: int)
    requires
        is_first_delim(s, a),
        is_first_delim(s, b),
    ensures
        a == b,
{
    if a < b {
        assert(s[a] != 0x20 && s[a] != 0);
    } else if b < a {
        assert(s[b] != 0x20 && s[b] != 0);
    }
}

/// Reading a list of strings: each string ends with a space, and the list ends with
/// a zero byte; bytes between the last space and the zero byte are dropped.
pub open spec fn utf8_list_parse(s: Seq<u8>) -> SpecParse<Seq<Seq<char>>>
    decreases s.len(),
{
    if exists|k: int| is_first_delim(s, k) {
        let k = choose|k: int| is_first_delim(s, k);
        if s[k] == 0 {
            Ok((Seq::empty(), k + 1))
        } else if !valid_utf8(s.take(k)) {
            Err(IsoError::InvalidData)
        } else {
            match utf8_list_parse(s.skip(k + 1)) {
                Ok((rest, n)) => Ok((seq![decode_utf8(s.take(k))] + rest, k + 1 + n)),
                Err(e) => Err(e),
            }
        }
    } else {
        Err(IsoError::UnexpectedEof)
    }
}

/// The bytes of the strings, each followed by a space.
pub open spec fn utf8_list_items_bytes(l: Seq<Seq<char>>) -> Seq<u8>
    decreases l.len(),
{
    if l.len() == 0 {
        Seq::empty()
    } else {
        encode_utf8(l[0]) + seq![0x20u8] + utf8_list_items_bytes(l.drop_first())
    }
}

/// A string that holds no space and no zero byte.
pub open spec fn plain_word(c: Seq<char>) -> bool {
    forall|i: int| 0 <= i < encode_utf8(c).len() ==> encode_utf8(c)[i] != 0x20 && encode_utf8(c)[i] != 0
}

pub proof fn lemma_utf8_list_parse_len(s: Seq<u8>)
    ensures
        utf8_list_parse(s) matches Ok((l, n)) ==> 0 < n <= s.len(),
    decreases s.len(),
{
    if exists|k: int| is_first_delim(s, k) {
        let k = choose|k: int| is_first_delim(s, k);
        if s[k] != 0 && valid_utf8(s.take(k)) {
            lemma_utf8_list_parse_len(s.skip(k + 1));
        }
    }
}

/// Reading back written plain words gives them.
pub proof fn lemma_utf8_list_roundtrip(l: Seq<Seq<char>>, rest: Seq<u8>)
    requires
        forall|i: int| 0 <= i < l.len() ==> #[trigger] plain_word(l[i]),
    ensures
        utf8_list_parse(utf8_list_items_bytes(l) + seq![0u8] + rest) == Ok::<(Seq<Seq<char>>, int), IsoError>(
            (l, utf8_list_items_bytes(l).len() + 1int),
        ),
    decreases l.len(),
{
    let s = utf8_list_items_bytes(l) + seq![0u8] + rest;
    if l.len() == 0 {
        assert(is_first_delim(s, 0));
        lemma_first_delim_unique(s, choose|k: int| is_first_delim(s, k), 0);
        assert(l =~= Seq::<Seq<char>>::empty());
    } else {
        let w = l[0];
        let b = encode_utf8(w);
        let tail = l.drop_first();
        assert(plain_word(l[0]));
        assert forall|i: int| 0 <= i < tail.len() implies #[trigger] plain_word(tail[i]) by {
            assert(tail[i] == l[i + 1]);
            assert(plain_word(l[i + 1]));
        }
        assert(s =~= b + seq![0x20u8] + (utf8_list_items_bytes(tail) + seq![0u8] + rest));
        assert(is_first_delim(s, b.len() as int));
        lemma_first_delim_unique(s, choose|k: int| is_first_delim(s, k), b.len() as int);
        assert(s.take(b.len() as int) =~= b);
        assert(s.skip(b.len() + 1int) =~= utf8_list_items_bytes(tail) + seq![0u8] + rest);
        vstd::utf8::encode_utf8_valid_utf8(w);
        vstd::utf8::encode_utf8_decode_utf8(w);
        lemma_utf8_list_roundtrip(tail, rest);
        assert(seq![w] + tail =~= l);
    }
}

/// A list of strings, each followed by a space, the list by a zero byte.
#[derive(Debug)]
pub struct Utf8List(pub Vec<String>);

/// The models of a list of strings.
pub open spec fn string_views(v: Seq<String>) -> Seq<Seq<char>> {
    v.map_values(|x: String| x@)
}

impl View for Utf8List {
    type V = Seq<Seq<char>>;

    open spec fn view(&self) -> Seq<Seq<char>> {
        string_views(self.0@)
    }
}

/// Reads bytes from `pos` up to the first space or zero byte; gives the bytes, whether
/// the delimiter was the zero byte, and the position after the delimiter.
fn read_word(data: &[u8], pos: usize) -> (r: Result<(Vec<u8>, bool, usize), IsoError>)
    requires
        pos <= data@.len(),
    ensures
        match r {
            Ok((b, end, p)) => is_first_delim(data@.skip(pos as int), p - pos - 1) && b@ == data@.skip(
                pos as int,
            ).take(p - pos - 1) && end == (data@[p - 1] == 0) && pos < p <= data@.len(),
            Err(e) => e == IsoError::UnexpectedEof && !(exists|k: int| is_first_delim(data@.skip(pos as int), k)),
        },
{
    let ghost s = data@.skip(pos as int);
    let mut bytes: Vec<u8> = Vec::new();
    let mut p = pos;
    while p < data.len()
        invariant
            s == data@.skip(pos as int),
            pos <= p <= data@.len(),
            bytes@ == s.take(p - pos),
            forall|j: int| 0 <= j < p - pos ==> s[j] != 0x20 && s[j] != 0,
        decreases data@.len() - p,
    {
        let byte = data[p];
        if byte == 0x20 || byte == 0 {
            proof {
                assert(is_first_delim(s, p - pos));
            }
            return Ok((bytes, byte == 0, p + 1));
        }
        bytes.push(byte);
        proof {
            assert(bytes@ =~= s.take(p + 1 - pos));
        }
        p = p + 1;
    }
    proof {
        assert forall|k: int| !is_first_delim(s, k) by {
            if is_first_delim(s, k) {
                assert(s[k] != 0x20 && s[k] != 0);
            }
        }
    }
    Err(IsoError::UnexpectedEof)
}

impl IsoSized for Utf8List {
    open spec fn spec_size(&self) -> nat {
        utf8_list_items_bytes(self@).len() + 1
    }

    fn size(&self) -> (n: usize) {
        let ghost l = self@;
        let mut n: usize = 0;
        let mut i: usize = self.0.len();
        proof {
            assert(l.skip(i as int) =~= Seq::<Seq<char>>::empty());
        }
        while i > 0
            invariant
                l == self@,
                i <= l.len(),
                n == utf8_list_items_bytes(l.skip(i as int)).len(),
                utf8_list_items_bytes(l).len() + 1 <= usize::MAX,
            decreases i,
        {
            proof {
                assert(l.skip(i - 1).drop_first() =~= l.skip(i as int));
                assert(l.skip(i - 1)[0] == l[i - 1]);
                lemma_items_bytes_suffix(l, i - 1);
            }
            n = n + string_bytes(&self.0[i - 1]).len() + 1;
            i = i - 1;
        }
        proof {
            assert(l.skip(0) =~= l);
        }
        n + 1
    }
}

pub proof fn lemma_items_bytes_suffix(l: Seq<Seq<char>>, i: int)
    requires
        0 <= i <= l.len(),
    ensures
        utf8_list_items_bytes(l.skip(i)).len() <= utf8_list_items_bytes(l).len(),
    decreases i,
{
    if i > 0 {
        lemma_items_bytes_suffix(l, i - 1);
        assert(l.skip(i - 1).drop_first() =~= l.skip(i));
    } else {
        assert(l.skip(0) =~= l);
    }
}

impl Wire for Utf8List {
    open spec fn spec_parse(s: Seq<u8>) -> SpecParse<Seq<Seq<char>>> {
        utf8_list_parse(s)
    }

    open spec fn spec_writable(v: Seq<Seq<char>>) -> bool {
        true
    }

    open spec fn spec_serialize(v: Seq<Seq<char>>) -> Seq<u8> {
        utf8_list_items_bytes(v) + seq![0u8]
    }

    /// No string holds a space or a zero byte.
    open spec fn spec_canonical(v: Seq<Seq<char>>) -> bool {
        forall|i: int| 0 <= i < v.len() ==> #[trigger] plain_word(v[i])
    }

    proof fn lemma_parse_len(s: Seq<u8>) {
        lemma_utf8_list_parse_len(s);
        assert(!(exists|k: int| is_first_delim(Seq::<u8>::empty(), k)));
    }

    proof fn lemma_size(x: Utf8List) {
    }

    proof fn lemma_roundtrip(v: Seq<Seq<char>>, rest: Seq<u8>) {
        lemma_utf8_list_roundtrip(v, rest);
    }

    fn parse(data: &[u8], pos: usize) -> (r: Result<(Utf8List, usize), IsoError>) {
        let mut strings: Vec<String> = Vec::new();
        let mut p = pos;
        loop
            invariant
                pos <= p <= data@.len(),
                match utf8_list_parse(data@.skip(p as int)) {
                    Ok((vs, m)) => utf8_list_parse(data@.skip(pos as int)) == Ok::<(Seq<Seq<char>>, int), IsoError>(
                        (string_views(strings@) + vs, (p - pos) + m),
                    ),
                    Err(e) => utf8_list_parse(data@.skip(pos as int)) == Err::<(Seq<Seq<char>>, int), IsoError>(e),
                },
            decreases data@.len() - p,
        {
            let ghost sp = data@.skip(p as int);
            let (bytes, end, np) = read_word(data, p)?;
            proof {
                let k = (np - p - 1) as int;
                lemma_first_delim_unique(sp, choose|j: int| is_first_delim(sp, j), k);
                assert(sp[k] == data@[np - 1]);
            }
            if end {
                proof {
                    assert(string_views(strings@) + Seq::<Seq<char>>::empty() =~= string_views(strings@));
                }
                return Ok((Utf8List(strings), np));
            }
            match string_from_utf8(bytes) {
                Some(st) => {
                    proof {
                        let k = (np - p - 1) as int;
                        assert(sp.skip(k + 1) =~= data@.skip(np as int));
                        lemma_utf8_list_parse_len(data@.skip(np as int));
                        if let Ok((vs, m)) = utf8_list_parse(data@.skip(np as int)) {
                            assert(string_views(strings@.push(st)) =~= string_views(strings@).push(st@));
                            assert(string_views(strings@) + (seq![st@] + vs) =~= string_views(strings@.push(st)) + vs);
                        }
                    }
                    strings.push(st);
                    p = np;
                },
                None => {
                    return Err(IsoError::InvalidData);
                },
            }
        }
    }

    fn serialize(&self, out: &mut Vec<u8>) -> (r: Result<(), IsoError>) {
        let ghost before = out@;
        let ghost l = self@;
        let mut i: usize = 0;
        proof {
            assert(l.skip(0) =~= l);
        }
        while i < self.0.len()
            invariant
                l == self@,
                i <= l.len(),
                out@ + utf8_list_items_bytes(l.skip(i as int)) == before + utf8_list_items_bytes(l),
            decreases l.len() - i,
        {
            proof {
                assert(l.skip(i as int).drop_first() =~= l.skip(i + 1));
                assert(l.skip(i as int)[0] == l[i as int]);
            }
            write_nul_free(out, string_bytes(&self.0[i]));
            out.push(0x20u8);
            proof {
                assert(out@ + utf8_list_items_bytes(l.skip(i + 1)) =~= before + utf8_list_items_bytes(l));
            }
            i = i + 1;
        }
        out.push(0u8);
        proof {
            assert(l.skip(i as int) =~= Seq::<Seq<char>>::empty());
            assert(out@ =~= before + (utf8_list_items_bytes(l) + seq![0u8]));
            lemma_append_prefix(before, utf8_list_items_bytes(l) + seq![0u8]);
        }
        Ok(())
    }
}

/// Writes the bytes as they are.
fn write_nul_free(out: &mut Vec<u8>, bytes: &[u8])
    ensures
        final(out)@ == old(out)@ + bytes@,
{
    let ghost before = out@;
    let mut i: usize = 0;
    while i < bytes.len()
        invariant
            i <= bytes@.len(),
            out@ == before + bytes@.take(i as int),
        decreases bytes@.len() - i,
    {
        out.push(bytes[i]);
        proof {
            assert(out@ =~= before + bytes@.take(i + 1));
        }
        i = i + 1;
    }
    proof {
        assert(bytes@.take(i as int) =~= bytes@);
    }
}

// ---------------------------------------------------------------------------
// Base64 data.
// ---------------------------------------------------------------------------

/// What the standard base64 engine decodes `input` to, if it is valid base64.
pub uninterp spec fn base64_decoded(input: Seq<u8>) -> Option<Seq<u8>>;

/// The character of the standard base64 alphabet for a six-bit value:
/// `A`-`Z`, `a`-`z`, `0`-`9`, `+` and `/`.
pub open spec fn base64_char(v: int) -> u8 {
    if v < 26 {
        (0x41 + v) as u8
    } else if v < 52 {
        (0x61 + (v - 26)) as u8
    } else if v < 62 {
        (0x30 + (v - 52)) as u8
    } else if v == 62 {
        0x2bu8
    } else {
        0x2fu8
    }
}

/// The standard base64 encoding (with padding) of `data`: each group of three bytes
/// as four characters of six bits each, high bits first; a last group of one or two
/// bytes as two or three characters, its missing bits zero, then `=` up to four.
pub open spec fn base64_encoded(data: Seq<u8>) -> Seq<u8>
    decreases data.len(),
{
    if data.len() == 0 {
        Seq::empty()
    } else if data.len() == 1 {
        let a = data[0] as int;
        seq![base64_char(a / 4), base64_char((a % 4) * 16), 0x3du8, 0x3du8]
    } else if data.len() == 2 {
        let a = data[0] as int;
        let b = data[1] as int;
        seq![base64_char(a / 4), base64_char((a % 4) * 16 + b / 16), base64_char((b % 16) * 4), 0x3du8]
    } else {
        let a = data[0] as int;
        let b = data[1] as int;
        let c = data[2] as int;
        seq![
            base64_char(a / 4),
            base64_char((a % 4) * 16 + b / 16),
            base64_char((b % 16) * 4 + c / 64),
            base64_char(c % 64),
        ] + base64_encoded(data.skip(3))
    }
}

/// The encoding has four characters for every started group of three bytes and holds
/// no zero byte.
pub proof fn lemma_base64_encoded(data: Seq<u8>)
    ensures
        base64_encoded(data).len() == base64_len(data.len()),
        forall|i: int| 0 <= i < base64_encoded(data).len() ==> base64_encoded(data)[i] != 0,
    decreases data.len(),
{
    if data.len() >= 3 {
        lemma_base64_encoded(data.skip(3));
        let e = base64_encoded(data);
        let t = base64_encoded(data.skip(3));
        assert forall|i: int| 0 <= i < e.len() implies e[i] != 0 by {
            if i >= 4 {
                assert(e[i] == t[i - 4]);
            }
        }
    }
}

/// Decodes standard base64.
///
/// Calls `base64::prelude::BASE64_STANDARD.decode`; the contract says only that the
/// result is what that engine gives for the input.
#[verifier::external_body]
fn decode_base64(input: &[u8]) -> (r: Option<Vec<u8>>)
    ensures
        match r {
            Some(v) => base64_decoded(input@) == Some(v@),
            None => base64_decoded(input@) is None,
        },
{
    base64::prelude::BASE64_STANDARD.decode(input).ok()
}

/// The length of the padded base64 encoding of `n` bytes: four characters for every
/// started group of three bytes.
pub open spec fn base64_len(n: nat) -> nat {
    4 * ((n + 2) / 3)
}

/// Encodes in standard base64.
///
/// Calls `base64::prelude::BASE64_STANDARD.encode`: the standard alphabet with `=`
/// padding, as `base64_encoded` states it, and the same engine decodes the output
/// back to the input. The encoder panics where the encoded length does not fit in
/// `usize`, which the precondition rules out.
#[verifier::external_body]
fn encode_base64(data: &[u8]) -> (r: Vec<u8>)
    requires
        data@.len() * 2 <= usize::MAX,
    ensures
        r@ == base64_encoded(data@),
        base64_decoded(r@) == Some(data@),
{
    base64::prelude::BASE64_STANDARD.encode(data).into_bytes()
}

/// Null-terminated base64 data.
#[derive(Debug)]
pub struct Base64String(pub Vec<u8>);

impl View for Base64String {
    type V = Seq<u8>;

    open spec fn view(&self) -> Seq<u8> {
        self.0@
    }
}

/// Reading null-terminated base64 data: the text up to the zero byte, decoded.
pub open spec fn base64_string_parse(s: Seq<u8>) -> SpecParse<Seq<u8>> {
    match nul_terminated(s) {
        Ok((b, n)) => match base64_decoded(b) {
            Some(d) => Ok((d, n)),
            None => Err(IsoError::InvalidData),
        },
        Err(e) => Err(e),
    }
}

impl Base64String {
    /// Reads null-terminated base64 data at `pos`.
    pub fn parse(data: &[u8], pos: usize) -> (r: Result<(Base64String, usize), IsoError>)
        requires
            pos <= data@.len(),
        ensures
            crate::wire::parse_matches(r, base64_string_parse(data@.skip(pos as int)), pos),
    {
        let (text, p) = read_nul_terminated(data, pos)?;
        match decode_base64(text.as_slice()) {
            Some(v) => Ok((Base64String(v), p)),
            None => Err(IsoError::InvalidData),
        }
    }

    /// The size of the data as written: its base64 encoding and the zero byte.
    pub fn size(&self) -> (n: usize)
        requires
            self.0@.len() * 2 <= usize::MAX,
        ensures
            n == base64_len(self.0@.len()) + 1,
    {
        4 * ((self.0.len() + 2) / 3) + 1
    }

    /// Writes the data as base64 followed by a zero byte.
    pub fn serialize(&self, out: &mut Vec<u8>)
        requires
            self.0@.len() * 2 <= usize::MAX,
        ensures
            final(out)@ == old(out)@ + base64_encoded(self.0@) + seq![0u8],
    {
        let text = encode_base64(self.0.as_slice());
        write_nul_terminated(out, text.as_slice());
    }
}

/// Written base64 data reads back as the data.
pub proof fn lemma_base64_roundtrip(data: Seq<u8>, rest: Seq<u8>)
    requires
        forall|i: int| 0 <= i < base64_encoded(data).len() ==> base64_encoded(data)[i] != 0,
        base64_decoded(base64_encoded(data)) == Some(data),
    ensures
        base64_string_parse(base64_encoded(data) + seq![0u8] + rest) == Ok::<(Seq<u8>, int), IsoError>(
            (data, base64_encoded(data).len() + 1int),
        ),
{
    lemma_nul_terminated(base64_encoded(data), rest);
}

// ---------------------------------------------------------------------------
// Language codes.
// ---------------------------------------------------------------------------

/// A language code (ISO 639-2/T) packed into 15 bits: each letter minus 0x60 in five bits.
#[derive(Debug, Clone, Copy, PartialEq, Eq)]
pub struct Langauge(pub [u8; 3]);

impl View for Langauge {
    type V = [u8; 3];

    open spec fn view(&self) -> [u8; 3] {
        self.0
    }
}

/// The three 5-bit letters of a 16-bit word.
pub open spec fn language_from_word(w: u16) -> [u8; 3] {
    [((w >> 10u16) & 0x1f) as u8, ((w >> 5u16) & 0x1f) as u8, (w & 0x1f) as u8]
}

/// The 16-bit word of three letters: a zero bit, then the low five bits of each.
pub open spec fn language_word(l: [u8; 3]) -> u16 {
    (((l[0] & 0x1f) as u16) << 10u16) | (((l[1] & 0x1f) as u16) << 5u16) | ((l[2] & 0x1f) as u16)
}

impl Langauge {
    /// The letters of the code: each packed value plus 0x60.
    pub fn code(&self) -> (r: [char; 3])
        requires
            self.0[0] < 0xa0,
            self.0[1] < 0xa0,
            self.0[2] < 0xa0,
        ensures
            r[0] == (self.0[0] + 0x60) as char,
            r[1] == (self.0[1] + 0x60) as char,
            r[2] == (self.0[2] + 0x60) as char,
    {
        [(self.0[0] + 0x60) as char, (self.0[1] + 0x60) as char, (self.0[2] + 0x60) as char]
    }
}

impl IsoSized for Langauge {
    open spec fn spec_size(&self) -> nat {
        2
    }

    fn size(&self) -> (n: usize) {
        2
    }
}

impl Wire for Langauge {
    open spec fn spec_parse(s: Seq<u8>) -> SpecParse<[u8; 3]> {
        if s.len() < 2 { Err(IsoError::UnexpectedEof) } else { Ok((language_from_word(be_u16_at(s, 0)), 2)) }
    }

    open spec fn spec_writable(v: [u8; 3]) -> bool {
        true
    }

    open spec fn spec_serialize(v: [u8; 3]) -> Seq<u8> {
        u16_bytes(language_word(v))
    }

    /// Each letter fits in five bits.
    open spec fn spec_canonical(v: [u8; 3]) -> bool {
        v[0] < 32 && v[1] < 32 && v[2] < 32
    }

    proof fn lemma_parse_len(s: Seq<u8>) {
    }

    proof fn lemma_size(x: Langauge) {
    }

    proof fn lemma_roundtrip(v: [u8; 3], rest: Seq<u8>) {
        let w = language_word(v);
        crate::codec::lemma_u16_roundtrip(w, rest);
        let a = v[0];
        let b = v[1];
        let c = v[2];
        assert(((w >> 10u16) & 0x1f) as u8 == a && ((w >> 5u16) & 0x1f) as u8 == b && (w & 0x1f) as u8 == c)
            by (bit_vector)
            requires
                w == (((a & 0x1f) as u16) << 10u16) | (((b & 0x1f) as u16) << 5u16) | ((c & 0x1f) as u16),
                a < 32,
                b < 32,
                c < 32,
        ;
        assert(language_from_word(w) =~= v);
    }

    fn parse(data: &[u8], pos: usize) -> (r: Result<(Langauge, usize), IsoError>) {
        if data.len() - pos < 2 {
            return Err(IsoError::UnexpectedEof);
        }
        let w = read_u16_at(data, pos);
        let l = [((w >> 10u16) & 0x1f) as u8, ((w >> 5u16) & 0x1f) as u8, (w & 0x1f) as u8];
        proof {
            assert(l =~= language_from_word(w));
        }
        Ok((Langauge(l), pos + 2))
    }

    fn serialize(&self, out: &mut Vec<u8>) -> (r: Result<(), IsoError>) {
        let w: u16 = (((self.0[0] & 0x1f) as u16) << 10u16) | (((self.0[1] & 0x1f) as u16) << 5u16) | ((self.0[2]
            & 0x1f) as u16);
        proof {
            lemma_append_prefix(old(out)@, u16_bytes(w));
        }
        write_u16(out, w);
        Ok(())
    }
}

// ---------------------------------------------------------------------------
// Integers of 24 and 48 bits.
// ---------------------------------------------------------------------------

/// A signed 24-bit big-endian integer.
#[allow(non_camel_case_types)]
pub struct i24(pub i32);

/// A signed 48-bit big-endian integer.
#[allow(non_camel_case_types)]
pub struct i48(pub i64);

/// An unsigned 24-bit big-endian integer.
#[allow(non_camel_case_types)]
pub struct u24(pub u32);

/// An unsigned 48-bit big-endian integer.
#[allow(non_camel_case_types)]
pub struct u48(pub u64);

/// The unsigned 48-bit big-endian integer at offset `i`.
pub open spec fn be_u48_at(s: Seq<u8>, i: int) -> u64 {
    (be_u16_at(s, i) * 0x1_0000_0000 + be_u32_at(s, i + 2)) as u64
}

/// The signed value of a 24-bit pattern.
pub open spec fn sign_extend_24(v: u32) -> i32 {
    if v >= 0x80_0000 { (v - 0x100_0000) as i32 } else { v as i32 }
}

/// The signed value of a 48-bit pattern.
pub open spec fn sign_extend_48(v: u64) -> i64 {
    if v >= 0x8000_0000_0000 { (v - 0x1_0000_0000_0000) as i64 } else { v as i64 }
}

fn read_u48_at(data: &[u8], pos: usize) -> (v: u64)
    requires
        pos + 6 <= data@.len(),
    ensures
        v == be_u48_at(data@, pos as int),
{
    assert(data@.len() == data.len());
    (read_u16_at(data, pos) as u64) * 0x1_0000_0000 + read_u32_at(data, pos + 2) as u64
}

impl u24 {
    /// Reads a 24-bit integer at `pos`.
    pub fn read_field(data: &[u8], pos: usize) -> (r: Result<(u24, usize), IsoError>)
        requires
            pos <= data@.len(),
        ensures
            match r {
                Ok((v, p)) => pos + 3 <= data@.len() && v.0 == be_u24_at(data@, pos as int) && p == pos + 3,
                Err(e) => e == IsoError::UnexpectedEof && data@.len() < pos + 3,
            },
    {
        if data.len() - pos < 3 {
            return Err(IsoError::UnexpectedEof);
        }
        Ok((u24(read_u24_at(data, pos)), pos + 3))
    }
}

impl i24 {
    /// Reads a signed 24-bit integer at `pos`.
    pub fn read_field(data: &[u8], pos: usize) -> (r: Result<(i24, usize), IsoError>)
        requires
            pos <= data@.len(),
        ensures
            match r {
                Ok((v, p)) => pos + 3 <= data@.len() && v.0 == sign_extend_24(be_u24_at(data@, pos as int)) && p
                    == pos + 3,
                Err(e) => e == IsoError::UnexpectedEof && data@.len() < pos + 3,
            },
    {
        if data.len() - pos < 3 {
            return Err(IsoError::UnexpectedEof);
        }
        let v = read_u24_at(data, pos);
        let s: i32 = if v >= 0x80_0000 { (v as i32) - 0x100_0000 } else { v as i32 };
        Ok((i24(s), pos + 3))
    }
}

impl u48 {
    /// Reads a 48-bit integer at `pos`.
    pub fn read_field(data: &[u8], pos: usize) -> (r: Result<(u48, usize), IsoError>)
        requires
            pos <= data@.len(),
        ensures
            match r {
                Ok((v, p)) => pos + 6 <= data@.len() && v.0 == be_u48_at(data@, pos as int) && p == pos + 6,
                Err(e) => e == IsoError::UnexpectedEof && data@.len() < pos + 6,
            },
    {
        if data.len() - pos < 6 {
            return Err(IsoError::UnexpectedEof);
        }
        Ok((u48(read_u48_at(data, pos)), pos + 6))
    }
}

impl i48 {
    /// Reads a signed 48-bit integer at `pos`.
    pub fn read_field(data: &[u8], pos: usize) -> (r: Result<(i48, usize), IsoError>)
        requires
            pos <= data@.len(),
        ensures
            match r {
                Ok((v, p)) => pos + 6 <= data@.len() && v.0 == sign_extend_48(be_u48_at(data@, pos as int)) && p
                    == pos + 6,
                Err(e) => e == IsoError::UnexpectedEof && data@.len() < pos + 6,
            },
    {
        if data.len() - pos < 6 {
            return Err(IsoError::UnexpectedEof);
        }
        let v = read_u48_at(data, pos);
        let s: i64 = if v >= 0x8000_0000_0000 { (v as i64) - 0x1_0000_0000_0000 } else { v as i64 };
        Ok((i48(s), pos + 6))
    }
}

impl From<u24> for u32 {
    fn from(value: u24) -> (r: u32) {
        value.0
    }
}

impl vstd::std_specs::convert::FromSpecImpl<u24> for u32 {
    open spec fn obeys_from_spec() -> bool {
        true
    }

    open spec fn from_spec(v: u24) -> u32 {
        v.0
    }
}

impl From<i24> for i32 {
    fn from(value: i24) -> (r: i32) {
        value.0
    }
}

impl vstd::std_specs::convert::FromSpecImpl<i24> for i32 {
    open spec fn obeys_from_spec() -> bool {
        true
    }

    open spec fn from_spec(v: i24) -> i32 {
        v.0
    }
}

impl From<u48> for u64 {
    fn from(value: u48) -> (r: u64) {
        value.0
    }
}

impl vstd::std_specs::convert::FromSpecImpl<u48> for u64 {
    open spec fn obeys_from_spec() -> bool {
        true
    }

    open spec fn from_spec(v: u48) -> u64 {
        v.0
    }
}

impl From<i48> for i64 {
    fn from(value: i48) -> (r: i64) {
        value.0
    }
}

impl vstd::std_specs::convert::FromSpecImpl<i48> for i64 {
    open spec fn obeys_from_spec() -> bool {
        true
    }

    open spec fn from_spec(v: i48) -> i64 {
        v.0
    }
}

} // verus!
