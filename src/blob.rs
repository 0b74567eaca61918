//! Framing of the blob stream, and decoding of each blob's payload.

use vstd::prelude::*;

use crate::decode::{
    copy_bytes, decode_header_block, decode_primitive_block, empty_header_block, lemma_field_bounds,
    spec_decode_header_block, spec_decode_primitive_block, text_of,
};
use crate::osmformat::{opt_text, texts_view, HeaderBlockV};
use crate::wire::field_at;
use vstd::utf8::{decode_utf8, valid_utf8};
use crate::osmformat::{HeaderBlock, PrimitiveBlock};
use crate::tags::bytes_eq;
use crate::wire::{read_field, WireValue};

verus! {

/// Largest accepted encoded size of a blob header.
pub const MAX_HEADER_SIZE: u32 = 65536;

/// Largest accepted size of a blob, and of its decompressed payload.
pub const MAX_UNCOMPRESSED_DATA_SIZE: usize = 33554432;

/// What can go wrong while reading a file.
#[derive(Clone, Debug, PartialEq, Eq)]
pub enum Error {
    /// The input ends inside a frame.
    UnexpectedEof,
    /// A frame's header is larger than [`MAX_HEADER_SIZE`].
    BlobHeaderTooLarge,
    /// A blob, or its decompressed payload, is larger than [`MAX_UNCOMPRESSED_DATA_SIZE`].
    BlobDataTooLarge,
    /// A frame has another type than the one expected there.
    UnexpectedBlobType(String),
    /// A blob is compressed with a codec that is not supported.
    UnsupportedEncoding,
    /// A message could not be decoded.
    ProtobufParse,
    /// The header requires a feature that is not supported.
    UnknownRequiredFeature(String),
}

/// The header of a frame: the type of the blob that follows, and its size.
#[derive(Clone, Debug, PartialEq)]
pub struct BlobHeader {
    pub type_: String,
    pub indexdata: Option<Vec<u8>>,
    pub datasize: i32,
}

/// The payload of a blob, by compression.
#[derive(Clone, Debug, PartialEq)]
pub enum BlobData {
    Raw(Vec<u8>),
    ZlibData(Vec<u8>),
    LzmaData(Vec<u8>),
    Bzip2Data(Vec<u8>),
    Lz4Data(Vec<u8>),
    ZstdData(Vec<u8>),
}

/// An encoded blob: an optional uncompressed size and at most one payload.
#[derive(Clone, Debug, PartialEq)]
pub struct PbfBlob {
    pub raw_size: Option<i32>,
    pub data: Option<BlobData>,
}

/// The big-endian number in the four bytes from `pos`.
pub open spec fn be_u32(b: Seq<u8>, pos: int) -> int {
    b[pos] as int * 0x100_0000 + b[pos + 1] as int * 0x1_0000 + b[pos + 2] as int * 0x100
        + b[pos + 3] as int
}

pub fn read_be_u32(b: &[u8], pos: usize) -> (r: u32)
    requires
        pos + 4 <= b@.len(),
    ensures
        r == be_u32(b@, pos as int),
{
    (b[pos] as u32) * 0x100_0000 + (b[pos + 1] as u32) * 0x1_0000 + (b[pos + 2] as u32) * 0x100
        + (b[pos + 3] as u32)
}

/// Checks a frame's header size: it must not exceed [`MAX_HEADER_SIZE`].
pub fn check_header_size(header_size: u32) -> (r: Result<(), Error>)
    ensures
        r is Ok <==> header_size <= MAX_HEADER_SIZE,
        r is Err ==> r == Err::<(), Error>(Error::BlobHeaderTooLarge),
{
    if header_size > MAX_HEADER_SIZE {
        Err(Error::BlobHeaderTooLarge)
    } else {
        Ok(())
    }
}

/// Checks a blob's declared size: it must lie between 0 and [`MAX_UNCOMPRESSED_DATA_SIZE`].
pub fn check_data_size(datasize: i32) -> (r: Result<usize, Error>)
    ensures
        r is Ok <==> 0 <= datasize <= MAX_UNCOMPRESSED_DATA_SIZE,
        r is Ok ==> r->Ok_0 == datasize as usize,
        r is Err ==> r == Err::<usize, Error>(Error::BlobDataTooLarge),
{
    if datasize < 0 || datasize as usize > MAX_UNCOMPRESSED_DATA_SIZE {
        Err(Error::BlobDataTooLarge)
    } else {
        Ok(datasize as usize)
    }
}

/// The abstract value of a [`BlobHeader`].
pub struct BlobHeaderV {
    pub type_: Seq<char>,
    pub indexdata: Option<Seq<u8>>,
    pub datasize: i32,
}

/// The fields of a frame header read so far.
pub struct BlobHeaderFields {
    pub type_: Option<Seq<char>>,
    pub indexdata: Option<Seq<u8>>,
    pub datasize: Option<i32>,
}

impl View for BlobHeader {
    type V = BlobHeaderV;

    open spec fn view(&self) -> BlobHeaderV {
        BlobHeaderV {
            type_: self.type_@,
            indexdata: match self.indexdata {
                Some(d) => Some(d@),
                None => None,
            },
            datasize: self.datasize,
        }
    }
}

/// The abstract value of a [`PbfBlob`]: the payload as its field number and bytes.
pub struct PbfBlobV {
    pub raw_size: Option<i32>,
    pub data: Option<(u64, Seq<u8>)>,
}

impl View for PbfBlob {
    type V = PbfBlobV;

    open spec fn view(&self) -> PbfBlobV {
        PbfBlobV {
            raw_size: self.raw_size,
            data: match self.data {
                Some(BlobData::Raw(d)) => Some((1u64, d@)),
                Some(BlobData::ZlibData(d)) => Some((3u64, d@)),
                Some(BlobData::LzmaData(d)) => Some((4u64, d@)),
                Some(BlobData::Bzip2Data(d)) => Some((5u64, d@)),
                Some(BlobData::Lz4Data(d)) => Some((6u64, d@)),
                Some(BlobData::ZstdData(d)) => Some((7u64, d@)),
                None => None,
            },
        }
    }
}

pub open spec fn blob_header_step(b: Seq<u8>, m: BlobHeaderFields, n: u64, v: WireValue) -> Option<
    BlobHeaderFields,
> {
    if n == 1 {
        match v {
            WireValue::Bytes(s, e) => {
                let t = b.subrange(s as int, e as int);
                if valid_utf8(t) {
                    Some(
                        BlobHeaderFields {
                            type_: Some(decode_utf8(t)),
                            indexdata: m.indexdata,
                            datasize: m.datasize,
                        },
                    )
                } else {
                    None
                }
            },
            _ => None,
        }
    } else if n == 2 {
        match v {
            WireValue::Bytes(s, e) => Some(
                BlobHeaderFields {
                    type_: m.type_,
                    indexdata: Some(b.subrange(s as int, e as int)),
                    datasize: m.datasize,
                },
            ),
            _ => None,
        }
    } else if n == 3 {
        match v {
            WireValue::Varint(x) => Some(
                BlobHeaderFields {
                    type_: m.type_,
                    indexdata: m.indexdata,
                    datasize: Some(x as i32),
                },
            ),
            _ => None,
        }
    } else {
        Some(m)
    }
}

pub open spec fn blob_header_fields(
    b: Seq<u8>,
    pos: int,
    end: int,
    m: BlobHeaderFields,
) -> Option<BlobHeaderFields>
    decreases end - pos,
{
    if pos >= end {
        if pos == end {
            Some(m)
        } else {
            None
        }
    } else {
        match field_at(b, pos, end) {
            Some((n, v, q)) => if pos < q <= end {
                match blob_header_step(b, m, n, v) {
                    Some(m2) => blob_header_fields(b, q, end, m2),
                    None => None,
                }
            } else {
                None
            },
            None => None,
        }
    }
}

/// The frame header that the bytes `s..e` encode: its type and size must
/// be present.
pub open spec fn spec_decode_blob_header(b: Seq<u8>, s: int, e: int) -> Option<BlobHeaderV> {
    match blob_header_fields(
        b,
        s,
        e,
        BlobHeaderFields { type_: None, indexdata: None, datasize: None },
    ) {
        Some(f) => if f.type_ is Some && f.datasize is Some {
            Some(
                BlobHeaderV {
                    type_: f.type_->0,
                    indexdata: f.indexdata,
                    datasize: f.datasize->0,
                },
            )
        } else {
            None
        },
        None => None,
    }
}

/// Decodes a frame header from the bytes `start..end`.
pub fn decode_blob_header(b: &[u8], start: usize, end: usize) -> (r: Option<BlobHeader>)
    requires
        start <= end <= b@.len(),
    ensures
        match r {
            Some(h) => spec_decode_blob_header(b@, start as int, end as int) == Some(h@),
            None => spec_decode_blob_header(b@, start as int, end as int) is None,
        },
{
    let mut type_: Option<String> = None;
    let mut indexdata: Option<Vec<u8>> = None;
    let mut datasize: Option<i32> = None;
    let mut pos = start;
    while pos < end
        invariant
            start <= pos <= end <= b@.len(),
            blob_header_fields(
                b@,
                start as int,
                end as int,
                BlobHeaderFields { type_: None, indexdata: None, datasize: None },
            ) == blob_header_fields(
                b@,
                pos as int,
                end as int,
                BlobHeaderFields {
                    type_: opt_text(type_),
                    indexdata: match indexdata {
                        Some(d) => Some(d@),
                        None => None,
                    },
                    datasize,
                },
            ),
        decreases end - pos,
    {
        proof {
            lemma_field_bounds(b@, pos as int, end as int);
        }
        let (num, v, next) = match read_field(b, pos, end) {
            Some(f) => f,
            None => return None,
        };
        if num == 1 {
            match v {
                WireValue::Bytes(s, e) => match text_of(b, s, e) {
                    Some(t) => {
                        type_ = Some(t);
                    },
                    None => return None,
                },
                _ => return None,
            }
        } else if num == 2 {
            match v {
                WireValue::Bytes(s, e) => {
                    indexdata = Some(copy_bytes(b, s, e));
                },
                _ => return None,
            }
        } else if num == 3 {
            match v {
                WireValue::Varint(x) => {
                    datasize = Some(#[verifier::truncate] (x as i32));
                },
                _ => return None,
            }
        }
        pos = next;
    }
    match (type_, datasize) {
        (Some(t), Some(d)) => Some(BlobHeader { type_: t, indexdata, datasize: d }),
        _ => None,
    }
}

pub open spec fn blob_step(b: Seq<u8>, m: PbfBlobV, n: u64, v: WireValue) -> Option<PbfBlobV> {
    if n == 2 {
        match v {
            WireValue::Varint(x) => Some(PbfBlobV { raw_size: Some(x as i32), data: m.data }),
            _ => None,
        }
    } else if 1 <= n <= 7 {
        match v {
            WireValue::Bytes(s, e) => Some(
                PbfBlobV { raw_size: m.raw_size, data: Some((n, b.subrange(s as int, e as int))) },
            ),
            _ => None,
        }
    } else {
        Some(m)
    }
}

pub open spec fn blob_fields(b: Seq<u8>, pos: int, end: int, m: PbfBlobV) -> Option<PbfBlobV>
    decreases end - pos,
{
    if pos >= end {
        if pos == end {
            Some(m)
        } else {
            None
        }
    } else {
        match field_at(b, pos, end) {
            Some((n, v, q)) => if pos < q <= end {
                match blob_step(b, m, n, v) {
                    Some(m2) => blob_fields(b, q, end, m2),
                    None => None,
                }
            } else {
                None
            },
            None => None,
        }
    }
}

/// The blob that the bytes `s..e` encode; of several payloads the last one counts.
pub open spec fn spec_decode_blob(b: Seq<u8>, s: int, e: int) -> Option<PbfBlobV> {
    blob_fields(b, s, e, PbfBlobV { raw_size: None, data: None })
}

/// Decodes a blob from the bytes `start..end`.
pub fn decode_blob(b: &[u8], start: usize, end: usize) -> (r: Option<PbfBlob>)
    requires
        start <= end <= b@.len(),
    ensures
        match r {
            Some(m) => spec_decode_blob(b@, start as int, end as int) == Some(m@),
            None => spec_decode_blob(b@, start as int, end as int) is None,
        },
{
    let mut m = PbfBlob { raw_size: None, data: None };
    let mut pos = start;
    while pos < end
        invariant
            start <= pos <= end <= b@.len(),
            spec_decode_blob(b@, start as int, end as int) == blob_fields(
                b@,
                pos as int,
                end as int,
                m@,
            ),
        decreases end - pos,
    {
        proof {
            lemma_field_bounds(b@, pos as int, end as int);
        }
        let (num, v, next) = match read_field(b, pos, end) {
            Some(f) => f,
            None => return None,
        };
        if num == 2 {
            match v {
                WireValue::Varint(x) => {
                    m.raw_size = Some(#[verifier::truncate] (x as i32));
                },
                _ => return None,
            }
        } else if 1 <= num && num <= 7 {
            match v {
                WireValue::Bytes(s, e) => {
                    let payload = copy_bytes(b, s, e);
                    m.data = Some(
                        if num == 1 {
                            BlobData::Raw(payload)
                        } else if num == 3 {
                            BlobData::ZlibData(payload)
                        } else if num == 4 {
                            BlobData::LzmaData(payload)
                        } else if num == 5 {
                            BlobData::Bzip2Data(payload)
                        } else if num == 6 {
                            BlobData::Lz4Data(payload)
                        } else {
                            BlobData::ZstdData(payload)
                        },
                    );
                },
                _ => return None,
            }
        }
        pos = next;
    }
    Some(m)
}

/// What a zlib stream inflates to, read up to a limit; `None` when it is corrupt.
pub uninterp spec fn zlib_inflated(z: Seq<u8>, limit: u64) -> Option<Seq<u8>>;

/// What an xz stream decompresses to, read up to a limit; `None` when it is corrupt.
pub uninterp spec fn xz_inflated(z: Seq<u8>, limit: u64) -> Option<Seq<u8>>;

/// Relies on flate2::bufread::ZlibDecoder, read through std's `take` and
/// `read_to_end`: the inflated bytes, at most `limit` of them, or `None`
/// when the stream is corrupt.
#[verifier::external_body]
fn inflate_zlib(z: &[u8], limit: u64) -> (r: Option<Vec<u8>>)
    ensures
        match r {
            Some(v) => zlib_inflated(z@, limit) == Some(v@) && v@.len() <= limit,
            None => zlib_inflated(z@, limit) is None,
        },
{
    let mut out = Vec::new();
    let decoder = flate2::bufread::ZlibDecoder::new(z);
    match std::io::Read::read_to_end(&mut std::io::Read::take(decoder, limit), &mut out) {
        Ok(_) => Some(out),
        Err(_) => None,
    }
}

/// Relies on xz2::bufread::XzDecoder, read through std's `take` and
/// `read_to_end`: the decompressed bytes, at most `limit` of them, or `None`
/// when the stream is corrupt.
#[verifier::external_body]
fn inflate_xz(z: &[u8], limit: u64) -> (r: Option<Vec<u8>>)
    ensures
        match r {
            Some(v) => xz_inflated(z@, limit) == Some(v@) && v@.len() <= limit,
            None => xz_inflated(z@, limit) is None,
        },
{
    let mut out = Vec::new();
    let decoder = xz2::bufread::XzDecoder::new(z);
    match std::io::Read::read_to_end(&mut std::io::Read::take(decoder, limit), &mut out) {
        Ok(_) => Some(out),
        Err(_) => None,
    }
}

/// What a decompressor handed back, read with a limit one past
/// [`MAX_UNCOMPRESSED_DATA_SIZE`]: a corrupt stream fails to parse, and a
/// payload over the maximum is too large.
pub fn check_inflated(r: Option<Vec<u8>>) -> (out: Result<Vec<u8>, Error>)
    ensures
        match r {
            None => out == Err::<Vec<u8>, Error>(Error::ProtobufParse),
            Some(v) => if v@.len() > MAX_UNCOMPRESSED_DATA_SIZE {
                out == Err::<Vec<u8>, Error>(Error::BlobDataTooLarge)
            } else {
                out is Ok && out->Ok_0@ == v@
            },
        },
{
    match r {
        None => Err(Error::ProtobufParse),
        Some(v) => {
            if v.len() > MAX_UNCOMPRESSED_DATA_SIZE {
                Err(Error::BlobDataTooLarge)
            } else {
                Ok(v)
            }
        },
    }
}

pub open spec fn inflate_limit() -> u64 {
    (MAX_UNCOMPRESSED_DATA_SIZE + 1) as u64
}

/// The uncompressed payload of a blob as [`check_inflated`] sees it; `None`
/// for a blob without payload.
pub open spec fn spec_payload(blob: PbfBlobV) -> Result<Option<Seq<u8>>, Error> {
    let checked = |r: Option<Seq<u8>>|
        match r {
            None => Err(Error::ProtobufParse),
            Some(v) => if v.len() > MAX_UNCOMPRESSED_DATA_SIZE {
                Err(Error::BlobDataTooLarge)
            } else {
                Ok(Some(v))
            },
        };
    match blob.data {
        None => Ok(None),
        Some((n, d)) => if n == 1 {
            Ok(Some(d))
        } else if n == 3 {
            checked(zlib_inflated(d, inflate_limit()))
        } else if n == 4 {
            checked(xz_inflated(d, inflate_limit()))
        } else {
            Err(Error::UnsupportedEncoding)
        },
    }
}

/// The uncompressed payload of a blob: raw bytes as they are, zlib and xz
/// streams decompressed; other codecs are unsupported.
pub fn blob_payload(blob: &PbfBlob) -> (r: Result<Option<Vec<u8>>, Error>)
    ensures
        match (r, spec_payload(blob@)) {
            (Ok(Some(v)), Ok(Some(w))) => v@ == w,
            (Ok(None), Ok(None)) => true,
            (Err(e), Err(f)) => e == f,
            _ => false,
        },
{
    match &blob.data {
        None => Ok(None),
        Some(BlobData::Raw(raw)) => Ok(Some(copy_bytes(raw.as_slice(), 0, raw.len()))),
        Some(BlobData::ZlibData(z)) => {
            let limit = MAX_UNCOMPRESSED_DATA_SIZE as u64 + 1;
            match check_inflated(inflate_zlib(z.as_slice(), limit)) {
                Ok(v) => Ok(Some(v)),
                Err(e) => Err(e),
            }
        },
        Some(BlobData::LzmaData(z)) => {
            let limit = MAX_UNCOMPRESSED_DATA_SIZE as u64 + 1;
            match check_inflated(inflate_xz(z.as_slice(), limit)) {
                Ok(v) => Ok(Some(v)),
                Err(e) => Err(e),
            }
        },
        _ => Err(Error::UnsupportedEncoding),
    }
}

/// A block with no groups, no strings and the default scaling.
pub open spec fn is_empty_block(m: PrimitiveBlock) -> bool {
    &&& m.stringtable@.len() == 0
    &&& m.primitivegroup@.len() == 0
    &&& m.granularity == 100 && m.lat_offset == 0 && m.lon_offset == 0
    &&& m.date_granularity == 1000
}

/// What decoding a blob into a primitive block may give: the payload's
/// error; an empty block when there is no payload; else a block decoded
/// from whole fields, or a parse error.
pub open spec fn decoded_from(blob: PbfBlobV, r: Result<PrimitiveBlock, Error>) -> bool {
    match spec_payload(blob) {
        Err(e) => r == Err::<PrimitiveBlock, Error>(e),
        Ok(None) => r is Ok && is_empty_block(r->Ok_0),
        Ok(Some(w)) => match r {
            Ok(m) => spec_decode_primitive_block(w, 0, w.len() as int) == Some(m@),
            Err(e) => e == Error::ProtobufParse && spec_decode_primitive_block(
                w,
                0,
                w.len() as int,
            ) is None,
        },
    }
}

/// Decodes the primitive block that a blob holds; a blob without payload
/// holds an empty block.
pub fn decode_primitive_blob(blob: &PbfBlob) -> (r: Result<PrimitiveBlock, Error>)
    ensures
        decoded_from(blob@, r),
{
    match blob_payload(blob) {
        Err(e) => Err(e),
        Ok(None) => Ok(PrimitiveBlock::new()),
        Ok(Some(v)) => match decode_primitive_block(v.as_slice(), 0, v.len()) {
            Some(m) => Ok(m),
            None => Err(Error::ProtobufParse),
        },
    }
}

/// What decoding a blob into a header block gives: the payload's error; an
/// empty header when there is no payload; else the header block decoded from
/// it, or a parse error.
pub open spec fn header_from(blob: PbfBlobV) -> Result<HeaderBlockV, Error> {
    match spec_payload(blob) {
        Err(e) => Err(e),
        Ok(None) => Ok(empty_header_block()),
        Ok(Some(w)) => match spec_decode_header_block(w, 0, w.len() as int) {
            Some(h) => Ok(h),
            None => Err(Error::ProtobufParse),
        },
    }
}

/// Decodes the header block that a blob holds; a blob without payload
/// holds an empty header.
pub fn decode_header_blob(blob: &PbfBlob) -> (r: Result<HeaderBlock, Error>)
    ensures
        match (r, header_from(blob@)) {
            (Ok(m), Ok(h)) => m@ == h,
            (Err(e), Err(f)) => e == f,
            _ => false,
        },
{
    match blob_payload(blob) {
        Err(e) => Err(e),
        Ok(None) => {
            let m = HeaderBlock::new();
            proof {
                assert(texts_view(m.required_features@) =~= seq![]);
                assert(texts_view(m.optional_features@) =~= seq![]);
            }
            Ok(m)
        },
        Ok(Some(v)) => match decode_header_block(v.as_slice(), 0, v.len()) {
            Some(m) => Ok(m),
            None => Err(Error::ProtobufParse),
        },
    }
}

/// A data blob, kept encoded until it is first decoded.
#[derive(Clone, Debug, PartialEq)]
pub enum Blob {
    Encoded(PbfBlob),
    Decoded(PrimitiveBlock),
}

impl Blob {
    pub fn new(blob: PbfBlob) -> (r: Blob)
        ensures
            r == Blob::Encoded(blob),
    {
        Blob::Encoded(blob)
    }

    /// Decodes the blob in place, once: a decoded blob stays as it is, and
    /// a failed decode leaves the blob encoded.
    pub fn decode(&mut self) -> (r: Result<(), Error>)
        ensures
            *old(self) is Decoded ==> r is Ok && *final(self) == *old(self),
            *old(self) is Encoded ==> match r {
                Ok(_) => *final(self) is Decoded && decoded_from(
                    old(self)->Encoded_0@,
                    Ok(final(self)->Decoded_0),
                ),
                Err(e) => decoded_from(old(self)->Encoded_0@, Err(e)) && *final(self) == *old(
                    self,
                ),
            },
    {
        if let Blob::Encoded(b) = self {
            match decode_primitive_blob(b) {
                Ok(m) => {
                    *self = Blob::Decoded(m);
                },
                Err(e) => {
                    return Err(e);
                },
            }
        }
        Ok(())
    }

    /// The decoded block, decoding it first if needed.
    pub fn decode_into(self) -> (r: Result<PrimitiveBlock, Error>)
        ensures
            self matches Blob::Decoded(m) ==> r == Ok::<PrimitiveBlock, Error>(m),
            self matches Blob::Encoded(b) ==> decoded_from(b@, r),
    {
        match self {
            Blob::Decoded(m) => Ok(m),
            Blob::Encoded(b) => decode_primitive_blob(&b),
        }
    }

    /// Decodes the blob message in the bytes `start..end` and then the
    /// primitive block that it holds.
    pub fn parse_and_decode(b: &[u8], start: usize, end: usize) -> (r: Result<
        PrimitiveBlock,
        Error,
    >)
        requires
            start <= end <= b@.len(),
        ensures
            spec_decode_blob(b@, start as int, end as int) is None ==> r == Err::<
                PrimitiveBlock,
                Error,
            >(Error::ProtobufParse),
            spec_decode_blob(b@, start as int, end as int) matches Some(v) ==> decoded_from(v, r),
    {
        match decode_blob(b, start, end) {
            Some(blob) => decode_primitive_blob(&blob),
            None => Err(Error::ProtobufParse),
        }
    }

    /// The block, once decoded.
    pub fn decoded(&self) -> (r: Option<&PrimitiveBlock>)
        ensures
            self matches Blob::Decoded(m) ==> r is Some && *r->0 == m,
            self is Encoded ==> r is None,
    {
        match self {
            Blob::Decoded(m) => Some(m),
            Blob::Encoded(_) => None,
        }
    }
}

} // verus!
