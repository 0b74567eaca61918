//! Reading a whole file: the header block first, then data blobs in order.

use vstd::prelude::*;
use vstd::utf8::encode_utf8;

use crate::blob::{
    be_u32, check_data_size, check_header_size, decode_blob, decode_blob_header,
    decode_header_blob, decoded_from, header_from, read_be_u32, spec_decode_blob,
    spec_decode_blob_header, Blob, BlobHeader, BlobHeaderV, Error, PbfBlob, PbfBlobV,
    MAX_HEADER_SIZE, MAX_UNCOMPRESSED_DATA_SIZE,
};
use crate::osmformat::{texts_view, HeaderBlock, HeaderBlockV, PrimitiveBlock};
use crate::tags::bytes_eq;

verus! {

/// The error that the sizes at the start of a frame at `pos` call for, if any:
/// a partial size prefix or a truncated header is an early end of input, and a
/// header over [`MAX_HEADER_SIZE`] is too large.
pub open spec fn framing_error(b: Seq<u8>, pos: int) -> Option<Error> {
    if pos >= b.len() {
        None
    } else if b.len() - pos < 4 {
        Some(Error::UnexpectedEof)
    } else if be_u32(b, pos) > MAX_HEADER_SIZE {
        Some(Error::BlobHeaderTooLarge)
    } else if b.len() - pos - 4 < be_u32(b, pos) {
        Some(Error::UnexpectedEof)
    } else {
        None
    }
}

/// The header of the frame at `pos` and where its blob starts; `None` when
/// the input ends exactly there.
pub open spec fn frame_header(b: Seq<u8>, pos: int) -> Result<Option<(BlobHeaderV, int)>, Error> {
    if pos >= b.len() {
        Ok(None)
    } else {
        match framing_error(b, pos) {
            Some(e) => Err(e),
            None => {
                let next = pos + 4 + be_u32(b, pos);
                match spec_decode_blob_header(b, pos + 4, next) {
                    None => Err(Error::ProtobufParse),
                    Some(h) => if 0 <= h.datasize <= MAX_UNCOMPRESSED_DATA_SIZE {
                        Ok(Some((h, next)))
                    } else {
                        Err(Error::BlobDataTooLarge)
                    },
                }
            },
        }
    }
}

/// The blob of `size` bytes at `pos` and the position after it.
pub open spec fn frame_body(b: Seq<u8>, pos: int, size: int) -> Result<(PbfBlobV, int), Error> {
    if b.len() - pos < size {
        Err(Error::UnexpectedEof)
    } else {
        match spec_decode_blob(b, pos, pos + size) {
            Some(v) => Ok((v, pos + size)),
            None => Err(Error::ProtobufParse),
        }
    }
}

/// A blob type names the expected one, compared as bytes.
pub open spec fn names_type(t: Seq<char>, expected: Seq<char>) -> bool {
    encode_utf8(t) == encode_utf8(expected)
}

/// Reads the header of the frame at `pos`: `None` when the input ends
/// exactly there; else the header and the position of the blob after it.
pub fn read_blob_header(b: &[u8], pos: usize) -> (r: Result<Option<(BlobHeader, usize)>, Error>)
    requires
        pos <= b@.len(),
    ensures
        pos == b@.len() ==> r == Ok::<Option<(BlobHeader, usize)>, Error>(None),
        framing_error(b@, pos as int) matches Some(e) ==> r == Err::<
            Option<(BlobHeader, usize)>,
            Error,
        >(e),
        match (r, frame_header(b@, pos as int)) {
            (Ok(None), Ok(None)) => true,
            (Ok(Some((h, n))), Ok(Some((hv, m)))) => h@ == hv && n == m,
            (Err(e), Err(f)) => e == f,
            _ => false,
        },
        pos < b@.len() && framing_error(b@, pos as int) is None ==> {
            let next = pos + 4 + be_u32(b@, pos as int);
            match spec_decode_blob_header(b@, pos + 4, next) {
                None => r == Err::<Option<(BlobHeader, usize)>, Error>(Error::ProtobufParse),
                Some(h) => if 0 <= h.datasize <= MAX_UNCOMPRESSED_DATA_SIZE {
                    r matches Ok(Some((x, n))) && x@ == h && n == next && n <= b@.len()
                } else {
                    r == Err::<Option<(BlobHeader, usize)>, Error>(Error::BlobDataTooLarge)
                },
            }
        },
{
    if pos == b.len() {
        return Ok(None);
    }
    if b.len() - pos < 4 {
        return Err(Error::UnexpectedEof);
    }
    let header_size = read_be_u32(b, pos);
    if let Err(e) = check_header_size(header_size) {
        return Err(e);
    }
    if ((b.len() - pos - 4) as u64) < header_size as u64 {
        return Err(Error::UnexpectedEof);
    }
    let start = pos + 4;
    let end = start + header_size as usize;
    let header = match decode_blob_header(b, start, end) {
        Some(h) => h,
        None => return Err(Error::ProtobufParse),
    };
    match check_data_size(header.datasize) {
        Ok(_) => Ok(Some((header, end))),
        Err(e) => Err(e),
    }
}

/// Reads the blob of `datasize` bytes at `pos`.
pub fn read_blob_body(b: &[u8], pos: usize, datasize: i32) -> (r: Result<(PbfBlob, usize), Error>)
    requires
        pos <= b@.len(),
        0 <= datasize,
    ensures
        match (r, frame_body(b@, pos as int, datasize as int)) {
            (Ok((blob, n)), Ok((v, m))) => blob@ == v && n == m,
            (Err(e), Err(f)) => e == f,
            _ => false,
        },
        b@.len() - pos < datasize ==> r == Err::<(PbfBlob, usize), Error>(Error::UnexpectedEof),
        r matches Err(e) ==> e == Error::UnexpectedEof || e == Error::ProtobufParse,
        b@.len() - pos >= datasize ==> match r {
            Ok((blob, next)) => next == pos + datasize && spec_decode_blob(b@, pos as int, next as int)
                == Some(blob@),
            Err(e) => e == Error::ProtobufParse && spec_decode_blob(
                b@,
                pos as int,
                pos + datasize,
            ) is None,
        },
{
    if ((b.len() - pos) as u64) < datasize as u64 {
        return Err(Error::UnexpectedEof);
    }
    let end = pos + datasize as usize;
    match decode_blob(b, pos, end) {
        Some(blob) => Ok((blob, end)),
        None => Err(Error::ProtobufParse),
    }
}

/// Whether a blob type is the given one, compared as bytes.
pub fn type_is(t: &String, expected: &str) -> (r: bool)
    ensures
        r == names_type(t@, expected@),
{
    bytes_eq(t.as_str().as_bytes(), expected.as_bytes())
}

/// The required features that this reader supports.
pub open spec fn supported_feature(f: Seq<char>) -> bool {
    let b = encode_utf8(f);
    b == encode_utf8("OSMSchema-V0.6"@) || b == encode_utf8(
        "DenseNodes"@,
    ) || b == encode_utf8("HistoricalInformation"@)
}

/// Whether a required feature is supported.
pub fn is_supported_feature(f: &String) -> (r: bool)
    ensures
        r == supported_feature(f@),
{
    type_is(f, "OSMSchema-V0.6") || type_is(f, "DenseNodes")
        || type_is(f, "HistoricalInformation")
}

/// Fails on the first required feature of the header that is not supported.
pub fn check_required_features(h: &HeaderBlock) -> (r: Result<(), Error>)
    ensures
        (forall|i: int|
            0 <= i < h@.required_features.len() ==> supported_feature(
                #[trigger] h@.required_features[i],
            )) ==> r is Ok,
        !(forall|i: int|
            0 <= i < h@.required_features.len() ==> supported_feature(
                #[trigger] h@.required_features[i],
            )) ==> exists|i: int|
            0 <= i < h@.required_features.len() && !supported_feature(
                #[trigger] h@.required_features[i],
            ) && (forall|j: int|
                0 <= j < i ==> supported_feature(#[trigger] h@.required_features[j])) && (r matches Err(
                Error::UnknownRequiredFeature(f),
            ) && f@ == h@.required_features[i]),
{
    let ghost rf = h@.required_features;
    let mut i: usize = 0;
    while i < h.required_features.len()
        invariant
            rf == h@.required_features,
            rf.len() == h.required_features@.len(),
            i <= rf.len(),
            forall|j: int| 0 <= j < i ==> supported_feature(#[trigger] rf[j]),
        decreases rf.len() - i,
    {
        assert(rf[i as int] == h.required_features@[i as int]@);
        if !is_supported_feature(&h.required_features[i]) {
            let f = h.required_features[i].clone();
            assert(!supported_feature(rf[i as int]));
            return Err(Error::UnknownRequiredFeature(f));
        }
        i = i + 1;
    }
    Ok(())
}

/// What opening a file gives once its header block `hb` is decoded and its
/// first data frame starts at `end`: a reader there when every required
/// feature is supported, else the first unsupported feature.
pub open spec fn opened(r: Result<Blobs, Error>, input: Seq<u8>, hb: HeaderBlockV, end: int) -> bool {
    let rf = hb.required_features;
    if forall|i: int| 0 <= i < rf.len() ==> supported_feature(#[trigger] rf[i]) {
        r matches Ok(bl) && bl.wf() && bl.spec_header()@ == hb && bl.input() == input
            && bl.position() == end && bl.data_start() == end
    } else {
        exists|i: int|
            0 <= i < rf.len() && !supported_feature(#[trigger] rf[i]) && (forall|j: int|
                0 <= j < i ==> supported_feature(#[trigger] rf[j])) && (r matches Err(
                Error::UnknownRequiredFeature(f),
            ) && f@ == rf[i])
    }
}

/// The header size that a frame's four-byte prefix announces; over
/// [`MAX_HEADER_SIZE`] it is too large.
pub fn frame_header_size(prefix: &[u8]) -> (r: Result<usize, Error>)
    requires
        prefix@.len() == 4,
    ensures
        be_u32(prefix@, 0) <= MAX_HEADER_SIZE ==> r == Ok::<usize, Error>(
            be_u32(prefix@, 0) as usize,
        ),
        be_u32(prefix@, 0) > MAX_HEADER_SIZE ==> r == Err::<usize, Error>(
            Error::BlobHeaderTooLarge,
        ),
{
    let n = read_be_u32(prefix, 0);
    match check_header_size(n) {
        Ok(()) => Ok(n as usize),
        Err(e) => Err(e),
    }
}

/// Checks that a frame header has the expected type.
pub fn expect_type(h: &BlobHeader, expected: &str) -> (r: Result<(), Error>)
    ensures
        names_type(h.type_@, expected@) ==> r is Ok,
        !names_type(h.type_@, expected@) ==> (r matches Err(Error::UnexpectedBlobType(t))
            && t@ == h.type_@),
{
    if type_is(&h.type_, expected) {
        Ok(())
    } else {
        Err(Error::UnexpectedBlobType(h.type_.clone()))
    }
}

/// The header block that the first frame's blob holds, once its required
/// features are checked.
pub fn open_header(blob: &PbfBlob) -> (r: Result<HeaderBlock, Error>)
    ensures
        match header_from(blob@) {
            Err(e) => r == Err::<HeaderBlock, Error>(e),
            Ok(hb) => {
                let rf = hb.required_features;
                if forall|i: int| 0 <= i < rf.len() ==> supported_feature(#[trigger] rf[i]) {
                    r matches Ok(m) && m@ == hb
                } else {
                    exists|i: int|
                        0 <= i < rf.len() && !supported_feature(#[trigger] rf[i]) && (forall|
                            j: int,
                        | 0 <= j < i ==> supported_feature(#[trigger] rf[j])) && (r matches Err(
                            Error::UnknownRequiredFeature(f),
                        ) && f@ == rf[i])
                }
            },
        },
{
    let header = match decode_header_blob(blob) {
        Err(e) => return Err(e),
        Ok(m) => m,
    };
    match check_required_features(&header) {
        Err(e) => Err(e),
        Ok(()) => Ok(header),
    }
}

/// The frames from `from` up to `to` are whole frames, each with a header
/// that `cond` refused.
pub open spec fn frames_skipped<F: Fn(&BlobHeader) -> bool>(
    cond: F,
    b: Seq<u8>,
    from: int,
    to: int,
) -> bool
    decreases to - from,
{
    if from >= to {
        from == to
    } else {
        match frame_header(b, from) {
            Ok(Some((hv, e))) => from < e + hv.datasize <= b.len() && e + hv.datasize <= to && (exists|h: BlobHeader|
                h@ == hv && #[trigger] cond.ensures((&h,), false)) && frames_skipped(
                cond,
                b,
                e + hv.datasize,
                to,
            ),
            _ => false,
        }
    }
}

/// What reading the frame at `p` gives once earlier frames were passed over:
/// the framing error, `None` at the end, the frame when `cond` accepts its
/// header, or the error of reading its blob, or of skipping past the end.
pub open spec fn found_frame<F: Fn(&BlobHeader) -> bool>(
    cond: F,
    b: Seq<u8>,
    p: int,
    r: Result<Option<(BlobHeader, PbfBlob)>, Error>,
    end_pos: int,
) -> bool {
    match frame_header(b, p) {
        Err(e) => r == Err::<Option<(BlobHeader, PbfBlob)>, Error>(e),
        Ok(None) => r == Ok::<Option<(BlobHeader, PbfBlob)>, Error>(None),
        Ok(Some((hv, e))) => match r {
            Ok(Some((h, pb))) => h@ == hv && cond.ensures((&h,), true) && frame_body(
                b,
                e,
                hv.datasize as int,
            ) == Ok::<(PbfBlobV, int), Error>((pb@, end_pos)),
            Err(er) => (exists|h: BlobHeader| h@ == hv && #[trigger] cond.ensures((&h,), true))
                && frame_body(b, e, hv.datasize as int) == Err::<(PbfBlobV, int), Error>(er) || (
            exists|h: BlobHeader| h@ == hv && #[trigger] cond.ensures((&h,), false))
                && er == Error::UnexpectedEof && b.len() - e < hv.datasize,
            Ok(None) => false,
        },
    }
}

proof fn lemma_frames_skipped_append<F: Fn(&BlobHeader) -> bool>(
    cond: F,
    b: Seq<u8>,
    from: int,
    mid: int,
    to: int,
)
    requires
        frames_skipped(cond, b, from, mid),
        frames_skipped(cond, b, mid, to),
    ensures
        frames_skipped(cond, b, from, to),
    decreases mid - from,
{
    if from < mid {
        if let Ok(Some((hv, e))) = frame_header(b, from) {
            lemma_frames_skipped_append(cond, b, e + hv.datasize, mid, to);
        }
    }
}

/// A reader over the frames of a file held in memory. The header block is
/// read and checked when the reader is made.
#[derive(Debug)]
pub struct Blobs {
    header: HeaderBlock,
    data: Vec<u8>,
    pos: usize,
    data_start: usize,
}

impl Blobs {
    /// The bytes of the file.
    pub closed spec fn input(&self) -> Seq<u8> {
        self.data@
    }

    /// Where the next frame starts.
    pub closed spec fn position(&self) -> int {
        self.pos as int
    }

    /// Where the first data frame starts.
    pub closed spec fn data_start(&self) -> int {
        self.data_start as int
    }

    pub closed spec fn spec_header(&self) -> HeaderBlock {
        self.header
    }

    pub closed spec fn wf(&self) -> bool {
        self.pos <= self.data@.len() && self.data_start <= self.data@.len()
    }

    /// Opens a file held in memory: its first frame must be an `OSMHeader`
    /// blob whose header block requires only supported features.
    pub fn from_bytes(bytes: Vec<u8>) -> (r: Result<Blobs, Error>)
        ensures
            match frame_header(bytes@, 0) {
                Err(e) => r == Err::<Blobs, Error>(e),
                Ok(None) => r == Err::<Blobs, Error>(Error::UnexpectedEof),
                Ok(Some((hv, e))) => if !names_type(hv.type_, "OSMHeader"@) {
                    (r matches Err(Error::UnexpectedBlobType(t)) && t@ == hv.type_)
                } else {
                    match frame_body(bytes@, e, hv.datasize as int) {
                        Err(er) => r == Err::<Blobs, Error>(er),
                        Ok((bv, end)) => match header_from(bv) {
                            Err(er) => r == Err::<Blobs, Error>(er),
                            Ok(hb) => opened(r, bytes@, hb, end),
                        },
                    }
                },
            },

    {
        let (h, next) = match read_blob_header(bytes.as_slice(), 0) {
            Err(e) => return Err(e),
            Ok(None) => return Err(Error::UnexpectedEof),
            Ok(Some(x)) => x,
        };
        if !type_is(&h.type_, "OSMHeader") {
            return Err(Error::UnexpectedBlobType(h.type_));
        }
        let (blob, end) = match read_blob_body(bytes.as_slice(), next, h.datasize) {
            Err(e) => return Err(e),
            Ok(x) => x,
        };
        let header = match decode_header_blob(&blob) {
            Err(e) => return Err(e),
            Ok(m) => m,
        };
        if let Err(e) = check_required_features(&header) {
            return Err(e);
        }
        Ok(Blobs { header, data: bytes, pos: end, data_start: end })
    }

    /// The bytes of the file, giving up the reader.
    pub fn into_reader(self) -> (r: Vec<u8>)
        ensures
            r@ == self.input(),
    {
        self.data
    }

    /// The file's header block.
    pub fn header(&self) -> (r: &HeaderBlock)
        ensures
            *r == self.spec_header(),
    {
        &self.header
    }

    /// Goes back to the first data frame.
    pub fn rewind(&mut self)
        requires
            old(self).wf(),
        ensures
            final(self).wf(),
            final(self).input() == old(self).input(),
            final(self).data_start() == old(self).data_start(),
            final(self).position() == old(self).data_start(),
            final(self).spec_header() == old(self).spec_header(),
    {
        self.pos = self.data_start;
    }

    /// The next frame, whatever its type; `None` at the end of the input.
    pub fn next_blob(&mut self) -> (r: Result<Option<(BlobHeader, PbfBlob)>, Error>)
        requires
            old(self).wf(),
        ensures
            final(self).wf(),
            final(self).input() == old(self).input(),
            final(self).data_start() == old(self).data_start(),
            final(self).spec_header() == old(self).spec_header(),
            match frame_header(old(self).input(), old(self).position()) {
                Err(e) => r == Err::<Option<(BlobHeader, PbfBlob)>, Error>(e) && final(self).position() == old(
                    self,
                ).position(),
                Ok(None) => r == Ok::<Option<(BlobHeader, PbfBlob)>, Error>(None) && final(self).position() == old(
                    self,
                ).position(),
                Ok(Some((hv, e))) => match frame_body(old(self).input(), e, hv.datasize as int) {
                    Err(er) => r == Err::<Option<(BlobHeader, PbfBlob)>, Error>(er),
                    Ok((bv, end)) => final(self).position() == end && (r matches Ok(Some((h, pb))) && h@ == hv && pb@ == bv),
                },
            },

    {
        let (h, next) = match read_blob_header(self.data.as_slice(), self.pos) {
            Err(e) => return Err(e),
            Ok(None) => return Ok(None),
            Ok(Some(x)) => x,
        };
        let (blob, end) = match read_blob_body(self.data.as_slice(), next, h.datasize) {
            Err(e) => return Err(e),
            Ok(x) => x,
        };
        self.pos = end;
        Ok(Some((h, blob)))
    }

    /// The next data blob, still encoded; `None` at the end of the input. A
    /// frame whose type is not `OSMData` is an error.
    pub fn next_primitive_block(&mut self) -> (r: Result<Option<Blob>, Error>)
        requires
            old(self).wf(),
        ensures
            final(self).wf(),
            final(self).input() == old(self).input(),
            final(self).data_start() == old(self).data_start(),
            final(self).spec_header() == old(self).spec_header(),
            match frame_header(old(self).input(), old(self).position()) {
                Err(e) => r == Err::<Option<Blob>, Error>(e) && final(self).position() == old(
                    self,
                ).position(),
                Ok(None) => r == Ok::<Option<Blob>, Error>(None) && final(self).position() == old(
                    self,
                ).position(),
                Ok(Some((hv, e))) => if !names_type(hv.type_, "OSMData"@) {
                    (r matches Err(Error::UnexpectedBlobType(t)) && t@ == hv.type_)
                } else {
                    match frame_body(old(self).input(), e, hv.datasize as int) {
                    Err(er) => r == Err::<Option<Blob>, Error>(er),
                    Ok((bv, end)) => final(self).position() == end && (r matches Ok(Some(Blob::Encoded(pb))) && pb@ == bv),
                }
                },
            },

    {
        let (h, next) = match read_blob_header(self.data.as_slice(), self.pos) {
            Err(e) => return Err(e),
            Ok(None) => return Ok(None),
            Ok(Some(x)) => x,
        };
        if !type_is(&h.type_, "OSMData") {
            return Err(Error::UnexpectedBlobType(h.type_));
        }
        let (blob, end) = match read_blob_body(self.data.as_slice(), next, h.datasize) {
            Err(e) => return Err(e),
            Ok(x) => x,
        };
        self.pos = end;
        Ok(Some(Blob::Encoded(blob)))
    }

    /// The next frame whose header meets `cond`, passing over the others
    /// without decoding their blobs; `None` at the end of the input.
    pub fn next_blob_with<F: Fn(&BlobHeader) -> bool>(&mut self, cond: F) -> (r: Result<
        Option<(BlobHeader, PbfBlob)>,
        Error,
    >)
        requires
            old(self).wf(),
            forall|h: &BlobHeader| cond.requires((h,)),
        ensures
            final(self).wf(),
            final(self).input() == old(self).input(),
            final(self).data_start() == old(self).data_start(),
            final(self).spec_header() == old(self).spec_header(),
            exists|p: int|
                frames_skipped(cond, old(self).input(), old(self).position(), p) && found_frame(
                    cond,
                    old(self).input(),
                    p,
                    r,
                    final(self).position(),
                ),
    {
        let ghost start = self.pos as int;
        loop
            invariant
                self.wf(),
                self.input() == old(self).input(),
                self.data_start() == old(self).data_start(),
                self.spec_header() == old(self).spec_header(),
                forall|h: &BlobHeader| cond.requires((h,)),
                start == old(self).position(),
                frames_skipped(cond, self.data@, start, self.pos as int),
            decreases self.data@.len() - self.pos,
        {
            let ghost p = self.pos as int;
            let (h, next) = match read_blob_header(self.data.as_slice(), self.pos) {
                Err(e) => return Err(e),
                Ok(None) => return Ok(None),
                Ok(Some(x)) => x,
            };
            let wanted = cond(&h);
            if wanted {
                let (blob, end) = match read_blob_body(self.data.as_slice(), next, h.datasize) {
                    Err(e) => return Err(e),
                    Ok(x) => x,
                };
                self.pos = end;
                return Ok(Some((h, blob)));
            }
            let size = h.datasize as usize;
            if self.data.len() - next < size {
                return Err(Error::UnexpectedEof);
            }
            self.pos = next + size;
            proof {
                let q = self.pos as int;
                assert(frames_skipped(cond, self.data@, q, q));
                assert(frames_skipped(cond, self.data@, p, q));
                lemma_frames_skipped_append(cond, self.data@, start, p, q);
            }
        }
    }

    /// The next data blob, decoded; `None` at the end of the input.
    pub fn next_primitive_block_decoded(&mut self) -> (r: Result<Option<PrimitiveBlock>, Error>)
        requires
            old(self).wf(),
        ensures
            final(self).wf(),
            final(self).input() == old(self).input(),
            final(self).data_start() == old(self).data_start(),
            final(self).spec_header() == old(self).spec_header(),
            match frame_header(old(self).input(), old(self).position()) {
                Err(e) => r == Err::<Option<PrimitiveBlock>, Error>(e) && final(self).position() == old(
                    self,
                ).position(),
                Ok(None) => r == Ok::<Option<PrimitiveBlock>, Error>(None) && final(self).position() == old(
                    self,
                ).position(),
                Ok(Some((hv, e))) => if !names_type(hv.type_, "OSMData"@) {
                    (r matches Err(Error::UnexpectedBlobType(t)) && t@ == hv.type_)
                } else {
                    match frame_body(old(self).input(), e, hv.datasize as int) {
                    Err(er) => r == Err::<Option<PrimitiveBlock>, Error>(er),
                    Ok((bv, end)) => final(self).position() == end && match r {
                        Ok(Some(m)) => decoded_from(bv, Ok(m)),
                        Err(er) => decoded_from(bv, Err(er)),
                        Ok(None) => false,
                    },
                }
                },
            },

    {
        match self.next_primitive_block() {
            Err(e) => Err(e),
            Ok(None) => Ok(None),
            Ok(Some(blob)) => match blob.decode_into() {
                Ok(m) => Ok(Some(m)),
                Err(e) => Err(e),
            },
        }
    }
}

} // verus!
