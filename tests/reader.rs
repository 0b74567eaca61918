use std::io::Write;

use osmpbf_reader::blob::{Blob, BlobData, Error, PbfBlob};
use osmpbf_reader::primitives::Primitive;
use osmpbf_reader::reader::{expect_type, frame_header_size, open_header, read_blob_header, Blobs};

fn varint(mut v: u64, out: &mut Vec<u8>) {
    loop {
        let b = (v & 0x7f) as u8;
        v >>= 7;
        if v == 0 {
            out.push(b);
            return;
        }
        out.push(b | 0x80);
    }
}

fn field_varint(num: u64, v: u64, out: &mut Vec<u8>) {
    varint(num << 3, out);
    varint(v, out);
}

fn field_bytes(num: u64, data: &[u8], out: &mut Vec<u8>) {
    varint((num << 3) | 2, out);
    varint(data.len() as u64, out);
    out.extend_from_slice(data);
}

fn zz(v: i64) -> u64 {
    ((v << 1) ^ (v >> 63)) as u64
}

fn packed(vals: &[u64]) -> Vec<u8> {
    let mut out = Vec::new();
    for v in vals {
        varint(*v, &mut out);
    }
    out
}

fn frame_with_header(header: &[u8], blob: &[u8]) -> Vec<u8> {
    let mut out = (header.len() as u32).to_be_bytes().to_vec();
    out.extend_from_slice(header);
    out.extend_from_slice(blob);
    out
}

fn blob_header(type_: &str, datasize: u64) -> Vec<u8> {
    let mut h = Vec::new();
    field_bytes(1, type_.as_bytes(), &mut h);
    field_varint(3, datasize, &mut h);
    h
}

fn frame(type_: &str, blob: &[u8]) -> Vec<u8> {
    frame_with_header(&blob_header(type_, blob.len() as u64), blob)
}

fn raw_blob(payload: &[u8]) -> Vec<u8> {
    let mut b = Vec::new();
    field_bytes(1, payload, &mut b);
    b
}

fn header_block(features: &[&str]) -> Vec<u8> {
    let mut h = Vec::new();
    for f in features {
        field_bytes(4, f.as_bytes(), &mut h);
    }
    h
}

fn header_frame() -> Vec<u8> {
    frame("OSMHeader", &raw_blob(&header_block(&["OSMSchema-V0.6", "DenseNodes"])))
}

fn dense_block(ids: &[i64], lats: &[i64], lons: &[i64], kv: &[u64]) -> Vec<u8> {
    let mut dense = Vec::new();
    field_bytes(1, &packed(&ids.iter().map(|v| zz(*v)).collect::<Vec<_>>()), &mut dense);
    field_bytes(8, &packed(&lats.iter().map(|v| zz(*v)).collect::<Vec<_>>()), &mut dense);
    field_bytes(9, &packed(&lons.iter().map(|v| zz(*v)).collect::<Vec<_>>()), &mut dense);
    field_bytes(10, &packed(kv), &mut dense);
    let mut group = Vec::new();
    field_bytes(2, &dense, &mut group);
    let mut strings = Vec::new();
    field_bytes(1, b"", &mut strings);
    let mut block = Vec::new();
    field_bytes(1, &strings, &mut block);
    field_bytes(2, &group, &mut block);
    field_varint(17, 100, &mut block);
    block
}

#[test]
fn minimal_file() {
    let mut file = header_frame();
    file.extend(frame("OSMData", &raw_blob(&dense_block(&[42], &[500], &[-1000], &[0]))));
    let mut blobs = Blobs::from_bytes(file).unwrap();
    assert_eq!(blobs.header().required_features.len(), 2);
    let block = blobs.next_primitive_block_decoded().unwrap().unwrap();
    let mut it = block.primitives();
    match it.next() {
        Some(Primitive::Node(n)) => {
            assert_eq!(n.id, 42);
            assert_eq!(n.nano_lat, 50000);
            assert_eq!(n.nano_lon, -100000);
            assert!((n.nano_lat as f64 * 1e-9 - 5e-5).abs() < 1e-12);
            assert!((n.nano_lon as f64 * 1e-9 + 1e-4).abs() < 1e-12);
        }
        _ => panic!("expected a node"),
    }
    assert!(it.next().is_none());
    assert!(blobs.next_primitive_block().unwrap().is_none());
}

#[test]
fn oversize_header_is_rejected() {
    let mut file = 100_000u32.to_be_bytes().to_vec();
    file.extend(vec![0u8; 100_000]);
    assert_eq!(Blobs::from_bytes(file).unwrap_err(), Error::BlobHeaderTooLarge);
}

#[test]
fn header_of_exactly_the_maximum_is_accepted() {
    let payload = raw_blob(&header_block(&["DenseNodes"]));
    let mut header = blob_header("OSMHeader", payload.len() as u64);
    // pad with index data up to exactly 64 KiB
    let room = 65536 - header.len() - 1 - 3;
    field_bytes(2, &vec![7u8; room], &mut header);
    assert_eq!(header.len(), 65536);
    let file = frame_with_header(&header, &payload);
    assert!(Blobs::from_bytes(file).is_ok());
    let mut bigger = header.clone();
    bigger.push(0);
    let mut file = (65537u32).to_be_bytes().to_vec();
    file.extend(bigger);
    assert_eq!(Blobs::from_bytes(file).unwrap_err(), Error::BlobHeaderTooLarge);
}

#[test]
fn data_of_exactly_the_maximum_is_accepted() {
    let max = 32 * 1024 * 1024u64;
    let mut file = header_frame();
    // a blob of exactly 32 MiB: one raw field whose length takes four bytes
    let payload = vec![0u8; (max - 1 - 4) as usize];
    let blob = raw_blob(&payload);
    assert_eq!(blob.len() as u64, max);
    file.extend(frame("OSMData", &blob));
    let mut blobs = Blobs::from_bytes(file).unwrap();
    let (h, b) = blobs.next_blob().unwrap().unwrap();
    assert_eq!(h.datasize as u64, max);
    assert!(matches!(b.data, Some(BlobData::Raw(ref r)) if r.len() == payload.len()));

    let mut file = header_frame();
    file.extend(frame_with_header(&blob_header("OSMData", max + 1), &[]));
    let mut blobs = Blobs::from_bytes(file).unwrap();
    assert_eq!(blobs.next_blob().unwrap_err(), Error::BlobDataTooLarge);
}

#[test]
fn zlib_compressed_data_blob() {
    let mut enc = flate2::write::ZlibEncoder::new(Vec::new(), flate2::Compression::default());
    enc.write_all(&[]).unwrap();
    let z = enc.finish().unwrap();
    let mut blob = Vec::new();
    field_varint(2, 0, &mut blob);
    field_bytes(3, &z, &mut blob);
    let mut file = header_frame();
    file.extend(frame("OSMData", &blob));
    let mut blobs = Blobs::from_bytes(file).unwrap();
    let mut lazy = blobs.next_primitive_block().unwrap().unwrap();
    assert!(matches!(lazy, Blob::Encoded(_)));
    lazy.decode().unwrap();
    let block = lazy.decoded().unwrap();
    let mut it = block.primitives();
    assert!(it.next().is_none());
    assert!(blobs.next_primitive_block().unwrap().is_none());
}

#[test]
fn zlib_payload_is_inflated() {
    let plain = dense_block(&[7, 1], &[1, 1], &[2, 2], &[0, 0]);
    let mut enc = flate2::write::ZlibEncoder::new(Vec::new(), flate2::Compression::default());
    enc.write_all(&plain).unwrap();
    let z = enc.finish().unwrap();
    let blob = PbfBlob { raw_size: None, data: Some(BlobData::ZlibData(z)) };
    let block = Blob::new(blob).decode_into().unwrap();
    let mut it = block.primitives();
    let ids: Vec<i64> = std::iter::from_fn(|| it.next())
        .map(|p| match p {
            Primitive::Node(n) => n.id,
            _ => panic!("expected nodes"),
        })
        .collect();
    assert_eq!(ids, vec![7, 8]);
}

#[test]
fn lzma_payload_is_decompressed() {
    let plain = dense_block(&[3], &[10], &[20], &[0]);
    let mut enc = xz2::write::XzEncoder::new(Vec::new(), 6);
    enc.write_all(&plain).unwrap();
    let z = enc.finish().unwrap();
    let blob = PbfBlob { raw_size: None, data: Some(BlobData::LzmaData(z)) };
    let block = Blob::new(blob).decode_into().unwrap();
    let mut it = block.primitives();
    match it.next() {
        Some(Primitive::Node(n)) => {
            assert_eq!(n.id, 3);
            assert_eq!(n.nano_lat, 1000);
            assert_eq!(n.nano_lon, 2000);
        }
        _ => panic!("expected a node"),
    }
}

#[test]
fn corrupt_zlib_is_a_parse_error() {
    let blob = PbfBlob { raw_size: None, data: Some(BlobData::ZlibData(vec![1, 2, 3, 4])) };
    assert_eq!(Blob::new(blob).decode_into().unwrap_err(), Error::ProtobufParse);
}

#[test]
fn blob_without_payload_is_an_empty_block() {
    let blob = PbfBlob { raw_size: None, data: None };
    let block = Blob::new(blob).decode_into().unwrap();
    assert!(block.primitivegroup.is_empty());
    assert!(block.primitives().next().is_none());
    let mut file = header_frame();
    file.extend(frame("OSMData", &[]));
    let mut blobs = Blobs::from_bytes(file).unwrap();
    let block = blobs.next_primitive_block_decoded().unwrap().unwrap();
    assert!(block.primitivegroup.is_empty());
}

#[test]
fn reserved_codecs_are_unsupported() {
    for data in [
        BlobData::Bzip2Data(vec![1]),
        BlobData::Lz4Data(vec![1]),
        BlobData::ZstdData(vec![1]),
    ] {
        let blob = PbfBlob { raw_size: None, data: Some(data) };
        assert_eq!(Blob::new(blob).decode_into().unwrap_err(), Error::UnsupportedEncoding);
    }
    let mut blob = Vec::new();
    field_bytes(7, &[1, 2], &mut blob);
    let mut file = header_frame();
    file.extend(frame("OSMData", &blob));
    let mut blobs = Blobs::from_bytes(file).unwrap();
    let mut lazy = blobs.next_primitive_block().unwrap().unwrap();
    assert_eq!(lazy.decode().unwrap_err(), Error::UnsupportedEncoding);
    assert!(matches!(lazy, Blob::Encoded(_)));
}

#[test]
fn empty_input_is_an_early_end() {
    assert_eq!(Blobs::from_bytes(Vec::new()).unwrap_err(), Error::UnexpectedEof);
}

#[test]
fn truncated_frames_are_an_early_end() {
    assert_eq!(Blobs::from_bytes(vec![0, 0]).unwrap_err(), Error::UnexpectedEof);
    let mut file = header_frame();
    file.truncate(file.len() - 1);
    assert_eq!(Blobs::from_bytes(file).unwrap_err(), Error::UnexpectedEof);
    let mut file = header_frame();
    file.extend(frame("OSMData", &raw_blob(&dense_block(&[1], &[1], &[1], &[0]))));
    file.truncate(file.len() - 3);
    let mut blobs = Blobs::from_bytes(file).unwrap();
    assert_eq!(blobs.next_primitive_block().unwrap_err(), Error::UnexpectedEof);
}

#[test]
fn first_frame_must_be_the_header() {
    let file = frame("OSMData", &raw_blob(&[]));
    assert_eq!(
        Blobs::from_bytes(file).unwrap_err(),
        Error::UnexpectedBlobType("OSMData".to_string())
    );
}

#[test]
fn data_frames_must_be_data() {
    let mut file = header_frame();
    file.extend(header_frame());
    let mut blobs = Blobs::from_bytes(file).unwrap();
    assert_eq!(
        blobs.next_primitive_block().unwrap_err(),
        Error::UnexpectedBlobType("OSMHeader".to_string())
    );
}

#[test]
fn unknown_required_feature_is_rejected() {
    let file = frame("OSMHeader", &raw_blob(&header_block(&["DenseNodes", "Teleportation"])));
    assert_eq!(
        Blobs::from_bytes(file).unwrap_err(),
        Error::UnknownRequiredFeature("Teleportation".to_string())
    );
    let file = frame("OSMHeader", &raw_blob(&header_block(&["HistoricalInformation"])));
    assert!(Blobs::from_bytes(file).is_ok());
}

#[test]
fn malformed_header_is_a_parse_error() {
    let file = frame_with_header(&[0xff, 0xff], &[]);
    assert_eq!(Blobs::from_bytes(file).unwrap_err(), Error::ProtobufParse);
}

#[test]
fn rewind_returns_to_first_data_frame() {
    let mut file = header_frame();
    file.extend(frame("OSMData", &raw_blob(&dense_block(&[5], &[0], &[0], &[0]))));
    let mut blobs = Blobs::from_bytes(file).unwrap();
    assert!(blobs.next_primitive_block().unwrap().is_some());
    assert!(blobs.next_primitive_block().unwrap().is_none());
    blobs.rewind();
    assert!(blobs.next_primitive_block().unwrap().is_some());
}

#[test]
fn next_blob_with_passes_over_other_frames() {
    let mut file = header_frame();
    file.extend(frame("Other", &raw_blob(&[1, 2, 3])));
    file.extend(frame("OSMData", &raw_blob(&dense_block(&[9], &[0], &[0], &[0]))));
    let mut blobs = Blobs::from_bytes(file).unwrap();
    let (h, b) = blobs.next_blob_with(|h| h.type_ == "OSMData").unwrap().unwrap();
    assert_eq!(h.type_, "OSMData");
    let block = Blob::new(b).decode_into().unwrap();
    assert!(matches!(block.primitives().next(), Some(Primitive::Node(n)) if n.id == 9));
    assert!(blobs.next_blob_with(|_| true).unwrap().is_none());
}

#[test]
fn header_block_fields_are_decoded() {
    let mut h = header_block(&["DenseNodes"]);
    field_bytes(5, b"Sort.Type_then_ID", &mut h);
    field_bytes(16, b"writer 1.0", &mut h);
    field_varint(32, 1234, &mut h);
    let file = frame("OSMHeader", &raw_blob(&h));
    let blobs = Blobs::from_bytes(file).unwrap();
    let header = blobs.header();
    assert_eq!(header.required_features, vec!["DenseNodes".to_string()]);
    assert_eq!(header.optional_features, vec!["Sort.Type_then_ID".to_string()]);
    assert_eq!(header.writingprogram.as_deref(), Some("writer 1.0"));
    assert_eq!(header.osmosis_replication_timestamp, Some(1234));
    assert_eq!(header.source, None);
}

#[test]
fn parse_and_decode_reads_a_blob_message() {
    let blob = raw_blob(&dense_block(&[4, 4], &[1, 1], &[1, 1], &[0, 0]));
    let block = Blob::parse_and_decode(&blob, 0, blob.len()).unwrap();
    let mut it = block.primitives();
    let mut ids = Vec::new();
    while let Some(Primitive::Node(n)) = it.next() {
        ids.push(n.id);
    }
    assert_eq!(ids, vec![4, 8]);
    assert_eq!(Blob::parse_and_decode(&[0xff], 0, 1).unwrap_err(), Error::ProtobufParse);
}

#[test]
fn into_reader_gives_back_the_bytes() {
    let file = header_frame();
    let blobs = Blobs::from_bytes(file.clone()).unwrap();
    assert_eq!(blobs.into_reader(), file);
}

#[test]
fn raw_size_is_kept() {
    let mut blob = Vec::new();
    field_varint(2, 77, &mut blob);
    field_bytes(1, &[], &mut blob);
    let mut file = header_frame();
    file.extend(frame("OSMData", &blob));
    let mut blobs = Blobs::from_bytes(file).unwrap();
    let (_, b) = blobs.next_blob().unwrap().unwrap();
    assert_eq!(b.raw_size, Some(77));
    assert_eq!(b.data, Some(BlobData::Raw(vec![])));
}

#[test]
fn only_listed_required_features_are_supported() {
    let file = frame("OSMHeader", &raw_blob(&header_block(&["OsmSchema-V0.6"])));
    assert_eq!(
        Blobs::from_bytes(file).unwrap_err(),
        Error::UnknownRequiredFeature("OsmSchema-V0.6".to_string())
    );
    let file = frame(
        "OSMHeader",
        &raw_blob(&header_block(&["OSMSchema-V0.6", "DenseNodes", "HistoricalInformation"])),
    );
    assert!(Blobs::from_bytes(file).is_ok());
}

#[test]
fn frame_steps_match_the_in_memory_reader() {
    assert_eq!(frame_header_size(&[0, 1, 0, 0]), Ok(65536));
    assert_eq!(frame_header_size(&[0, 1, 0, 1]), Err(Error::BlobHeaderTooLarge));
    let file = header_frame();
    let (h, next) = read_blob_header(&file, 0).unwrap().unwrap();
    assert_eq!(expect_type(&h, "OSMHeader"), Ok(()));
    assert_eq!(
        expect_type(&h, "OSMData"),
        Err(Error::UnexpectedBlobType("OSMHeader".to_string()))
    );
    let blob = osmpbf_reader::blob::decode_blob(&file, next, file.len()).unwrap();
    let header = open_header(&blob).unwrap();
    assert_eq!(header.required_features.len(), 2);
    let bad = PbfBlob {
        raw_size: None,
        data: Some(BlobData::Raw(header_block(&["Nope"]))),
    };
    assert_eq!(open_header(&bad).unwrap_err(), Error::UnknownRequiredFeature("Nope".to_string()));
}
