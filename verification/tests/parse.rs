use asf::parse_asf;
use asf::AsfError;
use asf::AsfErrorKind;
use asf::BitrateRecord;
use asf::DataObject;
use asf::FilePropertiesObject;
use asf::HeaderObject;
use asf::StreamBitratePropertiesObject;
use asf::StreamPropertiesObject;
use asf::ASF;
use asf::DATA_OBJECT_GUID;
use asf::FILE_PROPERTIES_OBJECT_GUID;
use asf::HEADER_OBJECT_GUID;
use asf::STREAM_BITRATE_PROPERTIES_OBJECT_GUID;
use asf::STREAM_PROPERTIES_OBJECT_GUID;

// --- encoding helpers: build container byte streams for the decoder -------

fn put_u16(v: &mut Vec<u8>, x: u16) {
    v.extend_from_slice(&x.to_le_bytes());
}

fn put_u32(v: &mut Vec<u8>, x: u32) {
    v.extend_from_slice(&x.to_le_bytes());
}

fn put_u64(v: &mut Vec<u8>, x: u64) {
    v.extend_from_slice(&x.to_le_bytes());
}

fn put_header(v: &mut Vec<u8>, object_size: u64, num: u32, r1: u8, r2: u8) {
    v.extend_from_slice(&HEADER_OBJECT_GUID);
    put_u64(v, object_size);
    put_u32(v, num);
    v.push(r1);
    v.push(r2);
}

fn put_file_props(v: &mut Vec<u8>, o: &FilePropertiesObject) {
    v.extend_from_slice(&FILE_PROPERTIES_OBJECT_GUID);
    put_u64(v, o.object_size);
    v.extend_from_slice(&o.file_id);
    put_u64(v, o.file_size);
    put_u64(v, o.creation_date);
    put_u64(v, o.data_packets_count);
    put_u64(v, o.play_duration);
    put_u64(v, o.send_duration);
    put_u64(v, o.preoll);
    put_u32(v, o.flags);
    put_u32(v, o.min_data_packet_size);
    put_u32(v, o.max_data_packet_size);
    put_u32(v, o.max_bitrate);
}

fn put_stream_props(v: &mut Vec<u8>, o: &StreamPropertiesObject) {
    v.extend_from_slice(&STREAM_PROPERTIES_OBJECT_GUID);
    put_u64(v, o.object_size);
    v.extend_from_slice(&o.stream_type);
    v.extend_from_slice(&o.error_correction_type);
    put_u64(v, o.time_offset);
    put_u32(v, o.type_specific_data_length);
    put_u32(v, o.error_correction_data_length);
    put_u16(v, o.flags);
    put_u32(v, o.reserved);
    v.extend_from_slice(&o.type_specific_data);
    v.extend_from_slice(&o.error_correction_data);
}

fn put_bitrate_props(v: &mut Vec<u8>, o: &StreamBitratePropertiesObject) {
    v.extend_from_slice(&STREAM_BITRATE_PROPERTIES_OBJECT_GUID);
    put_u64(v, o.object_size);
    put_u16(v, o.bitrate_records_count);
    for r in &o.bitrate_records {
        put_u16(v, r.flags);
        put_u32(v, r.average_bitrate);
    }
}

fn put_data_object(v: &mut Vec<u8>, o: &DataObject) {
    v.extend_from_slice(&DATA_OBJECT_GUID);
    put_u64(v, o.object_size);
    v.extend_from_slice(&o.file_id);
    put_u16(v, o.total_data_packets);
    put_u16(v, o.reserved);
    v.extend_from_slice(&o.data_packets);
}

/// An object of a type id the registry does not know, with the given
/// declared size (payload is `object_size - 24` filler bytes).
fn put_unknown(v: &mut Vec<u8>, object_size: u64) {
    v.extend_from_slice(&[
        0xDE, 0xAD, 0xBE, 0xEF, 0x01, 0x02, 0x03, 0x04, 0x05, 0x06, 0x07, 0x08, 0x09, 0x0A, 0x0B,
        0x0C,
    ]);
    put_u64(v, object_size);
    for _ in 0..(object_size - 24) {
        v.push(0xAB);
    }
}

// --- the two reference containers ------------------------------------------

fn header1() -> HeaderObject {
    HeaderObject {
        object_id: HEADER_OBJECT_GUID.to_vec(),
        object_size: 1106,
        num_header_objects: 6,
        reserved_1: 1,
        reserved_2: 2,
    }
}

fn file_props1() -> FilePropertiesObject {
    FilePropertiesObject {
        object_id: FILE_PROPERTIES_OBJECT_GUID.to_vec(),
        object_size: 104,
        file_id: vec![0, 0, 0, 0, 0, 0, 0, 0, 0, 0, 0, 0, 0, 0, 0, 0],
        file_size: 33248,
        creation_date: 116444736000000000,
        data_packets_count: 10,
        play_duration: 41460000,
        send_duration: 10460000,
        preoll: 3100,
        flags: 2,
        min_data_packet_size: 3200,
        max_data_packet_size: 3200,
        max_bitrate: 232000,
    }
}

fn stream_props1() -> Vec<StreamPropertiesObject> {
    vec![
        StreamPropertiesObject {
            object_id: STREAM_PROPERTIES_OBJECT_GUID.to_vec(),
            object_size: 133,
            stream_type: vec![192, 239, 25, 188, 77, 91, 207, 17, 168, 253, 0, 128, 95, 92, 68, 43],
            error_correction_type: vec![
                0, 87, 251, 32, 85, 91, 207, 17, 168, 253, 0, 128, 95, 92, 68, 43,
            ],
            time_offset: 0,
            type_specific_data_length: 55,
            error_correction_data_length: 0,
            flags: 1,
            reserved: 0,
            type_specific_data: vec![
                64, 1, 0, 0, 180, 0, 0, 0, 2, 44, 0, 44, 0, 0, 0, 64, 1, 0, 0, 180, 0, 0, 0, 1, 0,
                24, 0, 87, 77, 86, 50, 0, 163, 2, 0, 0, 0, 0, 0, 0, 0, 0, 0, 0, 0, 0, 0, 0, 0, 0,
                0, 80, 195, 180, 128,
            ],
            error_correction_data: vec![],
        },
        StreamPropertiesObject {
            object_id: STREAM_PROPERTIES_OBJECT_GUID.to_vec(),
            object_size: 114,
            stream_type: vec![64, 158, 105, 248, 77, 91, 207, 17, 168, 253, 0, 128, 95, 92, 68, 43],
            error_correction_type: vec![
                80, 205, 195, 191, 143, 97, 207, 17, 139, 178, 0, 170, 0, 180, 226, 32,
            ],
            time_offset: 0,
            type_specific_data_length: 28,
            error_correction_data_length: 8,
            flags: 2,
            reserved: 0,
            type_specific_data: vec![
                97, 1, 1, 0, 68, 172, 0, 0, 160, 15, 0, 0, 185, 0, 16, 0, 10, 0, 0, 0, 0, 0, 1, 0,
                0, 0, 0, 0,
            ],
            error_correction_data: vec![1, 185, 0, 185, 0, 1, 0, 0],
        },
    ]
}

fn container1_bytes() -> Vec<u8> {
    let mut v = Vec::new();
    put_header(&mut v, 1106, 6, 1, 2);
    put_file_props(&mut v, &file_props1());
    for sp in &stream_props1() {
        put_stream_props(&mut v, sp);
    }
    put_unknown(&mut v, 30);
    put_unknown(&mut v, 30);
    put_unknown(&mut v, 30);
    v
}

#[test]
fn parse_asf_test1() {
    let input = container1_bytes();
    let asf_obj = parse_asf(&input);

    match asf_obj {
        Ok((v, _)) => {
            let ans = ASF {
                header_object: header1(),
                file_props_object: Some(Box::new(file_props1())),
                stream_props_objects: stream_props1(),
                stream_bitrate_props_object: None,
                data_object: None,
            };
            assert_eq!(v, ans);
        }
        Err(a) => {
            panic!("Error: {:?}", a);
        }
    }
}

fn header2() -> HeaderObject {
    HeaderObject {
        object_id: HEADER_OBJECT_GUID.to_vec(),
        object_size: 5267,
        num_header_objects: 7,
        reserved_1: 1,
        reserved_2: 2,
    }
}

fn file_props2() -> FilePropertiesObject {
    FilePropertiesObject {
        object_id: FILE_PROPERTIES_OBJECT_GUID.to_vec(),
        object_size: 104,
        file_id: vec![43, 141, 105, 203, 0, 18, 13, 78, 169, 16, 243, 97, 122, 251, 50, 255],
        file_size: 1107099,
        creation_date: 131299883009790000,
        data_packets_count: 153,
        play_duration: 193990000,
        send_duration: 178220000,
        preoll: 5000,
        flags: 2,
        min_data_packet_size: 7200,
        max_data_packet_size: 7200,
        max_bitrate: 585498,
    }
}

fn stream_props2() -> Vec<StreamPropertiesObject> {
    vec![
        StreamPropertiesObject {
            object_id: STREAM_PROPERTIES_OBJECT_GUID.to_vec(),
            object_size: 114,
            stream_type: vec![64, 158, 105, 248, 77, 91, 207, 17, 168, 253, 0, 128, 95, 92, 68, 43],
            error_correction_type: vec![
                80, 205, 195, 191, 143, 97, 207, 17, 139, 178, 0, 170, 0, 180, 226, 32,
            ],
            time_offset: 0,
            type_specific_data_length: 28,
            error_correction_data_length: 8,
            flags: 1,
            reserved: 32762,
            type_specific_data: vec![
                97, 1, 2, 0, 68, 172, 0, 0, 69, 31, 0, 0, 207, 5, 16, 0, 10, 0, 0, 136, 0, 0, 15,
                0, 0, 0, 0, 0,
            ],
            error_correction_data: vec![1, 207, 5, 207, 5, 1, 0, 0],
        },
        StreamPropertiesObject {
            object_id: STREAM_PROPERTIES_OBJECT_GUID.to_vec(),
            object_size: 134,
            stream_type: vec![192, 239, 25, 188, 77, 91, 207, 17, 168, 253, 0, 128, 95, 92, 68, 43],
            error_correction_type: vec![
                0, 87, 251, 32, 85, 91, 207, 17, 168, 253, 0, 128, 95, 92, 68, 43,
            ],
            time_offset: 0,
            type_specific_data_length: 56,
            error_correction_data_length: 0,
            flags: 2,
            reserved: 298803599,
            type_specific_data: vec![
                128, 2, 0, 0, 104, 1, 0, 0, 2, 45, 0, 45, 0, 0, 0, 128, 2, 0, 0, 104, 1, 0, 0, 1,
                0, 24, 0, 87, 77, 86, 51, 0, 0, 0, 0, 0, 0, 0, 0, 0, 0, 0, 0, 0, 0, 0, 0, 0, 0, 0,
                0, 78, 137, 72, 1, 32,
            ],
            error_correction_data: vec![],
        },
    ]
}

fn bitrate_props2() -> StreamBitratePropertiesObject {
    StreamBitratePropertiesObject {
        object_id: STREAM_BITRATE_PROPERTIES_OBJECT_GUID.to_vec(),
        object_size: 38,
        bitrate_records_count: 2,
        bitrate_records: vec![
            BitrateRecord { flags: 1, average_bitrate: 65733 },
            BitrateRecord { flags: 2, average_bitrate: 519765 },
        ],
    }
}

fn container2_bytes() -> Vec<u8> {
    let mut v = Vec::new();
    put_header(&mut v, 5267, 7, 1, 2);
    put_file_props(&mut v, &file_props2());
    for sp in &stream_props2() {
        put_stream_props(&mut v, sp);
    }
    put_bitrate_props(&mut v, &bitrate_props2());
    put_unknown(&mut v, 30);
    put_unknown(&mut v, 30);
    put_unknown(&mut v, 30);
    v
}

#[test]
fn parse_asf_test2() {
    let input = container2_bytes();
    let asf_obj = parse_asf(&input);

    match asf_obj {
        Ok((v, _)) => {
            let ans = ASF {
                header_object: header2(),
                file_props_object: Some(Box::new(file_props2())),
                stream_props_objects: stream_props2(),
                stream_bitrate_props_object: Some(Box::new(bitrate_props2())),
                data_object: None,
            };
            assert_eq!(v, ans);
        }
        Err(a) => {
            panic!("Error: {:?}", a);
        }
    }
}

// --- scenario: one file properties child ------------------------------------

#[test]
fn single_file_properties_child() {
    let fp = FilePropertiesObject {
        object_id: FILE_PROPERTIES_OBJECT_GUID.to_vec(),
        object_size: 104,
        file_id: vec![0; 16],
        file_size: 1,
        creation_date: 2,
        data_packets_count: 3,
        play_duration: 4,
        send_duration: 5,
        preoll: 6,
        flags: 7,
        min_data_packet_size: 8,
        max_data_packet_size: 9,
        max_bitrate: 10,
    };
    let mut input = Vec::new();
    put_header(&mut input, 134, 1, 0, 0);
    put_file_props(&mut input, &fp);
    let (v, consumed) = parse_asf(&input).unwrap();
    assert_eq!(consumed, input.len());
    assert_eq!(v.file_props_object, Some(Box::new(fp)));
    assert_eq!(v.stream_props_objects.len(), 0);
    assert_eq!(v.stream_bitrate_props_object, None);
    assert_eq!(v.data_object, None);
}

// --- scenario: bitrate records then an unknown object -----------------------

#[test]
fn bitrate_records_then_unknown_child() {
    let sb = StreamBitratePropertiesObject {
        object_id: STREAM_BITRATE_PROPERTIES_OBJECT_GUID.to_vec(),
        object_size: 38,
        bitrate_records_count: 2,
        bitrate_records: vec![
            BitrateRecord { flags: 1, average_bitrate: 65733 },
            BitrateRecord { flags: 2, average_bitrate: 519765 },
        ],
    };
    let mut input = Vec::new();
    put_header(&mut input, 98, 2, 0, 0);
    put_bitrate_props(&mut input, &sb);
    put_unknown(&mut input, 30);
    let (v, consumed) = parse_asf(&input).unwrap();
    // all 6 payload bytes (30 - 24) of the unknown object were consumed
    assert_eq!(consumed, input.len());
    assert_eq!(v.stream_bitrate_props_object, Some(Box::new(sb)));
    assert_eq!(v.file_props_object, None);
    assert_eq!(v.stream_props_objects.len(), 0);
    assert_eq!(v.data_object, None);
}

// --- data object, trailing bytes, last-seen-wins ----------------------------

#[test]
fn data_object_and_trailing_bytes() {
    let d = DataObject {
        object_id: DATA_OBJECT_GUID.to_vec(),
        object_size: 49,
        file_id: vec![9; 16],
        total_data_packets: 3,
        reserved: 0,
        data_packets: vec![1, 2, 3, 4, 5],
    };
    let mut input = Vec::new();
    put_header(&mut input, 79, 1, 0, 0);
    put_data_object(&mut input, &d);
    let body_len = input.len();
    input.extend_from_slice(&[77, 88, 99]); // trailing bytes after the children
    let (v, consumed) = parse_asf(&input).unwrap();
    assert_eq!(consumed, body_len);
    assert_eq!(&input[consumed..], &[77, 88, 99]);
    assert_eq!(v.data_object, Some(Box::new(d)));
}

#[test]
fn duplicate_file_properties_last_wins() {
    let mut fp1 = file_props1();
    fp1.file_size = 111;
    let mut fp2 = file_props1();
    fp2.file_size = 222;
    let mut input = Vec::new();
    put_header(&mut input, 238, 2, 0, 0);
    put_file_props(&mut input, &fp1);
    put_file_props(&mut input, &fp2);
    let (v, _) = parse_asf(&input).unwrap();
    assert_eq!(v.file_props_object, Some(Box::new(fp2)));
}

// --- determinism -------------------------------------------------------------

#[test]
fn reparsing_yields_identical_container() {
    let input = container2_bytes();
    let first = parse_asf(&input).unwrap();
    let second = parse_asf(&input).unwrap();
    assert_eq!(first, second);
}

// --- truncation --------------------------------------------------------------

#[test]
fn every_truncation_fails_with_insufficient_data() {
    let input = container2_bytes();
    let (_, consumed) = parse_asf(&input).unwrap();
    assert_eq!(consumed, input.len());
    for k in 0..input.len() {
        match parse_asf(&input[..k]) {
            Ok(_) => panic!("prefix of {} bytes decoded", k),
            Err(e) => assert_eq!(e.kind, AsfErrorKind::InsufficientData),
        }
    }
}

#[test]
fn short_header_is_insufficient_data() {
    let input = vec![0u8; 29];
    assert_eq!(
        parse_asf(&input),
        Err(AsfError { kind: AsfErrorKind::InsufficientData, object_index: None })
    );
}

// --- malformed declared sizes ------------------------------------------------

#[test]
fn data_object_size_under_44_is_malformed() {
    let mut input = Vec::new();
    put_header(&mut input, 54, 1, 0, 0);
    input.extend_from_slice(&DATA_OBJECT_GUID);
    put_u64(&mut input, 43);
    input.extend_from_slice(&[0; 32]);
    assert_eq!(
        parse_asf(&input),
        Err(AsfError { kind: AsfErrorKind::MalformedObject, object_index: Some(0) })
    );
}

#[test]
fn unknown_object_size_under_24_is_malformed() {
    let mut input = Vec::new();
    put_header(&mut input, 54, 2, 0, 0);
    put_unknown(&mut input, 30);
    input.extend_from_slice(&[
        0xDE, 0xAD, 0xBE, 0xEF, 0x01, 0x02, 0x03, 0x04, 0x05, 0x06, 0x07, 0x08, 0x09, 0x0A, 0x0B,
        0x0C,
    ]);
    put_u64(&mut input, 23);
    assert_eq!(
        parse_asf(&input),
        Err(AsfError { kind: AsfErrorKind::MalformedObject, object_index: Some(1) })
    );
}

#[test]
fn data_object_maximal_size_is_insufficient_data() {
    let mut input = Vec::new();
    put_header(&mut input, 54, 1, 0, 0);
    input.extend_from_slice(&DATA_OBJECT_GUID);
    put_u64(&mut input, u64::MAX); // would need nearly 2^64 payload bytes
    input.extend_from_slice(&[0; 20]);
    assert_eq!(
        parse_asf(&input),
        Err(AsfError { kind: AsfErrorKind::InsufficientData, object_index: Some(0) })
    );
}

#[test]
fn data_object_size_exactly_44_has_empty_payload() {
    let d = DataObject {
        object_id: DATA_OBJECT_GUID.to_vec(),
        object_size: 44,
        file_id: vec![1; 16],
        total_data_packets: 0,
        reserved: 7,
        data_packets: vec![],
    };
    let mut input = Vec::new();
    put_header(&mut input, 74, 1, 0, 0);
    put_data_object(&mut input, &d);
    let (v, consumed) = parse_asf(&input).unwrap();
    assert_eq!(consumed, input.len());
    assert_eq!(v.data_object, Some(Box::new(d)));
}

#[test]
fn unknown_object_size_exactly_24_skips_nothing() {
    let mut input = Vec::new();
    put_header(&mut input, 54, 1, 0, 0);
    put_unknown(&mut input, 24);
    let (v, consumed) = parse_asf(&input).unwrap();
    assert_eq!(consumed, input.len());
    assert_eq!(v.file_props_object, None);
}

// --- field extraction exactness ----------------------------------------------

#[test]
fn header_fields_decode_little_endian() {
    let mut input = Vec::new();
    put_header(&mut input, 0x0102030405060708, 0, 0xFE, 0xFF);
    let (v, consumed) = parse_asf(&input).unwrap();
    assert_eq!(consumed, 30);
    assert_eq!(v.header_object.object_id, HEADER_OBJECT_GUID.to_vec());
    assert_eq!(v.header_object.object_size, 0x0102030405060708);
    assert_eq!(v.header_object.num_header_objects, 0);
    assert_eq!(v.header_object.reserved_1, 0xFE);
    assert_eq!(v.header_object.reserved_2, 0xFF);
}

#[test]
fn file_props_fields_decode_little_endian() {
    let fp = FilePropertiesObject {
        object_id: FILE_PROPERTIES_OBJECT_GUID.to_vec(),
        object_size: 104,
        file_id: (0u8..16u8).collect(),
        file_size: 0x1112131415161718,
        creation_date: 0x2122232425262728,
        data_packets_count: 0x3132333435363738,
        play_duration: 0x4142434445464748,
        send_duration: 0x5152535455565758,
        preoll: 0x6162636465666768,
        flags: 0x0A0B0C0D,
        min_data_packet_size: 0x1A1B1C1D,
        max_data_packet_size: 0x2A2B2C2D,
        max_bitrate: 0x3A3B3C3D,
    };
    let mut input = Vec::new();
    put_header(&mut input, 134, 1, 0, 0);
    put_file_props(&mut input, &fp);
    let (v, _) = parse_asf(&input).unwrap();
    assert_eq!(v.file_props_object, Some(Box::new(fp)));
}

#[test]
fn stream_blob_lengths_validated_before_read() {
    let mut sp = stream_props1()[0].clone();
    sp.type_specific_data_length = 1000; // declares more than the buffer holds
    let mut input = Vec::new();
    put_header(&mut input, 157, 1, 0, 0);
    put_stream_props(&mut input, &sp);
    assert_eq!(
        parse_asf(&input),
        Err(AsfError { kind: AsfErrorKind::InsufficientData, object_index: Some(0) })
    );
}

#[test]
fn bitrate_count_beyond_buffer_is_insufficient_data() {
    let mut input = Vec::new();
    put_header(&mut input, 68, 1, 0, 0);
    input.extend_from_slice(&STREAM_BITRATE_PROPERTIES_OBJECT_GUID);
    put_u64(&mut input, 38);
    put_u16(&mut input, 3); // three declared, bytes for two
    put_u16(&mut input, 1);
    put_u32(&mut input, 65733);
    put_u16(&mut input, 2);
    put_u32(&mut input, 519765);
    assert_eq!(
        parse_asf(&input),
        Err(AsfError { kind: AsfErrorKind::InsufficientData, object_index: Some(0) })
    );
}

#[test]
fn stream_order_is_kept_across_unknown_children() {
    let streams = stream_props1();
    let mut input = Vec::new();
    put_header(&mut input, 337, 4, 0, 0);
    put_stream_props(&mut input, &streams[0]);
    put_unknown(&mut input, 30);
    put_stream_props(&mut input, &streams[1]);
    put_unknown(&mut input, 30);
    let (v, _) = parse_asf(&input).unwrap();
    assert_eq!(v.stream_props_objects, streams);
}

#[test]
fn unrecognized_stream_type_is_retained_verbatim() {
    let mut sp = stream_props1()[1].clone();
    sp.stream_type = vec![0x11; 16]; // matches no known stream-type constant
    let mut input = Vec::new();
    put_header(&mut input, 144, 1, 0, 0);
    put_stream_props(&mut input, &sp);
    let (v, _) = parse_asf(&input).unwrap();
    assert_eq!(v.stream_props_objects, vec![sp]);
}
