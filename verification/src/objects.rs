//! The decoded object kinds and one decoder per kind.
//!
//! Every object in the byte stream starts with a 16-byte type id and an
//! 8-byte declared size that counts those 24 bytes as well.  The walker
//! consumes the type id and dispatches; each decoder here starts at the
//! size field and consumes the rest of its object.
//!
//! Each decoder comes in two forms: a `spec` function over `Seq<u8>` that
//! says exactly which inputs decode, to what value, and up to what offset;
//! and an executable function whose contract ties its result to the spec
//! function, so that success, failure and every decoded field are pinned
//! down for all inputs.

use vstd::prelude::*;

use crate::errs::AsfErrorKind;
use crate::guids::DATA_OBJECT_GUID;
use crate::guids::FILE_PROPERTIES_OBJECT_GUID;
use crate::guids::STREAM_BITRATE_PROPERTIES_OBJECT_GUID;
use crate::guids::STREAM_PROPERTIES_OBJECT_GUID;
use crate::reader::le16_at;
use crate::reader::le32_at;
use crate::reader::le64_at;
use crate::reader::read_bytes;
use crate::reader::read_u16;
use crate::reader::read_u32;
use crate::reader::read_u64;
use crate::reader::read_u8;

verus! {

// ---------------------------------------------------------------------------
// Header object
// ---------------------------------------------------------------------------

/// The root record of a container: its type id, declared total size, and
/// the count of immediately nested child objects.
#[derive(Debug, Clone, PartialEq)]
pub struct HeaderObject {
    pub object_id: Vec<u8>,
    pub object_size: u64,
    pub num_header_objects: u32,
    pub reserved_1: u8,
    pub reserved_2: u8,
}

/// Mathematical model of a [`HeaderObject`].
#[verifier::ext_equal]
pub ghost struct SpecHeaderObject {
    pub object_id: Seq<u8>,
    pub object_size: int,
    pub num_header_objects: int,
    pub reserved_1: int,
    pub reserved_2: int,
}

impl View for HeaderObject {
    type V = SpecHeaderObject;

    open spec fn view(&self) -> SpecHeaderObject {
        SpecHeaderObject {
            object_id: self.object_id@,
            object_size: self.object_size as int,
            num_header_objects: self.num_header_objects as int,
            reserved_1: self.reserved_1 as int,
            reserved_2: self.reserved_2 as int,
        }
    }
}

/// The header object decoded from `s` at `off`: 16-byte type id, 8-byte
/// declared size, 4-byte child count, two reserved bytes.  `None` when
/// fewer than 30 bytes remain.
pub open spec fn spec_parse_header_object(s: Seq<u8>, off: int) -> Option<(SpecHeaderObject, int)> {
    if off + 30 <= s.len() {
        Some((
            SpecHeaderObject {
                object_id: s.subrange(off, off + 16),
                object_size: le64_at(s, off + 16),
                num_header_objects: le32_at(s, off + 24),
                reserved_1: s[off + 28] as int,
                reserved_2: s[off + 29] as int,
            },
            off + 30,
        ))
    } else {
        None
    }
}

/// Decodes the root header object, type id included.
pub fn parse_header_object(s: &[u8], pos: usize) -> (r: Result<
    (HeaderObject, usize),
    AsfErrorKind,
>)
    ensures
        match r {
            Ok((o, p)) => {
                &&& spec_parse_header_object(s@, pos as int) == Some((o@, p as int))
                &&& pos <= p <= s@.len()
            },
            Err(k) => {
                &&& spec_parse_header_object(s@, pos as int) is None
                &&& k == AsfErrorKind::InsufficientData
            },
        },
{
    let (object_id, p) = match read_bytes(s, pos, 16) {
        Some(x) => x,
        None => { return Err(AsfErrorKind::InsufficientData); },
    };
    let (object_size, p) = match read_u64(s, p) {
        Some(x) => x,
        None => { return Err(AsfErrorKind::InsufficientData); },
    };
    let (num_header_objects, p) = match read_u32(s, p) {
        Some(x) => x,
        None => { return Err(AsfErrorKind::InsufficientData); },
    };
    let (reserved_1, p) = match read_u8(s, p) {
        Some(x) => x,
        None => { return Err(AsfErrorKind::InsufficientData); },
    };
    let (reserved_2, p) = match read_u8(s, p) {
        Some(x) => x,
        None => { return Err(AsfErrorKind::InsufficientData); },
    };
    let o = HeaderObject { object_id, object_size, num_header_objects, reserved_1, reserved_2 };
    proof {
        assert(o@ =~= spec_parse_header_object(s@, pos as int)->Some_0.0);
    }
    Ok((o, p))
}

// ---------------------------------------------------------------------------
// File properties object
// ---------------------------------------------------------------------------

/// Global file attributes: the file id and a fixed set of numeric fields.
/// At most one per container.
#[derive(Debug, Clone, PartialEq)]
pub struct FilePropertiesObject {
    pub object_id: Vec<u8>,
    pub object_size: u64,
    pub file_id: Vec<u8>,
    pub file_size: u64,
    pub creation_date: u64,
    pub data_packets_count: u64,
    pub play_duration: u64,
    pub send_duration: u64,
    pub preoll: u64,
    pub flags: u32,
    pub min_data_packet_size: u32,
    pub max_data_packet_size: u32,
    pub max_bitrate: u32,
}

/// Mathematical model of a [`FilePropertiesObject`].
#[verifier::ext_equal]
pub ghost struct SpecFilePropertiesObject {
    pub object_id: Seq<u8>,
    pub object_size: int,
    pub file_id: Seq<u8>,
    pub file_size: int,
    pub creation_date: int,
    pub data_packets_count: int,
    pub play_duration: int,
    pub send_duration: int,
    pub preoll: int,
    pub flags: int,
    pub min_data_packet_size: int,
    pub max_data_packet_size: int,
    pub max_bitrate: int,
}

impl View for FilePropertiesObject {
    type V = SpecFilePropertiesObject;

    open spec fn view(&self) -> SpecFilePropertiesObject {
        SpecFilePropertiesObject {
            object_id: self.object_id@,
            object_size: self.object_size as int,
            file_id: self.file_id@,
            file_size: self.file_size as int,
            creation_date: self.creation_date as int,
            data_packets_count: self.data_packets_count as int,
            play_duration: self.play_duration as int,
            send_duration: self.send_duration as int,
            preoll: self.preoll as int,
            flags: self.flags as int,
            min_data_packet_size: self.min_data_packet_size as int,
            max_data_packet_size: self.max_data_packet_size as int,
            max_bitrate: self.max_bitrate as int,
        }
    }
}

/// The file properties object decoded from `s` at `off`, where `off` is the
/// position of the size field (the type id was consumed by the walker).
/// The payload after the size field is a fixed 80 bytes; `None` when fewer
/// than 88 bytes remain.
pub open spec fn spec_parse_file_props_object(s: Seq<u8>, off: int) -> Option<
    (SpecFilePropertiesObject, int),
> {
    if off + 88 <= s.len() {
        Some((
            SpecFilePropertiesObject {
                object_id: FILE_PROPERTIES_OBJECT_GUID@,
                object_size: le64_at(s, off),
                file_id: s.subrange(off + 8, off + 24),
                file_size: le64_at(s, off + 24),
                creation_date: le64_at(s, off + 32),
                data_packets_count: le64_at(s, off + 40),
                play_duration: le64_at(s, off + 48),
                send_duration: le64_at(s, off + 56),
                preoll: le64_at(s, off + 64),
                flags: le32_at(s, off + 72),
                min_data_packet_size: le32_at(s, off + 76),
                max_data_packet_size: le32_at(s, off + 80),
                max_bitrate: le32_at(s, off + 84),
            },
            off + 88,
        ))
    } else {
        None
    }
}

/// Decodes a file properties object starting at its size field.
pub fn parse_file_props_object(s: &[u8], pos: usize) -> (r: Result<
    (FilePropertiesObject, usize),
    AsfErrorKind,
>)
    ensures
        match r {
            Ok((o, p)) => {
                &&& spec_parse_file_props_object(s@, pos as int) == Some((o@, p as int))
                &&& pos <= p <= s@.len()
            },
            Err(k) => {
                &&& spec_parse_file_props_object(s@, pos as int) is None
                &&& k == AsfErrorKind::InsufficientData
            },
        },
{
    let (object_size, p) = match read_u64(s, pos) {
        Some(x) => x,
        None => { return Err(AsfErrorKind::InsufficientData); },
    };
    let (file_id, p) = match read_bytes(s, p, 16) {
        Some(x) => x,
        None => { return Err(AsfErrorKind::InsufficientData); },
    };
    let (file_size, p) = match read_u64(s, p) {
        Some(x) => x,
        None => { return Err(AsfErrorKind::InsufficientData); },
    };
    let (creation_date, p) = match read_u64(s, p) {
        Some(x) => x,
        None => { return Err(AsfErrorKind::InsufficientData); },
    };
    let (data_packets_count, p) = match read_u64(s, p) {
        Some(x) => x,
        None => { return Err(AsfErrorKind::InsufficientData); },
    };
    let (play_duration, p) = match read_u64(s, p) {
        Some(x) => x,
        None => { return Err(AsfErrorKind::InsufficientData); },
    };
    let (send_duration, p) = match read_u64(s, p) {
        Some(x) => x,
        None => { return Err(AsfErrorKind::InsufficientData); },
    };
    let (preoll, p) = match read_u64(s, p) {
        Some(x) => x,
        None => { return Err(AsfErrorKind::InsufficientData); },
    };
    let (flags, p) = match read_u32(s, p) {
        Some(x) => x,
        None => { return Err(AsfErrorKind::InsufficientData); },
    };
    let (min_data_packet_size, p) = match read_u32(s, p) {
        Some(x) => x,
        None => { return Err(AsfErrorKind::InsufficientData); },
    };
    let (max_data_packet_size, p) = match read_u32(s, p) {
        Some(x) => x,
        None => { return Err(AsfErrorKind::InsufficientData); },
    };
    let (max_bitrate, p) = match read_u32(s, p) {
        Some(x) => x,
        None => { return Err(AsfErrorKind::InsufficientData); },
    };
    let o = FilePropertiesObject {
        object_id: vstd::slice::slice_to_vec(FILE_PROPERTIES_OBJECT_GUID.as_slice()),
        object_size,
        file_id,
        file_size,
        creation_date,
        data_packets_count,
        play_duration,
        send_duration,
        preoll,
        flags,
        min_data_packet_size,
        max_data_packet_size,
        max_bitrate,
    };
    proof {
        assert(o@ =~= spec_parse_file_props_object(s@, pos as int)->Some_0.0);
    }
    Ok((o, p))
}

// ---------------------------------------------------------------------------
// Stream properties object
// ---------------------------------------------------------------------------

/// One elementary stream's declaration: its stream-type and
/// error-correction-type ids (stored verbatim whether or not they match a
/// known constant) and two trailing variable-length byte blobs whose sizes
/// come from the two length fields.  Zero or more per container.
#[derive(Debug, Clone, PartialEq)]
pub struct StreamPropertiesObject {
    pub object_id: Vec<u8>,
    pub object_size: u64,
    pub stream_type: Vec<u8>,
    pub error_correction_type: Vec<u8>,
    pub time_offset: u64,
    pub type_specific_data_length: u32,
    pub error_correction_data_length: u32,
    pub flags: u16,
    pub reserved: u32,
    pub type_specific_data: Vec<u8>,
    pub error_correction_data: Vec<u8>,
}

/// Mathematical model of a [`StreamPropertiesObject`].
#[verifier::ext_equal]
pub ghost struct SpecStreamPropertiesObject {
    pub object_id: Seq<u8>,
    pub object_size: int,
    pub stream_type: Seq<u8>,
    pub error_correction_type: Seq<u8>,
    pub time_offset: int,
    pub type_specific_data_length: int,
    pub error_correction_data_length: int,
    pub flags: int,
    pub reserved: int,
    pub type_specific_data: Seq<u8>,
    pub error_correction_data: Seq<u8>,
}

impl View for StreamPropertiesObject {
    type V = SpecStreamPropertiesObject;

    open spec fn view(&self) -> SpecStreamPropertiesObject {
        SpecStreamPropertiesObject {
            object_id: self.object_id@,
            object_size: self.object_size as int,
            stream_type: self.stream_type@,
            error_correction_type: self.error_correction_type@,
            time_offset: self.time_offset as int,
            type_specific_data_length: self.type_specific_data_length as int,
            error_correction_data_length: self.error_correction_data_length as int,
            flags: self.flags as int,
            reserved: self.reserved as int,
            type_specific_data: self.type_specific_data@,
            error_correction_data: self.error_correction_data@,
        }
    }
}

/// The stream properties object decoded from `s` at `off` (position of the
/// size field).  A fixed 62-byte prefix carries two length fields that size
/// the two trailing blobs; `None` when the prefix or either blob would run
/// past the end of the buffer.
pub open spec fn spec_parse_stream_props_object(s: Seq<u8>, off: int) -> Option<
    (SpecStreamPropertiesObject, int),
> {
    if off + 62 <= s.len() {
        let l1 = le32_at(s, off + 48);
        let l2 = le32_at(s, off + 52);
        if off + 62 + l1 + l2 <= s.len() {
            Some((
                SpecStreamPropertiesObject {
                    object_id: STREAM_PROPERTIES_OBJECT_GUID@,
                    object_size: le64_at(s, off),
                    stream_type: s.subrange(off + 8, off + 24),
                    error_correction_type: s.subrange(off + 24, off + 40),
                    time_offset: le64_at(s, off + 40),
                    type_specific_data_length: l1,
                    error_correction_data_length: l2,
                    flags: le16_at(s, off + 56),
                    reserved: le32_at(s, off + 58),
                    type_specific_data: s.subrange(off + 62, off + 62 + l1),
                    error_correction_data: s.subrange(off + 62 + l1, off + 62 + l1 + l2),
                },
                off + 62 + l1 + l2,
            ))
        } else {
            None
        }
    } else {
        None
    }
}

/// Decodes a stream properties object starting at its size field.  The two
/// length fields are validated against the remaining buffer before either
/// blob is read.
pub fn parse_stream_props_object(s: &[u8], pos: usize) -> (r: Result<
    (StreamPropertiesObject, usize),
    AsfErrorKind,
>)
    ensures
        match r {
            Ok((o, p)) => {
                &&& spec_parse_stream_props_object(s@, pos as int) == Some((o@, p as int))
                &&& pos <= p <= s@.len()
            },
            Err(k) => {
                &&& spec_parse_stream_props_object(s@, pos as int) is None
                &&& k == AsfErrorKind::InsufficientData
            },
        },
{
    let (object_size, p) = match read_u64(s, pos) {
        Some(x) => x,
        None => { return Err(AsfErrorKind::InsufficientData); },
    };
    let (stream_type, p) = match read_bytes(s, p, 16) {
        Some(x) => x,
        None => { return Err(AsfErrorKind::InsufficientData); },
    };
    let (error_correction_type, p) = match read_bytes(s, p, 16) {
        Some(x) => x,
        None => { return Err(AsfErrorKind::InsufficientData); },
    };
    let (time_offset, p) = match read_u64(s, p) {
        Some(x) => x,
        None => { return Err(AsfErrorKind::InsufficientData); },
    };
    let (type_specific_data_length, p) = match read_u32(s, p) {
        Some(x) => x,
        None => { return Err(AsfErrorKind::InsufficientData); },
    };
    let (error_correction_data_length, p) = match read_u32(s, p) {
        Some(x) => x,
        None => { return Err(AsfErrorKind::InsufficientData); },
    };
    let (flags, p) = match read_u16(s, p) {
        Some(x) => x,
        None => { return Err(AsfErrorKind::InsufficientData); },
    };
    let (reserved, p) = match read_u16(s, p) {
        Some(x) => x,
        None => { return Err(AsfErrorKind::InsufficientData); },
    };
    // the reserved field is 4 bytes; read the second half as well
    let (reserved_hi, p) = match read_u16(s, p) {
        Some(x) => x,
        None => { return Err(AsfErrorKind::InsufficientData); },
    };
    let reserved: u32 = (reserved as u32) + 0x1_0000 * (reserved_hi as u32);
    let (type_specific_data, p) = match read_bytes(s, p, type_specific_data_length as usize) {
        Some(x) => x,
        None => { return Err(AsfErrorKind::InsufficientData); },
    };
    let (error_correction_data, p) = match read_bytes(s, p, error_correction_data_length as usize) {
        Some(x) => x,
        None => { return Err(AsfErrorKind::InsufficientData); },
    };
    let o = StreamPropertiesObject {
        object_id: vstd::slice::slice_to_vec(STREAM_PROPERTIES_OBJECT_GUID.as_slice()),
        object_size,
        stream_type,
        error_correction_type,
        time_offset,
        type_specific_data_length,
        error_correction_data_length,
        flags,
        reserved,
        type_specific_data,
        error_correction_data,
    };
    proof {
        assert(o@ =~= spec_parse_stream_props_object(s@, pos as int)->Some_0.0);
    }
    Ok((o, p))
}

// ---------------------------------------------------------------------------
// Bitrate records and the stream bitrate properties object
// ---------------------------------------------------------------------------

/// One per-stream average bitrate entry; held only as an element of a
/// [`StreamBitratePropertiesObject`].
#[derive(Debug, Clone, PartialEq)]
pub struct BitrateRecord {
    pub flags: u16,
    pub average_bitrate: u32,
}

/// Mathematical model of a [`BitrateRecord`].
#[verifier::ext_equal]
pub ghost struct SpecBitrateRecord {
    pub flags: int,
    pub average_bitrate: int,
}

impl View for BitrateRecord {
    type V = SpecBitrateRecord;

    open spec fn view(&self) -> SpecBitrateRecord {
        SpecBitrateRecord {
            flags: self.flags as int,
            average_bitrate: self.average_bitrate as int,
        }
    }
}

/// The models of a sequence of bitrate records.
pub open spec fn bitrate_record_views(v: Seq<BitrateRecord>) -> Seq<SpecBitrateRecord> {
    v.map_values(|r: BitrateRecord| r@)
}

/// The 6-byte bitrate record decoded from `s` at `off`.
pub open spec fn spec_parse_bitrate_record(s: Seq<u8>, off: int) -> Option<
    (SpecBitrateRecord, int),
> {
    if off + 6 <= s.len() {
        Some((
            SpecBitrateRecord { flags: le16_at(s, off), average_bitrate: le32_at(s, off + 2) },
            off + 6,
        ))
    } else {
        None
    }
}

/// Decodes one bitrate record.
pub fn parse_bitrate_record(s: &[u8], pos: usize) -> (r: Result<
    (BitrateRecord, usize),
    AsfErrorKind,
>)
    ensures
        match r {
            Ok((o, p)) => {
                &&& spec_parse_bitrate_record(s@, pos as int) == Some((o@, p as int))
                &&& pos <= p <= s@.len()
            },
            Err(k) => {
                &&& spec_parse_bitrate_record(s@, pos as int) is None
                &&& k == AsfErrorKind::InsufficientData
            },
        },
{
    let (flags, p) = match read_u16(s, pos) {
        Some(x) => x,
        None => { return Err(AsfErrorKind::InsufficientData); },
    };
    let (average_bitrate, p) = match read_u32(s, p) {
        Some(x) => x,
        None => { return Err(AsfErrorKind::InsufficientData); },
    };
    Ok((BitrateRecord { flags, average_bitrate }, p))
}

/// The `n` consecutive bitrate records decoded from `s` at `off`, in order;
/// `None` as soon as one of them runs past the end of the buffer.
pub open spec fn spec_parse_bitrate_records(s: Seq<u8>, off: int, n: int) -> Option<
    (Seq<SpecBitrateRecord>, int),
>
    decreases n,
{
    if n <= 0 {
        Some((Seq::empty(), off))
    } else {
        match spec_parse_bitrate_record(s, off) {
            Some((rec, p)) => match spec_parse_bitrate_records(s, p, n - 1) {
                Some((rest, e)) => Some((seq![rec] + rest, e)),
                None => None,
            },
            None => None,
        }
    }
}

/// Per-stream average bitrates: a record count and exactly that many
/// records.  At most one per container.
#[derive(Debug, Clone, PartialEq)]
pub struct StreamBitratePropertiesObject {
    pub object_id: Vec<u8>,
    pub object_size: u64,
    pub bitrate_records_count: u16,
    pub bitrate_records: Vec<BitrateRecord>,
}

/// Mathematical model of a [`StreamBitratePropertiesObject`].
#[verifier::ext_equal]
pub ghost struct SpecStreamBitratePropertiesObject {
    pub object_id: Seq<u8>,
    pub object_size: int,
    pub bitrate_records_count: int,
    pub bitrate_records: Seq<SpecBitrateRecord>,
}

impl View for StreamBitratePropertiesObject {
    type V = SpecStreamBitratePropertiesObject;

    open spec fn view(&self) -> SpecStreamBitratePropertiesObject {
        SpecStreamBitratePropertiesObject {
            object_id: self.object_id@,
            object_size: self.object_size as int,
            bitrate_records_count: self.bitrate_records_count as int,
            bitrate_records: bitrate_record_views(self.bitrate_records@),
        }
    }
}

/// The stream bitrate properties object decoded from `s` at `off` (position
/// of the size field): the size, a record count, then exactly that many
/// records.  `None` when the fixed prefix or any record runs past the end.
pub open spec fn spec_parse_bitrate_props_object(s: Seq<u8>, off: int) -> Option<
    (SpecStreamBitratePropertiesObject, int),
> {
    if off + 10 <= s.len() {
        let c = le16_at(s, off + 8);
        match spec_parse_bitrate_records(s, off + 10, c) {
            Some((recs, p)) => Some((
                SpecStreamBitratePropertiesObject {
                    object_id: STREAM_BITRATE_PROPERTIES_OBJECT_GUID@,
                    object_size: le64_at(s, off),
                    bitrate_records_count: c,
                    bitrate_records: recs,
                },
                p,
            )),
            None => None,
        }
    } else {
        None
    }
}

/// Decodes a stream bitrate properties object starting at its size field.
/// A count implying more records than the remaining bytes hold fails with
/// insufficient data partway through the array.
#[verifier::loop_isolation(false)]
pub fn parse_bitrate_props_object(s: &[u8], pos: usize) -> (r: Result<
    (StreamBitratePropertiesObject, usize),
    AsfErrorKind,
>)
    ensures
        match r {
            Ok((o, p)) => {
                &&& spec_parse_bitrate_props_object(s@, pos as int) == Some((o@, p as int))
                &&& pos <= p <= s@.len()
            },
            Err(k) => {
                &&& spec_parse_bitrate_props_object(s@, pos as int) is None
                &&& k == AsfErrorKind::InsufficientData
            },
        },
{
    let (object_size, p0) = match read_u64(s, pos) {
        Some(x) => x,
        None => { return Err(AsfErrorKind::InsufficientData); },
    };
    let (bitrate_records_count, start) = match read_u16(s, p0) {
        Some(x) => x,
        None => { return Err(AsfErrorKind::InsufficientData); },
    };
    let ghost whole = spec_parse_bitrate_records(s@, start as int, bitrate_records_count as int);
    let mut bitrate_records: Vec<BitrateRecord> = Vec::new();
    let mut p: usize = start;
    let mut i: u16 = 0;
    proof {
        assert(bitrate_record_views(bitrate_records@) =~= Seq::<SpecBitrateRecord>::empty());
    }
    while i < bitrate_records_count
        invariant
            i <= bitrate_records_count,
            pos <= p <= s@.len(),
            whole == spec_parse_bitrate_records(s@, start as int, bitrate_records_count as int),
            match spec_parse_bitrate_records(s@, p as int, bitrate_records_count - i) {
                Some((rest, e)) => whole == Some(
                    (bitrate_record_views(bitrate_records@) + rest, e),
                ),
                None => whole is None,
            },
        decreases bitrate_records_count - i,
    {
        match parse_bitrate_record(s, p) {
            Ok((rec, p2)) => {
                proof {
                    let tail = spec_parse_bitrate_records(s@, p2 as int, bitrate_records_count - i - 1);
                    if tail is Some {
                        let (rest2, e2) = tail->Some_0;
                        assert(bitrate_record_views(bitrate_records@.push(rec)) =~=
                            bitrate_record_views(bitrate_records@).push(rec@));
                        assert(bitrate_record_views(bitrate_records@) + (seq![rec@] + rest2) =~=
                            bitrate_record_views(bitrate_records@.push(rec)) + rest2);
                    }
                }
                bitrate_records.push(rec);
                p = p2;
                i = i + 1;
            },
            Err(k) => {
                return Err(k);
            },
        }
    }
    proof {
        assert(bitrate_record_views(bitrate_records@) + Seq::<SpecBitrateRecord>::empty() =~=
            bitrate_record_views(bitrate_records@));
    }
    let o = StreamBitratePropertiesObject {
        object_id: vstd::slice::slice_to_vec(STREAM_BITRATE_PROPERTIES_OBJECT_GUID.as_slice()),
        object_size,
        bitrate_records_count,
        bitrate_records,
    };
    proof {
        assert(o@ =~= spec_parse_bitrate_props_object(s@, pos as int)->Some_0.0);
    }
    Ok((o, p))
}

// ---------------------------------------------------------------------------
// Data object
// ---------------------------------------------------------------------------

/// The packet payload of the container: a file id, a packet count, and the
/// remaining raw bytes of the object, whose length is derived from the
/// object's own declared size.  At most one per container.
#[derive(Debug, Clone, PartialEq)]
pub struct DataObject {
    pub object_id: Vec<u8>,
    pub object_size: u64,
    pub file_id: Vec<u8>,
    pub total_data_packets: u16,
    pub reserved: u16,
    pub data_packets: Vec<u8>,
}

/// Mathematical model of a [`DataObject`].
#[verifier::ext_equal]
pub ghost struct SpecDataObject {
    pub object_id: Seq<u8>,
    pub object_size: int,
    pub file_id: Seq<u8>,
    pub total_data_packets: int,
    pub reserved: int,
    pub data_packets: Seq<u8>,
}

impl View for DataObject {
    type V = SpecDataObject;

    open spec fn view(&self) -> SpecDataObject {
        SpecDataObject {
            object_id: self.object_id@,
            object_size: self.object_size as int,
            file_id: self.file_id@,
            total_data_packets: self.total_data_packets as int,
            reserved: self.reserved as int,
            data_packets: self.data_packets@,
        }
    }
}

/// The data object decoded from `s` at `off` (position of the size field).
/// Its trailing blob holds `declared_size - 44` bytes: the declared size
/// minus the 24-byte object header and the fixed 20-byte payload prefix.
/// A declared size under 44 is a malformed object, not an underflow.
pub open spec fn spec_parse_data_object(s: Seq<u8>, off: int) -> Result<
    (SpecDataObject, int),
    AsfErrorKind,
> {
    if off + 8 <= s.len() {
        let size = le64_at(s, off);
        if size < 44 {
            Err(AsfErrorKind::MalformedObject)
        } else if off + 28 + (size - 44) <= s.len() {
            Ok((
                SpecDataObject {
                    object_id: DATA_OBJECT_GUID@,
                    object_size: size,
                    file_id: s.subrange(off + 8, off + 24),
                    total_data_packets: le16_at(s, off + 24),
                    reserved: le16_at(s, off + 26),
                    data_packets: s.subrange(off + 28, off + 28 + (size - 44)),
                },
                off + 28 + (size - 44),
            ))
        } else {
            Err(AsfErrorKind::InsufficientData)
        }
    } else {
        Err(AsfErrorKind::InsufficientData)
    }
}

/// Decodes a data object starting at its size field.  The blob length is
/// computed with a checked subtraction and validated against the remaining
/// buffer before the blob is copied.
pub fn parse_data_object(s: &[u8], pos: usize) -> (r: Result<(DataObject, usize), AsfErrorKind>)
    ensures
        match r {
            Ok((o, p)) => {
                &&& spec_parse_data_object(s@, pos as int) == Ok::<_, AsfErrorKind>(
                    (o@, p as int),
                )
                &&& pos <= p <= s@.len()
            },
            Err(k) => spec_parse_data_object(s@, pos as int) == Err::<(SpecDataObject, int), _>(k),
        },
{
    let (object_size, p) = match read_u64(s, pos) {
        Some(x) => x,
        None => { return Err(AsfErrorKind::InsufficientData); },
    };
    if object_size < 44 {
        return Err(AsfErrorKind::MalformedObject);
    }
    let (file_id, p) = match read_bytes(s, p, 16) {
        Some(x) => x,
        None => { return Err(AsfErrorKind::InsufficientData); },
    };
    let (total_data_packets, p) = match read_u16(s, p) {
        Some(x) => x,
        None => { return Err(AsfErrorKind::InsufficientData); },
    };
    let (reserved, p) = match read_u16(s, p) {
        Some(x) => x,
        None => { return Err(AsfErrorKind::InsufficientData); },
    };
    let blob_len = object_size - 44;
    if blob_len > (s.len() - p) as u64 {
        return Err(AsfErrorKind::InsufficientData);
    }
    let (data_packets, p) = match read_bytes(s, p, blob_len as usize) {
        Some(x) => x,
        None => { return Err(AsfErrorKind::InsufficientData); },
    };
    let o = DataObject {
        object_id: vstd::slice::slice_to_vec(DATA_OBJECT_GUID.as_slice()),
        object_size,
        file_id,
        total_data_packets,
        reserved,
        data_packets,
    };
    proof {
        assert(o@ =~= spec_parse_data_object(s@, pos as int)->Ok_0.0);
    }
    Ok((o, p))
}

// ---------------------------------------------------------------------------
// Generic skip
// ---------------------------------------------------------------------------

/// The offset just past an unrecognized object whose size field stands at
/// `off`: the walker discards `declared_size - 24` payload bytes without
/// interpreting them.  A declared size under 24 is a malformed object.
pub open spec fn spec_skip_object(s: Seq<u8>, off: int) -> Result<int, AsfErrorKind> {
    if off + 8 <= s.len() {
        let size = le64_at(s, off);
        if size < 24 {
            Err(AsfErrorKind::MalformedObject)
        } else if off + 8 + (size - 24) <= s.len() {
            Ok(off + 8 + (size - 24))
        } else {
            Err(AsfErrorKind::InsufficientData)
        }
    } else {
        Err(AsfErrorKind::InsufficientData)
    }
}

/// Skips an unrecognized object starting at its size field, returning the
/// offset of the next object.  The discarded length is computed with a
/// checked subtraction and validated against the remaining buffer.
pub fn skip_object(s: &[u8], pos: usize) -> (r: Result<usize, AsfErrorKind>)
    ensures
        match r {
            Ok(p) => spec_skip_object(s@, pos as int) == Ok::<_, AsfErrorKind>(p as int) && pos
                <= p <= s@.len(),
            Err(k) => spec_skip_object(s@, pos as int) == Err::<int, _>(k),
        },
{
    let (object_size, p) = match read_u64(s, pos) {
        Some(x) => x,
        None => { return Err(AsfErrorKind::InsufficientData); },
    };
    if object_size < 24 {
        return Err(AsfErrorKind::MalformedObject);
    }
    let payload = object_size - 24;
    if payload > (s.len() - p) as u64 {
        return Err(AsfErrorKind::InsufficientData);
    }
    Ok(p + payload as usize)
}

} // verus!
