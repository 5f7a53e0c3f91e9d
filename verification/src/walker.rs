//! The header walker: the top-level loop that decodes a whole container.
//!
//! It reads the root header object once, then walks the declared number of
//! child objects: each iteration consumes a 16-byte type tag and dispatches
//! to the decoder of the matching known kind, or skips the object's payload
//! by its declared length when the tag is unrecognized.  The first failure
//! anywhere aborts the parse; no partial container is returned.
//!
//! `spec_parse_asf` is the mathematical form of the walk, and the contract
//! of `parse_asf` ties the executable result to it exactly: which inputs
//! succeed, every decoded field, the count of consumed bytes, and which
//! failure is reported otherwise.

use vstd::prelude::*;

use crate::errs::AsfError;
use crate::errs::AsfErrorKind;
use crate::errs::SpecFail;
use crate::guids::DATA_OBJECT_GUID;
use crate::guids::FILE_PROPERTIES_OBJECT_GUID;
use crate::guids::STREAM_BITRATE_PROPERTIES_OBJECT_GUID;
use crate::guids::STREAM_PROPERTIES_OBJECT_GUID;
use crate::objects::parse_bitrate_props_object;
use crate::objects::parse_data_object;
use crate::objects::parse_file_props_object;
use crate::objects::parse_header_object;
use crate::objects::parse_stream_props_object;
use crate::objects::skip_object;
use crate::objects::spec_parse_bitrate_props_object;
use crate::objects::spec_parse_data_object;
use crate::objects::spec_parse_file_props_object;
use crate::objects::spec_parse_header_object;
use crate::objects::spec_parse_stream_props_object;
use crate::objects::spec_skip_object;
use crate::objects::DataObject;
use crate::objects::FilePropertiesObject;
use crate::objects::HeaderObject;
use crate::objects::SpecDataObject;
use crate::objects::SpecFilePropertiesObject;
use crate::objects::SpecHeaderObject;
use crate::objects::SpecStreamBitratePropertiesObject;
use crate::objects::SpecStreamPropertiesObject;
use crate::objects::StreamBitratePropertiesObject;
use crate::objects::StreamPropertiesObject;
use crate::reader::read_bytes;

verus! {

/// The fully decoded container: the root header object, at most one file
/// properties object, the stream properties objects in declaration order,
/// at most one stream bitrate properties object, and at most one data
/// object.  Unknown child objects are observed and discarded.
#[derive(Debug, PartialEq)]
pub struct ASF {
    pub header_object: HeaderObject,
    pub file_props_object: Option<Box<FilePropertiesObject>>,
    pub stream_props_objects: Vec<StreamPropertiesObject>,
    pub stream_bitrate_props_object: Option<Box<StreamBitratePropertiesObject>>,
    pub data_object: Option<Box<DataObject>>,
}

/// Mathematical model of an [`ASF`] container.
#[verifier::ext_equal]
pub ghost struct SpecAsf {
    pub header_object: SpecHeaderObject,
    pub file_props_object: Option<SpecFilePropertiesObject>,
    pub stream_props_objects: Seq<SpecStreamPropertiesObject>,
    pub stream_bitrate_props_object: Option<SpecStreamBitratePropertiesObject>,
    pub data_object: Option<SpecDataObject>,
}

/// The models of a sequence of stream properties objects.
pub open spec fn stream_props_views(v: Seq<StreamPropertiesObject>) -> Seq<
    SpecStreamPropertiesObject,
> {
    v.map_values(|o: StreamPropertiesObject| o@)
}

/// The model assembled from the walker's working state.
pub open spec fn model_of(
    h: &HeaderObject,
    fp: &Option<Box<FilePropertiesObject>>,
    sps: &Vec<StreamPropertiesObject>,
    sb: &Option<Box<StreamBitratePropertiesObject>>,
    d: &Option<Box<DataObject>>,
) -> SpecAsf {
    SpecAsf {
        header_object: h@,
        file_props_object: match *fp {
            Some(b) => Some(b@),
            None => None,
        },
        stream_props_objects: stream_props_views(sps@),
        stream_bitrate_props_object: match *sb {
            Some(b) => Some(b@),
            None => None,
        },
        data_object: match *d {
            Some(b) => Some(b@),
            None => None,
        },
    }
}

impl View for ASF {
    type V = SpecAsf;

    open spec fn view(&self) -> SpecAsf {
        model_of(
            &self.header_object,
            &self.file_props_object,
            &self.stream_props_objects,
            &self.stream_bitrate_props_object,
            &self.data_object,
        )
    }
}

/// The dispatch loop over the remaining `n - i` child objects of `s`
/// starting at `off`, folded into the container `acc`.
///
/// Each step consumes a 16-byte type tag and decodes or skips one object:
/// a recognized file properties, stream bitrate properties or data object
/// replaces the one held so far (last seen wins), a stream properties
/// object is appended to the stream list, and an unrecognized tag skips the
/// object's declared length.  The first failing step aborts the walk with
/// its condition and the index of the failing child.
pub open spec fn spec_parse_children(
    s: Seq<u8>,
    off: int,
    i: int,
    n: int,
    acc: SpecAsf,
) -> Result<(SpecAsf, int), SpecFail>
    decreases n - i,
{
    if i >= n {
        Ok((acc, off))
    } else if off + 16 > s.len() {
        Err(SpecFail { kind: AsfErrorKind::InsufficientData, object_index: Some(i) })
    } else {
        let tag = s.subrange(off, off + 16);
        let body = off + 16;
        if tag == FILE_PROPERTIES_OBJECT_GUID@ {
            match spec_parse_file_props_object(s, body) {
                Some((o, p)) => spec_parse_children(
                    s,
                    p,
                    i + 1,
                    n,
                    SpecAsf { file_props_object: Some(o), ..acc },
                ),
                None => Err(
                    SpecFail { kind: AsfErrorKind::InsufficientData, object_index: Some(i) },
                ),
            }
        } else if tag == STREAM_PROPERTIES_OBJECT_GUID@ {
            match spec_parse_stream_props_object(s, body) {
                Some((o, p)) => spec_parse_children(
                    s,
                    p,
                    i + 1,
                    n,
                    SpecAsf { stream_props_objects: acc.stream_props_objects.push(o), ..acc },
                ),
                None => Err(
                    SpecFail { kind: AsfErrorKind::InsufficientData, object_index: Some(i) },
                ),
            }
        } else if tag == STREAM_BITRATE_PROPERTIES_OBJECT_GUID@ {
            match spec_parse_bitrate_props_object(s, body) {
                Some((o, p)) => spec_parse_children(
                    s,
                    p,
                    i + 1,
                    n,
                    SpecAsf { stream_bitrate_props_object: Some(o), ..acc },
                ),
                None => Err(
                    SpecFail { kind: AsfErrorKind::InsufficientData, object_index: Some(i) },
                ),
            }
        } else if tag == DATA_OBJECT_GUID@ {
            match spec_parse_data_object(s, body) {
                Ok((o, p)) => spec_parse_children(
                    s,
                    p,
                    i + 1,
                    n,
                    SpecAsf { data_object: Some(o), ..acc },
                ),
                Err(k) => Err(SpecFail { kind: k, object_index: Some(i) }),
            }
        } else {
            match spec_skip_object(s, body) {
                Ok(p) => spec_parse_children(s, p, i + 1, n, acc),
                Err(k) => Err(SpecFail { kind: k, object_index: Some(i) }),
            }
        }
    }
}

/// The container decoded from the whole buffer `s`: the root header object
/// at offset 0, then its declared number of child objects.  `Ok` carries the
/// container model and the offset of the first unconsumed trailing byte.
pub open spec fn spec_parse_asf(s: Seq<u8>) -> Result<(SpecAsf, int), SpecFail> {
    match spec_parse_header_object(s, 0) {
        Some((h, p)) => spec_parse_children(
            s,
            p,
            0,
            h.num_header_objects,
            SpecAsf {
                header_object: h,
                file_props_object: None,
                stream_props_objects: Seq::empty(),
                stream_bitrate_props_object: None,
                data_object: None,
            },
        ),
        None => Err(SpecFail { kind: AsfErrorKind::InsufficientData, object_index: None }),
    }
}

/// Compares a 16-byte tag read from the buffer against a registry constant.
fn tag_matches(tag: &Vec<u8>, guid: &[u8; 16]) -> (r: bool)
    requires
        tag@.len() == 16,
    ensures
        r <==> tag@ == guid@,
{
    let mut i: usize = 0;
    while i < 16
        invariant
            i <= 16,
            tag@.len() == 16,
            forall|j: int| 0 <= j < i ==> tag@[j] == guid@[j],
        decreases 16 - i,
    {
        if tag[i] != *vstd::slice::slice_index_get(guid.as_slice(), i) {
            proof {
                assert(tag@[i as int] != guid@[i as int]);
            }
            return false;
        }
        i = i + 1;
    }
    proof {
        assert(tag@ =~= guid@);
    }
    true
}

/// Decodes a whole container from `input`.
///
/// On success the result holds the assembled container and the count of
/// consumed bytes; the bytes of `input` past that count are the trailing
/// data the format permits after the modeled child objects, returned to the
/// caller uninterpreted.  On failure it reports which condition stopped the
/// parse and at which child object; no partial container is returned.  The
/// outcome is exactly `spec_parse_asf(input@)`: the parse is total,
/// deterministic, and never panics.
#[verifier::loop_isolation(false)]
pub fn parse_asf(input: &[u8]) -> (r: Result<(ASF, usize), AsfError>)
    ensures
        match r {
            Ok((asf, consumed)) => {
                &&& spec_parse_asf(input@) == Ok::<_, SpecFail>((asf@, consumed as int))
                &&& consumed <= input@.len()
            },
            Err(e) => spec_parse_asf(input@) == Err::<(SpecAsf, int), _>(e@),
        },
{
    let (header_object, start) = match parse_header_object(input, 0) {
        Ok(x) => x,
        Err(k) => {
            return Err(AsfError { kind: k, object_index: None });
        },
    };
    let n: u32 = header_object.num_header_objects;
    let mut file_props_object: Option<Box<FilePropertiesObject>> = None;
    let mut stream_props_objects: Vec<StreamPropertiesObject> = Vec::new();
    let mut stream_bitrate_props_object: Option<Box<StreamBitratePropertiesObject>> = None;
    let mut data_object: Option<Box<DataObject>> = None;
    let mut pos: usize = start;
    let mut i: u32 = 0;
    proof {
        assert(stream_props_views(stream_props_objects@) =~= Seq::<
            SpecStreamPropertiesObject,
        >::empty());
    }
    while i < n
        invariant
            i <= n,
            pos <= input@.len(),
            spec_parse_children(
                input@,
                pos as int,
                i as int,
                n as int,
                model_of(
                    &header_object,
                    &file_props_object,
                    &stream_props_objects,
                    &stream_bitrate_props_object,
                    &data_object,
                ),
            ) == spec_parse_asf(input@),
        decreases n - i,
    {
        let ghost prev_model = model_of(
            &header_object,
            &file_props_object,
            &stream_props_objects,
            &stream_bitrate_props_object,
            &data_object,
        );
        let (tag, body) = match read_bytes(input, pos, 16) {
            Some(x) => x,
            None => {
                return Err(
                    AsfError { kind: AsfErrorKind::InsufficientData, object_index: Some(i) },
                );
            },
        };
        if tag_matches(&tag, &FILE_PROPERTIES_OBJECT_GUID) {
            match parse_file_props_object(input, body) {
                Ok((o, p)) => {
                    proof {
                        assert(SpecAsf { file_props_object: Some(o@), ..prev_model } =~= model_of(
                            &header_object,
                            &Some(Box::new(o)),
                            &stream_props_objects,
                            &stream_bitrate_props_object,
                            &data_object,
                        ));
                    }
                    file_props_object = Some(Box::new(o));
                    pos = p;
                },
                Err(k) => {
                    return Err(AsfError { kind: k, object_index: Some(i) });
                },
            }
        } else if tag_matches(&tag, &STREAM_PROPERTIES_OBJECT_GUID) {
            match parse_stream_props_object(input, body) {
                Ok((o, p)) => {
                    proof {
                        assert(stream_props_views(stream_props_objects@.push(o)) =~=
                            stream_props_views(stream_props_objects@).push(o@));
                    }
                    stream_props_objects.push(o);
                    pos = p;
                },
                Err(k) => {
                    return Err(AsfError { kind: k, object_index: Some(i) });
                },
            }
        } else if tag_matches(&tag, &STREAM_BITRATE_PROPERTIES_OBJECT_GUID) {
            match parse_bitrate_props_object(input, body) {
                Ok((o, p)) => {
                    proof {
                        assert(SpecAsf {
                            stream_bitrate_props_object: Some(o@),
                            ..prev_model
                        } =~= model_of(
                            &header_object,
                            &file_props_object,
                            &stream_props_objects,
                            &Some(Box::new(o)),
                            &data_object,
                        ));
                    }
                    stream_bitrate_props_object = Some(Box::new(o));
                    pos = p;
                },
                Err(k) => {
                    return Err(AsfError { kind: k, object_index: Some(i) });
                },
            }
        } else if tag_matches(&tag, &DATA_OBJECT_GUID) {
            match parse_data_object(input, body) {
                Ok((o, p)) => {
                    proof {
                        assert(SpecAsf { data_object: Some(o@), ..prev_model } =~= model_of(
                            &header_object,
                            &file_props_object,
                            &stream_props_objects,
                            &stream_bitrate_props_object,
                            &Some(Box::new(o)),
                        ));
                    }
                    data_object = Some(Box::new(o));
                    pos = p;
                },
                Err(k) => {
                    return Err(AsfError { kind: k, object_index: Some(i) });
                },
            }
        } else {
            match skip_object(input, body) {
                Ok(p) => {
                    pos = p;
                },
                Err(k) => {
                    return Err(AsfError { kind: k, object_index: Some(i) });
                },
            }
        }
        i = i + 1;
    }
    let asf = ASF {
        header_object,
        file_props_object,
        stream_props_objects,
        stream_bitrate_props_object,
        data_object,
    };
    Ok((asf, pos))
}

} // verus!
