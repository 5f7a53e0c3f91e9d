//! Decoder for a chunked, self-describing binary multimedia container.
//!
//! A container is a flat byte buffer that begins with a header object
//! enumerating a number of typed child objects.  Each child starts with a
//! 16-byte type id and an 8-byte declared size; known layouts are decoded
//! precisely, unknown ones are skipped by their declared length.

mod errs;
mod guids;
mod laws;
mod objects;
mod reader;
mod walker;

pub use errs::AsfError;
pub use errs::AsfErrorKind;
pub use errs::SpecFail;
pub use guids::DATA_OBJECT_GUID;
pub use guids::FILE_PROPERTIES_OBJECT_GUID;
pub use guids::HEADER_OBJECT_GUID;
pub use guids::STREAM_BITRATE_PROPERTIES_OBJECT_GUID;
pub use guids::STREAM_PROPERTIES_OBJECT_GUID;
pub use guids::STREAM_PROPERTIES_OBJECT_STREAM_TYPE_AUDIO_GUID;
pub use guids::STREAM_PROPERTIES_OBJECT_STREAM_TYPE_VIDEO_GUID;
pub use laws::lemma_asf_streams_in_tag_order;
pub use laws::lemma_children_streams_in_tag_order;
pub use laws::lemma_data_object_size_accounts;
pub use laws::lemma_fixed_layout_consumption;
pub use laws::lemma_parse_deterministic;
pub use laws::lemma_skipped_object_size_accounts;
pub use laws::lemma_truncated_prefix_fails;
pub use laws::spec_asf_init;
pub use laws::spec_children_streams;
pub use objects::parse_bitrate_props_object;
pub use objects::parse_bitrate_record;
pub use objects::parse_data_object;
pub use objects::parse_file_props_object;
pub use objects::parse_header_object;
pub use objects::parse_stream_props_object;
pub use objects::skip_object;
pub use objects::BitrateRecord;
pub use objects::DataObject;
pub use objects::FilePropertiesObject;
pub use objects::HeaderObject;
pub use objects::SpecBitrateRecord;
pub use objects::SpecDataObject;
pub use objects::SpecFilePropertiesObject;
pub use objects::SpecHeaderObject;
pub use objects::SpecStreamBitratePropertiesObject;
pub use objects::SpecStreamPropertiesObject;
pub use objects::StreamBitratePropertiesObject;
pub use objects::StreamPropertiesObject;
pub use walker::parse_asf;
pub use walker::SpecAsf;
pub use walker::ASF;
