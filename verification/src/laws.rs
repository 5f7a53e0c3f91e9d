//! Laws of the decoder, stated and proved over the spec-level parse
//! functions: size accounting for length-driven objects, preservation of
//! stream declaration order, determinism, and the guarantee that a
//! truncated buffer fails with insufficient data.

use vstd::prelude::*;

use crate::errs::AsfErrorKind;
use crate::errs::SpecFail;
use crate::guids::DATA_OBJECT_GUID;
use crate::guids::FILE_PROPERTIES_OBJECT_GUID;
use crate::guids::STREAM_BITRATE_PROPERTIES_OBJECT_GUID;
use crate::guids::STREAM_PROPERTIES_OBJECT_GUID;
use crate::objects::spec_parse_bitrate_props_object;
use crate::objects::spec_parse_bitrate_records;
use crate::objects::spec_parse_data_object;
use crate::objects::spec_parse_file_props_object;
use crate::objects::spec_parse_header_object;
use crate::objects::spec_parse_stream_props_object;
use crate::objects::spec_skip_object;
use crate::objects::SpecDataObject;
use crate::objects::SpecStreamPropertiesObject;
use crate::reader::le16_at;
use crate::reader::le32_at;
use crate::reader::le64_at;
use crate::walker::spec_parse_asf;
use crate::walker::spec_parse_children;
use crate::walker::SpecAsf;

verus! {

// ---------------------------------------------------------------------------
// Size accounting
// ---------------------------------------------------------------------------

/// A decoded data object's declared size accounts for every byte the
/// decoder consumed: the 16-byte type id the walker read, the 8-byte size
/// field, and the payload up to the returned offset.  Equivalently, the
/// declared size is 24 plus the payload consumed after the 24-byte object
/// header.  (For the fixed-layout object kinds the consumed span is the
/// constant their spec functions return; only the data object and the
/// generic skip derive it from the declared size itself.)
pub proof fn lemma_data_object_size_accounts(s: Seq<u8>, off: int, o: SpecDataObject, p: int)
    requires
        0 <= off,
        spec_parse_data_object(s, off) == Ok::<_, AsfErrorKind>((o, p)),
    ensures
        o.object_size == 16 + (p - off),
        o.object_size == 24 + o.data_packets.len() + 20,
{
}

/// A skipped unknown object's declared size accounts for every byte the
/// walker discarded: the 16-byte type id, the 8-byte size field, and the
/// `declared_size - 24` payload bytes up to the returned offset.
pub proof fn lemma_skipped_object_size_accounts(s: Seq<u8>, off: int, p: int)
    requires
        spec_skip_object(s, off) == Ok::<_, AsfErrorKind>(p),
    ensures
        le64_at(s, off) == 16 + (p - off),
{
}

/// The consumption of the fixed-layout decoders, re-derived from their
/// field offsets: with the 16-byte type id, a file properties object spans
/// 104 bytes, a stream properties object 78 bytes plus its two blob
/// lengths, and a stream bitrate properties object 26 bytes plus 6 per
/// record.  A container is size-truthful exactly where each object's
/// declared size equals this span; the decoders, by design, do not reject
/// an untruthful declared size on these kinds.
pub proof fn lemma_fixed_layout_consumption(s: Seq<u8>, off: int)
    ensures
        spec_parse_file_props_object(s, off) matches Some((o, p)) ==> p - off == 88,
        spec_parse_stream_props_object(s, off) matches Some((o, p)) ==> p - off == 62
            + o.type_specific_data_length + o.error_correction_data_length,
        spec_parse_bitrate_props_object(s, off) matches Some((o, p)) ==> p - off == 10 + 6
            * o.bitrate_records_count,
{
    if spec_parse_bitrate_props_object(s, off) is Some {
        lemma_bitrate_records_span(s, off + 10, le16_at(s, off + 8));
    }
}

/// A bitrate record array spans exactly 6 bytes per record.
proof fn lemma_bitrate_records_span(s: Seq<u8>, off: int, n: int)
    requires
        spec_parse_bitrate_records(s, off, n) is Some,
        n >= 0,
    ensures
        spec_parse_bitrate_records(s, off, n)->Some_0.1 == off + 6 * n,
    decreases n,
{
    if n <= 0 {
    } else {
        lemma_bitrate_records_span(s, off + 6, n - 1);
    }
}

// ---------------------------------------------------------------------------
// Stream declaration order
// ---------------------------------------------------------------------------

/// The stream properties objects of the children of `s` from `off` on
/// (children `i` to `n`), in the order their type tags occur in the byte
/// stream.  Ends early where the walk would fail; the walk's own result
/// says whether it does.
pub open spec fn spec_children_streams(s: Seq<u8>, off: int, i: int, n: int) -> Seq<
    SpecStreamPropertiesObject,
>
    decreases n - i,
{
    if i >= n || off + 16 > s.len() {
        Seq::empty()
    } else {
        let tag = s.subrange(off, off + 16);
        let body = off + 16;
        if tag == FILE_PROPERTIES_OBJECT_GUID@ {
            match spec_parse_file_props_object(s, body) {
                Some((o, p)) => spec_children_streams(s, p, i + 1, n),
                None => Seq::empty(),
            }
        } else if tag == STREAM_PROPERTIES_OBJECT_GUID@ {
            match spec_parse_stream_props_object(s, body) {
                Some((o, p)) => seq![o] + spec_children_streams(s, p, i + 1, n),
                None => Seq::empty(),
            }
        } else if tag == STREAM_BITRATE_PROPERTIES_OBJECT_GUID@ {
            match spec_parse_bitrate_props_object(s, body) {
                Some((o, p)) => spec_children_streams(s, p, i + 1, n),
                None => Seq::empty(),
            }
        } else if tag == DATA_OBJECT_GUID@ {
            match spec_parse_data_object(s, body) {
                Ok((o, p)) => spec_children_streams(s, p, i + 1, n),
                Err(k) => Seq::empty(),
            }
        } else {
            match spec_skip_object(s, body) {
                Ok(p) => spec_children_streams(s, p, i + 1, n),
                Err(k) => Seq::empty(),
            }
        }
    }
}

/// A successful walk appends stream properties objects to the accumulator
/// in exactly the order their type tags occur in the child list: nothing is
/// dropped, reordered or deduplicated.
pub proof fn lemma_children_streams_in_tag_order(
    s: Seq<u8>,
    off: int,
    i: int,
    n: int,
    acc: SpecAsf,
)
    requires
        spec_parse_children(s, off, i, n, acc) is Ok,
    ensures
        spec_parse_children(s, off, i, n, acc)->Ok_0.0.stream_props_objects
            == acc.stream_props_objects + spec_children_streams(s, off, i, n),
    decreases n - i,
{
    if i >= n {
        assert(acc.stream_props_objects + spec_children_streams(s, off, i, n)
            =~= acc.stream_props_objects);
    } else {
        let tag = s.subrange(off, off + 16);
        let body = off + 16;
        if tag == FILE_PROPERTIES_OBJECT_GUID@ {
            let (o, p) = spec_parse_file_props_object(s, body)->Some_0;
            lemma_children_streams_in_tag_order(
                s,
                p,
                i + 1,
                n,
                SpecAsf { file_props_object: Some(o), ..acc },
            );
        } else if tag == STREAM_PROPERTIES_OBJECT_GUID@ {
            let (o, p) = spec_parse_stream_props_object(s, body)->Some_0;
            let acc2 = SpecAsf {
                stream_props_objects: acc.stream_props_objects.push(o),
                ..acc
            };
            lemma_children_streams_in_tag_order(s, p, i + 1, n, acc2);
            assert(acc.stream_props_objects.push(o) + spec_children_streams(s, p, i + 1, n)
                =~= acc.stream_props_objects + (seq![o] + spec_children_streams(s, p, i + 1, n)));
        } else if tag == STREAM_BITRATE_PROPERTIES_OBJECT_GUID@ {
            let (o, p) = spec_parse_bitrate_props_object(s, body)->Some_0;
            lemma_children_streams_in_tag_order(
                s,
                p,
                i + 1,
                n,
                SpecAsf { stream_bitrate_props_object: Some(o), ..acc },
            );
        } else if tag == DATA_OBJECT_GUID@ {
            let (o, p) = spec_parse_data_object(s, body)->Ok_0;
            lemma_children_streams_in_tag_order(
                s,
                p,
                i + 1,
                n,
                SpecAsf { data_object: Some(o), ..acc },
            );
        } else {
            let p = spec_skip_object(s, body)->Ok_0;
            lemma_children_streams_in_tag_order(s, p, i + 1, n, acc);
        }
    }
}

/// A successfully decoded container holds exactly the stream properties
/// objects of the child list, in the order their type tags occur in the
/// byte stream.
pub proof fn lemma_asf_streams_in_tag_order(s: Seq<u8>)
    requires
        spec_parse_asf(s) is Ok,
    ensures
        spec_parse_asf(s)->Ok_0.0.stream_props_objects == spec_children_streams(
            s,
            spec_parse_header_object(s, 0)->Some_0.1,
            0,
            spec_parse_header_object(s, 0)->Some_0.0.num_header_objects,
        ),
{
    let (h, p) = spec_parse_header_object(s, 0)->Some_0;
    let acc = SpecAsf {
        header_object: h,
        file_props_object: None,
        stream_props_objects: Seq::empty(),
        stream_bitrate_props_object: None,
        data_object: None,
    };
    lemma_children_streams_in_tag_order(s, p, 0, h.num_header_objects, acc);
    assert(Seq::<SpecStreamPropertiesObject>::empty() + spec_children_streams(
        s,
        p,
        0,
        h.num_header_objects,
    ) =~= spec_children_streams(s, p, 0, h.num_header_objects));
}

// ---------------------------------------------------------------------------
// Determinism
// ---------------------------------------------------------------------------

/// Decoding is a function of the input bytes alone: equal byte sequences
/// decode to equal outcomes, so re-parsing the same buffer yields an
/// identical container.  (The contract of `parse_asf` ties every run to
/// `spec_parse_asf`, so this extends to the executable decoder.)
pub proof fn lemma_parse_deterministic(s1: Seq<u8>, s2: Seq<u8>)
    requires
        s1 == s2,
    ensures
        spec_parse_asf(s1) == spec_parse_asf(s2),
{
}

// ---------------------------------------------------------------------------
// Truncation
// ---------------------------------------------------------------------------

/// Bitrate record arrays and truncation: a prefix that cuts at `k`, at or
/// past `off`, either still holds the whole array (the parse succeeds with
/// the same end) or cuts it short (the parse fails).
proof fn lemma_bitrate_records_truncated(s: Seq<u8>, k: int, off: int, n: int)
    requires
        spec_parse_bitrate_records(s, off, n) is Some,
        0 <= off <= k <= s.len(),
    ensures
        ({
            let e = spec_parse_bitrate_records(s, off, n)->Some_0.1;
            if k >= e {
                spec_parse_bitrate_records(s.subrange(0, k), off, n) is Some
                    && spec_parse_bitrate_records(s.subrange(0, k), off, n)->Some_0.1 == e
            } else {
                spec_parse_bitrate_records(s.subrange(0, k), off, n) is None
            }
        }),
    decreases n,
{
    let t = s.subrange(0, k);
    let e = spec_parse_bitrate_records(s, off, n)->Some_0.1;
    if n <= 0 {
    } else {
        lemma_bitrate_records_end(s, off + 6, n - 1);
        if k < off + 6 {
            assert(spec_parse_bitrate_records(t, off, n) is None);
            assert(k < e);
        } else {
            lemma_bitrate_records_truncated(s, k, off + 6, n - 1);
        }
    }
}

/// A successfully parsed bitrate record array ends at or after its start
/// and within the buffer.
proof fn lemma_bitrate_records_end(s: Seq<u8>, off: int, n: int)
    requires
        spec_parse_bitrate_records(s, off, n) is Some,
        0 <= off <= s.len(),
    ensures
        off <= spec_parse_bitrate_records(s, off, n)->Some_0.1 <= s.len(),
    decreases n,
{
    if n <= 0 {
    } else {
        lemma_bitrate_records_end(s, off + 6, n - 1);
    }
}

/// A file properties object and truncation: a prefix cut at `k`, at or past
/// `off`, either still holds the whole object (same end) or cuts it short.
proof fn lemma_file_props_truncated(s: Seq<u8>, k: int, off: int)
    requires
        spec_parse_file_props_object(s, off) is Some,
        0 <= off <= k <= s.len(),
    ensures
        ({
            let p = spec_parse_file_props_object(s, off)->Some_0.1;
            if k >= p {
                spec_parse_file_props_object(s.subrange(0, k), off) is Some
                    && spec_parse_file_props_object(s.subrange(0, k), off)->Some_0.1 == p
            } else {
                spec_parse_file_props_object(s.subrange(0, k), off) is None
            }
        }),
{
}

/// A stream properties object and truncation.
proof fn lemma_stream_props_truncated(s: Seq<u8>, k: int, off: int)
    requires
        spec_parse_stream_props_object(s, off) is Some,
        0 <= off <= k <= s.len(),
    ensures
        ({
            let p = spec_parse_stream_props_object(s, off)->Some_0.1;
            if k >= p {
                spec_parse_stream_props_object(s.subrange(0, k), off) is Some
                    && spec_parse_stream_props_object(s.subrange(0, k), off)->Some_0.1 == p
            } else {
                spec_parse_stream_props_object(s.subrange(0, k), off) is None
            }
        }),
{
    let t = s.subrange(0, k);
    let p = spec_parse_stream_props_object(s, off)->Some_0.1;
    if k >= off + 62 {
        assert(le32_at(t, off + 48) == le32_at(s, off + 48));
        assert(le32_at(t, off + 52) == le32_at(s, off + 52));
    }
}

/// A stream bitrate properties object and truncation.
proof fn lemma_bitrate_props_truncated(s: Seq<u8>, k: int, off: int)
    requires
        spec_parse_bitrate_props_object(s, off) is Some,
        0 <= off <= k <= s.len(),
    ensures
        ({
            let p = spec_parse_bitrate_props_object(s, off)->Some_0.1;
            if k >= p {
                spec_parse_bitrate_props_object(s.subrange(0, k), off) is Some
                    && spec_parse_bitrate_props_object(s.subrange(0, k), off)->Some_0.1 == p
            } else {
                spec_parse_bitrate_props_object(s.subrange(0, k), off) is None
            }
        }),
{
    let t = s.subrange(0, k);
    let p = spec_parse_bitrate_props_object(s, off)->Some_0.1;
    lemma_bitrate_records_end(s, off + 10, le16_at(s, off + 8));
    if k >= off + 10 {
        assert(le16_at(t, off + 8) == le16_at(s, off + 8));
        lemma_bitrate_records_truncated(s, k, off + 10, le16_at(s, off + 8));
    } else {
        assert(k < p);
    }
}

/// A data object and truncation: the cut either leaves the whole object
/// (same end) or the prefix fails with insufficient data — never with a
/// malformed object, since the declared size it reads is the one that
/// already decoded.
proof fn lemma_data_object_truncated(s: Seq<u8>, k: int, off: int)
    requires
        spec_parse_data_object(s, off) is Ok,
        0 <= off <= k <= s.len(),
    ensures
        ({
            let p = spec_parse_data_object(s, off)->Ok_0.1;
            if k >= p {
                spec_parse_data_object(s.subrange(0, k), off) is Ok
                    && spec_parse_data_object(s.subrange(0, k), off)->Ok_0.1 == p
            } else {
                spec_parse_data_object(s.subrange(0, k), off) == Err::<(SpecDataObject, int), _>(
                    AsfErrorKind::InsufficientData,
                )
            }
        }),
{
    let t = s.subrange(0, k);
    if k >= off + 8 {
        assert(le64_at(t, off) == le64_at(s, off));
    }
}

/// An unrecognized object's skip and truncation.
proof fn lemma_skip_truncated(s: Seq<u8>, k: int, off: int)
    requires
        spec_skip_object(s, off) is Ok,
        0 <= off <= k <= s.len(),
    ensures
        ({
            let p = spec_skip_object(s, off)->Ok_0;
            if k >= p {
                spec_skip_object(s.subrange(0, k), off) == Ok::<_, AsfErrorKind>(p)
            } else {
                spec_skip_object(s.subrange(0, k), off) == Err::<int, _>(
                    AsfErrorKind::InsufficientData,
                )
            }
        }),
{
    let t = s.subrange(0, k);
    if k >= off + 8 {
        assert(le64_at(t, off) == le64_at(s, off));
    }
}

/// Walking the children of a truncated buffer: if the walk over `s`
/// succeeds and the cut falls before its end (but not before the current
/// offset), the walk over the prefix fails with insufficient data —
/// whatever container `acc_t` it had accumulated so far.  The per-kind
/// steps live in the `lemma_child_truncated_*` lemmas below, one per
/// dispatch branch.
#[verifier::rlimit(50)]
proof fn lemma_children_truncated(
    s: Seq<u8>,
    k: int,
    off: int,
    i: int,
    n: int,
    acc: SpecAsf,
    acc_t: SpecAsf,
)
    requires
        spec_parse_children(s, off, i, n, acc) is Ok,
        0 <= off <= k <= s.len(),
        k < spec_parse_children(s, off, i, n, acc)->Ok_0.1,
    ensures
        spec_parse_children(s.subrange(0, k), off, i, n, acc_t) is Err,
        spec_parse_children(s.subrange(0, k), off, i, n, acc_t)->Err_0.kind
            == AsfErrorKind::InsufficientData,
    decreases n - i, 1int,
{
    let t = s.subrange(0, k);
    if i >= n {
        assert(false);
    } else if off + 16 > k {
        assert(spec_parse_children(t, off, i, n, acc_t) is Err);
    } else {
        assert(t.subrange(off, off + 16) =~= s.subrange(off, off + 16));
        let tag = s.subrange(off, off + 16);
        if tag == FILE_PROPERTIES_OBJECT_GUID@ {
            lemma_child_truncated_file(s, k, off, i, n, acc, acc_t);
        } else if tag == STREAM_PROPERTIES_OBJECT_GUID@ {
            lemma_child_truncated_stream(s, k, off, i, n, acc, acc_t);
        } else if tag == STREAM_BITRATE_PROPERTIES_OBJECT_GUID@ {
            lemma_child_truncated_bitrate(s, k, off, i, n, acc, acc_t);
        } else if tag == DATA_OBJECT_GUID@ {
            lemma_child_truncated_data(s, k, off, i, n, acc, acc_t);
        } else {
            lemma_child_truncated_skip(s, k, off, i, n, acc, acc_t);
        }
    }
}

/// The file properties branch of `lemma_children_truncated`.
#[verifier::rlimit(50)]
proof fn lemma_child_truncated_file(
    s: Seq<u8>,
    k: int,
    off: int,
    i: int,
    n: int,
    acc: SpecAsf,
    acc_t: SpecAsf,
)
    requires
        spec_parse_children(s, off, i, n, acc) is Ok,
        0 <= off <= k <= s.len(),
        k < spec_parse_children(s, off, i, n, acc)->Ok_0.1,
        i < n,
        off + 16 <= k,
        s.subrange(off, off + 16) == FILE_PROPERTIES_OBJECT_GUID@,
    ensures
        spec_parse_children(s.subrange(0, k), off, i, n, acc_t) is Err,
        spec_parse_children(s.subrange(0, k), off, i, n, acc_t)->Err_0.kind
            == AsfErrorKind::InsufficientData,
    decreases n - i, 0int,
{
    let t = s.subrange(0, k);
    assert(t.subrange(off, off + 16) =~= s.subrange(off, off + 16));
    let body = off + 16;
    let (o, p) = spec_parse_file_props_object(s, body)->Some_0;
    lemma_file_props_truncated(s, k, body);
    if k >= p {
        lemma_children_truncated(
            s,
            k,
            p,
            i + 1,
            n,
            SpecAsf { file_props_object: Some(o), ..acc },
            SpecAsf {
                file_props_object: Some(spec_parse_file_props_object(t, body)->Some_0.0),
                ..acc_t
            },
        );
    }
}

/// The stream properties branch of `lemma_children_truncated`.
#[verifier::rlimit(50)]
proof fn lemma_child_truncated_stream(
    s: Seq<u8>,
    k: int,
    off: int,
    i: int,
    n: int,
    acc: SpecAsf,
    acc_t: SpecAsf,
)
    requires
        spec_parse_children(s, off, i, n, acc) is Ok,
        0 <= off <= k <= s.len(),
        k < spec_parse_children(s, off, i, n, acc)->Ok_0.1,
        i < n,
        off + 16 <= k,
        s.subrange(off, off + 16) != FILE_PROPERTIES_OBJECT_GUID@,
        s.subrange(off, off + 16) == STREAM_PROPERTIES_OBJECT_GUID@,
    ensures
        spec_parse_children(s.subrange(0, k), off, i, n, acc_t) is Err,
        spec_parse_children(s.subrange(0, k), off, i, n, acc_t)->Err_0.kind
            == AsfErrorKind::InsufficientData,
    decreases n - i, 0int,
{
    let t = s.subrange(0, k);
    assert(t.subrange(off, off + 16) =~= s.subrange(off, off + 16));
    let body = off + 16;
    let (o, p) = spec_parse_stream_props_object(s, body)->Some_0;
    lemma_stream_props_truncated(s, k, body);
    assert(le32_at(s, body + 48) >= 0);
    assert(le32_at(s, body + 52) >= 0);
    assert(p == body + 62 + le32_at(s, body + 48) + le32_at(s, body + 52));
    if k >= p {
        lemma_children_truncated(
            s,
            k,
            p,
            i + 1,
            n,
            SpecAsf { stream_props_objects: acc.stream_props_objects.push(o), ..acc },
            SpecAsf {
                stream_props_objects: acc_t.stream_props_objects.push(
                    spec_parse_stream_props_object(t, body)->Some_0.0,
                ),
                ..acc_t
            },
        );
    }
}

/// The stream bitrate properties branch of `lemma_children_truncated`.
#[verifier::rlimit(50)]
proof fn lemma_child_truncated_bitrate(
    s: Seq<u8>,
    k: int,
    off: int,
    i: int,
    n: int,
    acc: SpecAsf,
    acc_t: SpecAsf,
)
    requires
        spec_parse_children(s, off, i, n, acc) is Ok,
        0 <= off <= k <= s.len(),
        k < spec_parse_children(s, off, i, n, acc)->Ok_0.1,
        i < n,
        off + 16 <= k,
        s.subrange(off, off + 16) != FILE_PROPERTIES_OBJECT_GUID@,
        s.subrange(off, off + 16) != STREAM_PROPERTIES_OBJECT_GUID@,
        s.subrange(off, off + 16) == STREAM_BITRATE_PROPERTIES_OBJECT_GUID@,
    ensures
        spec_parse_children(s.subrange(0, k), off, i, n, acc_t) is Err,
        spec_parse_children(s.subrange(0, k), off, i, n, acc_t)->Err_0.kind
            == AsfErrorKind::InsufficientData,
    decreases n - i, 0int,
{
    let t = s.subrange(0, k);
    assert(t.subrange(off, off + 16) =~= s.subrange(off, off + 16));
    let body = off + 16;
    let (o, p) = spec_parse_bitrate_props_object(s, body)->Some_0;
    lemma_bitrate_props_truncated(s, k, body);
    lemma_bitrate_records_end(s, body + 10, le16_at(s, body + 8));
    if k >= p {
        lemma_children_truncated(
            s,
            k,
            p,
            i + 1,
            n,
            SpecAsf { stream_bitrate_props_object: Some(o), ..acc },
            SpecAsf {
                stream_bitrate_props_object: Some(
                    spec_parse_bitrate_props_object(t, body)->Some_0.0,
                ),
                ..acc_t
            },
        );
    }
}

/// The data object branch of `lemma_children_truncated`.
#[verifier::rlimit(50)]
proof fn lemma_child_truncated_data(
    s: Seq<u8>,
    k: int,
    off: int,
    i: int,
    n: int,
    acc: SpecAsf,
    acc_t: SpecAsf,
)
    requires
        spec_parse_children(s, off, i, n, acc) is Ok,
        0 <= off <= k <= s.len(),
        k < spec_parse_children(s, off, i, n, acc)->Ok_0.1,
        i < n,
        off + 16 <= k,
        s.subrange(off, off + 16) != FILE_PROPERTIES_OBJECT_GUID@,
        s.subrange(off, off + 16) != STREAM_PROPERTIES_OBJECT_GUID@,
        s.subrange(off, off + 16) != STREAM_BITRATE_PROPERTIES_OBJECT_GUID@,
        s.subrange(off, off + 16) == DATA_OBJECT_GUID@,
    ensures
        spec_parse_children(s.subrange(0, k), off, i, n, acc_t) is Err,
        spec_parse_children(s.subrange(0, k), off, i, n, acc_t)->Err_0.kind
            == AsfErrorKind::InsufficientData,
    decreases n - i, 0int,
{
    let t = s.subrange(0, k);
    assert(t.subrange(off, off + 16) =~= s.subrange(off, off + 16));
    let body = off + 16;
    let (o, p) = spec_parse_data_object(s, body)->Ok_0;
    lemma_data_object_truncated(s, k, body);
    if k >= p {
        lemma_children_truncated(
            s,
            k,
            p,
            i + 1,
            n,
            SpecAsf { data_object: Some(o), ..acc },
            SpecAsf { data_object: Some(spec_parse_data_object(t, body)->Ok_0.0), ..acc_t },
        );
    }
}

/// The unrecognized-object skip branch of `lemma_children_truncated`.
#[verifier::rlimit(50)]
proof fn lemma_child_truncated_skip(
    s: Seq<u8>,
    k: int,
    off: int,
    i: int,
    n: int,
    acc: SpecAsf,
    acc_t: SpecAsf,
)
    requires
        spec_parse_children(s, off, i, n, acc) is Ok,
        0 <= off <= k <= s.len(),
        k < spec_parse_children(s, off, i, n, acc)->Ok_0.1,
        i < n,
        off + 16 <= k,
        s.subrange(off, off + 16) != FILE_PROPERTIES_OBJECT_GUID@,
        s.subrange(off, off + 16) != STREAM_PROPERTIES_OBJECT_GUID@,
        s.subrange(off, off + 16) != STREAM_BITRATE_PROPERTIES_OBJECT_GUID@,
        s.subrange(off, off + 16) != DATA_OBJECT_GUID@,
    ensures
        spec_parse_children(s.subrange(0, k), off, i, n, acc_t) is Err,
        spec_parse_children(s.subrange(0, k), off, i, n, acc_t)->Err_0.kind
            == AsfErrorKind::InsufficientData,
    decreases n - i, 0int,
{
    let t = s.subrange(0, k);
    assert(t.subrange(off, off + 16) =~= s.subrange(off, off + 16));
    let body = off + 16;
    let p = spec_skip_object(s, body)->Ok_0;
    lemma_skip_truncated(s, k, body);
    if k >= p {
        lemma_children_truncated(s, k, p, i + 1, n, acc, acc_t);
    }
}

/// Any prefix of a successfully decoded container that is shorter than the
/// bytes the parse consumed fails with insufficient data: it never decodes
/// to a wrong or partial container, and never to a malformed-object error.
pub proof fn lemma_truncated_prefix_fails(s: Seq<u8>, k: int)
    requires
        spec_parse_asf(s) is Ok,
        0 <= k < spec_parse_asf(s)->Ok_0.1,
    ensures
        spec_parse_asf(s.subrange(0, k)) is Err,
        spec_parse_asf(s.subrange(0, k))->Err_0.kind == AsfErrorKind::InsufficientData,
{
    let t = s.subrange(0, k);
    let (h, p) = spec_parse_header_object(s, 0)->Some_0;
    lemma_children_end(s, p, 0, h.num_header_objects, spec_asf_init(h));
    if k < 30 {
        assert(spec_parse_header_object(t, 0) is None);
    } else {
        assert(t.subrange(0, 16) =~= s.subrange(0, 16));
        assert(spec_parse_header_object(t, 0)->Some_0.0 =~= h);
        lemma_children_truncated(
            s,
            k,
            p,
            0,
            h.num_header_objects,
            spec_asf_init(h),
            spec_asf_init(h),
        );
    }
}

/// The empty container a walk starts from, under the header `h`.
pub open spec fn spec_asf_init(h: crate::objects::SpecHeaderObject) -> SpecAsf {
    SpecAsf {
        header_object: h,
        file_props_object: None,
        stream_props_objects: Seq::empty(),
        stream_bitrate_props_object: None,
        data_object: None,
    }
}

/// A successful walk ends at or after its starting offset and within the
/// buffer.
proof fn lemma_children_end(s: Seq<u8>, off: int, i: int, n: int, acc: SpecAsf)
    requires
        spec_parse_children(s, off, i, n, acc) is Ok,
        0 <= off <= s.len(),
    ensures
        off <= spec_parse_children(s, off, i, n, acc)->Ok_0.1 <= s.len(),
    decreases n - i,
{
    if i >= n {
    } else {
        let tag = s.subrange(off, off + 16);
        let body = off + 16;
        if tag == FILE_PROPERTIES_OBJECT_GUID@ {
            let (o, p) = spec_parse_file_props_object(s, body)->Some_0;
            lemma_children_end(s, p, i + 1, n, SpecAsf { file_props_object: Some(o), ..acc });
        } else if tag == STREAM_PROPERTIES_OBJECT_GUID@ {
            let (o, p) = spec_parse_stream_props_object(s, body)->Some_0;
            lemma_children_end(
                s,
                p,
                i + 1,
                n,
                SpecAsf { stream_props_objects: acc.stream_props_objects.push(o), ..acc },
            );
        } else if tag == STREAM_BITRATE_PROPERTIES_OBJECT_GUID@ {
            let (o, p) = spec_parse_bitrate_props_object(s, body)->Some_0;
            lemma_bitrate_records_end(s, body + 10, o.bitrate_records_count);
            lemma_children_end(
                s,
                p,
                i + 1,
                n,
                SpecAsf { stream_bitrate_props_object: Some(o), ..acc },
            );
        } else if tag == DATA_OBJECT_GUID@ {
            let (o, p) = spec_parse_data_object(s, body)->Ok_0;
            lemma_children_end(s, p, i + 1, n, SpecAsf { data_object: Some(o), ..acc });
        } else {
            let p = spec_skip_object(s, body)->Ok_0;
            lemma_children_end(s, p, i + 1, n, acc);
        }
    }
}


} // verus!

