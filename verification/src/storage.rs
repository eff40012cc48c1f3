//! The journal database's event payload codecs, schema versions and reports.
//!
//! Payloads are stored raw, or zstd-compressed when that makes them smaller.
use vstd::prelude::*;

use crate::error::JottraceError;
use crate::text::{owned, str_eq};

verus! {

pub const DB_FILE_NAME: &'static str = "db.sqlite";

pub const LATEST_SCHEMA_VERSION: i64 = 13;

pub const RAW_CODEC: &'static str = "raw";

pub const ZSTD_CODEC: &'static str = "zstd";

/// Minimum source payload size considered for zstd.
pub const ZSTD_MIN_PAYLOAD_BYTES: usize = 1024;

#[derive(Debug, Clone, PartialEq, Eq)]
pub struct StatusReport {
    pub db_path: String,
    pub schema_version: i64,
    pub session_count: u64,
    pub event_count: u64,
    pub unresolved_ingest_error_count: u64,
}

#[derive(Debug, Clone, PartialEq, Eq)]
pub struct IngestErrorSummary {
    pub source: String,
    pub source_session_id: Option<String>,
    pub file_path: String,
    pub generation: Option<i64>,
    pub byte_offset: Option<i64>,
    pub line_number: Option<i64>,
    pub error_kind: String,
    pub message: String,
    pub first_seen_at: String,
    pub last_seen_at: String,
    pub occurrence_count: u64,
}

/// A payload as stored: its bytes, its codec, and the size of the original.
#[derive(Debug, Clone, PartialEq, Eq)]
pub struct EncodedEventPayload {
    pub payload: Vec<u8>,
    pub codec: &'static str,
    pub payload_size: usize,
}

// ---------------------------------------------------------------------------
// zstd
// ---------------------------------------------------------------------------
/// What `zstd::stream::decode_all` gives for a byte string: the decompressed
/// bytes, or the message of the error it reports.
pub uninterp spec fn zstd_decode_result(payload: Seq<u8>) -> Result<Seq<u8>, Seq<char>>;

/// What `zstd::stream::encode_all` gives for a byte string at a level.
pub uninterp spec fn zstd_encode_result(payload: Seq<u8>, level: i32) -> Result<Seq<u8>, Seq<char>>;

/// What reading at most `limit` bytes from a `zstd::stream::read::Decoder`
/// over a byte string gives.
pub uninterp spec fn zstd_prefix_result(payload: Seq<u8>, limit: usize) -> Result<Seq<u8>, Seq<char>>;

pub open spec fn bytes_result(r: Result<Vec<u8>, String>) -> Result<Seq<u8>, Seq<char>> {
    match r {
        Ok(b) => Ok(b@),
        Err(m) => Err(m@),
    }
}

/// Compresses `payload` with `zstd::stream::encode_all` at `level`. The
/// compressed frame decompresses back to `payload` (zstd is lossless).
#[verifier::external_body]
fn zstd_encode_all(payload: &[u8], level: i32) -> (r: Result<Vec<u8>, String>)
    ensures
        bytes_result(r) == zstd_encode_result(payload@, level),
        match r {
            Ok(c) => zstd_decode_result(c@) == Ok::<Seq<u8>, Seq<char>>(payload@),
            Err(_) => true,
        },
{
    zstd::stream::encode_all(payload, level).map_err(|e| e.to_string())
}

/// Decompresses a whole zstd frame with `zstd::stream::decode_all`.
#[verifier::external_body]
fn zstd_decode_all(payload: &[u8]) -> (r: Result<Vec<u8>, String>)
    ensures
        bytes_result(r) == zstd_decode_result(payload@),
{
    zstd::stream::decode_all(payload).map_err(|e| e.to_string())
}

/// Decompresses at most `limit` bytes of a zstd frame, reading a
/// `zstd::stream::read::Decoder` through `Read::take`. Where the whole frame
/// decompresses, this is its first `limit` bytes.
#[verifier::external_body]
fn zstd_decode_prefix(payload: &[u8], limit: usize) -> (r: Result<Vec<u8>, String>)
    ensures
        bytes_result(r) == zstd_prefix_result(payload@, limit),
        match zstd_decode_result(payload@) {
            Ok(d) => r is Ok && r->Ok_0@ == d.take(
                if limit < d.len() {
                    limit as int
                } else {
                    d.len() as int
                },
            ),
            Err(_) => true,
        },
{
    let mut decoded = Vec::new();
    let decoder = zstd::stream::read::Decoder::new(payload).map_err(|e| e.to_string())?;
    std::io::Read::read_to_end(&mut std::io::Read::take(decoder, limit as u64), &mut decoded)
        .map_err(|e| e.to_string())?;
    Ok(decoded)
}

// ---------------------------------------------------------------------------
// Codecs
// ---------------------------------------------------------------------------
/// Why a payload could not be decoded or encoded.
pub enum CodecFailure {
    /// zstd reported an error, with its message.
    Zstd(Seq<char>),
    /// The stored codec is not one the journal knows.
    Unsupported(Seq<char>),
}

/// The message of a payload that could not be decoded.
pub open spec fn codec_failure_text(f: CodecFailure) -> Seq<char> {
    match f {
        CodecFailure::Zstd(m) => "failed to process event payload codec "@ + "zstd"@ + ": "@ + m,
        CodecFailure::Unsupported(c) => "unsupported event payload codec: "@ + c,
    }
}

/// A codec result seen through the views of its bytes and strings.
pub open spec fn codec_view(r: Result<Vec<u8>, JottraceError>) -> Result<Seq<u8>, Option<CodecFailure>> {
    match r {
        Ok(b) => Ok(b@),
        Err(JottraceError::EventPayloadCodec { codec, message }) => if codec@ == "zstd"@ {
            Err(Some(CodecFailure::Zstd(message@)))
        } else {
            Err(None)
        },
        Err(JottraceError::UnsupportedEventPayloadCodec { codec }) => Err(
            Some(CodecFailure::Unsupported(codec@)),
        ),
        Err(_) => Err(None),
    }
}

/// What decoding a stored payload gives: a raw payload as it is, a zstd
/// payload decompressed, and any other codec is unsupported.
pub open spec fn decoded_spec(payload: Seq<u8>, codec: Seq<char>) -> Result<Seq<u8>, Option<CodecFailure>> {
    if codec == "raw"@ {
        Ok(payload)
    } else if codec == "zstd"@ {
        match zstd_decode_result(payload) {
            Ok(d) => Ok(d),
            Err(m) => Err(Some(CodecFailure::Zstd(m))),
        }
    } else {
        Err(Some(CodecFailure::Unsupported(codec)))
    }
}

fn copy_bytes(payload: &[u8], n: usize) -> (out: Vec<u8>)
    requires
        n <= payload.len(),
    ensures
        out@ == payload@.take(n as int),
{
    let mut out: Vec<u8> = Vec::new();
    let mut i: usize = 0;
    while i < n
        invariant
            i <= n <= payload.len(),
            out@ == payload@.take(i as int),
        decreases n - i,
    {
        out.push(payload[i]);
        i = i + 1;
        proof {
            assert(out@ =~= payload@.take(i as int));
        }
    }
    out
}

fn zstd_failure(message: String) -> (e: JottraceError)
    ensures
        codec_view(Err(e)) == Err::<Seq<u8>, Option<CodecFailure>>(
            Some(CodecFailure::Zstd(message@)),
        ),
{
    let codec = owned(ZSTD_CODEC);
    proof {
        assert(codec@ == "zstd"@);
    }
    JottraceError::EventPayloadCodec { codec, message }
}

/// Decodes a stored event payload (see `decoded_spec`).
pub fn decode_event_payload(payload: &[u8], codec: &str) -> (r: Result<Vec<u8>, JottraceError>)
    ensures
        codec_view(r) == decoded_spec(payload@, codec@),
{
    if str_eq(codec, RAW_CODEC) {
        let out = copy_bytes(payload, payload.len());
        proof {
            assert(payload@.take(payload@.len() as int) =~= payload@);
        }
        return Ok(out);
    }
    if str_eq(codec, ZSTD_CODEC) {
        return match zstd_decode_all(payload) {
            Ok(d) => Ok(d),
            Err(message) => Err(zstd_failure(message)),
        };
    }
    Err(JottraceError::UnsupportedEventPayloadCodec { codec: owned(codec) })
}

/// Decodes at most `byte_limit` bytes of a stored event payload.
pub open spec fn decoded_prefix_spec(payload: Seq<u8>, codec: Seq<char>, byte_limit: usize) -> Result<
    Seq<u8>,
    Option<CodecFailure>,
> {
    if codec == "raw"@ {
        Ok(
            payload.take(
                if payload.len() < byte_limit {
                    payload.len() as int
                } else {
                    byte_limit as int
                },
            ),
        )
    } else if codec == "zstd"@ {
        match zstd_prefix_result(payload, byte_limit) {
            Ok(d) => Ok(d),
            Err(m) => Err(Some(CodecFailure::Zstd(m))),
        }
    } else {
        Err(Some(CodecFailure::Unsupported(codec)))
    }
}

/// The first `byte_limit` decoded bytes of a stored event payload; where the
/// whole payload decodes, exactly its first `byte_limit` bytes.
pub fn decode_event_payload_prefix(payload: &[u8], codec: &str, byte_limit: usize) -> (r: Result<
    Vec<u8>,
    JottraceError,
>)
    ensures
        codec_view(r) == decoded_prefix_spec(payload@, codec@, byte_limit),
        match decoded_spec(payload@, codec@) {
            Ok(d) => r is Ok && r->Ok_0@ == d.take(
                if d.len() < byte_limit {
                    d.len() as int
                } else {
                    byte_limit as int
                },
            ),
            Err(_) => true,
        },
{
    if str_eq(codec, RAW_CODEC) {
        let n = if payload.len() < byte_limit {
            payload.len()
        } else {
            byte_limit
        };
        return Ok(copy_bytes(payload, n));
    }
    if str_eq(codec, ZSTD_CODEC) {
        return match zstd_decode_prefix(payload, byte_limit) {
            Ok(d) => Ok(d),
            Err(message) => Err(zstd_failure(message)),
        };
    }
    Err(JottraceError::UnsupportedEventPayloadCodec { codec: owned(codec) })
}

fn raw_event_payload(payload: &[u8]) -> (r: EncodedEventPayload)
    ensures
        r.payload@ == payload@,
        r.codec@ == "raw"@,
        r.payload_size == payload.len(),
{
    let out = copy_bytes(payload, payload.len());
    proof {
        assert(payload@.take(payload@.len() as int) =~= payload@);
    }
    EncodedEventPayload { payload: out, codec: RAW_CODEC, payload_size: payload.len() }
}

/// How a payload is stored: raw below `ZSTD_MIN_PAYLOAD_BYTES`, zstd when
/// that is strictly smaller, raw otherwise.
pub open spec fn encoded_spec(payload: Seq<u8>) -> Result<(Seq<u8>, Seq<char>), Seq<char>> {
    if payload.len() < 1024 {
        Ok((payload, "raw"@))
    } else {
        match zstd_encode_result(payload, 0) {
            Ok(c) => if c.len() < payload.len() {
                Ok((c, "zstd"@))
            } else {
                Ok((payload, "raw"@))
            },
            Err(m) => Err(m),
        }
    }
}

/// Encodes a payload for storage (see `encoded_spec`). What it stores
/// decodes back to the payload.
pub fn encode_event_payload(payload: &[u8]) -> (r: Result<EncodedEventPayload, JottraceError>)
    ensures
        match r {
            Ok(e) => encoded_spec(payload@) == Ok::<(Seq<u8>, Seq<char>), Seq<char>>(
                (e.payload@, e.codec@),
            ) && e.payload_size == payload.len() && decoded_spec(e.payload@, e.codec@) == Ok::<
                Seq<u8>,
                Option<CodecFailure>,
            >(payload@),
            Err(e) => exists|m: Seq<char>|
                encoded_spec(payload@) == Err::<(Seq<u8>, Seq<char>), Seq<char>>(m) && codec_view(
                    Err(e),
                ) == Err::<Seq<u8>, Option<CodecFailure>>(Some(CodecFailure::Zstd(m))),
        },
{
    proof {
        reveal_strlit("raw");
        reveal_strlit("zstd");
    }
    if payload.len() < ZSTD_MIN_PAYLOAD_BYTES {
        return Ok(raw_event_payload(payload));
    }
    match zstd_encode_all(payload, 0) {
        Ok(compressed) => {
            if compressed.len() < payload.len() {
                proof {
                    assert(zstd_encode_result(payload@, 0) == Ok::<Seq<u8>, Seq<char>>(compressed@));
                    assert(ZSTD_CODEC@ == "zstd"@);
                    assert(encoded_spec(payload@) == Ok::<(Seq<u8>, Seq<char>), Seq<char>>(
                        (compressed@, "zstd"@),
                    ));
                    assert("zstd"@.len() != "raw"@.len());
                    assert(decoded_spec(compressed@, "zstd"@) == Ok::<Seq<u8>, Option<CodecFailure>>(
                        payload@,
                    ));
                }
                Ok(
                    EncodedEventPayload {
                        payload: compressed,
                        codec: ZSTD_CODEC,
                        payload_size: payload.len(),
                    },
                )
            } else {
                Ok(raw_event_payload(payload))
            }
        },
        Err(message) => Err(zstd_failure(message)),
    }
}

/// The schema versions a database at `current` still has to be migrated
/// through, in order; a database newer than this library is refused.
pub fn pending_migrations(db_path: &str, current: i64) -> (r: Result<Vec<i64>, JottraceError>)
    ensures
        match r {
            Ok(v) => current <= 13 && v@.len() == (if current < 0 {
                13
            } else {
                13 - current
            }) && forall|k: int|
                0 <= k < v@.len() ==> #[trigger] v@[k] == (if current < 0 {
                    1
                } else {
                    current + 1
                }) + k,
            Err(e) => current > 13 && (e matches JottraceError::UnsupportedSchemaVersion {
                path,
                actual,
                supported,
            } && path@ == db_path@ && actual == current && supported == 13),
        },
{
    if current > LATEST_SCHEMA_VERSION {
        return Err(
            JottraceError::UnsupportedSchemaVersion {
                path: owned(db_path),
                actual: current,
                supported: LATEST_SCHEMA_VERSION,
            },
        );
    }
    let first: i64 = if current < 0 {
        1
    } else {
        current + 1
    };
    let mut out: Vec<i64> = Vec::new();
    let mut version = first;
    while version <= LATEST_SCHEMA_VERSION
        invariant
            1 <= first <= version <= 14,
            first == (if current < 0 {
                1
            } else {
                current + 1
            }),
            out@.len() == version - first,
            forall|k: int| 0 <= k < out@.len() ==> #[trigger] out@[k] == first + k,
        decreases 14 - version,
    {
        out.push(version);
        version = version + 1;
    }
    Ok(out)
}

/// A codec the journal can decode.
pub open spec fn supported_codec(codec: Seq<char>) -> bool {
    codec == "raw"@ || codec == "zstd"@
}

/// Checks the codec of every selected event before any payload is decoded:
/// the first codec the journal does not know refuses the whole read.
pub fn check_event_codecs(codecs: &[String]) -> (r: Result<(), JottraceError>)
    ensures
        match r {
            Ok(()) => forall|i: int| 0 <= i < codecs.len() ==> supported_codec(#[trigger] codecs@[i]@),
            Err(e) => exists|i: int|
                0 <= i < codecs.len() && !supported_codec(#[trigger] codecs@[i]@) && (forall|j: int|
                    0 <= j < i ==> supported_codec(#[trigger] codecs@[j]@)) && (e
                    matches JottraceError::UnsupportedEventPayloadCodec { codec } && codec@ == codecs@[i]@),
        },
{
    let mut i: usize = 0;
    while i < codecs.len()
        invariant
            i <= codecs.len(),
            forall|j: int| 0 <= j < i ==> supported_codec(#[trigger] codecs@[j]@),
        decreases codecs.len() - i,
    {
        let c = codecs[i].as_str();
        if !(str_eq(c, RAW_CODEC) || str_eq(c, ZSTD_CODEC)) {
            let e = JottraceError::UnsupportedEventPayloadCodec { codec: owned(c) };
            proof {
                assert(!supported_codec(codecs@[i as int]@));
            }
            return Err(e);
        }
        i = i + 1;
    }
    Ok(())
}

/// A decoded-payload limit must be at least one event.
pub fn validate_decoded_event_limit(limit: i64) -> (r: Result<(), JottraceError>)
    ensures
        match r {
            Ok(()) => limit >= 1,
            Err(e) => limit < 1 && e == JottraceError::InvalidEventLimit { limit },
        },
{
    if limit >= 1 {
        Ok(())
    } else {
        Err(JottraceError::InvalidEventLimit { limit })
    }
}

/// The journal database of a data directory.
pub fn db_path_for_data_dir(data_dir: &str) -> (r: String)
    ensures
        r@ == crate::paths::join_path(data_dir@, "db.sqlite"@),
{
    crate::paths::join_path_str(data_dir, DB_FILE_NAME)
}

/// A status report from the counts the database gave (SQLite counts are
/// signed; they are reported as unsigned).
pub fn status_report(
    db_path: &str,
    schema_version: i64,
    session_count: i64,
    event_count: i64,
    unresolved_ingest_error_count: i64,
) -> (r: StatusReport)
    ensures
        r.db_path@ == db_path@,
        r.schema_version == schema_version,
        r.session_count == session_count as u64,
        r.event_count == event_count as u64,
        r.unresolved_ingest_error_count == unresolved_ingest_error_count as u64,
{
    StatusReport {
        db_path: owned(db_path),
        schema_version,
        session_count: session_count as u64,
        event_count: event_count as u64,
        unresolved_ingest_error_count: unresolved_ingest_error_count as u64,
    }
}

} // verus!
