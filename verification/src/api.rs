//! The presentation layer of the package endpoints: URL construction and
//! the pending-record response shape handed back to clients.

use vstd::prelude::*;
use vstd::string::StringExecFns;
use crate::bytes::{hex_of, to_hex};
use crate::digest::{LogId, RecordId};
use crate::records::{RecordState, RecordStateV};

verus! {

/// An error that indicates a broken internal invariant: a record state
/// surfaced as `Unknown` after an earlier message said otherwise.
#[derive(Clone, Copy, Debug, PartialEq, Eq, Structural)]
pub enum ApiError {
    InternalInconsistency,
}

/// The response returned for a record that was submitted for publishing.
/// `Unknown` is never surfaced here.
#[derive(Debug, Clone, PartialEq, Eq)]
pub enum PendingRecordResponse {
    Processing { status_url: String },
    Published { record_url: String },
    Rejected { reason: String },
}

/// Ghost mirror of `PendingRecordResponse`.
#[verifier::ext_equal]
pub enum PendingRecordResponseV {
    Processing { status_url: Seq<char> },
    Published { record_url: Seq<char> },
    Rejected { reason: Seq<char> },
}

impl View for PendingRecordResponse {
    type V = PendingRecordResponseV;

    open spec fn view(&self) -> PendingRecordResponseV {
        match self {
            PendingRecordResponse::Processing { status_url } => PendingRecordResponseV::Processing {
                status_url: status_url@,
            },
            PendingRecordResponse::Published { record_url } => PendingRecordResponseV::Published {
                record_url: record_url@,
            },
            PendingRecordResponse::Rejected { reason } => PendingRecordResponseV::Rejected {
                reason: reason@,
            },
        }
    }
}

/// The URL of a published record.
pub open spec fn record_url_spec(package_id: Seq<u8>, record_id: Seq<u8>) -> Seq<char> {
    "/package/sha256:"@ + hex_of(package_id) + "/records/sha256:"@ + hex_of(record_id)
}

/// The URL polled while a record is pending.
pub open spec fn pending_record_url_spec(package_id: Seq<u8>, record_id: Seq<u8>) -> Seq<char> {
    "/package/sha256:"@ + hex_of(package_id) + "/pending/sha256:"@ + hex_of(record_id)
}

/// Builds the URL of a published record.
pub fn record_url(package_id: &LogId, record_id: &RecordId) -> (r: String)
    ensures
        r@ == record_url_spec(package_id@, record_id@),
{
    let mut r = "/package/sha256:".to_owned();
    let pid = to_hex(&package_id.bytes);
    r.append(pid.as_str());
    r.append("/records/sha256:");
    let rid = to_hex(&record_id.bytes);
    r.append(rid.as_str());
    r
}

/// Builds the URL polled while a record is pending.
pub fn pending_record_url(package_id: &LogId, record_id: &RecordId) -> (r: String)
    ensures
        r@ == pending_record_url_spec(package_id@, record_id@),
{
    let mut r = "/package/sha256:".to_owned();
    let pid = to_hex(&package_id.bytes);
    r.append(pid.as_str());
    r.append("/pending/sha256:");
    let rid = to_hex(&record_id.bytes);
    r.append(rid.as_str());
    r
}

/// Maps a record state to the response of the pending-record endpoint.
/// `Unknown` never reaches clients: it is an internal error here.
pub fn create_pending_response(
    package_id: &LogId,
    record_id: &RecordId,
    state: RecordState,
) -> (r: Result<PendingRecordResponse, ApiError>)
    ensures
        match r {
            Ok(resp) => resp@ == (match state@ {
                RecordStateV::Processing => PendingRecordResponseV::Processing {
                    status_url: pending_record_url_spec(package_id@, record_id@),
                },
                RecordStateV::Published { .. } => PendingRecordResponseV::Published {
                    record_url: record_url_spec(package_id@, record_id@),
                },
                RecordStateV::Rejected { reason } => PendingRecordResponseV::Rejected { reason },
                RecordStateV::Unknown => resp@,
            }) && !(state@ is Unknown),
            Err(e) => e == ApiError::InternalInconsistency && state@ is Unknown,
        },
{
    match state {
        RecordState::Unknown => Err(ApiError::InternalInconsistency),
        RecordState::Processing => Ok(
            PendingRecordResponse::Processing {
                status_url: pending_record_url(package_id, record_id),
            },
        ),
        RecordState::Published { checkpoint: _ } => Ok(
            PendingRecordResponse::Published { record_url: record_url(package_id, record_id) },
        ),
        RecordState::Rejected { reason } => Ok(PendingRecordResponse::Rejected { reason }),
    }
}

} // verus!
