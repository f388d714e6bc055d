//! The per-file upload unit and the batch orchestrator: each selected file is
//! processed independently and in order, and a single multipart request is
//! assembled only when every file succeeded — partial batches are never
//! produced.

use crate::codec::image_dims;
use crate::engine::{decodable, main_dims_of, process, DecodeError, EncodedAsset};
use crate::geometry::THUMB_SIZE;
use crate::ident::{new_ulid_to_path, shard_of, valid_id_text};
use vstd::prelude::*;

verus! {

/// One prepared asset: the shard path both files are stored under, and the
/// two encoded outputs.
pub struct PreparedAsset {
    pub path: String,
    pub asset: EncodedAsset,
}

/// The multipart transfer payload: one part per selected file, in selection
/// order. A value of this type exists only for fully successful batches.
pub struct UploadRequest {
    pub parts: Vec<PreparedAsset>,
}

/// The roles under which an asset's two files travel in the multipart
/// request.
#[derive(Clone, Copy, PartialEq, Eq, Structural, Debug)]
pub enum UploadField {
    Images,
    Thumbs,
}

/// The wire name of an upload field role.
pub open spec fn spec_field_name(f: UploadField) -> Seq<char> {
    match f {
        UploadField::Images => "images"@,
        UploadField::Thumbs => "thumbs"@,
    }
}

/// The multipart field name for a role.
pub fn field_name(f: &UploadField) -> (r: &'static str)
    ensures
        r@ == spec_field_name(*f),
{
    match f {
        UploadField::Images => "images",
        UploadField::Thumbs => "thumbs",
    }
}

/// What `prepare` promises of a successful part built from `src`.
pub open spec fn part_matches(p: PreparedAsset, src: Seq<u8>) -> bool {
    &&& p.asset.wf()
    &&& image_dims(p.asset.main_bytes@) == Some(main_dims_of(src))
    &&& image_dims(p.asset.thumb_bytes@) == Some((THUMB_SIZE, THUMB_SIZE))
    &&& exists|id: Seq<char>| valid_id_text(id) && p.path@ == shard_of(id)
}

/// Prepare one selected file: run the geometry/encoding engine over its bytes
/// and pair the outputs with a fresh shard path. A decode failure propagates
/// as-is; no partial asset is produced.
pub fn prepare(bytes: &Vec<u8>) -> (r: Result<PreparedAsset, DecodeError>)
    ensures
        r is Ok <==> decodable(bytes@),
        r matches Ok(p) ==> part_matches(p, bytes@),
{
    let asset = match process(bytes) {
        Ok(asset) => asset,
        Err(e) => {
            return Err(e);
        },
    };
    let path = new_ulid_to_path();
    Ok(PreparedAsset { path, asset })
}

/// Drive the per-file unit over a whole selection, in order. If any file
/// fails, the batch is abandoned before any transfer payload exists: the
/// result carries the first failure and no `UploadRequest` is built.
pub fn build_upload_request(files: &Vec<Vec<u8>>) -> (r: Result<UploadRequest, DecodeError>)
    ensures
        r is Ok <==> (forall|i: int| 0 <= i < files@.len() ==> decodable(#[trigger] files@[i]@)),
        r matches Ok(req) ==> {
            &&& req.parts.len() == files.len()
            &&& forall|i: int|
                0 <= i < files@.len() ==> part_matches(#[trigger] req.parts@[i], files@[i]@)
        },
{
    let mut parts: Vec<PreparedAsset> = Vec::new();
    let mut k: usize = 0;
    while k < files.len()
        invariant
            k <= files.len(),
            parts.len() == k,
            forall|i: int| 0 <= i < k ==> decodable(#[trigger] files@[i]@),
            forall|i: int| 0 <= i < k ==> part_matches(#[trigger] parts@[i], files@[i]@),
        decreases files.len() - k,
    {
        match prepare(&files[k]) {
            Ok(p) => {
                parts.push(p);
            },
            Err(e) => {
                return Err(e);
            },
        }
        k = k + 1;
    }
    Ok(UploadRequest { parts })
}

/// A failed transfer: network failure or a non-success status, carrying the
/// server's error text when one was readable.
pub struct TransferError {
    pub text: String,
}

/// Build the transfer failure surfaced to the caller: the server-provided
/// error text when available, else the generic transport-error marker.
pub fn transfer_failure(server_text: Option<String>) -> (r: TransferError)
    ensures
        r.text@ == match server_text {
            Some(t) => t@,
            None => "fetch error"@,
        },
{
    match server_text {
        Some(t) => TransferError { text: t },
        None => TransferError { text: "fetch error".to_owned() },
    }
}

} // verus!
