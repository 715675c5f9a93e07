//! The request-level flows: login, upload, list, fetch, delete.
//!
//! This is the single place that maps internal outcomes to client-facing
//! ones.  Every flow is scoped to the authenticated subject, which the
//! caller obtains from a verified token (`crate::token::verify_token`) —
//! never from client-supplied fields.
//!
//! An upload runs digest → metadata → blob write → record insert, in that
//! order: the blob is written before the record, and a key conflict on the
//! record is reported as "already exists" with the existing record's
//! metadata, leaving the just-written blob in place (same digest, same
//! bytes).  A deletion removes the record first and then, best-effort, the
//! blob: the record table is the source of truth for existence.

use vstd::prelude::*;

use crate::blob::{
    BlobStore, BlobView, blob_with, has_blob, spec_remove_blob, spec_write_blob,
};
use crate::credentials::{
    UserCredentials, UserError, UserStore, has_username, password_matches, phc_valid, user_with,
    validate_user,
};
use crate::encoding::{base64_decode_of, base64_encode_of, decode_base64, encode_base64};
use crate::gps::{extract_gps_numeric, spec_gps_axis};
use crate::hashing::{blake3_hex_of, compute_hash};
use crate::store::{
    Image, ImageView, RecordStore, get_image_by_hash, get_image_hashes_by_owner, has_record,
    insert_image, delete_image_record, owner_hashes, record_with, spec_insert,
};
use crate::token::{TOKEN_TTL_SECONDS, claims_of, issue_token};

verus! {

/// A successful login: the bearer token the client will present from now on.
pub struct LoginResponse {
    pub token: String,
}

/// An upload request as it reaches the service: payload as base64 text,
/// the file extension, a display name, and client-supplied timestamps as
/// seconds since the epoch.
pub struct UploadImageRequest {
    pub content: String,
    pub extension: String,
    pub image_name: String,
    pub created_at: u64,
    pub modified_at: u64,
}

/// Spec-level image of an upload request.
pub struct UploadImageRequestView {
    pub content: Seq<char>,
    pub extension: Seq<char>,
    pub image_name: Seq<char>,
    pub created_at: u64,
    pub modified_at: u64,
}

impl View for UploadImageRequest {
    type V = UploadImageRequestView;

    open spec fn view(&self) -> UploadImageRequestView {
        UploadImageRequestView {
            content: self.content@,
            extension: self.extension@,
            image_name: self.image_name@,
            created_at: self.created_at,
            modified_at: self.modified_at,
        }
    }
}

/// A successful upload: the content hash under which the image is now
/// addressable.
pub struct UploadImageResponse {
    pub hash: String,
}

/// An owner's hashes, newest-first.
pub struct GetImageHashesResponse {
    pub hashes: Vec<String>,
}

/// The client-facing failure outcomes.  Bad credentials and bad tokens
/// collapse into `Unauthorized`; a record that does not exist for this
/// owner — whether absent or someone else's — is `NotFound`; internal
/// failures carry no detail out.
#[derive(Clone, Copy, Debug, PartialEq, Eq, Structural)]
pub enum ApiError {
    Unauthorized,
    NotFound,
    Internal,
}

/// Why an upload was rejected before any side effect.
#[derive(Clone, Copy, Debug, PartialEq, Eq, Structural)]
pub enum UploadReject {
    MissingExtension,
    MalformedContent,
}

/// The outcome of an upload: a fresh record, an "already exists" conflict
/// carrying the existing record's metadata, or a rejection of bad input.
pub enum UploadOutcome {
    Created { response: UploadImageResponse },
    AlreadyExists { existing: Image },
    Rejected { reason: UploadReject },
}

/// Spec-level image of an upload outcome.
pub enum UploadOutcomeView {
    Created { hash: Seq<char> },
    AlreadyExists { existing: ImageView },
    Rejected { reason: UploadReject },
}

impl View for UploadOutcome {
    type V = UploadOutcomeView;

    open spec fn view(&self) -> UploadOutcomeView {
        match self {
            UploadOutcome::Created { response } => UploadOutcomeView::Created {
                hash: response.hash@,
            },
            UploadOutcome::AlreadyExists { existing } => UploadOutcomeView::AlreadyExists {
                existing: existing@,
            },
            UploadOutcome::Rejected { reason } => UploadOutcomeView::Rejected { reason: *reason },
        }
    }
}

/// The file name a blob is stored under: `{content digest}.{extension}`.
pub open spec fn spec_blob_name(hash: Seq<char>, extension: Seq<char>) -> Seq<char> {
    hash + "."@ + extension
}

/// Build the blob file name for a hash and an extension.
pub fn blob_file_name(hash: &String, extension: &String) -> (r: String)
    ensures
        r@ == spec_blob_name(hash@, extension@),
{
    let mut name = hash.clone();
    name.append(".");
    name.append(extension.as_str());
    name
}

/// The record an upload stores: identified by the digest of the decoded
/// bytes, owned by the authenticated subject, carrying the request's
/// metadata and the position extracted from the bytes.
pub open spec fn spec_uploaded_record(
    subject: Seq<char>,
    request: UploadImageRequestView,
    bytes: Seq<u8>,
) -> ImageView {
    ImageView {
        hash: blake3_hex_of(bytes),
        extension: request.extension,
        owner: subject,
        image_name: Some(request.image_name),
        created_at: request.created_at,
        modified_at: request.modified_at,
        longitude: spec_gps_axis(bytes, false),
        latitude: spec_gps_axis(bytes, true),
    }
}

/// What an upload does to the stores and reports back: reject bad input
/// with no side effect; otherwise write the blob, then either report the
/// existing record under the same `(hash, owner)` key or insert a fresh
/// one.
pub open spec fn spec_upload(
    records: Seq<ImageView>,
    blobs: Seq<BlobView>,
    subject: Seq<char>,
    request: UploadImageRequestView,
) -> (UploadOutcomeView, Seq<ImageView>, Seq<BlobView>) {
    if request.extension.len() == 0 {
        (UploadOutcomeView::Rejected { reason: UploadReject::MissingExtension }, records, blobs)
    } else {
        match base64_decode_of(request.content) {
            None => (
                UploadOutcomeView::Rejected { reason: UploadReject::MalformedContent },
                records,
                blobs,
            ),
            Some(bytes) => {
                let hash = blake3_hex_of(bytes);
                let blobs_after = spec_write_blob(blobs, spec_blob_name(hash, request.extension), bytes);
                if has_record(records, hash, subject) {
                    (
                        UploadOutcomeView::AlreadyExists {
                            existing: record_with(records, hash, subject),
                        },
                        records,
                        blobs_after,
                    )
                } else {
                    (
                        UploadOutcomeView::Created { hash },
                        spec_insert(records, spec_uploaded_record(subject, request, bytes)).1,
                        blobs_after,
                    )
                }
            },
        }
    }
}

/// Ingest one upload for the authenticated `subject`.
pub fn upload_image(
    records: &mut RecordStore,
    blobs: &mut BlobStore,
    subject: &String,
    request: &UploadImageRequest,
) -> (r: UploadOutcome)
    requires
        old(records).wf(),
        old(blobs).wf(),
    ensures
        final(records).wf(),
        final(blobs).wf(),
        r@ == spec_upload(old(records)@, old(blobs)@, subject@, request@).0,
        final(records)@ == spec_upload(old(records)@, old(blobs)@, subject@, request@).1,
        final(blobs)@ == spec_upload(old(records)@, old(blobs)@, subject@, request@).2,
{
    if request.extension.as_str().is_empty() {
        return UploadOutcome::Rejected { reason: UploadReject::MissingExtension };
    }
    let body = match decode_base64(request.content.as_str()) {
        Some(b) => b,
        None => {
            return UploadOutcome::Rejected { reason: UploadReject::MalformedContent };
        },
    };
    let hash = compute_hash(body.as_slice());
    let (latitude, longitude) = extract_gps_numeric(body.as_slice());
    let name = blob_file_name(&hash, &request.extension);
    let _overwrote = blobs.write_blob(name, body);
    match get_image_by_hash(records, &hash, subject) {
        Some(existing) => UploadOutcome::AlreadyExists { existing },
        None => {
            let image = Image {
                hash: hash.clone(),
                extension: request.extension.clone(),
                owner: subject.clone(),
                image_name: Some(request.image_name.clone()),
                created_at: request.created_at,
                modified_at: request.modified_at,
                longitude,
                latitude,
            };
            let _inserted = insert_image(records, &image);
            UploadOutcome::Created { response: UploadImageResponse { hash } }
        },
    }
}

/// Log a user in: validate the credentials and issue a token for the
/// subject, expiring `TOKEN_TTL_SECONDS` after `now`.  Bad credentials and
/// an unknown username are one and the same answer; on valid credentials a
/// token is owed, since issuance has no failure case, so an internal error
/// can only mean a malformed stored hash.
pub fn login(users: &UserStore, credentials: &UserCredentials, secret: &[u8], now: u64) -> (r:
    Result<LoginResponse, ApiError>)
    requires
        users.wf(),
        now + TOKEN_TTL_SECONDS <= u64::MAX,
    ensures
        match r {
            Ok(resp) => {
                &&& has_username(users@, credentials.username@)
                &&& phc_valid(user_with(users@, credentials.username@).password)
                &&& password_matches(
                    credentials.password@,
                    user_with(users@, credentials.username@).password,
                )
                &&& claims_of(resp.token@, secret@) == Some(
                    (credentials.username@, (now + TOKEN_TTL_SECONDS) as u64),
                )
            },
            Err(ApiError::Unauthorized) => {
                ||| !has_username(users@, credentials.username@)
                ||| {
                    &&& phc_valid(user_with(users@, credentials.username@).password)
                    &&& !password_matches(
                        credentials.password@,
                        user_with(users@, credentials.username@).password,
                    )
                }
            },
            Err(ApiError::Internal) => has_username(users@, credentials.username@) && !phc_valid(
                user_with(users@, credentials.username@).password,
            ),
            Err(ApiError::NotFound) => false,
        },
{
    match validate_user(users, credentials) {
        Ok(user) => match issue_token(user.username.as_str(), secret, now) {
            Some(token) => Ok(LoginResponse { token }),
            None => Err(ApiError::Internal),
        },
        Err(UserError::InvalidCredentials) => Err(ApiError::Unauthorized),
        Err(UserError::HashError) => Err(ApiError::Internal),
        Err(UserError::UsernameExists) => Err(ApiError::Internal),
    }
}

/// List the authenticated subject's image hashes, newest-first.
pub fn get_user_image_hashes(records: &RecordStore, subject: &String) -> (r:
    GetImageHashesResponse)
    ensures
        r.hashes.deep_view() == owner_hashes(records@, subject@),
{
    GetImageHashesResponse { hashes: get_image_hashes_by_owner(records, subject) }
}

/// Fetch one image of the authenticated subject: its record and its bytes,
/// base64-encoded.  A hash owned by someone else is simply not found; a
/// record whose blob is gone is an internal error, never another user's
/// data.
pub fn get_image(
    records: &RecordStore,
    blobs: &BlobStore,
    subject: &String,
    hash: &String,
) -> (r: Result<(Image, String), ApiError>)
    requires
        records.wf(),
        blobs.wf(),
    ensures
        match r {
            Ok((im, content)) => {
                &&& has_record(records@, hash@, subject@)
                &&& im@ == record_with(records@, hash@, subject@)
                &&& has_blob(blobs@, spec_blob_name(hash@, im@.extension))
                &&& content@ == base64_encode_of(
                    blob_with(blobs@, spec_blob_name(hash@, im@.extension)).data,
                )
            },
            Err(ApiError::NotFound) => !has_record(records@, hash@, subject@),
            Err(ApiError::Internal) => has_record(records@, hash@, subject@) && !has_blob(
                blobs@,
                spec_blob_name(hash@, record_with(records@, hash@, subject@).extension),
            ),
            Err(ApiError::Unauthorized) => false,
        },
{
    match get_image_by_hash(records, hash, subject) {
        None => Err(ApiError::NotFound),
        Some(im) => {
            let name = blob_file_name(hash, &im.extension);
            match blobs.read_blob(&name) {
                None => Err(ApiError::Internal),
                Some(data) => {
                    let content = encode_base64(data.as_slice());
                    Ok((im, content))
                },
            }
        },
    }
}

/// Delete one image of the authenticated subject: confirm ownership and
/// existence by looking the record up, remove the record, then best-effort
/// remove the blob.  Returns whether a record was removed; a hash owned by
/// someone else removes nothing.
pub fn delete_image(
    records: &mut RecordStore,
    blobs: &mut BlobStore,
    subject: &String,
    hash: &String,
) -> (r: bool)
    requires
        old(records).wf(),
        old(blobs).wf(),
    ensures
        final(records).wf(),
        final(blobs).wf(),
        r == has_record(old(records)@, hash@, subject@),
        !r ==> final(records)@ == old(records)@ && final(blobs)@ == old(blobs)@,
        r ==> {
            &&& !has_record(final(records)@, hash@, subject@)
            &&& forall|h: Seq<char>, o: Seq<char>|
                #[trigger] has_record(final(records)@, h, o) <==> has_record(old(records)@, h, o)
                    && !(h == hash@ && o == subject@)
            &&& forall|h: Seq<char>, o: Seq<char>|
                has_record(final(records)@, h, o) ==> #[trigger] record_with(
                    final(records)@,
                    h,
                    o,
                ) == record_with(old(records)@, h, o)
            &&& final(blobs)@ == spec_remove_blob(
                old(blobs)@,
                spec_blob_name(hash@, record_with(old(records)@, hash@, subject@).extension),
            )
        },
{
    match get_image_by_hash(records, hash, subject) {
        None => false,
        Some(im) => {
            let _removed = delete_image_record(records, hash, subject);
            let name = blob_file_name(hash, &im.extension);
            let _blob_removed = blobs.remove_blob(&name);
            true
        },
    }
}

/// Dedup: uploading the same bytes twice under the same subject stores
/// exactly one record — the first upload creates it, the second reports
/// "already exists" with that record's metadata and adds no row.
pub proof fn lemma_upload_dedup(
    records: Seq<ImageView>,
    blobs: Seq<BlobView>,
    subject: Seq<char>,
    request: UploadImageRequestView,
    bytes: Seq<u8>,
)
    requires
        crate::store::unique_keys(records),
        crate::store::sorted_newest_first(records),
        request.extension.len() > 0,
        base64_decode_of(request.content) == Some(bytes),
        !has_record(records, blake3_hex_of(bytes), subject),
    ensures
        ({
            let first = spec_upload(records, blobs, subject, request);
            let second = spec_upload(first.1, first.2, subject, request);
            &&& first.0 == UploadOutcomeView::Created { hash: blake3_hex_of(bytes) }
            &&& second.0 == (UploadOutcomeView::AlreadyExists {
                existing: spec_uploaded_record(subject, request, bytes),
            })
            &&& second.1 == first.1
        }),
{
    crate::store::lemma_spec_insert_wf(records, spec_uploaded_record(subject, request, bytes));
}

/// Isolation: two different subjects uploading identical bytes each get a
/// record of their own, and each owner-scoped lookup sees only its own
/// record.
pub proof fn lemma_upload_isolation(
    records: Seq<ImageView>,
    blobs: Seq<BlobView>,
    subject_a: Seq<char>,
    subject_b: Seq<char>,
    request: UploadImageRequestView,
    bytes: Seq<u8>,
)
    requires
        crate::store::unique_keys(records),
        crate::store::sorted_newest_first(records),
        subject_a != subject_b,
        request.extension.len() > 0,
        base64_decode_of(request.content) == Some(bytes),
        !has_record(records, blake3_hex_of(bytes), subject_a),
        !has_record(records, blake3_hex_of(bytes), subject_b),
    ensures
        ({
            let hash = blake3_hex_of(bytes);
            let first = spec_upload(records, blobs, subject_a, request);
            let second = spec_upload(first.1, first.2, subject_b, request);
            &&& first.0 == UploadOutcomeView::Created { hash }
            &&& second.0 == UploadOutcomeView::Created { hash }
            &&& record_with(second.1, hash, subject_a) == spec_uploaded_record(
                subject_a,
                request,
                bytes,
            )
            &&& record_with(second.1, hash, subject_b) == spec_uploaded_record(
                subject_b,
                request,
                bytes,
            )
        }),
{
    let im_a = spec_uploaded_record(subject_a, request, bytes);
    let im_b = spec_uploaded_record(subject_b, request, bytes);
    crate::store::lemma_spec_insert_wf(records, im_a);
    crate::store::lemma_spec_insert_wf(spec_insert(records, im_a).1, im_b);
}

} // verus!
