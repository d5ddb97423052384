//! The service's requests and answers: creating, reading and deleting
//! transfers, QR codes and status.
use vstd::prelude::*;
use vstd::string::*;
use crate::encoding::{base64_url_decoding, decode_base64_url, decode_error_text};
use crate::encoding::base64_encode;
use crate::encoding::lemma_base64_url_decoding;
use crate::encryption::{
    chacha20poly1305_seal, encrypt, generate_key, key_token, option_instant, within_block_limit,
    EncryptedFile, FileModel, KEY_LEN, NONCE_LEN, TAG_LEN,
};
use crate::network::{peer_id_text, Network};
use crate::qr::{
    data_url_prefix, generate_qr_code, image_to_data_url, png_rgba_encoding, qr_code_modules,
    qr_pixels,
};
use crate::storage::{lookup, Storage};
use crate::time::{add_minutes, is_clock_reading, in_calendar, minutes_span_ok, rfc3339, Timestamp};

verus! {

/// Status code of an answer that succeeded.
pub const STATUS_OK: u16 = 200;

/// Status code of a request that could not be read.
pub const STATUS_BAD_REQUEST: u16 = 400;

/// Status code of a request for something that is not there.
pub const STATUS_NOT_FOUND: u16 = 404;

/// Status code of a failure on the service's side.
pub const STATUS_INTERNAL_ERROR: u16 = 500;

/// A request to create a transfer.
#[derive(Debug)]
pub struct CreateTransferRequest {
    pub filename: String,
    /// The file's bytes in URL-safe base64 without padding.
    pub data: String,
    pub expires_in_minutes: Option<u64>,
}

/// The answer to a created transfer.
#[derive(Debug)]
pub struct CreateTransferResponse {
    pub id: String,
    pub token: String,
    pub qr_url: String,
    pub expires_at: Option<String>,
}

/// What is known of a transfer.
#[derive(Debug)]
pub struct GetTransferResponse {
    pub id: String,
    pub filename: String,
    pub size: u64,
    pub created_at: String,
    pub expires_at: Option<String>,
    pub download_url: String,
}

/// The service's status.
#[derive(Debug)]
pub struct StatusResponse {
    pub status: String,
    pub peer_id: String,
    pub stored_files: usize,
    pub version: String,
}

/// A refused request: its status code and message.
#[derive(Debug)]
pub struct ApiError {
    pub status: u16,
    pub message: String,
}

fn concat(a: &str, b: &str) -> (r: String)
    ensures
        r@ == a@ + b@,
{
    let mut r = a.to_owned();
    r.append(b);
    r
}

fn api_error(status: u16, message: String) -> (r: ApiError)
    ensures
        r.status == status,
        r.message@ == message@,
{
    ApiError { status, message }
}

/// `uuid::Uuid::new_v4().to_string()`: a random version-4 UUID in its
/// hyphenated form, 36 characters long. Which one is not stated.
#[verifier::external_body]
fn new_uuid_v4_text() -> (r: String)
    ensures
        r@.len() == 36,
{
    uuid::Uuid::new_v4().to_string()
}

/// The RFC 3339 text of an optional instant.
pub open spec fn option_rfc3339(t: Option<(int, int)>) -> Option<Seq<char>> {
    match t {
        Some(t) => Some(rfc3339(t.0 as i64, t.1 as u32)),
        None => None,
    }
}

/// The views of an optional text.
pub open spec fn option_text(t: Option<String>) -> Option<Seq<char>> {
    match t {
        Some(s) => Some(s@),
        None => None,
    }
}

fn option_to_rfc3339(t: &Option<Timestamp>) -> (r: Option<String>)
    ensures
        option_text(r) == option_rfc3339(option_instant(*t)),
{
    match t {
        Some(t) => Some(t.to_rfc3339()),
        None => None,
    }
}

/// The minutes of a request make a valid time span (`chrono` panics on a
/// larger one); the count is read as a signed 64-bit number.
pub open spec fn expiry_minutes_ok(minutes: Option<u64>) -> bool {
    match minutes {
        Some(m) => minutes_span_ok((m as i64) as int),
        None => true,
    }
}

/// The address from which a transfer's QR code is served.
pub open spec fn qr_url_text(token: Seq<char>) -> Seq<char> {
    "/api/qr/"@ + token
}

/// The address from which a transfer is downloaded.
pub open spec fn download_url_text(id: Seq<char>) -> Seq<char> {
    "/api/download/"@ + id
}

/// The stored record of a new transfer is this file: its name, size and
/// sealed data, under the 32-byte key that `token` carries in URL-safe
/// unpadded base64, and its nonce.
pub open spec fn is_new_record(
    f: FileModel,
    filename: Seq<char>,
    plain: Seq<u8>,
    token: Seq<char>,
) -> bool {
    &&& f.filename == filename
    &&& f.size == plain.len()
    &&& f.nonce.len() == NONCE_LEN
    &&& f.encrypted_data.len() == plain.len() + TAG_LEN
    &&& exists|key: Seq<u8>|
        key.len() == KEY_LEN && token == base64_encode(key, true, false) && f.encrypted_data
            == #[trigger] chacha20poly1305_seal(key, f.nonce, plain)
}

/// The expiry of a transfer asked at `now`: the given number of minutes
/// later, the count read as a signed 64-bit number.
pub open spec fn expiry_for(minutes: Option<u64>, now: (int, int)) -> Option<(int, int)> {
    match minutes {
        Some(m) => Some(add_minutes(now, (m as i64) as int)),
        None => None,
    }
}

/// An expiry, if any, is an instant of the calendar.
pub open spec fn expiry_in_calendar(e: Option<(int, int)>) -> bool {
    match e {
        Some(t) => in_calendar(t.0, t.1),
        None => true,
    }
}

/// The answer and the storage after a created transfer: a 36-character id,
/// the token that carries the file's key, its QR address, and the new
/// record under that id (created at `created_at`, expiring at `expiry`),
/// every other record kept.
pub open spec fn new_transfer(
    before: Map<Seq<char>, FileModel>,
    after: Map<Seq<char>, FileModel>,
    filename: Seq<char>,
    plain: Seq<u8>,
    created_at: (int, int),
    expiry: Option<(int, int)>,
    resp: CreateTransferResponse,
) -> bool {
    &&& resp.id@.len() == 36
    &&& resp.token@.len() == 43
    &&& resp.qr_url@ == qr_url_text(resp.token@)
    &&& after == before.insert(resp.id@, after[resp.id@])
    &&& after[resp.id@].id == resp.id@
    &&& after[resp.id@].created_at == created_at
    &&& after[resp.id@].expires_at == expiry
    &&& is_new_record(after[resp.id@], filename, plain, resp.token@)
    &&& option_text(resp.expires_at) == option_rfc3339(expiry)
}

/// What creating a transfer from `request` gives, asked at `now` and
/// recorded as created at `created_at`: refused with 400 where the data is
/// not base64; with 500 where the file is too long to encrypt, or where its
/// expiry falls outside the calendar; otherwise a new transfer.
pub open spec fn transfer_outcome(
    before: Map<Seq<char>, FileModel>,
    after: Map<Seq<char>, FileModel>,
    request: CreateTransferRequest,
    now: (int, int),
    created_at: (int, int),
    r: Result<CreateTransferResponse, ApiError>,
) -> bool {
    match base64_url_decoding(request.data@) {
        None => {
            &&& (r matches Err(e) && e.status == STATUS_BAD_REQUEST && "Invalid base64 data: "@.is_prefix_of(e.message@))
            &&& after == before
        },
        Some(plain) => if !within_block_limit(plain.len()) {
            &&& (r matches Err(e) && e.status == STATUS_INTERNAL_ERROR && e.message@ == "Encryption failed: "@
                + "Encryption failed: aead::Error"@)
            &&& after == before
        } else if !expiry_in_calendar(expiry_for(request.expires_in_minutes, now)) {
            &&& (r matches Err(e) && e.status == STATUS_INTERNAL_ERROR && e.message@ == "Expiration time out of range"@)
            &&& after == before
        } else {
            r matches Ok(resp) && new_transfer(
                before,
                after,
                request.filename@,
                plain,
                created_at,
                expiry_for(request.expires_in_minutes, now),
                resp,
            )
        },
    }
}

/// A transfer asked at `now` with a minute count expires that many minutes
/// of sixty seconds later (the count read as a signed 64-bit number, as the
/// service reads it), to the nanosecond; one asked without expires never.
pub proof fn law_expiry_minutes(minutes: u64, now: (int, int))
    ensures
        expiry_for(Some(minutes), now) == Some((now.0 + 60 * (minutes as i64), now.1)),
        minutes <= i64::MAX ==> expiry_for(Some(minutes), now) == Some((now.0 + 60 * minutes, now.1)),
        expiry_for(None, now) is None,
{
}

/// Stores a new transfer made of its parts, and answers with its id, token,
/// QR address and expiry.
pub fn record_transfer(
    storage: &mut Storage,
    filename: String,
    size: u64,
    sealed: (Vec<u8>, Vec<u8>),
    id: String,
    token: String,
    created_at: Timestamp,
    expires_at: Option<Timestamp>,
) -> (r: CreateTransferResponse)
    ensures
        final(storage)@ == old(storage)@.insert(
            id@,
            FileModel {
                id: id@,
                filename: filename@,
                size,
                encrypted_data: sealed.0@,
                nonce: sealed.1@,
                created_at: created_at@,
                expires_at: option_instant(expires_at),
            },
        ),
        r.id@ == id@,
        r.token@ == token@,
        r.qr_url@ == qr_url_text(token@),
        option_text(r.expires_at) == option_rfc3339(option_instant(expires_at)),
{
    let answer_expiry = option_to_rfc3339(&expires_at);
    let (encrypted_data, nonce) = sealed;
    let file = EncryptedFile {
        id: id.clone(),
        filename,
        size,
        encrypted_data,
        nonce,
        created_at,
        expires_at,
    };
    storage.store(file);
    let qr_url = concat("/api/qr/", token.as_str());
    proof {
        reveal_strlit("/api/qr/");
    }
    CreateTransferResponse { id, token, qr_url, expires_at: answer_expiry }
}

/// Creates a transfer asked at `now`: decodes the file, encrypts it under a
/// fresh key and nonce, and stores it under a fresh id; the answer's token
/// carries the key to the receiver. The record is
/// created at `created_at`, expiring the given number of minutes after
/// `now`, if any. Refused with 400 where the data is not base64, with 500
/// where the file is too long to encrypt or its expiry falls outside the
/// calendar.
pub fn create_transfer_at(
    storage: &mut Storage,
    request: CreateTransferRequest,
    now: &Timestamp,
    created_at: &Timestamp,
) -> (r: Result<CreateTransferResponse, ApiError>)
    requires
        base64_url_decoding(request.data@) matches Some(plain) && within_block_limit(plain.len())
            ==> expiry_minutes_ok(request.expires_in_minutes),
    ensures
        transfer_outcome(old(storage)@, final(storage)@, request, now@, created_at@, r),
{
    let ghost req = request;
    let decoded = match decode_base64_url(request.data.as_str()) {
        Ok(d) => d,
        Err(e) => {
            let text = decode_error_text(&e);
            return Err(api_error(STATUS_BAD_REQUEST, concat("Invalid base64 data: ", text.as_str())));
        },
    };
    let key = match generate_key() {
        Ok(k) => k,
        Err(_) => {
            proof {
                assert(false);
            }
            return Err(api_error(STATUS_INTERNAL_ERROR, String::new()));
        },
    };
    let sealed = match encrypt(decoded.as_slice(), &key) {
        Ok(s) => s,
        Err(e) => {
            let text = e.message();
            return Err(api_error(STATUS_INTERNAL_ERROR, concat("Encryption failed: ", text.as_str())));
        },
    };
    let id = new_uuid_v4_text();
    let token = key_token(&key);
    let expires_at = match request.expires_in_minutes {
        Some(m) => {
            match now.plus_minutes(#[verifier::truncate] (m as i64)) {
                Some(t) => Some(t),
                None => {
                    return Err(
                        api_error(STATUS_INTERNAL_ERROR, "Expiration time out of range".to_owned()),
                    );
                },
            }
        },
        None => None,
    };
    let size = decoded.len() as u64;
    let response = record_transfer(
        storage,
        request.filename,
        size,
        sealed,
        id,
        token,
        *created_at,
        expires_at,
    );
    proof {
        let f = final(storage)@[response.id@];
        assert(f.nonce == sealed.1@);
        assert(f.encrypted_data == chacha20poly1305_seal(key@, f.nonce, decoded@));
        assert(final(storage)@ == old(storage)@.insert(response.id@, f));
        assert(is_new_record(f, req.filename@, decoded@, response.token@));
    }
    Ok(response)
}

/// Creates a transfer as `create_transfer_at` does, asked at the clock's
/// reading and recorded as created at a second reading.
pub fn create_transfer(storage: &mut Storage, request: CreateTransferRequest) -> (r: Result<CreateTransferResponse, ApiError>)
    requires
        base64_url_decoding(request.data@) matches Some(plain) && within_block_limit(plain.len())
            ==> expiry_minutes_ok(request.expires_in_minutes),
    ensures
        exists|now: (int, int), created_at: (int, int)|
            is_clock_reading(now) && is_clock_reading(created_at)
                && #[trigger] transfer_outcome(old(storage)@, final(storage)@, request, now, created_at, r),
{
    let now = Timestamp::now();
    let created_at = Timestamp::now();
    create_transfer_at(storage, request, &now, &created_at)
}

/// What is answered for a stored file.
pub open spec fn transfer_answer(f: FileModel, id: Seq<char>, r: GetTransferResponse) -> bool {
    &&& r.id@ == f.id
    &&& r.filename@ == f.filename
    &&& r.size == f.size
    &&& r.created_at@ == rfc3339(f.created_at.0 as i64, f.created_at.1 as u32)
    &&& option_text(r.expires_at) == option_rfc3339(f.expires_at)
    &&& r.download_url@ == download_url_text(id)
}

/// The answer for a stored file asked for as `id`.
pub fn transfer_response(file: &EncryptedFile, id: &str) -> (r: GetTransferResponse)
    ensures
        transfer_answer(file@, id@, r),
{
    let download_url = concat("/api/download/", id);
    proof {
        reveal_strlit("/api/download/");
    }
    GetTransferResponse {
        id: file.id.clone(),
        filename: file.filename.clone(),
        size: file.size,
        created_at: file.created_at.to_rfc3339(),
        expires_at: option_to_rfc3339(&file.expires_at),
        download_url,
    }
}

/// The text of the refusal of a missing or expired transfer.
pub open spec fn not_found_text() -> Seq<char> {
    "File not found or expired"@
}

/// `r` is what a read of the transfer `id` at `now` answers: the stored
/// transfer where it is there and not expired, otherwise a refusal with 404.
pub open spec fn transfer_reply(
    m: Map<Seq<char>, FileModel>,
    id: Seq<char>,
    now: (int, int),
    r: Result<GetTransferResponse, ApiError>,
) -> bool {
    &&& (r is Ok <==> lookup(m, id, now) is Some)
    &&& (r matches Ok(resp) ==> transfer_answer(m[id], id, resp))
    &&& (r matches Err(e) ==> e.status == STATUS_NOT_FOUND && e.message@ == not_found_text())
}

/// The transfer stored under `id` as of the instant `now`; refused with
/// 404 where it is missing or has expired.
pub fn get_transfer_at(storage: &Storage, id: &str, now: &Timestamp) -> (r: Result<GetTransferResponse, ApiError>)
    ensures
        transfer_reply(storage@, id@, now@, r),
{
    match storage.get_at(id, now) {
        Some(file) => Ok(transfer_response(&file, id)),
        None => Err(api_error(STATUS_NOT_FOUND, "File not found or expired".to_owned())),
    }
}

/// The transfer stored under `id`, as of a reading of the clock; refused
/// with 404 where it is missing or has expired. A transfer without expiry is
/// always answered.
pub fn get_transfer(storage: &Storage, id: &str) -> (r: Result<GetTransferResponse, ApiError>)
    ensures
        exists|t: (int, int)| is_clock_reading(t) && #[trigger] transfer_reply(storage@, id@, t, r),
        !storage@.dom().contains(id@) ==> r is Err,
        storage@.dom().contains(id@) && storage@[id@].expires_at is None ==> r is Ok,
{
    let now = Timestamp::now();
    get_transfer_at(storage, id, &now)
}

/// Deletes the transfer stored under `id`, expired or not: 200 where there
/// was one, refused with 404 where there was none.
pub fn delete_transfer(storage: &mut Storage, id: &str) -> (r: Result<u16, ApiError>)
    ensures
        final(storage)@ == old(storage)@.remove(id@),
        r is Ok <==> old(storage)@.dom().contains(id@),
        r matches Ok(code) ==> code == STATUS_OK,
        r matches Err(e) ==> e.status == STATUS_NOT_FOUND && e.message@ == "File not found or already expired"@,
{
    if storage.delete(id) {
        Ok(STATUS_OK)
    } else {
        Err(api_error(STATUS_NOT_FOUND, "File not found or already expired".to_owned()))
    }
}

/// The text a transfer's QR code carries.
pub open spec fn qr_text(token: Seq<char>) -> Seq<char> {
    "ephemeral://transfer/"@ + token
}

/// Side, in pixels, of the QR images the service answers.
pub const QR_IMAGE_SIZE: u32 = 256;

/// What the QR request for `token` answers: the PNG data URL of the
/// `QR_IMAGE_SIZE`-pixel QR code of the transfer's QR text, with 200;
/// refused with 500 where the text makes no QR code or the image no PNG.
pub open spec fn qr_reply(token: Seq<char>, r: Result<(u16, String), ApiError>) -> bool {
    match qr_code_modules(qr_text(token)) {
        None => r matches Err(e) && e.status == STATUS_INTERNAL_ERROR
            && "Failed to generate QR code: "@.is_prefix_of(e.message@),
        Some(modules) => {
            let pixels = qr_pixels(modules.0 as int, modules.1, QR_IMAGE_SIZE as int);
            match png_rgba_encoding(QR_IMAGE_SIZE, QR_IMAGE_SIZE, pixels) {
                None => r matches Err(e) && e.status == STATUS_INTERNAL_ERROR
                    && "Failed to encode image: "@.is_prefix_of(e.message@),
                Some(png) => r matches Ok((status, url)) && status == STATUS_OK && url@
                    == data_url_prefix() + base64_encode(png, false, true),
            }
        },
    }
}

/// The QR code of the transfer with this token, as a PNG data URL answered
/// with 200; refused with 500 only where the text makes no QR code.
pub fn generate_qr(token: &str) -> (r: Result<(u16, String), ApiError>)
    ensures
        qr_reply(token@, r),
        r is Ok <==> qr_code_modules(qr_text(token@)) is Some,
{
    let text = concat("ephemeral://transfer/", token);
    proof {
        reveal_strlit("ephemeral://transfer/");
    }
    let image = match generate_qr_code(text.as_str(), QR_IMAGE_SIZE) {
        Ok(img) => img,
        Err(e) => {
            return Err(api_error(STATUS_INTERNAL_ERROR, e.message));
        },
    };
    match image_to_data_url(&image) {
        Ok(url) => Ok((STATUS_OK, url)),
        Err(e) => Err(api_error(STATUS_INTERNAL_ERROR, e.message)),
    }
}

/// The token of a created transfer hands the receiver its key: decoded from
/// URL-safe base64 it gives 32 bytes under which the stored data is the
/// sealed file.
pub proof fn law_token_opens_transfer(
    before: Map<Seq<char>, FileModel>,
    after: Map<Seq<char>, FileModel>,
    filename: Seq<char>,
    plain: Seq<u8>,
    created_at: (int, int),
    expiry: Option<(int, int)>,
    resp: CreateTransferResponse,
)
    requires
        new_transfer(before, after, filename, plain, created_at, expiry, resp),
    ensures
        base64_url_decoding(resp.token@) matches Some(key) && key.len() == KEY_LEN
            && after[resp.id@].encrypted_data == chacha20poly1305_seal(key, after[resp.id@].nonce, plain),
{
    let f = after[resp.id@];
    let key = choose|key: Seq<u8>|
        key.len() == KEY_LEN && resp.token@ == base64_encode(key, true, false) && f.encrypted_data
            == #[trigger] chacha20poly1305_seal(key, f.nonce, plain);
    lemma_base64_url_decoding(key);
}

/// The service's status: running, its peer id, how many files it stores
/// (expired ones included) and its version.
pub fn status(storage: &Storage, network: &Network, version: &str) -> (r: StatusResponse)
    ensures
        r.status@ == "running"@,
        r.peer_id@ == peer_id_text(network.local_peer()),
        r.stored_files == storage@.len(),
        r.version@ == version@,
{
    let stored_files = storage.count();
    let peer_id = network.peer_id().to_string();
    StatusResponse {
        status: "running".to_owned(),
        peer_id,
        stored_files,
        version: version.to_owned(),
    }
}

} // verus!
