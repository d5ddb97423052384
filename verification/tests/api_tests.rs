use ephemeral_file_share::api::{
    create_transfer, create_transfer_at, delete_transfer, generate_qr, get_transfer, get_transfer_at, status,
    transfer_response, CreateTransferRequest,
};
use base64::Engine;
use ephemeral_file_share::encryption::{decrypt, Key};
use ephemeral_file_share::qr::generate_qr_code;

fn encode_url_safe_no_pad(bytes: &[u8]) -> String {
    base64::engine::general_purpose::URL_SAFE_NO_PAD.encode(bytes)
}
use ephemeral_file_share::network::Network;
use ephemeral_file_share::storage::Storage;
use ephemeral_file_share::time::Timestamp;

fn request(data: &str, minutes: Option<u64>) -> CreateTransferRequest {
    CreateTransferRequest {
        filename: "test.txt".to_string(),
        data: data.to_string(),
        expires_in_minutes: minutes,
    }
}

#[test]
fn test_create_and_get_transfer() {
    let mut storage = Storage::new();

    // Create a transfer
    let request_data = request(&encode_url_safe_no_pad(b"Hello, World!"), Some(60));
    let create_response = create_transfer(&mut storage, request_data).ok().unwrap();
    assert_eq!(create_response.id.len(), 36);
    assert_eq!(create_response.token.len(), 43);
    assert_eq!(create_response.qr_url, format!("/api/qr/{}", create_response.token));
    assert!(create_response.expires_at.is_some());

    // Get the transfer
    let got = get_transfer(&storage, &create_response.id).ok().unwrap();
    assert_eq!(got.id, create_response.id);
    assert_eq!(got.filename, "test.txt");
    assert_eq!(got.size, 13);
    assert_eq!(got.expires_at, create_response.expires_at);
    assert_eq!(got.download_url, format!("/api/download/{}", create_response.id));
}

#[test]
fn test_delete_transfer() {
    let mut storage = Storage::new();
    let created = create_transfer(&mut storage, request(&encode_url_safe_no_pad(b"bye"), None))
        .ok()
        .unwrap();
    assert_eq!(delete_transfer(&mut storage, &created.id).ok().unwrap(), 200);
    let again = delete_transfer(&mut storage, &created.id).err().unwrap();
    assert_eq!(again.status, 404);
    assert_eq!(again.message, "File not found or already expired");
    assert_eq!(get_transfer(&storage, &created.id).err().unwrap().status, 404);
}

#[test]
fn test_status_endpoint() {
    let mut storage = Storage::new();
    let network = Network::new();
    let before = status(&storage, &network, "0.1.0");
    assert_eq!(before.status, "running");
    assert_eq!(before.stored_files, 0);
    assert_eq!(before.version, "0.1.0");
    assert_eq!(before.peer_id, network.peer_id().to_string());
    create_transfer(&mut storage, request("", None)).ok().unwrap();
    assert_eq!(status(&storage, &network, "0.1.0").stored_files, 1);
}

#[test]
fn invalid_base64_is_a_bad_request() {
    let mut storage = Storage::new();
    let e = create_transfer(&mut storage, request("not base64!", None)).err().unwrap();
    assert_eq!(e.status, 400);
    assert!(e.message.starts_with("Invalid base64 data: "));
    assert_eq!(storage.count(), 0);
}

#[test]
fn transfer_without_expiry_has_none() {
    let mut storage = Storage::new();
    let created = create_transfer(&mut storage, request("aGk", None)).ok().unwrap();
    assert!(created.expires_at.is_none());
    let got = get_transfer(&storage, &created.id).ok().unwrap();
    assert_eq!(got.size, 2);
    assert!(got.expires_at.is_none());
}

#[test]
fn expired_transfer_is_not_found() {
    let mut storage = Storage::new();
    let created = create_transfer(&mut storage, request("aGk", Some(1))).ok().unwrap();
    let later = Timestamp::now().plus_minutes(2).unwrap();
    let e = get_transfer_at(&storage, &created.id, &later).err().unwrap();
    assert_eq!(e.status, 404);
    assert_eq!(e.message, "File not found or expired");
    assert!(get_transfer_at(&storage, &created.id, &Timestamp::now()).is_ok());
}

#[test]
fn missing_transfer_is_not_found() {
    let storage = Storage::new();
    let e = get_transfer(&storage, "nope").err().unwrap();
    assert_eq!(e.status, 404);
    assert_eq!(e.message, "File not found or expired");
}

#[test]
fn qr_answer_is_the_code_of_the_transfer_text() {
    let (code, url) = generate_qr("abc").ok().unwrap();
    assert_eq!(code, 200);
    assert!(url.starts_with("data:image/png;base64,"));
    let png = base64::engine::general_purpose::STANDARD
        .decode(&url["data:image/png;base64,".len()..])
        .unwrap();
    let decoded = image::load_from_memory(&png).unwrap().to_rgba8();
    assert_eq!((decoded.width(), decoded.height()), (256, 256));
    let expected = generate_qr_code("ephemeral://transfer/abc", 256).ok().unwrap();
    assert_eq!(decoded.into_raw(), expected.pixels());
    let (_, other) = generate_qr("abd").ok().unwrap();
    assert_ne!(url, other);
}

#[test]
fn token_carries_the_key_of_the_stored_file() {
    let mut storage = Storage::new();
    let created = create_transfer(&mut storage, request(&encode_url_safe_no_pad(b"secret bytes"), None))
        .ok()
        .unwrap();
    let key = Key::from_token(&created.token).unwrap();
    let file = storage.get(&created.id).unwrap();
    let plain = decrypt(&file.encrypted_data, &file.nonce, &key).ok().unwrap();
    assert_eq!(plain, b"secret bytes");
    assert_eq!(created.qr_url, format!("/api/qr/{}", created.token));
}

#[test]
fn undecodable_data_is_refused_whatever_the_minutes() {
    let mut storage = Storage::new();
    let e = create_transfer(&mut storage, request("***", Some(u64::MAX))).err().unwrap();
    assert_eq!(e.status, 400);
    assert!(e.message.starts_with("Invalid base64 data: "));
    assert_eq!(storage.count(), 0);
}

#[test]
fn answer_uses_rfc3339_instants() {
    let mut storage = Storage::new();
    let created = create_transfer(&mut storage, request("aGk", None)).ok().unwrap();
    let file = storage.get(&created.id).unwrap();
    let answer = transfer_response(&file, &created.id);
    assert_eq!(answer.created_at, file.created_at.to_rfc3339());
    assert!(answer.created_at.ends_with("+00:00"));
}

#[test]
fn expiry_is_the_given_minutes_after_now() {
    let mut storage = Storage::new();
    let now = Timestamp::from_parts(1_000, 250).unwrap();
    let created = Timestamp::from_parts(1_001, 0).unwrap();
    let r = create_transfer_at(&mut storage, request("aGk", Some(60)), &now, &created)
        .ok()
        .unwrap();
    let f = storage.get_at(&r.id, &now).unwrap();
    let e = f.expires_at.unwrap();
    assert_eq!(e.secs(), 4_600);
    assert_eq!(e.nanos(), 250);
    assert_eq!(f.created_at.secs(), 1_001);
    assert_eq!(r.expires_at, Some(e.to_rfc3339()));
    assert_eq!(r.expires_at.as_deref(), Some("1970-01-01T01:16:40.000000250+00:00"));
    assert!(r.token.chars().all(|c| c.is_ascii_alphanumeric() || c == '-' || c == '_'));
    let later = Timestamp::from_parts(4_601, 0).unwrap();
    assert!(get_transfer_at(&storage, &r.id, &later).is_err());
    assert!(get_transfer_at(&storage, &r.id, &e).is_ok());
}

#[test]
fn expiry_outside_the_calendar_is_refused() {
    let mut storage = Storage::new();
    let last = Timestamp::from_parts(8_210_266_876_799, 0).unwrap();
    let e = create_transfer_at(&mut storage, request("aGk", Some(1)), &last, &last)
        .err()
        .unwrap();
    assert_eq!(e.status, 500);
    assert_eq!(e.message, "Expiration time out of range");
    assert_eq!(storage.count(), 0);
}

#[test]
fn huge_minute_count_reads_as_negative() {
    let mut storage = Storage::new();
    let now = Timestamp::from_parts(10_000, 0).unwrap();
    let r = create_transfer_at(&mut storage, request("aGk", Some(u64::MAX)), &now, &now)
        .ok()
        .unwrap();
    let f = storage.get_at(&r.id, &Timestamp::from_parts(9_000, 0).unwrap()).unwrap();
    assert_eq!(f.expires_at.unwrap().secs(), 9_940);
}

#[test]
fn second_transfer_keeps_the_first() {
    let mut storage = Storage::new();
    let a = create_transfer(&mut storage, request("YQ", None)).ok().unwrap();
    let b = create_transfer(&mut storage, request("Yg", None)).ok().unwrap();
    assert_ne!(a.id, b.id);
    assert_ne!(a.token, b.token);
    assert_eq!(storage.count(), 2);
    assert_eq!(get_transfer(&storage, &a.id).ok().unwrap().size, 1);
}
