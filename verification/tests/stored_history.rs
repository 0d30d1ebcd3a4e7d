use aes_gcm::aead::{Aead, KeyInit};
use base64::Engine;
use cursor_clip::config::{
    config_dir, config_path, history_db_path, load_or_create_config,
    load_persistence_enabled_from_config, save_config, BackendConfig, BackendFile, ConfigFile,
    SettingsFile, UserConfig,
};
use cursor_clip::payload::{
    check_nonce, decrypt_payload, derive_cipher, encrypt_payload, encrypt_with_nonce,
    frame_payload, read_plaintext, split_payload,
};
use cursor_clip::persistence::{
    database_address, db_has_persisted_items, describe_insert_failure, describe_parse_failure,
    generate_and_store_db_password, password_of, password_read_back, password_stored,
    read_db_password_from_keyring_once, u64_to_i64, warn_persistence_sync_error,
    ClipboardPersistence, FetchedRow, ItemProbe, KeyringRead, OpenOutcome, PasswordSetup, SaveItem,
};
use sha2::Digest;

fn item(item_id: u64, timestamp: u64, pinned: bool, json: &str) -> SaveItem {
    SaveItem { item_id, timestamp, pinned, json: Ok(json.to_string()) }
}

fn open(password: &str) -> ClipboardPersistence {
    match ClipboardPersistence::open_default("/tmp/h.db", password, OpenOutcome::Opened) {
        Ok(persistence) => persistence,
        Err(message) => panic!("{}", message),
    }
}

#[test]
fn an_encrypted_payload_decrypts_to_its_text() {
    let cipher = derive_cipher("correct horse");
    for text in ["", "hello", "{\"item_id\":1}", "héllo ::: 日本語"] {
        let payload = encrypt_payload(&cipher, text).unwrap();
        assert!(payload.starts_with("enc:v1:"));
        assert_ne!(payload, text);
        assert_eq!(decrypt_payload(&cipher, &payload), Ok(text.to_string()));
    }
}

#[test]
fn every_encryption_takes_a_fresh_nonce() {
    let cipher = derive_cipher("p");
    let a = encrypt_payload(&cipher, "same").unwrap();
    let b = encrypt_payload(&cipher, "same").unwrap();
    assert_ne!(a, b);
}

#[test]
fn a_payload_is_what_the_primitives_make_of_it() {
    let engine = &base64::engine::general_purpose::STANDARD;
    let nonce = vec![7u8; 12];
    let payload = encrypt_with_nonce(&derive_cipher("secret"), &nonce, "text").unwrap();
    let key = sha2::Sha256::digest("secret".as_bytes()).to_vec();
    let cipher = aes_gcm::Aes256Gcm::new_from_slice(&key).unwrap();
    let n = aes_gcm::Nonce::try_from(nonce.as_slice()).unwrap();
    let sealed = cipher.encrypt(&n, "text".as_bytes()).unwrap();
    assert_eq!(payload, format!("enc:v1:{}:{}", engine.encode(&nonce), engine.encode(&sealed)));
    assert_eq!(payload, "enc:v1:BwcHBwcHBwcHBwcH:".to_string() + &engine.encode(&sealed));
    assert_eq!(sealed.len(), 20);
}

#[test]
fn a_payload_needs_its_own_password() {
    let payload = encrypt_payload(&derive_cipher("one"), "text").unwrap();
    assert_eq!(
        decrypt_payload(&derive_cipher("two"), &payload),
        Err("Decryption failed: aead::Error".to_string())
    );
    assert_eq!(decrypt_payload(&derive_cipher("one"), &payload), Ok("text".to_string()));
}

#[test]
fn a_payload_that_is_damaged_is_refused() {
    let cipher = derive_cipher("p");
    let e = |payload: &str| decrypt_payload(&cipher, payload).unwrap_err();
    assert_eq!(e("plain"), "Payload is not encrypted");
    assert_eq!(e(""), "Payload is not encrypted");
    assert_eq!(e("enc:v1"), "Payload is not encrypted");
    assert_eq!(e("enc:v1:"), "Missing encrypted ciphertext");
    assert_eq!(e("enc:v1:AAAA"), "Missing encrypted ciphertext");
    assert_eq!(e("enc:v1::AAAA"), "Invalid encrypted nonce length");
    assert_eq!(e("enc:v1:AAAA:AAAA"), "Invalid encrypted nonce length");
    let engine = &base64::engine::general_purpose::STANDARD;
    let bad = engine.decode("!").unwrap_err().to_string();
    assert_eq!(e("enc:v1:!:AAAA"), format!("Invalid encrypted nonce: {}", bad));
    assert_eq!(
        e("enc:v1:AAAAAAAAAAAAAAAA:!"),
        format!("Invalid encrypted ciphertext: {}", bad)
    );
    assert_eq!(e("enc:v1:AAAAAAAAAAAAAAAA:AAAA"), "Decryption failed: aead::Error");
    let colon = engine.decode("AAAA:AAAA").unwrap_err().to_string();
    assert_eq!(
        e("enc:v1:AAAAAAAAAAAAAAAA:AAAA:AAAA"),
        format!("Invalid encrypted ciphertext: {}", colon)
    );
}

#[test]
fn plaintext_has_to_be_text() {
    let engine = &base64::engine::general_purpose::STANDARD;
    let key = sha2::Sha256::digest("p".as_bytes()).to_vec();
    let cipher = aes_gcm::Aes256Gcm::new_from_slice(&key).unwrap();
    let nonce = [1u8; 12];
    let n = aes_gcm::Nonce::try_from(&nonce[..]).unwrap();
    let bytes = vec![0x61u8, 0xff];
    let sealed = cipher.encrypt(&n, bytes.as_slice()).unwrap();
    let payload = format!("enc:v1:{}:{}", engine.encode(nonce), engine.encode(&sealed));
    let reason = String::from_utf8(bytes).unwrap_err().to_string();
    assert_eq!(
        decrypt_payload(&derive_cipher("p"), &payload),
        Err(format!("Invalid UTF-8 plaintext: {}", reason))
    );
}

#[test]
fn payloads_are_taken_apart_at_the_first_colon() {
    assert_eq!(frame_payload("AB", "CD"), "enc:v1:AB:CD");
    assert_eq!(split_payload("enc:v1:AB:CD"), Ok(("AB".to_string(), "CD".to_string())));
    assert_eq!(split_payload("enc:v1:AB:CD:EF"), Ok(("AB".to_string(), "CD:EF".to_string())));
    assert_eq!(split_payload("enc:v1::"), Ok((String::new(), String::new())));
    assert_eq!(split_payload("enc:v2:A:B"), Err("Payload is not encrypted".to_string()));
    assert_eq!(split_payload("enc:v1:A"), Err("Missing encrypted ciphertext".to_string()));
}

#[test]
fn decoded_nonces_are_checked() {
    assert_eq!(check_nonce(Ok(vec![3; 12])), Ok(vec![3; 12]));
    assert_eq!(check_nonce(Ok(vec![3; 11])), Err("Invalid encrypted nonce length".to_string()));
    assert_eq!(check_nonce(Err("why".to_string())), Err("Invalid encrypted nonce: why".to_string()));
    assert_eq!(read_plaintext(Some(vec![0x68, 0x69])), Ok("hi".to_string()));
    assert_eq!(read_plaintext(None), Err("Decryption failed: aead::Error".to_string()));
}

#[test]
fn saved_items_are_loaded_again() {
    let persistence = open("pw");
    let history = vec![item(1, 10, true, "{\"a\":1}"), item(2, 20, false, "{\"b\":2}")];
    let plan = persistence.save_history(None, &history);
    assert!(plan.error.is_none());
    assert_eq!(plan.rows.len(), 2);
    assert_eq!((plan.rows[0].item_id, plan.rows[0].created_ts, plan.rows[0].pinned), (1, 10, true));
    assert_eq!((plan.rows[1].item_id, plan.rows[1].created_ts, plan.rows[1].pinned), (2, 20, false));
    assert!(plan.rows[0].payload.starts_with("enc:v1:"));
    let rows = plan.rows.into_iter().map(|row| FetchedRow::Payload(row.payload)).collect();
    let loaded = open("pw").load_history(None, &rows);
    assert!(loaded.error.is_none());
    assert_eq!(loaded.items, vec!["{\"a\":1}", "{\"b\":2}"]);
    let lost = open("other").load_history(None, &rows);
    assert!(lost.items.is_empty());
    assert_eq!(lost.error, Some("Decryption failed: aead::Error".to_string()));
}

#[test]
fn plain_rows_of_old_databases_are_accepted() {
    let persistence = open("pw");
    let rows = vec![FetchedRow::Payload("{}".to_string()), FetchedRow::Payload("enc:v1:x".to_string())];
    let loaded = persistence.load_history(None, &rows);
    assert_eq!(loaded.items, vec!["{}"]);
    assert_eq!(loaded.error, Some("Missing encrypted ciphertext".to_string()));
    assert_eq!(persistence.item_json("enc:v1"), Ok("enc:v1".to_string()));
}

#[test]
fn loading_stops_at_the_first_bad_row() {
    let persistence = open("pw");
    let rows = vec![
        FetchedRow::Payload("a".to_string()),
        FetchedRow::Unreadable("io".to_string()),
        FetchedRow::Payload("b".to_string()),
    ];
    let loaded = persistence.load_history(None, &rows);
    assert_eq!(loaded.items, vec!["a"]);
    assert_eq!(loaded.error, Some("Failed to read persisted row: io".to_string()));
    let rows = vec![FetchedRow::NotText("type".to_string())];
    assert_eq!(
        persistence.load_history(None, &rows).error,
        Some("Failed to parse persisted row payload: type".to_string())
    );
    assert_eq!(
        persistence.load_history(Some("locked".to_string()), &Vec::new()).error,
        Some("Failed to query persisted history: locked".to_string())
    );
    assert_eq!(
        describe_parse_failure("eof"),
        "Failed to deserialize persisted clipboard item payload: eof"
    );
}

#[test]
fn saving_stops_at_the_first_item_that_cannot_be_stored() {
    let persistence = open("pw");
    let mut broken = item(7, 1, false, "");
    broken.json = Err("loop".to_string());
    let plan = persistence.save_history(None, &vec![item(1, 1, false, "x"), broken, item(2, 1, false, "y")]);
    assert_eq!(plan.rows.len(), 1);
    assert_eq!(plan.error, Some("Failed to serialize clipboard item 7: loop".to_string()));
    let big = 1u64 << 63;
    let plan = persistence.save_history(None, &vec![item(big, 1, false, "x")]);
    assert!(plan.rows.is_empty());
    assert_eq!(plan.error, Some("Value 9223372036854775808 exceeds i64 range".to_string()));
    let plan = persistence.save_history(None, &vec![item(1, u64::MAX, false, "x")]);
    assert_eq!(plan.error, Some("Value 18446744073709551615 exceeds i64 range".to_string()));
    let plan = persistence.save_history(Some("busy".to_string()), &vec![item(1, 1, false, "x")]);
    assert!(plan.rows.is_empty());
    assert_eq!(plan.error, Some("Failed to clear persisted history: busy".to_string()));
    assert_eq!(describe_insert_failure(9, "full"), "Failed to persist clipboard item 9: full");
}

#[test]
fn signed_columns_hold_numbers_up_to_their_limit() {
    assert_eq!(u64_to_i64(0), Ok(0));
    assert_eq!(u64_to_i64(i64::MAX as u64), Ok(i64::MAX));
    assert_eq!(
        u64_to_i64(i64::MAX as u64 + 1),
        Err("Value 9223372036854775808 exceeds i64 range".to_string())
    );
}

#[test]
fn opening_reports_what_failed() {
    let e = |outcome| match ClipboardPersistence::open_default("/db", "pw", outcome) {
        Ok(_) => panic!("opened"),
        Err(message) => message,
    };
    assert_eq!(
        e(OpenOutcome::DirectoryFailed("ro".to_string())),
        "Failed to create persistence directory: ro"
    );
    assert_eq!(
        e(OpenOutcome::OpenFailed("lock".to_string())),
        "Failed to open Stoolap database at /db: lock"
    );
    assert_eq!(
        e(OpenOutcome::SchemaFailed("sql".to_string())),
        "Failed to initialize persistence schema: sql"
    );
    assert_eq!(database_address("/home/me/h.db"), "file:///home/me/h.db");
}

#[test]
fn stored_items_are_counted() {
    assert_eq!(db_has_persisted_items("/db", ItemProbe::NoFile), Ok(false));
    assert_eq!(db_has_persisted_items("/db", ItemProbe::Counted(0)), Ok(false));
    assert_eq!(db_has_persisted_items("/db", ItemProbe::Counted(3)), Ok(true));
    assert_eq!(
        db_has_persisted_items("/db", ItemProbe::OpenFailed("x".to_string())),
        Err("Failed to open Stoolap database at /db: x".to_string())
    );
    assert_eq!(
        db_has_persisted_items("/db", ItemProbe::SchemaFailed("x".to_string())),
        Err("Failed to initialize persistence schema: x".to_string())
    );
    assert_eq!(
        db_has_persisted_items("/db", ItemProbe::CountFailed("x".to_string())),
        Err("Failed to count persisted items: x".to_string())
    );
}

#[test]
fn the_keyring_may_hold_a_password() {
    let read = read_db_password_from_keyring_once;
    assert_eq!(read(KeyringRead::Found("p".to_string())), Ok(Some("p".to_string())));
    assert_eq!(read(KeyringRead::Missing), Ok(None));
    assert_eq!(
        read(KeyringRead::NoEntryHandle("x".to_string())),
        Err("Failed to create keyring entry: x".to_string())
    );
    assert_eq!(
        read(KeyringRead::Failed("x".to_string())),
        Err("Failed to read DB password from keyring: x".to_string())
    );
}

fn fresh_password() -> String {
    match generate_and_store_db_password(None) {
        PasswordSetup::Store(password) => password,
        _ => panic!("nothing to store"),
    }
}

#[test]
fn a_new_password_is_random_and_in_base64() {
    let password = fresh_password();
    let bytes = base64::engine::general_purpose::STANDARD.decode(&password).unwrap();
    assert_eq!(bytes.len(), 32);
    assert_ne!(bytes, vec![0u8; 32]);
    assert_ne!(password, fresh_password());
    assert!(matches!(generate_and_store_db_password(Some("x".to_string())),
        PasswordSetup::Finished(Err(message)) if message == "Failed to create keyring entry: x"));
}

#[test]
fn a_new_password_counts_only_if_the_keyring_kept_it() {
    let p = || "p".to_string();
    assert!(matches!(password_stored(p(), None), PasswordSetup::ReadBack(q) if q == "p"));
    assert!(matches!(password_stored(p(), Some("x".to_string())),
        PasswordSetup::Finished(Err(m)) if m == "Failed to store DB password in keyring: x"));
    assert!(matches!(password_read_back(p(), Ok(p())), PasswordSetup::Finished(Ok(q)) if q == "p"));
    assert!(matches!(password_read_back(p(), Ok("q".to_string())), PasswordSetup::Finished(Err(m))
        if m == "Stored DB password in keyring did not round-trip correctly"));
    assert!(matches!(password_read_back(p(), Err("x".to_string())), PasswordSetup::Finished(Err(m))
        if m == "Failed to verify DB password in keyring: x"));
}

#[test]
fn a_sync_failure_is_worded() {
    assert_eq!(warn_persistence_sync_error("save", "disk full"), "Persistence save failed: disk full");
}

#[test]
fn files_live_below_the_home_directory() {
    assert_eq!(config_dir(Some("/home/me")), "/home/me/.config/cursor-clip");
    assert_eq!(config_path(Some("/home/me")), "/home/me/.config/cursor-clip/config.toml");
    assert_eq!(history_db_path(Some("/home/me")), "/home/me/.config/cursor-clip/history.stoolap.db");
    assert_eq!(config_path(None), "./.config/cursor-clip/config.toml");
    assert_eq!(config_dir(Some("")), ".config/cursor-clip");
}

fn backend(current: Option<bool>, older: Option<bool>) -> ConfigFile<BackendFile> {
    ConfigFile::Parsed(BackendFile { persistence_enabled: current, persistent_history: older })
}

#[test]
fn the_history_is_kept_only_if_a_readable_file_says_so() {
    let kept = load_persistence_enabled_from_config;
    assert!(kept(backend(Some(true), None)));
    assert!(!kept(backend(Some(false), None)));
    assert!(kept(backend(None, Some(true))));
    assert!(!kept(backend(None, Some(false))));
    assert!(!kept(backend(None, None)));
    assert!(!kept(backend(Some(true), Some(true))));
    assert!(!kept(ConfigFile::Unreadable));
    assert!(!kept(ConfigFile::Malformed));
    assert!(!BackendConfig::default().persistence_enabled);
}

const NOTHING: SettingsFile = SettingsFile {
    show_trash: None,
    show_pin: None,
    persistence_enabled: None,
    persistent_history: None,
    instant_paste: None,
};

#[test]
fn settings_default_when_the_file_gives_none() {
    let defaults = UserConfig { show_trash: true, show_pin: true, persistence_enabled: false, instant_paste: true };
    assert_eq!(UserConfig::default(), defaults);
    assert_eq!(load_or_create_config(ConfigFile::Unreadable), (defaults, true));
    assert_eq!(load_or_create_config(ConfigFile::Malformed), (defaults, true));
    assert_eq!(load_or_create_config(ConfigFile::Parsed(NOTHING)), (defaults, false));
    let some = SettingsFile { show_trash: Some(false), instant_paste: Some(false), ..NOTHING };
    let own = UserConfig { show_trash: false, instant_paste: false, ..defaults };
    assert_eq!(load_or_create_config(ConfigFile::Parsed(some)), (own, false));
}

#[test]
fn the_older_name_of_a_setting_counts_alone() {
    let older = SettingsFile { persistent_history: Some(true), ..NOTHING };
    let (config, write) = load_or_create_config(ConfigFile::Parsed(older));
    assert!(config.persistence_enabled && !write);
    let both = SettingsFile { persistence_enabled: Some(true), show_pin: Some(false), ..older };
    assert_eq!(load_or_create_config(ConfigFile::Parsed(both)), (UserConfig::default(), true));
}

#[test]
fn saved_settings_are_loaded_again() {
    for bits in 0..16u32 {
        let config = UserConfig {
            show_trash: bits & 1 != 0,
            show_pin: bits & 2 != 0,
            persistence_enabled: bits & 4 != 0,
            instant_paste: bits & 8 != 0,
        };
        let file = save_config(&config);
        assert_eq!(load_or_create_config(ConfigFile::Parsed(file)), (config, false));
        assert_eq!(
            load_persistence_enabled_from_config(backend(file.persistence_enabled, file.persistent_history)),
            config.persistence_enabled
        );
    }
}

#[test]
fn a_password_is_made_of_the_bytes_that_were_drawn() {
    assert_eq!(password_of(&vec![0; 32]), "AAAAAAAAAAAAAAAAAAAAAAAAAAAAAAAAAAAAAAAAAAA=");
    assert_eq!(password_of(&vec![255, 1]), "/wE=");
    assert_eq!(fresh_password().len(), 44);
}

#[test]
fn items_come_back_in_the_order_of_the_table() {
    let persistence = open("pw");
    let history = vec![
        item(1, 50, false, "old"),
        item(2, 70, false, "new, low"),
        item(3, 70, false, "new, high"),
        item(4, 10, true, "pinned"),
    ];
    let mut rows = persistence.save_history(None, &history).rows;
    rows.sort_by_key(|row| std::cmp::Reverse((row.pinned, row.created_ts, row.item_id)));
    let fetched = rows.into_iter().map(|row| FetchedRow::Payload(row.payload)).collect();
    let loaded = persistence.load_history(None, &fetched);
    assert!(loaded.error.is_none());
    assert_eq!(loaded.items, vec!["pinned", "new, high", "new, low", "old"]);
}
