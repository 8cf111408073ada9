use hyper_mcp_remote::auth::cache::{CachedCredentials, TokenResponse as Lifetime};
use hyper_mcp_remote::auth::storage::{
    decode, decoded, encode, encoded, Outcome, Reply, SecureCredentialStore, StoreError, Task, CREDENTIALS_DIR,
    KEYRING_SERVICE,
};
use hyper_mcp_remote::session::CredentialKey;
use oauth2::TokenResponse;
use rmcp::transport::auth::StoredCredentials;

/// A keyring and a file, in memory.
struct Places {
    entry: Option<String>,
    file: Option<String>,
    keyring_works: bool,
    file_works: bool,
}

impl Places {
    fn new() -> Places {
        Places { entry: None, file: None, keyring_works: true, file_works: true }
    }

    fn failed() -> Reply {
        Reply::Failed { cause: "broken".to_string() }
    }

    fn serve(&mut self, task: &Task) -> Reply {
        let works = match task {
            Task::ReadEntry | Task::WriteEntry { .. } | Task::DeleteEntry => self.keyring_works,
            _ => self.file_works,
        };
        if !works {
            return Places::failed();
        }
        match task {
            Task::ReadEntry => match &self.entry {
                Some(s) => Reply::Found(s.clone()),
                None => Reply::Missing,
            },
            Task::ReadFile => match &self.file {
                Some(s) => Reply::Found(s.clone()),
                None => Reply::Missing,
            },
            Task::WriteEntry { data } => {
                self.entry = Some(data.clone());
                Reply::Done
            }
            Task::WriteFile { data } => {
                self.file = Some(data.clone());
                Reply::Done
            }
            Task::DeleteEntry => match self.entry.take() {
                Some(_) => Reply::Done,
                None => Reply::Missing,
            },
            Task::DropFile | Task::RemoveFile => match self.file.take() {
                Some(_) => Reply::Done,
                None => Reply::Missing,
            },
            Task::Finished(_) => panic!("nothing to serve"),
        }
    }

    fn run(&mut self, mut task: Task) -> Outcome {
        loop {
            if let Task::Finished(outcome) = task {
                return outcome;
            }
            let reply = self.serve(&task);
            assert!(task.accepts(&reply));
            task = task.advance(reply);
        }
    }
}

fn store(salt: &str) -> SecureCredentialStore {
    SecureCredentialStore::new(&CredentialKey::new(&format!("https://example.com/{salt}"), None))
}

fn sample_credentials() -> StoredCredentials {
    let json = r#"{
        "client_id": "client-abc",
        "token_response": {
            "access_token": "access-token-xyz",
            "token_type": "bearer",
            "expires_in": 3600,
            "refresh_token": "refresh-token-zzz",
            "scope": "read write"
        },
        "granted_scopes": ["read", "write"],
        "token_received_at": 1700000000
    }"#;
    decode(json).ok().expect("sample credentials must deserialize")
}

fn save(places: &mut Places, store: &SecureCredentialStore, credentials: &StoredCredentials) {
    let task = store.save(credentials).expect("encode");
    let outcome = places.run(task);
    assert_eq!(store.saved(outcome), Ok(()));
}

fn load(
    places: &mut Places,
    store: &SecureCredentialStore,
) -> Result<Option<StoredCredentials>, StoreError> {
    store.load(places.run(store.read_raw()))
}

#[test]
fn load_returns_none_when_nothing_stored() {
    let mut places = Places::new();
    let out = load(&mut places, &store("none-stored")).expect("load");
    assert!(out.is_none(), "empty store should yield None, got {out:?}");
}

#[test]
fn save_then_load_round_trips() {
    for keyring_works in [true, false] {
        let mut places = Places { keyring_works, ..Places::new() };
        let s = store("round-trip");
        let creds = sample_credentials();
        save(&mut places, &s, &creds);
        let loaded = load(&mut places, &s)
            .expect("load")
            .expect("creds should be present after save");
        assert_eq!(loaded.client_id, creds.client_id);
        assert_eq!(loaded.granted_scopes, creds.granted_scopes);
        assert_eq!(loaded.token_received_at, creds.token_received_at);
        let token = loaded.token_response.expect("token_response must round-trip");
        assert_eq!(token.access_token().secret(), "access-token-xyz");
        assert_eq!(
            token.refresh_token().map(|t| t.secret().as_str()),
            Some("refresh-token-zzz")
        );
    }
}

#[test]
fn clear_removes_persisted_credentials() {
    for keyring_works in [true, false] {
        let mut places = Places { keyring_works, ..Places::new() };
        let s = store("clear");
        save(&mut places, &s, &sample_credentials());
        assert!(load(&mut places, &s).expect("load").is_some());
        let outcome = places.run(s.clear_sync());
        assert_eq!(s.clear(outcome), Ok(()));
        assert!(
            load(&mut places, &s).expect("load after clear").is_none(),
            "clear() must remove stored credentials"
        );
    }
}

#[test]
fn load_returns_internal_error_on_corrupt_file() {
    let mut places = Places { file: Some("not-json".to_string()), ..Places::new() };
    let msg = load(&mut places, &store("corrupt")).err().expect("no credentials").message();
    assert!(
        msg.contains("deserialize"),
        "corrupt-file error must mention deserialization, got: {msg}"
    );
    assert_eq!(
        msg,
        "failed to deserialize stored credentials: expected ident at line 1 column 2"
    );
}

#[test]
fn credentials_decode_and_encode() {
    let raw = r#"{"client_id":"client-abc","token_response":null,"token_received_at":7}"#;
    let credentials = decode(raw).ok().expect("credentials");
    assert_eq!(credentials.client_id, "client-abc");
    assert_eq!(credentials.token_received_at, Some(7));
    assert_eq!(
        encode(&credentials),
        Ok(r#"{"client_id":"client-abc","token_response":null,"granted_scopes":[],"token_received_at":7}"#
            .to_string())
    );
    assert_eq!(
        decode("{}").err(),
        Some(StoreError::Corrupt {
            cause: "missing field `client_id` at line 1 column 2".to_string()
        })
    );
}

#[test]
fn results_of_the_codec_are_passed_on() {
    assert_eq!(decoded(Ok::<u8, String>(3)), Ok(3));
    assert_eq!(
        decoded(Err::<u8, String>("bad".to_string())),
        Err(StoreError::Corrupt { cause: "bad".to_string() })
    );
    assert_eq!(encoded(Ok("x".to_string())), Ok("x".to_string()));
    assert_eq!(
        encoded(Err("bad".to_string())),
        Err(StoreError::Unencodable { cause: "bad".to_string() })
    );
}

#[test]
fn the_flow_sees_client_lifetime_and_receipt() {
    assert_eq!(
        CachedCredentials::of(&sample_credentials()),
        CachedCredentials {
            client_id: "client-abc".to_string(),
            token_response: Some(Lifetime { expires_in: Some(3600) }),
            token_received_at: Some(1_700_000_000),
        }
    );
    let bare = decode(r#"{"client_id":"c","token_response":null}"#).ok().expect("credentials");
    assert_eq!(
        CachedCredentials::of(&bare),
        CachedCredentials {
            client_id: "c".to_string(),
            token_response: None,
            token_received_at: None,
        }
    );
}

/// The token of a record that was written as text and read again.
fn reread(token: &str) -> Result<serde_json::Value, StoreError> {
    let raw = format!(r#"{{"client_id":"c\"\\\u0001é","token_response":{token}}}"#);
    let record = decode(&raw).ok().expect("credentials");
    let again = decode(&encode(&record).expect("encode"))?;
    assert_eq!(again.client_id, "c\"\\\u{1}é");
    assert_eq!(record.client_id, again.client_id);
    Ok(serde_json::to_value(again.token_response).expect("JSON"))
}

#[test]
fn extra_fields_of_a_token_survive() {
    let token = r#"{"access_token":"a","token_type":"mac","id_token":"i","n":-5,"m":18446744073709551615,"b":true,"z":null,"l":[1,["x"]],"o":{"k":{"j":[]}}}"#;
    let expected: serde_json::Value = serde_json::from_str(token).expect("JSON");
    assert_eq!(reread(token), Ok(expected));
}

#[test]
fn token_types_are_read_in_lower_case() {
    let mut record = sample_credentials();
    if let Some(token) = record.token_response.as_mut() {
        token.set_token_type(oauth2::basic::BasicTokenType::Extension("DPoP".to_string()));
        token.set_scopes(Some(vec![]));
    }
    let again = decode(&encode(&record).expect("encode")).ok().expect("credentials");
    assert_eq!(again.client_id, record.client_id);
    assert_eq!(again.granted_scopes, record.granted_scopes);
    assert_eq!(again.token_received_at, record.token_received_at);
    let token = again.token_response.expect("token");
    assert_eq!(token.access_token().secret(), "access-token-xyz");
    assert_eq!(token.token_type().as_ref(), "dpop");
    assert_eq!(token.scopes().map(|s| s.len()), Some(1));
}

#[test]
fn nested_extra_fields_survive_down_to_the_depth_that_is_read() {
    let nested = |n: usize| {
        let list = format!("{}{}", "[".repeat(n), "]".repeat(n));
        format!(r#"{{"access_token":"a","token_type":"bearer","deep":{list}}}"#)
    };
    let expected: serde_json::Value = serde_json::from_str(&nested(125)).expect("JSON");
    assert_eq!(reread(&nested(125)), Ok(expected));
    let raw = format!(r#"{{"client_id":"c","token_response":{}}}"#, nested(126));
    assert!(decode(&raw).is_err());
}

#[test]
fn new_uses_platform_data_dir() {
    let key = CredentialKey::new("https://example.com/x", None);
    let s = SecureCredentialStore::new(&key);
    assert_eq!(s.account, key.as_str());
    assert_eq!(s.file_name, format!("{}.json", key.as_str()));
    assert_eq!(s.temporary_name, format!("{}.tmp", key.as_str()));
    assert_eq!(CREDENTIALS_DIR, "credentials");
    assert_eq!(KEYRING_SERVICE, "io.github.hyper-mcp-rs.hyper-mcp-remote");
}

#[test]
fn clear_sync_is_idempotent_on_empty_store() {
    let mut places = Places::new();
    let s = store("idempotent");
    assert_eq!(places.run(s.clear_sync()), Outcome::Cleared);
    assert_eq!(places.run(s.clear_sync()), Outcome::Cleared);
}

#[test]
fn a_keyring_write_supersedes_the_file() {
    let mut places = Places { file: Some("old".to_string()), ..Places::new() };
    assert_eq!(places.run(store("super").write_raw("new")), Outcome::Stored);
    assert_eq!(places.file, None);
    assert_eq!(places.entry.as_deref(), Some("new"));
}

#[test]
fn a_failing_keyring_does_not_keep_the_file() {
    let mut places = Places {
        file: Some("old".to_string()),
        keyring_works: false,
        ..Places::new()
    };
    assert_eq!(places.run(store("keep").clear_sync()), Outcome::Cleared);
    assert_eq!(places.file, None);
}

#[test]
fn file_failures_are_reported() {
    let mut places = Places { keyring_works: false, file_works: false, ..Places::new() };
    let s = store("fail");
    let cause = || "broken".to_string();
    assert_eq!(
        places.run(s.read_raw()),
        Outcome::Failed(StoreError::Unreadable { cause: cause() })
    );
    assert_eq!(
        places.run(s.write_raw("x")),
        Outcome::Failed(StoreError::Unwritable { cause: cause() })
    );
    assert_eq!(
        places.run(s.clear_sync()),
        Outcome::Failed(StoreError::Unremovable { cause: cause() })
    );
    let outcome = places.run(s.write_raw("x"));
    assert_eq!(s.saved(outcome), Err(StoreError::Unwritable { cause: cause() }));
    let outcome = places.run(s.clear_sync());
    assert_eq!(
        s.clear(outcome),
        Err("clear failed: failed to remove credentials file: broken".to_string())
    );
    assert_eq!(
        load(&mut places, &s).err(),
        Some(StoreError::Unreadable { cause: cause() })
    );
    assert_eq!(
        StoreError::Unreadable { cause: cause() }.message(),
        "failed to read credentials file: broken"
    );
    assert_eq!(
        StoreError::Unwritable { cause: cause() }.message(),
        "file fallback write failed: broken"
    );
    assert_eq!(
        StoreError::Unremovable { cause: cause() }.message(),
        "failed to remove credentials file: broken"
    );
    assert_eq!(
        StoreError::Unencodable { cause: cause() }.message(),
        "failed to serialize credentials: broken"
    );
}
