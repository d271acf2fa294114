use rtiles::access::{
    AccessConfig, AccessError, AccessKey, AccessMode, AccessRequest, CheckStep, ModelAccess,
    Reply, SessionId, REMOTE_TIMEOUT_SECS, VERDICT_CACHE_ENTRIES,
};
use rtiles::model::Model;

fn get_access_key() -> AccessKey {
    AccessKey::new(Some("tver"), Some("panorama"), SessionId::from("secret_key"))
}

fn get_model_access(server: &str) -> ModelAccess {
    let config = AccessConfig { server: server.to_string(), ..Default::default() };
    ModelAccess::new(&config).unwrap()
}

#[test]
fn access_default_config() {
    let cfg = AccessConfig::default();
    assert_eq!(
        cfg,
        AccessConfig {
            server: String::from("http://127.0.0.1:8888"),
            cache_ttl: 30 * 60,
            cache_tti: 5 * 60,
            cookie_name: String::from("PHPSESSID"),
        }
    )
}

#[test]
fn access_create_key() {
    assert_eq!(
        get_access_key(),
        AccessKey::from_parts(
            Model::new(Some("tver"), Some("panorama")),
            SessionId::from("secret_key")
        )
    )
}

#[test]
fn model_access_default_config() {
    let cfg = AccessConfig::default();
    assert_eq!(cfg, AccessConfig {
        server: String::from("http://127.0.0.1:8888"),
        cache_ttl: 30 * 60,
        cache_tti: 5 * 60,
        cookie_name: String::from("PHPSESSID"),
    })
}

#[test]
fn model_access_create_key() {
    let key = get_access_key();
    assert_eq!(key.model().object, Some(String::from("tver")));
    assert_eq!(key.model().name, Some(String::from("panorama")));
    assert_eq!(key.session_id(), &SessionId::from("secret_key"));
    assert_eq!(
        key,
        AccessKey::new(Some("tver"), Some("panorama"), SessionId::from("secret_key"))
    )
}

#[test]
fn default_config_values() {
    let cfg = AccessConfig::default();
    assert_eq!(cfg.cache_ttl, 1800);
    assert_eq!(cfg.cache_tti, 300);
    assert_eq!(cfg.server, "http://127.0.0.1:8888");
    assert_eq!(cfg.cookie_name, "PHPSESSID");
}

#[test]
fn keys_differ_by_session_and_model() {
    let key = get_access_key();
    assert_ne!(
        key,
        AccessKey::new(Some("tver"), Some("panorama"), SessionId::from("other_key"))
    );
    assert_ne!(
        key,
        AccessKey::new(Some("tver"), Some("panorama"), SessionId::from_cookie(None))
    );
    assert_ne!(
        key,
        AccessKey::new(Some("tver"), None, SessionId::from("secret_key"))
    );
    assert_eq!(key.clone(), key);
}

#[test]
fn absent_cookie_gives_anonymous_key() {
    let session = SessionId::from_cookie(None);
    assert_eq!(session.value(), None);
    let key = AccessKey::new(Some("alpha"), Some("one"), session);
    assert_eq!(key.session_id().value(), None);
    assert_eq!(key.model(), &Model::new(Some("alpha"), Some("one")));
    // an empty identifier is still an identifier
    assert_ne!(SessionId::from_cookie(None), SessionId::from(""));
    assert_eq!(SessionId::from_cookie(Some("s")), SessionId::from("s"));
}

#[test]
fn request_for_model_with_session() {
    let access = get_model_access("http://auth.example");
    let AccessRequest { url, cookie } = access.request(&get_access_key());
    assert_eq!(url, "http://auth.example/tver/panorama");
    assert_eq!(cookie, Some(String::from("PHPSESSID=secret_key")));
}

#[test]
fn request_for_object_and_for_server() {
    let access = get_model_access("http://auth.example");
    let object = AccessKey::new(Some("tver"), None, SessionId::from("s"));
    assert_eq!(access.request(&object).url, "http://auth.example/tver");
    let server = AccessKey::new(None, None, SessionId::from("s"));
    assert_eq!(access.request(&server).url, "http://auth.example");
    // a name without an object adds nothing to the address
    let odd = AccessKey::new(None, Some("panorama"), SessionId::from("s"));
    assert_eq!(access.request(&odd).url, "http://auth.example");
}

#[test]
fn request_without_session_has_no_cookie() {
    let access = get_model_access("http://auth.example");
    let key = AccessKey::new(Some("alpha"), Some("one"), SessionId::from_cookie(None));
    let request = access.request(&key);
    assert_eq!(request.url, "http://auth.example/alpha/one");
    assert_eq!(request.cookie, None);
}

#[test]
fn request_uses_configured_cookie_name() {
    let config = AccessConfig {
        server: String::from("http://127.0.0.1:8888"),
        cache_ttl: 1,
        cache_tti: 1,
        cookie_name: String::from("SID"),
    };
    let access = ModelAccess::new(&config).unwrap();
    assert_eq!(access.config(), &config);
    let request = access.request(&AccessKey::new(None, None, SessionId::from("abc")));
    assert_eq!(request.cookie, Some(String::from("SID=abc")));
}

#[test]
fn verdict_granted_only_by_200() {
    assert_eq!(ModelAccess::verdict(Reply::Status(200)), AccessMode::Granted);
    assert_eq!(ModelAccess::verdict(Reply::Status(404)), AccessMode::Denied);
    assert_eq!(ModelAccess::verdict(Reply::Status(204)), AccessMode::Denied);
    assert_eq!(ModelAccess::verdict(Reply::Status(201)), AccessMode::Denied);
    assert_eq!(ModelAccess::verdict(Reply::Status(500)), AccessMode::Denied);
    assert_eq!(ModelAccess::verdict(Reply::Failed), AccessMode::Denied);
}

#[test]
fn known_verdict_asks_nothing() {
    let access = get_model_access("http://auth.example");
    let key = get_access_key();
    assert!(matches!(
        access.plan(&key, Some(AccessMode::Granted)),
        CheckStep::Done(AccessMode::Granted)
    ));
    // a refusal is remembered like a grant
    assert!(matches!(
        access.plan(&key, Some(AccessMode::Denied)),
        CheckStep::Done(AccessMode::Denied)
    ));
}

#[test]
fn unknown_verdict_is_fetched() {
    let access = get_model_access("http://auth.example");
    match access.plan(&get_access_key(), None) {
        CheckStep::Fetch(request) => {
            assert_eq!(request.url, "http://auth.example/tver/panorama");
            assert_eq!(request.cookie, Some(String::from("PHPSESSID=secret_key")));
        }
        other => panic!("fetch expected, not {:?}", other),
    }
}

#[test]
fn limits_of_the_resolver() {
    assert_eq!(VERDICT_CACHE_ENTRIES, 100_000);
    assert_eq!(REMOTE_TIMEOUT_SECS, 5);
}

#[test]
fn check_begins_with_a_fetch_and_remembers_nothing_by_itself() {
    let access = get_model_access("http://auth.example");
    let key = get_access_key();
    for _ in 0..2 {
        match access.begin(&key) {
            CheckStep::Fetch(request) => {
                assert_eq!(request.url, "http://auth.example/tver/panorama")
            }
            other => panic!("fetch expected, not {:?}", other),
        }
    }
}

#[test]
fn times_above_a_thousand_years_are_taken_as_the_longest() {
    let config = AccessConfig {
        server: String::from("http://127.0.0.1:8888"),
        cache_ttl: u64::MAX,
        cache_tti: 31_536_000_001,
        cookie_name: String::from("PHPSESSID"),
    };
    assert!(ModelAccess::new(&config).is_ok());
}

#[test]
fn resolver_is_made_around_a_client() {
    let config = AccessConfig { server: String::from("http://auth.example"), ..Default::default() };
    let access = ModelAccess::with_client(&config, Ok(reqwest::Client::new())).unwrap();
    assert_eq!(access.config(), &config);
    assert_eq!(access.store().entry_count(), 0);
    assert_eq!(access.request(&get_access_key()).url, "http://auth.example/tver/panorama");
}

#[test]
fn resolver_is_not_made_without_a_client() {
    let made = reqwest::Client::builder().user_agent("two\nlines").build();
    assert!(made.is_err());
    let said = made.as_ref().err().map(|e| e.to_string());
    match ModelAccess::with_client(&AccessConfig::default(), made) {
        Err(AccessError::Client(error)) => assert_eq!(Some(error.to_string()), said),
        Ok(_) => panic!("error expected"),
    }
}

#[test]
fn resolver_hands_out_its_own_store_and_client() {
    let access = get_model_access("http://auth.example");
    assert_eq!(access.store().entry_count(), 0);
    assert_eq!(access.store().policy().max_capacity(), Some(VERDICT_CACHE_ENTRIES));
    assert_eq!(
        access.store().policy().time_to_live(),
        Some(std::time::Duration::from_secs(access.config().cache_ttl))
    );
    assert_eq!(
        access.store().policy().time_to_idle(),
        Some(std::time::Duration::from_secs(access.config().cache_tti))
    );
    // the client builds requests for the addresses that the resolver gives
    let request = access.request(&get_access_key());
    let built = access.client().get(&request.url).build().unwrap();
    assert_eq!(built.url().as_str(), "http://auth.example/tver/panorama");
}
