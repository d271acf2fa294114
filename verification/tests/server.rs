use rtiles::access::{AccessConfig, AccessKey, AccessMode, ModelAccess, Reply, SessionId};
use rtiles::meta::Meta;
use rtiles::server::{guard, ping, stat_reply, Stage, Status, TileAction, TileEvent, TileRequest};
use rtiles::stat::{Metrics, Record, StatKey, StatTable};

fn tile(tail: &str) -> TileRequest {
    TileRequest::start("data", "alpha", "one", tail, SessionId::from("s"), 1800)
}

fn stat_path(r: &TileRequest) -> String {
    match r.action() {
        TileAction::Stat(path) => path,
        other => panic!("stat expected, not {:?}", other),
    }
}

#[test]
fn granted_file_is_served() {
    let mut r = tile("tile.json");
    match r.action() {
        TileAction::Check(key) => {
            assert_eq!(key, AccessKey::new(Some("alpha"), Some("one"), SessionId::from("s")))
        }
        other => panic!("check expected, not {:?}", other),
    }
    assert!(!r.is_done());
    r.advance(TileEvent::Verdict(AccessMode::Granted));
    assert_eq!(stat_path(&r), "data/alpha/one/tile.json");
    let meta = Meta::new(120, Some(5), false);
    r.advance(TileEvent::Meta(Some(meta)));
    match r.action() {
        TileAction::Open(path, m) => {
            assert_eq!(path, "data/alpha/one/tile.json");
            assert_eq!(m, meta);
        }
        other => panic!("open expected, not {:?}", other),
    }
    r.advance(TileEvent::Opened(Some(false)));
    assert!(r.is_done());
    assert_eq!(r.stage(), Stage::Served(meta, false));
    match r.action() {
        TileAction::Serve { record, max_age } => {
            assert_eq!(max_age, 1800);
            assert_eq!(record.key(), &StatKey::new(Some("alpha"), Some("one")));
            assert_eq!(record.metrics(), Metrics { hits: 1, cached: 0, bytes: 120 });
        }
        other => panic!("serve expected, not {:?}", other),
    }
}

#[test]
fn denied_request_is_forbidden() {
    let mut r = tile("tile.json");
    r.advance(TileEvent::Verdict(AccessMode::Denied));
    assert!(r.is_done());
    assert!(matches!(r.action(), TileAction::Refuse(Status::Forbidden)));
    // a second identical request is refused again, and later events change nothing
    r.advance(TileEvent::Verdict(AccessMode::Granted));
    r.advance(TileEvent::Meta(Some(Meta::new(1, None, false))));
    r.advance(TileEvent::Opened(Some(true)));
    assert!(matches!(r.action(), TileAction::Refuse(Status::Forbidden)));
    assert_eq!(Status::Forbidden.code(), 403);
}

#[test]
fn directory_is_served_by_its_tileset() {
    let mut r = tile("");
    r.advance(TileEvent::Verdict(AccessMode::Granted));
    assert_eq!(stat_path(&r), "data/alpha/one/");
    r.advance(TileEvent::Meta(Some(Meta::new(4096, Some(1), true))));
    assert_eq!(r.stage(), Stage::LocatingDefault);
    assert_eq!(stat_path(&r), "data/alpha/one/tileset.json");
    let meta = Meta::new(77, Some(2), false);
    r.advance(TileEvent::Meta(Some(meta)));
    match r.action() {
        TileAction::Open(path, m) => {
            assert_eq!(path, "data/alpha/one/tileset.json");
            assert_eq!(m, meta);
        }
        other => panic!("open expected, not {:?}", other),
    }
    r.advance(TileEvent::Opened(Some(true)));
    match r.action() {
        TileAction::Serve { record, .. } => {
            assert_eq!(record.metrics(), Metrics { hits: 1, cached: 1, bytes: 77 })
        }
        other => panic!("serve expected, not {:?}", other),
    }
}

#[test]
fn subdirectory_is_served_by_its_tileset() {
    let mut r = tile("sub");
    r.advance(TileEvent::Verdict(AccessMode::Granted));
    r.advance(TileEvent::Meta(Some(Meta::new(4096, None, true))));
    assert_eq!(stat_path(&r), "data/alpha/one/sub/tileset.json");
}

#[test]
fn directory_without_tileset_is_not_found() {
    let mut r = tile("sub");
    r.advance(TileEvent::Verdict(AccessMode::Granted));
    r.advance(TileEvent::Meta(Some(Meta::new(4096, None, true))));
    r.advance(TileEvent::Meta(None));
    assert!(matches!(r.action(), TileAction::Refuse(Status::NotFound)));
    assert_eq!(Status::NotFound.code(), 404);
}

#[test]
fn missing_file_is_not_found() {
    let mut r = TileRequest::start("data", "alpha", "missing", "x", SessionId::from("s"), 1800);
    r.advance(TileEvent::Verdict(AccessMode::Granted));
    assert_eq!(stat_path(&r), "data/alpha/missing/x");
    r.advance(TileEvent::Meta(None));
    assert!(r.is_done());
    assert!(matches!(r.action(), TileAction::Refuse(Status::NotFound)));
}

#[test]
fn file_that_cannot_be_opened_is_not_found() {
    let mut r = tile("tile.json");
    r.advance(TileEvent::Verdict(AccessMode::Granted));
    r.advance(TileEvent::Meta(Some(Meta::new(1, None, false))));
    r.advance(TileEvent::Opened(None));
    assert!(matches!(r.action(), TileAction::Refuse(Status::NotFound)));
}

#[test]
fn events_out_of_turn_change_nothing() {
    let mut r = tile("tile.json");
    r.advance(TileEvent::Meta(Some(Meta::new(1, None, false))));
    r.advance(TileEvent::Opened(Some(true)));
    assert_eq!(r.stage(), Stage::Checking);
    r.advance(TileEvent::Verdict(AccessMode::Granted));
    r.advance(TileEvent::Verdict(AccessMode::Denied));
    r.advance(TileEvent::Opened(Some(true)));
    assert_eq!(r.stage(), Stage::Locating);
    assert_eq!(stat_path(&r), "data/alpha/one/tile.json");
}

#[test]
fn anonymous_request_checks_a_key_without_session() {
    let r = TileRequest::start("data", "alpha", "one", "t", SessionId::from_cookie(None), 60);
    match r.action() {
        TileAction::Check(key) => assert_eq!(key.session_id().value(), None),
        other => panic!("check expected, not {:?}", other),
    }
}

#[test]
fn ten_requests_are_counted() {
    let len = 345;
    let meta = Meta::new(len, Some(1), false);
    let mut table = StatTable::new();
    for i in 0..10 {
        let mut r = tile("tile.json");
        r.advance(TileEvent::Verdict(AccessMode::Granted));
        r.advance(TileEvent::Meta(Some(meta)));
        // the first request is served from disk, the others from memory
        r.advance(TileEvent::Opened(Some(i > 0)));
        match r.action() {
            TileAction::Serve { record, .. } => table.insert(record),
            other => panic!("serve expected, not {:?}", other),
        }
    }
    let expected = Metrics { hits: 10, cached: 9, bytes: 10 * len };
    assert_eq!(table.get(&StatKey::new(Some("alpha"), Some("one"))), expected);
    assert_eq!(stat_reply(AccessMode::Granted, table.get(&StatKey::new(Some("alpha"), Some("one")))), Ok(expected));
    // the server's counters are the aggregate of all that was seen
    table.insert(Record::new(StatKey::new(Some("beta"), Some("two")), Metrics { hits: 1, cached: 0, bytes: 5 }));
    assert_eq!(
        stat_reply(AccessMode::Granted, table.get(&StatKey::default())),
        Ok(Metrics { hits: 11, cached: 9, bytes: 10 * len + 5 })
    );
}

#[test]
fn stat_is_forbidden_without_grant() {
    let m = Metrics { hits: 1, cached: 1, bytes: 1 };
    assert_eq!(stat_reply(AccessMode::Denied, m), Err(Status::Forbidden));
    assert_eq!(stat_reply(AccessMode::Granted, m), Ok(m));
}

#[test]
fn guard_lets_granted_keys_pass() {
    let key = AccessKey::new(Some("a"), Some("b"), SessionId::from("s"));
    assert_eq!(guard(key.clone(), AccessMode::Granted), Ok(key.clone()));
    assert_eq!(guard(key, AccessMode::Denied), Err(Status::Forbidden));
}

#[test]
fn ping_pongs() {
    assert_eq!(ping(), "pong");
}

#[test]
fn server_stat_without_cookie() {
    let access = ModelAccess::new(&AccessConfig::default()).unwrap();
    let key = AccessKey::new(None, None, SessionId::from_cookie(None));
    let request = access.request(&key);
    assert_eq!(request.url, "http://127.0.0.1:8888");
    assert_eq!(request.cookie, None);
    let mode = ModelAccess::verdict(Reply::Status(200));
    let recs = vec![
        Record::new(StatKey::new(Some("alpha"), Some("one")), Metrics { hits: 1, cached: 0, bytes: 10 }),
        Record::new(StatKey::new(Some("alpha"), Some("two")), Metrics { hits: 1, cached: 1, bytes: 20 }),
        Record::new(StatKey::new(Some("beta"), Some("one")), Metrics { hits: 1, cached: 1, bytes: 30 }),
    ];
    let table = StatTable::drained(&recs);
    let scope = StatKey { model: key.model().clone() };
    assert_eq!(
        stat_reply(mode, table.get(&scope)),
        Ok(Metrics { hits: 3, cached: 2, bytes: 60 })
    );
}

#[test]
fn timed_out_authority_refuses() {
    let mode = ModelAccess::verdict(Reply::Failed);
    let mut r = tile("tile.json");
    r.advance(TileEvent::Verdict(mode));
    assert!(matches!(r.action(), TileAction::Refuse(Status::Forbidden)));
}
