use rtiles::config::{Config, ConfigStorage, SERVER_NAME, SERVER_VERSION};
use rtiles::model::Model;

#[test]
fn model_new_copies_both_parts() {
    let m = Model::new(Some("tver"), Some("panorama"));
    assert_eq!(m.object.as_deref(), Some("tver"));
    assert_eq!(m.name.as_deref(), Some("panorama"));
    let o = Model::new(Some("tver"), None);
    assert_eq!(o.object.as_deref(), Some("tver"));
    assert_eq!(o.name, None);
    assert_eq!(Model::new(None, None), Model::default());
}

#[test]
fn model_equality_goes_by_both_parts() {
    let m = Model::new(Some("a"), Some("b"));
    assert_eq!(m, Model::new(Some("a"), Some("b")));
    assert_eq!(m.clone(), m);
    assert_ne!(m, Model::new(Some("a"), Some("c")));
    assert_ne!(m, Model::new(Some("b"), Some("a")));
    assert_ne!(m, Model::new(Some("a"), None));
    assert_ne!(m, Model::new(None, Some("b")));
    assert_ne!(Model::new(Some(""), None), Model::new(None, None));
}

#[test]
fn config_defaults() {
    let cfg = Config::default();
    assert_eq!(cfg.ident, format!("{}/{}", SERVER_NAME, SERVER_VERSION));
    assert_eq!(cfg.ident, "rtiles/0.1.0");
    assert!(!cfg.cli_colors);
    assert_eq!(cfg.base_path, "/3d");
    assert_eq!(cfg.storage.root, "data");
    assert_eq!(cfg.storage.max_age, 1800);
    assert_eq!(cfg.storage.cache_size, 500);
    assert_eq!(cfg.access.server, "http://127.0.0.1:8888");
    assert_eq!(cfg.access.cache_ttl, 1800);
    assert_eq!(cfg.access.cache_tti, 300);
    assert_eq!(cfg.access.cookie_name, "PHPSESSID");
}

#[test]
fn storage_defaults() {
    let s = ConfigStorage::default();
    assert_eq!(s.root, "data");
    assert_eq!(s.max_age, 30 * 60);
    assert_eq!(s.cache_size, 500);
    assert_eq!(s.file_cache().size, 500);
    let t = s.clone();
    assert_eq!(t.root, s.root);
    assert_eq!(t.max_age, s.max_age);
}
