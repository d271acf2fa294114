//! Configuration of the server, with its defaults.

use crate::access::{AccessConfig, AccessConfigView};
use crate::cache::FileCacheConfig;
use vstd::prelude::*;
use vstd::string::*;

verus! {

/// Name under which the server identifies itself.
pub const SERVER_NAME: &'static str = "rtiles";

/// Version under which the server identifies itself.
pub const SERVER_VERSION: &'static str = "0.1.0";

/// Mathematical value of a [`ConfigStorage`].
pub ghost struct ConfigStorageView {
    pub root: Seq<char>,
    pub max_age: u32,
    pub cache_size: u64,
}

/// Storage and client cache params.
#[derive(Debug)]
pub struct ConfigStorage {
    /// Directory under which the models lie.
    pub root: String,
    /// Seconds for which a client may keep an answer.
    pub max_age: u32,
    /// Size of the body cache in megabytes.
    pub cache_size: u64,
}

impl View for ConfigStorage {
    type V = ConfigStorageView;

    open spec fn view(&self) -> ConfigStorageView {
        ConfigStorageView { root: self.root@, max_age: self.max_age, cache_size: self.cache_size }
    }
}

impl Default for ConfigStorage {
    fn default() -> (c: Self)
        ensures
            c@ == (ConfigStorageView { root: "data"@, max_age: 1800, cache_size: 500 }),
    {
        ConfigStorage { root: "data".to_owned(), max_age: 30 * 60, cache_size: 500 }
    }
}

impl Clone for ConfigStorage {
    fn clone(&self) -> (c: Self)
        ensures
            c@ == self@,
    {
        ConfigStorage {
            root: self.root.clone(),
            max_age: self.max_age,
            cache_size: self.cache_size,
        }
    }
}

impl ConfigStorage {
    /// Configuration of the body cache.
    pub fn file_cache(&self) -> (c: FileCacheConfig)
        ensures
            c.size == self.cache_size,
    {
        FileCacheConfig { size: self.cache_size }
    }
}

/// Mathematical value of a [`Config`].
pub ghost struct ConfigView {
    pub ident: Seq<char>,
    pub cli_colors: bool,
    pub base_path: Seq<char>,
    pub storage: ConfigStorageView,
    pub access: AccessConfigView,
}

/// Configuration params for the server.
#[derive(Debug)]
pub struct Config {
    /// What the server calls itself in its answers.
    pub ident: String,
    pub cli_colors: bool,
    /// Path under which the server's routes are mounted.
    pub base_path: String,
    pub storage: ConfigStorage,
    pub access: AccessConfig,
}

impl View for Config {
    type V = ConfigView;

    open spec fn view(&self) -> ConfigView {
        ConfigView {
            ident: self.ident@,
            cli_colors: self.cli_colors,
            base_path: self.base_path@,
            storage: self.storage@,
            access: self.access@,
        }
    }
}

/// Name and version of the server, with a slash between them.
pub open spec fn server_ident() -> Seq<char> {
    SERVER_NAME@ + seq!['/'] + SERVER_VERSION@
}

impl Default for Config {
    fn default() -> (c: Self)
        ensures
            c@.ident == server_ident(),
            !c@.cli_colors,
            c@.base_path == "/3d"@,
            c@.storage == (ConfigStorageView { root: "data"@, max_age: 1800, cache_size: 500 }),
            c@.access == (AccessConfigView {
                server: "http://127.0.0.1:8888"@,
                cache_ttl: 1800,
                cache_tti: 300,
                cookie_name: "PHPSESSID"@,
            }),
    {
        let mut ident = SERVER_NAME.to_owned();
        proof {
            reveal_strlit("/");
            assert("/"@ =~= seq!['/']);
        }
        ident.append("/");
        ident.append(SERVER_VERSION);
        Config {
            ident,
            cli_colors: false,
            base_path: "/3d".to_owned(),
            storage: ConfigStorage::default(),
            access: AccessConfig::default(),
        }
    }
}

} // verus!
