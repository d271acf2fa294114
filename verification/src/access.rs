//! Access to models: who asks, what is asked of the authority, and what its
//! answer means.

use crate::store::{expiry, expiry_secs, timed_store_get, MAX_EXPIRY_SECS};
use crate::model::{copied, owned, same_text, slice_text, text, Model, ModelView};
use vstd::prelude::*;
use vstd::std_specs::cmp::PartialEqSpecImpl;
use vstd::std_specs::convert::FromSpecImpl;
use vstd::string::*;

verus! {

/// Largest number of verdicts that are remembered.
pub const VERDICT_CACHE_ENTRIES: u64 = 100_000;

/// Seconds after which a request to the authority is given up.
pub const REMOTE_TIMEOUT_SECS: u64 = 5;

/// Status with which the authority grants access.
pub const STATUS_OK: u16 = 200;

/// Mathematical value of an [`AccessConfig`].
pub ghost struct AccessConfigView {
    pub server: Seq<char>,
    pub cache_ttl: u64,
    pub cache_tti: u64,
    pub cookie_name: Seq<char>,
}

/// Model auth configuration.
#[derive(Debug)]
pub struct AccessConfig {
    /// Absolute URL of the authority.
    pub server: String,
    /// Cache entry time to live, in seconds.
    pub cache_ttl: u64,
    /// Cache entry time to idle (from last request), in seconds.
    pub cache_tti: u64,
    /// Name of the cookie that carries the session identifier.
    pub cookie_name: String,
}

impl View for AccessConfig {
    type V = AccessConfigView;

    open spec fn view(&self) -> AccessConfigView {
        AccessConfigView {
            server: self.server@,
            cache_ttl: self.cache_ttl,
            cache_tti: self.cache_tti,
            cookie_name: self.cookie_name@,
        }
    }
}

impl Default for AccessConfig {
    fn default() -> (c: Self)
        ensures
            c@ == (AccessConfigView {
                server: "http://127.0.0.1:8888"@,
                cache_ttl: 1800,
                cache_tti: 300,
                cookie_name: "PHPSESSID"@,
            }),
    {
        AccessConfig {
            server: "http://127.0.0.1:8888".to_owned(),
            cache_ttl: 30 * 60,
            cache_tti: 5 * 60,
            cookie_name: "PHPSESSID".to_owned(),
        }
    }
}

impl Clone for AccessConfig {
    fn clone(&self) -> (c: Self)
        ensures
            c@ == self@,
    {
        AccessConfig {
            server: self.server.clone(),
            cache_ttl: self.cache_ttl,
            cache_tti: self.cache_tti,
            cookie_name: self.cookie_name.clone(),
        }
    }
}

impl PartialEq for AccessConfig {
    fn eq(&self, other: &Self) -> (r: bool) {
        self.server == other.server && self.cache_ttl == other.cache_ttl && self.cache_tti
            == other.cache_tti && self.cookie_name == other.cookie_name
    }
}

impl PartialEqSpecImpl for AccessConfig {
    open spec fn obeys_eq_spec() -> bool {
        true
    }

    open spec fn eq_spec(&self, other: &Self) -> bool {
        self@ == other@
    }
}

/// User session identifier; absent for an anonymous user.
#[derive(Debug, Hash)]
pub struct SessionId(Option<String>);

impl View for SessionId {
    type V = Option<Seq<char>>;

    closed spec fn view(&self) -> Option<Seq<char>> {
        text(self.0)
    }
}

impl SessionId {
    /// The session that a request carries in its session cookie; absent
    /// where the request has no such cookie.
    pub fn from_cookie(value: Option<&str>) -> (id: Self)
        ensures
            id@ == slice_text(value),
    {
        SessionId(owned(value))
    }

    /// The identifier.
    pub fn value(&self) -> (v: Option<String>)
        ensures
            text(v) == self@,
    {
        copied(&self.0)
    }
}

impl From<&str> for SessionId {
    fn from(id_str: &str) -> (id: Self)
        ensures
            id@ == Some(id_str@),
    {
        SessionId(Some(id_str.to_owned()))
    }
}

impl FromSpecImpl<&str> for SessionId {
    /// A session is known by its view alone, which `from` states.
    open spec fn obeys_from_spec() -> bool {
        false
    }

    open spec fn from_spec(id_str: &str) -> Self {
        arbitrary()
    }
}

impl Clone for SessionId {
    fn clone(&self) -> (id: Self)
        ensures
            id@ == self@,
    {
        SessionId(copied(&self.0))
    }
}

impl PartialEq for SessionId {
    fn eq(&self, other: &Self) -> (r: bool) {
        same_text(&self.0, &other.0)
    }
}

impl PartialEqSpecImpl for SessionId {
    open spec fn obeys_eq_spec() -> bool {
        true
    }

    open spec fn eq_spec(&self, other: &Self) -> bool {
        self@ == other@
    }
}

impl Eq for SessionId {}

/// Model access mode.
#[derive(Debug, Clone, Copy, PartialEq, Eq, Hash, Structural)]
pub enum AccessMode {
    Granted,
    Denied,
}

/// Mathematical value of an [`AccessKey`].
pub ghost struct AccessKeyView {
    pub model: ModelView,
    pub session: Option<Seq<char>>,
}

/// Model access key: what is asked for, and by which session.
#[derive(Debug, Hash)]
pub struct AccessKey {
    model: Model,
    session_id: SessionId,
}

impl View for AccessKey {
    type V = AccessKeyView;

    closed spec fn view(&self) -> AccessKeyView {
        AccessKeyView { model: self.model@, session: self.session_id@ }
    }
}

impl AccessKey {
    /// The key for the model `model` of `object`, asked for by `session_id`.
    pub fn new(object: Option<&str>, model: Option<&str>, session_id: SessionId) -> (key: Self)
        ensures
            key@ == (AccessKeyView {
                model: ModelView { object: slice_text(object), name: slice_text(model) },
                session: session_id@,
            }),
    {
        AccessKey { model: Model::new(object, model), session_id }
    }

    /// The key for `model`, asked for by `session_id`.
    pub fn from_parts(model: Model, session_id: SessionId) -> (key: Self)
        ensures
            key@ == (AccessKeyView { model: model@, session: session_id@ }),
    {
        AccessKey { model, session_id }
    }

    /// The session that asks.
    pub fn session_id(&self) -> (id: &SessionId)
        ensures
            id@ == self@.session,
    {
        &self.session_id
    }

    /// The model that is asked for.
    pub fn model(&self) -> (m: &Model)
        ensures
            m@ == self@.model,
    {
        &self.model
    }
}

impl Clone for AccessKey {
    fn clone(&self) -> (key: Self)
        ensures
            key@ == self@,
    {
        AccessKey { model: self.model.clone(), session_id: self.session_id.clone() }
    }
}

impl PartialEq for AccessKey {
    fn eq(&self, other: &Self) -> (r: bool) {
        self.model == other.model && self.session_id == other.session_id
    }
}

impl PartialEqSpecImpl for AccessKey {
    open spec fn obeys_eq_spec() -> bool {
        true
    }

    open spec fn eq_spec(&self, other: &Self) -> bool {
        self@ == other@
    }
}

impl Eq for AccessKey {}

/// What came back from the authority.
#[derive(Debug, Clone, Copy, PartialEq, Eq, Structural)]
pub enum Reply {
    /// An answer with this status code.
    Status(u16),
    /// No answer: the request failed on the way or ran out of time.
    Failed,
}

/// The verdict that a reply of the authority stands for: access is granted by
/// status 200 and by nothing else.
pub open spec fn verdict_of(reply: Reply) -> AccessMode {
    if reply == Reply::Status(STATUS_OK) {
        AccessMode::Granted
    } else {
        AccessMode::Denied
    }
}

/// Mathematical value of an [`AccessRequest`].
pub ghost struct AccessRequestView {
    pub url: Seq<char>,
    pub cookie: Option<Seq<char>>,
}

/// A `GET` request to the authority.
#[derive(Debug)]
pub struct AccessRequest {
    /// Address to get.
    pub url: String,
    /// Value of the `Cookie` header, where the request carries one.
    pub cookie: Option<String>,
}

impl View for AccessRequest {
    type V = AccessRequestView;

    open spec fn view(&self) -> AccessRequestView {
        AccessRequestView { url: self.url@, cookie: text(self.cookie) }
    }
}

/// The address asked for a model: the authority's own address, then the
/// object behind a slash if the model names one, then the name behind a
/// second slash if the model names both.
pub open spec fn authority_url(server: Seq<char>, model: ModelView) -> Seq<char> {
    match model.object {
        Some(object) => match model.name {
            Some(name) => server + seq!['/'] + object + seq!['/'] + name,
            None => server + seq!['/'] + object,
        },
        None => server,
    }
}

/// The `Cookie` header that carries a session: the cookie's name, an equals
/// sign and the identifier; none for an anonymous user.
pub open spec fn cookie_header(name: Seq<char>, session: Option<Seq<char>>) -> Option<Seq<char>> {
    match session {
        Some(id) => Some(name + seq!['='] + id),
        None => None,
    }
}

/// The request that settles `key` under `config`. It depends on nothing
/// else.
pub open spec fn request_for(config: AccessConfigView, key: AccessKeyView) -> AccessRequestView {
    AccessRequestView {
        url: authority_url(config.server, key.model),
        cookie: cookie_header(config.cookie_name, key.session),
    }
}

/// Mathematical value of a [`CheckStep`].
pub ghost enum CheckStepView {
    Done(AccessMode),
    Fetch(AccessRequestView),
}

/// How a check goes on once the store of verdicts was asked.
#[derive(Debug)]
pub enum CheckStep {
    /// The verdict is known: nothing is sent to the authority.
    Done(AccessMode),
    /// The verdict is not known: this request settles it.
    Fetch(AccessRequest),
}

impl View for CheckStep {
    type V = CheckStepView;

    open spec fn view(&self) -> CheckStepView {
        match self {
            CheckStep::Done(mode) => CheckStepView::Done(*mode),
            CheckStep::Fetch(request) => CheckStepView::Fetch(request@),
        }
    }
}

/// The step that follows the answer `cached` of the store of verdicts, for
/// the key `key` under `config`: a verdict that the store still holds is the
/// verdict, and only without one is the authority asked.
pub open spec fn planned(
    config: AccessConfigView,
    key: AccessKeyView,
    cached: Option<AccessMode>,
) -> CheckStepView {
    match cached {
        Some(mode) => CheckStepView::Done(mode),
        None => CheckStepView::Fetch(request_for(config, key)),
    }
}

/// `reqwest::Client`, which sends requests. It is only handed on.
#[verifier::external_type_specification]
#[verifier::external_body]
pub struct ExClient(reqwest::Client);

/// `reqwest::Error`. It is only handed on.
#[verifier::external_type_specification]
#[verifier::external_body]
pub struct ExClientError(reqwest::Error);

/// What a store of verdicts was made with: the number of entries up to
/// which it keeps them, the seconds for which it keeps each, and the
/// seconds for which it keeps one that nobody asks for.
pub uninterp spec fn verdict_store_policy(
    store: moka::future::Cache<AccessKey, AccessMode>,
) -> (u64, u64, u64);

/// `moka::future::CacheBuilder`, with `max_capacity`, `time_to_live`,
/// `time_to_idle` and `build`, which panics on a time above a thousand
/// years. The contract claims that the store was made with the three
/// arguments, and nothing of what it holds.
#[verifier::external_body]
fn verdict_store_new(entries: u64, ttl: u64, tti: u64) -> (store: moka::future::Cache<
    AccessKey,
    AccessMode,
>)
    requires
        ttl <= MAX_EXPIRY_SECS,
        tti <= MAX_EXPIRY_SECS,
    ensures
        verdict_store_policy(store) == (entries, ttl, tti),
{
    moka::future::Cache::builder()
        .max_capacity(entries)
        .time_to_live(std::time::Duration::from_secs(ttl))
        .time_to_idle(std::time::Duration::from_secs(tti))
        .build()
}

/// `reqwest::ClientBuilder`, with `timeout` and `build`. Whether a client
/// can be made depends on the machine, so nothing is claimed of the answer.
#[verifier::external_body]
fn client_new(timeout: u64) -> Result<reqwest::Client, reqwest::Error> {
    reqwest::Client::builder().timeout(std::time::Duration::from_secs(timeout)).build()
}

/// Why a resolver could not be made.
#[derive(Debug)]
pub enum AccessError {
    /// No client for requests to the authority could be made.
    Client(reqwest::Error),
}

/// Model access resolver: remembers verdicts, builds the question for the
/// authority and reads its answer.
pub struct ModelAccess {
    cache: moka::future::Cache<AccessKey, AccessMode>,
    client: reqwest::Client,
    config: AccessConfig,
}

impl ModelAccess {
    /// The configuration that the resolver was made with.
    pub closed spec fn spec_config(&self) -> AccessConfigView {
        self.config@
    }

    /// The store of verdicts that the resolver holds.
    pub closed spec fn spec_store(&self) -> moka::future::Cache<AccessKey, AccessMode> {
        self.cache
    }

    /// The client through which the resolver's requests are sent.
    pub closed spec fn spec_client(&self) -> reqwest::Client {
        self.client
    }

    /// What the store of verdicts was made with: the number of entries up
    /// to which it keeps them, the seconds for which it keeps each, and the
    /// seconds for which it keeps one that nobody asks for.
    pub open spec fn policy(&self) -> (u64, u64, u64) {
        verdict_store_policy(self.spec_store())
    }

    /// The resolver for `config` around what the making of a client gave:
    /// with a client, a resolver that holds it and a new store of verdicts
    /// with the configured times; without one, the error that says so.
    pub fn with_client(
        config: &AccessConfig,
        made: Result<reqwest::Client, reqwest::Error>,
    ) -> (r: Result<Self, AccessError>)
        ensures
            match made {
                Ok(client) => {
                    &&& r matches Ok(access)
                    &&& access.spec_config() == config@
                    &&& access.spec_client() == client
                    &&& access.policy() == (
                        VERDICT_CACHE_ENTRIES,
                        expiry(config.cache_ttl),
                        expiry(config.cache_tti),
                    )
                },
                Err(error) => r matches Err(AccessError::Client(e)) && e == error,
            },
    {
        match made {
            Ok(client) => {
                let cache = verdict_store_new(
                    VERDICT_CACHE_ENTRIES,
                    expiry_secs(config.cache_ttl),
                    expiry_secs(config.cache_tti),
                );
                Ok(ModelAccess { cache, client, config: config.clone() })
            },
            Err(error) => Err(AccessError::Client(error)),
        }
    }

    /// A resolver that asks the authority named in `config` and remembers
    /// its verdicts for the configured times.
    pub fn new(config: &AccessConfig) -> (r: Result<Self, AccessError>)
        ensures
            r matches Ok(access) ==> {
                &&& access.spec_config() == config@
                &&& access.policy() == (
                    VERDICT_CACHE_ENTRIES,
                    expiry(config.cache_ttl),
                    expiry(config.cache_tti),
                )
            },
    {
        Self::with_client(config, client_new(REMOTE_TIMEOUT_SECS))
    }

    /// The store of verdicts, for those who put entries into it.
    pub fn store(&self) -> (store: &moka::future::Cache<AccessKey, AccessMode>)
        ensures
            *store == self.spec_store(),
            verdict_store_policy(*store) == self.policy(),
    {
        &self.cache
    }

    /// The client that sends the requests.
    pub fn client(&self) -> (client: &reqwest::Client)
        ensures
            *client == self.spec_client(),
    {
        &self.client
    }

    /// First step of a check of `key`: the verdict that the store holds
    /// for it, or the request that settles it.
    pub fn begin(&self, key: &AccessKey) -> (step: CheckStep)
        ensures
            step@ is Fetch ==> step@ == CheckStepView::Fetch(
                request_for(self.spec_config(), key@),
            ),
    {
        self.plan(key, timed_store_get(&self.cache, key))
    }

    /// The configuration that the resolver was made with.
    pub fn config(&self) -> (c: &AccessConfig)
        ensures
            c@ == self.spec_config(),
    {
        &self.config
    }

    /// The request to send to the authority for `key`.
    pub fn request(&self, key: &AccessKey) -> (r: AccessRequest)
        ensures
            r@ == request_for(self.spec_config(), key@),
    {
        let mut url = self.config.server.clone();
        proof {
            reveal_strlit("/");
            reveal_strlit("=");
            assert("/"@ =~= seq!['/']);
            assert("="@ =~= seq!['=']);
        }
        if let Some(object) = &key.model.object {
            url.append("/");
            url.append(object.as_str());
            if let Some(name) = &key.model.name {
                url.append("/");
                url.append(name.as_str());
            }
        }
        let cookie = match key.session_id.value() {
            Some(id) => {
                let mut header = self.config.cookie_name.clone();
                header.append("=");
                header.append(id.as_str());
                assert(header@ =~= self.config@.cookie_name + seq!['='] + id@);
                Some(header)
            },
            None => None,
        };
        assert(url@ =~= authority_url(self.config@.server, key@.model));
        AccessRequest { url, cookie }
    }

    /// How the check of `key` goes on, where `cached` is what the store of
    /// verdicts holds for it.
    pub fn plan(&self, key: &AccessKey, cached: Option<AccessMode>) -> (step: CheckStep)
        ensures
            step@ == planned(self.spec_config(), key@, cached),
    {
        match cached {
            Some(mode) => CheckStep::Done(mode),
            None => CheckStep::Fetch(self.request(key)),
        }
    }

    /// The verdict that `reply` stands for.
    pub fn verdict(reply: Reply) -> (mode: AccessMode)
        ensures
            mode == verdict_of(reply),
    {
        match reply {
            Reply::Status(code) => {
                if code == STATUS_OK {
                    AccessMode::Granted
                } else {
                    AccessMode::Denied
                }
            },
            Reply::Failed => AccessMode::Denied,
        }
    }
}

/// An anonymous session differs from every session with an identifier, and
/// its request carries no cookie.
pub proof fn lemma_anonymous_session(config: AccessConfigView, model: ModelView, id: Seq<char>)
    ensures
        (AccessKeyView { model, session: None }) != (AccessKeyView { model, session: Some(id) }),
        request_for(config, AccessKeyView { model, session: None }).cookie is None,
        request_for(config, AccessKeyView { model, session: Some(id) }).cookie is Some,
{
}

/// While the store holds a verdict for a key, a check of that key sends
/// nothing to the authority, whatever the verdict is.
pub proof fn lemma_known_verdict_asks_nothing(
    config: AccessConfigView,
    key: AccessKeyView,
    mode: AccessMode,
)
    ensures
        planned(config, key, Some(mode)) == CheckStepView::Done(mode),
        !(planned(config, key, Some(mode)) is Fetch),
{
}

/// Access is granted by the reply with status 200 alone.
pub proof fn lemma_granted_only_by_ok(reply: Reply)
    ensures
        verdict_of(reply) == AccessMode::Granted <==> reply == Reply::Status(200),
{
}

} // verus!
