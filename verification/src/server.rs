//! The endpoints of the server as decisions: what to ask of the caches
//! next, and what to answer in the end.
//!
//! A tile request is a small machine. Its driver performs the pending
//! action (asks for a verdict, stats a path, opens a file) and hands the
//! outcome back as an event, until the pending action is an answer.

use crate::access::{AccessKey, AccessKeyView, AccessMode, SessionId};
use crate::meta::Meta;
use crate::model::ModelView;
use crate::path::{join, joined};
use crate::stat::{Metrics, Record, RecordView, StatKey};
use vstd::prelude::*;

verus! {

/// File that is served where a directory is asked for.
pub const DEFAULT_FILE: &'static str = "tileset.json";

/// Answer to a ping.
pub const PONG: &'static str = "pong";

/// Status of an answer that serves nothing.
#[derive(Debug, Clone, Copy, PartialEq, Eq, Structural)]
pub enum Status {
    /// Access was denied.
    Forbidden,
    /// There is no such file.
    NotFound,
}

impl Status {
    /// The status as a number.
    pub open spec fn spec_code(self) -> u16 {
        match self {
            Status::Forbidden => 403,
            Status::NotFound => 404,
        }
    }

    /// The status as a number.
    #[verifier::when_used_as_spec(spec_code)]
    pub fn code(self) -> (code: u16)
        ensures
            code == self.spec_code(),
    {
        match self {
            Status::Forbidden => 403,
            Status::NotFound => 404,
        }
    }
}

/// Answers a ping.
pub fn ping() -> (answer: &'static str)
    ensures
        answer@ == PONG@,
{
    PONG
}

/// Lets a request pass if access was granted, and refuses it as forbidden
/// if not.
pub fn guard(key: AccessKey, mode: AccessMode) -> (r: Result<AccessKey, Status>)
    ensures
        match mode {
            AccessMode::Granted => r == Ok::<AccessKey, Status>(key),
            AccessMode::Denied => r == Err::<AccessKey, Status>(Status::Forbidden),
        },
{
    match mode {
        AccessMode::Granted => Ok(key),
        AccessMode::Denied => Err(Status::Forbidden),
    }
}

/// Answer of a stat endpoint: the counters where access was granted.
pub fn stat_reply(mode: AccessMode, metrics: Metrics) -> (r: Result<Metrics, Status>)
    ensures
        match mode {
            AccessMode::Granted => r == Ok::<Metrics, Status>(metrics),
            AccessMode::Denied => r == Err::<Metrics, Status>(Status::Forbidden),
        },
{
    match mode {
        AccessMode::Granted => Ok(metrics),
        AccessMode::Denied => Err(Status::Forbidden),
    }
}

/// What the driver of a tile request reports back.
#[derive(Debug, Clone, Copy, PartialEq, Eq, Structural)]
pub enum TileEvent {
    /// The verdict on the request's access key.
    Verdict(AccessMode),
    /// Metadata of the path that was to be examined; `None` where it could
    /// not be had.
    Meta(Option<Meta>),
    /// The file was opened, from memory (`true`) or on disk (`false`);
    /// `None` where it could not be opened.
    Opened(Option<bool>),
}

/// How far a tile request has come.
#[derive(Debug, Clone, Copy, PartialEq, Eq, Structural)]
pub enum Stage {
    /// The verdict is awaited.
    Checking,
    /// The metadata of the path asked for is awaited.
    Locating,
    /// The path was a directory; the metadata of its default file is awaited.
    LocatingDefault,
    /// The file with this metadata is being opened.
    Opening(Meta),
    /// The file with this metadata is served, from memory or not.
    Served(Meta, bool),
    /// The request is refused.
    Refused(Status),
}

/// Mathematical value of a [`TileRequest`].
pub ghost struct TileView {
    pub key: AccessKeyView,
    pub path: Seq<char>,
    pub max_age: u32,
    pub stage: Stage,
}

/// Mathematical value of a [`TileAction`].
pub ghost enum TileActionView {
    Check(AccessKeyView),
    Stat(Seq<char>),
    Open(Seq<char>, Meta),
    Serve { record: RecordView, max_age: u32 },
    Refuse(Status),
}

/// What the driver of a tile request has to do next.
#[derive(Debug)]
pub enum TileAction {
    /// Get the verdict for the key.
    Check(AccessKey),
    /// Get the metadata of the path.
    Stat(String),
    /// Open the file at the path, presenting the metadata as its state.
    Open(String, Meta),
    /// Count the record and answer with the opened file; clients may keep
    /// the answer, in private only, for `max_age` seconds.
    Serve { record: Record, max_age: u32 },
    /// Answer with the status alone.
    Refuse(Status),
}

impl View for TileAction {
    type V = TileActionView;

    open spec fn view(&self) -> TileActionView {
        match self {
            TileAction::Check(key) => TileActionView::Check(key@),
            TileAction::Stat(path) => TileActionView::Stat(path@),
            TileAction::Open(path, meta) => TileActionView::Open(path@, *meta),
            TileAction::Serve { record, max_age } => TileActionView::Serve {
                record: record@,
                max_age: *max_age,
            },
            TileAction::Refuse(status) => TileActionView::Refuse(*status),
        }
    }
}

/// The path of the file `tail` of the model `name` of `object` under
/// `root`: the four, each joined to what stands before it.
pub open spec fn tile_path(
    root: Seq<char>,
    object: Seq<char>,
    name: Seq<char>,
    tail: Seq<char>,
) -> Seq<char> {
    joined(joined(joined(root, object), name), tail)
}

/// The path of the default file of the directory `dir`.
pub open spec fn default_file_in(dir: Seq<char>) -> Seq<char> {
    joined(dir, DEFAULT_FILE@)
}

/// What one served request counts: one hit, one cached hit if the body
/// came from memory, and the length of the file.
pub open spec fn served_metrics(meta: Meta, cached: bool) -> Metrics {
    Metrics {
        hits: 1,
        cached: if cached {
            1
        } else {
            0
        },
        bytes: meta.len(),
    }
}

/// A tile request at its start.
pub open spec fn started(
    root: Seq<char>,
    object: Seq<char>,
    name: Seq<char>,
    tail: Seq<char>,
    session: Option<Seq<char>>,
    max_age: u32,
) -> TileView {
    TileView {
        key: AccessKeyView { model: ModelView { object: Some(object), name: Some(name) }, session },
        path: tile_path(root, object, name, tail),
        max_age,
        stage: Stage::Checking,
    }
}

/// The action that a request waits for.
pub open spec fn pending(v: TileView) -> TileActionView {
    match v.stage {
        Stage::Checking => TileActionView::Check(v.key),
        Stage::Locating => TileActionView::Stat(v.path),
        Stage::LocatingDefault => TileActionView::Stat(v.path),
        Stage::Opening(meta) => TileActionView::Open(v.path, meta),
        Stage::Served(meta, cached) => TileActionView::Serve {
            record: RecordView { key: v.key.model, metrics: served_metrics(meta, cached) },
            max_age: v.max_age,
        },
        Stage::Refused(status) => TileActionView::Refuse(status),
    }
}

/// The request after the event `e`. An event that does not answer the
/// pending action changes nothing.
pub open spec fn advanced(v: TileView, e: TileEvent) -> TileView {
    match (v.stage, e) {
        (Stage::Checking, TileEvent::Verdict(AccessMode::Granted)) => TileView {
            stage: Stage::Locating,
            ..v
        },
        (Stage::Checking, TileEvent::Verdict(AccessMode::Denied)) => TileView {
            stage: Stage::Refused(Status::Forbidden),
            ..v
        },
        (Stage::Locating, TileEvent::Meta(Some(meta))) => if meta.is_dir() {
            TileView { path: default_file_in(v.path), stage: Stage::LocatingDefault, ..v }
        } else {
            TileView { stage: Stage::Opening(meta), ..v }
        },
        (Stage::LocatingDefault, TileEvent::Meta(Some(meta))) => TileView {
            stage: Stage::Opening(meta),
            ..v
        },
        (Stage::Locating, TileEvent::Meta(None)) => TileView {
            stage: Stage::Refused(Status::NotFound),
            ..v
        },
        (Stage::LocatingDefault, TileEvent::Meta(None)) => TileView {
            stage: Stage::Refused(Status::NotFound),
            ..v
        },
        (Stage::Opening(meta), TileEvent::Opened(Some(cached))) => TileView {
            stage: Stage::Served(meta, cached),
            ..v
        },
        (Stage::Opening(_), TileEvent::Opened(None)) => TileView {
            stage: Stage::Refused(Status::NotFound),
            ..v
        },
        _ => v,
    }
}

/// One request for a file of a model.
pub struct TileRequest {
    key: AccessKey,
    path: String,
    max_age: u32,
    stage: Stage,
}

impl View for TileRequest {
    type V = TileView;

    closed spec fn view(&self) -> TileView {
        TileView { key: self.key@, path: self.path@, max_age: self.max_age, stage: self.stage }
    }
}

impl TileRequest {
    /// The request for the file `tail` of the model `name` of `object`,
    /// whose files lie under `root`, made with the session `session`.
    pub fn start(
        root: &str,
        object: &str,
        name: &str,
        tail: &str,
        session: SessionId,
        max_age: u32,
    ) -> (r: Self)
        ensures
            r@ == started(root@, object@, name@, tail@, session@, max_age),
    {
        let mut path = root.to_owned();
        join(&mut path, object);
        join(&mut path, name);
        join(&mut path, tail);
        let key = AccessKey::new(Some(object), Some(name), session);
        TileRequest { key, path, max_age, stage: Stage::Checking }
    }

    /// How far the request has come.
    pub fn stage(&self) -> (stage: Stage)
        ensures
            stage == self@.stage,
    {
        self.stage
    }

    /// Whether the pending action is the answer.
    pub fn is_done(&self) -> (done: bool)
        ensures
            done <==> self@.stage is Served || self@.stage is Refused,
    {
        match self.stage {
            Stage::Served(_, _) => true,
            Stage::Refused(_) => true,
            _ => false,
        }
    }

    /// What the driver has to do next.
    pub fn action(&self) -> (a: TileAction)
        ensures
            a@ == pending(self@),
    {
        match self.stage {
            Stage::Checking => TileAction::Check(self.key.clone()),
            Stage::Locating => TileAction::Stat(self.path.clone()),
            Stage::LocatingDefault => TileAction::Stat(self.path.clone()),
            Stage::Opening(meta) => TileAction::Open(self.path.clone(), meta),
            Stage::Served(meta, cached) => {
                let key = StatKey { model: self.key.model().clone() };
                let metrics = Metrics {
                    hits: 1,
                    cached: if cached {
                        1
                    } else {
                        0
                    },
                    bytes: meta.len(),
                };
                TileAction::Serve { record: Record::new(key, metrics), max_age: self.max_age }
            },
            Stage::Refused(status) => TileAction::Refuse(status),
        }
    }

    /// Takes the outcome of the pending action.
    pub fn advance(&mut self, event: TileEvent)
        ensures
            final(self)@ == advanced(old(self)@, event),
    {
        match (self.stage, event) {
            (Stage::Checking, TileEvent::Verdict(AccessMode::Granted)) => {
                self.stage = Stage::Locating;
            },
            (Stage::Checking, TileEvent::Verdict(AccessMode::Denied)) => {
                self.stage = Stage::Refused(Status::Forbidden);
            },
            (Stage::Locating, TileEvent::Meta(Some(meta))) => {
                if meta.is_dir() {
                    join(&mut self.path, DEFAULT_FILE);
                    self.stage = Stage::LocatingDefault;
                } else {
                    self.stage = Stage::Opening(meta);
                }
            },
            (Stage::LocatingDefault, TileEvent::Meta(Some(meta))) => {
                self.stage = Stage::Opening(meta);
            },
            (Stage::Locating, TileEvent::Meta(None)) => {
                self.stage = Stage::Refused(Status::NotFound);
            },
            (Stage::LocatingDefault, TileEvent::Meta(None)) => {
                self.stage = Stage::Refused(Status::NotFound);
            },
            (Stage::Opening(meta), TileEvent::Opened(Some(cached))) => {
                self.stage = Stage::Served(meta, cached);
            },
            (Stage::Opening(_), TileEvent::Opened(None)) => {
                self.stage = Stage::Refused(Status::NotFound);
            },
            _ => {},
        }
    }
}

/// The request after the events `events`, first to last.
pub open spec fn run(v: TileView, events: Seq<TileEvent>) -> TileView
    decreases events.len(),
{
    if events.len() == 0 {
        v
    } else {
        advanced(run(v, events.drop_last()), events.last())
    }
}

/// The first verdict among `events`.
pub open spec fn first_verdict(events: Seq<TileEvent>) -> Option<AccessMode>
    decreases events.len(),
{
    if events.len() == 0 {
        None
    } else {
        match events.first() {
            TileEvent::Verdict(mode) => Some(mode),
            _ => first_verdict(events.drop_first()),
        }
    }
}

/// Whether the request is answered.
pub open spec fn answered(v: TileView) -> bool {
    v.stage is Served || v.stage is Refused
}

/// An answer stands: no later event changes an answered request.
pub proof fn lemma_answer_is_final(v: TileView, events: Seq<TileEvent>)
    requires
        answered(v),
    ensures
        run(v, events) == v,
    decreases events.len(),
{
    if events.len() > 0 {
        lemma_answer_is_final(v, events.drop_last());
    }
}

/// No event changes what is asked for or for how long an answer may be
/// kept, and until the request is answered the verdict is the only event
/// that an unchecked request takes.
proof fn lemma_run_from_checking(v: TileView, events: Seq<TileEvent>)
    requires
        v.stage is Checking,
    ensures
        first_verdict(events) is None ==> run(v, events) == v,
        first_verdict(events) == Some(AccessMode::Denied) ==> run(v, events) == (TileView {
            stage: Stage::Refused(Status::Forbidden),
            ..v
        }),
    decreases events.len(),
{
    if events.len() > 0 {
        let init = events.drop_last();
        lemma_run_from_checking(v, init);
        lemma_first_verdict_of_prefix(events);
        if first_verdict(init) == Some(AccessMode::Denied) {
            lemma_answer_is_final(
                TileView { stage: Stage::Refused(Status::Forbidden), ..v },
                seq![events.last()],
            );
            assert(seq![events.last()].drop_last() =~= Seq::<TileEvent>::empty());
        }
    }
}

/// The first verdict of a sequence is that of the sequence without its
/// last event, if there is one there, and else what the last event holds.
proof fn lemma_first_verdict_of_prefix(events: Seq<TileEvent>)
    requires
        events.len() > 0,
    ensures
        first_verdict(events) == match first_verdict(events.drop_last()) {
            Some(mode) => Some(mode),
            None => match events.last() {
                TileEvent::Verdict(mode) => Some(mode),
                _ => None,
            },
        },
    decreases events.len(),
{
    if events.len() == 1 {
        assert(events.drop_last() =~= Seq::<TileEvent>::empty());
        assert(events.drop_first() =~= Seq::<TileEvent>::empty());
        assert(events.first() == events.last());
    } else {
        let rest = events.drop_first();
        lemma_first_verdict_of_prefix(rest);
        assert(rest.drop_last() =~= events.drop_last().drop_first());
        assert(rest.last() == events.last());
        assert(events.drop_last().first() == events.first());
    }
}

/// Nothing is served without a grant: a request is served only if the first
/// verdict that its driver reported was `Granted`.
pub proof fn lemma_served_only_if_granted(
    root: Seq<char>,
    object: Seq<char>,
    name: Seq<char>,
    tail: Seq<char>,
    session: Option<Seq<char>>,
    max_age: u32,
    events: Seq<TileEvent>,
)
    ensures
        run(started(root, object, name, tail, session, max_age), events).stage is Served
            ==> first_verdict(events) == Some(AccessMode::Granted),
        first_verdict(events) == Some(AccessMode::Denied) ==> pending(
            run(started(root, object, name, tail, session, max_age), events),
        ) == TileActionView::Refuse(Status::Forbidden),
{
    lemma_run_from_checking(started(root, object, name, tail, session, max_age), events);
}

/// The number of answers of its driver that a request still needs at most.
pub open spec fn steps_left(stage: Stage) -> nat {
    match stage {
        Stage::Checking => 4,
        Stage::Locating => 3,
        Stage::LocatingDefault => 2,
        Stage::Opening(_) => 1,
        Stage::Served(_, _) => 0,
        Stage::Refused(_) => 0,
    }
}

/// Every event that changes a request brings it nearer to its answer, so a
/// driver whose events answer the pending actions is done after four of
/// them at most.
pub proof fn lemma_every_change_is_progress(v: TileView, e: TileEvent)
    ensures
        advanced(v, e) != v ==> steps_left(advanced(v, e).stage) < steps_left(v.stage),
        answered(v) <==> steps_left(v.stage) == 0,
{
}

/// A request asks for the same key and keeps the same time to live from its
/// start to its answer, and what it counts in the end it counts for the
/// model of that key: one hit, and the length of the file that was opened.
pub proof fn lemma_request_counts_what_it_asked_for(v: TileView, events: Seq<TileEvent>)
    ensures
        run(v, events).key == v.key,
        run(v, events).max_age == v.max_age,
        pending(run(v, events)) matches TileActionView::Serve { record, max_age } ==> {
            &&& record.key == v.key.model
            &&& record.metrics.hits == 1
            &&& record.metrics.cached <= 1
            &&& max_age == v.max_age
        },
    decreases events.len(),
{
    if events.len() > 0 {
        lemma_request_counts_what_it_asked_for(v, events.drop_last());
    }
}

/// A directory is served by its default file: after a grant and the
/// metadata of a directory, the next path to examine is that of
/// `tileset.json` in it; and if that cannot be had the answer is 404.
pub proof fn lemma_directory_is_served_by_default_file(v: TileView, dir: Meta)
    requires
        v.stage is Locating,
        dir.is_dir(),
    ensures
        pending(advanced(v, TileEvent::Meta(Some(dir)))) == TileActionView::Stat(
            default_file_in(v.path),
        ),
        pending(advanced(advanced(v, TileEvent::Meta(Some(dir))), TileEvent::Meta(None)))
            == TileActionView::Refuse(Status::NotFound),
{
}

/// A file that cannot be examined or opened is answered with 404, and
/// nothing is counted for it.
pub proof fn lemma_missing_file_is_not_found(v: TileView)
    ensures
        v.stage is Locating || v.stage is LocatingDefault ==> pending(
            advanced(v, TileEvent::Meta(None)),
        ) == TileActionView::Refuse(Status::NotFound),
        v.stage is Opening ==> pending(advanced(v, TileEvent::Opened(None)))
            == TileActionView::Refuse(Status::NotFound),
{
}

} // verus!
