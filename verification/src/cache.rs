//! Body cache: file contents kept in memory, weighed by their size, and
//! the queue of paths waiting to be loaded.

use crate::meta::Meta;
use crate::model::{copied, text};
use crate::path::{extension, extension_of_path};
use vstd::prelude::*;

verus! {

/// Number of paths that may wait for the loader.
pub const LOAD_QUEUE_CAPACITY: usize = 500;

/// Bytes in one unit of the configured cache size.
pub const BYTES_PER_MB: u64 = 1_048_576;

/// Heaviest weight one entry can have.
pub const MAX_ENTRY_WEIGHT: u32 = 0xffff_ffff;

/// Content type of a body whose extension is not known.
pub const BINARY_MIME: &'static str = "application/octet-stream";

/// Value of the `Cache-Status` header of a body served from memory.
pub const CACHE_STATUS_HIT: &'static str = "rtiles; hit";

/// `bytes::Bytes`, a shared buffer of bytes that never changes. What it
/// holds is known by [`bytes_of`] alone.
#[verifier::external_type_specification]
#[verifier::external_body]
pub struct ExBytes(bytes::Bytes);

/// `moka::dash::Cache`, a concurrent store that drops entries on its own.
/// Nothing is known of what it holds.
#[verifier::external_type_specification]
#[verifier::external_body]
#[verifier::reject_recursive_types(K)]
#[verifier::reject_recursive_types(V)]
#[verifier::reject_recursive_types(S)]
pub struct ExStore<K, V, S>(moka::dash::Cache<K, V, S>);

/// `tokio::sync::mpsc::Sender`, the writing end of a bounded queue.
/// Nothing is known of what the queue holds.
#[verifier::external_type_specification]
#[verifier::external_body]
#[verifier::reject_recursive_types(T)]
pub struct ExSender<T>(tokio::sync::mpsc::Sender<T>);

/// `tokio::sync::mpsc::Receiver`, the reading end of a bounded queue. It is
/// only handed on.
#[verifier::external_type_specification]
#[verifier::external_body]
#[verifier::reject_recursive_types(T)]
pub struct ExReceiver<T>(tokio::sync::mpsc::Receiver<T>);

/// The bytes that a buffer holds.
pub uninterp spec fn bytes_of(b: bytes::Bytes) -> Seq<u8>;

/// `Bytes::from(Vec<u8>)`: the buffer holds the bytes of the vector, in
/// their order.
#[verifier::external_body]
fn freeze(buf: Vec<u8>) -> (b: bytes::Bytes)
    ensures
        bytes_of(b) == buf@,
{
    bytes::Bytes::from(buf)
}

/// `Bytes::clone`: a second handle on the same bytes.
pub assume_specification[ <bytes::Bytes as Clone>::clone ](b: &bytes::Bytes) -> (c: bytes::Bytes)
    ensures
        bytes_of(c) == bytes_of(*b),
;

/// `Bytes::to_vec`, through the slice the buffer derefs to: a vector of the
/// same bytes.
#[verifier::external_body]
fn thaw(b: &bytes::Bytes) -> (v: Vec<u8>)
    ensures
        v@ == bytes_of(*b),
{
    b.to_vec()
}

/// File cache configuration.
#[derive(Debug, Clone, Copy, PartialEq, Eq, Structural)]
pub struct FileCacheConfig {
    /// Cache size limit in megabytes.
    pub size: u64,
}

impl Default for FileCacheConfig {
    fn default() -> (c: Self)
        ensures
            c.size == 500,
    {
        FileCacheConfig { size: 500 }
    }
}

/// The byte cap of a cache of `size_mb` megabytes. A cap that an unsigned
/// 64-bit number cannot hold is cut to the largest such number, which no
/// file length exceeds.
pub open spec fn byte_cap(size_mb: u64) -> u64 {
    if size_mb * BYTES_PER_MB > u64::MAX {
        u64::MAX
    } else {
        (size_mb * BYTES_PER_MB) as u64
    }
}

/// A file of `len` bytes may be kept in a cache of `cap` bytes.
pub open spec fn eligible(len: u64, cap: u64) -> bool {
    len <= cap && len <= MAX_ENTRY_WEIGHT
}

/// Weight of a body of `len` bytes.
pub open spec fn weight_of(len: u64) -> u32 {
    if len > MAX_ENTRY_WEIGHT {
        MAX_ENTRY_WEIGHT
    } else {
        len as u32
    }
}

impl FileCacheConfig {
    /// The size limit in bytes.
    pub fn capacity_bytes(&self) -> (cap: u64)
        ensures
            cap == byte_cap(self.size),
    {
        match self.size.checked_mul(BYTES_PER_MB) {
            Some(cap) => cap,
            None => u64::MAX,
        }
    }
}

/// Whether a file of `len` bytes may be kept in a cache of `cap` bytes.
pub fn is_eligible(len: u64, cap: u64) -> (ok: bool)
    ensures
        ok == eligible(len, cap),
{
    len <= cap && len <= MAX_ENTRY_WEIGHT as u64
}

/// Length does not matter beyond the cap: the cut in [`byte_cap`] changes no
/// answer.
pub proof fn lemma_cap_cut_is_harmless(len: u64, size_mb: u64)
    ensures
        eligible(len, byte_cap(size_mb)) <==> (len <= size_mb * BYTES_PER_MB && len
            <= MAX_ENTRY_WEIGHT),
{
}

/// A file exactly as long as the cap is eligible where it fits the weight;
/// one byte more is not.
pub proof fn lemma_eligible_boundary(cap: u64)
    ensures
        cap <= MAX_ENTRY_WEIGHT ==> eligible(cap, cap),
        forall|len: u64| len > cap ==> !eligible(len, cap),
        forall|len: u64| len > MAX_ENTRY_WEIGHT ==> !eligible(len, cap),
{
}

/// The content type that the framework's table of media types gives for a
/// file extension, written as in a `Content-Type` header; nothing for an
/// extension that the table does not have.
pub uninterp spec fn mime_of_extension(ext: Seq<char>) -> Option<Seq<char>>;

/// `rocket::http::ContentType::from_extension`, with the content type
/// written out as a header shows it. The table is not restated here: the
/// contract claims that the answer goes by the characters of the extension
/// alone, and calls it [`mime_of_extension`].
#[verifier::external_body]
fn extension_mime(ext: &str) -> (mime: Option<String>)
    ensures
        text(mime) == mime_of_extension(ext@),
{
    rocket::http::ContentType::from_extension(ext).map(|t| t.to_string())
}

/// The content type of the file that a path names; nothing where the path
/// has no extension or the extension is not known.
pub open spec fn mime_of_path(path: Seq<char>) -> Option<Seq<char>> {
    match extension_of_path(path) {
        Some(ext) => mime_of_extension(ext),
        None => None,
    }
}

/// Content type of the file that `path` names.
pub fn mime_for_path(path: &str) -> (mime: Option<String>)
    ensures
        text(mime) == mime_of_path(path@),
{
    match extension(path) {
        Some(ext) => extension_mime(ext.as_str()),
        None => None,
    }
}

/// A body held in memory: the bytes of one file, with the metadata that the
/// file had when it was read and its content type.
pub struct Content {
    meta: Meta,
    mime_type: Option<String>,
    body: bytes::Bytes,
}

impl Clone for Content {
    fn clone(&self) -> (c: Self)
        ensures
            c.spec_meta() == self.spec_meta(),
            c.mime() == self.mime(),
            c.data() == self.data(),
    {
        proof {
            use_type_invariant(self);
        }
        Content {
            meta: self.meta,
            mime_type: copied(&self.mime_type),
            body: self.body.clone(),
        }
    }
}

impl Content {
    #[verifier::type_invariant]
    closed spec fn holds_whole_file(&self) -> bool {
        bytes_of(self.body).len() == self.meta.len()
    }

    /// Metadata of the file when it was read.
    pub closed spec fn spec_meta(&self) -> Meta {
        self.meta
    }

    /// Content type, if one is known.
    pub closed spec fn mime(&self) -> Option<Seq<char>> {
        text(self.mime_type)
    }

    /// The bytes of the body.
    pub closed spec fn data(&self) -> Seq<u8> {
        bytes_of(self.body)
    }

    /// A body of the bytes `buf`, read from a file with metadata `meta`.
    /// There is none where `buf` is not as long as the metadata says.
    pub fn new(meta: Meta, mime_type: Option<String>, buf: Vec<u8>) -> (r: Option<Content>)
        ensures
            r is Some <==> buf@.len() == meta.len(),
            r matches Some(c) ==> c.spec_meta() == meta && c.mime() == text(
                mime_type,
            ) && c.data() == buf@,
    {
        if buf.len() as u64 == meta.len() {
            Some(Content { meta, mime_type, body: freeze(buf) })
        } else {
            None
        }
    }

    /// The body of the file at `path`, whose bytes are `buf` and whose
    /// metadata is `meta`; the content type goes by the path's extension.
    pub fn from_file(path: &str, meta: Meta, buf: Vec<u8>) -> (r: Option<Content>)
        ensures
            r is Some <==> buf@.len() == meta.len(),
            r matches Some(c) ==> c.spec_meta() == meta && c.mime() == mime_of_path(path@)
                && c.data() == buf@,
    {
        Content::new(meta, mime_for_path(path), buf)
    }

    /// Metadata of the file when it was read.
    #[verifier::when_used_as_spec(spec_meta)]
    pub fn meta(&self) -> (m: Meta)
        ensures
            m == self.spec_meta(),
    {
        self.meta
    }

    /// Content type, if one is known.
    pub fn mime_type(&self) -> (m: Option<String>)
        ensures
            text(m) == self.mime(),
    {
        copied(&self.mime_type)
    }

    /// A copy of the bytes.
    pub fn to_vec(&self) -> (v: Vec<u8>)
        ensures
            v@ == self.data(),
    {
        thaw(&self.body)
    }

    /// Number of bytes in the body, which is the length of the file.
    pub fn len(&self) -> (n: u64)
        ensures
            n == self.data().len(),
            n == self.spec_meta().len(),
    {
        proof {
            use_type_invariant(self);
        }
        self.meta.len()
    }

    /// Weight of the entry in the store: its length, cut at the heaviest
    /// weight.
    pub fn weight(&self) -> (w: u32)
        ensures
            w == weight_of(self.spec_meta().len()),
    {
        let len: u64 = self.meta.len();
        if len > MAX_ENTRY_WEIGHT as u64 {
            MAX_ENTRY_WEIGHT
        } else {
            len as u32
        }
    }
}

/// Why a path did not get onto the load queue.
#[derive(Debug, Clone, Copy, PartialEq, Eq, Structural)]
pub enum EnqueueError {
    /// The queue holds as many paths as it may.
    Full,
    /// Nobody reads the queue any more.
    Closed,
}

/// The summed weight up to which a store was made to hold entries.
pub uninterp spec fn store_limit(store: moka::dash::Cache<String, Content>) -> u64;

/// The number of paths up to which a queue was made to hold them.
pub uninterp spec fn queue_limit(queue: tokio::sync::mpsc::Sender<String>) -> nat;

/// `moka::dash::CacheBuilder`, with `weigher`, `max_capacity` and `build`: a
/// store whose entries are weighed by [`Content::weight`]. The contract
/// claims that the store was made with `capacity` as the bound of their
/// summed weight, and nothing of what it holds.
#[verifier::external_body]
fn store_new(capacity: u64) -> (store: moka::dash::Cache<String, Content>)
    ensures
        store_limit(store) == capacity,
{
    moka::dash::Cache::builder()
        .weigher(|_path: &String, body: &Content| body.weight())
        .max_capacity(capacity)
        .build()
}

/// `moka::dash::Cache::get`. The store drops entries as it sees fit, so
/// nothing is claimed of the answer.
#[verifier::external_body]
fn store_get(store: &moka::dash::Cache<String, Content>, path: &String) -> Option<Content> {
    store.get(path)
}

/// `moka::dash::Cache::insert`. It fails only where the store's own writer
/// is gone, which does not happen while the store lives, and no argument
/// makes it fail. Nothing is claimed of what the store holds afterwards.
#[verifier::external_body]
fn store_insert(store: &moka::dash::Cache<String, Content>, path: String, body: Content) {
    store.insert(path, body)
}

/// `moka::dash::Cache::invalidate`. Like `insert` it fails on no argument.
/// Nothing is claimed of what the store holds afterwards.
#[verifier::external_body]
fn store_invalidate(store: &moka::dash::Cache<String, Content>, path: &String) {
    store.invalidate(path)
}

/// `tokio::sync::mpsc::channel`, which panics on a capacity of zero or one
/// above an eighth of the largest `usize`. The contract claims that the
/// queue was made to hold `capacity` paths, and nothing of what it holds.
#[verifier::external_body]
fn queue_new(capacity: usize) -> (ends: (
    tokio::sync::mpsc::Sender<String>,
    tokio::sync::mpsc::Receiver<String>,
))
    requires
        0 < capacity <= usize::MAX / 8,
    ensures
        queue_limit(ends.0) == capacity,
{
    tokio::sync::mpsc::channel(capacity)
}

/// `tokio::sync::mpsc::Sender::try_send`. Whether there is room depends on
/// the reader, so nothing is claimed of the answer.
#[verifier::external_body]
fn queue_offer(queue: &tokio::sync::mpsc::Sender<String>, path: String) -> Result<
    (),
    EnqueueError,
> {
    match queue.try_send(path) {
        Ok(()) => Ok(()),
        Err(tokio::sync::mpsc::error::TrySendError::Full(_)) => Err(EnqueueError::Full),
        Err(tokio::sync::mpsc::error::TrySendError::Closed(_)) => Err(EnqueueError::Closed),
    }
}

/// What the store's answer is worth to a caller who has just read the
/// file's metadata.
pub enum Lookup {
    /// The stored body was read from the file as it is now.
    Hit(Content),
    /// The stored body was read from an earlier state of the file.
    Stale,
    /// The store has no body for the path.
    Miss,
}

/// What became of a file that was opened on disk.
#[derive(Debug, Clone, Copy, PartialEq, Eq, Structural)]
pub enum Admission {
    /// Its path waits for the loader.
    Queued,
    /// It may be cached, but the queue did not take its path.
    Dropped(EnqueueError),
    /// It is too large to be cached.
    TooLarge,
}

/// Holds a stored body against the metadata that the caller has read.
pub open spec fn judged(cached: Option<Content>, meta: Meta) -> Lookup {
    match cached {
        Some(body) => if body.spec_meta() == meta {
            Lookup::Hit(body)
        } else {
            Lookup::Stale
        },
        None => Lookup::Miss,
    }
}

/// Holds the store's answer against fresh metadata: a body counts only if
/// its own metadata equals `meta`.
pub fn judge(cached: Option<Content>, meta: &Meta) -> (r: Lookup)
    ensures
        r == judged(cached, *meta),
{
    match cached {
        Some(body) => {
            if body.meta() == *meta {
                Lookup::Hit(body)
            } else {
                Lookup::Stale
            }
        },
        None => Lookup::Miss,
    }
}

/// A body is served from memory only under the metadata it was read with:
/// whatever the store answers, a hit carries the caller's own metadata.
pub proof fn lemma_hit_is_fresh(cached: Option<Content>, meta: Meta)
    ensures
        judged(cached, meta) matches Lookup::Hit(body) ==> body.spec_meta() == meta && cached
            == Some(body),
{
}

/// A body that was loaded under the metadata `meta` is served from memory
/// to every caller who presents `meta`, for as long as the store keeps it;
/// to a caller who presents other metadata it is stale.
pub proof fn lemma_loaded_body_is_served(body: Content, meta: Meta, other: Meta)
    requires
        body.spec_meta() == meta,
        other != meta,
    ensures
        judged(Some(body), meta) == Lookup::Hit(body),
        judged(Some(body), other) == Lookup::Stale,
{
}

/// File cache: the store of bodies and the queue of paths to load.
pub struct FileCache {
    cache: moka::dash::Cache<String, Content>,
    tx: tokio::sync::mpsc::Sender<String>,
    size: u64,
}

impl FileCache {
    /// The size limit in bytes.
    pub closed spec fn spec_size(&self) -> u64 {
        self.size
    }

    /// The summed weight up to which the store keeps bodies.
    pub closed spec fn store_limit(&self) -> u64 {
        store_limit(self.cache)
    }

    /// The number of paths that may wait for the loader.
    pub closed spec fn queue_limit(&self) -> nat {
        queue_limit(self.tx)
    }

    /// An empty cache of the configured size, and the reading end of its
    /// load queue. Whoever holds that end takes the paths off the queue one
    /// by one, asks [`FileCache::wants`], reads the file and hands it to
    /// [`FileCache::load`].
    pub fn new(config: FileCacheConfig) -> (r: (FileCache, tokio::sync::mpsc::Receiver<String>))
        ensures
            r.0.size() == byte_cap(config.size),
            r.0.store_limit() == byte_cap(config.size),
            r.0.queue_limit() == LOAD_QUEUE_CAPACITY,
    {
        let size: u64 = config.capacity_bytes();
        let cache = store_new(size);
        let (tx, rx) = queue_new(LOAD_QUEUE_CAPACITY);
        (FileCache { cache, tx, size }, rx)
    }

    /// Puts `path` on the load queue, unless the queue refuses it.
    pub fn insert(&self, path: &str) -> Result<(), EnqueueError> {
        queue_offer(&self.tx, path.to_owned())
    }

    /// The stored body for `path`, if the store has one.
    pub fn get(&self, path: &str) -> Option<Content> {
        store_get(&self.cache, &path.to_owned())
    }

    /// Drops the stored body for `path`.
    pub fn invalidate(&self, path: &str) {
        store_invalidate(&self.cache, &path.to_owned())
    }

    /// Cache size in bytes.
    #[verifier::when_used_as_spec(spec_size)]
    pub fn size(&self) -> (n: u64)
        ensures
            n == self.spec_size(),
    {
        self.size
    }

    /// The stored body for `path`, if it was read from the file as `meta`
    /// describes it. A body read from another state of the file is dropped
    /// from the store.
    pub fn lookup(&self, path: &str, meta: &Meta) -> (r: Option<Content>)
        ensures
            r matches Some(body) ==> body.spec_meta() == *meta,
    {
        match judge(self.get(path), meta) {
            Lookup::Hit(body) => Some(body),
            Lookup::Stale => {
                self.invalidate(path);
                None
            },
            Lookup::Miss => None,
        }
    }

    /// Asks for the file at `path`, `len` bytes long, to be loaded: its path
    /// goes onto the queue if the file is eligible.
    pub fn enqueue(&self, path: &str, len: u64) -> (r: Admission)
        ensures
            r is TooLarge <==> !eligible(len, self.size()),
    {
        if is_eligible(len, self.size) {
            match self.insert(path) {
                Ok(()) => Admission::Queued,
                Err(e) => Admission::Dropped(e),
            }
        } else {
            Admission::TooLarge
        }
    }

    /// Whether the loader has to read `path`: not while the store has a body
    /// for it.
    pub fn wants(&self, path: &str) -> bool {
        self.get(path).is_none()
    }

    /// Stores the bytes `buf` read from the file at `path` with metadata
    /// `meta`. Nothing is stored where `buf` is not as long as `meta` says.
    pub fn load(&self, path: &str, meta: Meta, buf: Vec<u8>) -> (stored: bool)
        ensures
            stored <==> buf@.len() == meta.len(),
    {
        match Content::from_file(path, meta, buf) {
            Some(body) => {
                store_insert(&self.cache, path.to_owned(), body);
                true
            },
            None => false,
        }
    }
}

/// A file to serve: an open file on disk with the metadata it was opened
/// under, or a body from memory. `F` is the handle of the open file.
pub enum CachedNamedFile<F> {
    File(F, Meta),
    Cached(Box<Content>),
}

impl<F> CachedNamedFile<F> {
    /// Metadata of what is served.
    pub open spec fn spec_meta(&self) -> Meta {
        match self {
            CachedNamedFile::File(_, m) => *m,
            CachedNamedFile::Cached(c) => c.spec_meta(),
        }
    }

    /// Content type of the answer: that of the body or, for a file on disk,
    /// that of the path's extension, and the binary type where none is known.
    pub open spec fn spec_content_type(&self, path: Seq<char>) -> Seq<char> {
        let known = match self {
            CachedNamedFile::File(_, _) => mime_of_path(path),
            CachedNamedFile::Cached(c) => c.mime(),
        };
        match known {
            Some(mime) => mime,
            None => BINARY_MIME@,
        }
    }

    /// The file `file`, opened on disk, with metadata `meta`.
    pub fn open(file: F, meta: Meta) -> (r: Self)
        ensures
            r == CachedNamedFile::File(file, meta),
    {
        CachedNamedFile::File(file, meta)
    }

    /// First half of serving `path`: the body from memory, if the store
    /// has one that was read from the file as `meta` describes it. Where
    /// there is none the caller opens the file and goes on with
    /// [`CachedNamedFile::from_disk`].
    pub fn from_cache(path: &str, meta: &Meta, cache: &FileCache) -> (r: Option<Self>)
        ensures
            r matches Some(f) ==> f.is_cached() && f.spec_meta() == *meta,
    {
        match cache.lookup(path, meta) {
            Some(body) => Some(CachedNamedFile::Cached(Box::new(body))),
            None => None,
        }
    }

    /// Second half of serving `path`: the file was opened on disk. Its path
    /// is queued for loading if the file is eligible; the answer is the open
    /// file under `meta` either way.
    pub fn from_disk(file: F, path: &str, meta: &Meta, cache: &FileCache) -> (r: (Self, Admission))
        ensures
            r.0 == CachedNamedFile::File(file, *meta),
            r.1 is TooLarge <==> !eligible(meta.len(), cache.size()),
    {
        let f = Self::open(file, *meta);
        let admission = cache.enqueue(path, f.meta().len());
        (f, admission)
    }

    /// Content metadata.
    pub fn meta(&self) -> (m: &Meta)
        ensures
            *m == self.spec_meta(),
    {
        match self {
            CachedNamedFile::File(_, m) => m,
            CachedNamedFile::Cached(c) => &c.meta,
        }
    }

    /// Content length.
    pub fn len(&self) -> (n: u64)
        ensures
            n == self.spec_meta().len(),
    {
        self.meta().len()
    }

    /// Does the content come from the memory cache?
    #[verifier::when_used_as_spec(spec_is_cached)]
    pub fn is_cached(&self) -> (b: bool)
        ensures
            b == self.spec_is_cached(),
    {
        match self {
            CachedNamedFile::File(..) => false,
            CachedNamedFile::Cached(_) => true,
        }
    }

    /// The content comes from memory.
    pub open spec fn spec_is_cached(&self) -> bool {
        self is Cached
    }

    /// Value of the `Content-Type` header of the answer, for the file at
    /// `path`.
    pub fn content_type(&self, path: &str) -> (mime: String)
        ensures
            mime@ == self.spec_content_type(path@),
    {
        let known = match self {
            CachedNamedFile::File(_, _) => mime_for_path(path),
            CachedNamedFile::Cached(c) => c.mime_type(),
        };
        match known {
            Some(mime) => mime,
            None => BINARY_MIME.to_owned(),
        }
    }

    /// Value of the `Cache-Status` header of the answer: set only for a
    /// body from memory.
    pub fn cache_status(&self) -> (status: Option<&'static str>)
        ensures
            status is Some <==> self.is_cached(),
            status matches Some(s) ==> s@ == CACHE_STATUS_HIT@,
    {
        if self.is_cached() {
            Some(CACHE_STATUS_HIT)
        } else {
            None
        }
    }

    /// Length of the body where the answer is sized; a file on disk is
    /// streamed.
    pub fn sized(&self) -> (n: Option<u64>)
        ensures
            n == if self.is_cached() {
                Some(self.spec_meta().len())
            } else {
                None::<u64>
            },
    {
        match self {
            CachedNamedFile::File(..) => None,
            CachedNamedFile::Cached(c) => Some(c.len()),
        }
    }

    /// The bytes of a body from memory.
    pub fn body(&self) -> (b: Option<Vec<u8>>)
        ensures
            b is Some <==> self.is_cached(),
            b matches Some(v) ==> self matches CachedNamedFile::Cached(c) && v@ == c.data(),
    {
        match self {
            CachedNamedFile::File(..) => None,
            CachedNamedFile::Cached(c) => Some(c.to_vec()),
        }
    }
}

} // verus!
