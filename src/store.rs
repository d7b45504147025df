//! The store: an open sled database, its point operations, atomic batch
//! application and paginated range scans.
use vstd::prelude::*;
use vstd::string::StringSliceAdditionalSpecFns;
use vstd::utf8::{decode_utf8, encode_utf8, valid_utf8};
use crate::batch::WriteBatch;
use crate::model::{
    apply_writes, encode_pairs, is_listing, is_range_page, lemma_listing_prefix_is_page,
    range_is_empty,
};

verus! {

#[verifier::external_type_specification]
#[verifier::external_body]
pub struct ExSledDb(sled::Db);

#[verifier::external_type_specification]
#[verifier::external_body]
pub struct ExSledError(sled::Error);

/// The key-value pairs held by a sled database.
pub uninterp spec fn db_contents(d: sled::Db) -> Map<Seq<u8>, Seq<u8>>;

/// Relies on `sled::Config::open`, with the given path, cache capacity,
/// flush interval and snapshot threshold. What the database holds depends on
/// the disk, so nothing is said of it.
#[verifier::external_body]
#[allow(deprecated)]
fn sled_open(path: &str, cache_capacity: u64, flush_every_ms: Option<u64>, snapshot_after_ops: u64)
    -> (r: Result<sled::Db, sled::Error>)
{
    sled::Config::default()
        .path(path)
        .cache_capacity(cache_capacity)
        .flush_every_ms(flush_every_ms)
        .snapshot_after_ops(snapshot_after_ops)
        .open()
}

/// Relies on `sled::Tree::insert`: on success the key maps to the value.
#[verifier::external_body]
fn sled_insert(db: &mut sled::Db, k: &[u8], v: &[u8]) -> (r: Result<(), sled::Error>)
    ensures
        r is Ok ==> db_contents(*final(db)) == db_contents(*old(db)).insert(k@, v@),
{
    db.insert(k, v).map(|_| ())
}

/// Relies on `sled::Tree::get`: on success, the value stored under the key,
/// or `None` where there is none.
#[verifier::external_body]
fn sled_get(db: &sled::Db, k: &[u8]) -> (r: Result<Option<Vec<u8>>, sled::Error>)
    ensures
        r is Ok && r->Ok_0 is Some ==> db_contents(*db).contains_key(k@) && db_contents(*db)[k@]
            == r->Ok_0->Some_0@,
        (r is Ok && r->Ok_0 is None) ==> !db_contents(*db).contains_key(k@),
{
    db.get(k).map(|o| o.map(|v| v.to_vec()))
}

/// Relies on `sled::Tree::apply_batch`: on success every staged write has
/// taken effect, all at once.
#[verifier::external_body]
fn sled_apply_batch(db: &mut sled::Db, b: &sled::Batch) -> (r: Result<(), sled::Error>)
    ensures
        r is Ok ==> db_contents(*final(db)) == apply_writes(
            db_contents(*old(db)),
            crate::batch::batch_writes(*b),
        ),
{
    db.apply_batch(b.clone())
}

/// Relies on `sled::Tree::flush`, which persists what the database holds
/// and does not change it.
#[verifier::external_body]
fn sled_flush(db: &sled::Db) -> (r: Result<usize, sled::Error>) {
    db.flush()
}

#[verifier::external_type_specification]
#[verifier::external_body]
pub struct ExSledIter(sled::Iter);

#[verifier::external_type_specification]
#[verifier::external_body]
pub struct ExSledIVec(sled::IVec);

/// The entries that a sled range iterator has yet to yield, in order.
pub uninterp spec fn iter_remaining(it: sled::Iter) -> Seq<(Seq<u8>, Seq<u8>)>;

/// Relies on `sled::Tree::range` over `[lo, hi)`: the iterator yields every
/// entry of that interval, in ascending key order.
#[verifier::external_body]
fn sled_range(db: &sled::Db, lo: &[u8], hi: &[u8]) -> (r: sled::Iter)
    ensures
        is_listing(db_contents(*db), lo@, hi@, iter_remaining(r)),
{
    db.range::<&[u8], std::ops::Range<&[u8]>>(lo..hi)
}

/// Relies on `Iterator::next` of `sled::Iter`: `None` once nothing is left;
/// on success the next entry, which is then no longer left.
#[verifier::external_body]
fn sled_iter_next(it: &mut sled::Iter) -> (r: Option<Result<(Vec<u8>, Vec<u8>), sled::Error>>)
    ensures
        r is None ==> iter_remaining(*old(it)).len() == 0,
        r is Some && r->Some_0 is Ok ==> iter_remaining(*old(it)).len() > 0 && iter_remaining(
            *old(it),
        )[0] == (r->Some_0->Ok_0.0@, r->Some_0->Ok_0.1@) && iter_remaining(*final(it))
            == iter_remaining(*old(it)).drop_first(),
{
    it.next().map(|e| e.map(|(k, v)| (k.to_vec(), v.to_vec())))
}

/// Relies on `String::from_utf8`: the text that the bytes encode, or `None`
/// where they are not valid UTF-8.
#[verifier::external_body]
fn text_from_bytes(b: &[u8]) -> (r: Option<String>)
    ensures
        r is Some <==> valid_utf8(b@),
        r is Some ==> r->Some_0@ == decode_utf8(b@),
{
    String::from_utf8(b.to_vec()).ok()
}

/// Decodes stored bytes as text, proving that the text encodes them back.
fn decode_text(b: &[u8]) -> (r: Option<String>)
    ensures
        r is Some <==> valid_utf8(b@),
        r is Some ==> encode_utf8(r->Some_0@) == b@,
{
    let r = text_from_bytes(b);
    if r.is_some() {
        proof {
            vstd::utf8::decode_utf8_encode_utf8(b@);
        }
    }
    r
}

/// Why an operation on a store failed.
#[derive(Debug, Clone, Copy, PartialEq, Eq, Structural)]
pub enum StoreError {
    /// The path could not be opened as a store.
    Open,
    /// The storage failed while reading.
    Read,
    /// The storage failed while writing or flushing.
    Write,
    /// Stored bytes are not valid text.
    Decode,
}

/// The cache capacity a store is opened with unless told otherwise, in bytes.
pub const DEFAULT_CACHE_CAPACITY: u64 = 10_000_000_000;

/// The interval of the background flush unless told otherwise, in
/// milliseconds.
pub const DEFAULT_FLUSH_EVERY_MS: u64 = 1000;

/// The number of operations after which a snapshot is taken unless told
/// otherwise.
pub const DEFAULT_SNAPSHOT_AFTER_OPS: u64 = 100_000;

/// How a store is opened.
pub struct Config {
    pub path: String,
    pub cache_capacity: u64,
    /// `None` turns the background flush off.
    pub flush_every_ms: Option<u64>,
    pub snapshot_after_ops: u64,
}

impl Config {
    /// The default configuration for a store rooted at `path`.
    pub fn new(path: &str) -> (r: Config)
        ensures
            r.path@ == path@,
            r.cache_capacity == DEFAULT_CACHE_CAPACITY,
            r.flush_every_ms == Some(DEFAULT_FLUSH_EVERY_MS),
            r.snapshot_after_ops == DEFAULT_SNAPSHOT_AFTER_OPS,
    {
        Config {
            path: path.to_owned(),
            cache_capacity: DEFAULT_CACHE_CAPACITY,
            flush_every_ms: Some(DEFAULT_FLUSH_EVERY_MS),
            snapshot_after_ops: DEFAULT_SNAPSHOT_AFTER_OPS,
        }
    }
}

/// One page of a range scan: its entries in ascending key order, and the
/// key of the last of them, from which the next page is asked for.
pub struct Page {
    pub last_key: String,
    pub entries: Vec<(String, String)>,
}

/// An open store. Its view is what it holds, keys and values as bytes.
pub struct Store {
    db: sled::Db,
}

impl View for Store {
    type V = Map<Seq<u8>, Seq<u8>>;

    closed spec fn view(&self) -> Map<Seq<u8>, Seq<u8>> {
        db_contents(self.db)
    }
}

impl Store {
    /// Opens the store at `config.path`, resuming what is stored there or
    /// starting empty.
    pub fn open(config: &Config) -> (r: Result<Store, StoreError>)
        ensures
            r is Err ==> r->Err_0 == StoreError::Open,
    {
        match sled_open(
            config.path.as_str(),
            config.cache_capacity,
            config.flush_every_ms,
            config.snapshot_after_ops,
        ) {
            Ok(db) => Ok(Store { db }),
            Err(_) => Err(StoreError::Open),
        }
    }

    /// Sets `key` to `value`, replacing any value it had.
    pub fn insert(&mut self, key: &str, value: &str) -> (r: Result<(), StoreError>)
        ensures
            r is Ok ==> final(self)@ == old(self)@.insert(key.spec_bytes(), value.spec_bytes()),
            r is Err ==> r->Err_0 == StoreError::Write,
    {
        match sled_insert(&mut self.db, key.as_bytes(), value.as_bytes()) {
            Ok(()) => Ok(()),
            Err(_) => Err(StoreError::Write),
        }
    }

    /// The value stored under `key`, or `None` where there is none; an empty
    /// value is `Some` of the empty text.
    pub fn get(&self, key: &str) -> (r: Result<Option<String>, StoreError>)
        ensures
            r is Ok && r->Ok_0 is Some ==> self@.contains_key(key.spec_bytes()) && encode_utf8(r->Ok_0->Some_0@)
                == self@[key.spec_bytes()],
            (r is Ok && r->Ok_0 is None) ==> !self@.contains_key(key.spec_bytes()),
            r is Err ==> r->Err_0 == StoreError::Read || (r->Err_0 == StoreError::Decode
                && self@.contains_key(key.spec_bytes()) && !valid_utf8(self@[key.spec_bytes()])),
            self@.contains_key(key.spec_bytes()) && !valid_utf8(self@[key.spec_bytes()]) ==> r is Err,
    {
        match sled_get(&self.db, key.as_bytes()) {
            Ok(Some(bytes)) => match decode_text(bytes.as_slice()) {
                Some(text) => Ok(Some(text)),
                None => Err(StoreError::Decode),
            },
            Ok(None) => Ok(None),
            Err(_) => Err(StoreError::Read),
        }
    }

    /// Applies every write staged in `batch`, all at once. The batch is left
    /// as it is.
    pub fn apply_batch(&mut self, batch: &WriteBatch) -> (r: Result<(), StoreError>)
        ensures
            r is Ok ==> final(self)@ == apply_writes(old(self)@, batch@),
            r is Err ==> r->Err_0 == StoreError::Write,
    {
        match sled_apply_batch(&mut self.db, &batch.ops) {
            Ok(()) => Ok(()),
            Err(_) => Err(StoreError::Write),
        }
    }

    /// Persists what the store holds.
    pub fn flush(&self) -> (r: Result<(), StoreError>)
        ensures
            r is Err ==> r->Err_0 == StoreError::Write,
    {
        match sled_flush(&self.db) {
            Ok(_) => Ok(()),
            Err(_) => Err(StoreError::Write),
        }
    }

    /// The first page of at most `limit` entries with keys in `[min, max)`,
    /// or `None` where there are none or `limit` is zero. The lower bound is
    /// inclusive and the upper bound exclusive; the next page is asked for
    /// with the page's last key followed by a zero byte as its lower bound.
    pub fn range(&self, min: &str, max: &str, limit: usize) -> (r: Result<Option<Page>, StoreError>)
        ensures
            limit == 0 ==> (r is Ok && r->Ok_0 is None),
            (r is Ok && r->Ok_0 is None) ==> limit == 0 || range_is_empty(
                self@,
                min.spec_bytes(),
                max.spec_bytes(),
            ),
            r is Ok && r->Ok_0 is Some ==> {
                &&& is_range_page(
                    self@,
                    min.spec_bytes(),
                    max.spec_bytes(),
                    limit as nat,
                    encode_pairs(r->Ok_0->Some_0.entries@),
                )
                &&& r->Ok_0->Some_0.entries@.len() > 0
                &&& r->Ok_0->Some_0.last_key@ == r->Ok_0->Some_0.entries@.last().0@
            },
            r is Err ==> r->Err_0 == StoreError::Read || (r->Err_0 == StoreError::Decode && exists|
                s: Seq<(Seq<u8>, Seq<u8>)>,
                i: int,
            |
                {
                    &&& is_range_page(self@, min.spec_bytes(), max.spec_bytes(), limit as nat, s)
                    &&& 0 <= i < s.len()
                    &&& !(valid_utf8(#[trigger] s[i].0) && valid_utf8(s[i].1))
                }),
    {
        if limit == 0 {
            return Ok(None);
        }
        let mut it = sled_range(&self.db, min.as_bytes(), max.as_bytes());
        let ghost listing = iter_remaining(it);
        let ghost lo = min.spec_bytes();
        let ghost hi = max.spec_bytes();
        let mut entries: Vec<(String, String)> = Vec::new();
        while entries.len() < limit
            invariant
                limit > 0,
                lo == min.spec_bytes(),
                hi == max.spec_bytes(),
                is_listing(self@, lo, hi, listing),
                entries@.len() <= limit,
                entries@.len() <= listing.len(),
                iter_remaining(it) == listing.skip(entries@.len() as int),
                encode_pairs(entries@) == listing.take(entries@.len() as int),
            decreases limit - entries@.len(),
        {
            let n: usize = entries.len();
            match sled_iter_next(&mut it) {
                None => {
                    proof {
                        assert(listing.skip(n as int).len() == listing.len() - n);
                        assert(n == listing.len());
                        lemma_listing_prefix_is_page(self@, lo, hi, limit as nat, listing, n as nat);
                    }
                    return Ok(page_of(entries));
                },
                Some(Err(_)) => {
                    return Err(StoreError::Read);
                },
                Some(Ok((k, v))) => {
                    let dk = decode_text(k.as_slice());
                    let dv = decode_text(v.as_slice());
                    if dk.is_none() || dv.is_none() {
                        proof {
                            assert(listing.skip(n as int)[0] == listing[n as int]);
                            let full = if listing.len() < limit { listing.len() } else { limit as nat };
                            lemma_listing_prefix_is_page(self@, lo, hi, limit as nat, listing, full);
                            let page = listing.take(full as int);
                            assert(page[n as int] == listing[n as int]);
                            assert(!(valid_utf8(page[n as int].0) && valid_utf8(page[n as int].1)));
                            assert(exists|s: Seq<(Seq<u8>, Seq<u8>)>, i: int|
                                {
                                    &&& is_range_page(self@, min.spec_bytes(), max.spec_bytes(), limit as nat, s)
                                    &&& 0 <= i < s.len()
                                    &&& !(valid_utf8(#[trigger] s[i].0) && valid_utf8(s[i].1))
                                }) by {
                                assert(is_range_page(self@, min.spec_bytes(), max.spec_bytes(), limit as nat, page)
                                    && 0 <= n < page.len());
                            }
                        }
                        return Err(StoreError::Decode);
                    }
                    let ghost before = entries@;
                    entries.push((dk.unwrap(), dv.unwrap()));
                    proof {
                        assert(encode_pairs(entries@) =~= listing.take(entries@.len() as int)) by {
                            assert(encode_pairs(entries@).drop_last() =~= encode_pairs(before));
                        }
                        assert(listing.skip(n as int).drop_first() =~= listing.skip(n as int + 1));
                    }
                },
            }
        }
        proof {
            lemma_listing_prefix_is_page(self@, lo, hi, limit as nat, listing, entries@.len() as nat);
        }
        Ok(page_of(entries))
    }
}

/// The page that a scan's entries make: `None` where there are none,
/// otherwise the entries with the key of the last of them.
pub fn page_of(entries: Vec<(String, String)>) -> (r: Option<Page>)
    ensures
        entries@.len() == 0 <==> r is None,
        r is Some ==> r->Some_0.entries@ == entries@ && r->Some_0.last_key@ == entries@.last().0@,
{
    if entries.len() == 0 {
        return None;
    }
    let last_key = entries[entries.len() - 1].0.clone();
    Some(Page { last_key, entries })
}

} // verus!
