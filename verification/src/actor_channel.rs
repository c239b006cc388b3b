use vstd::prelude::*;
use vstd::utf8::encode_utf8;
use crate::channels::{Category, ChannelInfo, category_tag};
use crate::crypto::{sha256, sha256_of};
use crate::daily_channel::DailyChannel;
use crate::errors::ChannelError;
use crate::text::{ascii_lower, to_lowercase};
use crate::utils::{
    date_string_chars, date_of_timestamp, midnight_timestamp, representable_midnight, valid_date,
    validate_date, date_to_timestamp, timestamp_to_date_string, truncate_to_midnight,
};

verus! {

/// A published directory entry describing one daily channel of an actor:
/// its address, the owning category's wire tag, the actor id in lower case,
/// and the creation timestamp truncated to midnight of its calendar day.
#[derive(Debug)]
pub struct DailyChannelMsg {
    address: ChannelInfo,
    category: String,
    actor_id: String,
    creation_timestamp: i64,
}

impl DailyChannelMsg {
    /// The address of the daily channel, for specifications.
    pub closed spec fn spec_address(&self) -> ChannelInfo {
        self.address
    }

    /// The category wire tag, for specifications.
    pub closed spec fn spec_category(&self) -> Seq<char> {
        self.category@
    }

    /// The actor id, for specifications.
    pub closed spec fn spec_actor_id(&self) -> Seq<char> {
        self.actor_id@
    }

    /// The creation timestamp, for specifications.
    pub closed spec fn spec_creation_timestamp(&self) -> i64 {
        self.creation_timestamp
    }

    /// A directory entry from its parts; the category is stored as its wire
    /// tag and the actor id is normalized to lower case.
    pub fn new(
        address: ChannelInfo,
        category: Category,
        actor_id: &str,
        creation_timestamp: i64,
    ) -> (r: Self)
        ensures
            r.spec_address() == address,
            r.spec_category() == category_tag(category),
            r.spec_actor_id() == ascii_lower(actor_id@),
            r.spec_creation_timestamp() == creation_timestamp,
    {
        DailyChannelMsg {
            address,
            category: category.to_string(),
            actor_id: to_lowercase(actor_id),
            creation_timestamp,
        }
    }

    pub fn address(&self) -> (r: &ChannelInfo)
        ensures
            *r == self.spec_address(),
    {
        &self.address
    }

    pub fn category(&self) -> (r: &str)
        ensures
            r@ == self.spec_category(),
    {
        self.category.as_str()
    }

    pub fn actor_id(&self) -> (r: &str)
        ensures
            r@ == self.spec_actor_id(),
    {
        self.actor_id.as_str()
    }

    pub fn creation_timestamp(&self) -> (r: i64)
        ensures
            r == self.spec_creation_timestamp(),
    {
        self.creation_timestamp
    }

    /// The "dd/mm/yyyy" rendering of the entry's calendar day.
    pub fn creation_date(&self) -> (s: String)
        ensures
            ({
                let (d, m, y) = date_of_timestamp(self.spec_creation_timestamp() as int);
                s@ == date_string_chars(d, m, y)
            }),
    {
        timestamp_to_date_string(self.creation_timestamp, false)
    }
}

impl Clone for DailyChannelMsg {
    /// A directory entry clones to an equal entry.
    fn clone(&self) -> (r: Self)
        ensures
            r == *self,
    {
        DailyChannelMsg {
            address: self.address.clone(),
            category: self.category.clone(),
            actor_id: self.actor_id.clone(),
            creation_timestamp: self.creation_timestamp,
        }
    }
}

/// One slot of an actor's cache of live daily channels, keyed by the day's
/// midnight timestamp and the hash of the password that opened it.
struct CacheEntry {
    date_ts: i64,
    psw_hash: Vec<u8>,
    channel: DailyChannel,
}

/// The mathematical content of a cache slot.
#[verifier::ext_equal]
pub ghost struct CacheView {
    pub date_ts: i64,
    pub psw_hash: Seq<u8>,
    pub channel: DailyChannel,
}

/// Whether a directory records an entry for a given midnight timestamp.
pub open spec fn dir_has_ts(dir: Seq<DailyChannelMsg>, ts: int) -> bool {
    exists|i: int| 0 <= i < dir.len() && dir[i].spec_creation_timestamp() as int == ts
}

/// Whether a cache holds a channel under a given day and password hash.
pub open spec fn cache_has(cache: Seq<CacheView>, ts: int, h: Seq<u8>) -> bool {
    exists|i: int|
        0 <= i < cache.len() && cache[i].date_ts as int == ts && cache[i].psw_hash == h
}

/// What looking a daily channel up must return, given an actor's directory
/// and cache, the hash of the supplied password and the requested date: an
/// impossible or unrecorded date is one merged not-found error, a cache hit
/// under the day and password hash is the cached live handle and asks for
/// no import, and a cache miss names the directory entry to import from.
pub open spec fn lookup_result_ok(
    dir: Seq<DailyChannelMsg>,
    cache: Seq<CacheView>,
    h: Seq<u8>,
    d: int,
    m: int,
    y: int,
    r: Result<DailyLookup, ChannelError>,
) -> bool {
    let ts = midnight_timestamp(d, m, y);
    let known = valid_date(d, m, y) && dir_has_ts(dir, ts);
    &&& match r {
        Err(e) => e == ChannelError::NotFound && !known,
        Ok(DailyLookup::Cached(ch)) => known && exists|i: int|
            0 <= i < cache.len() && cache[i].date_ts as int == ts && cache[i].psw_hash == h
                && cache[i].channel == ch,
        Ok(DailyLookup::NeedImport(info, ets)) => known && !cache_has(cache, ts, h) && exists|
            i: int,
        |
            0 <= i < dir.len() && dir[i].spec_creation_timestamp() as int == ts && info
                == dir[i].spec_address() && ets == dir[i].spec_creation_timestamp(),
    }
    &&& (known && cache_has(cache, ts, h)) ==> r matches Ok(DailyLookup::Cached(_))
}

/// The decision taken when a new daily channel is requested for a date: an
/// impossible date is rejected, a date the directory already records is a
/// duplicate, and otherwise the channel is to be created with the date's
/// midnight timestamp.
pub open spec fn daily_plan(dir: Seq<DailyChannelMsg>, d: int, m: int, y: int) -> Result<
    int,
    ChannelError,
> {
    if !valid_date(d, m, y) {
        Err(ChannelError::Validation)
    } else if dir_has_ts(dir, midnight_timestamp(d, m, y)) {
        Err(ChannelError::Duplicate)
    } else {
        Ok(midnight_timestamp(d, m, y))
    }
}

/// Whether a directory records at most one entry per calendar day.
pub open spec fn distinct_dates(dir: Seq<DailyChannelMsg>) -> bool {
    forall|i: int, j: int|
        0 <= i < j < dir.len() ==> #[trigger] dir[i].spec_creation_timestamp()
            != #[trigger] dir[j].spec_creation_timestamp()
}

/// Law: a directory that holds at most one entry per day keeps that shape
/// when an entry is appended for a date that the creation rule accepted:
/// the invariant of one daily channel per actor and calendar day is
/// preserved by every creation the rule lets through.
pub proof fn lemma_accepted_creation_keeps_dates_distinct(
    dir: Seq<DailyChannelMsg>,
    msg: DailyChannelMsg,
    d: int,
    m: int,
    y: int,
)
    requires
        distinct_dates(dir),
        daily_plan(dir, d, m, y) == Ok::<int, ChannelError>(
            msg.spec_creation_timestamp() as int,
        ),
    ensures
        distinct_dates(dir.push(msg)),
{
    let dir2 = dir.push(msg);
    assert forall|i: int, j: int| 0 <= i < j < dir2.len() implies #[trigger] dir2[i].spec_creation_timestamp()
        != #[trigger] dir2[j].spec_creation_timestamp() by {
        if j == dir.len() {
            assert(dir2[j] == msg);
            assert(!dir_has_ts(dir, midnight_timestamp(d, m, y)));
            assert(dir2[i] == dir[i]);
        }
    }
}

/// Law: once an entry for a date stands in an actor's directory, planning
/// another daily channel for that same date fails with a duplicate error,
/// whatever other entries the directory holds and in whatever order they
/// were added.
pub proof fn lemma_create_twice_rejected(
    dir: Seq<DailyChannelMsg>,
    msg: DailyChannelMsg,
    d: int,
    m: int,
    y: int,
)
    requires
        valid_date(d, m, y),
        msg.spec_creation_timestamp() as int == midnight_timestamp(d, m, y),
    ensures
        daily_plan(dir.push(msg), d, m, y) == Err::<int, ChannelError>(ChannelError::Duplicate),
{
    let dir2 = dir.push(msg);
    assert(dir2[dir.len() as int] == msg);
    assert(dir_has_ts(dir2, midnight_timestamp(d, m, y)));
}

/// The outcome of looking a daily channel up: a live handle already in the
/// cache, or the address and timestamp of the directory entry from which
/// the channel has to be imported.
#[derive(Debug)]
pub enum DailyLookup {
    Cached(DailyChannel),
    NeedImport(ChannelInfo, i64),
}

/// The decision of the create-or-reuse policy for a date: create a new
/// daily channel with the date's midnight timestamp, hand out the cached
/// live handle, or import the channel named by its directory entry.
#[derive(Debug)]
pub enum DailyDecision {
    Create(i64),
    Cached(DailyChannel),
    NeedImport(ChannelInfo, i64),
}

/// What the create-or-reuse policy must decide for a directory, cache,
/// password hash and date: an impossible date is rejected, an unrecorded
/// date is to be created at its midnight timestamp, and a recorded one is
/// reused exactly as the lookup rule hands it out.
pub open spec fn ensure_result_ok(
    dir: Seq<DailyChannelMsg>,
    cache: Seq<CacheView>,
    h: Seq<u8>,
    d: int,
    m: int,
    y: int,
    r: Result<DailyDecision, ChannelError>,
) -> bool {
    let ts = midnight_timestamp(d, m, y);
    match r {
        Err(e) => e == ChannelError::Validation && !valid_date(d, m, y),
        Ok(DailyDecision::Create(cts)) => valid_date(d, m, y) && !dir_has_ts(dir, ts) && cts as int
            == ts,
        Ok(DailyDecision::Cached(ch)) => valid_date(d, m, y) && lookup_result_ok(
            dir,
            cache,
            h,
            d,
            m,
            y,
            Ok(DailyLookup::Cached(ch)),
        ),
        Ok(DailyDecision::NeedImport(info, ets)) => valid_date(d, m, y) && lookup_result_ok(
            dir,
            cache,
            h,
            d,
            m,
            y,
            Ok(DailyLookup::NeedImport(info, ets)),
        ),
    }
}

/// An actor-level channel: the authoritative, append-only directory of its
/// published daily channels, and a cache of live daily-channel handles
/// keyed by calendar day and password hash. The live backend session that
/// publishes the directory is managed outside the verified core.
pub struct ActorChannel {
    category: Category,
    actor_id: String,
    info: ChannelInfo,
    daily_channels: Vec<DailyChannelMsg>,
    imported_channels: Vec<CacheEntry>,
    mainnet: bool,
}

impl ActorChannel {
    /// The category of the actor channel, for specifications.
    pub closed spec fn spec_category(&self) -> Category {
        self.category
    }

    /// The actor id, for specifications.
    pub closed spec fn spec_actor_id(&self) -> Seq<char> {
        self.actor_id@
    }

    /// The address of the actor channel, for specifications.
    pub closed spec fn spec_info(&self) -> ChannelInfo {
        self.info
    }

    /// The published directory of daily channels, for specifications.
    pub closed spec fn spec_daily_channels(&self) -> Seq<DailyChannelMsg> {
        self.daily_channels@
    }

    /// The cache of live daily channels, for specifications.
    pub closed spec fn spec_cache(&self) -> Seq<CacheView> {
        Seq::new(
            self.imported_channels@.len(),
            |i: int|
                CacheView {
                    date_ts: self.imported_channels@[i].date_ts,
                    psw_hash: self.imported_channels@[i].psw_hash@,
                    channel: self.imported_channels@[i].channel,
                },
        )
    }

    /// The network flag, for specifications.
    pub closed spec fn spec_mainnet(&self) -> bool {
        self.mainnet
    }

    /// A freshly opened actor channel with an empty directory and cache;
    /// the actor id is normalized to lower case.
    pub fn new_opened(category: Category, actor_id: &str, info: ChannelInfo, mainnet: bool) -> (r:
        Self)
        ensures
            r.spec_category() == category,
            r.spec_actor_id() == ascii_lower(actor_id@),
            r.spec_info() == info,
            r.spec_daily_channels() == Seq::<DailyChannelMsg>::empty(),
            r.spec_cache() == Seq::<CacheView>::empty(),
            r.spec_mainnet() == mainnet,
    {
        let r = ActorChannel {
            category,
            actor_id: to_lowercase(actor_id),
            info,
            daily_channels: Vec::new(),
            imported_channels: Vec::new(),
            mainnet,
        };
        proof {
            assert(r.spec_daily_channels() =~= Seq::<DailyChannelMsg>::empty());
            assert(r.spec_cache() =~= Seq::<CacheView>::empty());
        }
        r
    }

    /// An actor channel rebuilt from its published directory entries, as
    /// fetched from the backend; the cache starts empty, daily channels are
    /// imported individually on demand. Each entry's creation timestamp is
    /// truncated to 00:00:00 UTC of its calendar day, as the data model
    /// declares, so a fetched entry that carried a mid-day stamp still
    /// stands for its whole calendar day.
    pub fn from_remote(
        category: Category,
        actor_id: &str,
        info: ChannelInfo,
        daily_channels: Vec<DailyChannelMsg>,
        mainnet: bool,
    ) -> (r: Self)
        ensures
            r.spec_category() == category,
            r.spec_actor_id() == ascii_lower(actor_id@),
            r.spec_info() == info,
            r.spec_daily_channels().len() == daily_channels@.len(),
            forall|i: int|
                #![trigger r.spec_daily_channels()[i]]
                0 <= i < daily_channels@.len() ==> ({
                    let e0 = daily_channels@[i];
                    let e1 = r.spec_daily_channels()[i];
                    &&& e1.spec_address() == e0.spec_address()
                    &&& e1.spec_category() == e0.spec_category()
                    &&& e1.spec_actor_id() == e0.spec_actor_id()
                    &&& e1.spec_creation_timestamp() as int == representable_midnight(
                        e0.spec_creation_timestamp() as int,
                    )
                }),
            r.spec_cache() == Seq::<CacheView>::empty(),
            r.spec_mainnet() == mainnet,
    {
        let mut dir: Vec<DailyChannelMsg> = Vec::new();
        let n = daily_channels.len();
        let mut i: usize = 0;
        while i < n
            invariant
                i <= n,
                n == daily_channels@.len(),
                dir@.len() == i,
                forall|j: int|
                    #![trigger dir@[j]]
                    0 <= j < i ==> ({
                        let e0 = daily_channels@[j];
                        let e1 = dir@[j];
                        &&& e1.spec_address() == e0.spec_address()
                        &&& e1.spec_category() == e0.spec_category()
                        &&& e1.spec_actor_id() == e0.spec_actor_id()
                        &&& e1.spec_creation_timestamp() as int == representable_midnight(
                            e0.spec_creation_timestamp() as int,
                        )
                    }),
            decreases n - i,
        {
            let e = &daily_channels[i];
            let entry = DailyChannelMsg {
                address: e.address.clone(),
                category: e.category.clone(),
                actor_id: e.actor_id.clone(),
                creation_timestamp: truncate_to_midnight(e.creation_timestamp),
            };
            dir.push(entry);
            i = i + 1;
        }
        let r = ActorChannel {
            category,
            actor_id: to_lowercase(actor_id),
            info,
            daily_channels: dir,
            imported_channels: Vec::new(),
            mainnet,
        };
        proof {
            assert(r.spec_cache() =~= Seq::<CacheView>::empty());
        }
        r
    }

    pub fn actor_id(&self) -> (r: &str)
        ensures
            r@ == self.spec_actor_id(),
    {
        self.actor_id.as_str()
    }

    pub fn category(&self) -> (r: Category)
        ensures
            r == self.spec_category(),
    {
        self.category
    }

    /// The address of the actor channel.
    pub fn channel_info(&self) -> (r: ChannelInfo)
        ensures
            r == self.spec_info(),
    {
        self.info.clone()
    }

    /// Decides whether a new daily channel may be created for a date: an
    /// impossible calendar date fails validation before anything else, a
    /// date already in the directory is a duplicate, and otherwise the
    /// date's midnight timestamp is returned for the new channel.
    pub fn new_daily_channel_plan(&self, day: u16, month: u16, year: u16) -> (r: Result<
        i64,
        ChannelError,
    >)
        ensures
            ({
                let p = daily_plan(
                    self.spec_daily_channels(),
                    day as int,
                    month as int,
                    year as int,
                );
                match r {
                    Ok(ts) => p == Ok::<int, ChannelError>(ts as int),
                    Err(e) => p == Err::<int, ChannelError>(e),
                }
            }),
    {
        if !validate_date(day, month, year) {
            return Err(ChannelError::Validation);
        }
        let ts = date_to_timestamp(day, month, year);
        if self.find_ts(ts).is_some() {
            return Err(ChannelError::Duplicate);
        }
        Ok(ts)
    }

    /// Records a freshly created and opened daily channel: its entry is
    /// appended to the directory, and the live handle is cached under the
    /// day and the hash of the opening password. Returns the entry to be
    /// published and the shared handle.
    pub fn register_daily_channel(
        &mut self,
        info: ChannelInfo,
        state_psw: &str,
        creation_timestamp: i64,
    ) -> (r: (DailyChannelMsg, DailyChannel))
        ensures
            final(self).spec_daily_channels() == old(self).spec_daily_channels().push(r.0),
            final(self).spec_cache() == old(self).spec_cache().push(
                CacheView {
                    date_ts: creation_timestamp,
                    psw_hash: sha256_of(encode_utf8(state_psw@)),
                    channel: r.1,
                },
            ),
            r.0.spec_address() == info,
            r.0.spec_category() == category_tag(old(self).spec_category()),
            r.0.spec_actor_id() == ascii_lower(old(self).spec_actor_id()),
            r.0.spec_creation_timestamp() == creation_timestamp,
            r.1.spec_category() == old(self).spec_category(),
            r.1.spec_actor_id() == ascii_lower(old(self).spec_actor_id()),
            r.1.spec_info() == info,
            r.1.spec_creation_timestamp() == creation_timestamp,
            r.1.spec_mainnet() == old(self).spec_mainnet(),
            final(self).spec_category() == old(self).spec_category(),
            final(self).spec_actor_id() == old(self).spec_actor_id(),
            final(self).spec_info() == old(self).spec_info(),
            final(self).spec_mainnet() == old(self).spec_mainnet(),
    {
        let msg = DailyChannelMsg::new(
            info.clone(),
            self.category,
            self.actor_id.as_str(),
            creation_timestamp,
        );
        let channel = DailyChannel::from_parts(
            self.category,
            self.actor_id.as_str(),
            info,
            creation_timestamp,
            self.mainnet,
        );
        let hash = sha256(state_psw.as_bytes());
        self.daily_channels.push(msg.clone());
        self.imported_channels.push(
            CacheEntry { date_ts: creation_timestamp, psw_hash: hash, channel: channel.clone() },
        );
        proof {
            assert(final(self).spec_cache() =~= old(self).spec_cache().push(
                CacheView {
                    date_ts: creation_timestamp,
                    psw_hash: sha256_of(encode_utf8(state_psw@)),
                    channel,
                },
            ));
        }
        (msg, channel)
    }

    /// Looks a daily channel up for a date and password. An unknown date is
    /// merged with a wrong password into one not-found error, so the error
    /// cannot be used as a password oracle. A hit in the cache under the
    /// date and the password's hash returns the cached live handle and asks
    /// for no import; a miss names the directory entry from which the
    /// channel must be imported with the supplied password.
    pub fn get_daily_channel_plan(&self, state_psw: &str, day: u16, month: u16, year: u16) -> (r:
        Result<DailyLookup, ChannelError>)
        ensures
            lookup_result_ok(
                self.spec_daily_channels(),
                self.spec_cache(),
                sha256_of(encode_utf8(state_psw@)),
                day as int,
                month as int,
                year as int,
                r,
            ),
    {
        if !validate_date(day, month, year) {
            return Err(ChannelError::NotFound);
        }
        let ts = date_to_timestamp(day, month, year);
        let entry_idx = match self.find_ts(ts) {
            Some(i) => i,
            None => {
                return Err(ChannelError::NotFound);
            },
        };
        let hash = sha256(state_psw.as_bytes());
        match self.find_cached(ts, hash.as_slice()) {
            Some(j) => Ok(DailyLookup::Cached(self.imported_channels[j].channel.clone())),
            None => {
                let entry = &self.daily_channels[entry_idx];
                Ok(DailyLookup::NeedImport(entry.address.clone(), entry.creation_timestamp))
            },
        }
    }

    /// Decides under the create-or-reuse policy: an impossible calendar
    /// date is rejected, a date the directory does not record yet is to be
    /// created, and a recorded date is reused — from the cache when the day
    /// and password hash hit, else by importing from its directory entry.
    /// This and the fail-if-exists rule of the creation plan are the two
    /// policies, exposed separately.
    pub fn get_or_create_daily_channel_plan(
        &self,
        state_psw: &str,
        day: u16,
        month: u16,
        year: u16,
    ) -> (r: Result<DailyDecision, ChannelError>)
        ensures
            ensure_result_ok(
                self.spec_daily_channels(),
                self.spec_cache(),
                sha256_of(encode_utf8(state_psw@)),
                day as int,
                month as int,
                year as int,
                r,
            ),
    {
        if !validate_date(day, month, year) {
            return Err(ChannelError::Validation);
        }
        let ts = date_to_timestamp(day, month, year);
        if self.find_ts(ts).is_none() {
            return Ok(DailyDecision::Create(ts));
        }
        match self.get_daily_channel_plan(state_psw, day, month, year) {
            Ok(DailyLookup::Cached(ch)) => Ok(DailyDecision::Cached(ch)),
            Ok(DailyLookup::NeedImport(info, ets)) => Ok(DailyDecision::NeedImport(info, ets)),
            // The date was just found in the directory, so the lookup
            // cannot report it unknown.
            Err(e) => Err(e),
        }
    }

    /// Records a daily channel imported from the backend: the live handle
    /// enters the cache under its day and the hash of the password that
    /// imported it; the directory is unchanged.
    pub fn register_imported_channel(&mut self, state_psw: &str, channel: DailyChannel)
        ensures
            final(self).spec_cache() == old(self).spec_cache().push(
                CacheView {
                    date_ts: channel.spec_creation_timestamp(),
                    psw_hash: sha256_of(encode_utf8(state_psw@)),
                    channel,
                },
            ),
            final(self).spec_daily_channels() == old(self).spec_daily_channels(),
            final(self).spec_category() == old(self).spec_category(),
            final(self).spec_actor_id() == old(self).spec_actor_id(),
            final(self).spec_info() == old(self).spec_info(),
            final(self).spec_mainnet() == old(self).spec_mainnet(),
    {
        let hash = sha256(state_psw.as_bytes());
        let ts = channel.creation_timestamp();
        self.imported_channels.push(CacheEntry { date_ts: ts, psw_hash: hash, channel });
        proof {
            assert(final(self).spec_cache() =~= old(self).spec_cache().push(
                final(self).spec_cache().last(),
            ));
        }
    }

    /// The published directory entries of the actor's daily channels.
    pub fn daily_channels_info(&self) -> (r: Vec<DailyChannelMsg>)
        ensures
            r@ == self.spec_daily_channels(),
    {
        let mut out: Vec<DailyChannelMsg> = Vec::new();
        let n = self.daily_channels.len();
        let mut i: usize = 0;
        while i < n
            invariant
                i <= n,
                n == self.spec_daily_channels().len(),
                out@ == self.spec_daily_channels().take(i as int),
            decreases n - i,
        {
            out.push(self.daily_channels[i].clone());
            proof {
                assert(out@ =~= self.spec_daily_channels().take(i as int + 1));
            }
            i = i + 1;
        }
        proof {
            assert(self.spec_daily_channels().take(n as int) =~= self.spec_daily_channels());
        }
        out
    }

    /// The address of the daily channel published for a "dd/mm/yyyy" date
    /// string, or a not-found error when no entry carries that date.
    pub fn daily_channel_info(&self, date: &str) -> (r: Result<ChannelInfo, ChannelError>)
        ensures
            ({
                let dir = self.spec_daily_channels();
                match r {
                    Ok(info) => exists|i: int|
                        #![trigger dir[i].spec_creation_timestamp()]
                        0 <= i < dir.len() && ({
                            let (d, m, y) = date_of_timestamp(
                                dir[i].spec_creation_timestamp() as int,
                            );
                            date_string_chars(d, m, y) == date@ && info == dir[i].spec_address()
                        }),
                    Err(e) => e == ChannelError::NotFound && forall|i: int|
                        #![trigger dir[i].spec_creation_timestamp()]
                        0 <= i < dir.len() ==> ({
                            let (d, m, y) = date_of_timestamp(
                                dir[i].spec_creation_timestamp() as int,
                            );
                            date_string_chars(d, m, y) != date@
                        }),
                }
            }),
    {
        let want = String::from_str(date);
        let n = self.daily_channels.len();
        let mut i: usize = 0;
        while i < n
            invariant
                i <= n,
                n == self.spec_daily_channels().len(),
                want@ == date@,
                forall|j: int|
                    #![trigger self.spec_daily_channels()[j].spec_creation_timestamp()]
                    0 <= j < i ==> ({
                        let (d, m, y) = date_of_timestamp(
                            self.spec_daily_channels()[j].spec_creation_timestamp() as int,
                        );
                        date_string_chars(d, m, y) != date@
                    }),
            decreases n - i,
        {
            let entry_date = self.daily_channels[i].creation_date();
            if entry_date == want {
                return Ok(self.daily_channels[i].address.clone());
            }
            i = i + 1;
        }
        Err(ChannelError::NotFound)
    }

    /// The index of the first directory entry carrying a timestamp.
    fn find_ts(&self, ts: i64) -> (r: Option<usize>)
        ensures
            match r {
                Some(i) => 0 <= i < self.spec_daily_channels().len() && self.spec_daily_channels()[i as int].spec_creation_timestamp() == ts,
                None => !dir_has_ts(self.spec_daily_channels(), ts as int),
            },
    {
        let n = self.daily_channels.len();
        let mut i: usize = 0;
        while i < n
            invariant
                i <= n,
                n == self.spec_daily_channels().len(),
                forall|j: int|
                    0 <= j < i ==> self.spec_daily_channels()[j].spec_creation_timestamp() != ts,
            decreases n - i,
        {
            if self.daily_channels[i].creation_timestamp == ts {
                return Some(i);
            }
            i = i + 1;
        }
        None
    }

    /// The index of the first cache slot for a day and password hash.
    fn find_cached(&self, ts: i64, hash: &[u8]) -> (r: Option<usize>)
        ensures
            match r {
                Some(i) => 0 <= i < self.spec_cache().len() && self.spec_cache()[i as int].date_ts
                    == ts && self.spec_cache()[i as int].psw_hash == hash@,
                None => !cache_has(self.spec_cache(), ts as int, hash@),
            },
    {
        let n = self.imported_channels.len();
        let mut i: usize = 0;
        while i < n
            invariant
                i <= n,
                n == self.spec_cache().len(),
                forall|j: int|
                    0 <= j < i ==> !(self.spec_cache()[j].date_ts == ts && self.spec_cache()[j].psw_hash
                        == hash@),
            decreases n - i,
        {
            let entry = &self.imported_channels[i];
            if entry.date_ts == ts && bytes_eq(entry.psw_hash.as_slice(), hash) {
                return Some(i);
            }
            i = i + 1;
        }
        None
    }
}

/// Whether two byte slices hold the same bytes.
fn bytes_eq(a: &[u8], b: &[u8]) -> (r: bool)
    ensures
        r == (a@ == b@),
{
    if a.len() != b.len() {
        proof {
            assert(a@.len() != b@.len());
        }
        return false;
    }
    let n = a.len();
    let mut i: usize = 0;
    while i < n
        invariant
            i <= n,
            n == a@.len(),
            n == b@.len(),
            forall|j: int| 0 <= j < i ==> a@[j] == b@[j],
        decreases n - i,
    {
        if *vstd::slice::slice_index_get(a, i) != *vstd::slice::slice_index_get(b, i) {
            return false;
        }
        i = i + 1;
    }
    proof {
        assert(a@ =~= b@);
    }
    true
}

} // verus!
