use vstd::prelude::*;
use vstd::utf8::encode_utf8;
use crate::actor_channel::{
    ActorChannel, DailyChannelMsg, DailyDecision, DailyLookup, CacheView, daily_plan,
    dir_has_ts, ensure_result_ok, lookup_result_ok,
};
use crate::channels::{Category, ChannelInfo, category_tag};
use crate::crypto::sha256_of;
use crate::daily_channel::DailyChannel;
use crate::errors::ChannelError;
use crate::text::{ascii_lower, to_lowercase};
use crate::utils::{midnight_timestamp, valid_date};

verus! {

/// A published directory entry describing one actor channel of a category:
/// its address, the category's wire tag and the actor id in lower case.
#[derive(Debug)]
pub struct ActorChannelMsg {
    address: ChannelInfo,
    category: String,
    actor_id: String,
}

impl ActorChannelMsg {
    /// The address of the actor channel, for specifications.
    pub closed spec fn spec_address(&self) -> ChannelInfo {
        self.address
    }

    /// The category wire tag, for specifications.
    pub closed spec fn spec_category(&self) -> Seq<char> {
        self.category@
    }

    /// The actor id, for specifications.
    pub closed spec fn spec_actor_id(&self) -> Seq<char> {
        self.actor_id@
    }

    /// A directory entry from its parts; the category is stored as its wire
    /// tag and the actor id is normalized to lower case.
    pub fn new(address: ChannelInfo, category: Category, actor_id: &str) -> (r: Self)
        ensures
            r.spec_address() == address,
            r.spec_category() == category_tag(category),
            r.spec_actor_id() == ascii_lower(actor_id@),
    {
        ActorChannelMsg {
            address,
            category: category.to_string(),
            actor_id: to_lowercase(actor_id),
        }
    }

    pub fn address(&self) -> (r: &ChannelInfo)
        ensures
            *r == self.spec_address(),
    {
        &self.address
    }

    pub fn category(&self) -> (r: &str)
        ensures
            r@ == self.spec_category(),
    {
        self.category.as_str()
    }

    pub fn actor_id(&self) -> (r: &str)
        ensures
            r@ == self.spec_actor_id(),
    {
        self.actor_id.as_str()
    }
}

impl Clone for ActorChannelMsg {
    /// A directory entry clones to an equal entry.
    fn clone(&self) -> (r: Self)
        ensures
            r == *self,
    {
        ActorChannelMsg {
            address: self.address.clone(),
            category: self.category.clone(),
            actor_id: self.actor_id.clone(),
        }
    }
}

/// Whether an actor channel answers to a (lower-cased) actor id; the stored
/// id is lower-cased as well before comparing, so resolution never depends
/// on letter case.
pub open spec fn actor_matches(a: ActorChannel, id_lower: Seq<char>) -> bool {
    ascii_lower(a.spec_actor_id()) == id_lower
}

/// Whether a registry holds an actor channel for a (lower-cased) actor id.
pub open spec fn has_actor(actors: Seq<ActorChannel>, id_lower: Seq<char>) -> bool {
    exists|i: int| 0 <= i < actors.len() && actor_matches(actors[i], id_lower)
}

/// What planning a new daily channel for an actor must return: an unknown
/// actor is not found, and otherwise the directory of an actor channel
/// answering to the id decides by the daily-channel creation rule.
pub open spec fn plan_result_ok(
    actors: Seq<ActorChannel>,
    id_lower: Seq<char>,
    d: int,
    m: int,
    y: int,
    r: Result<i64, ChannelError>,
) -> bool {
    if !has_actor(actors, id_lower) {
        r == Err::<i64, ChannelError>(ChannelError::NotFound)
    } else {
        exists|i: int|
            #![trigger actors[i]]
            0 <= i < actors.len() && actor_matches(actors[i], id_lower) && ({
                let p = daily_plan(actors[i].spec_daily_channels(), d, m, y);
                match r {
                    Ok(ts) => p == Ok::<int, ChannelError>(ts as int),
                    Err(e) => p == Err::<int, ChannelError>(e),
                }
            })
    }
}

/// What looking a daily channel up for an actor must return: an unknown
/// actor is not found, and otherwise an actor channel answering to the id
/// decides by the daily-channel lookup rule.
pub open spec fn lookup_plan_ok(
    actors: Seq<ActorChannel>,
    id_lower: Seq<char>,
    h: Seq<u8>,
    d: int,
    m: int,
    y: int,
    r: Result<DailyLookup, ChannelError>,
) -> bool {
    if !has_actor(actors, id_lower) {
        r == Err::<DailyLookup, ChannelError>(ChannelError::NotFound)
    } else {
        exists|i: int|
            #![trigger actors[i]]
            0 <= i < actors.len() && actor_matches(actors[i], id_lower) && lookup_result_ok(
                actors[i].spec_daily_channels(),
                actors[i].spec_cache(),
                h,
                d,
                m,
                y,
                r,
            )
    }
}

/// What the create-or-reuse policy must decide for an actor of a registry:
/// an unknown actor is not found, and otherwise an actor channel answering
/// to the id decides.
pub open spec fn ensure_plan_ok(
    actors: Seq<ActorChannel>,
    id_lower: Seq<char>,
    h: Seq<u8>,
    d: int,
    m: int,
    y: int,
    r: Result<DailyDecision, ChannelError>,
) -> bool {
    if !has_actor(actors, id_lower) {
        r == Err::<DailyDecision, ChannelError>(ChannelError::NotFound)
    } else {
        exists|i: int|
            #![trigger actors[i]]
            0 <= i < actors.len() && actor_matches(actors[i], id_lower) && ensure_result_ok(
                actors[i].spec_daily_channels(),
                actors[i].spec_cache(),
                h,
                d,
                m,
                y,
                r,
            )
    }
}

/// How registering a freshly created daily channel changes an actor
/// registry: an unknown actor is not found and nothing changes; otherwise
/// an actor channel answering to the id gains the new entry in its
/// directory and the new live handle in its cache.
pub open spec fn register_daily_ok(
    actors0: Seq<ActorChannel>,
    actors1: Seq<ActorChannel>,
    id_lower: Seq<char>,
    h: Seq<u8>,
    info: ChannelInfo,
    ts: i64,
    r: Result<(DailyChannelMsg, DailyChannel), ChannelError>,
) -> bool {
    match r {
        Ok((msg, ch)) => exists|i: int|
            #![trigger actors0[i]]
            0 <= i < actors0.len() && actor_matches(actors0[i], id_lower) && ({
                let a0 = actors0[i];
                let a1 = actors1[i];
                &&& actors1 == actors0.update(i, a1)
                &&& a1.spec_daily_channels() == a0.spec_daily_channels().push(msg)
                &&& a1.spec_cache() == a0.spec_cache().push(
                    CacheView { date_ts: ts, psw_hash: h, channel: ch },
                )
                &&& a1.spec_actor_id() == a0.spec_actor_id()
                &&& a1.spec_category() == a0.spec_category()
                &&& msg.spec_address() == info
                &&& msg.spec_creation_timestamp() == ts
                &&& ch.spec_info() == info
                &&& ch.spec_creation_timestamp() == ts
                &&& ch.spec_category() == a0.spec_category()
            }),
        Err(e) => e == ChannelError::NotFound && !has_actor(actors0, id_lower) && actors1
            == actors0,
    }
}

/// Whether at most one actor channel of a registry answers to each actor
/// id; registration refuses duplicates, so a registry built through it
/// keeps this shape.
pub open spec fn distinct_actor_ids(actors: Seq<ActorChannel>) -> bool {
    forall|i: int, j: int|
        0 <= i < j < actors.len() ==> ascii_lower(#[trigger] actors[i].spec_actor_id())
            != ascii_lower(#[trigger] actors[j].spec_actor_id())
}

/// Law: once a daily channel was created and registered for an actor and a
/// date, planning the same date again for that actor — under any letter
/// case of the id — can only be refused as a duplicate, whatever other
/// actors and dates were handled in between.
pub proof fn lemma_registry_create_twice_rejected(
    actors0: Seq<ActorChannel>,
    actors1: Seq<ActorChannel>,
    id1: Seq<char>,
    id2: Seq<char>,
    h: Seq<u8>,
    info: ChannelInfo,
    ts: i64,
    msg: DailyChannelMsg,
    ch: DailyChannel,
    d: int,
    m: int,
    y: int,
    r: Result<i64, ChannelError>,
)
    requires
        distinct_actor_ids(actors0),
        ascii_lower(id1) == ascii_lower(id2),
        valid_date(d, m, y),
        ts as int == midnight_timestamp(d, m, y),
        register_daily_ok(actors0, actors1, ascii_lower(id1), h, info, ts, Ok((msg, ch))),
        plan_result_ok(actors1, ascii_lower(id2), d, m, y, r),
    ensures
        r == Err::<i64, ChannelError>(ChannelError::Duplicate),
{
    let lower = ascii_lower(id1);
    let i = choose|i: int|
        #![trigger actors0[i]]
        0 <= i < actors0.len() && actor_matches(actors0[i], lower) && ({
            let a0 = actors0[i];
            let a1 = actors1[i];
            &&& actors1 == actors0.update(i, a1)
            &&& a1.spec_daily_channels() == a0.spec_daily_channels().push(msg)
            &&& a1.spec_actor_id() == a0.spec_actor_id()
            &&& msg.spec_creation_timestamp() == ts
        });
    assert(actor_matches(actors1[i], lower));
    assert(has_actor(actors1, lower));
    let j = choose|j: int|
        #![trigger actors1[j]]
        0 <= j < actors1.len() && actor_matches(actors1[j], lower) && ({
            let p = daily_plan(actors1[j].spec_daily_channels(), d, m, y);
            match r {
                Ok(rts) => p == Ok::<int, ChannelError>(rts as int),
                Err(e) => p == Err::<int, ChannelError>(e),
            }
        });
    if i != j {
        assert(actors1[j] == actors0[j]);
        assert(ascii_lower(actors0[i].spec_actor_id()) == ascii_lower(
            actors0[j].spec_actor_id(),
        ));
        assert(false);
    }
    let dir1 = actors1[i].spec_daily_channels();
    assert(dir1[dir1.len() - 1] == msg);
    assert(dir_has_ts(dir1, midnight_timestamp(d, m, y)));
    assert(daily_plan(dir1, d, m, y) == Err::<int, ChannelError>(ChannelError::Duplicate));
}

/// How registering an imported daily channel changes an actor registry: an
/// unknown actor is not found and nothing changes; otherwise an actor
/// channel answering to the id gains the live handle in its cache while
/// its directory stays as it was.
pub open spec fn register_imported_ok(
    actors0: Seq<ActorChannel>,
    actors1: Seq<ActorChannel>,
    id_lower: Seq<char>,
    h: Seq<u8>,
    channel: DailyChannel,
    r: Result<(), ChannelError>,
) -> bool {
    match r {
        Ok(()) => exists|i: int|
            #![trigger actors0[i]]
            0 <= i < actors0.len() && actor_matches(actors0[i], id_lower) && ({
                let a0 = actors0[i];
                let a1 = actors1[i];
                &&& actors1 == actors0.update(i, a1)
                &&& a1.spec_cache() == a0.spec_cache().push(
                    CacheView {
                        date_ts: channel.spec_creation_timestamp(),
                        psw_hash: h,
                        channel,
                    },
                )
                &&& a1.spec_daily_channels() == a0.spec_daily_channels()
            }),
        Err(e) => e == ChannelError::NotFound && !has_actor(actors0, id_lower) && actors1
            == actors0,
    }
}

/// Law: two actor ids that agree up to ASCII letter case resolve to exactly
/// the same actor channels of a registry, and in particular one is found
/// exactly when the other is.
pub proof fn lemma_actor_resolution_case_insensitive(
    actors: Seq<ActorChannel>,
    id1: Seq<char>,
    id2: Seq<char>,
)
    requires
        ascii_lower(id1) == ascii_lower(id2),
    ensures
        forall|i: int|
            0 <= i < actors.len() ==> actor_matches(actors[i], ascii_lower(id1)) == actor_matches(
                actors[i],
                ascii_lower(id2),
            ),
        has_actor(actors, ascii_lower(id1)) == has_actor(actors, ascii_lower(id2)),
{
}

/// A category-level channel: the registry of its actor channels, created
/// lazily or restored in bulk from the published directory. The address is
/// known once the underlying channel has been opened or imported; the live
/// backend session is managed outside the verified core.
pub struct CategoryChannel {
    category: Category,
    info: Option<ChannelInfo>,
    actors: Vec<ActorChannel>,
    mainnet: bool,
}

impl CategoryChannel {
    /// The category, for specifications.
    pub closed spec fn spec_category(&self) -> Category {
        self.category
    }

    /// The address, if the channel was opened or imported.
    pub closed spec fn spec_info(&self) -> Option<ChannelInfo> {
        self.info
    }

    /// The registry of actor channels, for specifications.
    pub closed spec fn spec_actors(&self) -> Seq<ActorChannel> {
        self.actors@
    }

    /// The network flag, for specifications.
    pub closed spec fn spec_mainnet(&self) -> bool {
        self.mainnet
    }

    /// A fresh category channel with an empty actor registry; its address
    /// is unknown until it is opened.
    pub fn new(category: Category, mainnet: bool) -> (r: Self)
        ensures
            r.spec_category() == category,
            r.spec_info() is None,
            r.spec_actors() == Seq::<ActorChannel>::empty(),
            r.spec_mainnet() == mainnet,
    {
        let r = CategoryChannel { category, info: None, actors: Vec::new(), mainnet };
        proof {
            assert(r.spec_actors() =~= Seq::<ActorChannel>::empty());
        }
        r
    }

    /// A category channel rebuilt from the backend: its address and the
    /// actor channels restored from its published directory.
    pub fn from_remote(
        category: Category,
        info: ChannelInfo,
        actors: Vec<ActorChannel>,
        mainnet: bool,
    ) -> (r: Self)
        ensures
            r.spec_category() == category,
            r.spec_info() == Some(info),
            r.spec_actors() == actors@,
            r.spec_mainnet() == mainnet,
    {
        CategoryChannel { category, info: Some(info), actors, mainnet }
    }

    /// Records the address under which the channel was opened.
    pub fn mark_opened(&mut self, info: ChannelInfo)
        ensures
            final(self).spec_info() == Some(info),
            final(self).spec_category() == old(self).spec_category(),
            final(self).spec_actors() == old(self).spec_actors(),
            final(self).spec_mainnet() == old(self).spec_mainnet(),
    {
        self.info = Some(info);
    }

    pub fn category(&self) -> (r: Category)
        ensures
            r == self.spec_category(),
    {
        self.category
    }

    /// The address of the category channel, if it was opened or imported.
    pub fn channel_info(&self) -> (r: Option<ChannelInfo>)
        ensures
            r == self.spec_info(),
    {
        match &self.info {
            Some(info) => Some(info.clone()),
            None => None,
        }
    }

    /// The index of the first actor channel answering to an actor id,
    /// compared without regard to ASCII letter case.
    fn find_actor(&self, actor_id: &str) -> (r: Option<usize>)
        ensures
            match r {
                Some(i) => 0 <= i < self.spec_actors().len() && actor_matches(
                    self.spec_actors()[i as int],
                    ascii_lower(actor_id@),
                ),
                None => !has_actor(self.spec_actors(), ascii_lower(actor_id@)),
            },
    {
        let want = to_lowercase(actor_id);
        let n = self.actors.len();
        let mut i: usize = 0;
        while i < n
            invariant
                i <= n,
                n == self.spec_actors().len(),
                want@ == ascii_lower(actor_id@),
                forall|j: int|
                    0 <= j < i ==> !actor_matches(self.spec_actors()[j], ascii_lower(actor_id@)),
            decreases n - i,
        {
            let stored = to_lowercase(self.actors[i].actor_id());
            if stored == want {
                return Some(i);
            }
            i = i + 1;
        }
        None
    }

    /// Whether an actor channel exists for an actor id, compared without
    /// regard to ASCII letter case.
    pub fn exists_actor(&self, actor_id: &str) -> (r: bool)
        ensures
            r == has_actor(self.spec_actors(), ascii_lower(actor_id@)),
    {
        self.find_actor(actor_id).is_some()
    }

    /// Registers a freshly opened actor channel under an actor id. An id
    /// already in the registry (in any letter case) is a duplicate and
    /// changes nothing; otherwise the new actor channel starts with an
    /// empty directory and the entry to publish is returned.
    pub fn register_actor(&mut self, actor_id: &str, info: ChannelInfo) -> (r: Result<
        ActorChannelMsg,
        ChannelError,
    >)
        ensures
            final(self).spec_category() == old(self).spec_category(),
            final(self).spec_info() == old(self).spec_info(),
            final(self).spec_mainnet() == old(self).spec_mainnet(),
            match r {
                Ok(msg) => !has_actor(old(self).spec_actors(), ascii_lower(actor_id@))
                    && final(self).spec_actors().len() == old(self).spec_actors().len() + 1
                    && final(self).spec_actors() == old(self).spec_actors().push(
                    final(self).spec_actors().last(),
                ) && ({
                    let a = final(self).spec_actors().last();
                    &&& a.spec_category() == old(self).spec_category()
                    &&& a.spec_actor_id() == ascii_lower(actor_id@)
                    &&& a.spec_info() == info
                    &&& a.spec_daily_channels() == Seq::<DailyChannelMsg>::empty()
                    &&& a.spec_cache() == Seq::<CacheView>::empty()
                    &&& a.spec_mainnet() == old(self).spec_mainnet()
                }) && msg.spec_address() == info && msg.spec_category() == category_tag(
                    old(self).spec_category(),
                ) && msg.spec_actor_id() == ascii_lower(actor_id@),
                Err(e) => e == ChannelError::Duplicate && has_actor(
                    old(self).spec_actors(),
                    ascii_lower(actor_id@),
                ) && *final(self) == *old(self),
            },
    {
        if self.find_actor(actor_id).is_some() {
            return Err(ChannelError::Duplicate);
        }
        let actor = ActorChannel::new_opened(self.category, actor_id, info.clone(), self.mainnet);
        let msg = ActorChannelMsg::new(info, self.category, actor_id);
        proof {
            crate::text::lemma_ascii_lower_idempotent(actor_id@);
        }
        self.actors.push(actor);
        (Ok(msg))
    }

    /// Decides whether a new daily channel may be created for an actor and
    /// date: an unknown actor is not found, and otherwise the actor's own
    /// creation rule decides.
    pub fn new_daily_channel_plan(&self, actor_id: &str, day: u16, month: u16, year: u16) -> (r:
        Result<i64, ChannelError>)
        ensures
            plan_result_ok(
                self.spec_actors(),
                ascii_lower(actor_id@),
                day as int,
                month as int,
                year as int,
                r,
            ),
    {
        match self.find_actor(actor_id) {
            Some(i) => self.actors[i].new_daily_channel_plan(day, month, year),
            None => Err(ChannelError::NotFound),
        }
    }

    /// Records a freshly created and opened daily channel with the actor it
    /// belongs to; fails with not-found when the actor is unknown.
    pub fn register_daily_channel(
        &mut self,
        actor_id: &str,
        info: ChannelInfo,
        state_psw: &str,
        creation_timestamp: i64,
    ) -> (r: Result<(DailyChannelMsg, DailyChannel), ChannelError>)
        ensures
            final(self).spec_category() == old(self).spec_category(),
            final(self).spec_info() == old(self).spec_info(),
            final(self).spec_mainnet() == old(self).spec_mainnet(),
            register_daily_ok(
                old(self).spec_actors(),
                final(self).spec_actors(),
                ascii_lower(actor_id@),
                sha256_of(encode_utf8(state_psw@)),
                info,
                creation_timestamp,
                r,
            ),
    {
        match self.find_actor(actor_id) {
            Some(i) => {
                let actor = &mut self.actors[i];
                let (msg, ch) = actor.register_daily_channel(info, state_psw, creation_timestamp);
                Ok((msg, ch))
            },
            None => Err(ChannelError::NotFound),
        }
    }

    /// Looks a daily channel up for an actor, password and date: an unknown
    /// actor is not found, and otherwise the actor's own lookup rule
    /// decides, including that a cache hit asks for no import.
    pub fn get_daily_channel_plan(
        &self,
        actor_id: &str,
        state_psw: &str,
        day: u16,
        month: u16,
        year: u16,
    ) -> (r: Result<DailyLookup, ChannelError>)
        ensures
            lookup_plan_ok(
                self.spec_actors(),
                ascii_lower(actor_id@),
                sha256_of(encode_utf8(state_psw@)),
                day as int,
                month as int,
                year as int,
                r,
            ),
    {
        match self.find_actor(actor_id) {
            Some(i) => self.actors[i].get_daily_channel_plan(state_psw, day, month, year),
            None => Err(ChannelError::NotFound),
        }
    }

    /// Decides under the create-or-reuse policy for an actor, password and
    /// date: an unknown actor is not found, and otherwise the actor's own
    /// create-or-reuse rule decides.
    pub fn get_or_create_daily_channel_plan(
        &self,
        actor_id: &str,
        state_psw: &str,
        day: u16,
        month: u16,
        year: u16,
    ) -> (r: Result<DailyDecision, ChannelError>)
        ensures
            ensure_plan_ok(
                self.spec_actors(),
                ascii_lower(actor_id@),
                sha256_of(encode_utf8(state_psw@)),
                day as int,
                month as int,
                year as int,
                r,
            ),
    {
        match self.find_actor(actor_id) {
            Some(i) => self.actors[i].get_or_create_daily_channel_plan(
                state_psw,
                day,
                month,
                year,
            ),
            None => Err(ChannelError::NotFound),
        }
    }

    /// Records a daily channel imported from the backend with the actor it
    /// belongs to; fails with not-found when the actor is unknown.
    pub fn register_imported_channel(
        &mut self,
        actor_id: &str,
        state_psw: &str,
        channel: DailyChannel,
    ) -> (r: Result<(), ChannelError>)
        ensures
            final(self).spec_category() == old(self).spec_category(),
            final(self).spec_info() == old(self).spec_info(),
            final(self).spec_mainnet() == old(self).spec_mainnet(),
            register_imported_ok(
                old(self).spec_actors(),
                final(self).spec_actors(),
                ascii_lower(actor_id@),
                sha256_of(encode_utf8(state_psw@)),
                channel,
                r,
            ),
    {
        match self.find_actor(actor_id) {
            Some(i) => {
                let actor = &mut self.actors[i];
                actor.register_imported_channel(state_psw, channel);
                Ok(())
            },
            None => Err(ChannelError::NotFound),
        }
    }

    /// One published directory entry per actor channel of the registry, in
    /// registry order.
    pub fn actors_info(&self) -> (r: Vec<ActorChannelMsg>)
        ensures
            r@.len() == self.spec_actors().len(),
            forall|i: int|
                #![trigger r@[i]]
                0 <= i < r@.len() ==> ({
                    let a = self.spec_actors()[i];
                    &&& r@[i].spec_address() == a.spec_info()
                    &&& r@[i].spec_category() == category_tag(self.spec_category())
                    &&& r@[i].spec_actor_id() == ascii_lower(a.spec_actor_id())
                }),
    {
        let mut out: Vec<ActorChannelMsg> = Vec::new();
        let n = self.actors.len();
        let mut i: usize = 0;
        while i < n
            invariant
                i <= n,
                n == self.spec_actors().len(),
                out@.len() == i,
                forall|j: int|
                    #![trigger out@[j]]
                    0 <= j < i ==> ({
                        let a = self.spec_actors()[j];
                        &&& out@[j].spec_address() == a.spec_info()
                        &&& out@[j].spec_category() == category_tag(self.spec_category())
                        &&& out@[j].spec_actor_id() == ascii_lower(a.spec_actor_id())
                    }),
            decreases n - i,
        {
            let a = &self.actors[i];
            let msg = ActorChannelMsg::new(a.channel_info(), self.category, a.actor_id());
            out.push(msg);
            i = i + 1;
        }
        out
    }

    /// The published daily-channel entries of one actor, or nothing when
    /// the actor is unknown.
    pub fn channels_of_actor(&self, actor_id: &str) -> (r: Vec<DailyChannelMsg>)
        ensures
            ({
                let actors = self.spec_actors();
                let lower = ascii_lower(actor_id@);
                if !has_actor(actors, lower) {
                    r@ == Seq::<DailyChannelMsg>::empty()
                } else {
                    exists|i: int|
                        #![trigger actors[i]]
                        0 <= i < actors.len() && actor_matches(actors[i], lower) && r@
                            == actors[i].spec_daily_channels()
                }
            }),
    {
        match self.find_actor(actor_id) {
            Some(i) => self.actors[i].daily_channels_info(),
            None => Vec::new(),
        }
    }
}

} // verus!
