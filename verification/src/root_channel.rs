use vstd::prelude::*;
use vstd::utf8::encode_utf8;
use crate::actor_channel::{DailyChannelMsg, DailyDecision, DailyLookup};
use crate::category_channel::{
    ActorChannelMsg, CategoryChannel, ensure_plan_ok, plan_result_ok, lookup_plan_ok,
    register_daily_ok, register_imported_ok, has_actor, actor_matches,
};
use crate::channels::{Category, ChannelInfo, category_tag};
use crate::crypto::sha256_of;
use crate::daily_channel::DailyChannel;
use crate::errors::ChannelError;
use crate::text::ascii_lower;

verus! {

/// The root directory packet: the addresses of the three category channels,
/// published exactly once when the root is opened and fetched again to
/// rebuild the hierarchy.
#[derive(Debug)]
pub struct CategoryChannelsInfo {
    pub trucks: ChannelInfo,
    pub weighing_scales: ChannelInfo,
    pub biocells: ChannelInfo,
}

impl CategoryChannelsInfo {
    pub fn new(trucks: ChannelInfo, weighing_scale: ChannelInfo, biocell: ChannelInfo) -> (r: Self)
        ensures
            r.trucks == trucks,
            r.weighing_scales == weighing_scale,
            r.biocells == biocell,
    {
        CategoryChannelsInfo { trucks, weighing_scales: weighing_scale, biocells: biocell }
    }
}

impl Clone for CategoryChannelsInfo {
    /// A directory packet clones to an equal packet.
    fn clone(&self) -> (r: Self)
        ensures
            r == *self,
    {
        CategoryChannelsInfo {
            trucks: self.trucks.clone(),
            weighing_scales: self.weighing_scales.clone(),
            biocells: self.biocells.clone(),
        }
    }
}

/// The position of a category's manager in the root's fixed registry.
pub open spec fn category_index(c: Category) -> int {
    match c {
        Category::Trucks => 0,
        Category::Scales => 1,
        Category::BioCells => 2,
    }
}

/// The root of the channel hierarchy: exactly three category managers, one
/// per category and fixed at construction, together with the root channel's
/// address and opening credential once it has been opened or imported. The
/// live backend sessions are managed outside the verified core.
pub struct RootChannel {
    info: Option<ChannelInfo>,
    categories: Vec<CategoryChannel>,
    psw: String,
    mainnet: bool,
}

impl RootChannel {
    /// The root channel's address, if it was opened or imported.
    pub closed spec fn spec_info(&self) -> Option<ChannelInfo> {
        self.info
    }

    /// The three category managers, for specifications.
    pub closed spec fn spec_categories(&self) -> Seq<CategoryChannel> {
        self.categories@
    }

    /// The root opening credential, for specifications.
    pub closed spec fn spec_psw(&self) -> Seq<char> {
        self.psw@
    }

    /// The network flag, for specifications.
    pub closed spec fn spec_mainnet(&self) -> bool {
        self.mainnet
    }

    /// The root invariant: exactly three category managers, one per
    /// category, in a fixed order.
    pub open spec fn wf(&self) -> bool {
        &&& self.spec_categories().len() == 3
        &&& forall|c: Category|
            #![trigger category_index(c)]
            self.spec_categories()[category_index(c)].spec_category() == c
    }

    /// The registry of the manager in charge of a category.
    pub open spec fn spec_actors_of(&self, category: Category) -> Seq<
        crate::actor_channel::ActorChannel,
    > {
        self.spec_categories()[category_index(category)].spec_actors()
    }

    /// A fresh root: three empty category managers and an unopened root
    /// channel with an empty credential.
    pub fn new(mainnet: bool) -> (r: Self)
        ensures
            r.wf(),
            r.spec_info() is None,
            r.spec_psw() == Seq::<char>::empty(),
            r.spec_mainnet() == mainnet,
            forall|c: Category|
                #![trigger category_index(c)]
                {
                    let cat = r.spec_categories()[category_index(c)];
                    cat.spec_actors().len() == 0 && cat.spec_info() is None && cat.spec_mainnet()
                        == mainnet
                },
    {
        let mut categories: Vec<CategoryChannel> = Vec::new();
        categories.push(CategoryChannel::new(Category::Trucks, mainnet));
        categories.push(CategoryChannel::new(Category::Scales, mainnet));
        categories.push(CategoryChannel::new(Category::BioCells, mainnet));
        RootChannel { info: None, categories, psw: String::new(), mainnet }
    }

    /// A root rebuilt from the backend: its address, the three restored
    /// category managers in their fixed order, and the credential that
    /// imported them.
    pub fn from_remote(
        info: ChannelInfo,
        trucks: CategoryChannel,
        scales: CategoryChannel,
        biocells: CategoryChannel,
        state_psw: &str,
        mainnet: bool,
    ) -> (r: Self)
        requires
            trucks.spec_category() == Category::Trucks,
            scales.spec_category() == Category::Scales,
            biocells.spec_category() == Category::BioCells,
        ensures
            r.wf(),
            r.spec_info() == Some(info),
            r.spec_categories()[0] == trucks,
            r.spec_categories()[1] == scales,
            r.spec_categories()[2] == biocells,
            r.spec_psw() == state_psw@,
            r.spec_mainnet() == mainnet,
    {
        let mut categories: Vec<CategoryChannel> = Vec::new();
        categories.push(trucks);
        categories.push(scales);
        categories.push(biocells);
        RootChannel { info: Some(info), categories, psw: String::from_str(state_psw), mainnet }
    }

    /// The last packet of a fetched category directory; fetching no usable
    /// packet at all is a hard backend error, never an empty success.
    pub fn parse_categories_directory(mut msgs: Vec<CategoryChannelsInfo>) -> (r: Result<
        CategoryChannelsInfo,
        ChannelError,
    >)
        ensures
            match r {
                Ok(info) => msgs@.len() > 0 && info == msgs@.last(),
                Err(e) => e == ChannelError::Backend && msgs@.len() == 0,
            },
    {
        match msgs.pop() {
            Some(info) => Ok(info),
            None => Err(ChannelError::Backend),
        }
    }

    /// Records the addresses under which the three category channels and
    /// then the root were opened, keeps the opening credential for later
    /// actor creation, and returns the directory packet to publish once.
    pub fn mark_opened(
        &mut self,
        trucks: ChannelInfo,
        scales: ChannelInfo,
        biocells: ChannelInfo,
        root: ChannelInfo,
        channel_psw: &str,
    ) -> (r: CategoryChannelsInfo)
        requires
            old(self).wf(),
        ensures
            final(self).wf(),
            final(self).spec_info() == Some(root),
            final(self).spec_psw() == channel_psw@,
            final(self).spec_mainnet() == old(self).spec_mainnet(),
            final(self).spec_categories()[0].spec_info() == Some(trucks),
            final(self).spec_categories()[1].spec_info() == Some(scales),
            final(self).spec_categories()[2].spec_info() == Some(biocells),
            forall|c: Category|
                #![trigger category_index(c)]
                final(self).spec_categories()[category_index(c)].spec_actors() == old(
                    self,
                ).spec_categories()[category_index(c)].spec_actors(),
            r.trucks == trucks,
            r.weighing_scales == scales,
            r.biocells == biocells,
    {
        let packet = CategoryChannelsInfo::new(trucks.clone(), scales.clone(), biocells.clone());
        let slot = &mut self.categories[0];
        slot.mark_opened(trucks);
        let slot = &mut self.categories[1];
        slot.mark_opened(scales);
        let slot = &mut self.categories[2];
        slot.mark_opened(biocells);
        self.info = Some(root);
        self.psw = String::from_str(channel_psw);
        packet
    }

    /// The address of the root channel, if it was opened or imported.
    pub fn channel_info(&self) -> (r: Option<ChannelInfo>)
        ensures
            r == self.spec_info(),
    {
        match &self.info {
            Some(info) => Some(info.clone()),
            None => None,
        }
    }

    /// Whether the root is attached to the mainnet.
    pub fn is_mainnet(&self) -> (r: bool)
        ensures
            r == self.spec_mainnet(),
    {
        self.mainnet
    }

    /// The root opening credential, kept for creating actor channels.
    pub fn root_psw(&self) -> (r: &str)
        ensures
            r@ == self.spec_psw(),
    {
        self.psw.as_str()
    }

    /// Whether an actor channel exists in a category, compared without
    /// regard to ASCII letter case.
    pub fn exists_actor(&self, category: Category, actor_id: &str) -> (r: bool)
        requires
            self.wf(),
        ensures
            r == has_actor(self.spec_actors_of(category), ascii_lower(actor_id@)),
    {
        let i = Self::index_of(category);
        self.categories[i].exists_actor(actor_id)
    }

    /// Registers a freshly opened actor channel in its category.
    pub fn register_actor(&mut self, category: Category, actor_id: &str, info: ChannelInfo) -> (r:
        Result<ActorChannelMsg, ChannelError>)
        requires
            old(self).wf(),
        ensures
            final(self).wf(),
            final(self).spec_info() == old(self).spec_info(),
            final(self).spec_psw() == old(self).spec_psw(),
            final(self).spec_mainnet() == old(self).spec_mainnet(),
            forall|c: Category|
                #![trigger category_index(c)]
                c != category ==> final(self).spec_categories()[category_index(c)] == old(
                    self,
                ).spec_categories()[category_index(c)],
            match r {
                Ok(msg) => !has_actor(
                    old(self).spec_actors_of(category),
                    ascii_lower(actor_id@),
                ) && final(self).spec_actors_of(category).len() == old(self).spec_actors_of(
                    category,
                ).len() + 1 && final(self).spec_actors_of(category) == old(self).spec_actors_of(
                    category,
                ).push(final(self).spec_actors_of(category).last()) && ({
                    let a = final(self).spec_actors_of(category).last();
                    &&& a.spec_category() == category
                    &&& a.spec_actor_id() == ascii_lower(actor_id@)
                    &&& a.spec_info() == info
                    &&& a.spec_daily_channels().len() == 0
                    &&& a.spec_cache().len() == 0
                }) && msg.spec_address() == info && msg.spec_category() == category_tag(category)
                    && msg.spec_actor_id() == ascii_lower(actor_id@),
                Err(e) => e == ChannelError::Duplicate && has_actor(
                    old(self).spec_actors_of(category),
                    ascii_lower(actor_id@),
                ) && final(self).spec_actors_of(category) == old(self).spec_actors_of(category),
            },
    {
        let ghost cats0 = self.categories@;
        let i = Self::index_of(category);
        let slot = &mut self.categories[i];
        let r = slot.register_actor(actor_id, info);
        proof {
            assert(self.categories@ == cats0.update(i as int, self.categories@[i as int]));
            assert(forall|c: Category|
                #![trigger category_index(c)]
                c != category ==> self.categories@[category_index(c)] == cats0[category_index(
                    c,
                )]);
            if r is Ok {
                assert(self.categories@[i as int].spec_actors() == cats0[i as int].spec_actors().push(
                    self.categories@[i as int].spec_actors().last(),
                ));
            } else {
                assert(self.categories@[i as int] == cats0[i as int]);
                assert(self.categories@ =~= cats0);
            }
        }
        r
    }

    /// Decides whether a new daily channel may be created for a category,
    /// actor and date, routing by category equality to the one manager in
    /// charge; the other categories are untouched.
    pub fn new_daily_channel_plan(
        &self,
        category: Category,
        actor_id: &str,
        day: u16,
        month: u16,
        year: u16,
    ) -> (r: Result<i64, ChannelError>)
        requires
            self.wf(),
        ensures
            plan_result_ok(
                self.spec_actors_of(category),
                ascii_lower(actor_id@),
                day as int,
                month as int,
                year as int,
                r,
            ),
    {
        let i = Self::index_of(category);
        self.categories[i].new_daily_channel_plan(actor_id, day, month, year)
    }

    /// Records a freshly created and opened daily channel with its actor.
    pub fn register_daily_channel(
        &mut self,
        category: Category,
        actor_id: &str,
        info: ChannelInfo,
        state_psw: &str,
        creation_timestamp: i64,
    ) -> (r: Result<(DailyChannelMsg, DailyChannel), ChannelError>)
        requires
            old(self).wf(),
        ensures
            final(self).wf(),
            final(self).spec_info() == old(self).spec_info(),
            final(self).spec_psw() == old(self).spec_psw(),
            final(self).spec_mainnet() == old(self).spec_mainnet(),
            forall|c: Category|
                #![trigger category_index(c)]
                c != category ==> final(self).spec_categories()[category_index(c)] == old(
                    self,
                ).spec_categories()[category_index(c)],
            register_daily_ok(
                old(self).spec_actors_of(category),
                final(self).spec_actors_of(category),
                ascii_lower(actor_id@),
                sha256_of(encode_utf8(state_psw@)),
                info,
                creation_timestamp,
                r,
            ),
    {
        let i = Self::index_of(category);
        let slot = &mut self.categories[i];
        let r = slot.register_daily_channel(actor_id, info, state_psw, creation_timestamp);
        r
    }

    /// Looks a daily channel up for a category, actor, password and date,
    /// routing by category equality to the one manager in charge.
    pub fn get_daily_channel_plan(
        &self,
        category: Category,
        actor_id: &str,
        state_psw: &str,
        day: u16,
        month: u16,
        year: u16,
    ) -> (r: Result<DailyLookup, ChannelError>)
        requires
            self.wf(),
        ensures
            lookup_plan_ok(
                self.spec_actors_of(category),
                ascii_lower(actor_id@),
                sha256_of(encode_utf8(state_psw@)),
                day as int,
                month as int,
                year as int,
                r,
            ),
    {
        let i = Self::index_of(category);
        self.categories[i].get_daily_channel_plan(actor_id, state_psw, day, month, year)
    }

    /// Decides under the create-or-reuse policy for a category, actor,
    /// password and date, routing by category equality to the one manager
    /// in charge.
    pub fn get_or_create_daily_channel_plan(
        &self,
        category: Category,
        actor_id: &str,
        state_psw: &str,
        day: u16,
        month: u16,
        year: u16,
    ) -> (r: Result<DailyDecision, ChannelError>)
        requires
            self.wf(),
        ensures
            ensure_plan_ok(
                self.spec_actors_of(category),
                ascii_lower(actor_id@),
                sha256_of(encode_utf8(state_psw@)),
                day as int,
                month as int,
                year as int,
                r,
            ),
    {
        let i = Self::index_of(category);
        self.categories[i].get_or_create_daily_channel_plan(actor_id, state_psw, day, month, year)
    }

    /// Records a daily channel imported from the backend with its actor.
    pub fn register_imported_channel(
        &mut self,
        category: Category,
        actor_id: &str,
        state_psw: &str,
        channel: DailyChannel,
    ) -> (r: Result<(), ChannelError>)
        requires
            old(self).wf(),
        ensures
            final(self).wf(),
            final(self).spec_info() == old(self).spec_info(),
            final(self).spec_psw() == old(self).spec_psw(),
            final(self).spec_mainnet() == old(self).spec_mainnet(),
            forall|c: Category|
                #![trigger category_index(c)]
                c != category ==> final(self).spec_categories()[category_index(c)] == old(
                    self,
                ).spec_categories()[category_index(c)],
            register_imported_ok(
                old(self).spec_actors_of(category),
                final(self).spec_actors_of(category),
                ascii_lower(actor_id@),
                sha256_of(encode_utf8(state_psw@)),
                channel,
                r,
            ),
    {
        let i = Self::index_of(category);
        let slot = &mut self.categories[i];
        let r = slot.register_imported_channel(actor_id, state_psw, channel);
        r
    }

    /// One published directory entry per actor channel of a category.
    pub fn actors_of_category(&self, category: Category) -> (r: Vec<ActorChannelMsg>)
        requires
            self.wf(),
        ensures
            r@.len() == self.spec_actors_of(category).len(),
            forall|i: int|
                #![trigger r@[i]]
                0 <= i < r@.len() ==> ({
                    let a = self.spec_actors_of(category)[i];
                    &&& r@[i].spec_address() == a.spec_info()
                    &&& r@[i].spec_category() == category_tag(category)
                    &&& r@[i].spec_actor_id() == ascii_lower(a.spec_actor_id())
                }),
    {
        let i = Self::index_of(category);
        self.categories[i].actors_info()
    }

    /// The published daily-channel entries of one actor of a category, or
    /// nothing when the actor is unknown.
    pub fn channels_of_actor(&self, category: Category, actor_id: &str) -> (r: Vec<
        DailyChannelMsg,
    >)
        requires
            self.wf(),
        ensures
            ({
                let actors = self.spec_actors_of(category);
                let lower = ascii_lower(actor_id@);
                if !has_actor(actors, lower) {
                    r@ == Seq::<DailyChannelMsg>::empty()
                } else {
                    exists|i: int|
                        #![trigger actors[i]]
                        0 <= i < actors.len() && actor_matches(actors[i], lower) && r@
                            == actors[i].spec_daily_channels()
                }
            }),
    {
        let i = Self::index_of(category);
        self.categories[i].channels_of_actor(actor_id)
    }

    /// The address of the category manager in charge of a category, if that
    /// channel was opened or imported.
    pub fn category_info(&self, category: Category) -> (r: Option<ChannelInfo>)
        requires
            self.wf(),
        ensures
            r == self.spec_categories()[category_index(category)].spec_info(),
    {
        let i = Self::index_of(category);
        self.categories[i].channel_info()
    }

    /// The registry position of a category's manager.
    fn index_of(category: Category) -> (i: usize)
        ensures
            i as int == category_index(category),
    {
        match category {
            Category::Trucks => 0,
            Category::Scales => 1,
            Category::BioCells => 2,
        }
    }
}

} // verus!
