use bioenpro4to_channel_manager::actor_channel::{
    ActorChannel, DailyChannelMsg, DailyDecision, DailyLookup,
};
use bioenpro4to_channel_manager::category_channel::CategoryChannel;
use bioenpro4to_channel_manager::daily_channel::DailyChannel;
use bioenpro4to_channel_manager::channels::{Category, ChannelInfo};
use bioenpro4to_channel_manager::root_channel::{CategoryChannelsInfo, RootChannel};
use bioenpro4to_channel_manager::ChannelError;

fn info(tag: &str) -> ChannelInfo {
    ChannelInfo::new(format!("chan-{}", tag), format!("ann-{}", tag))
}

fn opened_root() -> RootChannel {
    let mut root = RootChannel::new(false);
    let packet = root.mark_opened(info("trucks"), info("scales"), info("bio"), info("root"), "psw");
    assert_eq!(packet.trucks.channel_id(), "chan-trucks");
    root
}

#[test]
fn creating_the_same_date_twice_fails_with_duplicate() {
    let mut root = opened_root();
    root.register_actor(Category::Trucks, "XASD", info("xasd")).unwrap();
    let ts = root.new_daily_channel_plan(Category::Trucks, "XASD", 25, 5, 2021).unwrap();
    assert_eq!(ts, 1621900800);
    root.register_daily_channel(Category::Trucks, "XASD", info("d1"), "ciaone", ts).unwrap();
    // The same actor and date again: a duplicate, whatever else happened.
    let again = root.new_daily_channel_plan(Category::Trucks, "XASD", 25, 5, 2021);
    assert_eq!(again.unwrap_err(), ChannelError::Duplicate);
    // Interleaving another date does not change that.
    let ts2 = root.new_daily_channel_plan(Category::Trucks, "XASD", 26, 5, 2021).unwrap();
    root.register_daily_channel(Category::Trucks, "XASD", info("d2"), "ciaone", ts2).unwrap();
    let again = root.new_daily_channel_plan(Category::Trucks, "XASD", 25, 5, 2021);
    assert_eq!(again.unwrap_err(), ChannelError::Duplicate);
}

#[test]
fn actor_ids_resolve_without_regard_to_case() {
    let mut root = opened_root();
    root.register_actor(Category::Trucks, "XASD", info("xasd")).unwrap();
    assert!(root.exists_actor(Category::Trucks, "XASD"));
    assert!(root.exists_actor(Category::Trucks, "xasd"));
    assert!(root.exists_actor(Category::Trucks, "XaSd"));
    assert!(!root.exists_actor(Category::Trucks, "xasd2"));
    // The same id is unknown in another category.
    assert!(!root.exists_actor(Category::Scales, "xasd"));
    // Registering a case variant of an existing actor is a duplicate.
    let again = root.register_actor(Category::Trucks, "xAsD", info("dup"));
    assert_eq!(again.unwrap_err(), ChannelError::Duplicate);
    // The published entry carries the lowercase id.
    let actors = root.actors_of_category(Category::Trucks);
    assert_eq!(actors.len(), 1);
    assert_eq!(actors[0].actor_id(), "xasd");
    assert_eq!(actors[0].category(), "trucks");
}

#[test]
fn cache_hit_returns_the_live_handle_without_import() {
    let mut root = opened_root();
    root.register_actor(Category::Trucks, "XASD", info("xasd")).unwrap();
    let ts = root.new_daily_channel_plan(Category::Trucks, "XASD", 25, 5, 2021).unwrap();
    root.register_daily_channel(Category::Trucks, "XASD", info("d1"), "ciaone", ts).unwrap();
    // Same date and password: the creation already cached the handle, so
    // the lookup never asks for the backend's import primitive.
    match root.get_daily_channel_plan(Category::Trucks, "XASD", "ciaone", 25, 5, 2021).unwrap() {
        DailyLookup::Cached(ch) => {
            assert_eq!(ch.creation_timestamp(), ts);
            assert_eq!(ch.actor_id(), "xasd");
            assert_eq!(ch.channel_info(), info("d1"));
        },
        DailyLookup::NeedImport(_, _) => panic!("a cache hit must not ask for an import"),
    }
    // A different password misses the cache and falls through to an import
    // from the published entry; only the import can prove the password.
    match root.get_daily_channel_plan(Category::Trucks, "XASD", "wrong", 25, 5, 2021).unwrap() {
        DailyLookup::NeedImport(entry_info, entry_ts) => {
            assert_eq!(entry_info, info("d1"));
            assert_eq!(entry_ts, ts);
        },
        DailyLookup::Cached(_) => panic!("a wrong password must not hit the cache"),
    }
}

#[test]
fn unknown_dates_and_actors_merge_into_not_found() {
    let mut root = opened_root();
    root.register_actor(Category::Trucks, "XASD", info("xasd")).unwrap();
    // A date nobody created.
    let r = root.get_daily_channel_plan(Category::Trucks, "XASD", "ciaone", 24, 5, 2021);
    assert_eq!(r.unwrap_err(), ChannelError::NotFound);
    // An impossible date reports the same, never a validation hint.
    let r = root.get_daily_channel_plan(Category::Trucks, "XASD", "ciaone", 31, 4, 2021);
    assert_eq!(r.unwrap_err(), ChannelError::NotFound);
    // An unknown actor.
    let r = root.get_daily_channel_plan(Category::Trucks, "NOPE", "ciaone", 25, 5, 2021);
    assert_eq!(r.unwrap_err(), ChannelError::NotFound);
    let r = root.new_daily_channel_plan(Category::Trucks, "NOPE", 25, 5, 2021);
    assert_eq!(r.unwrap_err(), ChannelError::NotFound);
}

#[test]
fn impossible_dates_fail_validation_before_anything_else() {
    let mut root = opened_root();
    root.register_actor(Category::Trucks, "XASD", info("xasd")).unwrap();
    // Day 31 in a 30-day month: rejected by the pure date check; no backend
    // is ever involved in the decision.
    let r = root.new_daily_channel_plan(Category::Trucks, "XASD", 31, 4, 2021);
    assert_eq!(r.unwrap_err(), ChannelError::Validation);
    let r = root.new_daily_channel_plan(Category::Trucks, "XASD", 29, 2, 2021);
    assert_eq!(r.unwrap_err(), ChannelError::Validation);
}

#[test]
fn root_scenario_create_repeat_and_distinct_actors() {
    let mut root = opened_root();
    assert!(!root.is_mainnet());
    assert_eq!(root.root_psw(), "psw");
    // Create Trucks/"XASD"/2021-05-25: succeeds.
    root.register_actor(Category::Trucks, "XASD", info("xasd")).unwrap();
    let ts = root.new_daily_channel_plan(Category::Trucks, "XASD", 25, 5, 2021).unwrap();
    let (msg, ch) = root
        .register_daily_channel(Category::Trucks, "XASD", info("d1"), "psw", ts)
        .unwrap();
    assert_eq!(msg.actor_id(), "xasd");
    assert_eq!(msg.category(), "trucks");
    assert_eq!(msg.creation_date(), "25/05/2021");
    assert_eq!(ch.creation_date(), "25/05/2021");
    // Repeating it fails with a duplicate error.
    let again = root.new_daily_channel_plan(Category::Trucks, "XASD", 25, 5, 2021);
    assert_eq!(again.unwrap_err(), ChannelError::Duplicate);
    // The next day succeeds.
    let ts2 = root.new_daily_channel_plan(Category::Trucks, "XASD", 26, 5, 2021).unwrap();
    root.register_daily_channel(Category::Trucks, "XASD", info("d2"), "psw", ts2).unwrap();
    // A distinct actor on the same date: no conflict.
    root.register_actor(Category::Trucks, "XASD2", info("xasd2")).unwrap();
    let ts3 = root.new_daily_channel_plan(Category::Trucks, "XASD2", 25, 5, 2021).unwrap();
    assert_eq!(ts3, ts);
    root.register_daily_channel(Category::Trucks, "XASD2", info("d3"), "psw", ts3).unwrap();
    // The directories reflect exactly what was created.
    let days = root.channels_of_actor(Category::Trucks, "XASD");
    assert_eq!(days.len(), 2);
    assert_eq!(days[0].creation_date(), "25/05/2021");
    assert_eq!(days[1].creation_date(), "26/05/2021");
    let days2 = root.channels_of_actor(Category::Trucks, "xasd2");
    assert_eq!(days2.len(), 1);
    let actors = root.actors_of_category(Category::Trucks);
    assert_eq!(actors.len(), 2);
    assert!(root.channels_of_actor(Category::Scales, "XASD").is_empty());
}

#[test]
fn empty_category_directory_fetch_is_a_backend_error() {
    let r = RootChannel::parse_categories_directory(Vec::new());
    assert_eq!(r.unwrap_err(), ChannelError::Backend);
    let packet = CategoryChannelsInfo::new(info("t"), info("s"), info("b"));
    let older = CategoryChannelsInfo::new(info("t0"), info("s0"), info("b0"));
    let r = RootChannel::parse_categories_directory(vec![older, packet]).unwrap();
    assert_eq!(r.trucks, info("t"));
    assert_eq!(r.weighing_scales, info("s"));
    assert_eq!(r.biocells, info("b"));
}

#[test]
fn remote_import_rebuilds_directories_with_empty_caches() {
    let entry = DailyChannelMsg::new(info("d1"), Category::Trucks, "XASD", 1621900800);
    let actor = ActorChannel::from_remote(
        Category::Trucks,
        "XASD",
        info("xasd"),
        vec![entry],
        false,
    );
    assert_eq!(actor.actor_id(), "xasd");
    let trucks = CategoryChannel::from_remote(Category::Trucks, info("t"), vec![actor], false);
    let scales = CategoryChannel::from_remote(Category::Scales, info("s"), Vec::new(), false);
    let bio = CategoryChannel::from_remote(Category::BioCells, info("b"), Vec::new(), false);
    let root = RootChannel::from_remote(info("root"), trucks, scales, bio, "psw", false);
    // The restored directory is authoritative: the date is known...
    let dup = root.new_daily_channel_plan(Category::Trucks, "XASD", 25, 5, 2021);
    assert_eq!(dup.unwrap_err(), ChannelError::Duplicate);
    // ...but nothing is cached, so getting it asks for an import (daily
    // channels are never imported eagerly).
    match root.get_daily_channel_plan(Category::Trucks, "XASD", "psw", 25, 5, 2021).unwrap() {
        DailyLookup::NeedImport(entry_info, ts) => {
            assert_eq!(entry_info, info("d1"));
            assert_eq!(ts, 1621900800);
        },
        DailyLookup::Cached(_) => panic!("an imported hierarchy starts with empty caches"),
    }
}

#[test]
fn imported_channels_enter_the_cache() {
    let mut actor = ActorChannel::from_remote(
        Category::Trucks,
        "XASD",
        info("xasd"),
        vec![DailyChannelMsg::new(info("d1"), Category::Trucks, "XASD", 1621900800)],
        false,
    );
    let ch = DailyChannel::from_parts(Category::Trucks, "XASD", info("d1"), 1621900800, false);
    actor.register_imported_channel("psw", ch);
    match actor.get_daily_channel_plan("psw", 25, 5, 2021).unwrap() {
        DailyLookup::Cached(ch) => assert_eq!(ch.creation_timestamp(), 1621900800),
        DailyLookup::NeedImport(_, _) => panic!("the imported handle was cached"),
    }
    // The directory address for the day is also readable by date string.
    let found = actor.daily_channel_info("25/05/2021").unwrap();
    assert_eq!(found, info("d1"));
    assert_eq!(actor.daily_channel_info("26/05/2021").unwrap_err(), ChannelError::NotFound);
}

#[test]
fn create_or_reuse_policy_decides_explicitly() {
    let mut root = opened_root();
    root.register_actor(Category::Trucks, "XASD", info("xasd")).unwrap();
    // A date nobody created yet: create it at its midnight timestamp.
    match root
        .get_or_create_daily_channel_plan(Category::Trucks, "XASD", "psw", 25, 5, 2021)
        .unwrap()
    {
        DailyDecision::Create(ts) => assert_eq!(ts, 1621900800),
        other => panic!("expected a creation decision, got {:?}", other),
    }
    let ts = root.new_daily_channel_plan(Category::Trucks, "XASD", 25, 5, 2021).unwrap();
    root.register_daily_channel(Category::Trucks, "XASD", info("d1"), "psw", ts).unwrap();
    // The same date again is reused, not rejected: from the cache under the
    // same password...
    match root
        .get_or_create_daily_channel_plan(Category::Trucks, "XASD", "psw", 25, 5, 2021)
        .unwrap()
    {
        DailyDecision::Cached(ch) => assert_eq!(ch.creation_timestamp(), ts),
        other => panic!("expected the cached handle, got {:?}", other),
    }
    // ...and by import under another one.
    match root
        .get_or_create_daily_channel_plan(Category::Trucks, "XASD", "other", 25, 5, 2021)
        .unwrap()
    {
        DailyDecision::NeedImport(entry, entry_ts) => {
            assert_eq!(entry, info("d1"));
            assert_eq!(entry_ts, ts);
        },
        other => panic!("expected an import decision, got {:?}", other),
    }
    // An impossible date still fails validation, and an unknown actor is
    // still not found.
    let r = root.get_or_create_daily_channel_plan(Category::Trucks, "XASD", "psw", 31, 4, 2021);
    assert_eq!(r.unwrap_err(), ChannelError::Validation);
    let r = root.get_or_create_daily_channel_plan(Category::Trucks, "NOPE", "psw", 25, 5, 2021);
    assert_eq!(r.unwrap_err(), ChannelError::NotFound);
}

#[test]
fn fetched_entries_are_truncated_to_midnight() {
    // A directory entry fetched with a mid-day stamp stands for its whole
    // calendar day: restoring normalizes it to the day's midnight.
    let midday = 1621900800 + 7 * 3600 + 123;
    let actor = ActorChannel::from_remote(
        Category::Trucks,
        "XASD",
        info("xasd"),
        vec![DailyChannelMsg::new(info("d1"), Category::Trucks, "XASD", midday)],
        false,
    );
    let days = actor.daily_channels_info();
    assert_eq!(days.len(), 1);
    assert_eq!(days[0].creation_timestamp(), 1621900800);
    assert_eq!(days[0].creation_date(), "25/05/2021");
    // The creation rule therefore treats that calendar day as taken.
    let r = actor.new_daily_channel_plan(25, 5, 2021);
    assert_eq!(r.unwrap_err(), ChannelError::Duplicate);
    // The date-string lookup agrees with the day-keyed rule.
    assert_eq!(actor.daily_channel_info("25/05/2021").unwrap(), info("d1"));
}
