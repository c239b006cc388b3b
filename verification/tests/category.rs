use bioenpro4to_channel_manager::category_channel::CategoryChannel;
use bioenpro4to_channel_manager::channels::{Category, ChannelInfo};
use bioenpro4to_channel_manager::ChannelError;

fn info(tag: &str) -> ChannelInfo {
    ChannelInfo::new(format!("chan-{}", tag), format!("ann-{}", tag))
}

#[test]
fn category_channel_opens_and_registers_actors() {
    let mut cat = CategoryChannel::new(Category::Scales, true);
    assert_eq!(cat.category(), Category::Scales);
    // The address is unknown until the channel is opened.
    assert!(cat.channel_info().is_none());
    cat.mark_opened(info("scales"));
    assert_eq!(cat.channel_info().unwrap(), info("scales"));
    assert!(!cat.exists_actor("SCALE1"));
    let msg = cat.register_actor("SCALE1", info("scale1")).unwrap();
    assert_eq!(msg.actor_id(), "scale1");
    assert_eq!(msg.category(), "weighing_scales");
    assert_eq!(msg.address(), &info("scale1"));
    assert!(cat.exists_actor("scale1"));
    // Registered twice, in any case: a duplicate.
    let again = cat.register_actor("Scale1", info("other"));
    assert_eq!(again.unwrap_err(), ChannelError::Duplicate);
    // Directory reads.
    let actors = cat.actors_info();
    assert_eq!(actors.len(), 1);
    assert_eq!(actors[0].actor_id(), "scale1");
    assert!(cat.channels_of_actor("scale1").is_empty());
    assert!(cat.channels_of_actor("nobody").is_empty());
    // Daily creation through the category delegates to the actor.
    let ts = cat.new_daily_channel_plan("SCALE1", 28, 5, 2021).unwrap();
    assert_eq!(ts, 1622160000);
    let (dmsg, dch) = cat
        .register_daily_channel("SCALE1", info("d1"), "psw", ts)
        .unwrap();
    assert_eq!(dmsg.creation_date(), "28/05/2021");
    assert_eq!(dch.category(), Category::Scales);
    assert!(dch.mainnet());
    assert_eq!(cat.channels_of_actor("SCALE1").len(), 1);
    let r = cat.new_daily_channel_plan("SCALE1", 28, 5, 2021);
    assert_eq!(r.unwrap_err(), ChannelError::Duplicate);
    let r = cat.new_daily_channel_plan("nobody", 28, 5, 2021);
    assert_eq!(r.unwrap_err(), ChannelError::NotFound);
}
