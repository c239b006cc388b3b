use bioenpro4to_channel_manager::channels::{node_url, Category, ChannelInfo};
use bioenpro4to_channel_manager::messages::ChannelReference;
use bioenpro4to_channel_manager::ChannelError;

#[test]
fn category_predicates_and_tags() {
    assert!(Category::Trucks.is_trucks());
    assert!(!Category::Trucks.is_scales());
    assert!(!Category::Trucks.is_biocells());
    assert!(Category::Scales.is_scales());
    assert!(Category::BioCells.is_biocells());
    assert_eq!(Category::Trucks.to_string(), "trucks");
    assert_eq!(Category::Scales.to_string(), "weighing_scales");
    assert_eq!(Category::BioCells.to_string(), "biocells");
}

#[test]
fn category_from_string_is_case_insensitive() {
    assert_eq!(Category::from_string("trucks"), Some(Category::Trucks));
    assert_eq!(Category::from_string("TRUCKS"), Some(Category::Trucks));
    assert_eq!(Category::from_string("Weighing_Scales"), Some(Category::Scales));
    assert_eq!(Category::from_string("BIOCELLS"), Some(Category::BioCells));
    assert_eq!(Category::from_string("bio"), None);
    assert_eq!(Category::from_string(""), None);
    assert_eq!(Category::from_string("trucks "), None);
}

#[test]
fn channel_info_renders_its_address() {
    let info = ChannelInfo::new("abc123".to_string(), "def456".to_string());
    assert_eq!(info.channel_id(), "abc123");
    assert_eq!(info.announce_id(), "def456");
    assert_eq!(info.to_string(), "abc123:def456");
    assert_eq!(
        info.explorer_url(),
        "https://streams-chrysalis-explorer.netlify.app/channel/abc123:def456"
    );
    // Equality is an exact pair match.
    let same = ChannelInfo::new("abc123".to_string(), "def456".to_string());
    let other = ChannelInfo::new("abc123".to_string(), "xyz".to_string());
    assert!(info == same);
    assert!(info != other);
    let cloned = info.clone();
    assert!(cloned == info);
}

#[test]
fn node_url_selects_exactly_two_endpoints() {
    assert_eq!(node_url(true), "https://chrysalis-nodes.iota.cafe/");
    assert_eq!(node_url(false), "https://api.lb-0.testnet.chrysalis2.com");
}

#[test]
fn channel_reference_joins_the_address() {
    let _r = ChannelReference::new("abc".to_string(), "def".to_string(), "msg1".to_string());
}

#[test]
fn error_kinds_are_distinguishable() {
    assert!(ChannelError::Validation.is_validation());
    assert!(ChannelError::Duplicate.is_duplicate());
    assert!(ChannelError::NotFound.is_not_found());
    assert!(ChannelError::Backend.is_backend());
    assert!(ChannelError::Crypto.is_crypto());
    assert!(!ChannelError::Validation.is_duplicate());
    assert_eq!(ChannelError::Crypto.message(), "state decryption failed");
}
