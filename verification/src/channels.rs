use vstd::prelude::*;
use crate::text::{ascii_lower, to_lowercase};

verus! {

/// The fixed set of channel categories of the hierarchy.
#[derive(Clone, Copy, Debug, PartialEq, Eq, Hash, Structural)]
pub enum Category {
    Trucks,
    Scales,
    BioCells,
}

/// The canonical lowercase wire tag of a category.
pub open spec fn category_tag(c: Category) -> Seq<char> {
    match c {
        Category::Trucks => "trucks"@,
        Category::Scales => "weighing_scales"@,
        Category::BioCells => "biocells"@,
    }
}

/// The category whose wire tag a (lower-cased) string is, if any.
pub open spec fn category_of_tag(t: Seq<char>) -> Option<Category> {
    if t == "trucks"@ {
        Some(Category::Trucks)
    } else if t == "weighing_scales"@ {
        Some(Category::Scales)
    } else if t == "biocells"@ {
        Some(Category::BioCells)
    } else {
        None
    }
}

impl Category {
    pub fn is_trucks(&self) -> (r: bool)
        ensures
            r == (*self == Category::Trucks),
    {
        matches!(self, Category::Trucks)
    }

    pub fn is_scales(&self) -> (r: bool)
        ensures
            r == (*self == Category::Scales),
    {
        matches!(self, Category::Scales)
    }

    pub fn is_biocells(&self) -> (r: bool)
        ensures
            r == (*self == Category::BioCells),
    {
        matches!(self, Category::BioCells)
    }

    /// The canonical lowercase wire tag of the category.
    pub fn to_string(&self) -> (r: String)
        ensures
            r@ == category_tag(*self),
    {
        match self {
            Category::Trucks => String::from_str("trucks"),
            Category::Scales => String::from_str("weighing_scales"),
            Category::BioCells => String::from_str("biocells"),
        }
    }

    /// The category named by a string, compared case-insensitively against
    /// the three wire tags.
    pub fn from_string(category: &str) -> (r: Option<Category>)
        ensures
            r == category_of_tag(ascii_lower(category@)),
    {
        let lowered = to_lowercase(category);
        if lowered == String::from_str("trucks") {
            Some(Category::Trucks)
        } else if lowered == String::from_str("weighing_scales") {
            Some(Category::Scales)
        } else if lowered == String::from_str("biocells") {
            Some(Category::BioCells)
        } else {
            None
        }
    }
}

/// The immutable identity of a channel: its id and the id of its announce
/// message. Two addresses are equal exactly when both parts match.
#[derive(Debug)]
pub struct ChannelInfo {
    channel_id: String,
    announce_id: String,
}

/// The "channel_id:announce_id" rendering of a channel address.
pub open spec fn info_string(info: ChannelInfo) -> Seq<char> {
    info.spec_channel_id() + seq![':'] + info.spec_announce_id()
}

/// The browser URL under which a channel can be inspected.
pub open spec fn explorer_url_chars(info: ChannelInfo) -> Seq<char> {
    "https://streams-chrysalis-explorer.netlify.app/channel/"@ + info_string(info)
}

impl ChannelInfo {
    pub fn new(channel_id: String, announce_id: String) -> (r: Self)
        ensures
            r.spec_channel_id() == channel_id@,
            r.spec_announce_id() == announce_id@,
    {
        ChannelInfo { channel_id, announce_id }
    }

    pub fn channel_id(&self) -> (r: &str)
        ensures
            r@ == self.spec_channel_id(),
    {
        self.channel_id.as_str()
    }

    pub fn announce_id(&self) -> (r: &str)
        ensures
            r@ == self.spec_announce_id(),
    {
        self.announce_id.as_str()
    }

    /// The view of the channel id, for specifications.
    pub closed spec fn spec_channel_id(&self) -> Seq<char> {
        self.channel_id@
    }

    /// The view of the announce id, for specifications.
    pub closed spec fn spec_announce_id(&self) -> Seq<char> {
        self.announce_id@
    }

    /// The "channel_id:announce_id" rendering of the address.
    pub fn to_string(&self) -> (r: String)
        ensures
            r@ == info_string(*self),
    {
        proof {
            reveal_strlit(":");
        }
        let mut s = self.channel_id.clone();
        s.append(":");
        s.append(self.announce_id.as_str());
        proof {
            assert(s@ =~= info_string(*self));
        }
        s
    }

    /// The browser URL under which the channel can be inspected.
    pub fn explorer_url(&self) -> (r: String)
        ensures
            r@ == explorer_url_chars(*self),
    {
        let mut s = String::from_str("https://streams-chrysalis-explorer.netlify.app/channel/");
        let tail = self.to_string();
        s.append(tail.as_str());
        proof {
            assert(s@ =~= explorer_url_chars(*self));
        }
        s
    }
}

impl Clone for ChannelInfo {
    /// An address clones to an equal address.
    fn clone(&self) -> (r: Self)
        ensures
            r == *self,
    {
        ChannelInfo { channel_id: self.channel_id.clone(), announce_id: self.announce_id.clone() }
    }
}

impl PartialEq for ChannelInfo {
    fn eq(&self, other: &Self) -> (r: bool) {
        self.channel_id == other.channel_id && self.announce_id == other.announce_id
    }
}

impl vstd::std_specs::cmp::PartialEqSpecImpl for ChannelInfo {
    open spec fn obeys_eq_spec() -> bool {
        true
    }

    open spec fn eq_spec(&self, other: &Self) -> bool {
        self.spec_channel_id() == other.spec_channel_id() && self.spec_announce_id()
            == other.spec_announce_id()
    }
}

/// The fixed backend node endpoint selected by the mainnet flag.
pub open spec fn node_url_chars(mainnet: bool) -> Seq<char> {
    if mainnet {
        "https://chrysalis-nodes.iota.cafe/"@
    } else {
        "https://api.lb-0.testnet.chrysalis2.com"@
    }
}

/// The backend node endpoint selected by the mainnet flag; exactly two
/// endpoints exist.
pub fn node_url(mainnet: bool) -> (r: String)
    ensures
        r@ == node_url_chars(mainnet),
{
    if mainnet {
        String::from_str("https://chrysalis-nodes.iota.cafe/")
    } else {
        String::from_str("https://api.lb-0.testnet.chrysalis2.com")
    }
}

} // verus!
