use vstd::prelude::*;

verus! {

/// A reference to one message of a channel: the "channel_id:announce_id"
/// rendering of the channel's address together with the message id.
pub struct ChannelReference {
    channel_address: String,
    msg_id: String,
}

impl ChannelReference {
    /// The stored channel address rendering, for specifications.
    pub closed spec fn spec_channel_address(&self) -> Seq<char> {
        self.channel_address@
    }

    /// The stored message id, for specifications.
    pub closed spec fn spec_msg_id(&self) -> Seq<char> {
        self.msg_id@
    }

    pub fn new(channel_id: String, announce_id: String, msg_id: String) -> (r: Self)
        ensures
            r.spec_channel_address() == channel_id@ + seq![':'] + announce_id@,
            r.spec_msg_id() == msg_id@,
    {
        proof {
            reveal_strlit(":");
        }
        let ghost cid = channel_id@;
        let mut channel_address = channel_id;
        channel_address.append(":");
        channel_address.append(announce_id.as_str());
        proof {
            assert(channel_address@ =~= cid + seq![':'] + announce_id@);
        }
        ChannelReference { channel_address, msg_id }
    }
}

} // verus!
