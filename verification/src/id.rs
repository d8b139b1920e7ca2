use vstd::prelude::*;

verus! {

/// Which half of a channel an identifier names, with the channel's number.
#[derive(Copy, Clone, Debug, Eq, Hash, Ord, PartialEq, PartialOrd, Structural)]
pub enum ChannelKey {
    Sender(u64),
    Receiver(u64),
}

/// A value that identifies one half of a channel: all senders of a channel
/// share one identifier, and all its receivers share another.
#[derive(Copy, Clone, Debug, Eq, Hash, Ord, PartialEq, PartialOrd, Structural)]
pub struct ChannelId(pub ChannelKey);

impl ChannelId {
    /// The identifier of the sending half of channel `id`.
    pub fn sender(id: u64) -> (c: ChannelId)
        ensures
            c == ChannelId(ChannelKey::Sender(id)),
    {
        ChannelId(ChannelKey::Sender(id))
    }

    /// The identifier of the receiving half of channel `id`.
    pub fn receiver(id: u64) -> (c: ChannelId)
        ensures
            c == ChannelId(ChannelKey::Receiver(id)),
    {
        ChannelId(ChannelKey::Receiver(id))
    }
}

} // verus!
