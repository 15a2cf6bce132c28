//! What the remote message store reports back, as plain values.

use vstd::prelude::*;

verus! {

/// One channel of a community as an attach event lists it.
/// `last_message_id` is absent where the channel never held a message.
#[derive(Clone, Copy, Debug, PartialEq, Eq)]
pub struct ChannelSummary {
    pub id: u64,
    pub last_message_id: Option<u64>,
}

/// How one delete-by-id call ended.
#[derive(Clone, Copy, Debug, PartialEq, Eq)]
pub enum DeleteOutcome {
    /// The store deleted the message.
    Deleted,
    /// The store holds no such message: it was deleted before.
    NotFound,
    /// The call failed for any other reason.
    Failed,
}

impl DeleteOutcome {
    /// Whether the message is gone from the store after the call.
    pub open spec fn leaves_message_gone(self) -> bool {
        self is Deleted || self is NotFound
    }

    /// Whether the call itself succeeded.
    pub fn is_completed(&self) -> (completed: bool)
        ensures
            completed == (*self is Deleted),
    {
        match self {
            DeleteOutcome::Deleted => true,
            _ => false,
        }
    }

    /// Whether the outcome is harmless: the message is gone, be it by this
    /// call or by an earlier one.
    pub fn is_benign(&self) -> (benign: bool)
        ensures
            benign == self.leaves_message_gone(),
    {
        match self {
            DeleteOutcome::Deleted => true,
            DeleteOutcome::NotFound => true,
            DeleteOutcome::Failed => false,
        }
    }
}

/// The last-message marker of the first channel in `channels` whose id is
/// `channel_id`; `None` where no channel has that id or that channel has no
/// marker.
pub open spec fn last_message_marker(channels: Seq<ChannelSummary>, channel_id: u64) -> Option<u64>
    decreases channels.len(),
{
    if channels.len() == 0 {
        None
    } else if channels.first().id == channel_id {
        channels.first().last_message_id
    } else {
        last_message_marker(channels.drop_first(), channel_id)
    }
}

/// Looks the channel `channel_id` up among `channels` and returns its
/// last-message marker.
pub fn find_last_message(channels: &Vec<ChannelSummary>, channel_id: u64) -> (marker: Option<u64>)
    ensures
        marker == last_message_marker(channels@, channel_id),
{
    let mut i: usize = 0;
    assert(channels@.skip(0) =~= channels@);
    while i < channels.len()
        invariant
            i <= channels.len(),
            last_message_marker(channels@, channel_id) == last_message_marker(
                channels@.skip(i as int),
                channel_id,
            ),
        decreases channels.len() - i,
    {
        let rest = Ghost(channels@.skip(i as int));
        assert(rest@.first() == channels@[i as int]);
        assert(rest@.drop_first() =~= channels@.skip(i + 1));
        if channels[i].id == channel_id {
            return channels[i].last_message_id;
        }
        i += 1;
    }
    None
}

} // verus!
