//! Channels and their registry.
//!
//! A subscriber is named by the id of the client whose inbound bus takes the
//! channel's traffic. Two subscribers are the same one exactly when their
//! ids are equal, whatever their buses hold.

use crate::error::ChatError;
use vstd::prelude::*;

verus! {

/// The position of the first `s` among `subs`, or their number where there
/// is none.
pub open spec fn first_at(subs: Seq<usize>, s: usize) -> int
    decreases subs.len(),
{
    if subs.len() == 0 || subs.first() == s {
        0
    } else {
        1 + first_at(subs.drop_first(), s)
    }
}

/// What `first_at` finds: nothing before it is `s`, and it is either an `s`
/// or the end.
pub proof fn lemma_first_at(subs: Seq<usize>, s: usize)
    ensures
        0 <= first_at(subs, s) <= subs.len(),
        forall|k: int| 0 <= k < first_at(subs, s) ==> subs[k] != s,
        first_at(subs, s) < subs.len() ==> subs[first_at(subs, s)] == s,
        first_at(subs, s) < subs.len() <==> subs.contains(s),
    decreases subs.len(),
{
    if subs.len() > 0 && subs.first() != s {
        let t = subs.drop_first();
        lemma_first_at(t, s);
        assert forall|k: int| 0 <= k < first_at(subs, s) implies subs[k] != s by {
            if k > 0 {
                assert(subs[k] == t[k - 1]);
            }
        }
    }
}

/// A position that `first_at` must return.
pub proof fn lemma_first_at_is(subs: Seq<usize>, s: usize, i: int)
    requires
        0 <= i <= subs.len(),
        forall|k: int| 0 <= k < i ==> subs[k] != s,
        i < subs.len() ==> subs[i] == s,
    ensures
        first_at(subs, s) == i,
{
    lemma_first_at(subs, s);
}

/// A named group of subscribers.
#[derive(Debug)]
pub struct Channel {
    pub id: usize,
    pub name: String,
    pub subscribers: Vec<usize>,
}

/// A channel as plain values.
pub struct ChannelView {
    pub id: usize,
    pub name: Seq<char>,
    pub subscribers: Seq<usize>,
}

impl ChannelView {
    /// This channel with `subscriber` added at the end of its list.
    pub open spec fn with_subscriber(self, subscriber: usize) -> ChannelView {
        ChannelView { subscribers: self.subscribers.push(subscriber), ..self }
    }

    /// This channel without the first entry of `subscriber` on its list.
    pub open spec fn without_subscriber(self, subscriber: usize) -> ChannelView {
        if self.subscribers.contains(subscriber) {
            ChannelView {
                subscribers: self.subscribers.remove(first_at(self.subscribers, subscriber)),
                ..self
            }
        } else {
            self
        }
    }
}

impl View for Channel {
    type V = ChannelView;

    open spec fn view(&self) -> ChannelView {
        ChannelView { id: self.id, name: self.name@, subscribers: self.subscribers@ }
    }
}

impl Channel {
    /// A channel without subscribers.
    pub fn new(id: usize, name: String) -> (channel: Self)
        ensures
            channel@ == (ChannelView { id, name: name@, subscribers: Seq::empty() }),
    {
        Channel { id, name, subscribers: Vec::new() }
    }

    /// Puts `subscriber` at the end of the list. This never fails, and it
    /// does not look whether the subscriber is on the list already.
    pub fn add_subscriber(&mut self, subscriber: usize) -> (r: Result<(), ChatError>)
        ensures
            r is Ok,
            final(self)@ == old(self)@.with_subscriber(subscriber),
    {
        self.subscribers.push(subscriber);
        Ok(())
    }

    /// Takes the first entry of `subscriber` off the list. A subscriber that
    /// is not on the list is an error, and the list stays as it was.
    pub fn remove_subscriber(&mut self, subscriber: usize) -> (r: Result<(), ChatError>)
        ensures
            final(self)@ == old(self)@.without_subscriber(subscriber),
            old(self)@.subscribers.contains(subscriber) ==> r is Ok,
            !old(self)@.subscribers.contains(subscriber) ==> r == Err::<(), ChatError>(
                ChatError::NotSubscribed,
            ),
    {
        let mut i: usize = 0;
        while i < self.subscribers.len() && self.subscribers[i] != subscriber
            invariant
                i <= self.subscribers.len(),
                *self == *old(self),
                forall|k: int| 0 <= k < i ==> self.subscribers@[k] != subscriber,
            decreases self.subscribers.len() - i,
        {
            i += 1;
        }
        proof {
            lemma_first_at(self.subscribers@, subscriber);
            lemma_first_at_is(self.subscribers@, subscriber, i as int);
        }
        if i < self.subscribers.len() {
            self.subscribers.remove(i);
            Ok(())
        } else {
            Err(ChatError::NotSubscribed)
        }
    }

    /// The subscribers as they stand now, in the order in which they joined.
    pub fn get_all_subscribers(&self) -> (subscribers: Vec<usize>)
        ensures
            subscribers@ == self@.subscribers,
    {
        let mut subscribers: Vec<usize> = Vec::new();
        let mut i: usize = 0;
        while i < self.subscribers.len()
            invariant
                i <= self.subscribers.len(),
                subscribers@ == self.subscribers@.take(i as int),
            decreases self.subscribers.len() - i,
        {
            subscribers.push(self.subscribers[i]);
            i += 1;
        }
        subscribers
    }
}

impl Clone for Channel {
    fn clone(&self) -> (channel: Self)
        ensures
            channel@ == self@,
    {
        Channel {
            id: self.id,
            name: self.name.clone(),
            subscribers: self.get_all_subscribers(),
        }
    }
}

/// The channels that a run of `Channel` values holds.
pub open spec fn channel_views(list: Seq<Channel>) -> Seq<ChannelView> {
    Seq::new(list.len(), |i: int| list[i]@)
}

/// The position of the first channel called `name`, or the number of
/// channels where none is.
pub open spec fn named_at(channels: Seq<ChannelView>, name: Seq<char>) -> int
    decreases channels.len(),
{
    if channels.len() == 0 || channels.first().name == name {
        0
    } else {
        1 + named_at(channels.drop_first(), name)
    }
}

/// Whether a channel is called `name`.
pub open spec fn has_name(channels: Seq<ChannelView>, name: Seq<char>) -> bool {
    exists|i: int| 0 <= i < channels.len() && (#[trigger] channels[i]).name == name
}

/// The position of the first channel with the id `id`, or the number of
/// channels where none has it.
pub open spec fn id_at(channels: Seq<ChannelView>, id: usize) -> int
    decreases channels.len(),
{
    if channels.len() == 0 || channels.first().id == id {
        0
    } else {
        1 + id_at(channels.drop_first(), id)
    }
}

/// What `named_at` finds: no channel before it has the name, and it is
/// either the first that has it, or the end where none has.
pub proof fn lemma_named_at(channels: Seq<ChannelView>, name: Seq<char>)
    ensures
        0 <= named_at(channels, name) <= channels.len(),
        forall|k: int| 0 <= k < named_at(channels, name) ==> (#[trigger] channels[k]).name != name,
        named_at(channels, name) < channels.len() ==> channels[named_at(channels, name)].name
            == name,
        named_at(channels, name) < channels.len() <==> has_name(channels, name),
    decreases channels.len(),
{
    if channels.len() > 0 && channels.first().name != name {
        let t = channels.drop_first();
        lemma_named_at(t, name);
        assert forall|k: int| 0 <= k < named_at(channels, name) implies (#[trigger] channels[k]).name
            != name by {
            if k > 0 {
                assert(channels[k] == t[k - 1]);
            }
        }
    }
}

/// A position that `named_at` must return.
pub proof fn lemma_named_at_is(channels: Seq<ChannelView>, name: Seq<char>, i: int)
    requires
        0 <= i <= channels.len(),
        forall|k: int| 0 <= k < i ==> (#[trigger] channels[k]).name != name,
        i < channels.len() ==> channels[i].name == name,
    ensures
        named_at(channels, name) == i,
{
    lemma_named_at(channels, name);
}

/// A position that `id_at` must return.
pub proof fn lemma_id_at_is(channels: Seq<ChannelView>, id: usize, i: int)
    requires
        0 <= i <= channels.len(),
        forall|k: int| 0 <= k < i ==> (#[trigger] channels[k]).id != id,
        i < channels.len() ==> channels[i].id == id,
    ensures
        id_at(channels, id) == i,
    decreases channels.len(),
{
    if channels.len() > 0 && channels.first().id != id {
        let t = channels.drop_first();
        lemma_id_at_is(t, id, i - 1);
    }
}

/// One more channel at the end of the run is one more at the end of what it
/// holds.
pub proof fn lemma_channel_views_push(list: Seq<Channel>, channel: Channel)
    ensures
        channel_views(list.push(channel)) == channel_views(list).push(channel@),
{
}

/// A channel replaced in the run is replaced in what it holds.
pub proof fn lemma_channel_views_update(list: Seq<Channel>, i: int, channel: Channel)
    requires
        0 <= i < list.len(),
    ensures
        channel_views(list.update(i, channel)) == channel_views(list).update(i, channel@),
{
}

/// A channel taken out of the run is taken out of what it holds.
pub proof fn lemma_channel_views_remove(list: Seq<Channel>, i: int)
    requires
        0 <= i < list.len(),
    ensures
        channel_views(list.remove(i)) == channel_views(list).remove(i),
{
}

/// The registry of channels, in the order in which they were added. A
/// channel is addressed by its position.
#[derive(Debug)]
pub struct ChannelList {
    pub list: Vec<Channel>,
}

impl View for ChannelList {
    type V = Seq<ChannelView>;

    open spec fn view(&self) -> Seq<ChannelView> {
        channel_views(self.list@)
    }
}

impl ChannelList {
    /// A registry without channels.
    pub fn new() -> (channels: Self)
        ensures
            channels@ == Seq::<ChannelView>::empty(),
    {
        let channels = ChannelList { list: Vec::new() };
        channels
    }

    /// Puts `channel` at the end of the registry. This never fails; which id
    /// and which name the channel carries is the caller's business.
    pub fn add_channel(&mut self, channel: Channel) -> (r: Result<(), ChatError>)
        ensures
            r is Ok,
            final(self)@ == old(self)@.push(channel@),
    {
        proof {
            lemma_channel_views_push(self.list@, channel);
        }
        self.list.push(channel);
        Ok(())
    }

    /// Takes the first channel with the id `id` out of the registry; the
    /// channels behind it move up by one. An id that no channel has is an
    /// error, and the registry stays as it was.
    pub fn remove_channel(&mut self, id: usize) -> (r: Result<(), ChatError>)
        ensures
            id_at(old(self)@, id) < old(self)@.len() ==> r is Ok && final(self)@ == old(
                self,
            )@.remove(id_at(old(self)@, id)),
            id_at(old(self)@, id) >= old(self)@.len() ==> r == Err::<(), ChatError>(
                ChatError::UnknownChannel,
            ) && final(self)@ == old(self)@,
    {
        let mut i: usize = 0;
        while i < self.list.len() && self.list[i].id != id
            invariant
                i <= self.list.len(),
                *self == *old(self),
                forall|k: int| 0 <= k < i ==> (#[trigger] self@[k]).id != id,
            decreases self.list.len() - i,
        {
            i += 1;
        }
        proof {
            lemma_id_at_is(self@, id, i as int);
        }
        if i < self.list.len() {
            proof {
                lemma_channel_views_remove(self.list@, i as int);
            }
            self.list.remove(i);
            Ok(())
        } else {
            Err(ChatError::UnknownChannel)
        }
    }

    pub fn len(&self) -> (n: usize)
        ensures
            n == self@.len(),
    {
        self.list.len()
    }

    /// The channel that new clients join: the first of the registry.
    pub fn get_default_channel(&self) -> (channel: &Channel)
        requires
            self@.len() > 0,
        ensures
            *channel == self.list@[0],
            channel@ == self@[0],
    {
        &self.list[0]
    }

    /// The first channel called exactly `name`, if there is one.
    pub fn get_channel(&self, name: String) -> (found: Option<&Channel>)
        ensures
            has_name(self@, name@) ==> found == Some(&self.list@[named_at(self@, name@)]),
            !has_name(self@, name@) ==> found is None,
    {
        let mut i: usize = 0;
        while i < self.list.len() && self.list[i].name != name
            invariant
                i <= self.list.len(),
                forall|k: int| 0 <= k < i ==> (#[trigger] self@[k]).name != name@,
            decreases self.list.len() - i,
        {
            i += 1;
        }
        proof {
            lemma_named_at(self@, name@);
            lemma_named_at_is(self@, name@, i as int);
        }
        if i < self.list.len() {
            Some(&self.list[i])
        } else {
            None
        }
    }
}

impl Default for ChannelList {
    fn default() -> (channels: Self)
        ensures
            channels@ == Seq::<ChannelView>::empty(),
    {
        ChannelList::new()
    }
}

} // verus!
