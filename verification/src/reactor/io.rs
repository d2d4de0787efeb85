//! Events of the operating system, and the channels that take them to the tasks
//! that wait for them.
use sharded_slab::Slab;
use tokio::sync::mpsc::UnboundedSender;
use vstd::prelude::*;

verus! {

/// What an event says of its source.
pub ghost struct Readiness {
    /// There is something to read.
    pub readable: bool,
    /// There is room to write.
    pub writable: bool,
    /// The other side will send no more.
    pub read_closed: bool,
    /// The other side will take no more.
    pub write_closed: bool,
}

/// What happened to a source, one bit for each kind of readiness.
#[derive(Clone, Copy, PartialEq, Eq, Structural, Debug)]
pub struct Event(u8);

impl View for Event {
    type V = Readiness;

    closed spec fn view(&self) -> Readiness {
        Readiness {
            readable: self.0 & 1 != 0,
            writable: self.0 & 2 != 0,
            read_closed: self.0 & 4 != 0,
            write_closed: self.0 & 8 != 0,
        }
    }
}

impl Event {
    /// The event in one byte.
    pub closed spec fn bits(self) -> u8 {
        self.0
    }

    /// An event of which the operating system reported these.
    pub fn new(readable: bool, writable: bool, read_closed: bool, write_closed: bool) -> (event:
        Event)
        ensures
            event@ == (Readiness { readable, writable, read_closed, write_closed }),
            event.bits() == (if readable {
                1int
            } else {
                0
            }) + (if writable {
                2int
            } else {
                0
            }) + (if read_closed {
                4int
            } else {
                0
            }) + (if write_closed {
                8int
            } else {
                0
            }),
    {
        let mut event: u8 = 0;
        if readable {
            event = event | 1;
        }
        if writable {
            event = event | (1u8 << 1);
        }
        if read_closed {
            event = event | (1u8 << 2);
        }
        if write_closed {
            event = event | (1u8 << 3);
        }
        let ghost r: u8 = if readable { 1 } else { 0 };
        let ghost w: u8 = if writable { 2 } else { 0 };
        let ghost rc: u8 = if read_closed { 4 } else { 0 };
        let ghost wc: u8 = if write_closed { 8 } else { 0 };
        proof {
            assert(1u8 << 1 == 2 && 1u8 << 2 == 4 && 1u8 << 3 == 8) by (bit_vector);
            assert(0u8 | 1 == 1) by (bit_vector);
            assert(forall|e: u8| #[trigger] (e | 0u8) == e) by (bit_vector);
            assert(event == (((0u8 | r) | w) | rc) | wc);
            assert(event & 1 == r && event & 2 == w && event & 4 == rc && event & 8 == wc && event
                == r + w + rc + wc) by (bit_vector)
                requires
                    event == (((0u8 | r) | w) | rc) | wc,
                    r == 0 || r == 1,
                    w == 0 || w == 2,
                    rc == 0 || rc == 4,
                    wc == 0 || wc == 8,
            ;
        }
        Event(event)
    }

    /// Whether reading will not block: there is something to read, or the other
    /// side will send no more.
    pub fn is_readable(&self) -> (readable: bool)
        ensures
            readable == (self@.readable || self@.read_closed),
            self@.read_closed ==> readable,
    {
        self.0 & 1 != 0 || self.is_read_closed()
    }

    /// Whether writing will not block: there is room, or the other side will
    /// take no more.
    pub fn is_writable(&self) -> (writable: bool)
        ensures
            writable == (self@.writable || self@.write_closed),
            self@.write_closed ==> writable,
    {
        self.0 & 2 != 0 || self.is_write_closed()
    }

    /// Whether the other side will send no more.
    pub fn is_read_closed(&self) -> (closed: bool)
        ensures
            closed == self@.read_closed,
    {
        self.0 & 4 != 0
    }

    /// Whether the other side will take no more.
    pub fn is_write_closed(&self) -> (closed: bool)
        ensures
            closed == self@.write_closed,
    {
        self.0 & 8 != 0
    }
}

/// The sending half of a channel without a limit, as `tokio` has it.
#[verifier::external_type_specification]
#[verifier::external_body]
#[verifier::reject_recursive_types(T)]
pub struct ExUnboundedSender<T>(tokio::sync::mpsc::UnboundedSender<T>);

/// The token of the events that only end a wait. No channel stands under it.
pub const WAKE_TOKEN: usize = usize::MAX;

/// What became of an event.
#[derive(Clone, Copy, PartialEq, Eq, Structural, Debug)]
pub enum Delivery {
    /// No channel stands under the event's token.
    Absent,
    /// The channel has taken the event.
    Delivered,
    /// The other end of the channel is gone.
    Closed,
}

/// Why waiting for the operating system ended without events.
#[derive(Clone, Copy, PartialEq, Eq, Structural, Debug)]
pub enum PollError {
    /// A signal came in between.
    Interrupted,
    /// Anything else.
    Other,
}

/// Sending halves of channels, each under a key of its own: a
/// [`sharded_slab::Slab`]. Nobody else holds the slab, and no reference into it
/// outlives a call.
#[verifier::external_body]
pub struct Senders {
    slab: Slab<UnboundedSender<Event>>,
}

/// A channel, and the events (as bytes) that were handed to it so far.
pub type Handed = (UnboundedSender<Event>, Seq<u8>);

/// The keys of a [`Senders`], each with its channel and what was handed to that
/// through it so far.
pub uninterp spec fn handed(senders: Senders) -> Map<usize, (UnboundedSender<Event>, Seq<u8>)>;

/// Every event that was to be sent through a [`Senders`]: for which key, the event
/// as a byte, and what came of it, the first one first.
pub uninterp spec fn sends(senders: Senders) -> Seq<(usize, u8, Delivery)>;

/// `Slab::new`: there is no key yet.
#[verifier::external_body]
fn new_senders() -> (senders: Senders)
    ensures
        handed(senders) == (Map::<usize, Handed>::empty()),
        sends(senders) == (Seq::<(usize, u8, Delivery)>::empty()),
{
    Senders { slab: Slab::new() }
}

/// How many values a slab has room for at least: a thread puts its values into up
/// to sixteen pages, or more where a word has more than thirty-two bits, of which
/// the first has thirty-two slots and each of the others twice as many as the one
/// before.
pub const SLAB_ROOM: usize = 2_097_120;

/// `Slab::insert`: the value stands under a key that was not in use, or, where
/// there is no room, nothing changes. A key is made of a generation, the number
/// of a thread and an address; the bits for the number of a thread have room for
/// more than the slab takes, so no key has all of its bits set. There is room as
/// long as one of the pages of the calling thread has a free slot; removed values
/// free theirs. Whether there is room for more than [`SLAB_ROOM`] values is not
/// stated. The call panics in a thread beyond those that a slab
/// serves, which its arguments do not show.
#[verifier::external_body]
fn insert(senders: &mut Senders, sender: UnboundedSender<Event>) -> (key: Option<usize>)
    ensures
        key matches Some(key) ==> key != usize::MAX && !handed(*old(senders)).contains_key(key)
            && handed(*final(senders)) == handed(*old(senders)).insert(
            key,
            (sender, Seq::<u8>::empty()),
        ),
        key is None ==> handed(*final(senders)) == handed(*old(senders)),
        sends(*final(senders)) == sends(*old(senders)),
        handed(*old(senders)).dom().finite() && handed(*old(senders)).len() < SLAB_ROOM
            ==> key is Some,
{
    senders.slab.insert(sender)
}

/// `Slab::contains`: whether a value stands under a key.
#[verifier::external_body]
fn contains(senders: &Senders, key: usize) -> (found: bool)
    ensures
        found == handed(*senders).contains_key(key),
{
    senders.slab.contains(key)
}

/// `Slab::remove`, for a key that is in use: it no longer is. As with
/// `Slab::insert`, a thread beyond those that a slab serves panics.
#[verifier::external_body]
fn remove(senders: &mut Senders, key: usize)
    requires
        handed(*old(senders)).contains_key(key),
    ensures
        handed(*final(senders)) == handed(*old(senders)).remove(key),
        sends(*final(senders)) == sends(*old(senders)),
{
    senders.slab.remove(key);
}

/// `Slab::get` and, where there is a value, `UnboundedSender::send` on it: the
/// channel takes the event unless its receiving half has been dropped or closed,
/// which is up to whoever holds that half.
#[verifier::external_body]
fn send(senders: &mut Senders, key: usize, event: Event) -> (delivery: Delivery)
    ensures
        delivery is Absent <==> !handed(*old(senders)).contains_key(key),
        delivery is Delivered ==> handed(*final(senders)) == handed(*old(senders)).insert(
            key,
            (handed(*old(senders))[key].0, handed(*old(senders))[key].1.push(event.bits())),
        ),
        !(delivery is Delivered) ==> handed(*final(senders)) == handed(*old(senders)),
        sends(*final(senders)) == sends(*old(senders)).push((key, event.bits(), delivery)),
{
    match senders.slab.get(key) {
        None => Delivery::Absent,
        Some(sender) => match sender.send(event) {
            Ok(()) => Delivery::Delivered,
            Err(_) => Delivery::Closed,
        },
    }
}

/// Whether an event for `token` can end as `delivery` says, where `channels` are
/// the channels and what each was handed.
pub open spec fn possible(
    channels: Map<usize, Handed>,
    token: usize,
    delivery: Delivery,
) -> bool {
    delivery is Absent <==> !channels.contains_key(token)
}

/// The channels after an event for `token` ended as `delivery` says: it is the
/// last that its channel was handed, and a channel whose other end is gone goes
/// too.
pub open spec fn delivered(
    channels: Map<usize, Handed>,
    token: usize,
    event: Event,
    delivery: Delivery,
) -> Map<usize, Handed> {
    match delivery {
        Delivery::Absent => channels,
        Delivery::Delivered => channels.insert(
            token,
            (channels[token].0, channels[token].1.push(event.bits())),
        ),
        Delivery::Closed => channels.remove(token),
    }
}

/// The channels after these events ended as `deliveries` says, one after the
/// other.
pub open spec fn dispatched(
    channels: Map<usize, Handed>,
    events: Seq<(usize, Event)>,
    deliveries: Seq<Delivery>,
) -> Map<usize, Handed>
    decreases events.len(),
{
    if events.len() == 0 {
        channels
    } else {
        delivered(
            dispatched(channels, events.drop_last(), deliveries.drop_last()),
            events.last().0,
            events.last().1,
            deliveries.last(),
        )
    }
}

/// Whether these events can end as `deliveries` says, one after the other.
pub open spec fn dispatchable(
    channels: Map<usize, Handed>,
    events: Seq<(usize, Event)>,
    deliveries: Seq<Delivery>,
) -> bool
    decreases events.len(),
{
    deliveries.len() == events.len() && (events.len() > 0 ==> dispatchable(
        channels,
        events.drop_last(),
        deliveries.drop_last(),
    ) && possible(
        dispatched(channels, events.drop_last(), deliveries.drop_last()),
        events.last().0,
        deliveries.last(),
    ))
}

/// These events, each sent to the channel under its token, and what came of it.
pub open spec fn attempted(
    events: Seq<(usize, Event)>,
    deliveries: Seq<Delivery>,
) -> Seq<(usize, u8, Delivery)> {
    Seq::new(events.len(), |i: int| (events[i].0, events[i].1.bits(), deliveries[i]))
}

/// The events for `token` among `events`, as bytes, in their order.
pub open spec fn addressed(events: Seq<(usize, Event)>, token: usize) -> Seq<u8>
    decreases events.len(),
{
    if events.len() == 0 {
        Seq::empty()
    } else if events.last().0 == token {
        addressed(events.drop_last(), token).push(events.last().1.bits())
    } else {
        addressed(events.drop_last(), token)
    }
}

/// The channels of the sources that are registered with the operating system,
/// each under the token of its source.
pub struct Registry {
    tasks: Senders,
}

impl View for Registry {
    type V = Map<usize, Handed>;

    closed spec fn view(&self) -> Map<usize, Handed> {
        handed(self.tasks)
    }
}

impl Default for Registry {
    fn default() -> (registry: Self)
        ensures
            registry@ == (Map::<usize, Handed>::empty()),
            registry.sends() == (Seq::<(usize, u8, Delivery)>::empty()),
    {
        Registry { tasks: new_senders() }
    }
}

impl Registry {
    /// Every event that was to be sent to a channel: for which token, the event as a
    /// byte, and what came of it.
    pub closed spec fn sends(self) -> Seq<(usize, u8, Delivery)> {
        sends(self.tasks)
    }

    /// Adds a channel and gives out its token, unless there is no room. There is
    /// for [`SLAB_ROOM`] channels.
    pub fn register(&mut self, sender: UnboundedSender<Event>) -> (token: Option<usize>)
        ensures
            token matches Some(token) ==> token != WAKE_TOKEN && !old(self)@.contains_key(token)
                && final(self)@ == old(self)@.insert(token, (sender, Seq::<u8>::empty())),
            token is None ==> final(self)@ == old(self)@,
            old(self)@.dom().finite() && old(self)@.len() < SLAB_ROOM ==> token is Some,
            final(self).sends() == old(self).sends(),
    {
        insert(&mut self.tasks, sender)
    }

    /// Takes the channel of a source away, and tells whether there was one.
    pub fn deregister(&mut self, token: usize) -> (found: bool)
        ensures
            found == old(self)@.contains_key(token),
            final(self)@ == old(self)@.remove(token),
            final(self).sends() == old(self).sends(),
    {
        if contains(&self.tasks, token) {
            remove(&mut self.tasks, token);
            true
        } else {
            assert(final(self)@ =~= old(self)@.remove(token));
            false
        }
    }

    /// Hands an event to the channel of its source. Where the other end is gone
    /// the source should have been deregistered, so the channel is taken away.
    pub fn dispatch(&mut self, token: usize, event: Event) -> (delivery: Delivery)
        ensures
            possible(old(self)@, token, delivery),
            final(self)@ == delivered(old(self)@, token, event, delivery),
            delivery is Absent <==> !old(self)@.contains_key(token),
            delivery is Absent ==> final(self)@ == old(self)@,
            delivery is Closed ==> final(self)@ == old(self)@.remove(token),
            delivery is Delivered ==> final(self)@ == old(self)@.insert(
                token,
                (old(self)@[token].0, old(self)@[token].1.push(event.bits())),
            ),
            final(self).sends() == old(self).sends().push((token, event.bits(), delivery)),
    {
        let delivery = send(&mut self.tasks, token, event);
        self.settle(token, delivery);
        delivery
    }

    /// Takes the channel of a source away if its other end is gone.
    pub fn settle(&mut self, token: usize, delivery: Delivery)
        ensures
            final(self)@ == (if delivery is Closed {
                old(self)@.remove(token)
            } else {
                old(self)@
            }),
            final(self).sends() == old(self).sends(),
    {
        if let Delivery::Closed = delivery {
            self.deregister(token);
        }
    }

    /// Dispatches what a wait for the operating system brought, one event after
    /// the other, and tells what became of each. A wait that a signal ended
    /// brought nothing; one that failed otherwise is an error.
    pub fn process(
        &mut self,
        polled: Result<(), PollError>,
        events: &Vec<(usize, Event)>,
    ) -> (deliveries: Result<Vec<Delivery>, PollError>)
        ensures
            deliveries is Err <==> polled == Err::<(), PollError>(PollError::Other),
            deliveries matches Err(e) ==> e == PollError::Other,
            polled is Err ==> final(self)@ == old(self)@ && final(self).sends() == old(self).sends(),
            polled is Err && deliveries is Ok ==> deliveries->Ok_0@.len() == 0,
            polled is Ok ==> dispatchable(old(self)@, events@, deliveries->Ok_0@) && final(self)@
                == dispatched(old(self)@, events@, deliveries->Ok_0@),
            polled is Ok ==> final(self).sends() == old(self).sends() + attempted(
                events@,
                deliveries->Ok_0@,
            ),
            polled is Ok ==> {
                &&& deliveries->Ok_0@.len() == events@.len()
                &&& final(self).sends().len() == old(self).sends().len() + events@.len()
                &&& forall|i: int|
                    0 <= i < events@.len() ==> #[trigger] final(self).sends()[old(
                        self,
                    ).sends().len() + i] == (
                        events@[i].0,
                        events@[i].1.bits(),
                        deliveries->Ok_0@[i],
                    )
            },
    {
        let mut deliveries: Vec<Delivery> = Vec::new();
        match polled {
            Ok(()) => {},
            Err(PollError::Interrupted) => return Ok(deliveries),
            Err(e) => return Err(e),
        }
        let mut i: usize = 0;
        while i < events.len()
            invariant
                i <= events@.len(),
                dispatchable(old(self)@, events@.take(i as int), deliveries@),
                self@ == dispatched(old(self)@, events@.take(i as int), deliveries@),
                deliveries@.len() == i,
                self.sends() == old(self).sends() + attempted(events@.take(i as int), deliveries@),
            decreases events@.len() - i,
        {
            let (token, event) = events[i];
            let ghost before = deliveries@;
            let delivery = self.dispatch(token, event);
            deliveries.push(delivery);
            i += 1;
            assert(events@.take(i as int).drop_last() =~= events@.take(i - 1));
            assert(deliveries@.drop_last() =~= before);
            assert(attempted(events@.take(i as int), deliveries@) =~= attempted(
                events@.take(i - 1),
                before,
            ).push((token, event.bits(), delivery)));
        }
        assert(events@.take(i as int) =~= events@);
        Ok(deliveries)
    }
}

/// Every channel that is still there has been handed all the events for its
/// token, in their order, and no others.
pub proof fn law_events_reach_their_channel(
    channels: Map<usize, Handed>,
    events: Seq<(usize, Event)>,
    deliveries: Seq<Delivery>,
    token: usize,
)
    requires
        dispatchable(channels, events, deliveries),
        dispatched(channels, events, deliveries).contains_key(token),
    ensures
        channels.contains_key(token),
        dispatched(channels, events, deliveries)[token].0 == channels[token].0,
        dispatched(channels, events, deliveries)[token].1 == channels[token].1 + addressed(
            events,
            token,
        ),
    decreases events.len(),
{
    if events.len() > 0 {
        law_events_reach_their_channel(
            channels,
            events.drop_last(),
            deliveries.drop_last(),
            token,
        );
    }
}

/// A channel that no event is for stays as it is.
pub proof fn law_other_channels_are_untouched(
    channels: Map<usize, Handed>,
    events: Seq<(usize, Event)>,
    deliveries: Seq<Delivery>,
    token: usize,
)
    requires
        dispatchable(channels, events, deliveries),
        channels.contains_key(token),
        forall|i: int| 0 <= i < events.len() ==> (#[trigger] events[i]).0 != token,
    ensures
        dispatched(channels, events, deliveries).contains_key(token),
        dispatched(channels, events, deliveries)[token] == channels[token],
    decreases events.len(),
{
    if events.len() > 0 {
        assert forall|i: int| 0 <= i < events.drop_last().len() implies (
        #[trigger] events.drop_last()[i]).0 != token by {
            assert(events[i].0 != token);
        }
        law_other_channels_are_untouched(
            channels,
            events.drop_last(),
            deliveries.drop_last(),
            token,
        );
        assert(events[events.len() - 1].0 != token);
    }
}

/// A channel goes away only because its other end is gone: as long as no event
/// for it found that, it stays and gets them all.
pub proof fn law_open_channel_stays(
    channels: Map<usize, Handed>,
    events: Seq<(usize, Event)>,
    deliveries: Seq<Delivery>,
    token: usize,
)
    requires
        dispatchable(channels, events, deliveries),
        channels.contains_key(token),
        forall|i: int|
            0 <= i < events.len() && (#[trigger] events[i]).0 == token ==> !(
            deliveries[i] is Closed),
    ensures
        dispatched(channels, events, deliveries).contains_key(token),
        dispatched(channels, events, deliveries)[token].0 == channels[token].0,
        dispatched(channels, events, deliveries)[token].1 == channels[token].1 + addressed(
            events,
            token,
        ),
    decreases events.len(),
{
    if events.len() > 0 {
        assert forall|i: int|
            0 <= i < events.drop_last().len() && (#[trigger] events.drop_last()[i]).0
                == token implies !(deliveries.drop_last()[i] is Closed) by {
            assert(events[i].0 == token);
        }
        law_open_channel_stays(channels, events.drop_last(), deliveries.drop_last(), token);
        assert(events[events.len() - 1] == events.last());
    }
    law_events_reach_their_channel(channels, events, deliveries, token);
}

/// A source that is not registered gets nothing, whatever events there are for
/// it.
pub proof fn law_unregistered_source_gets_nothing(
    channels: Map<usize, Handed>,
    events: Seq<(usize, Event)>,
    deliveries: Seq<Delivery>,
    token: usize,
)
    requires
        dispatchable(channels, events, deliveries),
        !channels.contains_key(token),
    ensures
        !dispatched(channels, events, deliveries).contains_key(token),
    decreases events.len(),
{
    if events.len() > 0 {
        law_unregistered_source_gets_nothing(
            channels,
            events.drop_last(),
            deliveries.drop_last(),
            token,
        );
    }
}

/// No channel ever stands under the wake token: not at first, not after another
/// source is registered or deregistered, and not after events are dispatched.
pub proof fn law_wake_token_has_no_channel(
    channels: Map<usize, Handed>,
    token: usize,
    channel: Handed,
    events: Seq<(usize, Event)>,
    deliveries: Seq<Delivery>,
)
    requires
        !channels.contains_key(WAKE_TOKEN),
        token != WAKE_TOKEN,
        dispatchable(channels, events, deliveries),
    ensures
        !Map::<usize, Handed>::empty().contains_key(WAKE_TOKEN),
        !channels.insert(token, channel).contains_key(WAKE_TOKEN),
        !channels.remove(token).contains_key(WAKE_TOKEN),
        !dispatched(channels, events, deliveries).contains_key(WAKE_TOKEN),
{
    law_unregistered_source_gets_nothing(channels, events, deliveries, WAKE_TOKEN);
}

/// An event that only ends a wait changes no channel.
pub proof fn law_wakeup_disturbs_nobody(
    channels: Map<usize, Handed>,
    event: Event,
    delivery: Delivery,
)
    requires
        !channels.contains_key(WAKE_TOKEN),
        possible(channels, WAKE_TOKEN, delivery),
    ensures
        delivered(channels, WAKE_TOKEN, event, delivery) == channels,
{
}

/// The byte of an event has one bit for each kind of readiness.
pub proof fn law_bits_tell_readiness(event: Event)
    ensures
        event@.readable == (event.bits() & 1 != 0),
        event@.writable == (event.bits() & 2 != 0),
        event@.read_closed == (event.bits() & 4 != 0),
        event@.write_closed == (event.bits() & 8 != 0),
{
}

/// A channel is taken away only after an event was sent to it and its other end
/// turned out to be gone.
pub proof fn law_only_closed_channels_go(
    channels: Map<usize, Handed>,
    events: Seq<(usize, Event)>,
    deliveries: Seq<Delivery>,
    token: usize,
)
    requires
        dispatchable(channels, events, deliveries),
        channels.contains_key(token),
        !dispatched(channels, events, deliveries).contains_key(token),
    ensures
        exists|i: int|
            0 <= i < events.len() && (#[trigger] attempted(events, deliveries)[i]).0 == token
                && attempted(events, deliveries)[i].2 is Closed,
    decreases events.len(),
{
    let (before, ends) = (events.drop_last(), deliveries.drop_last());
    if dispatched(channels, before, ends).contains_key(token) {
        let i = events.len() - 1;
        assert(attempted(events, deliveries)[i].0 == token);
    } else {
        law_only_closed_channels_go(channels, before, ends, token);
        let i = choose|i: int|
            0 <= i < before.len() && (#[trigger] attempted(before, ends)[i]).0 == token
                && attempted(before, ends)[i].2 is Closed;
        assert(attempted(events, deliveries)[i] == attempted(before, ends)[i]);
    }
}

/// Every event that a wait brings is sent once, to the channel under its own token,
/// as it is, and in its turn.
pub proof fn law_every_event_is_sent(
    channels: Map<usize, Handed>,
    events: Seq<(usize, Event)>,
    deliveries: Seq<Delivery>,
    i: int,
)
    requires
        dispatchable(channels, events, deliveries),
    ensures
        deliveries.len() == events.len(),
        attempted(events, deliveries).len() == events.len(),
        0 <= i < events.len() ==> attempted(events, deliveries)[i].0 == events[i].0,
        0 <= i < events.len() ==> attempted(events, deliveries)[i].1 == events[i].1.bits(),
        0 <= i < events.len() ==> attempted(events, deliveries)[i].2 == deliveries[i],
{
}

/// An event that its channel takes is the last that the channel was handed, after
/// all that it was handed before. One that finds the other end gone takes the channel
/// away. Without a channel nothing happens. No other channel is concerned.
pub proof fn law_event_concerns_its_channel_only(
    channels: Map<usize, Handed>,
    token: usize,
    event: Event,
    delivery: Delivery,
    other: usize,
)
    requires
        possible(channels, token, delivery),
    ensures
        ({
            let after = delivered(channels, token, event, delivery);
            &&& delivery is Absent <==> !channels.contains_key(token)
            &&& delivery is Delivered <==> after.contains_key(token)
            &&& delivery is Delivered ==> after[token].0 == channels[token].0 && after[token].1
                == channels[token].1.push(event.bits())
            &&& other != token ==> (after.contains_key(other) <==> channels.contains_key(other))
            &&& other != token && channels.contains_key(other) ==> after[other] == channels[other]
        }),
{
}

/// A source whose channel turned out to have lost its other end is no longer there,
/// and later events for it find no channel.
pub proof fn law_closed_channel_goes(
    channels: Map<usize, Handed>,
    events: Seq<(usize, Event)>,
    deliveries: Seq<Delivery>,
    i: int,
    j: int,
)
    requires
        dispatchable(channels, events, deliveries),
        0 <= i < j <= events.len(),
        deliveries[i] is Closed,
    ensures
        !dispatched(channels, events, deliveries).contains_key(events[i].0),
        j < events.len() && events[j].0 == events[i].0 ==> deliveries[j] is Absent,
    decreases events.len(),
{
    let (before, ends) = (events.drop_last(), deliveries.drop_last());
    if i < events.len() - 1 {
        law_closed_channel_goes(
            channels,
            before,
            ends,
            i,
            if j < events.len() {
                j
            } else {
                j - 1
            },
        );
        assert(before[i] == events[i]);
        if j < before.len() {
            assert(before[j] == events[j] && ends[j] == deliveries[j]);
        }
    }
}

/// An event finds no channel if and only if none was registered under its token or
/// an earlier event found that channel's other end gone.
pub proof fn law_registered_source_is_found(
    channels: Map<usize, Handed>,
    events: Seq<(usize, Event)>,
    deliveries: Seq<Delivery>,
    i: int,
)
    requires
        dispatchable(channels, events, deliveries),
        0 <= i < events.len(),
    ensures
        deliveries[i] is Absent <==> !channels.contains_key(events[i].0) || exists|j: int|
            0 <= j < i && (#[trigger] events[j]).0 == events[i].0 && deliveries[j] is Closed,
    decreases events.len(),
{
    let (before, ends) = (events.drop_last(), deliveries.drop_last());
    if i < events.len() - 1 {
        law_registered_source_is_found(channels, before, ends, i);
        assert(ends[i] == deliveries[i] && before[i] == events[i]);
        if deliveries[i] is Absent && channels.contains_key(events[i].0) {
            let j = choose|j: int|
                0 <= j < i && (#[trigger] before[j]).0 == before[i].0 && ends[j] is Closed;
            assert(events[j] == before[j] && deliveries[j] == ends[j]);
        }
        if exists|j: int|
            0 <= j < i && (#[trigger] events[j]).0 == events[i].0 && deliveries[j] is Closed {
            let j = choose|j: int|
                0 <= j < i && (#[trigger] events[j]).0 == events[i].0 && deliveries[j] is Closed;
            assert(before[j] == events[j] && ends[j] == deliveries[j]);
        }
    } else {
        let token = events[i].0;
        if !channels.contains_key(token) {
            law_unregistered_source_gets_nothing(channels, before, ends, token);
        } else if deliveries[i] is Absent {
            law_only_closed_channels_go(channels, before, ends, token);
            let j = choose|j: int|
                0 <= j < before.len() && (#[trigger] attempted(before, ends)[j]).0 == token
                    && attempted(before, ends)[j].2 is Closed;
            assert(events[j] == before[j] && deliveries[j] == ends[j]);
        }
        if exists|j: int|
            0 <= j < i && (#[trigger] events[j]).0 == token && deliveries[j] is Closed {
            let j = choose|j: int|
                0 <= j < i && (#[trigger] events[j]).0 == token && deliveries[j] is Closed;
            law_closed_channel_goes(channels, events, deliveries, j, i);
        }
    }
}

/// The events for a token are those with that token and no others, each as it is and
/// in order.
pub proof fn law_addressed_events_have_the_token(
    events: Seq<(usize, Event)>,
    token: usize,
    event: Event,
    other: usize,
)
    ensures
        addressed(Seq::<(usize, Event)>::empty(), token) == Seq::<u8>::empty(),
        addressed(events.push((token, event)), token) == addressed(events, token).push(
            event.bits(),
        ),
        other != token ==> addressed(events.push((other, event)), token) == addressed(events, token),
{
    assert(events.push((token, event)).drop_last() =~= events);
    assert(events.push((other, event)).drop_last() =~= events);
}

} // verus!
