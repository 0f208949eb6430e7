//! What the engine tells the core, and how that reaches the platform shell.
//!
//! Delivery goes through a **bounded queue with per-class coalescing**:
//!
//! - [`DeliveryClass::Coalescing`]: at most one instance waits.
//!   [`PlaybackEvent::PositionChanged`] and
//!   [`PlaybackEvent::VideoGeometryChanged`] describe an absolute current
//!   value, so the newest one is the true one.
//! - [`DeliveryClass::Critical`]: order preserved, never silently dropped.
//!
//! When critical events would overflow anyway, the queue collapses to a single
//! [`PlaybackEvent::EventsLost`] carrying how many went. The stream a consumer
//! sees is therefore either complete or says that it is not.
//!
//! While a callback runs the delivering thread is marked; a synchronous port
//! call made from inside the callback is refused with
//! [`PlaybackError::ReentrantCall`] instead of deadlocking.
use crate::playback::error::{Operation, PlaybackError};
use std::collections::VecDeque;
use vstd::prelude::*;

verus! {

/// Where playback is, as a whole.
#[derive(Debug, Clone, Copy, PartialEq, Eq, PartialOrd, Ord, Hash, Structural)]
pub enum PlaybackState {
    /// Nothing loaded yet.
    Idle,
    /// Loading, or refilling after a seek.
    Buffering,
    /// Loaded and able to play, but not playing.
    Ready,
    Playing,
    Paused,
    /// Reached the end of the medium.
    Ended,
    /// Failed; the accompanying [`PlaybackEvent::Failed`] carries why.
    Failed,
}

/// The stable lowercase name of a playback state.
pub open spec fn state_name(state: PlaybackState) -> Seq<char> {
    match state {
        PlaybackState::Idle => "idle"@,
        PlaybackState::Buffering => "buffering"@,
        PlaybackState::Ready => "ready"@,
        PlaybackState::Playing => "playing"@,
        PlaybackState::Paused => "paused"@,
        PlaybackState::Ended => "ended"@,
        PlaybackState::Failed => "failed"@,
    }
}

/// The debug name of a state.
pub open spec fn state_debug(value: PlaybackState) -> Seq<char> {
    match value {
        PlaybackState::Idle => "Idle"@,
        PlaybackState::Buffering => "Buffering"@,
        PlaybackState::Ready => "Ready"@,
        PlaybackState::Playing => "Playing"@,
        PlaybackState::Paused => "Paused"@,
        PlaybackState::Ended => "Ended"@,
        PlaybackState::Failed => "Failed"@,
    }
}

impl PlaybackState {
    /// The debug name of a state.
    pub fn debug_name(self) -> (name: &'static str)
        ensures
            name@ == state_debug(self),
    {
        proof {
            reveal_strlit("Idle");
            reveal_strlit("Buffering");
            reveal_strlit("Ready");
            reveal_strlit("Playing");
            reveal_strlit("Paused");
            reveal_strlit("Ended");
            reveal_strlit("Failed");
        }
        match self {
            PlaybackState::Idle => "Idle",
            PlaybackState::Buffering => "Buffering",
            PlaybackState::Ready => "Ready",
            PlaybackState::Playing => "Playing",
            PlaybackState::Paused => "Paused",
            PlaybackState::Ended => "Ended",
            PlaybackState::Failed => "Failed",
        }
    }

    /// Stable lowercase name. Safe to log.
    pub fn as_str(self) -> (name: &'static str)
        ensures
            name@ == state_name(self),
    {
        match self {
            PlaybackState::Idle => "idle",
            PlaybackState::Buffering => "buffering",
            PlaybackState::Ready => "ready",
            PlaybackState::Playing => "playing",
            PlaybackState::Paused => "paused",
            PlaybackState::Ended => "ended",
            PlaybackState::Failed => "failed",
        }
    }

    /// Whether media is loaded in this state.
    pub fn has_media(self) -> (loaded: bool)
        ensures
            loaded == (self != PlaybackState::Idle),
    {
        !matches!(self, PlaybackState::Idle)
    }
}

/// How an event must be treated when the consumer is behind.
#[derive(Debug, Clone, Copy, PartialEq, Eq, Structural)]
pub enum DeliveryClass {
    /// Only the newest instance is kept.
    Coalescing,
    /// Kept in order; never dropped without saying so.
    Critical,
}

/// Something the engine reports. Positions are in milliseconds.
#[derive(Debug, Clone, Copy, PartialEq, Eq, Structural)]
pub enum PlaybackEvent {
    /// Playback advanced. Coalescing.
    PositionChanged { position_ms: u64 },
    StateChanged { state: PlaybackState },
    /// A seek finished, at the position actually reached. Critical: it
    /// answers whether this seek landed, which a coalesced position cannot.
    SeekCompleted { position_ms: u64 },
    /// The track list changed and must be re-read.
    TracksChanged,
    /// The video's display size changed and must be re-read. Coalescing.
    VideoGeometryChanged,
    EndReached,
    Failed { error: PlaybackError },
    /// Delivery could not keep up and `dropped` critical events were lost;
    /// the consumer must resync.
    EventsLost { dropped: u32 },
}

/// The delivery class of an event.
pub open spec fn class_of(event: PlaybackEvent) -> DeliveryClass {
    match event {
        PlaybackEvent::PositionChanged { .. } => DeliveryClass::Coalescing,
        PlaybackEvent::VideoGeometryChanged => DeliveryClass::Coalescing,
        _ => DeliveryClass::Critical,
    }
}

/// Whether two events are coalescing events of the same variant, the only
/// case in which the newer replaces the older.
pub open spec fn same_coalescing_kind(a: PlaybackEvent, b: PlaybackEvent) -> bool {
    (a is PositionChanged && b is PositionChanged) || (a is VideoGeometryChanged
        && b is VideoGeometryChanged)
}

/// How many critical events an event stands for: one for a critical event,
/// the carried count for a loss marker, none for a coalescing event.
pub open spec fn loss_weight(event: PlaybackEvent) -> nat {
    match event {
        PlaybackEvent::EventsLost { dropped } => dropped as nat,
        PlaybackEvent::PositionChanged { .. } => 0,
        PlaybackEvent::VideoGeometryChanged => 0,
        _ => 1,
    }
}

/// The critical events a sequence of pending events stands for.
pub open spec fn weight_sum(events: Seq<PlaybackEvent>) -> nat
    decreases events.len(),
{
    if events.len() == 0 {
        0
    } else {
        weight_sum(events.drop_last()) + loss_weight(events.last())
    }
}

/// `events` without those that `newer` replaces, order kept.
pub open spec fn retained(events: Seq<PlaybackEvent>, newer: PlaybackEvent) -> Seq<PlaybackEvent>
    decreases events.len(),
{
    if events.len() == 0 {
        Seq::empty()
    } else {
        let kept = retained(events.drop_last(), newer);
        if same_coalescing_kind(events.last(), newer) {
            kept
        } else {
            kept.push(events.last())
        }
    }
}

/// The single loss marker a backlog collapses to: its critical events are
/// counted, saturating at `u32::MAX`; coalescing events are not losses.
pub open spec fn loss_marker(backlog: Seq<PlaybackEvent>) -> PlaybackEvent {
    let total = weight_sum(backlog);
    PlaybackEvent::EventsLost {
        dropped: if total > u32::MAX {
            u32::MAX
        } else {
            total as u32
        },
    }
}

/// The pending events after `event` is pushed onto `events` in a queue of
/// the given capacity.
pub open spec fn pushed(events: Seq<PlaybackEvent>, capacity: nat, event: PlaybackEvent) -> Seq<
    PlaybackEvent,
> {
    let kept = if class_of(event) == DeliveryClass::Coalescing {
        retained(events, event)
    } else {
        events
    };
    if kept.len() >= capacity {
        seq![loss_marker(kept)].push(event)
    } else {
        kept.push(event)
    }
}

/// No two pending events are coalescing events of the same variant.
pub open spec fn coalescing_unique(events: Seq<PlaybackEvent>) -> bool {
    forall|i: int, j: int|
        0 <= i < j < events.len() ==> !same_coalescing_kind(#[trigger] events[i], #[trigger] events[j])
}

impl PlaybackEvent {
    pub fn delivery_class(&self) -> (class: DeliveryClass)
        ensures
            class == class_of(*self),
    {
        match self {
            PlaybackEvent::PositionChanged { .. } => DeliveryClass::Coalescing,
            PlaybackEvent::VideoGeometryChanged => DeliveryClass::Coalescing,
            _ => DeliveryClass::Critical,
        }
    }

    /// Whether a newer event replaces this one in the queue: only ever true
    /// between two coalescing events of the same variant.
    fn is_replaced_by(&self, newer: &PlaybackEvent) -> (replaced: bool)
        ensures
            replaced == same_coalescing_kind(*self, *newer),
    {
        match (self, newer) {
            (PlaybackEvent::PositionChanged { .. }, PlaybackEvent::PositionChanged { .. }) => true,
            (PlaybackEvent::VideoGeometryChanged, PlaybackEvent::VideoGeometryChanged) => true,
            _ => false,
        }
    }
}

proof fn lemma_retained_members(events: Seq<PlaybackEvent>, newer: PlaybackEvent)
    ensures
        retained(events, newer).len() <= events.len(),
        forall|k: int|
            0 <= k < retained(events, newer).len() ==> exists|j: int|
                0 <= j < events.len() && #[trigger] retained(events, newer)[k] == events[j]
                    && !same_coalescing_kind(events[j], newer),
    decreases events.len(),
{
    if events.len() > 0 {
        let prefix = events.drop_last();
        lemma_retained_members(prefix, newer);
        let kept = retained(prefix, newer);
        assert forall|k: int| 0 <= k < retained(events, newer).len() implies exists|j: int|
            0 <= j < events.len() && #[trigger] retained(events, newer)[k] == events[j]
                && !same_coalescing_kind(events[j], newer) by {
            if k < kept.len() {
                let j = choose|j: int|
                    0 <= j < prefix.len() && #[trigger] kept[k] == prefix[j]
                        && !same_coalescing_kind(prefix[j], newer);
                assert(events[j] == prefix[j]);
            } else {
                assert(retained(events, newer)[k] == events[events.len() - 1]);
            }
        }
    }
}

proof fn lemma_retained_weight(events: Seq<PlaybackEvent>, newer: PlaybackEvent)
    requires
        class_of(newer) == DeliveryClass::Coalescing,
    ensures
        weight_sum(retained(events, newer)) == weight_sum(events),
    decreases events.len(),
{
    if events.len() > 0 {
        lemma_retained_weight(events.drop_last(), newer);
        let kept = retained(events.drop_last(), newer);
        if !same_coalescing_kind(events.last(), newer) {
            assert(kept.push(events.last()).drop_last() =~= kept);
        }
    }
}

proof fn lemma_retained_unique(events: Seq<PlaybackEvent>, newer: PlaybackEvent)
    requires
        coalescing_unique(events),
    ensures
        coalescing_unique(retained(events, newer)),
    decreases events.len(),
{
    if events.len() > 0 {
        let prefix = events.drop_last();
        assert(coalescing_unique(prefix)) by {
            assert forall|i: int, j: int| 0 <= i < j < prefix.len() implies !same_coalescing_kind(
                #[trigger] prefix[i],
                #[trigger] prefix[j],
            ) by {
                assert(prefix[i] == events[i] && prefix[j] == events[j]);
            }
        }
        lemma_retained_unique(prefix, newer);
        lemma_retained_members(prefix, newer);
        let kept = retained(prefix, newer);
        let last = events.last();
        if !same_coalescing_kind(last, newer) {
            let all = kept.push(last);
            assert forall|i: int, j: int| 0 <= i < j < all.len() implies !same_coalescing_kind(
                #[trigger] all[i],
                #[trigger] all[j],
            ) by {
                if j == kept.len() {
                    let m = choose|m: int|
                        0 <= m < prefix.len() && #[trigger] kept[i] == prefix[m]
                            && !same_coalescing_kind(prefix[m], newer);
                    assert(events[m] == prefix[m]);
                    assert(!same_coalescing_kind(events[m], events[events.len() - 1]));
                } else {
                    assert(all[i] == kept[i] && all[j] == kept[j]);
                }
            }
        }
    }
}

/// The invariant of an [`EventQueue`]: within capacity, which is at least 2,
/// and at most one pending instance of each coalescing variant.
pub open spec fn queue_wf(events: Seq<PlaybackEvent>, capacity: nat) -> bool {
    &&& capacity >= 2
    &&& events.len() <= capacity
    &&& coalescing_unique(events)
}

/// The pending-event rules hold after a push: the queue stays within its
/// capacity and never holds two events that coalesce with each other.
pub proof fn law_push_keeps_the_queue_well_formed(
    events: Seq<PlaybackEvent>,
    capacity: nat,
    event: PlaybackEvent,
)
    requires
        queue_wf(events, capacity),
    ensures
        queue_wf(pushed(events, capacity, event), capacity),
{
    let kept = if class_of(event) == DeliveryClass::Coalescing {
        retained(events, event)
    } else {
        events
    };
    lemma_retained_members(events, event);
    lemma_retained_unique(events, event);
    let result = pushed(events, capacity, event);
    if kept.len() >= capacity {
        let base = seq![loss_marker(kept)];
        assert forall|i: int, j: int| 0 <= i < j < result.len() implies !same_coalescing_kind(
            #[trigger] result[i],
            #[trigger] result[j],
        ) by {
            assert(result[i] == base[0]);
        }
    } else {
        assert forall|i: int, j: int| 0 <= i < j < result.len() implies !same_coalescing_kind(
            #[trigger] result[i],
            #[trigger] result[j],
        ) by {
            if j == kept.len() {
                if class_of(event) == DeliveryClass::Coalescing {
                    let m = choose|m: int|
                        0 <= m < events.len() && #[trigger] retained(events, event)[i]
                            == events[m] && !same_coalescing_kind(events[m], event);
                    assert(result[i] == events[m]);
                }
            } else {
                assert(result[i] == kept[i] && result[j] == kept[j]);
            }
        }
    }
}

/// No critical event is lost without being counted: after a push, the
/// pending events stand for exactly the critical events they stood for
/// before plus the one pushed, as long as the count has not saturated.
pub proof fn law_push_accounts_for_every_critical_event(
    events: Seq<PlaybackEvent>,
    capacity: nat,
    event: PlaybackEvent,
)
    requires
        weight_sum(events) <= u32::MAX,
    ensures
        weight_sum(pushed(events, capacity, event)) == weight_sum(events) + loss_weight(event),
{
    let kept = if class_of(event) == DeliveryClass::Coalescing {
        retained(events, event)
    } else {
        events
    };
    if class_of(event) == DeliveryClass::Coalescing {
        lemma_retained_weight(events, event);
    }
    if kept.len() >= capacity {
        let base = seq![loss_marker(kept)];
        assert(base.push(event).drop_last() =~= base);
        assert(base.drop_last() =~= Seq::<PlaybackEvent>::empty());
        assert(weight_sum(base) == loss_weight(loss_marker(kept))) by {
            assert(weight_sum(Seq::<PlaybackEvent>::empty()) == 0);
            assert(base.last() == loss_marker(kept));
        }
        assert(weight_sum(kept) == weight_sum(events));
        assert(loss_weight(loss_marker(kept)) == weight_sum(kept));
    } else {
        assert(kept.push(event).drop_last() =~= kept);
    }
}

/// The pending events after each of `pushes` is pushed in turn onto `events`.
pub open spec fn pushed_all(events: Seq<PlaybackEvent>, capacity: nat, pushes: Seq<PlaybackEvent>) -> Seq<
    PlaybackEvent,
>
    decreases pushes.len(),
{
    if pushes.len() == 0 {
        events
    } else {
        pushed(pushed_all(events, capacity, pushes.drop_last()), capacity, pushes.last())
    }
}

/// Over any run of pushes, the queue stays within its capacity and every
/// critical event pushed is still pending or counted in a loss marker, as
/// long as the count has not saturated; coalescing events are never counted.
pub proof fn law_pushes_account_for_every_critical_event(
    events: Seq<PlaybackEvent>,
    capacity: nat,
    pushes: Seq<PlaybackEvent>,
)
    requires
        queue_wf(events, capacity),
        weight_sum(events) + weight_sum(pushes) <= u32::MAX,
    ensures
        queue_wf(pushed_all(events, capacity, pushes), capacity),
        weight_sum(pushed_all(events, capacity, pushes)) == weight_sum(events) + weight_sum(pushes),
    decreases pushes.len(),
{
    if pushes.len() > 0 {
        let earlier = pushes.drop_last();
        law_pushes_account_for_every_critical_event(events, capacity, earlier);
        let before = pushed_all(events, capacity, earlier);
        law_push_keeps_the_queue_well_formed(before, capacity, pushes.last());
        law_push_accounts_for_every_critical_event(before, capacity, pushes.last());
    }
}

/// A coalescing event that is pushed is the newest pending event, and no
/// other pending event is of its variant.
pub proof fn law_newest_coalescing_value_wins(
    events: Seq<PlaybackEvent>,
    capacity: nat,
    event: PlaybackEvent,
)
    requires
        class_of(event) == DeliveryClass::Coalescing,
    ensures
        pushed(events, capacity, event).last() == event,
        forall|i: int|
            0 <= i < pushed(events, capacity, event).len() - 1 ==> !same_coalescing_kind(
                #[trigger] pushed(events, capacity, event)[i],
                event,
            ),
{
    lemma_retained_members(events, event);
    let kept = retained(events, event);
    let result = pushed(events, capacity, event);
    assert forall|i: int| 0 <= i < result.len() - 1 implies !same_coalescing_kind(
        #[trigger] result[i],
        event,
    ) by {
        if kept.len() < capacity {
            assert(result[i] == kept[i]);
            let m = choose|m: int|
                0 <= m < events.len() && #[trigger] kept[i] == events[m] && !same_coalescing_kind(
                    events[m],
                    event,
                );
        }
    }
}

/// A critical event pushed while there is room changes nothing that was
/// pending: it is appended behind it.
pub proof fn law_critical_events_keep_their_order(
    events: Seq<PlaybackEvent>,
    capacity: nat,
    event: PlaybackEvent,
)
    requires
        class_of(event) == DeliveryClass::Critical,
        events.len() < capacity,
    ensures
        pushed(events, capacity, event) == events.push(event),
{
}

/// A bounded, coalescing queue of pending events.
pub struct EventQueue {
    capacity: usize,
    events: VecDeque<PlaybackEvent>,
}

impl EventQueue {
    #[verifier::type_invariant]
    spec fn well_formed(self) -> bool {
        queue_wf(self.events@, self.capacity as nat)
    }

    /// The capacity, at least 2.
    pub closed spec fn capacity_spec(&self) -> nat {
        self.capacity as nat
    }

    /// The pending events, oldest first.
    pub closed spec fn pending_spec(&self) -> Seq<PlaybackEvent> {
        self.events@
    }

    /// The capacity used when nothing else is specified.
    pub const DEFAULT_CAPACITY: usize = 64;

    /// An empty queue. A capacity below 2 is raised to 2: an overflow marker
    /// plus the event that caused it must both fit.
    pub fn new(capacity: usize) -> (queue: EventQueue)
        ensures
            queue.capacity_spec() == if capacity < 2 {
                2
            } else {
                capacity as nat
            },
            queue.pending_spec() == Seq::<PlaybackEvent>::empty(),
    {
        let capacity = if capacity < 2 {
            2
        } else {
            capacity
        };
        EventQueue { capacity, events: VecDeque::new() }
    }

    pub fn capacity(&self) -> (capacity: usize)
        ensures
            capacity == self.capacity_spec(),
            capacity >= 2,
    {
        proof {
            use_type_invariant(self);
        }
        self.capacity
    }

    pub fn len(&self) -> (len: usize)
        ensures
            len == self.pending_spec().len(),
            len <= self.capacity_spec(),
    {
        proof {
            use_type_invariant(self);
        }
        self.events.len()
    }

    pub fn is_empty(&self) -> (empty: bool)
        ensures
            empty == (self.pending_spec().len() == 0),
    {
        self.events.len() == 0
    }

    /// Enqueues an event, applying the delivery rules.
    ///
    /// A coalescing event replaces its pending twin and moves to the back.
    /// When the queue is full the backlog collapses to one loss marker, and
    /// the event goes behind it.
    pub fn push(&mut self, event: PlaybackEvent)
        ensures
            final(self).capacity_spec() == old(self).capacity_spec(),
            final(self).pending_spec() == pushed(
                old(self).pending_spec(),
                old(self).capacity_spec(),
                event,
            ),
    {
        proof {
            use_type_invariant(&*self);
            law_push_keeps_the_queue_well_formed(self.events@, self.capacity as nat, event);
        }
        let ghost before = self.events@;
        let coalescing = event.delivery_class() == DeliveryClass::Coalescing;
        let mut kept: VecDeque<PlaybackEvent> = VecDeque::new();
        let mut i: usize = 0;
        while i < self.events.len()
            invariant
                i <= self.events@.len(),
                self.events@ == before,
                coalescing == (class_of(event) == DeliveryClass::Coalescing),
                coalescing ==> kept@ == retained(before.subrange(0, i as int), event),
                !coalescing ==> kept@ == before.subrange(0, i as int),
            decreases self.events@.len() - i,
        {
            let pending = self.events[i];
            assert(before.subrange(0, i + 1).drop_last() =~= before.subrange(0, i as int));
            if !coalescing || !pending.is_replaced_by(&event) {
                kept.push_back(pending);
            }
            i = i + 1;
        }
        assert(before.subrange(0, before.len() as int) =~= before);
        if kept.len() >= self.capacity {
            let marker = Self::loss_marker_of(&kept);
            kept = VecDeque::new();
            kept.push_back(marker);
        }
        kept.push_back(event);
        assert(kept@ =~= pushed(before, self.capacity as nat, event));
        self.events = kept;
    }

    /// The single [`PlaybackEvent::EventsLost`] a backlog collapses to.
    ///
    /// Coalescing events are not counted as losses; an existing marker's
    /// count is carried over so repeated overflows accumulate.
    fn loss_marker_of(backlog: &VecDeque<PlaybackEvent>) -> (marker: PlaybackEvent)
        ensures
            marker == loss_marker(backlog@),
    {
        let mut dropped: u32 = 0;
        let mut i: usize = 0;
        while i < backlog.len()
            invariant
                i <= backlog@.len(),
                dropped == (if weight_sum(backlog@.subrange(0, i as int)) > u32::MAX {
                    u32::MAX as nat
                } else {
                    weight_sum(backlog@.subrange(0, i as int))
                }),
            decreases backlog@.len() - i,
        {
            assert(backlog@.subrange(0, i + 1).drop_last() =~= backlog@.subrange(0, i as int));
            match backlog[i] {
                PlaybackEvent::EventsLost { dropped: earlier } => {
                    dropped = dropped.saturating_add(earlier);
                },
                PlaybackEvent::PositionChanged { .. } => {},
                PlaybackEvent::VideoGeometryChanged => {},
                _ => {
                    dropped = dropped.saturating_add(1);
                },
            }
            i = i + 1;
        }
        assert(backlog@.subrange(0, backlog@.len() as int) =~= backlog@);
        PlaybackEvent::EventsLost { dropped }
    }

    /// Removes and returns the oldest pending event.
    pub fn pop(&mut self) -> (event: Option<PlaybackEvent>)
        ensures
            final(self).capacity_spec() == old(self).capacity_spec(),
            old(self).pending_spec().len() == 0 ==> event is None && final(self).pending_spec()
                == old(self).pending_spec(),
            old(self).pending_spec().len() > 0 ==> event == Some(old(self).pending_spec()[0])
                && final(self).pending_spec() == old(self).pending_spec().drop_first(),
    {
        proof {
            use_type_invariant(&*self);
        }
        if self.events.len() == 0 {
            None
        } else {
            let mut rest: VecDeque<PlaybackEvent> = VecDeque::new();
            std::mem::swap(&mut rest, &mut self.events);
            let first = match rest.pop_front() {
                Some(e) => e,
                None => return None,
            };
            proof {
                assert forall|i: int, j: int| 0 <= i < j < rest@.len() implies !same_coalescing_kind(
                    #[trigger] rest@[i],
                    #[trigger] rest@[j],
                ) by {
                    assert(rest@[i] == old(self).events@[i + 1] && rest@[j] == old(self).events@[j + 1]);
                }
                assert(rest@ =~= old(self).events@.drop_first());
            }
            self.events = rest;
            Some(first)
        }
    }

    /// Removes and returns everything pending, in order.
    pub fn drain(&mut self) -> (events: Vec<PlaybackEvent>)
        ensures
            final(self).capacity_spec() == old(self).capacity_spec(),
            events@ == old(self).pending_spec(),
            final(self).pending_spec() == Seq::<PlaybackEvent>::empty(),
    {
        proof {
            use_type_invariant(&*self);
        }
        let mut pending: VecDeque<PlaybackEvent> = VecDeque::new();
        std::mem::swap(&mut pending, &mut self.events);
        let ghost all = pending@;
        let mut events: Vec<PlaybackEvent> = Vec::new();
        while pending.len() > 0
            invariant
                events@ + pending@ == all,
            decreases pending@.len(),
        {
            match pending.pop_front() {
                Some(e) => {
                    assert(events@.push(e) + pending@ =~= all);
                    events.push(e);
                },
                None => {},
            }
        }
        assert(events@ =~= events@ + pending@);
        events
    }

    /// The pending events, without removing them.
    pub fn pending(&self) -> (events: &VecDeque<PlaybackEvent>)
        ensures
            events@ == self.pending_spec(),
    {
        &self.events
    }
}

impl Default for EventQueue {
    /// An empty queue of [`EventQueue::DEFAULT_CAPACITY`].
    fn default() -> (queue: EventQueue)
        ensures
            queue.capacity_spec() == 64,
            queue.pending_spec() == Seq::<PlaybackEvent>::empty(),
    {
        EventQueue::new(Self::DEFAULT_CAPACITY)
    }
}

/// Whether the delivering thread is inside an event callback.
#[derive(Debug, Clone, Copy, PartialEq, Eq, Structural)]
pub struct CallbackMark {
    inside: bool,
}

impl CallbackMark {
    /// A thread outside any callback.
    pub fn new() -> (mark: CallbackMark)
        ensures
            !mark.inside_spec(),
    {
        CallbackMark { inside: false }
    }

    pub closed spec fn inside_spec(self) -> bool {
        self.inside
    }

    /// Whether the thread is currently inside an event callback.
    pub fn in_callback(&self) -> (inside: bool)
        ensures
            inside == self.inside_spec(),
    {
        self.inside
    }
}

/// One entered callback scope; [`CallbackScope::exit`] restores the mark it
/// found, so nesting behaves.
#[derive(Debug)]
pub struct CallbackScope {
    previous: bool,
}

impl CallbackScope {
    /// The mark the scope found when it was entered.
    pub closed spec fn previous_spec(self) -> bool {
        self.previous
    }

    /// Marks the thread as inside a callback, remembering the previous mark.
    pub fn enter(mark: &mut CallbackMark) -> (scope: CallbackScope)
        ensures
            final(mark).inside_spec(),
            scope.previous_spec() == old(mark).inside_spec(),
    {
        let previous = mark.inside;
        mark.inside = true;
        CallbackScope { previous }
    }

    /// Leaves the scope: the mark is what it was when the scope was entered.
    pub fn exit(self, mark: &mut CallbackMark)
        ensures
            final(mark).inside_spec() == self.previous_spec(),
    {
        mark.inside = self.previous;
    }
}

/// One step of a thread's callback nesting: a scope entered, or the
/// innermost open scope left.
pub enum ScopeStep {
    Enter,
    Exit,
}

/// The mark after `steps`, starting from mark `start`, together with what
/// each still-open scope remembers, outermost first: entering remembers the
/// mark and sets it ([`CallbackScope::enter`]); leaving restores what the
/// innermost open scope remembers ([`CallbackScope::exit`]). A leave with no
/// open scope changes nothing.
pub open spec fn run_scopes(start: bool, steps: Seq<ScopeStep>) -> (bool, Seq<bool>)
    decreases steps.len(),
{
    if steps.len() == 0 {
        (start, Seq::empty())
    } else {
        let (mark, open) = run_scopes(start, steps.drop_last());
        match steps.last() {
            ScopeStep::Enter => (true, open.push(mark)),
            ScopeStep::Exit => if open.len() > 0 {
                (open.last(), open.drop_last())
            } else {
                (mark, open)
            },
        }
    }
}

/// However scopes are nested, the thread is inside a callback while any
/// scope is open, and once every scope is left the mark is what it was
/// before the first one was entered.
pub proof fn law_scope_restores_the_previous_mark(start: bool, steps: Seq<ScopeStep>)
    ensures
        run_scopes(start, steps).1.len() > 0 ==> run_scopes(start, steps).0,
        run_scopes(start, steps).1.len() == 0 ==> run_scopes(start, steps).0 == start,
        run_scopes(start, steps).1.len() > 0 ==> run_scopes(start, steps).1[0] == start,
        forall|i: int| 0 < i < run_scopes(start, steps).1.len() ==> #[trigger] run_scopes(start, steps).1[i],
    decreases steps.len(),
{
    if steps.len() > 0 {
        law_scope_restores_the_previous_mark(start, steps.drop_last());
        let (mark, open) = run_scopes(start, steps.drop_last());
        match steps.last() {
            ScopeStep::Enter => {
                let next = open.push(mark);
                assert forall|i: int| 0 < i < next.len() implies #[trigger] next[i] by {
                    if i < open.len() {
                        assert(next[i] == open[i]);
                    }
                }
            },
            ScopeStep::Exit => {
                if open.len() > 0 {
                    let next = open.drop_last();
                    assert forall|i: int| 0 < i < next.len() implies #[trigger] next[i] by {
                        assert(next[i] == open[i]);
                    }
                    if open.len() > 1 {
                        assert(open.last() == open[open.len() - 1]);
                    }
                }
            },
        }
    }
}

/// The check every port operation performs first: a call made from inside a
/// callback on the same thread is refused rather than deadlocking.
pub fn guard_reentrancy(mark: &CallbackMark, operation: Operation) -> (result: Result<(), PlaybackError>)
    ensures
        mark.inside_spec() ==> result == Err::<(), PlaybackError>(
            PlaybackError::ReentrantCall { operation },
        ),
        !mark.inside_spec() ==> result is Ok,
{
    if mark.in_callback() {
        Err(PlaybackError::ReentrantCall { operation })
    } else {
        Ok(())
    }
}

/// Receives delivered events. Implemented by the platform shell; `mark` is
/// the delivering thread's mark, set while the callback runs.
pub trait EventSink {
    fn deliver(&mut self, event: PlaybackEvent, mark: &CallbackMark);
}

/// Delivers everything pending to the sink, in order, with the callback mark
/// set. An empty queue never enters a callback scope.
pub fn deliver_all<S: EventSink>(queue: &mut EventQueue, mark: &mut CallbackMark, sink: &mut S)
    ensures
        final(queue).pending_spec() == Seq::<PlaybackEvent>::empty(),
        final(queue).capacity_spec() == old(queue).capacity_spec(),
        *final(mark) == *old(mark),
{
    let pending = queue.drain();
    if pending.len() == 0 {
        return;
    }
    let scope = CallbackScope::enter(mark);
    let mut i: usize = 0;
    while i < pending.len()
        invariant
            i <= pending@.len(),
            mark.inside_spec(),
        decreases pending@.len() - i,
    {
        sink.deliver(pending[i], mark);
        i = i + 1;
    }
    scope.exit(mark);
}

} // verus!
