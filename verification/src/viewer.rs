//! A viewer's session, from the moment it attaches until it is over.
//!
//! The session is a state machine. Whoever runs it carries out the action it
//! is handed (send a notification to the viewer, wait for the bus) and
//! reports what came of it as the next event. The machine decides the order:
//! first the replay that brings the viewer up to date, one notification
//! after the other, and only then what the bus delivers.

use vstd::prelude::*;
use crate::notif::{notif_views, NotifView, WebNotif};
use crate::state::{AppState, StateView};

verus! {

/// Where a session stands.
#[derive(Debug, PartialEq, Eq)]
pub enum Viewer {
    /// A notification of the replay is on its way to the viewer; `pending`
    /// are those that follow it.
    Replaying { pending: Vec<WebNotif> },
    /// The session waits for the bus.
    Listening,
    /// A notification from the bus is on its way to the viewer.
    Forwarding,
    /// The session is over.
    Closed,
}

/// What happened to the action that the session asked for.
#[derive(Debug, PartialEq, Eq)]
pub enum ViewerEvent {
    /// The notification reached the viewer.
    Delivered,
    /// The notification could not be sent: the viewer is gone.
    DeliveryFailed,
    /// The bus delivered a notification.
    Received(WebNotif),
    /// The session fell behind and the bus dropped notifications meant for it.
    Lagged,
    /// The bus is closed.
    BusClosed,
}

/// What the session asks for next.
#[derive(Debug, PartialEq, Eq)]
pub enum ViewerAction {
    /// Send this notification to the viewer, then report `Delivered` or
    /// `DeliveryFailed`.
    Send(WebNotif),
    /// Wait for the bus, subscribing to it before the first wait, then
    /// report `Received`, `Lagged` or `BusClosed`.
    Receive,
    /// Drop the connection and the subscription.
    Stop,
}

/// A session's state as a plain value.
pub enum ViewerView {
    Replaying { pending: Seq<NotifView> },
    Listening,
    Forwarding,
    Closed,
}

/// An event as a plain value.
pub enum EventView {
    Delivered,
    DeliveryFailed,
    Received(NotifView),
    Lagged,
    BusClosed,
}

/// An action as a plain value.
pub enum ActionView {
    Send(NotifView),
    Receive,
    Stop,
}

/// A move of the machine: the state it enters and the action it asks for.
pub struct Step {
    pub state: ViewerView,
    pub action: ActionView,
}

impl View for Viewer {
    type V = ViewerView;

    open spec fn view(&self) -> ViewerView {
        match self {
            Viewer::Replaying { pending } => ViewerView::Replaying {
                pending: notif_views(pending@),
            },
            Viewer::Listening => ViewerView::Listening,
            Viewer::Forwarding => ViewerView::Forwarding,
            Viewer::Closed => ViewerView::Closed,
        }
    }
}

impl View for ViewerEvent {
    type V = EventView;

    open spec fn view(&self) -> EventView {
        match self {
            ViewerEvent::Delivered => EventView::Delivered,
            ViewerEvent::DeliveryFailed => EventView::DeliveryFailed,
            ViewerEvent::Received(notif) => EventView::Received(notif@),
            ViewerEvent::Lagged => EventView::Lagged,
            ViewerEvent::BusClosed => EventView::BusClosed,
        }
    }
}

impl View for ViewerAction {
    type V = ActionView;

    open spec fn view(&self) -> ActionView {
        match self {
            ViewerAction::Send(notif) => ActionView::Send(notif@),
            ViewerAction::Receive => ActionView::Receive,
            ViewerAction::Stop => ActionView::Stop,
        }
    }
}

impl ViewerView {
    /// A viewer attaches: the first notification of the replay is sent, the
    /// others are pending.
    pub open spec fn attach(store: StateView) -> Step {
        Step {
            state: ViewerView::Replaying { pending: store.replay().skip(1) },
            action: ActionView::Send(store.replay()[0]),
        }
    }

    /// The machine's move on `event`.
    ///
    /// While the replay lasts, each delivery is followed by the next pending
    /// notification, and by the first wait for the bus once none is left.
    /// After that, what the bus delivers is sent on, each delivery is
    /// followed by the next wait, and a lag by another wait. A failed
    /// delivery or a closed bus ends the session, and so does any event
    /// that does not answer the action asked for.
    pub open spec fn step(self, event: EventView) -> Step {
        match (self, event) {
            (ViewerView::Replaying { pending }, EventView::Delivered) => if pending.len() > 0 {
                Step {
                    state: ViewerView::Replaying { pending: pending.skip(1) },
                    action: ActionView::Send(pending[0]),
                }
            } else {
                Step { state: ViewerView::Listening, action: ActionView::Receive }
            },
            (ViewerView::Forwarding, EventView::Delivered) => Step {
                state: ViewerView::Listening,
                action: ActionView::Receive,
            },
            (ViewerView::Listening, EventView::Received(notif)) => Step {
                state: ViewerView::Forwarding,
                action: ActionView::Send(notif),
            },
            (ViewerView::Listening, EventView::Lagged) => Step {
                state: ViewerView::Listening,
                action: ActionView::Receive,
            },
            _ => Step { state: ViewerView::Closed, action: ActionView::Stop },
        }
    }
}

impl Viewer {
    /// Begins the session of a viewer that attaches to `store` and returns it
    /// with its first action.
    pub fn attach(store: &AppState) -> (begun: (Viewer, ViewerAction))
        ensures
            begun.0@ == ViewerView::attach(store@).state,
            begun.1@ == ViewerView::attach(store@).action,
    {
        let mut pending = store.reconcile();
        assert(notif_views(pending@)[0] == pending@[0]@);
        let first = pending.remove(0);
        assert(notif_views(pending@) =~= store@.replay().skip(1));
        (Viewer::Replaying { pending }, ViewerAction::Send(first))
    }

    /// Takes in what came of the last action and returns the next one.
    pub fn step(&mut self, event: ViewerEvent) -> (action: ViewerAction)
        ensures
            final(self)@ == old(self)@.step(event@).state,
            action@ == old(self)@.step(event@).action,
    {
        let mut state = Viewer::Closed;
        core::mem::swap(self, &mut state);
        match (state, event) {
            (Viewer::Replaying { pending }, ViewerEvent::Delivered) => {
                let mut pending = pending;
                if pending.len() > 0 {
                    let ghost before = notif_views(pending@);
                    assert(before[0] == pending@[0]@);
                    let next = pending.remove(0);
                    assert(notif_views(pending@) =~= before.skip(1));
                    *self = Viewer::Replaying { pending };
                    ViewerAction::Send(next)
                } else {
                    *self = Viewer::Listening;
                    ViewerAction::Receive
                }
            },
            (Viewer::Forwarding, ViewerEvent::Delivered) => {
                *self = Viewer::Listening;
                ViewerAction::Receive
            },
            (Viewer::Listening, ViewerEvent::Received(notif)) => {
                *self = Viewer::Forwarding;
                ViewerAction::Send(notif)
            },
            (Viewer::Listening, ViewerEvent::Lagged) => {
                *self = Viewer::Listening;
                ViewerAction::Receive
            },
            _ => ViewerAction::Stop,
        }
    }

    /// Whether the session is over.
    pub fn is_closed(&self) -> (closed: bool)
        ensures
            closed == (self@ is Closed),
    {
        match self {
            Viewer::Closed => true,
            _ => false,
        }
    }
}

/// A session so far: the state it is in and what it has asked to send, in
/// order.
pub struct Run {
    pub state: ViewerView,
    pub sent: Seq<NotifView>,
}

/// The session of a viewer that attached to `store` and has since seen
/// `events`.
pub open spec fn run(store: StateView, events: Seq<EventView>) -> Run
    decreases events.len(),
{
    if events.len() == 0 {
        Run { state: ViewerView::attach(store).state, sent: seq![store.replay()[0]] }
    } else {
        let before = run(store, events.drop_last());
        let step = before.state.step(events.last());
        Run {
            state: step.state,
            sent: match step.action {
                ActionView::Send(notif) => before.sent.push(notif),
                _ => before.sent,
            },
        }
    }
}

/// The notifications that the bus delivered among `events`, in order.
pub open spec fn received(events: Seq<EventView>) -> Seq<NotifView>
    decreases events.len(),
{
    if events.len() == 0 {
        Seq::empty()
    } else {
        match events.last() {
            EventView::Received(notif) => received(events.drop_last()).push(notif),
            _ => received(events.drop_last()),
        }
    }
}

/// Whether `part` is the beginning of `whole`.
pub open spec fn begins(whole: Seq<NotifView>, part: Seq<NotifView>) -> bool {
    part.len() <= whole.len() && part == whole.take(part.len() as int)
}

/// The replay always begins with the key bindings. A conversation under way
/// adds its beginning and its replies, in this order; nothing else is ever
/// part of it.
pub proof fn lemma_replay(store: StateView)
    ensures
        store.replay()[0] == (NotifView::SetKeybinds { keybinds: store.keybinds }),
        store.convo is None ==> store.replay().len() == 1,
        store.convo is Some ==> store.replay().len() == 3 && store.replay()[1] == (
        NotifView::Conversation { start: true }) && store.replay()[2] == (NotifView::UpdateReplies {
            replies: store.convo->0,
        }),
{
}

/// Whatever happens, what a session has asked to send is the beginning of
/// the replay followed by what the bus delivered, in order. While the
/// replay lasts nothing from the bus is among it, and once the session
/// listens to the bus it has asked to send all of it.
pub proof fn lemma_replay_comes_first(store: StateView, events: Seq<EventView>)
    ensures
        begins(store.replay() + received(events), run(store, events).sent),
        match run(store, events).state {
            ViewerView::Replaying { pending } => run(store, events).sent + pending
                == store.replay() && received(events).len() == 0,
            ViewerView::Listening | ViewerView::Forwarding => run(store, events).sent
                == store.replay() + received(events),
            ViewerView::Closed => true,
        },
    decreases events.len(),
{
    let replay = store.replay();
    let now = run(store, events);
    if events.len() == 0 {
        assert(now.sent + replay.skip(1) =~= replay);
        assert(now.sent =~= (replay + received(events)).take(1));
    } else {
        let earlier = events.drop_last();
        let before = run(store, earlier);
        lemma_replay_comes_first(store, earlier);
        let whole_before = replay + received(earlier);
        let whole = replay + received(events);
        assert(begins(whole, whole_before)) by {
            assert(whole_before =~= whole.take(whole_before.len() as int));
        }
        match (before.state, events.last()) {
            (ViewerView::Replaying { pending }, EventView::Delivered) => {
                if pending.len() > 0 {
                    assert(now.sent + pending.skip(1) =~= before.sent + pending);
                    assert(now.sent =~= whole.take(now.sent.len() as int));
                } else {
                    assert(before.sent =~= replay);
                    assert(replay + received(events) =~= replay);
                }
            },
            (ViewerView::Listening, EventView::Received(notif)) => {
                assert(now.sent =~= whole);
                assert(whole.take(whole.len() as int) =~= whole);
            },
            (ViewerView::Forwarding, EventView::Delivered) => {
                assert(whole.take(whole.len() as int) =~= whole);
            },
            (ViewerView::Listening, EventView::Lagged) => {
                assert(whole.take(whole.len() as int) =~= whole);
            },
            _ => {
                assert(now.sent == before.sent);
                assert(before.sent =~= whole.take(before.sent.len() as int));
            },
        }
    }
}

} // verus!
