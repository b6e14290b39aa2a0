//! The dispatcher's decisions as a state machine.
//!
//! The loop that talks to the bus feeds each outcome back as an [`Event`] and
//! performs the [`Action`] that comes out: invoke the handler, publish the
//! response, acknowledge the message, go on to the next message, or stop.
//! Simple mode never acknowledges (at most once); durable mode acknowledges
//! each message only after its response was published (at least once).

use vstd::prelude::*;
use vstd::string::*;
use crate::subject::{
    exec_subject, exec_subject_of, request_id, request_id_of, response_subject, response_subject_of,
};

verus! {

/// How messages are delivered to this function.
#[derive(Debug, Clone, Copy, PartialEq, Eq, Structural)]
pub enum DeliveryMode {
    /// Subscribe and publish, no acknowledgment.
    Simple,
    /// Durable pull consumer; each message is acknowledged.
    Durable,
}

/// Where the dispatcher stands in handling the current message.
#[derive(Debug, Clone, PartialEq, Eq)]
pub enum Phase {
    Receiving,
    Invoking { request_id: String },
    Publishing,
    Acking,
    Stopped,
}

/// What the loop reports back.
#[derive(Debug, Clone, PartialEq, Eq)]
pub enum Event {
    /// A message arrived on `subject`.
    Received { subject: String },
    /// The handler finished: `Some` with the response bytes, `None` on error.
    HandlerReturned { body: Option<Vec<u8>> },
    /// The response publish succeeded or failed.
    Published { ok: bool },
    /// The acknowledgment succeeded or failed.
    Acked { ok: bool },
    /// The subscription or consumer ended.
    Closed,
}

/// What the loop must do next.
#[derive(Debug, Clone, PartialEq, Eq)]
pub enum Action {
    /// Call the handler with the message payload and this request id.
    Invoke { request_id: String },
    /// Publish `body` on `subject`.
    Publish { subject: String, body: Vec<u8> },
    /// Acknowledge the current message.
    Ack,
    /// Wait for the next message.
    Next,
    /// The message source ended; stop without error.
    Finish,
    /// A transport failure or an event out of turn; stop with an error.
    Fail,
}

pub enum PhaseModel {
    Receiving,
    Invoking(Seq<char>),
    Publishing,
    Acking,
    Stopped,
}

pub enum EventModel {
    Received(Seq<char>),
    HandlerReturned(Option<Seq<u8>>),
    Published(bool),
    Acked(bool),
    Closed,
}

pub enum ActionModel {
    Invoke(Seq<char>),
    Publish(Seq<char>, Seq<u8>),
    Ack,
    Next,
    Finish,
    Fail,
}

impl View for Phase {
    type V = PhaseModel;

    open spec fn view(&self) -> PhaseModel {
        match self {
            Phase::Receiving => PhaseModel::Receiving,
            Phase::Invoking { request_id } => PhaseModel::Invoking(request_id@),
            Phase::Publishing => PhaseModel::Publishing,
            Phase::Acking => PhaseModel::Acking,
            Phase::Stopped => PhaseModel::Stopped,
        }
    }
}

impl View for Event {
    type V = EventModel;

    open spec fn view(&self) -> EventModel {
        match self {
            Event::Received { subject } => EventModel::Received(subject@),
            Event::HandlerReturned { body } => EventModel::HandlerReturned(
                match body {
                    Some(b) => Some(b@),
                    None => None,
                },
            ),
            Event::Published { ok } => EventModel::Published(*ok),
            Event::Acked { ok } => EventModel::Acked(*ok),
            Event::Closed => EventModel::Closed,
        }
    }
}

impl View for Action {
    type V = ActionModel;

    open spec fn view(&self) -> ActionModel {
        match self {
            Action::Invoke { request_id } => ActionModel::Invoke(request_id@),
            Action::Publish { subject, body } => ActionModel::Publish(subject@, body@),
            Action::Ack => ActionModel::Ack,
            Action::Next => ActionModel::Next,
            Action::Finish => ActionModel::Finish,
            Action::Fail => ActionModel::Fail,
        }
    }
}

/// The fixed part of a dispatcher: its mode, its policy for failed handlers
/// and the names its subjects are built from.
pub struct RouteModel {
    pub mode: DeliveryMode,
    pub ack_on_handler_error: bool,
    pub project: Seq<char>,
    pub name: Seq<char>,
    pub variant: Seq<char>,
}

/// One step of the machine: the next phase and the action for an event.
pub open spec fn step_of(r: RouteModel, phase: PhaseModel, ev: EventModel) -> (PhaseModel, ActionModel) {
    let durable = r.mode == DeliveryMode::Durable;
    match (phase, ev) {
        (PhaseModel::Receiving, EventModel::Received(s)) => match request_id_of(s) {
            Some(id) => (PhaseModel::Invoking(id), ActionModel::Invoke(id)),
            None => if durable {
                (PhaseModel::Acking, ActionModel::Ack)
            } else {
                (PhaseModel::Receiving, ActionModel::Next)
            },
        },
        (PhaseModel::Receiving, EventModel::Closed) => (PhaseModel::Stopped, ActionModel::Finish),
        (PhaseModel::Invoking(id), EventModel::HandlerReturned(Some(b))) => (
            PhaseModel::Publishing,
            ActionModel::Publish(response_subject_of(r.project, r.name, r.variant, id), b),
        ),
        (PhaseModel::Invoking(_), EventModel::HandlerReturned(None)) => if durable
            && r.ack_on_handler_error {
            (PhaseModel::Acking, ActionModel::Ack)
        } else {
            (PhaseModel::Receiving, ActionModel::Next)
        },
        (PhaseModel::Publishing, EventModel::Published(true)) => if durable {
            (PhaseModel::Acking, ActionModel::Ack)
        } else {
            (PhaseModel::Receiving, ActionModel::Next)
        },
        (PhaseModel::Acking, EventModel::Acked(true)) => (PhaseModel::Receiving, ActionModel::Next),
        _ => (PhaseModel::Stopped, ActionModel::Fail),
    }
}

/// The phase reached and the actions taken over a sequence of events.
pub open spec fn run_of(r: RouteModel, phase: PhaseModel, evs: Seq<EventModel>) -> (
    PhaseModel,
    Seq<ActionModel>,
)
    decreases evs.len(),
{
    if evs.len() == 0 {
        (phase, Seq::empty())
    } else {
        let (p, a) = step_of(r, phase, evs[0]);
        let (q, rest) = run_of(r, p, evs.drop_first());
        (q, seq![a] + rest)
    }
}

/// How many publish actions a sequence of actions holds.
pub open spec fn publish_count(acts: Seq<ActionModel>) -> nat
    decreases acts.len(),
{
    if acts.len() == 0 {
        0
    } else {
        (if acts[0] is Publish { 1nat } else { 0nat }) + publish_count(acts.drop_first())
    }
}

/// Simple mode, end to end: a message whose subject ends in a request id is
/// handed to the handler with that id, exactly one response is published, on
/// the response subject of that id, and nothing is acknowledged.
pub proof fn lemma_simple_mode_one_response(r: RouteModel, subject: Seq<char>, body: Seq<u8>)
    requires
        r.mode == DeliveryMode::Simple,
        request_id_of(subject) is Some,
    ensures
        ({
            let id = request_id_of(subject)->0;
            let evs = seq![
                EventModel::Received(subject),
                EventModel::HandlerReturned(Some(body)),
                EventModel::Published(true),
            ];
            let (p, acts) = run_of(r, PhaseModel::Receiving, evs);
            &&& p == PhaseModel::Receiving
            &&& acts == seq![
                ActionModel::Invoke(id),
                ActionModel::Publish(response_subject_of(r.project, r.name, r.variant, id), body),
                ActionModel::Next,
            ]
            &&& publish_count(acts) == 1
        }),
{
    reveal_with_fuel(run_of, 4);
    reveal_with_fuel(publish_count, 4);
    let id = request_id_of(subject)->0;
    let evs = seq![
        EventModel::Received(subject),
        EventModel::HandlerReturned(Some(body)),
        EventModel::Published(true),
    ];
    let acts = run_of(r, PhaseModel::Receiving, evs).1;
    assert(evs.drop_first().drop_first().drop_first() =~= Seq::<EventModel>::empty());
    assert(acts.drop_first().drop_first().drop_first() =~= Seq::<ActionModel>::empty());
    assert(acts =~= seq![
        ActionModel::Invoke(id),
        ActionModel::Publish(response_subject_of(r.project, r.name, r.variant, id), body),
        ActionModel::Next,
    ]);
}

/// Messages are handled one at a time: a message taken while another is
/// still being invoked, published or acknowledged stops the machine, so
/// each response goes out before the next message is taken.
pub proof fn lemma_one_message_at_a_time(r: RouteModel, phase: PhaseModel, subject: Seq<char>)
    requires
        !(phase is Receiving),
    ensures
        step_of(r, phase, EventModel::Received(subject)) == (PhaseModel::Stopped, ActionModel::Fail),
{
}

/// Running over `a` then `b` is running over `a`, then over `b` from where
/// `a` left off.
pub proof fn lemma_run_append(r: RouteModel, p: PhaseModel, a: Seq<EventModel>, b: Seq<EventModel>)
    ensures
        run_of(r, p, a + b) == (
            run_of(r, run_of(r, p, a).0, b).0,
            run_of(r, p, a).1 + run_of(r, run_of(r, p, a).0, b).1,
        ),
    decreases a.len(),
{
    if a.len() == 0 {
        assert(a + b =~= b);
        assert(run_of(r, p, a).1 + run_of(r, p, b).1 =~= run_of(r, p, b).1);
    } else {
        let (p1, x) = step_of(r, p, a[0]);
        assert((a + b)[0] == a[0]);
        assert((a + b).drop_first() =~= a.drop_first() + b);
        lemma_run_append(r, p1, a.drop_first(), b);
        let q = run_of(r, p1, a.drop_first());
        let t = run_of(r, q.0, b);
        assert(seq![x] + (q.1 + t.1) =~= (seq![x] + q.1) + t.1);
    }
}

/// Publishes in `a + b` are those in `a` and those in `b`.
pub proof fn lemma_publish_count_append(a: Seq<ActionModel>, b: Seq<ActionModel>)
    ensures
        publish_count(a + b) == publish_count(a) + publish_count(b),
    decreases a.len(),
{
    if a.len() == 0 {
        assert(a + b =~= b);
    } else {
        assert((a + b)[0] == a[0]);
        assert((a + b).drop_first() =~= a.drop_first() + b);
        lemma_publish_count_append(a.drop_first(), b);
    }
}

/// The events of handling each message in turn: each `(subject, output)`
/// arrives, the handler returns `output`, and its publish succeeds.
pub open spec fn message_events(msgs: Seq<(Seq<char>, Seq<u8>)>) -> Seq<EventModel>
    decreases msgs.len(),
{
    if msgs.len() == 0 {
        Seq::empty()
    } else {
        message_events(msgs.drop_last()) + seq![
            EventModel::Received(msgs.last().0),
            EventModel::HandlerReturned(Some(msgs.last().1)),
            EventModel::Published(true),
        ]
    }
}

/// The actions of simple mode for those messages: for each, invoke the
/// handler, publish its output on the response subject, wait for the next.
pub open spec fn response_actions(r: RouteModel, msgs: Seq<(Seq<char>, Seq<u8>)>) -> Seq<ActionModel>
    decreases msgs.len(),
{
    if msgs.len() == 0 {
        Seq::empty()
    } else {
        let id = request_id_of(msgs.last().0)->0;
        response_actions(r, msgs.drop_last()) + seq![
            ActionModel::Invoke(id),
            ActionModel::Publish(response_subject_of(r.project, r.name, r.variant, id), msgs.last().1),
            ActionModel::Next,
        ]
    }
}

/// Simple mode over k messages, each with a request id: exactly k responses
/// are published, the i-th on the response subject of the i-th message and
/// carrying its handler output, so none is lost, duplicated or reordered.
pub proof fn lemma_simple_mode_responses_in_order(r: RouteModel, msgs: Seq<(Seq<char>, Seq<u8>)>)
    requires
        r.mode == DeliveryMode::Simple,
        forall|i: int| 0 <= i < msgs.len() ==> request_id_of(#[trigger] msgs[i].0) is Some,
    ensures
        run_of(r, PhaseModel::Receiving, message_events(msgs)) == (
            PhaseModel::Receiving,
            response_actions(r, msgs),
        ),
        response_actions(r, msgs).len() == 3 * msgs.len(),
        publish_count(response_actions(r, msgs)) == msgs.len(),
        forall|i: int|
            0 <= i < msgs.len() ==> response_actions(r, msgs)[3 * i + 1] == ActionModel::Publish(
                response_subject_of(r.project, r.name, r.variant, request_id_of(#[trigger] msgs[i].0)->0),
                msgs[i].1,
            ),
    decreases msgs.len(),
{
    if msgs.len() > 0 {
        let rest = msgs.drop_last();
        assert forall|i: int| 0 <= i < rest.len() implies request_id_of(#[trigger] rest[i].0) is Some by {
            assert(rest[i] == msgs[i]);
        }
        lemma_simple_mode_responses_in_order(r, rest);
        let last = msgs.last();
        assert(request_id_of(msgs[msgs.len() - 1].0) is Some);
        lemma_simple_mode_one_response(r, last.0, last.1);
        let three = seq![
            EventModel::Received(last.0),
            EventModel::HandlerReturned(Some(last.1)),
            EventModel::Published(true),
        ];
        lemma_run_append(r, PhaseModel::Receiving, message_events(rest), three);
        let id = request_id_of(last.0)->0;
        let acts = seq![
            ActionModel::Invoke(id),
            ActionModel::Publish(response_subject_of(r.project, r.name, r.variant, id), last.1),
            ActionModel::Next,
        ];
        lemma_publish_count_append(response_actions(r, rest), acts);
        let all = response_actions(r, msgs);
        assert(all == response_actions(r, rest) + acts);
        assert forall|i: int| 0 <= i < msgs.len() implies all[3 * i + 1] == ActionModel::Publish(
            response_subject_of(r.project, r.name, r.variant, request_id_of(#[trigger] msgs[i].0)->0),
            msgs[i].1,
        ) by {
            if i < rest.len() {
                assert(rest[i] == msgs[i]);
                assert(all[3 * i + 1] == response_actions(r, rest)[3 * i + 1]);
            } else {
                assert(all[3 * i + 1] == acts[1]);
            }
        }
    }
}

/// Durable mode, end to end: a message is acknowledged only after its
/// response was published. Up to the publish no acknowledgment is sent, so a
/// crash there leaves the message unacknowledged on the server, which then
/// redelivers it; a message whose publish failed is never acknowledged.
pub proof fn lemma_durable_mode_ack_after_publish(r: RouteModel, subject: Seq<char>, body: Seq<u8>)
    requires
        r.mode == DeliveryMode::Durable,
        request_id_of(subject) is Some,
    ensures
        ({
            let id = request_id_of(subject)->0;
            let publish = ActionModel::Publish(
                response_subject_of(r.project, r.name, r.variant, id),
                body,
            );
            let handled = seq![EventModel::Received(subject), EventModel::HandlerReturned(Some(body))];
            &&& run_of(r, PhaseModel::Receiving, handled) == (
                PhaseModel::Publishing,
                seq![ActionModel::Invoke(id), publish],
            )
            &&& run_of(r, PhaseModel::Publishing, seq![EventModel::Published(false)]) == (
                PhaseModel::Stopped,
                seq![ActionModel::Fail],
            )
            &&& run_of(
                r,
                PhaseModel::Publishing,
                seq![EventModel::Published(true), EventModel::Acked(true)],
            ) == (PhaseModel::Receiving, seq![ActionModel::Ack, ActionModel::Next])
        }),
{
    reveal_with_fuel(run_of, 3);
    let id = request_id_of(subject)->0;
    let publish = ActionModel::Publish(response_subject_of(r.project, r.name, r.variant, id), body);
    let handled = seq![EventModel::Received(subject), EventModel::HandlerReturned(Some(body))];
    assert(handled.drop_first().drop_first() =~= Seq::<EventModel>::empty());
    assert(run_of(r, PhaseModel::Receiving, handled).1 =~= seq![ActionModel::Invoke(id), publish]);
    let failed = seq![EventModel::Published(false)];
    assert(failed.drop_first() =~= Seq::<EventModel>::empty());
    assert(run_of(r, PhaseModel::Publishing, failed).1 =~= seq![ActionModel::Fail]);
    let done = seq![EventModel::Published(true), EventModel::Acked(true)];
    assert(done.drop_first().drop_first() =~= Seq::<EventModel>::empty());
    assert(run_of(r, PhaseModel::Publishing, done).1 =~= seq![ActionModel::Ack, ActionModel::Next]);
}

/// Durable mode acknowledges in three cases only: after a successful publish,
/// for a message without a request id, and, where the policy says so, after
/// a failed handler. Simple mode never acknowledges.
pub proof fn lemma_when_acked(r: RouteModel, phase: PhaseModel, ev: EventModel)
    ensures
        step_of(r, phase, ev).1 is Ack ==> r.mode == DeliveryMode::Durable && (
        (phase is Publishing && ev == EventModel::Published(true))
            || (phase is Receiving && ev is Received && request_id_of(ev->Received_0) is None)
            || (phase is Invoking && ev == EventModel::HandlerReturned(None) && r.ack_on_handler_error)),
{
}

/// The dispatch state machine of one function.
pub struct Dispatcher {
    pub mode: DeliveryMode,
    /// Durable mode: acknowledge a message whose handler failed, so that a
    /// poison message is not redelivered forever; otherwise leave it for
    /// redelivery.
    pub ack_on_handler_error: bool,
    pub project: String,
    pub name: String,
    pub variant: String,
    pub phase: Phase,
}

impl Dispatcher {
    pub open spec fn route(&self) -> RouteModel {
        RouteModel {
            mode: self.mode,
            ack_on_handler_error: self.ack_on_handler_error,
            project: self.project@,
            name: self.name@,
            variant: self.variant@,
        }
    }

    /// A dispatcher waiting for its first message.
    pub fn new(
        mode: DeliveryMode,
        ack_on_handler_error: bool,
        project: String,
        name: String,
        variant: String,
    ) -> (r: Dispatcher)
        ensures
            r.route() == (RouteModel {
                mode,
                ack_on_handler_error,
                project: project@,
                name: name@,
                variant: variant@,
            }),
            r.phase@ == PhaseModel::Receiving,
    {
        Dispatcher { mode, ack_on_handler_error, project, name, variant, phase: Phase::Receiving }
    }

    /// The subject pattern that this function's invocations arrive on.
    pub fn exec_subject(&self) -> (r: String)
        ensures
            r@ == exec_subject_of(self.project@, self.name@, self.variant@),
    {
        exec_subject(self.project.as_str(), self.name.as_str(), self.variant.as_str())
    }

    fn stop(&mut self) -> (r: Action)
        ensures
            final(self).route() == old(self).route(),
            final(self).phase@ == PhaseModel::Stopped,
            r@ == ActionModel::Fail,
    {
        self.phase = Phase::Stopped;
        Action::Fail
    }

    /// Takes one event and returns the action that the loop must perform.
    pub fn step(&mut self, ev: Event) -> (r: Action)
        ensures
            final(self).route() == old(self).route(),
            (final(self).phase@, r@) == step_of(old(self).route(), old(self).phase@, ev@),
    {
        let durable = match self.mode {
            DeliveryMode::Durable => true,
            DeliveryMode::Simple => false,
        };
        match ev {
            Event::Received { subject } => {
                if !matches!(self.phase, Phase::Receiving) {
                    return self.stop();
                }
                match request_id(subject.as_str()) {
                    Some(id) => {
                        let id2 = id.clone();
                        self.phase = Phase::Invoking { request_id: id };
                        Action::Invoke { request_id: id2 }
                    },
                    None => {
                        if durable {
                            self.phase = Phase::Acking;
                            Action::Ack
                        } else {
                            Action::Next
                        }
                    },
                }
            },
            Event::Closed => {
                if !matches!(self.phase, Phase::Receiving) {
                    return self.stop();
                }
                self.phase = Phase::Stopped;
                Action::Finish
            },
            Event::HandlerReturned { body } => {
                let current: Option<String> = match &self.phase {
                    Phase::Invoking { request_id } => Some(request_id.clone()),
                    _ => None,
                };
                match current {
                    None => self.stop(),
                    Some(id) => match body {
                        Some(b) => {
                            let subject = response_subject(
                                self.project.as_str(),
                                self.name.as_str(),
                                self.variant.as_str(),
                                id.as_str(),
                            );
                            self.phase = Phase::Publishing;
                            Action::Publish { subject, body: b }
                        },
                        None => {
                            if durable && self.ack_on_handler_error {
                                self.phase = Phase::Acking;
                                Action::Ack
                            } else {
                                self.phase = Phase::Receiving;
                                Action::Next
                            }
                        },
                    },
                }
            },
            Event::Published { ok } => {
                if !matches!(self.phase, Phase::Publishing) || !ok {
                    return self.stop();
                }
                if durable {
                    self.phase = Phase::Acking;
                    Action::Ack
                } else {
                    self.phase = Phase::Receiving;
                    Action::Next
                }
            },
            Event::Acked { ok } => {
                if !matches!(self.phase, Phase::Acking) || !ok {
                    return self.stop();
                }
                self.phase = Phase::Receiving;
                Action::Next
            },
        }
    }
}

} // verus!
