//! The service-definition propagator: a catch-up query of the topic, then a
//! live subscription, with every well-formed definition posted to each
//! downstream target. The decisions are a state machine; the caller performs
//! the bus and HTTP work and hands back what happened.
use crate::definition::{
    decode_error, decode_service_definition, identity_in, json_accepts, DecodeError,
    ServiceDefinition,
};
use vstd::prelude::*;
use vstd::utf8::{decode_utf8, valid_utf8};

verus! {

/// The key expression of the service-definition topic.
pub const ZENOH_KEY_EXPRESSION: &'static str = "colmena_service_definitions/*";

/// The content type of every forwarded definition.
pub const CONTENT_TYPE: &'static str = "application/json";

/// One HTTP POST of a definition to a downstream target.
#[derive(Clone, Debug)]
pub struct Post {
    pub url: String,
    pub body: Vec<u8>,
}

/// One post per target, in the order of the targets, each carrying `body`.
pub open spec fn is_fan_out(posts: Seq<Post>, targets: Seq<String>, body: Seq<u8>) -> bool {
    &&& posts.len() == targets.len()
    &&& forall|i: int|
        0 <= i < posts.len() ==> (#[trigger] posts[i]).url@ == targets[i]@ && posts[i].body@
            == body
}

/// The posts that deliver `definition` to every target.
pub fn forward_service_definition(definition: &ServiceDefinition, targets: &Vec<String>) -> (r:
    Vec<Post>)
    ensures
        is_fan_out(r@, targets@, definition.payload@),
{
    let mut posts: Vec<Post> = Vec::new();
    let mut i: usize = 0;
    while i < targets.len()
        invariant
            0 <= i <= targets@.len(),
            is_fan_out(posts@, targets@.take(i as int), definition.payload@),
        decreases targets@.len() - i,
    {
        let body = definition.payload.clone();
        assert(body@ =~= definition.payload@);
        posts.push(Post { url: targets[i].clone(), body });
        i = i + 1;
    }
    assert(targets@.take(targets@.len() as int) =~= targets@);
    posts
}

/// Where the propagator stands.
#[derive(Clone, Copy, Debug, PartialEq, Eq, Structural)]
pub enum Phase {
    /// Draining the replies of the one-shot query of the topic.
    CatchUp,
    /// Receiving live messages of the subscription.
    Live,
    /// The subscription has closed.
    Finished,
}

/// What the bus delivered.
#[derive(Debug)]
pub enum BusEvent {
    /// One reply of the catch-up query: a payload, or a delivery error.
    CatchUpReply(Result<Vec<u8>, String>),
    /// The catch-up query has no more replies, or could not be issued.
    CatchUpEnded,
    /// One live message of the subscription.
    Sample(Vec<u8>),
    /// The subscription stream has closed.
    SubscriptionClosed,
}

/// What the caller is to do next.
#[derive(Clone, Debug)]
pub enum Action {
    /// Send each post, independently of the others' outcomes.
    Forward { identity: String, posts: Vec<Post> },
    /// Log and drop a malformed message.
    Drop(DecodeError),
    /// Log and skip a reply that carried a delivery error.
    SkipReply,
    /// Subscribe to the topic and deliver its messages.
    Subscribe,
    /// Nothing: the event does not belong to the current phase.
    Ignore,
    /// Stop: the subscription is over.
    Stop,
}

/// What the caller does with a decoded message.
pub open spec fn reaction(decoded: Result<ServiceDefinition, DecodeError>, targets: Seq<String>, a: Action) -> bool {
    match decoded {
        Ok(d) => a matches Action::Forward { identity, posts } && identity@ == d.identity@
            && is_fan_out(posts@, targets, d.payload@),
        Err(e) => a matches Action::Drop(x) && x == e,
    }
}

/// Turns a decoded message into the action it calls for: a definition goes to
/// every target, a malformed message is dropped.
pub fn react(decoded: Result<ServiceDefinition, DecodeError>, targets: &Vec<String>) -> (a: Action)
    ensures
        reaction(decoded, targets@, a),
{
    match decoded {
        Ok(d) => {
            let posts = forward_service_definition(&d, targets);
            Action::Forward { identity: d.identity, posts }
        },
        Err(e) => Action::Drop(e),
    }
}

/// How a message of the topic is handled: a service definition is posted to
/// every target with its payload as the body; anything else is dropped for
/// the reason it is not one.
pub open spec fn message_handled(payload: Seq<u8>, targets: Seq<String>, a: Action) -> bool {
    match decode_error(payload) {
        Some(e) => a matches Action::Drop(x) && x == e,
        None => a matches Action::Forward { identity, posts } && identity@ == identity_in(payload)
            && is_fan_out(posts@, targets, payload),
    }
}

/// Decodes a message of the topic and returns what it calls for: a
/// definition goes to every target, a malformed message is dropped.
pub fn handle_service_definition(payload: Vec<u8>, targets: &Vec<String>) -> (a: Action)
    ensures
        message_handled(payload@, targets@, a),
{
    let decoded = decode_service_definition(payload);
    react(decoded, targets)
}

/// The phase after `e` is delivered in phase `p`.
pub open spec fn next_phase(p: Phase, e: BusEvent) -> Phase {
    match (p, e) {
        (Phase::CatchUp, BusEvent::CatchUpEnded) => Phase::Live,
        (Phase::Live, BusEvent::SubscriptionClosed) => Phase::Finished,
        _ => p,
    }
}

/// The action that `e` calls for in phase `p`.
pub open spec fn step_action(p: Phase, targets: Seq<String>, e: BusEvent, a: Action) -> bool {
    match e {
        BusEvent::CatchUpReply(Ok(payload)) => if p == Phase::CatchUp {
            message_handled(payload@, targets, a)
        } else {
            a is Ignore
        },
        BusEvent::CatchUpReply(Err(_)) => if p == Phase::CatchUp {
            a is SkipReply
        } else {
            a is Ignore
        },
        BusEvent::CatchUpEnded => if p == Phase::CatchUp {
            a is Subscribe
        } else {
            a is Ignore
        },
        BusEvent::Sample(payload) => if p == Phase::Live {
            message_handled(payload@, targets, a)
        } else {
            a is Ignore
        },
        BusEvent::SubscriptionClosed => if p == Phase::Live {
            a is Stop
        } else {
            a is Ignore
        },
    }
}

/// The propagator's state: its phase and its fixed set of downstream targets.
pub struct Propagator {
    phase: Phase,
    targets: Vec<String>,
}

impl Propagator {
    /// The current phase.
    pub closed spec fn phase_spec(&self) -> Phase {
        self.phase
    }

    /// The downstream targets, fixed for the propagator's lifetime.
    pub closed spec fn targets_spec(&self) -> Seq<String> {
        self.targets@
    }

    /// A propagator that starts with the catch-up query.
    pub fn new(targets: Vec<String>) -> (p: Self)
        ensures
            p.phase_spec() == Phase::CatchUp,
            p.targets_spec() == targets@,
    {
        Propagator { phase: Phase::CatchUp, targets }
    }

    pub fn phase(&self) -> (r: Phase)
        ensures
            r == self.phase_spec(),
    {
        self.phase
    }

    pub fn targets(&self) -> (r: &Vec<String>)
        ensures
            r@ == self.targets_spec(),
    {
        &self.targets
    }

    /// Takes in one event of the bus and returns the action it calls for.
    pub fn on_event(&mut self, event: BusEvent) -> (a: Action)
        ensures
            final(self).phase_spec() == next_phase(old(self).phase_spec(), event),
            final(self).targets_spec() == old(self).targets_spec(),
            step_action(old(self).phase_spec(), old(self).targets_spec(), event, a),
    {
        match event {
            BusEvent::CatchUpReply(reply) => match self.phase {
                Phase::CatchUp => match reply {
                    Ok(payload) => handle_service_definition(payload, &self.targets),
                    Err(_) => Action::SkipReply,
                },
                _ => Action::Ignore,
            },
            BusEvent::CatchUpEnded => match self.phase {
                Phase::CatchUp => {
                    self.phase = Phase::Live;
                    Action::Subscribe
                },
                _ => Action::Ignore,
            },
            BusEvent::Sample(payload) => match self.phase {
                Phase::Live => handle_service_definition(payload, &self.targets),
                _ => Action::Ignore,
            },
            BusEvent::SubscriptionClosed => match self.phase {
                Phase::Live => {
                    self.phase = Phase::Finished;
                    Action::Stop
                },
                _ => Action::Ignore,
            },
        }
    }
}

/// Two actions that do the same: drop for the same reason, or post the same
/// bodies to the same targets under the same identity.
pub open spec fn same_outcome(a: Action, b: Action) -> bool {
    match (a, b) {
        (Action::Drop(x), Action::Drop(y)) => x == y,
        (Action::Forward { identity: i, posts: p }, Action::Forward { identity: j, posts: q }) => {
            &&& i@ == j@
            &&& p@.len() == q@.len()
            &&& forall|k: int|
                0 <= k < p@.len() ==> (#[trigger] p@[k]).url@ == q@[k].url@ && p@[k].body@
                    == q@[k].body@
        },
        _ => false,
    }
}

/// A service definition received live is posted exactly once to each target,
/// in the order of the targets, with its payload as the body, however many
/// targets there are; the subscription goes on.
pub proof fn law_definition_posted_once_to_each_target(
    targets: Seq<String>,
    payload: Vec<u8>,
    a: Action,
)
    requires
        decode_error(payload@) is None,
        step_action(Phase::Live, targets, BusEvent::Sample(payload), a),
    ensures
        a matches Action::Forward { identity, posts } && identity@ == identity_in(payload@)
            && posts@.len() == targets.len() && forall|i: int|
            0 <= i < targets.len() ==> (#[trigger] posts@[i]).url@ == targets[i]@
                && posts@[i].body@ == payload@,
        next_phase(Phase::Live, BusEvent::Sample(payload)) == Phase::Live,
{
}

/// A live message that is not UTF-8 JSON is dropped and the subscription goes
/// on: a message after it is still handled, and a service definition is
/// forwarded to every target.
pub proof fn law_malformed_message_keeps_subscription(
    targets: Seq<String>,
    bad: Vec<u8>,
    a: Action,
    good: Vec<u8>,
    b: Action,
)
    requires
        !valid_utf8(bad@) || !json_accepts(decode_utf8(bad@)),
        step_action(Phase::Live, targets, BusEvent::Sample(bad), a),
        step_action(next_phase(Phase::Live, BusEvent::Sample(bad)), targets, BusEvent::Sample(good), b),
    ensures
        a is Drop,
        next_phase(Phase::Live, BusEvent::Sample(bad)) == Phase::Live,
        message_handled(good@, targets, b),
        decode_error(good@) is None ==> (b matches Action::Forward { posts, .. } && is_fan_out(posts@, targets, good@)),
{
}

/// A reply of the catch-up query is handled exactly as the same payload
/// received live, and leaves the propagator in its catch-up phase.
pub proof fn law_catch_up_handled_like_live(targets: Seq<String>, payload: Vec<u8>, a: Action, b: Action)
    requires
        step_action(Phase::CatchUp, targets, BusEvent::CatchUpReply(Ok(payload)), a),
        step_action(Phase::Live, targets, BusEvent::Sample(payload), b),
    ensures
        same_outcome(a, b),
        next_phase(Phase::CatchUp, BusEvent::CatchUpReply(Ok(payload))) == Phase::CatchUp,
{
}

/// Catch-up and live delivery do not overlap: live messages are ignored until
/// the catch-up query has ended, and catch-up replies are ignored afterwards.
pub proof fn law_catch_up_precedes_live(targets: Seq<String>, e: BusEvent, a: Action)
    requires
        step_action(Phase::CatchUp, targets, e, a) || step_action(Phase::Live, targets, e, a),
    ensures
        e is Sample ==> (step_action(Phase::CatchUp, targets, e, a) ==> a is Ignore),
        e is CatchUpReply ==> (step_action(Phase::Live, targets, e, a) ==> a is Ignore),
        next_phase(Phase::CatchUp, e) == Phase::Live <==> e is CatchUpEnded,
{
}

} // verus!
