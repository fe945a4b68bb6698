//! Relays one batch: the messages to deliver, and what to do after each
//! delivery. The caller performs the deliveries and reports how each ended.

use crate::alert::{reportable, AlertManager, BatchView};
use crate::grouping::{group_alerts, grouping, groups_view, StatusBucket};
use crate::grouping_laws::{
    lemma_bucket_contents, lemma_group_has_bucket, lemma_nothing_reportable_no_groups,
};
use crate::http::{
    is_success, is_success_code, HttpReply, ReplyView, WebhookOutcome,
    STATUS_INTERNAL_SERVER_ERROR, STATUS_OK,
};
use crate::message::{format_message, message_of, Discord, DiscordView};
use vstd::prelude::*;

verus! {

/// The body of the answer to a batch of which a message did not reach the
/// webhook.
pub const BODY_UNREACHABLE: &'static str = "Could not send to Discord";

/// The body of the answer to a batch of which the webhook refused a message.
pub const BODY_REJECTED: &'static str = "Discord API rejected payload";

/// Why the relay of a batch stopped early.
#[derive(Debug, Clone, Copy)]
pub enum DeliveryFailure {
    /// A message did not reach the webhook.
    Unreachable,
    /// The webhook answered a message with a status code other than 200 to
    /// 299.
    Rejected,
}

/// What the caller is to do next.
#[derive(Debug)]
pub enum RelayAction<'a> {
    /// Send this message to the webhook and report the outcome.
    Deliver(&'a Discord),
    /// Answer the notification with this reply: the relay is over.
    Respond(HttpReply),
}

/// What a `RelayAction` stands for.
pub enum ActionView {
    Deliver(DiscordView),
    Respond(ReplyView),
}

impl<'a> View for RelayAction<'a> {
    type V = ActionView;

    open spec fn view(&self) -> ActionView {
        match *self {
            RelayAction::Deliver(message) => ActionView::Deliver(message@),
            RelayAction::Respond(reply) => ActionView::Respond(reply@),
        }
    }
}

/// The state of a relay: the messages of the batch, how many of them the
/// webhook has accepted, and the failure that stopped the relay, if any.
pub struct RelayView {
    pub messages: Seq<DiscordView>,
    pub delivered: nat,
    pub failure: Option<DeliveryFailure>,
}

/// The relay of one batch.
pub struct Relay {
    messages: Vec<Discord>,
    delivered: usize,
    failure: Option<DeliveryFailure>,
}

/// What a list of messages stands for.
pub open spec fn messages_view(messages: Seq<Discord>) -> Seq<DiscordView> {
    messages.map_values(|message: Discord| message@)
}

/// The messages of a batch: one for each of its status groups, in their
/// order.
pub open spec fn planned_messages(batch: BatchView) -> Seq<DiscordView> {
    grouping(batch.alerts).map_values(
        |group: StatusBucket| message_of(group, batch.common_labels, batch.external_url),
    )
}

/// The relay of a batch before any delivery.
pub open spec fn start_of(batch: BatchView) -> RelayView {
    RelayView { messages: planned_messages(batch), delivered: 0, failure: None }
}

/// The answer to a batch that was relayed in full.
pub open spec fn ok_reply() -> ReplyView {
    ReplyView { status: STATUS_OK, body: Seq::empty() }
}

/// The answer to a batch whose relay stopped with `failure`.
pub open spec fn failure_reply(failure: DeliveryFailure) -> ReplyView {
    ReplyView {
        status: STATUS_INTERNAL_SERVER_ERROR,
        body: match failure {
            DeliveryFailure::Unreachable => BODY_UNREACHABLE@,
            DeliveryFailure::Rejected => BODY_REJECTED@,
        },
    }
}

/// A relay waits for the outcome of a delivery while nothing has failed
/// and a message is left.
pub open spec fn awaits_outcome(relay: RelayView) -> bool {
    relay.failure is None && relay.delivered < relay.messages.len()
}

/// What is to be done in state `relay`: deliver the first message that the
/// webhook has not accepted yet, or, where the relay is over, answer.
pub open spec fn action_of(relay: RelayView) -> ActionView {
    match relay.failure {
        Some(failure) => ActionView::Respond(failure_reply(failure)),
        None => if relay.delivered < relay.messages.len() {
            ActionView::Deliver(relay.messages[relay.delivered as int])
        } else {
            ActionView::Respond(ok_reply())
        },
    }
}

/// What an outcome means for the delivery that it ends: a failure, unless
/// the webhook answered with a status code from 200 to 299.
pub open spec fn failure_of(outcome: WebhookOutcome) -> Option<DeliveryFailure> {
    match outcome {
        WebhookOutcome::Responded(code) => if is_success_code(code) {
            None
        } else {
            Some(DeliveryFailure::Rejected)
        },
        WebhookOutcome::Unreachable => Some(DeliveryFailure::Unreachable),
    }
}

/// The state after `outcome` was reported in state `relay`. An outcome that
/// the relay does not wait for changes nothing.
pub open spec fn after_outcome(relay: RelayView, outcome: WebhookOutcome) -> RelayView {
    if !awaits_outcome(relay) {
        relay
    } else {
        match failure_of(outcome) {
            None => RelayView { delivered: relay.delivered + 1, ..relay },
            Some(failure) => RelayView { failure: Some(failure), ..relay },
        }
    }
}

/// The state after the outcomes `outcomes` were reported one after the
/// other, starting in state `relay`.
pub open spec fn after_outcomes(relay: RelayView, outcomes: Seq<WebhookOutcome>) -> RelayView
    decreases outcomes.len(),
{
    if outcomes.len() == 0 {
        relay
    } else {
        after_outcome(after_outcomes(relay, outcomes.drop_last()), outcomes.last())
    }
}

/// Builds the messages of a batch, one for each status group. A status
/// group without embeds would give no message and be passed over; the groups
/// of a batch all have embeds.
pub fn plan_messages(batch: &AlertManager) -> (messages: Vec<Discord>)
    ensures
        messages_view(messages@) == planned_messages(batch@),
{
    let groups = group_alerts(&batch.alerts);
    let mut messages: Vec<Discord> = Vec::new();
    let mut i: usize = 0;
    while i < groups.len()
        invariant
            i <= groups.len(),
            groups_view(groups@) == grouping(batch@.alerts),
            messages.len() == i,
            forall|m: int|
                0 <= m < i ==> (#[trigger] messages[m])@ == message_of(
                    groups[m]@,
                    batch.common_labels@,
                    batch.external_url@,
                ),
        decreases groups.len() - i,
    {
        proof {
            // A group of the grouping has a bucket, so it gives a message.
            lemma_group_has_bucket(batch@.alerts, i as int);
            assert(groups_view(groups@)[i as int] == groups[i as int]@);
        }
        match format_message(&groups[i], &batch.common_labels, batch.external_url.as_str()) {
            Some(message) => {
                messages.push(message);
            },
            None => {},
        }
        i += 1;
    }
    proof {
        assert forall|m: int| 0 <= m < groups.len() implies messages_view(messages@)[m]
            == planned_messages(batch@)[m] by {
            assert(groups_view(groups@)[m] == groups[m]@);
        }
        assert(messages_view(messages@) =~= planned_messages(batch@));
    }
    messages
}

impl View for Relay {
    type V = RelayView;

    closed spec fn view(&self) -> RelayView {
        RelayView {
            messages: messages_view(self.messages@),
            delivered: self.delivered as nat,
            failure: self.failure,
        }
    }
}

impl Relay {
    #[verifier::type_invariant]
    spec fn well_formed(self) -> bool {
        self.delivered <= self.messages.len()
    }

    /// Starts the relay of a batch.
    pub fn new(batch: &AlertManager) -> (relay: Relay)
        ensures
            relay@ == start_of(batch@),
    {
        Relay { messages: plan_messages(batch), delivered: 0, failure: None }
    }

    /// What the caller is to do now.
    pub fn next_action(&self) -> (action: RelayAction<'_>)
        ensures
            action@ == action_of(self@),
    {
        proof {
            use_type_invariant(self);
        }
        match self.failure {
            Some(DeliveryFailure::Unreachable) => RelayAction::Respond(
                HttpReply {
                    status: STATUS_INTERNAL_SERVER_ERROR,
                    body: String::from_str(BODY_UNREACHABLE),
                },
            ),
            Some(DeliveryFailure::Rejected) => RelayAction::Respond(
                HttpReply {
                    status: STATUS_INTERNAL_SERVER_ERROR,
                    body: String::from_str(BODY_REJECTED),
                },
            ),
            None => if self.delivered < self.messages.len() {
                RelayAction::Deliver(&self.messages[self.delivered])
            } else {
                RelayAction::Respond(HttpReply { status: STATUS_OK, body: String::new() })
            },
        }
    }

    /// Takes note of how the delivery that `next_action` asked for ended.
    /// The first failure ends the relay: no further message is handed out.
    pub fn record(&mut self, outcome: WebhookOutcome)
        ensures
            final(self)@ == after_outcome(old(self)@, outcome),
    {
        proof {
            use_type_invariant(&*self);
        }
        if self.failure.is_none() && self.delivered < self.messages.len() {
            match outcome {
                WebhookOutcome::Responded(code) => {
                    if is_success(code) {
                        self.delivered = self.delivered + 1;
                    } else {
                        self.failure = Some(DeliveryFailure::Rejected);
                    }
                },
                WebhookOutcome::Unreachable => {
                    self.failure = Some(DeliveryFailure::Unreachable);
                },
            }
        }
    }
}

/// Every message of a batch has an embed, and every embed has a field: what
/// is sent is never empty.
pub proof fn lemma_messages_have_content(batch: BatchView, m: int)
    requires
        0 <= m < planned_messages(batch).len(),
    ensures
        planned_messages(batch)[m].embeds.len() > 0,
        forall|e: int|
            0 <= e < planned_messages(batch)[m].embeds.len() ==> (#[trigger] planned_messages(
                batch,
            )[m].embeds[e]).fields.len() > 0,
{
    let embeds = planned_messages(batch)[m].embeds;
    lemma_group_has_bucket(batch.alerts, m);
    assert forall|e: int| 0 <= e < embeds.len() implies (#[trigger] embeds[e]).fields.len()
        > 0 by {
        lemma_bucket_contents(batch.alerts, m, e);
    }
}

/// A batch without alerts has no message: the relay answers at once, with
/// success, and asks for no delivery.
pub proof fn lemma_empty_batch_nothing_to_send(batch: BatchView)
    requires
        batch.alerts.len() == 0,
    ensures
        planned_messages(batch).len() == 0,
        action_of(start_of(batch)) == ActionView::Respond(ok_reply()),
{
    lemma_nothing_to_send(batch);
}

/// A batch in which no alert is reportable has no message either: the relay
/// answers at once, with success, and asks for no delivery.
pub proof fn lemma_nothing_to_send(batch: BatchView)
    requires
        forall|n: int| 0 <= n < batch.alerts.len() ==> !reportable(#[trigger] batch.alerts[n]),
    ensures
        planned_messages(batch).len() == 0,
        action_of(start_of(batch)) == ActionView::Respond(ok_reply()),
{
    lemma_nothing_reportable_no_groups(batch.alerts);
}

/// A relay that has failed stays as it is, whatever is reported to it, and
/// answers with the internal error of its failure: it asks for no further
/// delivery.
pub proof fn lemma_failure_ends_relay(relay: RelayView, outcomes: Seq<WebhookOutcome>)
    requires
        relay.failure is Some,
    ensures
        after_outcomes(relay, outcomes) == relay,
        action_of(relay) == ActionView::Respond(failure_reply(relay.failure->0)),
    decreases outcomes.len(),
{
    if outcomes.len() > 0 {
        lemma_failure_ends_relay(relay, outcomes.drop_last());
    }
}

/// While the webhook accepts every message, the messages are handed out one
/// by one, in their order; after the last of them the relay answers with
/// success.
pub proof fn lemma_relay_in_order(relay: RelayView, outcomes: Seq<WebhookOutcome>)
    requires
        relay.failure is None,
        relay.delivered == 0,
        outcomes.len() <= relay.messages.len(),
        forall|k: int| 0 <= k < outcomes.len() ==> failure_of(#[trigger] outcomes[k]) is None,
    ensures
        after_outcomes(relay, outcomes) == (RelayView { delivered: outcomes.len(), ..relay }),
        outcomes.len() < relay.messages.len() ==> action_of(after_outcomes(relay, outcomes))
            == ActionView::Deliver(relay.messages[outcomes.len() as int]),
        outcomes.len() == relay.messages.len() ==> action_of(after_outcomes(relay, outcomes))
            == ActionView::Respond(ok_reply()),
    decreases outcomes.len(),
{
    if outcomes.len() > 0 {
        lemma_relay_in_order(relay, outcomes.drop_last());
    }
}

} // verus!
