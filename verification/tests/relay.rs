use alertmanager_discord_bridge::alert::{AlertManager, AlertManagerAlert, LabelSet};
use alertmanager_discord_bridge::http::{is_success, HttpReply, WebhookOutcome};
use alertmanager_discord_bridge::message::{
    Discord, DiscordEmbedField, COLOR_RED, COLOR_YELLOW,
};
use alertmanager_discord_bridge::relay::{plan_messages, Relay, RelayAction};

const FIRING: &str =
    "\u{1f6a8} Your infrastructure would like to inform you about some stuff! \u{1f6a8}";
const RESOLVED: &str = "\u{1f389} These issues have been resolved! \u{1f389}";

fn label_set(pairs: &[(&str, &str)]) -> LabelSet {
    let mut set = LabelSet::new();
    for (name, value) in pairs {
        set.insert(name.to_string(), value.to_string());
    }
    set
}

fn alert(
    status: &str,
    labels: &[(&str, &str)],
    annotations: &[(&str, &str)],
) -> AlertManagerAlert {
    AlertManagerAlert {
        status: status.to_string(),
        labels: label_set(labels),
        annotations: label_set(annotations),
        starts_at: "2021-03-01T10:00:00Z".to_string(),
        ends_at: "0001-01-01T00:00:00Z".to_string(),
        generator_url: "http://prometheus.example/graph".to_string(),
    }
}

fn batch(status: &str, alerts: Vec<AlertManagerAlert>) -> AlertManager {
    AlertManager {
        version: "4".to_string(),
        group_key: "{}:{alertname=\"HighCPU\"}".to_string(),
        status: status.to_string(),
        receiver: "discord".to_string(),
        common_labels: label_set(&[("prometheus", "monitoring/k8s")]),
        common_annotations: LabelSet::new(),
        external_url: "http://am.example:9093".to_string(),
        alerts,
    }
}

fn field(name: &str, value: &str) -> DiscordEmbedField {
    DiscordEmbedField { name: name.to_string(), value: value.to_string() }
}

fn ok() -> HttpReply {
    HttpReply { status: 200, body: String::new() }
}

/// Runs a relay against a webhook that answers the deliveries with
/// `outcomes`, one after the other. Gives the contents of the messages that
/// were handed out and the reply.
fn run(batch: &AlertManager, outcomes: &[WebhookOutcome]) -> (Vec<String>, HttpReply) {
    let mut relay = Relay::new(batch);
    let mut sent = Vec::new();
    loop {
        match relay.next_action() {
            RelayAction::Respond(reply) => return (sent, reply),
            RelayAction::Deliver(message) => {
                let outcome = outcomes[sent.len()];
                sent.push(message.content.clone());
                relay.record(outcome);
            },
        }
    }
}

fn two_status_batch() -> AlertManager {
    batch(
        "firing",
        vec![
            alert("firing", &[("alertname", "A"), ("severity", "critical")], &[]),
            alert("resolved", &[("alertname", "B"), ("severity", "warning")], &[]),
            alert("pending", &[("alertname", "C"), ("severity", "info")], &[]),
        ],
    )
}

#[test]
fn success_codes_are_200_to_299() {
    assert!(!is_success(0));
    assert!(!is_success(199));
    assert!(is_success(200));
    assert!(is_success(204));
    assert!(is_success(299));
    assert!(!is_success(300));
    assert!(!is_success(404));
    assert!(!is_success(500));
    assert!(!is_success(65535));
}

#[test]
fn empty_batch_is_answered_without_delivery() {
    let b = batch("firing", Vec::new());
    assert!(plan_messages(&b).is_empty());
    assert_eq!(run(&b, &[]), (Vec::new(), ok()));
}

#[test]
fn batch_of_severity_none_is_answered_without_delivery() {
    let b = batch(
        "firing",
        vec![
            alert("firing", &[("alertname", "A"), ("severity", "none")], &[]),
            alert("firing", &[("alertname", "B")], &[]),
            alert("resolved", &[("severity", "none")], &[]),
        ],
    );
    assert!(plan_messages(&b).is_empty());
    assert_eq!(run(&b, &[]), (Vec::new(), ok()));
}

#[test]
fn one_critical_firing_alert() {
    let b = batch(
        "firing",
        vec![alert(
            "firing",
            &[("alertname", "HighCPU"), ("severity", "critical")],
            &[("description", "CPU too high")],
        )],
    );
    let messages = plan_messages(&b);
    assert_eq!(messages.len(), 1);
    let message: &Discord = &messages[0];
    assert_eq!(message.content, FIRING);
    assert_eq!(message.embeds.len(), 1);
    assert_eq!(message.embeds[0].title, "CRITICAL");
    assert_eq!(message.embeds[0].color, COLOR_RED);
    assert_eq!(message.embeds[0].color, 15145498);
    assert_eq!(message.embeds[0].fields, vec![field("HighCPU", "CPU too high")]);
    assert_eq!(message.embeds[0].author.name, "monitoring/k8s");
    assert_eq!(message.embeds[0].author.url, "http://am.example:9093");
    let (sent, reply) = run(&b, &[WebhookOutcome::Responded(204)]);
    assert_eq!(sent, vec![FIRING.to_string()]);
    assert_eq!(reply, ok());
}

#[test]
fn two_resolved_warnings() {
    let b = batch(
        "resolved",
        vec![
            alert(
                "resolved",
                &[("alertname", "DiskFull"), ("severity", "warning")],
                &[("description", "disk 1")],
            ),
            alert(
                "resolved",
                &[("alertname", "DiskFull"), ("severity", "warning")],
                &[("message", "disk 2")],
            ),
        ],
    );
    let messages = plan_messages(&b);
    assert_eq!(messages.len(), 1);
    assert_eq!(messages[0].content, RESOLVED);
    assert_eq!(messages[0].embeds.len(), 1);
    assert_eq!(messages[0].embeds[0].title, "WARNING");
    assert_eq!(messages[0].embeds[0].color, COLOR_YELLOW);
    assert_eq!(
        messages[0].embeds[0].fields,
        vec![field("DiskFull", "disk 1"), field("DiskFull", "disk 2")]
    );
    let (sent, reply) = run(&b, &[WebhookOutcome::Responded(200)]);
    assert_eq!(sent, vec![RESOLVED.to_string()]);
    assert_eq!(reply, ok());
}

#[test]
fn one_delivery_for_each_status_in_order() {
    let b = two_status_batch();
    let outcomes = [
        WebhookOutcome::Responded(204),
        WebhookOutcome::Responded(200),
        WebhookOutcome::Responded(299),
    ];
    let (sent, reply) = run(&b, &outcomes);
    assert_eq!(
        sent,
        vec![
            FIRING.to_string(),
            RESOLVED.to_string(),
            "Unknown status pending, please advise!".to_string()
        ]
    );
    assert_eq!(reply, ok());
}

#[test]
fn rejection_ends_the_relay_with_internal_error() {
    let b = two_status_batch();
    let (sent, reply) = run(&b, &[WebhookOutcome::Responded(500)]);
    assert_eq!(sent, vec![FIRING.to_string()]);
    assert_eq!(
        reply,
        HttpReply { status: 500, body: "Discord API rejected payload".to_string() }
    );
}

#[test]
fn rejection_of_a_later_message_leaves_the_rest_unsent() {
    let b = two_status_batch();
    let (sent, reply) =
        run(&b, &[WebhookOutcome::Responded(204), WebhookOutcome::Responded(429)]);
    assert_eq!(sent, vec![FIRING.to_string(), RESOLVED.to_string()]);
    assert_eq!(reply.status, 500);
    assert_eq!(reply.body, "Discord API rejected payload");
}

#[test]
fn redirect_counts_as_rejection() {
    let b = two_status_batch();
    let (sent, reply) = run(&b, &[WebhookOutcome::Responded(302)]);
    assert_eq!(sent.len(), 1);
    assert_eq!(reply.status, 500);
    assert_eq!(reply.body, "Discord API rejected payload");
}

#[test]
fn transport_failure_ends_the_relay_with_internal_error() {
    let b = two_status_batch();
    let (sent, reply) = run(&b, &[WebhookOutcome::Unreachable]);
    assert_eq!(sent, vec![FIRING.to_string()]);
    assert_eq!(reply, HttpReply { status: 500, body: "Could not send to Discord".to_string() });
}

#[test]
fn failed_relay_ignores_later_outcomes() {
    let b = two_status_batch();
    let mut relay = Relay::new(&b);
    assert!(matches!(relay.next_action(), RelayAction::Deliver(_)));
    relay.record(WebhookOutcome::Responded(500));
    relay.record(WebhookOutcome::Responded(200));
    relay.record(WebhookOutcome::Unreachable);
    match relay.next_action() {
        RelayAction::Respond(reply) => {
            assert_eq!(reply.status, 500);
            assert_eq!(reply.body, "Discord API rejected payload");
        },
        RelayAction::Deliver(_) => panic!("a failed relay asked for a delivery"),
    }
}

#[test]
fn finished_relay_ignores_later_outcomes() {
    let b = batch("firing", Vec::new());
    let mut relay = Relay::new(&b);
    relay.record(WebhookOutcome::Responded(500));
    relay.record(WebhookOutcome::Unreachable);
    match relay.next_action() {
        RelayAction::Respond(reply) => assert_eq!(reply, ok()),
        RelayAction::Deliver(_) => panic!("a relay without messages asked for a delivery"),
    }
}

#[test]
fn next_action_repeats_until_an_outcome_is_recorded() {
    let b = two_status_batch();
    let relay = Relay::new(&b);
    for _ in 0..3 {
        match relay.next_action() {
            RelayAction::Deliver(message) => assert_eq!(message.content, FIRING),
            RelayAction::Respond(_) => panic!("the relay answered before any delivery"),
        }
    }
}

#[test]
fn planned_messages_are_never_empty() {
    let b = batch(
        "firing",
        vec![
            alert("firing", &[("alertname", "A"), ("severity", "critical")], &[]),
            alert("resolved", &[("alertname", "B"), ("severity", "none")], &[]),
            alert("pending", &[("alertname", "C")], &[]),
            alert("resolved", &[("alertname", "D"), ("severity", "info")], &[]),
            alert("firing", &[("alertname", "E"), ("severity", "none")], &[]),
        ],
    );
    let messages = plan_messages(&b);
    assert_eq!(messages.len(), 2);
    for message in &messages {
        assert!(!message.embeds.is_empty());
        for embed in &message.embeds {
            assert!(!embed.fields.is_empty());
        }
    }
    assert_eq!(messages[0].content, FIRING);
    assert_eq!(messages[0].embeds[0].fields, vec![field("A", "")]);
    assert_eq!(messages[1].content, RESOLVED);
    assert_eq!(messages[1].embeds[0].fields, vec![field("D", "")]);
}
