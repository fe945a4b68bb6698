use alertmanager_discord_bridge::alert::{AlertManagerAlert, LabelSet};
use alertmanager_discord_bridge::grouping::{group_alerts, SeverityGroup, StatusGroup};
use alertmanager_discord_bridge::message::{
    author_for, banner_for, color_for, describe_severity, embed_for, field_for, format_message,
    Author, DiscordEmbedField, COLOR_BLUE, COLOR_GRAY, COLOR_RED, COLOR_YELLOW,
};

fn label_set(pairs: &[(&str, &str)]) -> LabelSet {
    let mut set = LabelSet::new();
    for (name, value) in pairs {
        set.insert(name.to_string(), value.to_string());
    }
    set
}

fn alert(
    status: &str,
    labels: &[(&str, &str)],
    annotations: &[(&str, &str)],
) -> AlertManagerAlert {
    AlertManagerAlert {
        status: status.to_string(),
        labels: label_set(labels),
        annotations: label_set(annotations),
        starts_at: "2021-03-01T10:00:00Z".to_string(),
        ends_at: "0001-01-01T00:00:00Z".to_string(),
        generator_url: "http://prometheus.example/graph".to_string(),
    }
}

fn field(name: &str, value: &str) -> DiscordEmbedField {
    DiscordEmbedField { name: name.to_string(), value: value.to_string() }
}

#[test]
fn colors_are_the_fixed_numbers() {
    assert_eq!(COLOR_GRAY, 9807270);
    assert_eq!(COLOR_RED, 15145498);
    assert_eq!(COLOR_YELLOW, 15646767);
    assert_eq!(COLOR_BLUE, 7782616);
}

#[test]
fn color_follows_severity() {
    assert_eq!(color_for("critical"), COLOR_RED);
    assert_eq!(color_for("warning"), COLOR_YELLOW);
    assert_eq!(color_for("info"), COLOR_BLUE);
    assert_eq!(color_for("page"), COLOR_GRAY);
    assert_eq!(color_for(""), COLOR_GRAY);
    assert_eq!(color_for("Critical"), COLOR_GRAY);
    assert_eq!(color_for("CRITICAL"), COLOR_GRAY);
}

#[test]
fn description_follows_severity() {
    assert_eq!(
        describe_severity("critical"),
        "You should take a look at these, like, right now."
    );
    assert_eq!(describe_severity("warning"), "These are probably issues.");
    assert_eq!(
        describe_severity("info"),
        "These are not bad, but maybe you should take a look?"
    );
    assert_eq!(describe_severity("page"), "Unknown severity. Take a look at these");
    assert_eq!(describe_severity("Warning"), "Unknown severity. Take a look at these");
}

#[test]
fn banner_follows_status() {
    assert_eq!(
        banner_for("firing"),
        "\u{1f6a8} Your infrastructure would like to inform you about some stuff! \u{1f6a8}"
    );
    assert_eq!(banner_for("resolved"), "\u{1f389} These issues have been resolved! \u{1f389}");
    assert_eq!(banner_for("pending"), "Unknown status pending, please advise!");
    assert_eq!(banner_for("Firing"), "Unknown status Firing, please advise!");
    assert_eq!(banner_for(""), "Unknown status , please advise!");
}

#[test]
fn field_takes_name_and_description() {
    let a = alert(
        "firing",
        &[("alertname", "HighCPU"), ("severity", "critical")],
        &[("description", "CPU too high"), ("message", "ignored")],
    );
    assert_eq!(field_for(&a), field("HighCPU", "CPU too high"));
}

#[test]
fn field_falls_back_to_message_then_to_nothing() {
    let with_message = alert("firing", &[("alertname", "Disk")], &[("message", "disk is full")]);
    assert_eq!(field_for(&with_message), field("Disk", "disk is full"));
    let bare = alert("firing", &[("alertname", "Disk")], &[("summary", "not read")]);
    assert_eq!(field_for(&bare), field("Disk", ""));
}

#[test]
fn field_of_nameless_alert() {
    let a = alert("firing", &[("severity", "info")], &[("description", "d")]);
    assert_eq!(field_for(&a), field("No-name alert", "d"));
}

#[test]
fn author_names_the_monitoring_server() {
    let labels = label_set(&[("prometheus", "monitoring/k8s"), ("job", "node")]);
    assert_eq!(
        author_for(&labels, "http://am.example:9093"),
        Author { name: "monitoring/k8s".to_string(), url: "http://am.example:9093".to_string() }
    );
}

#[test]
fn author_without_label_and_with_tripled_slash() {
    let labels = label_set(&[("job", "node")]);
    assert_eq!(
        author_for(&labels, "http:///am.example:9093"),
        Author { name: "".to_string(), url: "http://am.example:9093".to_string() }
    );
}

#[test]
fn embed_of_a_severity_group() {
    let first = alert(
        "firing",
        &[("alertname", "A"), ("severity", "warning")],
        &[("description", "first")],
    );
    let second =
        alert("firing", &[("alertname", "B"), ("severity", "warning")], &[("message", "second")]);
    let group = SeverityGroup { severity: "warning", alerts: vec![&first, &second] };
    let labels = label_set(&[("prometheus", "prom-0")]);
    let embed = embed_for(&group, &labels, "http://am.example///#/alerts");
    assert_eq!(embed.title, "WARNING");
    assert_eq!(embed.description, "These are probably issues.");
    assert_eq!(embed.color, COLOR_YELLOW);
    assert_eq!(embed.fields, vec![field("A", "first"), field("B", "second")]);
    assert_eq!(embed.author.name, "prom-0");
    assert_eq!(embed.author.url, "http://am.example//#/alerts");
}

#[test]
fn embed_title_is_ascii_upper_case_of_any_severity() {
    let a = alert("firing", &[("severity", "s\u{e9}v\u{e8}re-2")], &[]);
    let group = SeverityGroup { severity: "s\u{e9}v\u{e8}re-2", alerts: vec![&a] };
    let embed = embed_for(&group, &LabelSet::new(), "");
    assert_eq!(embed.title, "S\u{e9}V\u{e8}RE-2");
    assert_eq!(embed.color, COLOR_GRAY);
    assert_eq!(embed.description, "Unknown severity. Take a look at these");
    assert_eq!(embed.fields, vec![field("No-name alert", "")]);
}

#[test]
fn message_of_a_status_group_without_buckets_is_nothing() {
    let group = StatusGroup { status: "firing", by_severity: Vec::new() };
    assert_eq!(format_message(&group, &LabelSet::new(), "http://am.example"), None);
}

#[test]
fn message_has_one_embed_for_each_bucket_in_order() {
    let alerts = vec![
        alert("firing", &[("alertname", "A"), ("severity", "info")], &[]),
        alert("firing", &[("alertname", "B"), ("severity", "critical")], &[]),
        alert("firing", &[("alertname", "C"), ("severity", "info")], &[]),
    ];
    let groups = group_alerts(&alerts);
    assert_eq!(groups.len(), 1);
    let message = format_message(&groups[0], &LabelSet::new(), "http://am.example").unwrap();
    assert_eq!(
        message.content,
        "\u{1f6a8} Your infrastructure would like to inform you about some stuff! \u{1f6a8}"
    );
    let titles: Vec<&str> = message.embeds.iter().map(|e| e.title.as_str()).collect();
    assert_eq!(titles, vec!["INFO", "CRITICAL"]);
    assert_eq!(message.embeds[0].color, COLOR_BLUE);
    assert_eq!(message.embeds[0].fields, vec![field("A", ""), field("C", "")]);
    assert_eq!(message.embeds[1].color, COLOR_RED);
    assert_eq!(message.embeds[1].fields, vec![field("B", "")]);
}
