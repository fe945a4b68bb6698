//! Builds the Discord message of one status group: a banner for the status
//! and one embed for each severity, with one field for each alert.

use crate::alert::{value_or, AlertManagerAlert, AlertView, LabelSet};
use crate::grouping::{SeverityBucket, SeverityGroup, StatusBucket, StatusGroup};
use crate::text::{ascii_upper, collapse_slashes, normalize_url, str_eq, to_ascii_uppercase};
use vstd::prelude::*;

verus! {

pub const COLOR_GRAY: i32 = 9807270;

pub const COLOR_RED: i32 = 15145498;

pub const COLOR_YELLOW: i32 = 15646767;

pub const COLOR_BLUE: i32 = 7782616;

pub const STATUS_FIRING: &'static str = "firing";

pub const STATUS_RESOLVED: &'static str = "resolved";

pub const SEVERITY_CRITICAL: &'static str = "critical";

pub const SEVERITY_WARNING: &'static str = "warning";

pub const SEVERITY_INFO: &'static str = "info";

pub const BANNER_FIRING: &'static str =
    "\u{1f6a8} Your infrastructure would like to inform you about some stuff! \u{1f6a8}";

pub const BANNER_RESOLVED: &'static str = "\u{1f389} These issues have been resolved! \u{1f389}";

/// What stands before the status in the banner of a status that is neither
/// `firing` nor `resolved`.
pub const BANNER_UNKNOWN_HEAD: &'static str = "Unknown status ";

/// What stands behind the status in that banner.
pub const BANNER_UNKNOWN_TAIL: &'static str = ", please advise!";

pub const DESCRIPTION_CRITICAL: &'static str = "You should take a look at these, like, right now.";

pub const DESCRIPTION_WARNING: &'static str = "These are probably issues.";

pub const DESCRIPTION_INFO: &'static str = "These are not bad, but maybe you should take a look?";

pub const DESCRIPTION_UNKNOWN: &'static str = "Unknown severity. Take a look at these";

/// The label that names an alert.
pub const LABEL_ALERT_NAME: &'static str = "alertname";

/// The name given to an alert without that label.
pub const NAMELESS_ALERT: &'static str = "No-name alert";

pub const ANNOTATION_DESCRIPTION: &'static str = "description";

pub const ANNOTATION_MESSAGE: &'static str = "message";

/// The common label that names the monitoring server.
pub const LABEL_PROMETHEUS: &'static str = "prometheus";

/// One alert in an embed.
#[derive(Debug, PartialEq, Eq)]
pub struct DiscordEmbedField {
    pub name: String,
    pub value: String,
}

/// To whom an embed is attributed.
#[derive(Debug, PartialEq, Eq)]
pub struct Author {
    pub name: String,
    pub url: String,
}

/// The alerts of one status and severity.
#[derive(Debug, PartialEq, Eq)]
pub struct DiscordEmbed {
    pub title: String,
    pub description: String,
    pub color: i32,
    pub fields: Vec<DiscordEmbedField>,
    pub author: Author,
}

/// The message sent to the webhook for one status.
#[derive(Debug, PartialEq, Eq)]
pub struct Discord {
    pub content: String,
    pub embeds: Vec<DiscordEmbed>,
}

/// What a `DiscordEmbedField` stands for.
pub struct FieldView {
    pub name: Seq<char>,
    pub value: Seq<char>,
}

/// What an `Author` stands for.
pub struct AuthorView {
    pub name: Seq<char>,
    pub url: Seq<char>,
}

/// What a `DiscordEmbed` stands for.
pub struct EmbedView {
    pub title: Seq<char>,
    pub description: Seq<char>,
    pub color: i32,
    pub fields: Seq<FieldView>,
    pub author: AuthorView,
}

/// What a `Discord` message stands for.
pub struct DiscordView {
    pub content: Seq<char>,
    pub embeds: Seq<EmbedView>,
}

impl View for DiscordEmbedField {
    type V = FieldView;

    open spec fn view(&self) -> FieldView {
        FieldView { name: self.name@, value: self.value@ }
    }
}

impl View for Author {
    type V = AuthorView;

    open spec fn view(&self) -> AuthorView {
        AuthorView { name: self.name@, url: self.url@ }
    }
}

impl View for DiscordEmbed {
    type V = EmbedView;

    open spec fn view(&self) -> EmbedView {
        EmbedView {
            title: self.title@,
            description: self.description@,
            color: self.color,
            fields: self.fields@.map_values(|field: DiscordEmbedField| field@),
            author: self.author@,
        }
    }
}

impl View for Discord {
    type V = DiscordView;

    open spec fn view(&self) -> DiscordView {
        DiscordView {
            content: self.content@,
            embeds: self.embeds@.map_values(|embed: DiscordEmbed| embed@),
        }
    }
}

/// The field of an alert: its name, and its description, or else its
/// message, or else nothing.
pub open spec fn field_of(alert: AlertView) -> FieldView {
    FieldView {
        name: value_or(alert.labels, LABEL_ALERT_NAME@, NAMELESS_ALERT@),
        value: value_or(
            alert.annotations,
            ANNOTATION_DESCRIPTION@,
            value_or(alert.annotations, ANNOTATION_MESSAGE@, Seq::empty()),
        ),
    }
}

/// What an embed says of its severity.
pub open spec fn description_of(severity: Seq<char>) -> Seq<char> {
    if severity == SEVERITY_CRITICAL@ {
        DESCRIPTION_CRITICAL@
    } else if severity == SEVERITY_WARNING@ {
        DESCRIPTION_WARNING@
    } else if severity == SEVERITY_INFO@ {
        DESCRIPTION_INFO@
    } else {
        DESCRIPTION_UNKNOWN@
    }
}

/// The colour of an embed: red, yellow or blue for the three known
/// severities, grey for any other.
pub open spec fn color_of(severity: Seq<char>) -> i32 {
    if severity == SEVERITY_CRITICAL@ {
        COLOR_RED
    } else if severity == SEVERITY_WARNING@ {
        COLOR_YELLOW
    } else if severity == SEVERITY_INFO@ {
        COLOR_BLUE
    } else {
        COLOR_GRAY
    }
}

/// The attribution of every embed of a batch: the monitoring server that the
/// common labels name, if they name one, and the normalised backlink.
pub open spec fn author_of(
    common_labels: Map<Seq<char>, Seq<char>>,
    external_url: Seq<char>,
) -> AuthorView {
    AuthorView {
        name: value_or(common_labels, LABEL_PROMETHEUS@, Seq::empty()),
        url: collapse_slashes(external_url),
    }
}

/// The embed of a bucket. Its title is the severity in ASCII upper case.
pub open spec fn embed_of(
    bucket: SeverityBucket,
    common_labels: Map<Seq<char>, Seq<char>>,
    external_url: Seq<char>,
) -> EmbedView {
    EmbedView {
        title: ascii_upper(bucket.severity),
        description: description_of(bucket.severity),
        color: color_of(bucket.severity),
        fields: bucket.alerts.map_values(|alert: AlertView| field_of(alert)),
        author: author_of(common_labels, external_url),
    }
}

/// The line above the embeds. A status that is neither `firing` nor
/// `resolved` is quoted in it as it came.
pub open spec fn banner_of(status: Seq<char>) -> Seq<char> {
    if status == STATUS_FIRING@ {
        BANNER_FIRING@
    } else if status == STATUS_RESOLVED@ {
        BANNER_RESOLVED@
    } else {
        BANNER_UNKNOWN_HEAD@ + status + BANNER_UNKNOWN_TAIL@
    }
}

/// The message of a status group: one embed for each of its buckets, in
/// their order.
pub open spec fn message_of(
    group: StatusBucket,
    common_labels: Map<Seq<char>, Seq<char>>,
    external_url: Seq<char>,
) -> DiscordView {
    DiscordView {
        content: banner_of(group.status),
        embeds: group.by_severity.map_values(
            |bucket: SeverityBucket| embed_of(bucket, common_labels, external_url),
        ),
    }
}

/// Builds the field of an alert.
pub fn field_for(alert: &AlertManagerAlert) -> (field: DiscordEmbedField)
    ensures
        field@ == field_of(alert@),
{
    proof {
        reveal_strlit("");
        assert(""@ =~= Seq::<char>::empty());
    }
    let name = alert.labels.get_or(LABEL_ALERT_NAME, NAMELESS_ALERT);
    let message = alert.annotations.get_or(ANNOTATION_MESSAGE, "");
    let value = alert.annotations.get_or(ANNOTATION_DESCRIPTION, message);
    DiscordEmbedField { name: String::from_str(name), value: String::from_str(value) }
}

/// The text that an embed of `severity` carries as its description.
pub fn describe_severity(severity: &str) -> (description: &'static str)
    ensures
        description@ == description_of(severity@),
{
    if str_eq(severity, SEVERITY_CRITICAL) {
        DESCRIPTION_CRITICAL
    } else if str_eq(severity, SEVERITY_WARNING) {
        DESCRIPTION_WARNING
    } else if str_eq(severity, SEVERITY_INFO) {
        DESCRIPTION_INFO
    } else {
        DESCRIPTION_UNKNOWN
    }
}

/// The colour of an embed of `severity`.
pub fn color_for(severity: &str) -> (color: i32)
    ensures
        color == color_of(severity@),
{
    if str_eq(severity, SEVERITY_CRITICAL) {
        COLOR_RED
    } else if str_eq(severity, SEVERITY_WARNING) {
        COLOR_YELLOW
    } else if str_eq(severity, SEVERITY_INFO) {
        COLOR_BLUE
    } else {
        COLOR_GRAY
    }
}

/// Builds the attribution that the embeds of a batch share.
pub fn author_for(common_labels: &LabelSet, external_url: &str) -> (author: Author)
    ensures
        author@ == author_of(common_labels@, external_url@),
{
    proof {
        reveal_strlit("");
        assert(""@ =~= Seq::<char>::empty());
    }
    Author {
        name: String::from_str(common_labels.get_or(LABEL_PROMETHEUS, "")),
        url: normalize_url(external_url),
    }
}

/// Builds the banner of a message for `status`.
pub fn banner_for(status: &str) -> (banner: String)
    ensures
        banner@ == banner_of(status@),
{
    if str_eq(status, STATUS_FIRING) {
        String::from_str(BANNER_FIRING)
    } else if str_eq(status, STATUS_RESOLVED) {
        String::from_str(BANNER_RESOLVED)
    } else {
        let mut banner = String::from_str(BANNER_UNKNOWN_HEAD);
        banner.append(status);
        banner.append(BANNER_UNKNOWN_TAIL);
        banner
    }
}

/// Builds the embed of one severity group.
pub fn embed_for(group: &SeverityGroup, common_labels: &LabelSet, external_url: &str) -> (embed:
    DiscordEmbed)
    ensures
        embed@ == embed_of(group@, common_labels@, external_url@),
{
    let mut fields: Vec<DiscordEmbedField> = Vec::new();
    let mut k: usize = 0;
    while k < group.alerts.len()
        invariant
            k <= group.alerts.len(),
            fields.len() == k,
            forall|m: int| 0 <= m < k ==> (#[trigger] fields[m])@ == field_of(group.alerts[m]@),
        decreases group.alerts.len() - k,
    {
        fields.push(field_for(group.alerts[k]));
        k += 1;
    }
    let embed = DiscordEmbed {
        title: to_ascii_uppercase(group.severity),
        description: String::from_str(describe_severity(group.severity)),
        color: color_for(group.severity),
        fields,
        author: author_for(common_labels, external_url),
    };
    proof {
        let wanted = embed_of(group@, common_labels@, external_url@);
        assert(embed@.fields =~= wanted.fields);
    }
    embed
}

/// Builds the message of one status group, or nothing where the group has
/// no severity group: then there is nothing to send.
pub fn format_message(group: &StatusGroup, common_labels: &LabelSet, external_url: &str) -> (message:
    Option<Discord>)
    ensures
        message is None <==> group.by_severity@.len() == 0,
        message matches Some(m) ==> m@ == message_of(group@, common_labels@, external_url@),
{
    if group.by_severity.len() == 0 {
        return None;
    }
    let mut embeds: Vec<DiscordEmbed> = Vec::new();
    let mut j: usize = 0;
    while j < group.by_severity.len()
        invariant
            j <= group.by_severity.len(),
            embeds.len() == j,
            forall|m: int|
                0 <= m < j ==> (#[trigger] embeds[m])@ == embed_of(
                    group.by_severity[m]@,
                    common_labels@,
                    external_url@,
                ),
        decreases group.by_severity.len() - j,
    {
        embeds.push(embed_for(&group.by_severity[j], common_labels, external_url));
        j += 1;
    }
    let message = Discord { content: banner_for(group.status), embeds };
    proof {
        let wanted = message_of(group@, common_labels@, external_url@);
        assert(message@.embeds =~= wanted.embeds);
    }
    Some(message)
}

} // verus!
