//! The notification that the alert router sends: a batch of alerts with the
//! labels and annotations that each of them carries.

use vstd::hash_map::StringHashMap;
use vstd::prelude::*;

verus! {

/// The label under which an alert states its severity.
pub const SEVERITY_LABEL: &'static str = "severity";

/// The severity of an alert that states none. Alerts of this severity are
/// not reported.
pub const NO_SEVERITY: &'static str = "none";

/// A mapping from names to values, as labels and annotations are.
pub struct LabelSet {
    entries: StringHashMap<String>,
}

impl View for LabelSet {
    type V = Map<Seq<char>, Seq<char>>;

    closed spec fn view(&self) -> Map<Seq<char>, Seq<char>> {
        self.entries@.map_values(|value: String| value@)
    }
}

/// The value that `labels` gives to `name`, or `fallback` where it gives none.
pub open spec fn value_or(
    labels: Map<Seq<char>, Seq<char>>,
    name: Seq<char>,
    fallback: Seq<char>,
) -> Seq<char> {
    if labels.contains_key(name) {
        labels[name]
    } else {
        fallback
    }
}

impl LabelSet {
    /// A mapping without names.
    pub fn new() -> (labels: LabelSet)
        ensures
            labels@ == Map::<Seq<char>, Seq<char>>::empty(),
    {
        let labels = LabelSet { entries: StringHashMap::new() };
        assert(labels@ =~= Map::<Seq<char>, Seq<char>>::empty());
        labels
    }

    /// Gives `name` the value `value`, in place of any value it had.
    pub fn insert(&mut self, name: String, value: String)
        ensures
            final(self)@ == old(self)@.insert(name@, value@),
    {
        self.entries.insert(name, value);
        assert(self@ =~= old(self)@.insert(name@, value@));
    }

    /// The value of `name`, if it has one.
    pub fn get(&self, name: &str) -> (value: Option<&String>)
        ensures
            value is Some == self@.contains_key(name@),
            value matches Some(v) ==> v@ == self@[name@],
    {
        self.entries.get(name)
    }

    /// The value of `name`, or `fallback` where it has none.
    pub fn get_or<'a>(&'a self, name: &str, fallback: &'a str) -> (value: &'a str)
        ensures
            value@ == value_or(self@, name@, fallback@),
    {
        match self.get(name) {
            Some(v) => v.as_str(),
            None => fallback,
        }
    }
}

/// One alert of a batch. The two timestamps are carried as they came.
pub struct AlertManagerAlert {
    pub status: String,
    pub labels: LabelSet,
    pub annotations: LabelSet,
    pub starts_at: String,
    pub ends_at: String,
    pub generator_url: String,
}

/// What an `AlertManagerAlert` stands for.
pub struct AlertView {
    pub status: Seq<char>,
    pub labels: Map<Seq<char>, Seq<char>>,
    pub annotations: Map<Seq<char>, Seq<char>>,
    pub starts_at: Seq<char>,
    pub ends_at: Seq<char>,
    pub generator_url: Seq<char>,
}

impl View for AlertManagerAlert {
    type V = AlertView;

    open spec fn view(&self) -> AlertView {
        AlertView {
            status: self.status@,
            labels: self.labels@,
            annotations: self.annotations@,
            starts_at: self.starts_at@,
            ends_at: self.ends_at@,
            generator_url: self.generator_url@,
        }
    }
}

/// What a list of alerts stands for.
pub open spec fn alert_views(alerts: Seq<AlertManagerAlert>) -> Seq<AlertView> {
    alerts.map_values(|alert: AlertManagerAlert| alert@)
}

/// The severity that an alert states in its labels, `none` where it states
/// nothing.
pub open spec fn severity_of(alert: AlertView) -> Seq<char> {
    value_or(alert.labels, SEVERITY_LABEL@, NO_SEVERITY@)
}

/// An alert is reported unless its severity is `none`.
pub open spec fn reportable(alert: AlertView) -> bool {
    severity_of(alert) != NO_SEVERITY@
}

impl AlertManagerAlert {
    /// The severity of the alert, `none` where its labels state nothing.
    pub fn severity(&self) -> (severity: &str)
        ensures
            severity@ == severity_of(self@),
    {
        self.labels.get_or(SEVERITY_LABEL, NO_SEVERITY)
    }
}

/// One notification: the alerts of a group with what they have in common.
pub struct AlertManager {
    pub version: String,
    pub group_key: String,
    pub status: String,
    pub receiver: String,
    pub common_labels: LabelSet,
    pub common_annotations: LabelSet,
    /// Backlink to the alert router that sent the notification.
    pub external_url: String,
    pub alerts: Vec<AlertManagerAlert>,
}

/// What an `AlertManager` notification stands for.
pub struct BatchView {
    pub version: Seq<char>,
    pub group_key: Seq<char>,
    pub status: Seq<char>,
    pub receiver: Seq<char>,
    pub common_labels: Map<Seq<char>, Seq<char>>,
    pub common_annotations: Map<Seq<char>, Seq<char>>,
    pub external_url: Seq<char>,
    pub alerts: Seq<AlertView>,
}

impl View for AlertManager {
    type V = BatchView;

    open spec fn view(&self) -> BatchView {
        BatchView {
            version: self.version@,
            group_key: self.group_key@,
            status: self.status@,
            receiver: self.receiver@,
            common_labels: self.common_labels@,
            common_annotations: self.common_annotations@,
            external_url: self.external_url@,
            alerts: alert_views(self.alerts@),
        }
    }
}

} // verus!
