//! Groups the alerts of a batch by status and, within a status, by
//! severity. Alerts of severity `none` belong to no group.

use crate::alert::{
    alert_views, reportable, severity_of, AlertManagerAlert, AlertView, NO_SEVERITY,
};
use crate::classes::{
    class_of, keys_of, lemma_class_of_absent_key, lemma_class_push, lemma_first_seen_distinct,
    lemma_keys_push,
};
use crate::text::str_eq;
use vstd::prelude::*;

verus! {

/// The alerts of one status that share a severity, in the order in which
/// the batch holds them.
pub struct SeverityGroup<'a> {
    pub severity: &'a str,
    pub alerts: Vec<&'a AlertManagerAlert>,
}

/// The alerts of one status, by severity.
pub struct StatusGroup<'a> {
    pub status: &'a str,
    pub by_severity: Vec<SeverityGroup<'a>>,
}

/// What a `SeverityGroup` stands for.
pub struct SeverityBucket {
    pub severity: Seq<char>,
    pub alerts: Seq<AlertView>,
}

/// What a `StatusGroup` stands for.
pub struct StatusBucket {
    pub status: Seq<char>,
    pub by_severity: Seq<SeverityBucket>,
}

/// The alerts that a list of references points to.
pub open spec fn alerts_view(refs: Seq<&AlertManagerAlert>) -> Seq<AlertView> {
    refs.map_values(|r: &AlertManagerAlert| r@)
}

impl<'a> View for SeverityGroup<'a> {
    type V = SeverityBucket;

    open spec fn view(&self) -> SeverityBucket {
        SeverityBucket { severity: self.severity@, alerts: alerts_view(self.alerts@) }
    }
}

/// The buckets that a list of severity groups stands for.
pub open spec fn severity_groups_view(groups: Seq<SeverityGroup>) -> Seq<SeverityBucket> {
    groups.map_values(|g: SeverityGroup| g@)
}

impl<'a> View for StatusGroup<'a> {
    type V = StatusBucket;

    open spec fn view(&self) -> StatusBucket {
        StatusBucket {
            status: self.status@,
            by_severity: severity_groups_view(self.by_severity@),
        }
    }
}

/// The buckets that a list of status groups stands for.
pub open spec fn groups_view(groups: Seq<StatusGroup>) -> Seq<StatusBucket> {
    groups.map_values(|g: StatusGroup| g@)
}

/// The key by which alerts are grouped first.
pub open spec fn by_status() -> spec_fn(AlertView) -> Seq<char> {
    |alert: AlertView| alert.status
}

/// The key by which the alerts of one status are grouped.
pub open spec fn by_severity() -> spec_fn(AlertView) -> Seq<char> {
    |alert: AlertView| severity_of(alert)
}

/// The test that an alert is reported.
pub open spec fn is_reportable() -> spec_fn(AlertView) -> bool {
    |alert: AlertView| reportable(alert)
}

/// The alerts that are reported, in the order of `alerts`.
pub open spec fn reportable_alerts(alerts: Seq<AlertView>) -> Seq<AlertView> {
    alerts.filter(is_reportable())
}

/// One bucket for each severity that occurs in `alerts`, in the order in
/// which the severities first occur.
pub open spec fn group_by_severity(alerts: Seq<AlertView>) -> Seq<SeverityBucket> {
    keys_of(alerts, by_severity()).map_values(
        |severity: Seq<char>|
            SeverityBucket { severity, alerts: class_of(alerts, by_severity(), severity) },
    )
}

/// One bucket for each status that occurs in `alerts`, in the order in
/// which the statuses first occur, each grouped by severity.
pub open spec fn group_by_status(alerts: Seq<AlertView>) -> Seq<StatusBucket> {
    keys_of(alerts, by_status()).map_values(
        |status: Seq<char>|
            StatusBucket {
                status,
                by_severity: group_by_severity(class_of(alerts, by_status(), status)),
            },
    )
}

/// The groups of a batch: its reportable alerts by status, then by severity.
pub open spec fn grouping(alerts: Seq<AlertView>) -> Seq<StatusBucket> {
    group_by_status(reportable_alerts(alerts))
}

/// The severity groups `groups` hold the alerts `alerts`.
spec fn holds_by_severity(groups: Seq<SeverityGroup>, alerts: Seq<AlertView>) -> bool {
    &&& groups.len() == keys_of(alerts, by_severity()).len()
    &&& forall|j: int|
        0 <= j < groups.len() ==> (#[trigger] groups[j]).severity@ == keys_of(
            alerts,
            by_severity(),
        )[j]
    &&& forall|j: int|
        0 <= j < groups.len() ==> alerts_view((#[trigger] groups[j]).alerts@) == class_of(
            alerts,
            by_severity(),
            groups[j].severity@,
        )
}

/// The status groups `groups` hold the alerts `alerts`.
spec fn holds_by_status(groups: Seq<StatusGroup>, alerts: Seq<AlertView>) -> bool {
    &&& groups.len() == keys_of(alerts, by_status()).len()
    &&& forall|i: int|
        0 <= i < groups.len() ==> (#[trigger] groups[i]).status@ == keys_of(alerts, by_status())[i]
    &&& forall|i: int|
        0 <= i < groups.len() ==> holds_by_severity(
            (#[trigger] groups[i]).by_severity@,
            class_of(alerts, by_status(), groups[i].status@),
        )
}

/// Severity groups still hold their alerts after one more alert has
/// entered the group of its severity.
proof fn lemma_severity_group_extended(
    before: Seq<SeverityGroup>,
    after: Seq<SeverityGroup>,
    alerts: Seq<AlertView>,
    alert: AlertView,
    j: int,
)
    requires
        holds_by_severity(before, alerts),
        0 <= j < before.len(),
        before[j].severity@ == severity_of(alert),
        after.len() == before.len(),
        forall|m: int| 0 <= m < before.len() && m != j ==> after[m] == before[m],
        after[j].severity@ == before[j].severity@,
        alerts_view(after[j].alerts@) == alerts_view(before[j].alerts@).push(alert),
    ensures
        holds_by_severity(after, alerts.push(alert)),
{
    let keys = keys_of(alerts, by_severity());
    lemma_keys_push(alerts, by_severity(), alert);
    lemma_first_seen_distinct(alerts.map_values(by_severity()));
    assert(keys[j] == severity_of(alert));
    assert forall|m: int| 0 <= m < after.len() implies alerts_view((#[trigger] after[m]).alerts@)
        == class_of(alerts.push(alert), by_severity(), after[m].severity@) by {
        lemma_class_push(alerts, by_severity(), after[m].severity@, alert);
        if m != j {
            assert(before[m].severity@ == keys[m]);
            assert(keys[m] != keys[j]);
        }
    }
}

/// Severity groups still hold their alerts after a group was added for one
/// more alert, whose severity had no group.
proof fn lemma_severity_group_added(
    before: Seq<SeverityGroup>,
    after: Seq<SeverityGroup>,
    alerts: Seq<AlertView>,
    alert: AlertView,
)
    requires
        holds_by_severity(before, alerts),
        forall|m: int| 0 <= m < before.len() ==> (#[trigger] before[m]).severity@ != severity_of(alert),
        after.len() == before.len() + 1,
        forall|m: int| 0 <= m < before.len() ==> after[m] == before[m],
        after[before.len() as int].severity@ == severity_of(alert),
        alerts_view(after[before.len() as int].alerts@) == seq![alert],
    ensures
        holds_by_severity(after, alerts.push(alert)),
{
    let keys = keys_of(alerts, by_severity());
    let severity = severity_of(alert);
    lemma_keys_push(alerts, by_severity(), alert);
    if keys.contains(severity) {
        let m = choose|m: int| 0 <= m < keys.len() && keys[m] == severity;
        assert(before[m].severity@ == severity);
    }
    lemma_class_of_absent_key(alerts, by_severity(), severity);
    assert forall|m: int| 0 <= m < after.len() implies alerts_view((#[trigger] after[m]).alerts@)
        == class_of(alerts.push(alert), by_severity(), after[m].severity@) by {
        lemma_class_push(alerts, by_severity(), after[m].severity@, alert);
        if m < before.len() {
            assert(before[m].severity@ != severity);
        } else {
            assert(Seq::<AlertView>::empty().push(alert) =~= seq![alert]);
        }
    }
}

/// Status groups still hold their alerts after one more alert has entered
/// the group of its status.
proof fn lemma_status_group_updated(
    before: Seq<StatusGroup>,
    after: Seq<StatusGroup>,
    alerts: Seq<AlertView>,
    alert: AlertView,
    i: int,
)
    requires
        holds_by_status(before, alerts),
        0 <= i < before.len(),
        before[i].status@ == alert.status,
        after.len() == before.len(),
        forall|m: int| 0 <= m < before.len() && m != i ==> after[m] == before[m],
        after[i].status@ == before[i].status@,
        holds_by_severity(
            after[i].by_severity@,
            class_of(alerts, by_status(), alert.status).push(alert),
        ),
    ensures
        holds_by_status(after, alerts.push(alert)),
{
    let keys = keys_of(alerts, by_status());
    lemma_keys_push(alerts, by_status(), alert);
    lemma_first_seen_distinct(alerts.map_values(by_status()));
    assert(keys[i] == alert.status);
    assert forall|m: int| 0 <= m < after.len() implies holds_by_severity(
        (#[trigger] after[m]).by_severity@,
        class_of(alerts.push(alert), by_status(), after[m].status@),
    ) by {
        lemma_class_push(alerts, by_status(), after[m].status@, alert);
        if m != i {
            assert(before[m].status@ == keys[m]);
            assert(keys[m] != keys[i]);
        }
    }
}

/// Status groups still hold their alerts after a group was added for one
/// more alert, whose status had no group.
proof fn lemma_status_group_added(
    before: Seq<StatusGroup>,
    after: Seq<StatusGroup>,
    alerts: Seq<AlertView>,
    alert: AlertView,
)
    requires
        holds_by_status(before, alerts),
        forall|m: int| 0 <= m < before.len() ==> (#[trigger] before[m]).status@ != alert.status,
        after.len() == before.len() + 1,
        forall|m: int| 0 <= m < before.len() ==> after[m] == before[m],
        after[before.len() as int].status@ == alert.status,
        after[before.len() as int].by_severity@.len() == 1,
        after[before.len() as int].by_severity@[0].severity@ == severity_of(alert),
        alerts_view(after[before.len() as int].by_severity@[0].alerts@) == seq![alert],
    ensures
        holds_by_status(after, alerts.push(alert)),
{
    let keys = keys_of(alerts, by_status());
    let status = alert.status;
    let fresh = after[before.len() as int].by_severity@;
    lemma_keys_push(alerts, by_status(), alert);
    if keys.contains(status) {
        let m = choose|m: int| 0 <= m < keys.len() && keys[m] == status;
        assert(before[m].status@ == status);
    }
    lemma_class_of_absent_key(alerts, by_status(), status);
    assert forall|m: int| 0 <= m < after.len() implies holds_by_severity(
        (#[trigger] after[m]).by_severity@,
        class_of(alerts.push(alert), by_status(), after[m].status@),
    ) by {
        lemma_class_push(alerts, by_status(), after[m].status@, alert);
        if m < before.len() {
            assert(before[m].status@ != status);
        } else {
            let none = Seq::<AlertView>::empty();
            let empty: Seq<SeverityGroup> = Seq::empty();
            assert(none.map_values(by_severity()) =~= Seq::<Seq<char>>::empty());
            assert(holds_by_severity(empty, none)) by {
                assert(keys_of(none, by_severity()).len() == 0);
            }
            assert(none.push(alert) =~= seq![alert]);
            lemma_severity_group_added(empty, fresh, none, alert);
        }
    }
}

/// Groups that hold the alerts `alerts` stand for the buckets of `alerts`.
proof fn lemma_holds_is_grouping(groups: Seq<StatusGroup>, alerts: Seq<AlertView>)
    requires
        holds_by_status(groups, alerts),
    ensures
        groups_view(groups) == group_by_status(alerts),
{
    let buckets = group_by_status(alerts);
    assert forall|i: int| 0 <= i < groups.len() implies groups_view(groups)[i] == buckets[i] by {
        let status = groups[i].status@;
        let of_status = class_of(alerts, by_status(), status);
        let inner = groups[i].by_severity@;
        assert(holds_by_severity(inner, of_status));
        assert forall|j: int| 0 <= j < inner.len() implies severity_groups_view(inner)[j]
            == group_by_severity(of_status)[j] by {
            assert(inner[j].severity@ == keys_of(of_status, by_severity())[j]);
        }
        assert(severity_groups_view(inner) =~= group_by_severity(of_status));
    }
    assert(groups_view(groups) =~= buckets);
}

/// The place of the group of `status` among `groups`, if there is one.
fn find_status(groups: &Vec<StatusGroup>, status: &str) -> (found: Option<usize>)
    ensures
        match found {
            Some(i) => i < groups.len() && groups[i as int].status@ == status@,
            None => forall|m: int|
                0 <= m < groups.len() ==> (#[trigger] groups[m]).status@ != status@,
        },
{
    let mut i: usize = 0;
    while i < groups.len()
        invariant
            i <= groups.len(),
            forall|m: int| 0 <= m < i ==> (#[trigger] groups[m]).status@ != status@,
        decreases groups.len() - i,
    {
        if str_eq(groups[i].status, status) {
            return Some(i);
        }
        i += 1;
    }
    None
}

/// The place of the group of `severity` among `groups`, if there is one.
fn find_severity(groups: &Vec<SeverityGroup>, severity: &str) -> (found: Option<usize>)
    ensures
        match found {
            Some(j) => j < groups.len() && groups[j as int].severity@ == severity@,
            None => forall|m: int|
                0 <= m < groups.len() ==> (#[trigger] groups[m]).severity@ != severity@,
        },
{
    let mut j: usize = 0;
    while j < groups.len()
        invariant
            j <= groups.len(),
            forall|m: int| 0 <= m < j ==> (#[trigger] groups[m]).severity@ != severity@,
        decreases groups.len() - j,
    {
        if str_eq(groups[j].severity, severity) {
            return Some(j);
        }
        j += 1;
    }
    None
}

/// Groups the alerts of a batch by status and severity. An alert of
/// severity `none` enters no group; every other alert enters the group of
/// its own status and severity, behind the alerts that came before it.
/// Groups stand in the order in which their first alert came.
pub fn group_alerts<'a>(alerts: &'a Vec<AlertManagerAlert>) -> (groups: Vec<StatusGroup<'a>>)
    ensures
        groups_view(groups@) == grouping(alert_views(alerts@)),
{
    let mut groups: Vec<StatusGroup<'a>> = Vec::new();
    proof {
        let none = Seq::<AlertView>::empty();
        assert(alert_views(alerts@).take(0) =~= none);
        assert(reportable_alerts(none) =~= none) by {
            reveal(Seq::filter);
        }
        assert(none.map_values(by_status()) =~= Seq::<Seq<char>>::empty());
    }
    let mut n: usize = 0;
    while n < alerts.len()
        invariant
            n <= alerts.len(),
            holds_by_status(groups@, reportable_alerts(alert_views(alerts@).take(n as int))),
        decreases alerts.len() - n,
    {
        let alert = &alerts[n];
        let severity = alert.severity();
        let ghost seen = reportable_alerts(alert_views(alerts@).take(n as int));
        let ghost before = groups@;
        proof {
            let views = alert_views(alerts@);
            assert(views.take(n + 1) =~= views.take(n as int).push(alert@));
            views.take(n as int).lemma_filter_push(alert@, is_reportable());
        }
        if !str_eq(severity, NO_SEVERITY) {
            let status = alert.status.as_str();
            let ghost of_status = class_of(seen, by_status(), status@);
            match find_status(&groups, status) {
                Some(i) => {
                    match find_severity(&groups[i].by_severity, severity) {
                        Some(j) => {
                            groups[i].by_severity[j].alerts.push(alert);
                            proof {
                                let inner = before[i as int].by_severity@;
                                assert(alerts_view(groups@[i as int].by_severity@[j as int].alerts@)
                                    =~= alerts_view(inner[j as int].alerts@).push(alert@));
                                lemma_severity_group_extended(
                                    inner,
                                    groups@[i as int].by_severity@,
                                    of_status,
                                    alert@,
                                    j as int,
                                );
                            }
                        },
                        None => {
                            let mut members: Vec<&'a AlertManagerAlert> = Vec::new();
                            members.push(alert);
                            groups[i].by_severity.push(SeverityGroup { severity, alerts: members });
                            proof {
                                assert(alerts_view(members@) =~= seq![alert@]);
                                lemma_severity_group_added(
                                    before[i as int].by_severity@,
                                    groups@[i as int].by_severity@,
                                    of_status,
                                    alert@,
                                );
                            }
                        },
                    }
                    proof {
                        lemma_status_group_updated(before, groups@, seen, alert@, i as int);
                    }
                },
                None => {
                    let mut members: Vec<&'a AlertManagerAlert> = Vec::new();
                    members.push(alert);
                    let mut by_severity: Vec<SeverityGroup<'a>> = Vec::new();
                    by_severity.push(SeverityGroup { severity, alerts: members });
                    groups.push(StatusGroup { status, by_severity });
                    proof {
                        assert(alerts_view(members@) =~= seq![alert@]);
                        lemma_status_group_added(before, groups@, seen, alert@);
                    }
                },
            }
        }
        n += 1;
    }
    proof {
        assert(alert_views(alerts@).take(n as int) =~= alert_views(alerts@));
        lemma_holds_is_grouping(groups@, reportable_alerts(alert_views(alerts@)));
    }
    groups
}

} // verus!
