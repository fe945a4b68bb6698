//! What holds of the groups of every batch.

use crate::alert::{reportable, severity_of, AlertView, NO_SEVERITY, SEVERITY_LABEL};
use crate::classes::{
    class_of, class_sizes, has_key, keys_of, lemma_class_member, lemma_first_seen_contains,
    lemma_first_seen_distinct, lemma_key_present, lemma_keys_partition,
};
use crate::grouping::{
    by_severity, by_status, group_by_severity, grouping, is_reportable, reportable_alerts,
    SeverityBucket, StatusBucket,
};
use vstd::prelude::*;

verus! {

/// The grouping of `alerts` has a bucket at place `j` of its group `i`.
pub open spec fn bucket_at(alerts: Seq<AlertView>, i: int, j: int) -> bool {
    0 <= i < grouping(alerts).len() && 0 <= j < grouping(alerts)[i].by_severity.len()
}

/// The bucket at place `j` of group `i` holds `alert`.
pub open spec fn bucket_holds(
    alerts: Seq<AlertView>,
    i: int,
    j: int,
    alert: AlertView,
) -> bool {
    bucket_at(alerts, i, j) && grouping(alerts)[i].by_severity[j].alerts.contains(alert)
}

/// What a bucket is: the reportable alerts of the batch that have the
/// status of its group and its own severity, in the order of the batch. The
/// statuses of the groups are distinct, and so are the severities within a
/// group.
pub proof fn lemma_bucket_contents(alerts: Seq<AlertView>, i: int, j: int)
    requires
        bucket_at(alerts, i, j),
    ensures
        ({
            let group = grouping(alerts)[i];
            let bucket = group.by_severity[j];
            let of_status = class_of(reportable_alerts(alerts), by_status(), group.status);
            &&& bucket.alerts == class_of(of_status, by_severity(), bucket.severity)
            &&& bucket.alerts.len() > 0
            &&& bucket.severity != NO_SEVERITY@
            &&& forall|i2: int|
                0 <= i2 < grouping(alerts).len() && i2 != i ==> grouping(alerts)[i2].status
                    != group.status
            &&& forall|j2: int|
                0 <= j2 < group.by_severity.len() && j2 != j ==> group.by_severity[j2].severity
                    != bucket.severity
        }),
{
    let kept = reportable_alerts(alerts);
    let statuses = keys_of(kept, by_status());
    let of_status = class_of(kept, by_status(), statuses[i]);
    let severities = keys_of(of_status, by_severity());
    let members = class_of(of_status, by_severity(), severities[j]);
    lemma_first_seen_distinct(kept.map_values(by_status()));
    lemma_first_seen_distinct(of_status.map_values(by_severity()));
    if members.len() == 0 {
        lemma_first_seen_contains(of_status.map_values(by_severity()), severities[j]);
        let n = choose|n: int|
            0 <= n < of_status.len() && of_status.map_values(by_severity())[n] == severities[j];
        lemma_key_present(of_status, by_severity(), of_status[n]);
    }
    let member = members[0];
    lemma_class_member(of_status, by_severity(), severities[j], member);
    lemma_class_member(kept, by_status(), statuses[i], member);
    let m = choose|m: int| 0 <= m < kept.len() && kept[m] == member;
    alerts.lemma_filter_pred(is_reportable(), m);
}

/// Every group has at least one bucket.
pub proof fn lemma_group_has_bucket(alerts: Seq<AlertView>, i: int)
    requires
        0 <= i < grouping(alerts).len(),
    ensures
        grouping(alerts)[i].by_severity.len() > 0,
{
    let kept = reportable_alerts(alerts);
    let statuses = keys_of(kept, by_status());
    lemma_first_seen_contains(kept.map_values(by_status()), statuses[i]);
    let n = choose|n: int| 0 <= n < kept.len() && kept.map_values(by_status())[n] == statuses[i];
    lemma_key_present(kept, by_status(), kept[n]);
    lemma_key_present(class_of(kept, by_status(), statuses[i]), by_severity(), kept[n]);
}

/// No alert without a severity label, and none whose severity label says
/// `none`, is in any bucket.
pub proof fn lemma_unreportable_in_no_bucket(
    alerts: Seq<AlertView>,
    alert: AlertView,
    i: int,
    j: int,
)
    requires
        !alert.labels.contains_key(SEVERITY_LABEL@) || alert.labels[SEVERITY_LABEL@]
            == NO_SEVERITY@,
    ensures
        !bucket_holds(alerts, i, j, alert),
{
    if bucket_holds(alerts, i, j, alert) {
        lemma_bucket_contents(alerts, i, j);
        let group = grouping(alerts)[i];
        let of_status = class_of(reportable_alerts(alerts), by_status(), group.status);
        lemma_class_member(of_status, by_severity(), group.by_severity[j].severity, alert);
    }
}

/// Every alert whose severity is not `none` is in exactly one bucket, the
/// one of its own status and severity, whose place is returned.
pub proof fn lemma_reportable_in_one_bucket(alerts: Seq<AlertView>, n: int) -> (place: (
    int,
    int,
))
    requires
        0 <= n < alerts.len(),
        reportable(alerts[n]),
    ensures
        bucket_holds(alerts, place.0, place.1, alerts[n]),
        grouping(alerts)[place.0].status == alerts[n].status,
        grouping(alerts)[place.0].by_severity[place.1].severity == severity_of(alerts[n]),
        forall|i: int, j: int|
            bucket_holds(alerts, i, j, alerts[n]) ==> i == place.0 && j == place.1,
{
    let alert = alerts[n];
    let kept = reportable_alerts(alerts);
    assert(is_reportable()(alerts[n]));
    alerts.lemma_filter_contains(is_reportable(), n);
    lemma_key_present(kept, by_status(), alert);
    let statuses = keys_of(kept, by_status());
    let i = choose|i: int| 0 <= i < statuses.len() && statuses[i] == alert.status;
    let of_status = class_of(kept, by_status(), alert.status);
    lemma_key_present(of_status, by_severity(), alert);
    let severities = keys_of(of_status, by_severity());
    let j = choose|j: int| 0 <= j < severities.len() && severities[j] == severity_of(alert);
    assert(bucket_holds(alerts, i, j, alert));
    assert forall|i2: int, j2: int| bucket_holds(alerts, i2, j2, alert) implies i2 == i && j2
        == j by {
        lemma_bucket_contents(alerts, i2, j2);
        lemma_bucket_contents(alerts, i, j);
        let group = grouping(alerts)[i2];
        let others = class_of(kept, by_status(), group.status);
        lemma_class_member(others, by_severity(), group.by_severity[j2].severity, alert);
        lemma_class_member(kept, by_status(), group.status, alert);
    }
    (i, j)
}

/// The number of alerts in a list of buckets.
pub open spec fn alerts_in(buckets: Seq<SeverityBucket>) -> nat
    decreases buckets.len(),
{
    if buckets.len() == 0 {
        0
    } else {
        alerts_in(buckets.drop_last()) + buckets.last().alerts.len()
    }
}

/// The number of alerts in a list of groups.
pub open spec fn alerts_grouped(groups: Seq<StatusBucket>) -> nat
    decreases groups.len(),
{
    if groups.len() == 0 {
        0
    } else {
        alerts_grouped(groups.drop_last()) + alerts_in(groups.last().by_severity)
    }
}

/// The buckets of the severities `keys` hold the alerts that have one of
/// these severities.
proof fn lemma_alerts_in_buckets(alerts: Seq<AlertView>, keys: Seq<Seq<char>>)
    ensures
        alerts_in(
            keys.map_values(
                |severity: Seq<char>|
                    SeverityBucket { severity, alerts: class_of(alerts, by_severity(), severity) },
            ),
        ) == class_sizes(alerts, by_severity(), keys),
    decreases keys.len(),
{
    let bucket = |severity: Seq<char>|
        SeverityBucket { severity, alerts: class_of(alerts, by_severity(), severity) };
    if keys.len() > 0 {
        lemma_alerts_in_buckets(alerts, keys.drop_last());
        assert(keys.map_values(bucket).drop_last() =~= keys.drop_last().map_values(bucket));
    }
}

/// The groups of the statuses `keys` hold the alerts that have one of these
/// statuses.
proof fn lemma_alerts_in_groups(alerts: Seq<AlertView>, keys: Seq<Seq<char>>)
    ensures
        alerts_grouped(
            keys.map_values(
                |status: Seq<char>|
                    StatusBucket {
                        status,
                        by_severity: group_by_severity(class_of(alerts, by_status(), status)),
                    },
            ),
        ) == class_sizes(alerts, by_status(), keys),
    decreases keys.len(),
{
    let group = |status: Seq<char>|
        StatusBucket {
            status,
            by_severity: group_by_severity(class_of(alerts, by_status(), status)),
        };
    if keys.len() > 0 {
        lemma_alerts_in_groups(alerts, keys.drop_last());
        assert(keys.map_values(group).drop_last() =~= keys.drop_last().map_values(group));
        let of_status = class_of(alerts, by_status(), keys.last());
        lemma_alerts_in_buckets(of_status, keys_of(of_status, by_severity()));
        lemma_keys_partition(of_status, by_severity());
    }
}

/// The buckets hold as many alerts as the batch has reportable ones: with
/// each of these in its own bucket, none is left out and none is held twice.
pub proof fn lemma_buckets_hold_each_alert_once(alerts: Seq<AlertView>)
    ensures
        alerts_grouped(grouping(alerts)) == reportable_alerts(alerts).len(),
{
    let kept = reportable_alerts(alerts);
    lemma_alerts_in_groups(kept, keys_of(kept, by_status()));
    lemma_keys_partition(kept, by_status());
}

/// A batch without reportable alerts has no groups.
pub proof fn lemma_nothing_reportable_no_groups(alerts: Seq<AlertView>)
    requires
        forall|n: int| 0 <= n < alerts.len() ==> !reportable(#[trigger] alerts[n]),
    ensures
        grouping(alerts).len() == 0,
{
    let kept = reportable_alerts(alerts);
    if kept.len() > 0 {
        alerts.lemma_filter_pred(is_reportable(), 0);
        alerts.lemma_filter_contains_rev(is_reportable(), kept[0]);
    }
    assert(kept.map_values(by_status()) =~= Seq::<Seq<char>>::empty());
}

} // verus!
