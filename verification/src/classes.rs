//! Alerts by key: the distinct keys of a list of alerts, in the order in
//! which they first occur, and for each key the alerts that have it.

use crate::alert::AlertView;
use vstd::prelude::*;

verus! {

/// The distinct members of `keys`, each at the place where it first occurs.
pub open spec fn first_seen(keys: Seq<Seq<char>>) -> Seq<Seq<char>>
    decreases keys.len(),
{
    if keys.len() == 0 {
        keys
    } else {
        let earlier = first_seen(keys.drop_last());
        if earlier.contains(keys.last()) {
            earlier
        } else {
            earlier.push(keys.last())
        }
    }
}

/// The test that an alert has the key `k`.
pub open spec fn has_key(
    key: spec_fn(AlertView) -> Seq<char>,
    k: Seq<char>,
) -> spec_fn(AlertView) -> bool {
    |alert: AlertView| key(alert) == k
}

/// The distinct keys of `alerts`, in the order in which they first occur.
pub open spec fn keys_of(
    alerts: Seq<AlertView>,
    key: spec_fn(AlertView) -> Seq<char>,
) -> Seq<Seq<char>> {
    first_seen(alerts.map_values(key))
}

/// The alerts whose key is `k`, in the order of `alerts`.
pub open spec fn class_of(
    alerts: Seq<AlertView>,
    key: spec_fn(AlertView) -> Seq<char>,
    k: Seq<char>,
) -> Seq<AlertView> {
    alerts.filter(has_key(key, k))
}

/// The distinct members of `keys` are the members of `keys`.
pub proof fn lemma_first_seen_contains(keys: Seq<Seq<char>>, k: Seq<char>)
    ensures
        first_seen(keys).contains(k) <==> keys.contains(k),
    decreases keys.len(),
{
    if keys.len() > 0 {
        let front = keys.drop_last();
        let earlier = first_seen(front);
        lemma_first_seen_contains(front, k);
        lemma_first_seen_contains(front, keys.last());
        if keys.contains(k) {
            let i = choose|i: int| 0 <= i < keys.len() && keys[i] == k;
            if i < keys.len() - 1 {
                assert(front[i] == k);
            }
        }
        if first_seen(keys).contains(k) {
            let i = choose|i: int| 0 <= i < first_seen(keys).len() && first_seen(keys)[i] == k;
            if earlier.contains(keys.last()) || i < earlier.len() {
                assert(earlier[i] == k);
                let m = choose|m: int| 0 <= m < front.len() && front[m] == k;
                assert(keys[m] == k);
            } else {
                assert(keys[keys.len() - 1] == k);
            }
        } else if keys.contains(k) {
            if k == keys.last() {
                if earlier.contains(k) {
                } else {
                    assert(earlier.push(k)[earlier.len() as int] == k);
                }
            } else {
                assert(front.contains(k));
                let i = choose|i: int| 0 <= i < earlier.len() && earlier[i] == k;
                assert(first_seen(keys)[i] == k);
            }
        }
    }
}

/// None of the distinct members of `keys` is listed twice.
pub proof fn lemma_first_seen_distinct(keys: Seq<Seq<char>>)
    ensures
        first_seen(keys).no_duplicates(),
    decreases keys.len(),
{
    if keys.len() > 0 {
        lemma_first_seen_distinct(keys.drop_last());
    }
}

/// One more alert adds its key to the keys, unless an earlier alert has it.
pub proof fn lemma_keys_push(
    alerts: Seq<AlertView>,
    key: spec_fn(AlertView) -> Seq<char>,
    alert: AlertView,
)
    ensures
        keys_of(alerts.push(alert), key) == if keys_of(alerts, key).contains(key(alert)) {
            keys_of(alerts, key)
        } else {
            keys_of(alerts, key).push(key(alert))
        },
{
    let mapped = alerts.push(alert).map_values(key);
    assert(mapped.drop_last() =~= alerts.map_values(key));
    assert(mapped.last() == key(alert));
}

/// One more alert enters the class of its key and no other.
pub proof fn lemma_class_push(
    alerts: Seq<AlertView>,
    key: spec_fn(AlertView) -> Seq<char>,
    k: Seq<char>,
    alert: AlertView,
)
    ensures
        class_of(alerts.push(alert), key, k) == if key(alert) == k {
            class_of(alerts, key, k).push(alert)
        } else {
            class_of(alerts, key, k)
        },
{
    alerts.lemma_filter_push(alert, has_key(key, k));
}

/// The key of every alert of `alerts` is among the keys of `alerts`.
pub proof fn lemma_key_present(
    alerts: Seq<AlertView>,
    key: spec_fn(AlertView) -> Seq<char>,
    alert: AlertView,
)
    requires
        alerts.contains(alert),
    ensures
        keys_of(alerts, key).contains(key(alert)),
        class_of(alerts, key, key(alert)).contains(alert),
{
    let n = choose|n: int| 0 <= n < alerts.len() && alerts[n] == alert;
    assert(alerts.map_values(key)[n] == key(alert));
    lemma_first_seen_contains(alerts.map_values(key), key(alert));
    assert(has_key(key, key(alert))(alerts[n]));
    alerts.lemma_filter_contains(has_key(key, key(alert)), n);
}

/// Every member of a class has the key of the class and is one of `alerts`.
pub proof fn lemma_class_member(
    alerts: Seq<AlertView>,
    key: spec_fn(AlertView) -> Seq<char>,
    k: Seq<char>,
    alert: AlertView,
)
    requires
        class_of(alerts, key, k).contains(alert),
    ensures
        key(alert) == k,
        alerts.contains(alert),
{
    let m = choose|m: int|
        0 <= m < class_of(alerts, key, k).len() && class_of(alerts, key, k)[m] == alert;
    alerts.lemma_filter_pred(has_key(key, k), m);
    alerts.lemma_filter_contains_rev(has_key(key, k), alert);
}

/// A key that is not among the keys of `alerts` has no alerts.
pub proof fn lemma_class_of_absent_key(
    alerts: Seq<AlertView>,
    key: spec_fn(AlertView) -> Seq<char>,
    k: Seq<char>,
)
    requires
        !keys_of(alerts, key).contains(k),
    ensures
        class_of(alerts, key, k) == Seq::<AlertView>::empty(),
    decreases alerts.len(),
{
    reveal(Seq::filter);
    if alerts.len() > 0 {
        let front = alerts.drop_last();
        assert(alerts =~= front.push(alerts.last()));
        lemma_keys_push(front, key, alerts.last());
        lemma_class_push(front, key, k, alerts.last());
        let earlier = keys_of(front, key);
        if earlier.contains(k) {
            let i = choose|i: int| 0 <= i < earlier.len() && earlier[i] == k;
            assert(keys_of(alerts, key)[i] == k);
        }
        if key(alerts.last()) == k {
            if earlier.contains(k) {
            } else {
                assert(earlier.push(k)[earlier.len() as int] == k);
            }
        }
        lemma_class_of_absent_key(front, key, k);
    } else {
        assert(class_of(alerts, key, k) =~= Seq::<AlertView>::empty());
    }
}

/// The number of alerts whose key is one of `keys`, where no key is listed
/// twice.
pub open spec fn class_sizes(
    alerts: Seq<AlertView>,
    key: spec_fn(AlertView) -> Seq<char>,
    keys: Seq<Seq<char>>,
) -> nat
    decreases keys.len(),
{
    if keys.len() == 0 {
        0
    } else {
        class_sizes(alerts, key, keys.drop_last()) + class_of(alerts, key, keys.last()).len()
    }
}

/// Without alerts every class is empty.
pub proof fn lemma_class_sizes_of_none(
    key: spec_fn(AlertView) -> Seq<char>,
    keys: Seq<Seq<char>>,
)
    ensures
        class_sizes(Seq::empty(), key, keys) == 0,
    decreases keys.len(),
{
    if keys.len() > 0 {
        lemma_class_sizes_of_none(key, keys.drop_last());
        Seq::<AlertView>::empty().lemma_filter_len(has_key(key, keys.last()));
    }
}

/// One more alert is counted once where its key is listed.
pub proof fn lemma_class_sizes_push(
    alerts: Seq<AlertView>,
    key: spec_fn(AlertView) -> Seq<char>,
    keys: Seq<Seq<char>>,
    alert: AlertView,
)
    requires
        keys.no_duplicates(),
    ensures
        class_sizes(alerts.push(alert), key, keys) == class_sizes(alerts, key, keys) + (if keys.contains(
            key(alert),
        ) {
            1nat
        } else {
            0nat
        }),
    decreases keys.len(),
{
    if keys.len() > 0 {
        let front = keys.drop_last();
        lemma_class_sizes_push(alerts, key, front, alert);
        lemma_class_push(alerts, key, keys.last(), alert);
        if front.contains(key(alert)) {
            let m = choose|m: int| 0 <= m < front.len() && front[m] == key(alert);
            assert(keys[m] == key(alert));
        } else if keys.contains(key(alert)) {
            let m = choose|m: int| 0 <= m < keys.len() && keys[m] == key(alert);
            if m < front.len() {
                assert(front[m] == key(alert));
            }
        }
        if keys.last() == key(alert) {
            assert(keys[keys.len() - 1] == key(alert));
        }
    }
}

/// Distinct keys that cover the keys of `alerts` split `alerts` into
/// classes: every alert is counted once.
pub proof fn lemma_classes_partition(
    alerts: Seq<AlertView>,
    key: spec_fn(AlertView) -> Seq<char>,
    keys: Seq<Seq<char>>,
)
    requires
        keys.no_duplicates(),
        forall|n: int| 0 <= n < alerts.len() ==> keys.contains(key(#[trigger] alerts[n])),
    ensures
        class_sizes(alerts, key, keys) == alerts.len(),
    decreases alerts.len(),
{
    if alerts.len() == 0 {
        assert(alerts =~= Seq::<AlertView>::empty());
        lemma_class_sizes_of_none(key, keys);
    } else {
        let front = alerts.drop_last();
        assert(alerts =~= front.push(alerts.last()));
        assert forall|n: int| 0 <= n < front.len() implies keys.contains(
            key(#[trigger] front[n]),
        ) by {
            assert(front[n] == alerts[n]);
        }
        lemma_classes_partition(front, key, keys);
        lemma_class_sizes_push(front, key, keys, alerts.last());
        assert(keys.contains(key(alerts[alerts.len() - 1])));
    }
}

/// The keys of `alerts` split `alerts` into classes.
pub proof fn lemma_keys_partition(
    alerts: Seq<AlertView>,
    key: spec_fn(AlertView) -> Seq<char>,
)
    ensures
        class_sizes(alerts, key, keys_of(alerts, key)) == alerts.len(),
{
    lemma_first_seen_distinct(alerts.map_values(key));
    assert forall|n: int| 0 <= n < alerts.len() implies keys_of(alerts, key).contains(
        key(#[trigger] alerts[n]),
    ) by {
        lemma_key_present(alerts, key, alerts[n]);
    }
    lemma_classes_partition(alerts, key, keys_of(alerts, key));
}

} // verus!
