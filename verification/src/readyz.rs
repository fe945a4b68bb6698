//! The readiness report: whether the components that this service needs
//! can be reached.

use crate::http::{
    HttpReply, ReplyView, WebhookOutcome, STATUS_NO_CONTENT, STATUS_OK,
    STATUS_SERVICE_UNAVAILABLE,
};
use vstd::prelude::*;

verus! {

/// The name of the one component that is probed, the webhook.
pub const COMPONENT_DISCORD: &'static str = "Discord";

/// Marks a component that is up.
pub const MARK_UP: &'static str = "[+]";

/// Marks a component that is down.
pub const MARK_DOWN: &'static str = "[-]";

/// A component and whether it is up.
pub struct ComponentStatus {
    pub name: String,
    pub up: bool,
}

/// What a `ComponentStatus` stands for.
pub struct ComponentView {
    pub name: Seq<char>,
    pub up: bool,
}

impl View for ComponentStatus {
    type V = ComponentView;

    open spec fn view(&self) -> ComponentView {
        ComponentView { name: self.name@, up: self.up }
    }
}

/// What a list of components stands for.
pub open spec fn components_view(components: Seq<ComponentStatus>) -> Seq<ComponentView> {
    components.map_values(|component: ComponentStatus| component@)
}

/// The webhook is up if it answered a probe with status code 200, and down
/// if it answered with another code or not at all.
pub open spec fn probe_up(outcome: WebhookOutcome) -> bool {
    outcome matches WebhookOutcome::Responded(code) && code == STATUS_OK
}

/// The line of a component in the report: its mark, a space, its name and
/// a line feed.
pub open spec fn line_of(component: ComponentView) -> Seq<char> {
    (if component.up {
        MARK_UP@
    } else {
        MARK_DOWN@
    }) + seq![' '] + component.name + seq!['\n']
}

/// The report: the lines of the components, in their order.
pub open spec fn report_of(components: Seq<ComponentView>) -> Seq<char>
    decreases components.len(),
{
    if components.len() == 0 {
        Seq::empty()
    } else {
        report_of(components.drop_last()) + line_of(components.last())
    }
}

/// Every component is up.
pub open spec fn all_up(components: Seq<ComponentView>) -> bool {
    forall|i: int| 0 <= i < components.len() ==> (#[trigger] components[i]).up
}

/// The answer to a readiness request. With every component up it is 200
/// with the report where the report was asked for, else 204 without a
/// body; with a component down it is 503, with the report or without a body.
pub open spec fn readiness_of(components: Seq<ComponentView>, verbose: bool) -> ReplyView {
    ReplyView {
        status: if !all_up(components) {
            STATUS_SERVICE_UNAVAILABLE
        } else if verbose {
            STATUS_OK
        } else {
            STATUS_NO_CONTENT
        },
        body: if verbose {
            report_of(components)
        } else {
            Seq::empty()
        },
    }
}

/// The components that a probe of the webhook tells of: the webhook alone.
pub open spec fn probed_components(outcome: WebhookOutcome) -> Seq<ComponentView> {
    seq![ComponentView { name: COMPONENT_DISCORD@, up: probe_up(outcome) }]
}

/// Tells from the outcome of a probe whether the webhook is up.
pub fn is_up(outcome: WebhookOutcome) -> (up: bool)
    ensures
        up == probe_up(outcome),
{
    match outcome {
        WebhookOutcome::Responded(code) => code == STATUS_OK,
        WebhookOutcome::Unreachable => false,
    }
}

/// Builds the answer to a readiness request from what is known of the
/// components.
pub fn readiness_reply(components: &Vec<ComponentStatus>, verbose: bool) -> (reply: HttpReply)
    ensures
        reply@ == readiness_of(components_view(components@), verbose),
{
    let ghost views = components_view(components@);
    let mut ready = true;
    let mut report = String::new();
    let mut i: usize = 0;
    assert(views.take(0) =~= Seq::<ComponentView>::empty());
    while i < components.len()
        invariant
            i <= components.len(),
            views == components_view(components@),
            ready == all_up(views.take(i as int)),
            report@ == (if verbose {
                report_of(views.take(i as int))
            } else {
                Seq::empty()
            }),
        decreases components.len() - i,
    {
        let component = &components[i];
        proof {
            let seen = views.take(i + 1);
            assert(seen.drop_last() =~= views.take(i as int));
            assert(seen.last() == component@);
            if all_up(seen) {
                assert forall|m: int| 0 <= m < i implies (#[trigger] views.take(i as int)[m]).up by {
                    assert(seen[m].up);
                }
                assert(seen[i as int].up);
            }
        }
        if verbose {
            let ghost before = report@;
            report.append(if component.up { MARK_UP } else { MARK_DOWN });
            report.push(' ');
            report.append(component.name.as_str());
            report.push('\n');
            assert(report@ =~= before + line_of(component@));
        }
        ready = ready && component.up;
        i += 1;
    }
    assert(views.take(i as int) =~= views);
    let status = if !ready {
        STATUS_SERVICE_UNAVAILABLE
    } else if verbose {
        STATUS_OK
    } else {
        STATUS_NO_CONTENT
    };
    HttpReply { status, body: report }
}

/// Answers a readiness request, given how the probe of the webhook ended.
pub fn readyz(probe: WebhookOutcome, verbose: bool) -> (reply: HttpReply)
    ensures
        reply@ == readiness_of(probed_components(probe), verbose),
{
    let mut components: Vec<ComponentStatus> = Vec::new();
    components.push(ComponentStatus { name: String::from_str(COMPONENT_DISCORD), up: is_up(probe) });
    assert(components_view(components@) =~= probed_components(probe));
    readiness_reply(&components, verbose)
}

} // verus!
