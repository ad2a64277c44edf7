//! The relay: nobody is missed, nothing is kept beyond its time, and what the
//! relay forgets this node forgets too.

use vstd::prelude::*;

use crate::assoc;
use crate::group_mesh::buffer::queue_of;
use crate::group_mesh::dated::{earliest, lemma_earliest, times_in};
use crate::group_mesh::effect::EffectView;
use crate::group_mesh::limits::{
    MAX_RELAY_BROADCAST_PENDING, MAX_RELAY_CAPABILITIES, RELAY_BROADCAST_MAX_ATTEMPTS,
    RELAY_CAP_GROUP_DELIVERY_V3, RELAY_REGISTER_MAX_ATTEMPTS,
};
use crate::group_mesh::relay::{keepable, missed, stored_capabilities, sync_state};
use crate::group_mesh::sending::broadcast_place;
use crate::group_mesh::state::{GroupSettings, MeshView};
use crate::group_mesh::types::{
    RelayBroadcastPending, RelayBroadcastPendingView, RelayGroupDeliveryReportView,
    RelayRegisterPendingView, RelaySyncState,
};
use crate::group_mesh::upkeep::{
    broadcast_due, broadcast_gate, broadcast_tick, broadcast_ticks, broadcasts_kept, given_up,
    registration_due, registration_tick, registration_ticks, registrations_kept,
};
use crate::rosters::{lemma_once, lemma_unlisted, lemma_without, once, without};

verus! {

/// A delivery report leaves out nobody: every other member was reached by the
/// relay or gets the message directly, and never both.
pub proof fn a_report_leaves_out_nobody(
    me: Seq<char>,
    members: Seq<Seq<char>>,
    report: RelayGroupDeliveryReportView,
    member: Seq<char>,
)
    ensures
        missed(me, members, report).contains(member) <==> members.contains(member) && member != me
            && !report.delivered.contains(member) && !report.pushed.contains(member),
{
    let reached = report.delivered + report.pushed;
    lemma_without(members, me, member);
    lemma_unlisted(without(members, me), reached, member);
    assert(reached.contains(member) <==> report.delivered.contains(member)
        || report.pushed.contains(member)) by {
        if report.delivered.contains(member) {
            let i = choose|i: int| 0 <= i < report.delivered.len() && report.delivered[i] == member;
            assert(reached[i] == member);
        }
        if report.pushed.contains(member) {
            let i = choose|i: int| 0 <= i < report.pushed.len() && report.pushed[i] == member;
            assert(reached[report.delivered.len() + i] == member);
        }
        if reached.contains(member) {
            let i = choose|i: int| 0 <= i < reached.len() && reached[i] == member;
            if i < report.delivered.len() {
                assert(report.delivered[i] == member);
            } else {
                assert(report.pushed[i - report.delivered.len()] == member);
            }
        }
    }
}

/// A relay can make this node store only so many tokens, each once, none blank
/// or oversized, and none that it did not advertise.
pub proof fn capabilities_are_bounded(advertised: Seq<Seq<char>>, token: Seq<char>)
    ensures
        stored_capabilities(advertised).len() <= MAX_RELAY_CAPABILITIES,
        stored_capabilities(advertised).no_duplicates(),
        stored_capabilities(advertised).contains(token) ==> keepable(token)
            && advertised.contains(token),
{
    let keep = |t: Seq<char>| keepable(t);
    let kept = advertised.filter(keep);
    let few = if kept.len() > MAX_RELAY_CAPABILITIES {
        kept.take(MAX_RELAY_CAPABILITIES as int)
    } else {
        kept
    };
    lemma_once(few);
    assert(stored_capabilities(advertised) == once(few));
    if once(few).contains(token) {
        assert(few.contains(token));
        let i = choose|i: int| 0 <= i < few.len() && few[i] == token;
        assert(kept[i] == token);
        assert(kept.contains(token));
        advertised.lemma_filter_contains_rev(keep, token);
    }
}

/// Sending a registration synchronises nothing: the group is pending, or was
/// acknowledged before, and counts as synced only then.
pub proof fn a_registration_is_no_acknowledgment(mesh: MeshView, group: Seq<char>, wall: i64)
    requires
        mesh.wf(),
    ensures
        mesh.registration_armed(group, wall).synced == mesh.synced,
        sync_state(mesh.registration_armed(group, wall), group) == (if assoc::known(
            mesh.synced,
            group,
        ) {
            RelaySyncState::Synced
        } else {
            RelaySyncState::Pending
        }),
{
    let attempts: u32 = match assoc::lookup(mesh.registering, group) {
        Some(p) => if p.attempts < u32::MAX {
            (p.attempts + 1) as u32
        } else {
            p.attempts
        },
        None => 1,
    };
    assoc::lemma_put(
        mesh.registering,
        group,
        RelayRegisterPendingView { armed_at: wall, attempts },
    );
}

/// A broadcast goes out only into a group that the relay has acknowledged, by a
/// relay that reports deliveries, while the internet is there.
pub proof fn a_broadcast_needs_an_acknowledged_group(
    mesh: MeshView,
    settings: GroupSettings,
    group: Seq<char>,
    internet: bool,
)
    ensures
        broadcast_gate(mesh, settings, group, internet) <==> settings.relay_broadcast_enabled
            && sync_state(mesh, group) == RelaySyncState::Synced && mesh.capabilities.contains(
            RELAY_CAP_GROUP_DELIVERY_V3@,
        ) && internet,
{
}

/// With the internet gone, so is everything that holds of one connection: no
/// group is synced, nothing may be broadcast, and nothing is in flight.
pub proof fn a_lost_connection_is_forgotten(
    mesh: MeshView,
    settings: GroupSettings,
    group: Seq<char>,
    internet: bool,
)
    requires
        mesh.internet_was_available,
    ensures
        sync_state(mesh.internet_seen(false), group) == RelaySyncState::Unsynced,
        !broadcast_gate(mesh.internet_seen(false), settings, group, internet),
        mesh.internet_seen(false).broadcasts.len() == 0,
        mesh.internet_seen(false).capabilities.len() == 0,
        mesh.internet_seen(false).members == mesh.members,
        mesh.internet_seen(false).messages == mesh.messages,
        mesh.internet_seen(false).commits == mesh.commits,
        mesh.internet_seen(false).seen == mesh.seen,
{
}

/// Every broadcast that was in flight when the connection was lost goes out to
/// each member instead.
pub proof fn a_lost_broadcast_is_downgraded(mesh: MeshView, i: int)
    requires
        mesh.internet_was_available,
        0 <= i < mesh.broadcasts.len(),
    ensures
        mesh.seeing_internet(false).contains(
            EffectView::DowngradeBroadcast {
                message_id: mesh.broadcasts[i].0,
                pending: mesh.broadcasts[i].1,
            },
        ),
{
    let all = mesh.seeing_internet(false);
    let first = all.len() - mesh.broadcasts.len();
    assert(all[first + i] == (EffectView::DowngradeBroadcast {
        message_id: mesh.broadcasts[i].0,
        pending: mesh.broadcasts[i].1,
    }));
}

/// A group that was left leaves nothing behind, and no other group is touched.
pub proof fn a_departed_group_leaves_nothing_behind(
    mesh: MeshView,
    group: Seq<char>,
    other: Seq<char>,
)
    requires
        mesh.wf(),
        other != group,
    ensures
        !assoc::known(mesh.departed(group).members, group),
        sync_state(mesh.departed(group), group) == RelaySyncState::Unsynced,
        queue_of(mesh.departed(group).messages, group).len() == 0,
        queue_of(mesh.departed(group).commits, group).len() == 0,
        assoc::lookup(mesh.departed(group).members, other) == assoc::lookup(mesh.members, other),
        sync_state(mesh.departed(group), other) == sync_state(mesh, other),
        queue_of(mesh.departed(group).messages, other) == queue_of(mesh.messages, other),
        queue_of(mesh.departed(group).commits, other) == queue_of(mesh.commits, other),
{
    assoc::lemma_del(mesh.members, group);
    assoc::lemma_del(mesh.synced, group);
    assoc::lemma_del(mesh.registering, group);
    assoc::lemma_del(mesh.messages, group);
    assoc::lemma_del(mesh.commits, group);
}

proof fn lemma_registration_ticks(
    mesh: MeshView,
    registering: Seq<(Seq<char>, RelayRegisterPendingView)>,
    wall: i64,
    i: int,
    effect: EffectView,
)
    requires
        0 <= i < registering.len(),
        registration_tick(mesh, registering[i].0, registering[i].1, wall).contains(effect),
    ensures
        registration_ticks(mesh, registering, wall).contains(effect),
    decreases registering.len(),
{
    let init = registering.drop_last();
    let early = registration_ticks(mesh, init, wall);
    let last = registration_tick(mesh, registering.last().0, registering.last().1, wall);
    let all = registration_ticks(mesh, registering, wall);
    if i < init.len() {
        lemma_registration_ticks(mesh, init, wall, i, effect);
        let j = choose|j: int| 0 <= j < early.len() && early[j] == effect;
        assert(all[j] == effect);
    } else {
        let j = choose|j: int| 0 <= j < last.len() && last[j] == effect;
        assert(all[early.len() + j] == effect);
    }
}

/// A registration whose acknowledgment is overdue is sent again, or given up
/// and tracked no longer; a registration is sent only so many times.
pub proof fn an_overdue_registration_is_retried_or_given_up(
    mesh: MeshView,
    wall: i64,
    i: int,
)
    requires
        0 <= i < mesh.registering.len(),
        registration_due(mesh.registering[i].1, wall),
    ensures
        given_up(mesh, mesh.registering[i].0, mesh.registering[i].1) ==> !registrations_kept(
            mesh,
            wall,
        ).contains(mesh.registering[i]),
        !given_up(mesh, mesh.registering[i].0, mesh.registering[i].1) ==> registration_ticks(
            mesh,
            mesh.registering,
            wall,
        ).contains(EffectView::ResyncGroup { group_id: mesh.registering[i].0 })
            && mesh.registering[i].1.attempts < RELAY_REGISTER_MAX_ATTEMPTS,
{
    let group = mesh.registering[i].0;
    let pending = mesh.registering[i].1;
    let kept = registrations_kept(mesh, wall);
    if given_up(mesh, group, pending) {
        if kept.contains(mesh.registering[i]) {
            let j = choose|j: int| 0 <= j < kept.len() && kept[j] == mesh.registering[i];
            assert(false);
        }
    } else {
        let tick = registration_tick(mesh, group, pending, wall);
        assert(tick[0] == (EffectView::ResyncGroup { group_id: group }));
        lemma_registration_ticks(mesh, mesh.registering, wall, i, tick[0]);
    }
}

proof fn lemma_broadcast_ticks(
    mesh: MeshView,
    settings: GroupSettings,
    broadcasts: Seq<(Seq<char>, RelayBroadcastPendingView)>,
    internet: bool,
    wall: i64,
    i: int,
    effect: EffectView,
)
    requires
        0 <= i < broadcasts.len(),
        broadcast_tick(
            mesh,
            settings,
            broadcasts[i].0,
            broadcasts[i].1,
            internet,
            wall,
        ).contains(effect),
    ensures
        broadcast_ticks(mesh, settings, broadcasts, internet, wall).contains(effect),
    decreases broadcasts.len(),
{
    let init = broadcasts.drop_last();
    let early = broadcast_ticks(mesh, settings, init, internet, wall);
    let last = broadcast_tick(
        mesh,
        settings,
        broadcasts.last().0,
        broadcasts.last().1,
        internet,
        wall,
    );
    let all = broadcast_ticks(mesh, settings, broadcasts, internet, wall);
    if i < init.len() {
        lemma_broadcast_ticks(mesh, settings, init, internet, wall, i, effect);
        let j = choose|j: int| 0 <= j < early.len() && early[j] == effect;
        assert(all[j] == effect);
    } else {
        let j = choose|j: int| 0 <= j < last.len() && last[j] == effect;
        assert(all[early.len() + j] == effect);
    }
}

/// A broadcast whose report is overdue is taken off the list, and goes out again
/// or to each member instead; it is broadcast again only so many times, and only
/// where it could still be broadcast.
pub proof fn an_overdue_broadcast_is_resent_or_downgraded(
    mesh: MeshView,
    settings: GroupSettings,
    internet: bool,
    wall: i64,
    i: int,
)
    requires
        0 <= i < mesh.broadcasts.len(),
        broadcast_due(mesh.broadcasts[i].1, wall),
    ensures
        !broadcasts_kept(mesh.broadcasts, wall).contains(mesh.broadcasts[i]),
        ({
            let id = mesh.broadcasts[i].0;
            let pending = mesh.broadcasts[i].1;
            let asked = broadcast_ticks(mesh, settings, mesh.broadcasts, internet, wall);
            if pending.attempts < RELAY_BROADCAST_MAX_ATTEMPTS && broadcast_gate(
                mesh,
                settings,
                pending.group_id,
                internet,
            ) {
                asked.contains(EffectView::ResendBroadcast { message_id: id, pending })
            } else {
                asked.contains(EffectView::DowngradeBroadcast { message_id: id, pending })
            }
        }),
{
    let kept = broadcasts_kept(mesh.broadcasts, wall);
    if kept.contains(mesh.broadcasts[i]) {
        let j = choose|j: int| 0 <= j < kept.len() && kept[j] == mesh.broadcasts[i];
        assert(false);
    }
    let tick = broadcast_tick(
        mesh,
        settings,
        mesh.broadcasts[i].0,
        mesh.broadcasts[i].1,
        internet,
        wall,
    );
    assert(tick.contains(tick[0]));
    lemma_broadcast_ticks(mesh, settings, mesh.broadcasts, internet, wall, i, tick[0]);
}

/// Broadcasts in flight stay within their cap, and one that makes way goes out to
/// each member instead.
pub proof fn broadcasts_are_bounded(
    broadcasts: Seq<(Seq<char>, RelayBroadcastPendingView)>,
    i: int,
)
    requires
        0 <= i < broadcasts.len(),
    ensures
        broadcast_place(broadcasts).0.len() < MAX_RELAY_BROADCAST_PENDING,
        broadcast_place(broadcasts).0.contains(broadcasts[i]) || broadcast_place(
            broadcasts,
        ).1.contains(
            EffectView::DowngradeBroadcast {
                message_id: broadcasts[i].0,
                pending: broadcasts[i].1,
            },
        ),
    decreases broadcasts.len(),
{
    if broadcasts.len() >= MAX_RELAY_BROADCAST_PENDING {
        lemma_earliest(times_in::<RelayBroadcastPending>(broadcasts));
        let at = earliest(times_in::<RelayBroadcastPending>(broadcasts));
        let rest = broadcasts.remove(at);
        let effect = EffectView::DowngradeBroadcast {
            message_id: broadcasts[i].0,
            pending: broadcasts[i].1,
        };
        let j = if i <= at {
            i
        } else {
            i - 1
        };
        let k = if j < rest.len() {
            j
        } else {
            0
        };
        broadcasts_are_bounded(rest, k);
        if i == at {
            assert(broadcast_place(broadcasts).1[0] == effect);
        } else {
            assert(k == j);
            assert(rest[j] == broadcasts[i]);
            if !broadcast_place(rest).0.contains(broadcasts[i]) {
                let later = broadcast_place(rest).1;
                let m = choose|m: int| 0 <= m < later.len() && later[m] == effect;
                assert(broadcast_place(broadcasts).1[m + 1] == effect);
            }
        }
    } else {
        assert(broadcast_place(broadcasts).0[i] == broadcasts[i]);
    }
}

} // verus!
