//! The relay: which groups it holds, what it is sent and when, and what becomes of
//! that as the connection comes and goes.

use vstd::prelude::*;
use vstd::utf8::encode_utf8;

use crate::assoc;
use crate::error::ErrorView;
use crate::group_mesh::dated::SECOND;
use crate::group_mesh::effect::{EffectView, NoticeView, SyncReason};
use crate::group_mesh::laws::dispatch::a_broadcast_is_open_where_the_relay_reports;
use crate::group_mesh::limits::{
    MAX_RELAY_CAPABILITIES, MAX_RELAY_CAPABILITY_TOKEN_BYTES, RELAY_BROADCAST_MAX_ATTEMPTS,
    RELAY_BROADCAST_REPORT_TIMEOUT_SECS, RELAY_CAP_GROUP_DELIVERY_V3,
    RELAY_REGISTER_ACK_TIMEOUT_SECS, RELAY_REGISTER_MAX_ATTEMPTS,
};
use crate::group_mesh::relay::{
    answers, broadcast, keepable, missed, registration_frame, registration_hint, registration_step,
    reissue, settled_by, stored_capabilities, sync_state, RegistrationStepView,
};
use crate::group_mesh::roles::GroupReadsView;
use crate::group_mesh::state::{GroupSettings, MeshView};
use crate::group_mesh::types::{
    GroupMlsMessagePayloadView, RelayBroadcastPendingView, RelayGroupBroadcastPayloadView,
    RelayGroupDeliveryReportView, RelayGroupRegistrationPayloadView, RelayRegisterPendingView,
    RelaySyncState,
};
use crate::group_mesh::upkeep::{
    broadcast_due, broadcast_tick, broadcast_ticks, broadcasts_kept, downgrades, given_up,
    pending_drops, registration_due, registration_tick, registration_ticks, registrations_kept,
    resyncs, synced_drops,
};
use crate::rosters::{lemma_filter_contains, lemma_once, lemma_unlisted, lemma_without, without};

verus! {

/// A group is synced once the relay has acknowledged it, pending while its
/// registration is in flight, and unsynced otherwise.
pub proof fn a_group_is_synced_once_acknowledged(mesh: MeshView, group: Seq<char>)
    ensures
        sync_state(mesh, group) == RelaySyncState::Synced <==> assoc::known(mesh.synced, group),
        sync_state(mesh, group) == RelaySyncState::Pending <==> !assoc::known(mesh.synced, group)
            && assoc::known(mesh.registering, group),
        sync_state(mesh, group) == RelaySyncState::Unsynced <==> !assoc::known(mesh.synced, group)
            && !assoc::known(mesh.registering, group),
{
}

/// A registration that is asked for is sent, with the roster that MLS reads or
/// the cached one, where relay groups are on and the internet is there. Nothing
/// is sent for a group that the relay has, and a group that nobody knows is
/// missing.
pub proof fn a_registration_is_sent_where_it_can_be(
    mesh: MeshView,
    settings: GroupSettings,
    me: Seq<char>,
    group: Seq<char>,
    internet: bool,
    reads: GroupReadsView,
)
    ensures
        ({
            let read = reads.info matches Ok(Some(_));
            let members = if reads.info matches Ok(Some(_)) {
                reads.info->Ok_0->0.members
            } else {
                assoc::at(mesh.members, group)
            };
            registration_step(mesh, settings, me, group, internet, reads) == (if assoc::known(
                mesh.synced,
                group,
            ) {
                Ok::<RegistrationStepView, ErrorView>(RegistrationStepView::Synced)
            } else if !read && !assoc::known(mesh.members, group) {
                Err(ErrorView::GroupNotFound(group))
            } else if !settings.relay_enabled || !internet {
                Ok(RegistrationStepView::Unavailable)
            } else {
                Ok(
                    RegistrationStepView::Send(
                        RelayGroupRegistrationPayloadView {
                            group_id: group,
                            group_name: None,
                            members,
                            is_admin: registration_hint(reads, group, me),
                        },
                    ),
                )
            })
        }),
{
}

/// A registration that was sent is in flight from now on, with one more attempt
/// than before.
pub proof fn an_attempt_is_counted(mesh: MeshView, group: Seq<char>, wall: i64, other: Seq<char>)
    requires
        mesh.wf(),
    ensures
        ({
            let next = mesh.registration_armed(group, wall);
            let p = assoc::at(next.registering, group);
            let before = assoc::at(mesh.registering, group).attempts;
            &&& assoc::known(next.registering, group) && p.armed_at == wall
            &&& !assoc::known(mesh.registering, group) ==> p.attempts == 1
            &&& assoc::known(mesh.registering, group) && before < u32::MAX ==> p.attempts == before
                + 1
            &&& other != group ==> assoc::lookup(next.registering, other) == assoc::lookup(
                mesh.registering,
                other,
            )
            &&& next == (MeshView { registering: next.registering, ..mesh })
        }),
{
    assoc::lemma_put(
        mesh.registering,
        group,
        assoc::at(mesh.registration_armed(group, wall).registering, group),
    );
    let attempts: u32 = if assoc::known(mesh.registering, group) {
        let before = assoc::at(mesh.registering, group).attempts;
        if before < u32::MAX {
            (before + 1) as u32
        } else {
            before
        }
    } else {
        1
    };
    assoc::lemma_put(
        mesh.registering,
        group,
        RelayRegisterPendingView { armed_at: wall, attempts },
    );
}

/// A relay's tokens are kept, each that is neither empty nor oversized, as long as
/// they are not more than may be stored.
pub proof fn tokens_are_kept(advertised: Seq<Seq<char>>, token: Seq<char>)
    requires
        advertised.len() <= MAX_RELAY_CAPABILITIES,
    ensures
        stored_capabilities(advertised).contains(token) <==> advertised.contains(token)
            && token.len() > 0 && encode_utf8(token).len() <= MAX_RELAY_CAPABILITY_TOKEN_BYTES,
{
    let keep = |t: Seq<char>| keepable(t);
    let kept = advertised.filter(keep);
    advertised.lemma_filter_len(keep);
    lemma_once(kept);
    lemma_filter_contains(advertised, keep, token);
    assert(stored_capabilities(advertised).contains(token) <==> kept.contains(token));
}

/// A broadcast and its fall-back say the same: the group, the ciphertext and its
/// epoch, what it replies to, the attribution and the logical id.
pub proof fn a_broadcast_says_what_is_pending(
    message_id: Seq<char>,
    pending: RelayBroadcastPendingView,
)
    ensures
        broadcast(message_id, pending) == (RelayGroupBroadcastPayloadView {
            group_id: pending.group_id,
            ciphertext: pending.ciphertext_b64,
            epoch: pending.epoch,
            reply_to: pending.reply_to,
            forward_info: pending.forward_info,
            message_id,
        }),
        reissue(message_id, pending) == (GroupMlsMessagePayloadView {
            group_id: pending.group_id,
            ciphertext: pending.ciphertext_b64,
            epoch: pending.epoch,
            reply_to: pending.reply_to,
            forward_info: pending.forward_info,
            message_id: Some(message_id),
        }),
{
}

/// A report settles the broadcast that is in flight under its id for its group,
/// and those it missed are the members, other than this node, whom it counts
/// neither as delivered to nor as pushed to.
pub proof fn a_report_settles_its_broadcast(
    mesh: MeshView,
    me: Seq<char>,
    members: Seq<Seq<char>>,
    report: RelayGroupDeliveryReportView,
    name: Seq<char>,
)
    ensures
        answers(mesh, report) <==> assoc::known(mesh.broadcasts, report.message_id) && assoc::at(
            mesh.broadcasts,
            report.message_id,
        ).group_id == report.group_id,
        missed(me, members, report).contains(name) <==> members.contains(name) && name != me
            && !report.delivered.contains(name) && !report.pushed.contains(name),
{
    broadcast use vstd::seq_lib::group_seq_properties;

    lemma_without(members, me, name);
    lemma_unlisted(without(members, me), report.delivered + report.pushed, name);
}

proof fn lemma_resyncs(
    members: Seq<(Seq<char>, Seq<Seq<char>>)>,
    synced: Seq<(Seq<char>, ())>,
    effect: EffectView,
)
    ensures
        resyncs(members, synced).contains(effect) <==> (effect matches EffectView::ResyncGroup {
            group_id,
        } && assoc::known(members, group_id) && !assoc::known(synced, group_id)),
    decreases members.len(),
{
    broadcast use vstd::seq_lib::group_seq_properties;

    if members.len() > 0 {
        let init = members.drop_last();
        lemma_resyncs(init, synced, effect);
        if let EffectView::ResyncGroup { group_id } = effect {
            lemma_known_split(members, group_id);
        }
    }
}

proof fn lemma_known_split<V>(list: Seq<(Seq<char>, V)>, key: Seq<char>)
    requires
        list.len() > 0,
    ensures
        assoc::known(list, key) <==> assoc::known(list.drop_last(), key) || list.last().0 == key,
{
    let init = list.drop_last();
    let last = list.len() - 1;
    if assoc::known(init, key) {
        let i = choose|i: int| 0 <= i < init.len() && #[trigger] init[i].0 == key;
        assert(list[i].0 == key);
    }
    if assoc::known(list, key) {
        let i = choose|i: int| 0 <= i < list.len() && #[trigger] list[i].0 == key;
        if i < last {
            assert(init[i].0 == key);
        }
    }
    if list.last().0 == key {
        assert(list[last].0 == key);
    }
}

proof fn lemma_pending_drops(
    registering: Seq<(Seq<char>, RelayRegisterPendingView)>,
    synced: Seq<(Seq<char>, ())>,
    effect: EffectView,
)
    ensures
        pending_drops(registering, synced).contains(effect) <==> (effect matches EffectView::Notify(
            NoticeView::RelayUnsynced { group_id, reason },
        ) && reason == SyncReason::InternetDropped && assoc::known(registering, group_id)
            && !assoc::known(synced, group_id)),
    decreases registering.len(),
{
    broadcast use vstd::seq_lib::group_seq_properties;

    if registering.len() > 0 {
        lemma_pending_drops(registering.drop_last(), synced, effect);
        if let EffectView::Notify(NoticeView::RelayUnsynced { group_id, .. }) = effect {
            lemma_known_split(registering, group_id);
        }
    }
}

/// As the internet comes back, every group that the relay lacks is registered
/// again. As it goes, every group that the relay had or was getting is told to be
/// unsynced, and every broadcast in flight goes out to each member instead. Where
/// nothing changed, nothing happens.
pub proof fn a_connection_comes_and_goes(mesh: MeshView, internet: bool, effect: EffectView)
    requires
        mesh.wf(),
    ensures
        ({
            let came = internet && !mesh.internet_was_available;
            let went = !internet && mesh.internet_was_available;
            &&& mesh.seeing_internet(internet).contains(effect) <==> match effect {
                EffectView::ResyncGroup { group_id } => came && assoc::known(mesh.members, group_id)
                    && !assoc::known(mesh.synced, group_id),
                EffectView::Notify(NoticeView::RelayUnsynced { group_id, reason }) => went && reason
                    == SyncReason::InternetDropped && (assoc::known(mesh.synced, group_id)
                    || assoc::known(mesh.registering, group_id)),
                EffectView::DowngradeBroadcast { message_id, pending } => went && assoc::known(
                    mesh.broadcasts,
                    message_id,
                ) && assoc::at(mesh.broadcasts, message_id) == pending,
                _ => false,
            }
            &&& mesh.internet_seen(internet).internet_was_available == internet
            &&& !went ==> mesh.internet_seen(internet) == (MeshView {
                internet_was_available: internet,
                ..mesh
            })
        }),
{
    broadcast use vstd::seq_lib::group_seq_properties;

    lemma_resyncs(mesh.members, mesh.synced, effect);
    lemma_pending_drops(mesh.registering, mesh.synced, effect);
    let drops = synced_drops(mesh.synced);
    let downs = downgrades(mesh.broadcasts);
    if let EffectView::Notify(NoticeView::RelayUnsynced { group_id, reason }) = effect {
        if reason == SyncReason::InternetDropped && assoc::known(mesh.synced, group_id) {
            let i = choose|i: int|
                0 <= i < mesh.synced.len() && #[trigger] mesh.synced[i].0 == group_id;
            assert(drops[i] == effect);
        }
    }
    if let EffectView::DowngradeBroadcast { message_id, pending } = effect {
        if assoc::known(mesh.broadcasts, message_id) && assoc::at(mesh.broadcasts, message_id)
            == pending {
            let i = assoc::position(mesh.broadcasts, message_id);
            assert(mesh.broadcasts[i].0 == message_id);
            assert(downs[i] == effect);
        }
    }
    if drops.contains(effect) {
        let i = choose|i: int| 0 <= i < drops.len() && drops[i] == effect;
        assert(mesh.synced[i].0 == effect->Notify_0->RelayUnsynced_group_id);
    }
    if downs.contains(effect) {
        let i = choose|i: int| 0 <= i < downs.len() && downs[i] == effect;
        assoc::lemma_position(mesh.broadcasts, i);
    }
}

/// What was armed has waited its time-out.
pub open spec fn waited(armed_at: i64, wall: i64, secs: i64) -> bool {
    wall - armed_at >= secs * SECOND
}

/// A registration whose acknowledgment is overdue is tried again while attempts
/// are left, this node is in the group and the relay lacks it. Where attempts are
/// used up the group is told to be unsynced, and it is not tracked further; nor
/// is a registration that nobody needs any more.
pub proof fn an_overdue_registration_is_acted_on(
    mesh: MeshView,
    wall: i64,
    group: Seq<char>,
    pending: RelayRegisterPendingView,
)
    ensures
        ({
            let late = waited(pending.armed_at, wall, RELAY_REGISTER_ACK_TIMEOUT_SECS);
            let wanted = assoc::known(mesh.members, group) && !assoc::known(mesh.synced, group);
            let left = pending.attempts < RELAY_REGISTER_MAX_ATTEMPTS;
            &&& registration_tick(mesh, group, pending, wall) == (if late && wanted && left {
                seq![EffectView::ResyncGroup { group_id: group }]
            } else if late && wanted {
                seq![
                    EffectView::Notify(
                        NoticeView::RelayUnsynced {
                            group_id: group,
                            reason: SyncReason::AckTimeout,
                        },
                    ),
                ]
            } else {
                Seq::empty()
            })
            &&& registrations_kept(mesh, wall).contains((group, pending))
                <==> mesh.registering.contains((group, pending)) && (!late || (wanted && left))
        }),
{
    let e = (group, pending);
    let keep = |e: (Seq<char>, RelayRegisterPendingView)|
        !(registration_due(e.1, wall) && given_up(mesh, e.0, e.1));
    let kept = mesh.registering.filter(keep);
    if kept.contains(e) {
        mesh.registering.lemma_filter_contains_rev(keep, e);
        let i = choose|i: int| 0 <= i < kept.len() && kept[i] == e;
        mesh.registering.lemma_filter_pred(keep, i);
    }
    if mesh.registering.contains(e) && keep(e) {
        let i = choose|i: int| 0 <= i < mesh.registering.len() && mesh.registering[i] == e;
        mesh.registering.lemma_filter_contains(keep, i);
    }
}

/// Every registration in flight gets its tick, and nothing else does.
pub proof fn every_registration_is_looked_at(
    mesh: MeshView,
    registering: Seq<(Seq<char>, RelayRegisterPendingView)>,
    wall: i64,
    effect: EffectView,
)
    ensures
        registration_ticks(mesh, registering, wall).contains(effect) <==> exists|i: int|
            0 <= i < registering.len() && registration_tick(
                mesh,
                (#[trigger] registering[i]).0,
                registering[i].1,
                wall,
            ).contains(effect),
    decreases registering.len(),
{
    broadcast use vstd::seq_lib::group_seq_properties;

    if registering.len() > 0 {
        let init = registering.drop_last();
        let last = registering.len() - 1;
        every_registration_is_looked_at(mesh, init, wall, effect);
        if registration_ticks(mesh, init, wall).contains(effect) {
            let i = choose|i: int|
                0 <= i < init.len() && registration_tick(
                    mesh,
                    (#[trigger] init[i]).0,
                    init[i].1,
                    wall,
                ).contains(effect);
            assert(registering[i] == init[i]);
        }
        assert forall|i: int|
            0 <= i < registering.len() && registration_tick(
                mesh,
                (#[trigger] registering[i]).0,
                registering[i].1,
                wall,
            ).contains(effect) implies registration_ticks(mesh, registering, wall).contains(
            effect,
        ) by {
            if i < last {
                assert(init[i] == registering[i]);
            }
        }
        assert(registering[last] == registering.last());
    }
}

/// A broadcast whose report is overdue goes out again while attempts are left and
/// it may still be broadcast, and to each member otherwise; either way it is off
/// the list, and one that is not overdue stays on it.
pub proof fn an_overdue_broadcast_is_acted_on(
    mesh: MeshView,
    settings: GroupSettings,
    id: Seq<char>,
    pending: RelayBroadcastPendingView,
    internet: bool,
    wall: i64,
)
    ensures
        ({
            let late = waited(pending.armed_at, wall, RELAY_BROADCAST_REPORT_TIMEOUT_SECS);
            let again = pending.attempts < RELAY_BROADCAST_MAX_ATTEMPTS
                && settings.relay_broadcast_enabled && internet && assoc::known(
                mesh.synced,
                pending.group_id,
            ) && mesh.capabilities.contains(RELAY_CAP_GROUP_DELIVERY_V3@);
            &&& broadcast_tick(mesh, settings, id, pending, internet, wall) == (if !late {
                Seq::empty()
            } else if again {
                seq![EffectView::ResendBroadcast { message_id: id, pending }]
            } else {
                seq![EffectView::DowngradeBroadcast { message_id: id, pending }]
            })
            &&& broadcasts_kept(mesh.broadcasts, wall).contains((id, pending))
                <==> mesh.broadcasts.contains((id, pending)) && !late
        }),
{
    a_broadcast_is_open_where_the_relay_reports(mesh, settings, pending.group_id, internet);
    let e = (id, pending);
    let keep = |e: (Seq<char>, RelayBroadcastPendingView)|
        !broadcast_due(e.1, wall);
    let kept = mesh.broadcasts.filter(keep);
    if kept.contains(e) {
        mesh.broadcasts.lemma_filter_contains_rev(keep, e);
        let i = choose|i: int| 0 <= i < kept.len() && kept[i] == e;
        mesh.broadcasts.lemma_filter_pred(keep, i);
    }
    if mesh.broadcasts.contains(e) && keep(e) {
        let i = choose|i: int| 0 <= i < mesh.broadcasts.len() && mesh.broadcasts[i] == e;
        mesh.broadcasts.lemma_filter_contains(keep, i);
    }
}

/// Every broadcast in flight gets its tick, and nothing else does.
pub proof fn every_broadcast_is_looked_at(
    mesh: MeshView,
    settings: GroupSettings,
    broadcasts: Seq<(Seq<char>, RelayBroadcastPendingView)>,
    internet: bool,
    wall: i64,
    effect: EffectView,
)
    ensures
        broadcast_ticks(mesh, settings, broadcasts, internet, wall).contains(effect) <==> exists|
            i: int,
        |
            0 <= i < broadcasts.len() && broadcast_tick(
                mesh,
                settings,
                (#[trigger] broadcasts[i]).0,
                broadcasts[i].1,
                internet,
                wall,
            ).contains(effect),
    decreases broadcasts.len(),
{
    broadcast use vstd::seq_lib::group_seq_properties;

    if broadcasts.len() > 0 {
        let init = broadcasts.drop_last();
        let last = broadcasts.len() - 1;
        every_broadcast_is_looked_at(mesh, settings, init, internet, wall, effect);
        if broadcast_ticks(mesh, settings, init, internet, wall).contains(effect) {
            let i = choose|i: int|
                0 <= i < init.len() && broadcast_tick(
                    mesh,
                    settings,
                    (#[trigger] init[i]).0,
                    init[i].1,
                    internet,
                    wall,
                ).contains(effect);
            assert(broadcasts[i] == init[i]);
        }
        assert forall|i: int|
            0 <= i < broadcasts.len() && broadcast_tick(
                mesh,
                settings,
                (#[trigger] broadcasts[i]).0,
                broadcasts[i].1,
                internet,
                wall,
            ).contains(effect) implies broadcast_ticks(
            mesh,
            settings,
            broadcasts,
            internet,
            wall,
        ).contains(effect) by {
            if i < last {
                assert(init[i] == broadcasts[i]);
            }
        }
        assert(broadcasts[last] == broadcasts.last());
    }
}

/// A registration says which group it is for, its name, its roster, and whether
/// this node is an admin where that is known.
pub proof fn a_registration_says_what_it_registers(
    group: Seq<char>,
    name: Option<Seq<char>>,
    members: Seq<Seq<char>>,
    hint: Option<bool>,
)
    ensures
        registration_frame(group, name, members, hint) == (RelayGroupRegistrationPayloadView {
            group_id: group,
            group_name: name,
            members,
            is_admin: hint,
        }),
{
}

/// A report settles something exactly where a broadcast to its group is in flight
/// under its id; what it settles is that broadcast.
pub proof fn a_report_hands_back_its_broadcast(
    mesh: MeshView,
    me: Seq<char>,
    members: Seq<Seq<char>>,
    report: RelayGroupDeliveryReportView,
    name: Seq<char>,
)
    ensures
        ({
            let pending = assoc::at(mesh.broadcasts, report.message_id);
            let mine = assoc::known(mesh.broadcasts, report.message_id) && pending.group_id
                == report.group_id;
            match settled_by(mesh, me, members, report) {
                Some(settled) => mine && settled.0 == pending && (settled.1.contains(name)
                    <==> members.contains(name) && name != me && !report.delivered.contains(name)
                    && !report.pushed.contains(name)),
                None => !mine,
            }
        }),
{
    a_report_settles_its_broadcast(mesh, me, members, report, name);
}

} // verus!
