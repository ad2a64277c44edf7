//! What every tick looks after: the relay connection, registrations and
//! broadcasts that were not answered.

use vstd::prelude::*;

use crate::assoc;
use crate::assoc::StrMap;
use crate::error::{told, Error};
use crate::group_mesh::dated::lemma_filter_front;
use crate::group_mesh::effect::{Effect, EffectView, Effects, Notice, NoticeView, SyncReason};
use crate::group_mesh::limits::{
    RELAY_BROADCAST_MAX_ATTEMPTS, RELAY_BROADCAST_REPORT_TIMEOUT_SECS, RELAY_CAP_GROUP_DELIVERY_V3,
    RELAY_REGISTER_ACK_TIMEOUT_SECS, RELAY_REGISTER_MAX_ATTEMPTS,
};
use crate::group_mesh::relay::{has_lapsed, lapsed};
use crate::group_mesh::state::{GroupSettings, MeshView, OfflineProtocol};
use crate::group_mesh::types::{
    GroupInfo, RelayBroadcastPending, RelayBroadcastPendingView, RelayRegisterPendingView,
};
use crate::rosters::lists;

verus! {

/// The groups to register when the internet comes up: those cached and not
/// synced.
pub open spec fn resyncs(
    members: Seq<(Seq<char>, Seq<Seq<char>>)>,
    synced: Seq<(Seq<char>, ())>,
) -> Seq<EffectView>
    decreases members.len(),
{
    if members.len() == 0 {
        Seq::empty()
    } else {
        let rest = resyncs(members.drop_last(), synced);
        if assoc::known(synced, members.last().0) {
            rest
        } else {
            rest.push(EffectView::ResyncGroup { group_id: members.last().0 })
        }
    }
}

/// The application is told of a group that the relay lost with the connection.
pub open spec fn dropped(group: Seq<char>) -> EffectView {
    EffectView::Notify(
        NoticeView::RelayUnsynced { group_id: group, reason: SyncReason::InternetDropped },
    )
}

/// The application is told of each synced group that the relay lost.
pub open spec fn synced_drops(synced: Seq<(Seq<char>, ())>) -> Seq<EffectView> {
    synced.map_values(|e: (Seq<char>, ())| dropped(e.0))
}

/// The application is told of each group whose registration is lost and that was
/// not synced.
pub open spec fn pending_drops(
    registering: Seq<(Seq<char>, RelayRegisterPendingView)>,
    synced: Seq<(Seq<char>, ())>,
) -> Seq<EffectView>
    decreases registering.len(),
{
    if registering.len() == 0 {
        Seq::empty()
    } else {
        let rest = pending_drops(registering.drop_last(), synced);
        if assoc::known(synced, registering.last().0) {
            rest
        } else {
            rest.push(dropped(registering.last().0))
        }
    }
}

/// Every broadcast in flight goes to per-member copies.
pub open spec fn downgrades(broadcasts: Seq<(Seq<char>, RelayBroadcastPendingView)>) -> Seq<
    EffectView,
> {
    broadcasts.map_values(
        |e: (Seq<char>, RelayBroadcastPendingView)|
            EffectView::DowngradeBroadcast { message_id: e.0, pending: e.1 },
    )
}

impl MeshView {
    /// The state after the internet was looked at.
    pub open spec fn internet_seen(self, internet: bool) -> MeshView {
        let noted = MeshView { internet_was_available: internet, ..self };
        if !internet && self.internet_was_available {
            MeshView {
                synced: Seq::empty(),
                registering: Seq::empty(),
                capabilities: Seq::empty(),
                broadcasts: Seq::empty(),
                ..noted
            }
        } else {
            noted
        }
    }

    /// What a look at the internet asks for: registrations when it comes up, and
    /// when it goes down an event for each group and per-member copies for each
    /// broadcast in flight.
    pub open spec fn seeing_internet(self, internet: bool) -> Seq<EffectView> {
        if internet && !self.internet_was_available {
            resyncs(self.members, self.synced)
        } else if !internet && self.internet_was_available {
            synced_drops(self.synced) + pending_drops(self.registering, self.synced) + downgrades(
                self.broadcasts,
            )
        } else {
            Seq::empty()
        }
    }
}

/// A registration has waited long enough for its acknowledgment.
pub open spec fn registration_due(pending: RelayRegisterPendingView, wall: i64) -> bool {
    lapsed(pending.armed_at, wall, RELAY_REGISTER_ACK_TIMEOUT_SECS)
}

/// A registration is given up: its attempts are used, its group is gone, or the
/// group is synced.
pub open spec fn given_up(
    mesh: MeshView,
    group: Seq<char>,
    pending: RelayRegisterPendingView,
) -> bool {
    pending.attempts >= RELAY_REGISTER_MAX_ATTEMPTS || !assoc::known(mesh.members, group)
        || assoc::known(mesh.synced, group)
}

/// What one registration in flight asks for on a tick. Giving up on a group that
/// is still there and not synced is told to the application.
pub open spec fn registration_tick(
    mesh: MeshView,
    group: Seq<char>,
    pending: RelayRegisterPendingView,
    wall: i64,
) -> Seq<EffectView> {
    if !registration_due(pending, wall) {
        Seq::empty()
    } else if !given_up(mesh, group, pending) {
        seq![EffectView::ResyncGroup { group_id: group }]
    } else if assoc::known(mesh.members, group) && !assoc::known(mesh.synced, group) {
        seq![
            EffectView::Notify(
                NoticeView::RelayUnsynced { group_id: group, reason: SyncReason::AckTimeout },
            ),
        ]
    } else {
        Seq::empty()
    }
}

/// What all registrations in flight ask for on a tick.
pub open spec fn registration_ticks(
    mesh: MeshView,
    registering: Seq<(Seq<char>, RelayRegisterPendingView)>,
    wall: i64,
) -> Seq<EffectView>
    decreases registering.len(),
{
    if registering.len() == 0 {
        Seq::empty()
    } else {
        registration_ticks(mesh, registering.drop_last(), wall) + registration_tick(
            mesh,
            registering.last().0,
            registering.last().1,
            wall,
        )
    }
}

/// The registrations that stay in flight.
pub open spec fn registrations_kept(mesh: MeshView, wall: i64) -> Seq<
    (Seq<char>, RelayRegisterPendingView),
> {
    mesh.registering.filter(
        |e: (Seq<char>, RelayRegisterPendingView)|
            !(registration_due(e.1, wall) && given_up(mesh, e.0, e.1)),
    )
}

/// A broadcast has waited long enough for its report.
pub open spec fn broadcast_due(pending: RelayBroadcastPendingView, wall: i64) -> bool {
    lapsed(pending.armed_at, wall, RELAY_BROADCAST_REPORT_TIMEOUT_SECS)
}

/// A message of this group may go out as a relay broadcast: broadcasts are on,
/// the relay has acknowledged the group and reports deliveries, and the internet
/// is available.
pub open spec fn broadcast_gate(
    mesh: MeshView,
    settings: GroupSettings,
    group: Seq<char>,
    internet: bool,
) -> bool {
    settings.relay_broadcast_enabled && assoc::known(mesh.synced, group)
        && mesh.capabilities.contains(RELAY_CAP_GROUP_DELIVERY_V3@) && internet
}

/// What one broadcast in flight asks for on a tick: a re-send while sends
/// are left and it may still be broadcast, otherwise per-member copies.
pub open spec fn broadcast_tick(
    mesh: MeshView,
    settings: GroupSettings,
    id: Seq<char>,
    pending: RelayBroadcastPendingView,
    internet: bool,
    wall: i64,
) -> Seq<EffectView> {
    if !broadcast_due(pending, wall) {
        Seq::empty()
    } else if pending.attempts < RELAY_BROADCAST_MAX_ATTEMPTS && broadcast_gate(
        mesh,
        settings,
        pending.group_id,
        internet,
    ) {
        seq![EffectView::ResendBroadcast { message_id: id, pending }]
    } else {
        seq![EffectView::DowngradeBroadcast { message_id: id, pending }]
    }
}

/// What all broadcasts in flight ask for on a tick.
pub open spec fn broadcast_ticks(
    mesh: MeshView,
    settings: GroupSettings,
    broadcasts: Seq<(Seq<char>, RelayBroadcastPendingView)>,
    internet: bool,
    wall: i64,
) -> Seq<EffectView>
    decreases broadcasts.len(),
{
    if broadcasts.len() == 0 {
        Seq::empty()
    } else {
        broadcast_ticks(mesh, settings, broadcasts.drop_last(), internet, wall) + broadcast_tick(
            mesh,
            settings,
            broadcasts.last().0,
            broadcasts.last().1,
            internet,
            wall,
        )
    }
}

/// The broadcasts that keep waiting.
pub open spec fn broadcasts_kept(
    broadcasts: Seq<(Seq<char>, RelayBroadcastPendingView)>,
    wall: i64,
) -> Seq<(Seq<char>, RelayBroadcastPendingView)> {
    broadcasts.filter(|e: (Seq<char>, RelayBroadcastPendingView)| !broadcast_due(e.1, wall))
}

impl MeshView {
    /// The state after a broadcast was tried again: where it went out it is in
    /// flight from now on, with one more attempt.
    pub open spec fn broadcast_retried(
        self,
        message_id: Seq<char>,
        pending: RelayBroadcastPendingView,
        sent: bool,
        wall: i64,
    ) -> MeshView {
        if sent {
            MeshView {
                broadcasts: assoc::put(
                    self.broadcasts,
                    message_id,
                    RelayBroadcastPendingView {
                        attempts: (pending.attempts + 1) as u32,
                        armed_at: wall,
                        ..pending
                    },
                ),
                ..self
            }
        } else {
            self
        }
    }
}

/// What a broadcast that was tried again asks for: it is downgraded where it did
/// not go out.
pub open spec fn retrying_broadcast(
    message_id: Seq<char>,
    pending: RelayBroadcastPendingView,
    sent: bool,
) -> Seq<EffectView> {
    if sent {
        Seq::empty()
    } else {
        seq![EffectView::DowngradeBroadcast { message_id, pending }]
    }
}

impl OfflineProtocol {
    /// Whether a message of this group may go out as a relay broadcast.
    pub fn may_broadcast(&self, group_id: &str, internet: bool) -> (r: bool)
        requires
            self.group_mesh@.wf(),
        ensures
            r == broadcast_gate(self.group_mesh@, self.settings, group_id@, internet),
    {
        self.settings.relay_broadcast_enabled && self.group_mesh.relay_synced.contains_key(group_id)
            && lists(&self.group_mesh.relay_capabilities, RELAY_CAP_GROUP_DELIVERY_V3) && internet
    }

    /// Notices transitions of the internet transport.
    pub fn check_relay_group_sync(&mut self, internet: bool, effects: &mut Effects)
        requires
            old(self).group_mesh@.wf(),
        ensures
            final(self).group_mesh@.wf(),
            final(self).same_node(old(self)),
            old(self).settings.relay_enabled ==> {
                &&& final(self).group_mesh@ == old(self).group_mesh@.internet_seen(internet)
                &&& final(effects)@ == old(effects)@ + old(self).group_mesh@.seeing_internet(
                    internet,
                )
            },
            !old(self).settings.relay_enabled ==> final(self).group_mesh@ == old(self).group_mesh@
                && final(effects)@ == old(effects)@,
    {
        if !self.settings.relay_enabled {
            return;
        }
        let was_available = self.group_mesh.internet_was_available;
        self.group_mesh.internet_was_available = internet;
        if internet && !was_available {
            self.sync_groups_to_relay(effects);
        } else if !internet && was_available {
            self.drop_relay_state(effects);
        } else {
            assert(effects@ =~= old(effects)@ + Seq::<EffectView>::empty());
        }
    }

    /// Asks for every group that is not synced to be registered.
    fn sync_groups_to_relay(&self, effects: &mut Effects)
        requires
            self.group_mesh@.wf(),
        ensures
            final(effects)@ == old(effects)@ + resyncs(
                self.group_mesh@.members,
                self.group_mesh@.synced,
            ),
    {
        let ghost all = self.group_mesh@.members;
        let mut i: usize = 0;
        assert(all.take(0) =~= Seq::empty());
        assert(effects@ =~= old(effects)@ + resyncs(all.take(0), self.group_mesh@.synced));
        while i < self.group_mesh.members.len()
            invariant
                i <= all.len(),
                all == self.group_mesh@.members,
                self.group_mesh@.wf(),
                effects@ == old(effects)@ + resyncs(all.take(i as int), self.group_mesh@.synced),
            decreases all.len() - i,
        {
            proof {
                assert(all.take(i + 1).drop_last() =~= all.take(i as int));
                assert(all.take(i + 1).last() == all[i as int]);
            }
            let group_id = self.group_mesh.members.key_at(i);
            if !self.group_mesh.relay_synced.contains_key(group_id.as_str()) {
                effects.push(Effect::ResyncGroup { group_id: group_id.clone() });
                assert(effects@ =~= old(effects)@ + resyncs(
                    all.take(i + 1),
                    self.group_mesh@.synced,
                ));
            }
            i = i + 1;
        }
        assert(all.take(i as int) =~= all);
    }

    /// Clears what was known of a relay that is gone.
    fn drop_relay_state(&mut self, effects: &mut Effects)
        requires
            old(self).group_mesh@.wf(),
        ensures
            final(self).group_mesh@.wf(),
            final(self).same_node(old(self)),
            final(self).group_mesh@ == (MeshView {
                synced: Seq::empty(),
                registering: Seq::empty(),
                capabilities: Seq::empty(),
                broadcasts: Seq::empty(),
                ..old(self).group_mesh@
            }),
            final(effects)@ == old(effects)@ + (synced_drops(old(self).group_mesh@.synced)
                + pending_drops(old(self).group_mesh@.registering, old(self).group_mesh@.synced)
                + downgrades(old(self).group_mesh@.broadcasts)),
    {
        let ghost synced = self.group_mesh@.synced;
        let ghost registering = self.group_mesh@.registering;
        let ghost broadcasts = self.group_mesh@.broadcasts;
        let mut i: usize = 0;
        assert(effects@ =~= old(effects)@ + synced_drops(synced.take(0)));
        while i < self.group_mesh.relay_synced.len()
            invariant
                i <= synced.len(),
                synced == self.group_mesh@.synced,
                effects@ == old(effects)@ + synced_drops(synced.take(i as int)),
            decreases synced.len() - i,
        {
            effects.notify(
                Notice::RelayUnsynced {
                    group_id: self.group_mesh.relay_synced.key_at(i).clone(),
                    reason: SyncReason::InternetDropped,
                },
            );
            assert(effects@ =~= old(effects)@ + synced_drops(synced.take(i + 1)));
            i = i + 1;
        }
        assert(synced.take(i as int) =~= synced);
        let ghost first = effects@;
        let mut i: usize = 0;
        assert(registering.take(0) =~= Seq::empty());
        assert(effects@ =~= first + pending_drops(registering.take(0), synced));
        while i < self.group_mesh.relay_register_pending.len()
            invariant
                i <= registering.len(),
                self.group_mesh@.wf(),
                synced == self.group_mesh@.synced,
                registering == self.group_mesh@.registering,
                effects@ == first + pending_drops(registering.take(i as int), synced),
            decreases registering.len() - i,
        {
            proof {
                assert(registering.take(i + 1).drop_last() =~= registering.take(i as int));
                assert(registering.take(i + 1).last() == registering[i as int]);
            }
            let group_id = self.group_mesh.relay_register_pending.key_at(i);
            if !self.group_mesh.relay_synced.contains_key(group_id.as_str()) {
                effects.notify(
                    Notice::RelayUnsynced {
                        group_id: group_id.clone(),
                        reason: SyncReason::InternetDropped,
                    },
                );
                assert(effects@ =~= first + pending_drops(registering.take(i + 1), synced));
            }
            i = i + 1;
        }
        assert(registering.take(i as int) =~= registering);
        let ghost second = effects@;
        self.group_mesh.relay_synced = StrMap::new();
        self.group_mesh.relay_register_pending = StrMap::new();
        self.group_mesh.relay_capabilities = Vec::new();
        assert(self.group_mesh.relay_capabilities.deep_view() =~= Seq::empty());
        let mut stranded: StrMap<RelayBroadcastPending> = StrMap::new();
        std::mem::swap(&mut stranded, &mut self.group_mesh.relay_broadcast_pending);
        let ghost mut done: int = 0;
        assert(broadcasts.skip(0) =~= broadcasts);
        assert(effects@ =~= second + downgrades(broadcasts.take(0)));
        while stranded.len() > 0
            invariant
                0 <= done <= broadcasts.len(),
                stranded@ == broadcasts.skip(done),
                effects@ == second + downgrades(broadcasts.take(done)),
            decreases stranded@.len(),
        {
            let (message_id, pending) = stranded.remove_at(0);
            assert(broadcasts.skip(done)[0] == broadcasts[done]);
            effects.push(Effect::DowngradeBroadcast { message_id, pending });
            proof {
                assert(broadcasts.skip(done).remove(0) =~= broadcasts.skip(done + 1));
                assert(effects@ =~= second + downgrades(broadcasts.take(done + 1)));
                done = done + 1;
            }
        }
        proof {
            assert(done == broadcasts.len());
            assert(broadcasts.take(done) =~= broadcasts);
            assert(effects@ =~= old(effects)@ + (synced_drops(synced) + pending_drops(
                registering,
                synced,
            ) + downgrades(broadcasts)));
        }
    }

    /// Registers a group with its members refreshed from MLS, or else as cached.
    pub fn resync_group(
        &mut self,
        group_id: &str,
        info: &Result<Option<GroupInfo>, Error>,
        effects: &mut Effects,
    )
        requires
            old(self).group_mesh@.wf(),
        ensures
            final(self).group_mesh@.wf(),
            final(self).same_node(old(self)),
            final(self).group_mesh@ == old(self).group_mesh@.refreshed(group_id@, told(*info)),
            final(effects)@ == (match old(self).group_mesh@.roster(group_id@, told(*info)) {
                Some(members) => old(effects)@.push(
                    EffectView::RegisterWithRelay {
                        group_id: group_id@,
                        group_name: None,
                        members,
                    },
                ),
                None => old(effects)@,
            }),
    {
        if let Some(members) = self.group_mesh.current_members(group_id, info) {
            effects.push(
                Effect::RegisterWithRelay {
                    group_id: group_id.to_owned(),
                    group_name: None,
                    members,
                },
            );
        }
    }

    /// Expires registrations that the relay never answered: each is sent again
    /// or, past its attempts, given up, so that no acceptance window stays open.
    pub fn process_relay_register_retries(
        &mut self,
        internet: bool,
        wall: i64,
        effects: &mut Effects,
    )
        requires
            old(self).group_mesh@.wf(),
        ensures
            final(self).group_mesh@.wf(),
            final(self).same_node(old(self)),
            old(self).settings.relay_enabled && internet ==> {
                &&& final(self).group_mesh@ == (MeshView {
                    registering: registrations_kept(old(self).group_mesh@, wall),
                    ..old(self).group_mesh@
                })
                &&& final(effects)@ == old(effects)@ + registration_ticks(
                    old(self).group_mesh@,
                    old(self).group_mesh@.registering,
                    wall,
                )
            },
            !(old(self).settings.relay_enabled && internet) ==> final(self).group_mesh@ == old(
                self,
            ).group_mesh@ && final(effects)@ == old(effects)@,
    {
        if !self.settings.relay_enabled || !internet {
            return;
        }
        let ghost mesh = self.group_mesh@;
        let ghost all = self.group_mesh@.registering;
        let mut i: usize = 0;
        assert(all.take(0) =~= Seq::empty());
        assert(effects@ =~= old(effects)@ + registration_ticks(mesh, all.take(0), wall));
        while i < self.group_mesh.relay_register_pending.len()
            invariant
                i <= all.len(),
                mesh == self.group_mesh@,
                all == self.group_mesh@.registering,
                self.group_mesh@.wf(),
                effects@ == old(effects)@ + registration_ticks(mesh, all.take(i as int), wall),
            decreases all.len() - i,
        {
            let ghost out = effects@;
            proof {
                assert(all.take(i + 1).drop_last() =~= all.take(i as int));
                assert(all.take(i + 1).last() == all[i as int]);
            }
            let group_id = self.group_mesh.relay_register_pending.key_at(i);
            let pending = self.group_mesh.relay_register_pending.value_at(i);
            if has_lapsed(pending.armed_at, wall, RELAY_REGISTER_ACK_TIMEOUT_SECS) {
                let cached = self.group_mesh.members.contains_key(group_id.as_str());
                let synced = self.group_mesh.relay_synced.contains_key(group_id.as_str());
                if pending.attempts < RELAY_REGISTER_MAX_ATTEMPTS && cached && !synced {
                    effects.push(Effect::ResyncGroup { group_id: group_id.clone() });
                } else if cached && !synced {
                    effects.notify(
                        Notice::RelayUnsynced {
                            group_id: group_id.clone(),
                            reason: SyncReason::AckTimeout,
                        },
                    );
                }
            }
            assert(effects@ =~= out + registration_tick(
                mesh,
                all[i as int].0,
                all[i as int].1,
                wall,
            ));
            assert(effects@ =~= old(effects)@ + registration_ticks(mesh, all.take(i + 1), wall));
            i = i + 1;
        }
        assert(all.take(i as int) =~= all);
        let ghost keep = |e: (Seq<char>, RelayRegisterPendingView)|
            !(registration_due(e.1, wall) && given_up(mesh, e.0, e.1));
        proof {
            reveal(Seq::filter);
            assert(all.skip(i as int) =~= Seq::empty());
            assert(all.take(i as int) + all.skip(i as int).filter(keep) =~= all);
        }
        while i > 0
            invariant
                i <= all.len(),
                keep == (|e: (Seq<char>, RelayRegisterPendingView)|
                    !(registration_due(e.1, wall) && given_up(mesh, e.0, e.1))),
                mesh.wf(),
                self.same_node(old(self)),
                self.group_mesh@ == (MeshView { registering: self.group_mesh@.registering, ..mesh }),
                self.group_mesh@.registering == all.take(i as int) + all.skip(i as int).filter(
                    keep,
                ),
            decreases i,
        {
            i = i - 1;
            let ghost before = self.group_mesh@.registering;
            assert(before[i as int] == all[i as int]);
            proof {
                assert(all.skip(i as int) =~= seq![all[i as int]] + all.skip(i + 1));
                lemma_filter_front(all[i as int], all.skip(i + 1), keep);
            }
            let group_id = self.group_mesh.relay_register_pending.key_at(i);
            let pending = self.group_mesh.relay_register_pending.value_at(i);
            if has_lapsed(pending.armed_at, wall, RELAY_REGISTER_ACK_TIMEOUT_SECS) && (
            pending.attempts >= RELAY_REGISTER_MAX_ATTEMPTS || !self.group_mesh.members.contains_key(
                group_id.as_str(),
            ) || self.group_mesh.relay_synced.contains_key(group_id.as_str())) {
                let _ = self.group_mesh.relay_register_pending.remove_at(i);
            }
            assert(self.group_mesh@.registering =~= all.take(i as int) + all.skip(
                i as int,
            ).filter(keep));
        }
        proof {
            assert(all.skip(0) =~= all);
            assert(self.group_mesh@.registering =~= all.filter(keep));
            assoc::lemma_filter_distinct(all, keep);
        }
    }

    /// Expires broadcasts whose delivery report never came: each is taken off the
    /// tracker, and sent again or downgraded to per-member copies.
    pub fn process_relay_broadcast_report_timeouts(
        &mut self,
        internet: bool,
        wall: i64,
        effects: &mut Effects,
    )
        requires
            old(self).group_mesh@.wf(),
        ensures
            final(self).group_mesh@.wf(),
            final(self).same_node(old(self)),
            final(self).group_mesh@ == (MeshView {
                broadcasts: broadcasts_kept(old(self).group_mesh@.broadcasts, wall),
                ..old(self).group_mesh@
            }),
            final(effects)@ == old(effects)@ + broadcast_ticks(
                old(self).group_mesh@,
                old(self).settings,
                old(self).group_mesh@.broadcasts,
                internet,
                wall,
            ),
    {
        let ghost mesh = self.group_mesh@;
        let ghost all = mesh.broadcasts;
        let ghost keep = |e: (Seq<char>, RelayBroadcastPendingView)| !broadcast_due(e.1, wall);
        let mut i: usize = 0;
        let ghost mut done: int = 0;
        proof {
            reveal(Seq::filter);
            assert(all.take(0) =~= Seq::empty());
            assert(all.take(0).filter(keep) =~= Seq::empty());
            assert(all.take(0).filter(keep) + all.skip(0) =~= all);
            assert(effects@ =~= old(effects)@ + broadcast_ticks(
                mesh,
                self.settings,
                all.take(0),
                internet,
                wall,
            ));
        }
        while i < self.group_mesh.relay_broadcast_pending.len()
            invariant
                0 <= done <= all.len(),
                i == all.take(done).filter(keep).len(),
                all == mesh.broadcasts,
                mesh.wf(),
                keep == (|e: (Seq<char>, RelayBroadcastPendingView)| !broadcast_due(e.1, wall)),
                self.same_node(old(self)),
                self.group_mesh@ == (MeshView { broadcasts: self.group_mesh@.broadcasts, ..mesh }),
                self.group_mesh@.broadcasts == all.take(done).filter(keep) + all.skip(done),
                effects@ == old(effects)@ + broadcast_ticks(
                    mesh,
                    self.settings,
                    all.take(done),
                    internet,
                    wall,
                ),
            decreases all.len() - done,
        {
            let ghost out = effects@;
            proof {
                reveal(Seq::filter);
                assert(self.group_mesh@.broadcasts[i as int] == all.skip(done)[0]);
                assert(all.take(done + 1).drop_last() =~= all.take(done));
                assert(all.take(done + 1).last() == all[done]);
            }
            let armed_at: i64 = self.group_mesh.relay_broadcast_pending.value_at(i).armed_at;
            if has_lapsed(armed_at, wall, RELAY_BROADCAST_REPORT_TIMEOUT_SECS) {
                let ghost before = self.group_mesh@.broadcasts;
                let (message_id, pending) = self.group_mesh.relay_broadcast_pending.remove_at(i);
                assert(self.group_mesh@.broadcasts =~= all.take(done + 1).filter(keep)
                    + all.skip(done + 1));
                let again: bool = pending.attempts < RELAY_BROADCAST_MAX_ATTEMPTS
                    && self.settings.relay_broadcast_enabled
                    && self.group_mesh.relay_synced.contains_key(pending.group_id.as_str())
                    && lists(&self.group_mesh.relay_capabilities, RELAY_CAP_GROUP_DELIVERY_V3)
                    && internet;
                if again {
                    effects.push(Effect::ResendBroadcast { message_id, pending });
                } else {
                    effects.push(Effect::DowngradeBroadcast { message_id, pending });
                }
            } else {
                assert(self.group_mesh@.broadcasts =~= all.take(done + 1).filter(keep)
                    + all.skip(done + 1));
                i = i + 1;
            }
            proof {
                assert(effects@ =~= out + broadcast_tick(
                    mesh,
                    self.settings,
                    all[done].0,
                    all[done].1,
                    internet,
                    wall,
                ));
                assert(effects@ =~= old(effects)@ + broadcast_ticks(
                    mesh,
                    self.settings,
                    all.take(done + 1),
                    internet,
                    wall,
                ));
                done = done + 1;
            }
        }
        proof {
            assert(done == all.len());
            assert(all.take(done) =~= all);
            assert(self.group_mesh@.broadcasts =~= all.filter(keep));
            assoc::lemma_filter_distinct(all, keep);
        }
    }

    /// Settles a broadcast that was sent again: it is tracked anew, or downgraded
    /// where the send failed.
    pub fn broadcast_resent(
        &mut self,
        message_id: &str,
        pending: RelayBroadcastPending,
        sent: bool,
        wall: i64,
        effects: &mut Effects,
    )
        requires
            old(self).group_mesh@.wf(),
            pending.attempts < RELAY_BROADCAST_MAX_ATTEMPTS,
        ensures
            final(self).group_mesh@.wf(),
            final(self).same_node(old(self)),
            final(self).group_mesh@ == old(self).group_mesh@.broadcast_retried(
                message_id@,
                pending.deep_view(),
                sent,
                wall,
            ),
            final(effects)@ == old(effects)@ + retrying_broadcast(
                message_id@,
                pending.deep_view(),
                sent,
            ),
    {
        if sent {
            let mut pending = pending;
            pending.attempts = pending.attempts + 1;
            pending.armed_at = wall;
            let _ = self.group_mesh.relay_broadcast_pending.insert(
                message_id.to_owned(),
                pending,
            );
        } else {
            effects.push(
                Effect::DowngradeBroadcast { message_id: message_id.to_owned(), pending },
            );
        }
        assert(effects@ =~= old(effects)@ + retrying_broadcast(
            message_id@,
            pending.deep_view(),
            sent,
        ));
    }
}

} // verus!
