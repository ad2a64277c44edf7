//! The relay as an optimization: registering groups with it, tracking what it
//! acknowledges, and backing its broadcasts with per-member copies.

use vstd::prelude::*;

use crate::assoc;
use crate::error::{told, Error, ErrorView};
use crate::events::{copy_text, copy_texts};
use crate::group_mesh::dated::SECOND;
use crate::group_mesh::effect::{
    Effect, EffectView, Effects, GroupFrame, GroupFrameView, Notice, NoticeView,
};
use crate::group_mesh::limits::{MAX_RELAY_CAPABILITIES, MAX_RELAY_CAPABILITY_TOKEN_BYTES};
use crate::group_mesh::roles::{
    admin_hint, group_metadata_or_not_found, hint_of, overlay, GroupReads, GroupReadsView,
};
use crate::group_mesh::state::{GroupSettings, MeshView, OfflineProtocol};
use crate::group_mesh::types::{
    copy_forward, GroupInfo, GroupMlsMessagePayload, GroupMlsMessagePayloadView,
    RelayBroadcastPending, RelayBroadcastPendingView, RelayGroupBroadcastPayload,
    RelayGroupBroadcastPayloadView, RelayGroupDeliveryReport, RelayGroupDeliveryReportView,
    RelayGroupRegistrationPayload, RelayGroupRegistrationPayloadView, RelayRegisterPending,
    RelayRegisterPendingView, RelaySyncState,
};
use crate::rosters::{each_once, once, others, unlisted, unlisted_in, without};
use crate::text::str_eq;

verus! {

/// A token that is kept: not empty, and not too long.
pub open spec fn keepable(token: Seq<char>) -> bool {
    token.len() > 0 && vstd::utf8::encode_utf8(token).len() <= MAX_RELAY_CAPABILITY_TOKEN_BYTES
}

/// The capability tokens that are stored of an advertised list: the first
/// keepable ones, each once.
pub open spec fn stored_capabilities(advertised: Seq<Seq<char>>) -> Seq<Seq<char>> {
    let kept = advertised.filter(|t: Seq<char>| keepable(t));
    once(
        if kept.len() > MAX_RELAY_CAPABILITIES {
            kept.take(MAX_RELAY_CAPABILITIES as int)
        } else {
            kept
        },
    )
}

/// The relay-side registration state of a group. A confirmed registration wins
/// over one in flight.
pub open spec fn sync_state(mesh: MeshView, group: Seq<char>) -> RelaySyncState {
    if assoc::known(mesh.synced, group) {
        RelaySyncState::Synced
    } else if assoc::known(mesh.registering, group) {
        RelaySyncState::Pending
    } else {
        RelaySyncState::Unsynced
    }
}

/// A timer armed at `armed_at` has run for `secs` seconds of wall-clock time.
pub open spec fn lapsed(armed_at: i64, wall: i64, secs: i64) -> bool {
    armed_at <= wall - secs * SECOND
}

/// Whether a timer has run out.
pub fn has_lapsed(armed_at: i64, wall: i64, secs: i64) -> (r: bool)
    ensures
        r == lapsed(armed_at, wall, secs),
{
    (armed_at as i128) <= (wall as i128) - (secs as i128) * 1_000_000_000i128
}

/// The admin hint in a registration: what the role overlay says for certain.
pub open spec fn registration_hint(
    reads: GroupReadsView,
    group: Seq<char>,
    me: Seq<char>,
) -> Option<bool> {
    match overlay(reads, group) {
        Ok(m) => admin_hint(m, me),
        Err(_) => None,
    }
}

/// The registration frame of a group.
pub open spec fn registration_frame(
    group: Seq<char>,
    name: Option<Seq<char>>,
    members: Seq<Seq<char>>,
    hint: Option<bool>,
) -> RelayGroupRegistrationPayloadView {
    RelayGroupRegistrationPayloadView {
        group_id: group,
        group_name: name,
        members,
        is_admin: hint,
    }
}

/// What a request for registration leads to.
#[derive(Debug, PartialEq, Eq)]
pub enum RegistrationStep {
    /// The group is synced already.
    Synced,
    /// Relay grouping is off, or the internet is not available.
    Unavailable,
    /// Send this registration.
    Send(RelayGroupRegistrationPayload),
}

/// What a [`RegistrationStep`] says.
pub enum RegistrationStepView {
    Synced,
    Unavailable,
    Send(RelayGroupRegistrationPayloadView),
}

impl DeepView for RegistrationStep {
    type V = RegistrationStepView;

    open spec fn deep_view(&self) -> RegistrationStepView {
        match self {
            RegistrationStep::Synced => RegistrationStepView::Synced,
            RegistrationStep::Unavailable => RegistrationStepView::Unavailable,
            RegistrationStep::Send(p) => RegistrationStepView::Send(p.deep_view()),
        }
    }
}

/// What a request for registration leads to, or that the group is unknown.
pub open spec fn registration_step(
    mesh: MeshView,
    settings: GroupSettings,
    me: Seq<char>,
    group: Seq<char>,
    internet: bool,
    reads: GroupReadsView,
) -> Result<RegistrationStepView, ErrorView> {
    if assoc::known(mesh.synced, group) {
        Ok(RegistrationStepView::Synced)
    } else {
        match mesh.roster(group, reads.info) {
            None => Err(ErrorView::GroupNotFound(group)),
            Some(members) => if settings.relay_enabled && internet {
                Ok(
                    RegistrationStepView::Send(
                        registration_frame(
                            group,
                            None,
                            members,
                            registration_hint(reads, group, me),
                        ),
                    ),
                )
            } else {
                Ok(RegistrationStepView::Unavailable)
            },
        }
    }
}

impl MeshView {
    /// The state after a registration frame was sent: its acknowledgment is
    /// awaited, and the attempts are counted.
    pub open spec fn registration_armed(self, group: Seq<char>, wall: i64) -> MeshView {
        let attempts: u32 = match assoc::lookup(self.registering, group) {
            Some(p) => if p.attempts < u32::MAX {
                (p.attempts + 1) as u32
            } else {
                p.attempts
            },
            None => 1,
        };
        MeshView {
            registering: assoc::put(
                self.registering,
                group,
                RelayRegisterPendingView { armed_at: wall, attempts },
            ),
            ..self
        }
    }
}

impl OfflineProtocol {
    /// The relay-side registration state of a group.
    pub fn group_relay_sync_state(&self, group_id: &str) -> (r: RelaySyncState)
        requires
            self.group_mesh@.wf(),
        ensures
            r == sync_state(self.group_mesh@, group_id@),
    {
        if self.group_mesh.relay_synced.contains_key(group_id) {
            RelaySyncState::Synced
        } else if self.group_mesh.relay_register_pending.contains_key(group_id) {
            RelaySyncState::Pending
        } else {
            RelaySyncState::Unsynced
        }
    }

    /// Replaces the capability tokens that the connected relay advertised. The
    /// list comes off the wire, so it is bounded in number and in size.
    pub fn set_relay_capabilities(&mut self, capabilities: Vec<String>)
        requires
            old(self).group_mesh@.wf(),
        ensures
            final(self).group_mesh@.wf(),
            final(self).same_node(old(self)),
            final(self).group_mesh@ == (MeshView {
                capabilities: stored_capabilities(capabilities.deep_view()),
                ..old(self).group_mesh@
            }),
    {
        let ghost all = capabilities.deep_view();
        let ghost keep = |t: Seq<char>| keepable(t);
        let mut kept: Vec<String> = Vec::new();
        let mut i: usize = 0;
        proof {
            reveal(Seq::filter);
            assert(all.take(0).filter(keep) =~= Seq::empty());
            assert(kept.deep_view() =~= Seq::empty());
        }
        while i < capabilities.len()
            invariant
                i <= capabilities@.len(),
                all == capabilities.deep_view(),
                keep == (|t: Seq<char>| keepable(t)),
                kept.deep_view() == all.take(i as int).filter(keep),
            decreases capabilities@.len() - i,
        {
            let ghost before = kept.deep_view();
            let token = &capabilities[i];
            proof {
                reveal(Seq::filter);
                assert(all.take(i + 1).drop_last() =~= all.take(i as int));
                assert(all.take(i + 1).last() == token@);
            }
            if !token.as_str().is_empty() && token.as_str().as_bytes().len()
                <= MAX_RELAY_CAPABILITY_TOKEN_BYTES {
                kept.push(token.clone());
                assert(kept.deep_view() =~= before.push(token@));
            }
            i = i + 1;
        }
        assert(all.take(i as int) =~= all);
        let ghost whole = kept.deep_view();
        assert(whole.len() == kept@.len());
        if kept.len() > MAX_RELAY_CAPABILITIES {
            kept.truncate(MAX_RELAY_CAPABILITIES);
            assert(kept.deep_view() =~= whole.take(MAX_RELAY_CAPABILITIES as int));
        }
        self.group_mesh.relay_capabilities = each_once(&kept);
    }

    /// The registration frame of a group, where one is to be sent: relay grouping
    /// is on and the internet is available. Sending it proves nothing about the
    /// relay, so it never marks the group as synced.
    pub fn try_relay_register_group(
        &self,
        group_id: &str,
        group_name: &Option<String>,
        members: &Vec<String>,
        internet: bool,
        reads: GroupReads,
    ) -> (r: Option<RelayGroupRegistrationPayload>)
        ensures
            r.deep_view() == (if self.settings.relay_enabled && internet {
                Some(
                    registration_frame(
                        group_id@,
                        group_name.deep_view(),
                        members.deep_view(),
                        registration_hint(reads.deep_view(), group_id@, self.local_id@),
                    ),
                )
            } else {
                None
            }),
    {
        if !self.settings.relay_enabled || !internet {
            return None;
        }
        let is_admin: Option<bool> = match group_metadata_or_not_found(reads, group_id) {
            Ok(metadata) => hint_of(&metadata, self.local_id.as_str()),
            Err(_) => None,
        };
        Some(
            RelayGroupRegistrationPayload {
                group_id: group_id.to_owned(),
                group_name: copy_text(group_name),
                members: copy_texts(members),
                is_admin,
            },
        )
    }

    /// Records whether a registration frame was sent, and hands that back.
    pub fn relay_registration_sent(&mut self, group_id: &str, sent: bool, wall: i64) -> (r: bool)
        requires
            old(self).group_mesh@.wf(),
        ensures
            final(self).group_mesh@.wf(),
            final(self).same_node(old(self)),
            r == sent,
            final(self).group_mesh@ == (if sent {
                old(self).group_mesh@.registration_armed(group_id@, wall)
            } else {
                old(self).group_mesh@
            }),
    {
        if sent {
            let before: u32 = match self.group_mesh.relay_register_pending.get(group_id) {
                Some(pending) => pending.attempts,
                None => 0,
            };
            let attempts: u32 = if before < u32::MAX {
                before + 1
            } else {
                before
            };
            let _ = self.group_mesh.relay_register_pending.insert(
                group_id.to_owned(),
                RelayRegisterPending { armed_at: wall, attempts },
            );
        }
        sent
    }

    /// Registers a group with the relay on demand. A synced group needs nothing;
    /// an unknown one is an error.
    pub fn request_group_relay_registration(
        &mut self,
        group_id: &str,
        internet: bool,
        reads: GroupReads,
    ) -> (r: Result<RegistrationStep, Error>)
        requires
            old(self).group_mesh@.wf(),
        ensures
            final(self).group_mesh@.wf(),
            final(self).same_node(old(self)),
            told(r) == registration_step(
                old(self).group_mesh@,
                old(self).settings,
                old(self).local_id@,
                group_id@,
                internet,
                reads.deep_view(),
            ),
            final(self).group_mesh@ == (if assoc::known(old(self).group_mesh@.synced, group_id@) {
                old(self).group_mesh@
            } else {
                old(self).group_mesh@.refreshed(group_id@, reads.deep_view().info)
            }),
    {
        if self.group_mesh.relay_synced.contains_key(group_id) {
            return Ok(RegistrationStep::Synced);
        }
        match self.group_mesh.current_members(group_id, &reads.info) {
            None => Err(Error::GroupNotFound(group_id.to_owned())),
            Some(members) => {
                match self.try_relay_register_group(group_id, &None, &members, internet, reads) {
                    Some(payload) => Ok(RegistrationStep::Send(payload)),
                    None => Ok(RegistrationStep::Unavailable),
                }
            },
        }
    }
}

/// A group message as a per-member copy of a relay broadcast.
pub open spec fn reissue(message_id: Seq<char>, pending: RelayBroadcastPendingView) -> GroupMlsMessagePayloadView {
    GroupMlsMessagePayloadView {
        group_id: pending.group_id,
        ciphertext: pending.ciphertext_b64,
        epoch: pending.epoch,
        reply_to: pending.reply_to,
        forward_info: pending.forward_info,
        message_id: Some(message_id),
    }
}

/// A per-member copy of a relay broadcast. It carries the logical id, so that
/// whoever has the relay's copy absorbs it.
pub fn reissue_frame(message_id: &str, pending: &RelayBroadcastPending) -> (r:
    GroupMlsMessagePayload)
    ensures
        r.deep_view() == reissue(message_id@, pending.deep_view()),
{
    GroupMlsMessagePayload {
        group_id: pending.group_id.clone(),
        ciphertext: pending.ciphertext_b64.clone(),
        epoch: pending.epoch,
        reply_to: copy_text(&pending.reply_to),
        forward_info: copy_forward(&pending.forward_info),
        message_id: Some(message_id.to_owned()),
    }
}

/// A broadcast frame, for the first send and for every re-send alike.
pub open spec fn broadcast(message_id: Seq<char>, pending: RelayBroadcastPendingView) -> RelayGroupBroadcastPayloadView {
    RelayGroupBroadcastPayloadView {
        group_id: pending.group_id,
        ciphertext: pending.ciphertext_b64,
        epoch: pending.epoch,
        reply_to: pending.reply_to,
        forward_info: pending.forward_info,
        message_id,
    }
}

/// A broadcast frame, for the first send and for every re-send alike.
pub fn broadcast_frame(message_id: &str, pending: &RelayBroadcastPending) -> (r:
    RelayGroupBroadcastPayload)
    ensures
        r.deep_view() == broadcast(message_id@, pending.deep_view()),
{
    RelayGroupBroadcastPayload {
        group_id: pending.group_id.clone(),
        ciphertext: pending.ciphertext_b64.clone(),
        epoch: pending.epoch,
        reply_to: copy_text(&pending.reply_to),
        forward_info: copy_forward(&pending.forward_info),
        message_id: message_id.to_owned(),
    }
}

/// The members that a settled broadcast did not reach: everybody on the roster
/// but this node who is neither delivered nor pushed. Not being mentioned reads
/// as not being reached.
pub open spec fn missed(
    me: Seq<char>,
    members: Seq<Seq<char>>,
    report: RelayGroupDeliveryReportView,
) -> Seq<Seq<char>> {
    unlisted(without(members, me), report.delivered + report.pushed)
}

/// The report answers a broadcast in flight.
pub open spec fn answers(mesh: MeshView, report: RelayGroupDeliveryReportView) -> bool {
    match assoc::lookup(mesh.broadcasts, report.message_id) {
        Some(pending) => pending.group_id == report.group_id,
        None => false,
    }
}

/// What a report settles: the broadcast in flight that it answers, and whom the
/// relay did not reach with it.
pub open spec fn settled_by(
    mesh: MeshView,
    me: Seq<char>,
    members: Seq<Seq<char>>,
    report: RelayGroupDeliveryReportView,
) -> Option<(RelayBroadcastPendingView, Seq<Seq<char>>)> {
    if answers(mesh, report) {
        Some((assoc::at(mesh.broadcasts, report.message_id), missed(me, members, report)))
    } else {
        None
    }
}

/// A broadcast that a report settled.
#[derive(Debug, PartialEq, Eq)]
pub struct SettledBroadcast {
    /// What was broadcast.
    pub pending: RelayBroadcastPending,
    /// Whom the relay did not reach.
    pub missed: Vec<String>,
}

/// The recipients that were sent to, in order.
pub open spec fn reached_by(recipients: Seq<Seq<char>>, replies: Seq<Option<Seq<char>>>) -> Seq<
    Seq<char>,
>
    decreases recipients.len(),
{
    if recipients.len() == 0 {
        Seq::empty()
    } else {
        let rest = reached_by(recipients.drop_last(), replies);
        let i = recipients.len() - 1;
        if i < replies.len() && replies[i] is Some {
            rest.push(recipients[i])
        } else {
            rest
        }
    }
}

/// The recipients that were sent to.
pub fn sent_to(recipients: &Vec<String>, replies: &Vec<Option<String>>) -> (r: Vec<String>)
    ensures
        r.deep_view() == reached_by(recipients.deep_view(), replies.deep_view()),
{
    let mut r: Vec<String> = Vec::new();
    let mut i: usize = 0;
    let ghost all = recipients.deep_view();
    assert(all.take(0) =~= Seq::empty());
    assert(r.deep_view() =~= Seq::empty());
    while i < recipients.len()
        invariant
            i <= recipients@.len(),
            all == recipients.deep_view(),
            r.deep_view() == reached_by(all.take(i as int), replies.deep_view()),
        decreases recipients@.len() - i,
    {
        let ghost before = r.deep_view();
        proof {
            assert(all.take(i + 1).drop_last() =~= all.take(i as int));
            assert(all.take(i + 1)[i as int] == recipients[i as int]@);
            assert(replies.deep_view().len() == replies@.len());
        }
        if i < replies.len() {
            assert(replies.deep_view()[i as int] == replies@[i as int].deep_view());
            if replies[i].is_some() {
                r.push(recipients[i].clone());
                assert(r.deep_view() =~= before.push(recipients[i as int]@));
            }
        }
        i = i + 1;
    }
    assert(all.take(i as int) =~= all);
    r
}

impl OfflineProtocol {
    /// Settles the broadcast that a delivery report answers, and says whom the
    /// relay did not reach. A report that answers nothing, or that names another
    /// group, is ignored.
    pub fn handle_relay_group_delivery_report(
        &mut self,
        report: &RelayGroupDeliveryReport,
        info: &Result<Option<GroupInfo>, Error>,
    ) -> (r: Option<SettledBroadcast>)
        requires
            old(self).group_mesh@.wf(),
        ensures
            final(self).group_mesh@.wf(),
            final(self).same_node(old(self)),
            match r {
                Some(settled) => {
                    &&& answers(old(self).group_mesh@, report.deep_view())
                    &&& settled.pending.deep_view() == assoc::at(
                        old(self).group_mesh@.broadcasts,
                        report.message_id@,
                    )
                    &&& settled.missed.deep_view() == missed(
                        old(self).local_id@,
                        old(self).group_mesh@.known_members(report.group_id@, told(*info)),
                        report.deep_view(),
                    )
                    &&& final(self).group_mesh@ == (MeshView {
                        broadcasts: assoc::del(
                            old(self).group_mesh@.broadcasts,
                            report.message_id@,
                        ),
                        ..old(self).group_mesh@.refreshed(report.group_id@, told(*info))
                    })
                },
                None => !answers(old(self).group_mesh@, report.deep_view())
                    && final(self).group_mesh@ == old(self).group_mesh@,
            },
            settled_by(
                old(self).group_mesh@,
                old(self).local_id@,
                old(self).group_mesh@.known_members(report.group_id@, told(*info)),
                report.deep_view(),
            ) == (match r {
                Some(settled) => Some((settled.pending.deep_view(), settled.missed.deep_view())),
                None => None,
            }),
    {
        match self.group_mesh.relay_broadcast_pending.get(report.message_id.as_str()) {
            None => {
                return None;
            },
            Some(entry) => {
                if !str_eq(entry.group_id.as_str(), report.group_id.as_str()) {
                    return None;
                }
            },
        }
        match self.group_mesh.relay_broadcast_pending.remove(report.message_id.as_str()) {
            None => None,
            Some(pending) => {
                let members = match self.group_mesh.current_members(
                    report.group_id.as_str(),
                    info,
                ) {
                    Some(members) => members,
                    None => Vec::new(),
                };
                assert(members.deep_view() =~= old(self).group_mesh@.known_members(
                    report.group_id@,
                    told(*info),
                ));
                let mut reached = copy_texts(&report.delivered);
                let mut pushed = copy_texts(&report.pushed);
                reached.append(&mut pushed);
                assert(reached.deep_view() =~= report.delivered.deep_view()
                    + report.pushed.deep_view());
                let rest = others(&members, self.local_id.as_str());
                let missed = unlisted_in(&rest, &reached);
                Some(SettledBroadcast { pending, missed })
            },
        }
    }

    /// Ends a settled broadcast whose per-member copies are out.
    pub fn delivery_report_settled(
        report: RelayGroupDeliveryReport,
        missed: &Vec<String>,
        replies: &Vec<Option<String>>,
        effects: &mut Effects,
    )
        ensures
            final(effects)@ == old(effects)@.push(
                EffectView::Notify(
                    NoticeView::DeliveryReport {
                        group_id: report.group_id@,
                        message_id: report.message_id@,
                        delivered: report.delivered.deep_view(),
                        pushed: report.pushed.deep_view(),
                        missed_reissued: reached_by(missed.deep_view(), replies.deep_view()),
                    },
                ),
            ),
    {
        let missed_reissued = sent_to(missed, replies);
        effects.notify(
            Notice::DeliveryReport {
                group_id: report.group_id,
                message_id: report.message_id,
                delivered: report.delivered,
                pushed: report.pushed,
                missed_reissued,
            },
        );
    }

    /// Downgrades a broadcast to per-member copies for the whole roster. This ends
    /// the broadcast: the copies own delivery from here on.
    pub fn downgrade_broadcast_to_per_member(
        &mut self,
        message_id: &str,
        pending: &RelayBroadcastPending,
        info: &Result<Option<GroupInfo>, Error>,
        effects: &mut Effects,
    )
        requires
            old(self).group_mesh@.wf(),
        ensures
            final(self).group_mesh@.wf(),
            final(self).same_node(old(self)),
            final(self).group_mesh@ == old(self).group_mesh@.refreshed(
                pending.group_id@,
                told(*info),
            ),
            final(effects)@ == old(effects)@.push(
                EffectView::Send {
                    recipients: without(
                        old(self).group_mesh@.known_members(pending.group_id@, told(*info)),
                        old(self).local_id@,
                    ),
                    frame: GroupFrameView::Message(reissue(message_id@, pending.deep_view())),
                    priority: pending.priority,
                },
            ),
    {
        let members = match self.group_mesh.current_members(pending.group_id.as_str(), info) {
            Some(members) => members,
            None => Vec::new(),
        };
        assert(members.deep_view() =~= old(self).group_mesh@.known_members(
            pending.group_id@,
            told(*info),
        ));
        effects.push(
            Effect::Send {
                recipients: others(&members, self.local_id.as_str()),
                frame: GroupFrame::Message(reissue_frame(message_id, pending)),
                priority: pending.priority,
            },
        );
    }
}

} // verus!
