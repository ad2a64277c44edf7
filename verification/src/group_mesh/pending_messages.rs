//! Trying buffered group messages again once local group state has advanced.

use vstd::prelude::*;
use vstd::utf8::{decode_utf8, valid_utf8};

use crate::assoc;
use crate::group_mesh::buffer::queue_of;
use crate::group_mesh::commits::{base64_decode, payload_bytes};
use crate::group_mesh::dated::{age, age_of};
use crate::group_mesh::effect::{ChangeReason, Effect, EffectView, Effects, Notice};
use crate::group_mesh::limits::{nanos, nanos_of, PENDING_GROUP_MESSAGE_TTL_SECS};
use crate::group_mesh::messages::{
    delivery, restore_group_rich, restored, shown_id, text_of, GroupDecryptOutcome, OutcomeView,
    RichContent, RichView,
};
use crate::group_mesh::pending_commits::DrainPhase;
use crate::group_mesh::state::{GroupMeshState, MeshView};
use crate::group_mesh::types::{PendingGroupMessage, PendingGroupMessageView};
use crate::message::TransportType;
use crate::rosters::lists;

verus! {

/// A drain of one group's buffered messages. A pass in which MLS consumed a
/// commit or proposal is followed by a drain of the buffered commits and another
/// pass.
#[derive(Debug, PartialEq, Eq)]
pub struct MessageDrain {
    pub group_id: String,
    pub phase: DrainPhase,
    /// Ids, envelope and logical, that this drain has delivered.
    pub delivered: Vec<String>,
    /// What this pass has yet to try, in order.
    pub queue: Vec<PendingGroupMessage>,
    /// What failed again in this pass.
    pub still: Vec<PendingGroupMessage>,
    /// Whether MLS consumed a commit or proposal in this pass.
    pub state_advanced: bool,
}

/// The model of a [`MessageDrain`].
#[verifier::ext_equal]
pub struct MessageDrainView {
    pub group: Seq<char>,
    pub phase: DrainPhase,
    pub delivered: Seq<Seq<char>>,
    pub queue: Seq<PendingGroupMessageView>,
    pub still: Seq<PendingGroupMessageView>,
    pub state_advanced: bool,
}

impl View for MessageDrain {
    type V = MessageDrainView;

    open spec fn view(&self) -> MessageDrainView {
        MessageDrainView {
            group: self.group_id@,
            phase: self.phase,
            delivered: self.delivered.deep_view(),
            queue: self.queue.deep_view(),
            still: self.still.deep_view(),
            state_advanced: self.state_advanced,
        }
    }
}

/// What a drain asks for next.
#[derive(Debug, PartialEq, Eq)]
pub enum MessageTask {
    /// Hand this entry's ciphertext to MLS.
    Decrypt(PendingGroupMessage, Vec<u8>),
    /// Drain the group's buffered commits, then go on.
    DrainCommits,
    /// Nothing: the drain is over.
    Finished,
}

/// What a [`MessageTask`] says.
pub enum MessageTaskView {
    Decrypt(PendingGroupMessageView, Seq<u8>),
    DrainCommits,
    Finished,
}

impl DeepView for MessageTask {
    type V = MessageTaskView;

    open spec fn deep_view(&self) -> MessageTaskView {
        match self {
            MessageTask::Decrypt(entry, bytes) => MessageTaskView::Decrypt(
                entry.deep_view(),
                bytes@,
            ),
            MessageTask::DrainCommits => MessageTaskView::DrainCommits,
            MessageTask::Finished => MessageTaskView::Finished,
        }
    }
}

/// A buffered message is past its lifetime.
pub open spec fn message_expired(entry: PendingGroupMessageView, now: u128) -> bool {
    age(now, entry.buffered_at) > nanos(PENDING_GROUP_MESSAGE_TTL_SECS)
}

/// The entry is a second copy of something that this drain delivered.
pub open spec fn already_delivered(
    delivered: Seq<Seq<char>>,
    entry: PendingGroupMessageView,
) -> bool {
    delivered.contains(entry.message_id) || (entry.logical_id matches Some(l)
        && delivered.contains(l))
}

/// The deferred acknowledgment of a delivered message, on the transport it came
/// by; none where its sender awaits none.
pub open spec fn acknowledgment(entry: PendingGroupMessageView) -> Seq<EffectView> {
    match entry.received_via {
        Some(transport) => seq![
            EffectView::AckDelivery { to: entry.sender, message_id: entry.message_id, transport },
        ],
        None => Seq::empty(),
    }
}

impl MeshView {
    /// The messages with a group's empty buffer removed.
    pub open spec fn messages_tidied(self, group: Seq<char>) -> MeshView {
        if queue_of(self.messages, group).len() == 0 {
            MeshView { messages: assoc::del(self.messages, group), ..self }
        } else {
            self
        }
    }

    /// The messages with some put back at the end of a group's buffer.
    pub open spec fn messages_returned(
        self,
        group: Seq<char>,
        still: Seq<PendingGroupMessageView>,
    ) -> MeshView {
        if still.len() == 0 {
            self
        } else {
            MeshView {
                messages: assoc::put(self.messages, group, queue_of(self.messages, group) + still),
                ..self
            }
        }
    }
}

/// What a step of a drain leads to.
pub struct MessageStep {
    pub mesh: MeshView,
    pub drain: MessageDrainView,
    pub effects: Seq<EffectView>,
    pub next: MessageTaskView,
}

/// The end of a drain: an empty buffer goes.
pub open spec fn message_drain_over(mesh: MeshView, drain: MessageDrainView) -> MessageStep {
    MessageStep {
        mesh: mesh.messages_tidied(drain.group),
        drain: MessageDrainView { phase: DrainPhase::Done, ..drain },
        effects: Seq::empty(),
        next: MessageTaskView::Finished,
    }
}

/// Runs a drain up to what it asks for next. A second copy of something already
/// delivered is acknowledged and dropped without a decryption; only then is an
/// expired entry dropped with its replay protection, so that the protection of a
/// delivered id is never released.
pub open spec fn message_step(mesh: MeshView, drain: MessageDrainView, now: u128) -> MessageStep
    decreases
        (if drain.phase == DrainPhase::Between {
            1int
        } else {
            0int
        }),
        drain.queue.len(),
{
    match drain.phase {
        DrainPhase::Done => MessageStep {
            mesh,
            drain,
            effects: Seq::empty(),
            next: MessageTaskView::Finished,
        },
        DrainPhase::Between => {
            if queue_of(mesh.messages, drain.group).len() > 0 {
                message_step(
                    MeshView {
                        messages: assoc::put(mesh.messages, drain.group, Seq::empty()),
                        ..mesh
                    },
                    MessageDrainView {
                        phase: DrainPhase::Pass,
                        queue: queue_of(mesh.messages, drain.group),
                        still: Seq::empty(),
                        state_advanced: false,
                        ..drain
                    },
                    now,
                )
            } else {
                message_drain_over(mesh, drain)
            }
        },
        DrainPhase::Pass => {
            if drain.queue.len() == 0 {
                let back = mesh.messages_returned(drain.group, drain.still);
                let after = MessageDrainView {
                    phase: DrainPhase::Between,
                    still: Seq::empty(),
                    ..drain
                };
                if drain.state_advanced {
                    MessageStep {
                        mesh: back,
                        drain: after,
                        effects: Seq::empty(),
                        next: MessageTaskView::DrainCommits,
                    }
                } else {
                    message_drain_over(back, after)
                }
            } else {
                let entry = drain.queue[0];
                let rest = MessageDrainView { queue: drain.queue.remove(0), ..drain };
                if already_delivered(drain.delivered, entry) {
                    let later = message_step(mesh, rest, now);
                    MessageStep { effects: acknowledgment(entry) + later.effects, ..later }
                } else if message_expired(entry, now) {
                    let later = message_step(mesh.released(entry.message_id), rest, now);
                    MessageStep {
                        effects: seq![EffectView::UnmarkSeen { message_id: entry.message_id }]
                            + later.effects,
                        ..later
                    }
                } else {
                    match payload_bytes(entry.ciphertext_b64) {
                        Some(bytes) => MessageStep {
                            mesh,
                            drain: rest,
                            effects: Seq::empty(),
                            next: MessageTaskView::Decrypt(entry, bytes),
                        },
                        None => message_step(mesh, rest, now),
                    }
                }
            }
        },
    }
}

/// The drain after the entry that it handed out was tried.
pub open spec fn message_tried(
    drain: MessageDrainView,
    entry: PendingGroupMessageView,
    outcome: OutcomeView,
) -> MessageDrainView {
    match outcome {
        OutcomeView::Plaintext(bytes) => if valid_utf8(bytes) {
            MessageDrainView {
                delivered: drain.delivered.push(entry.message_id).push(
                    shown_id(entry.message_id, entry.logical_id),
                ),
                ..drain
            }
        } else {
            drain
        },
        OutcomeView::Retriable => MessageDrainView { still: drain.still.push(entry), ..drain },
        OutcomeView::NonApplication => MessageDrainView { state_advanced: true, ..drain },
        _ => drain,
    }
}

impl MeshView {
    /// The state after a buffered message was tried.
    pub open spec fn message_retried(
        self,
        group: Seq<char>,
        entry: PendingGroupMessageView,
        outcome: OutcomeView,
        now: u128,
    ) -> MeshView {
        match outcome {
            OutcomeView::Plaintext(bytes) => match entry.logical_id {
                Some(logical) => if valid_utf8(bytes) {
                    self.marked(logical, now)
                } else {
                    self
                },
                None => self,
            },
            OutcomeView::PolicyRejected { committer, .. } => self.reported(
                group,
                committer,
                true,
                now,
            ),
            OutcomeView::SecurityRejected | OutcomeView::NotMlsCiphertext | OutcomeView::Failed => {
                self.released(entry.message_id)
            },
            _ => self,
        }
    }

    /// What trying a buffered message asks for.
    pub open spec fn retrying_message(
        self,
        group: Seq<char>,
        entry: PendingGroupMessageView,
        outcome: OutcomeView,
        sealed: Option<RichView>,
        now: u128,
        stamp: Seq<char>,
    ) -> Seq<EffectView> {
        match outcome {
            OutcomeView::Plaintext(bytes) => if valid_utf8(bytes) {
                seq![
                    delivery(
                        group,
                        entry.sender,
                        restored(decode_utf8(bytes), sealed, entry.forward_info),
                        match entry.timestamp {
                            Some(t) => t,
                            None => stamp,
                        },
                        shown_id(entry.message_id, entry.logical_id),
                        entry.reply_to,
                    ),
                ] + acknowledgment(entry)
            } else {
                Seq::empty()
            },
            OutcomeView::PolicyRejected { committer, added, removed } => self.reporting(
                group,
                committer,
                added,
                removed,
                ChangeReason::SenderNotAdmin,
                true,
                now,
            ),
            OutcomeView::SecurityRejected | OutcomeView::NotMlsCiphertext | OutcomeView::Failed => {
                seq![EffectView::UnmarkSeen { message_id: entry.message_id }]
            },
            _ => Seq::empty(),
        }
    }
}

impl MessageDrain {
    /// A drain of a group's buffered messages, about to begin.
    pub fn new(group_id: &str) -> (r: Self)
        ensures
            r@ == (MessageDrainView {
                group: group_id@,
                phase: DrainPhase::Between,
                delivered: Seq::empty(),
                queue: Seq::empty(),
                still: Seq::empty(),
                state_advanced: false,
            }),
    {
        let r = MessageDrain {
            group_id: group_id.to_owned(),
            phase: DrainPhase::Between,
            delivered: Vec::new(),
            queue: Vec::new(),
            still: Vec::new(),
            state_advanced: false,
        };
        assert(r.delivered.deep_view() =~= Seq::empty());
        assert(r.queue.deep_view() =~= Seq::empty());
        assert(r.still.deep_view() =~= Seq::empty());
        r
    }
}

/// Sends the deferred acknowledgment of a delivered message.
fn ack_drained_group_message(
    ack_to: &str,
    acked_message_id: &str,
    received_via: Option<TransportType>,
    effects: &mut Effects,
)
    ensures
        final(effects)@ == old(effects)@ + (match received_via {
            Some(transport) => seq![
                EffectView::AckDelivery { to: ack_to@, message_id: acked_message_id@, transport },
            ],
            None => Seq::empty(),
        }),
{
    if let Some(transport) = received_via {
        effects.push(
            Effect::AckDelivery {
                to: ack_to.to_owned(),
                message_id: acked_message_id.to_owned(),
                transport,
            },
        );
    } else {
        assert(effects@ =~= old(effects)@ + Seq::<EffectView>::empty());
    }
}

impl GroupMeshState {
    /// Puts messages back at the end of their group's buffer.
    fn return_messages(&mut self, group_id: &str, still: Vec<PendingGroupMessage>)
        requires
            old(self)@.wf(),
        ensures
            final(self)@.wf(),
            final(self)@ == old(self)@.messages_returned(group_id@, still.deep_view()),
    {
        assert(still.deep_view().len() == still@.len());
        if still.len() == 0 {
            return;
        }
        let ghost before = self.pending_group_messages@;
        let ghost more = still.deep_view();
        proof {
            assoc::lemma_put(before, group_id@, queue_of(before, group_id@) + more);
        }
        match self.pending_group_messages.find(group_id) {
            Some(i) => {
                let mut still = still;
                let queue = self.pending_group_messages.value_at_mut(i);
                let ghost whole = queue.deep_view();
                queue.append(&mut still);
                assert(queue.deep_view() =~= whole + more);
                assert(self.pending_group_messages@ =~= assoc::put(
                    before,
                    group_id@,
                    whole + more,
                ));
            },
            None => {
                assert(Seq::<PendingGroupMessageView>::empty() + more =~= more);
                let _ = self.pending_group_messages.insert(group_id.to_owned(), still);
            },
        }
    }

    /// Takes a group's buffered messages out; the buffer stays, empty.
    fn take_messages(&mut self, group_id: &str) -> (r: Vec<PendingGroupMessage>)
        requires
            old(self)@.wf(),
        ensures
            final(self)@.wf(),
            r.deep_view() == queue_of(old(self)@.messages, group_id@),
            r@.len() == r.deep_view().len(),
            queue_of(old(self)@.messages, group_id@).len() > 0 ==> final(self)@ == (MeshView {
                messages: assoc::put(old(self)@.messages, group_id@, Seq::empty()),
                ..old(self)@
            }),
            queue_of(old(self)@.messages, group_id@).len() == 0 ==> final(self)@ == old(self)@,
    {
        let ghost before = self.pending_group_messages@;
        let mut taken: Vec<PendingGroupMessage> = Vec::new();
        match self.pending_group_messages.find(group_id) {
            Some(i) => {
                proof {
                    assoc::lemma_put(before, group_id@, Seq::<PendingGroupMessageView>::empty());
                }
                let queue = self.pending_group_messages.value_at_mut(i);
                std::mem::swap(&mut taken, queue);
                assert(queue.deep_view() =~= Seq::empty());
                assert(self.pending_group_messages@ =~= assoc::put(
                    before,
                    group_id@,
                    Seq::empty(),
                ));
                if taken.len() == 0 {
                    assert(taken.deep_view() =~= Seq::empty());
                    assert(self.pending_group_messages@ =~= before);
                }
            },
            None => {
                assert(taken.deep_view() =~= Seq::empty());
            },
        }
        assert(taken.deep_view().len() == taken@.len());
        taken
    }

    /// Removes a group's empty buffer.
    fn tidy_messages(&mut self, group_id: &str)
        requires
            old(self)@.wf(),
        ensures
            final(self)@.wf(),
            final(self)@ == old(self)@.messages_tidied(group_id@),
    {
        let empty: bool = match self.pending_group_messages.get(group_id) {
            Some(queue) => {
                assert(queue.deep_view().len() == queue@.len());
                queue.len() == 0
            },
            None => true,
        };
        if empty {
            let _ = self.pending_group_messages.remove(group_id);
        }
    }

    /// Runs a drain of buffered messages up to what it asks for next.
    pub fn drain_pending_group_messages(
        &mut self,
        drain: &mut MessageDrain,
        now: u128,
        effects: &mut Effects,
    ) -> (r: MessageTask)
        requires
            old(self)@.wf(),
        ensures
            final(self)@.wf(),
            ({
                let step = message_step(old(self)@, old(drain)@, now);
                &&& final(self)@ == step.mesh
                &&& final(drain)@ == step.drain
                &&& final(effects)@ == old(effects)@ + step.effects
                &&& r.deep_view() == step.next
            }),
    {
        let ghost goal = message_step(self@, drain@, now);
        assert(effects@ + goal.effects =~= old(effects)@ + goal.effects);
        loop
            invariant
                self@.wf(),
                goal.mesh == message_step(self@, drain@, now).mesh,
                goal.drain == message_step(self@, drain@, now).drain,
                goal.next == message_step(self@, drain@, now).next,
                old(effects)@ + goal.effects == effects@ + message_step(
                    self@,
                    drain@,
                    now,
                ).effects,
                goal == message_step(old(self)@, old(drain)@, now),
            decreases
                (if drain.phase == DrainPhase::Between {
                    1int
                } else {
                    0int
                }),
                drain.queue@.len(),
        {
            match drain.phase {
                DrainPhase::Done => {
                    assert(effects@ + Seq::<EffectView>::empty() =~= effects@);
                    return MessageTask::Finished;
                },
                DrainPhase::Between => {
                    let taken = self.take_messages(drain.group_id.as_str());
                    if taken.len() > 0 {
                        drain.phase = DrainPhase::Pass;
                        drain.queue = taken;
                        drain.still = Vec::new();
                        drain.state_advanced = false;
                        assert(drain.still.deep_view() =~= Seq::empty());
                    } else {
                        self.tidy_messages(drain.group_id.as_str());
                        drain.phase = DrainPhase::Done;
                        assert(old(effects)@ + goal.effects =~= effects@);
                        return MessageTask::Finished;
                    }
                },
                DrainPhase::Pass => {
                    assert(drain.queue.deep_view().len() == drain.queue@.len());
                    if drain.queue.len() == 0 {
                        let mut still: Vec<PendingGroupMessage> = Vec::new();
                        std::mem::swap(&mut still, &mut drain.still);
                        assert(drain.still.deep_view() =~= Seq::empty());
                        self.return_messages(drain.group_id.as_str(), still);
                        if drain.state_advanced {
                            drain.phase = DrainPhase::Between;
                            assert(old(effects)@ + goal.effects =~= effects@);
                            return MessageTask::DrainCommits;
                        }
                        self.tidy_messages(drain.group_id.as_str());
                        drain.phase = DrainPhase::Done;
                        assert(old(effects)@ + goal.effects =~= effects@);
                        return MessageTask::Finished;
                    }
                    let ghost out = effects@;
                    let ghost q = drain.queue.deep_view();
                    let entry = drain.queue.remove(0);
                    assert(entry.deep_view() == q[0]);
                    assert(drain.queue.deep_view() =~= q.remove(0));
                    let second_copy: bool = lists(&drain.delivered, entry.message_id.as_str())
                        || match &entry.logical_id {
                        Some(logical) => lists(&drain.delivered, logical.as_str()),
                        None => false,
                    };
                    if second_copy {
                        ack_drained_group_message(
                            entry.sender.as_str(),
                            entry.message_id.as_str(),
                            entry.received_via,
                            effects,
                        );
                        proof {
                            let later = message_step(self@, drain@, now);
                            assert(out + (acknowledgment(q[0]) + later.effects) =~= effects@
                                + later.effects);
                        }
                    } else if age_of(now, entry.buffered_at) > nanos_of(
                        PENDING_GROUP_MESSAGE_TTL_SECS,
                    ) {
                        self.release_replay_protection(entry.message_id.as_str(), effects);
                        proof {
                            let later = message_step(self@, drain@, now);
                            assert(out + (seq![
                                EffectView::UnmarkSeen { message_id: q[0].message_id },
                            ] + later.effects) =~= effects@ + later.effects);
                        }
                    } else {
                        if let Some(bytes) = base64_decode(entry.ciphertext_b64.as_str()) {
                            assert(effects@ + Seq::<EffectView>::empty() =~= effects@);
                            return MessageTask::Decrypt(entry, bytes);
                        }
                    }
                },
            }
        }
    }

    /// Settles the entry that a drain handed out, once MLS has seen its
    /// ciphertext. A delivered message is acknowledged under its envelope id,
    /// which is what its sender awaits, and shown under its logical id.
    pub fn pending_message_decrypted(
        &mut self,
        drain: &mut MessageDrain,
        entry: PendingGroupMessage,
        outcome: GroupDecryptOutcome,
        sealed: Option<RichContent>,
        now: u128,
        stamp: &str,
        effects: &mut Effects,
    )
        requires
            old(self)@.wf(),
        ensures
            final(self)@.wf(),
            final(self)@ == old(self)@.message_retried(
                old(drain)@.group,
                entry.deep_view(),
                outcome.deep_view(),
                now,
            ),
            final(drain)@ == message_tried(
                old(drain)@,
                entry.deep_view(),
                outcome.deep_view(),
            ),
            final(effects)@ == old(effects)@ + old(self)@.retrying_message(
                old(drain)@.group,
                entry.deep_view(),
                outcome.deep_view(),
                sealed.deep_view(),
                now,
                stamp@,
            ),
    {
        let ghost asked = old(self)@.retrying_message(
            old(drain)@.group,
            entry.deep_view(),
            outcome.deep_view(),
            sealed.deep_view(),
            now,
            stamp@,
        );
        let ghost e = entry.deep_view();
        match outcome {
            GroupDecryptOutcome::Plaintext(plaintext) => {
                if let Some(text) = text_of(plaintext) {
                    let emit_id = match entry.logical_id {
                        Some(logical) => {
                            self.mark_seen(logical.as_str(), now);
                            logical
                        },
                        None => entry.message_id.clone(),
                    };
                    let ghost before = drain.delivered.deep_view();
                    drain.delivered.push(entry.message_id.clone());
                    drain.delivered.push(emit_id.clone());
                    assert(drain.delivered.deep_view() =~= before.push(e.message_id).push(
                        shown_id(e.message_id, e.logical_id),
                    ));
                    let shown = restore_group_rich(text, sealed, entry.forward_info);
                    let timestamp = match entry.timestamp {
                        Some(t) => t,
                        None => stamp.to_owned(),
                    };
                    effects.notify(
                        Notice::MessageReceived {
                            group_id: drain.group_id.clone(),
                            sender: entry.sender.clone(),
                            content: shown.content,
                            timestamp,
                            message_id: emit_id,
                            reply_to: entry.reply_to,
                            forward_info: shown.forward_info,
                            media_metadata: shown.media_metadata,
                            content_type: shown.content_type,
                        },
                    );
                    ack_drained_group_message(
                        entry.sender.as_str(),
                        entry.message_id.as_str(),
                        entry.received_via,
                        effects,
                    );
                }
            },
            GroupDecryptOutcome::Retriable => {
                let ghost before = drain.still.deep_view();
                drain.still.push(entry);
                assert(drain.still.deep_view() =~= before.push(e));
            },
            GroupDecryptOutcome::NonApplication => {
                drain.state_advanced = true;
            },
            GroupDecryptOutcome::PolicyRejected { committer, added, removed } => {
                self.report_unauthorized_membership_change(
                    drain.group_id.as_str(),
                    committer.as_str(),
                    &added,
                    &removed,
                    ChangeReason::SenderNotAdmin,
                    true,
                    now,
                    effects,
                );
            },
            GroupDecryptOutcome::SecurityRejected
            | GroupDecryptOutcome::NotMlsCiphertext
            | GroupDecryptOutcome::Failed => {
                self.release_replay_protection(entry.message_id.as_str(), effects);
            },
        }
        assert(effects@ =~= old(effects)@ + asked);
    }
}

} // verus!
