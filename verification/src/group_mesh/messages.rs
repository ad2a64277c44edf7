//! Group messages: decryption outcomes, delivery, and messages that wait for
//! group state to catch up.

use vstd::prelude::*;
use vstd::utf8::{decode_utf8, valid_utf8};

use crate::assoc;
use crate::error::MlsError;
use crate::events::copy_text;
use crate::group_mesh::buffer::{enqueue, enqueued, queue_of};
use crate::group_mesh::commits::{base64_decode, names, payload_bytes};
use crate::group_mesh::dedup::{forget_all, message_ids, unmarks};
use crate::group_mesh::effect::{
    ChangeReason, Effect, EffectView, Effects, Notice, NoticeView,
};
use crate::group_mesh::limits::{
    message_caps, pending_message_caps, MAX_PENDING_GROUP_MESSAGES_PER_GROUP,
};
use crate::group_mesh::state::{GroupMeshState, MeshView};
use crate::group_mesh::types::{
    copy_forward, ForwardInfoView, GroupMlsMessagePayload, GroupMlsMessagePayloadView,
    InternalMessageResult, PendingGroupMessage, PendingGroupMessageView,
};
use crate::message::{ContentType, ForwardInfo, MediaMetadata, TransportType};
use crate::text::str_eq;

verus! {

/// What MLS answered when it was handed a ciphertext.
#[derive(Debug, PartialEq, Eq)]
pub struct Decryption {
    /// The answer; absent where MLS could not be asked.
    pub answer: Option<Result<Option<Vec<u8>>, MlsError>>,
    /// Whether the ciphertext is MLS wire framing.
    pub framed: bool,
}

/// Outcome of an attempt to decrypt a group message.
#[derive(Debug, PartialEq, Eq)]
pub enum GroupDecryptOutcome {
    /// Decrypted application data.
    Plaintext(Vec<u8>),
    /// MLS consumed a commit or proposal that came by the message channel.
    NonApplication,
    /// The wire sender is not the authenticated sender, or the frame proves none
    /// that counts: no acknowledgment.
    SecurityRejected,
    /// Local group state lags: worth buffering.
    Retriable,
    /// No local group state, and no MLS framing.
    NotMlsCiphertext,
    /// A commit that came by the message channel was refused before it merged.
    PolicyRejected { committer: String, added: Vec<String>, removed: Vec<String> },
    /// Failed for good.
    Failed,
}

/// What a [`GroupDecryptOutcome`] says.
pub enum OutcomeView {
    Plaintext(Seq<u8>),
    NonApplication,
    SecurityRejected,
    Retriable,
    NotMlsCiphertext,
    PolicyRejected { committer: Seq<char>, added: Seq<Seq<char>>, removed: Seq<Seq<char>> },
    Failed,
}

impl DeepView for GroupDecryptOutcome {
    type V = OutcomeView;

    open spec fn deep_view(&self) -> OutcomeView {
        match self {
            GroupDecryptOutcome::Plaintext(b) => OutcomeView::Plaintext(b@),
            GroupDecryptOutcome::NonApplication => OutcomeView::NonApplication,
            GroupDecryptOutcome::SecurityRejected => OutcomeView::SecurityRejected,
            GroupDecryptOutcome::Retriable => OutcomeView::Retriable,
            GroupDecryptOutcome::NotMlsCiphertext => OutcomeView::NotMlsCiphertext,
            GroupDecryptOutcome::PolicyRejected { committer, added, removed } => {
                OutcomeView::PolicyRejected {
                    committer: committer@,
                    added: added.deep_view(),
                    removed: removed.deep_view(),
                }
            },
            GroupDecryptOutcome::Failed => OutcomeView::Failed,
        }
    }
}

/// What an answer of MLS means for a group message. A group without local state
/// is worth waiting for only where the payload is MLS framing at all.
pub open spec fn classified(decryption: Decryption) -> OutcomeView {
    match decryption.answer {
        None => OutcomeView::Failed,
        Some(Ok(Some(plaintext))) => OutcomeView::Plaintext(plaintext@),
        Some(Ok(None)) => OutcomeView::NonApplication,
        Some(Err(error)) => match error {
            MlsError::SenderIdentityMismatch { .. }
            | MlsError::LeafAddressMismatch(_)
            | MlsError::UnsupportedSender(_) => OutcomeView::SecurityRejected,
            MlsError::CommitNotAuthorized { committer, added, removed } => {
                OutcomeView::PolicyRejected {
                    committer: committer@,
                    added: names(added),
                    removed: names(removed),
                }
            },
            MlsError::GroupNotFound(_) => if decryption.framed {
                OutcomeView::Retriable
            } else {
                OutcomeView::NotMlsCiphertext
            },
            MlsError::Decryption(_) | MlsError::SessionDesync(_) => OutcomeView::Retriable,
            _ => OutcomeView::Failed,
        },
    }
}

/// Classifies what MLS answered, for every inbound path alike.
pub fn decrypt_group_application(decryption: Decryption) -> (r: GroupDecryptOutcome)
    ensures
        r.deep_view() == classified(decryption),
{
    match decryption.answer {
        None => GroupDecryptOutcome::Failed,
        Some(Ok(Some(plaintext))) => GroupDecryptOutcome::Plaintext(plaintext),
        Some(Ok(None)) => GroupDecryptOutcome::NonApplication,
        Some(Err(error)) => match error {
            MlsError::SenderIdentityMismatch { .. }
            | MlsError::LeafAddressMismatch(_)
            | MlsError::UnsupportedSender(_) => GroupDecryptOutcome::SecurityRejected,
            MlsError::CommitNotAuthorized { committer, added, removed } => {
                GroupDecryptOutcome::PolicyRejected { committer, added, removed }
            },
            MlsError::GroupNotFound(_) => {
                if decryption.framed {
                    GroupDecryptOutcome::Retriable
                } else {
                    GroupDecryptOutcome::NotMlsCiphertext
                }
            },
            MlsError::Decryption(_) | MlsError::SessionDesync(_) => GroupDecryptOutcome::Retriable,
            _ => GroupDecryptOutcome::Failed,
        },
    }
}

/// Whether local MLS state may exist for a group, from whether MLS is
/// initialized and what it answered. A lookup that cannot complete counts as
/// state that exists, so that a fault never lets plaintext through.
pub open spec fn secured(initialized: bool, lookup: Option<bool>) -> bool {
    initialized && (match lookup {
        Some(found) => found,
        None => true,
    })
}

/// Whether local MLS state may exist for a group. `lookup` is absent where the
/// group id is invalid, MLS cannot be reached or the lookup failed.
pub fn has_mls_group_state(initialized: bool, lookup: Option<bool>) -> (r: bool)
    ensures
        r == secured(initialized, lookup),
{
    if !initialized {
        return false;
    }
    match lookup {
        Some(found) => found,
        None => true,
    }
}

/// What the sealed body of a message carries.
#[derive(Debug, PartialEq, Eq)]
pub struct RichContent {
    pub text: String,
    pub media_metadata: Option<MediaMetadata>,
    pub content_type: Option<ContentType>,
    pub forward_info: Option<ForwardInfo>,
}

/// What a message shows: its text and what goes with it.
#[verifier::ext_equal]
pub struct RichView {
    pub text: Seq<char>,
    pub media_metadata: Option<Seq<char>>,
    pub content_type: Option<Seq<char>>,
    pub forward_info: Option<ForwardInfoView>,
}

impl DeepView for RichContent {
    type V = RichView;

    open spec fn deep_view(&self) -> RichView {
        RichView {
            text: self.text@,
            media_metadata: self.media_metadata.deep_view(),
            content_type: match self.content_type {
                Some(kind) => Some(kind.text()),
                None => None,
            },
            forward_info: self.forward_info.deep_view(),
        }
    }
}

/// What a decrypted text shows. A sealed body is authoritative wholesale: the
/// attribution beside the ciphertext counts only for a text that is not sealed.
pub open spec fn restored(
    text: Seq<char>,
    sealed: Option<RichView>,
    forward_info: Option<ForwardInfoView>,
) -> RichView {
    match sealed {
        Some(rich) => rich,
        None => RichView { text, media_metadata: None, content_type: None, forward_info },
    }
}

/// What [`restore_group_rich`] hands on: content, media metadata, content-type
/// hint and attribution.
pub struct Restored {
    pub content: String,
    pub media_metadata: Option<MediaMetadata>,
    pub content_type: Option<String>,
    pub forward_info: Option<ForwardInfo>,
}

impl DeepView for Restored {
    type V = RichView;

    open spec fn deep_view(&self) -> RichView {
        RichView {
            text: self.content@,
            media_metadata: self.media_metadata.deep_view(),
            content_type: self.content_type.deep_view(),
            forward_info: self.forward_info.deep_view(),
        }
    }
}

/// Applies a sealed body, where the text is one, to a decrypted text.
pub fn restore_group_rich(
    text: String,
    sealed: Option<RichContent>,
    payload_forward_info: Option<ForwardInfo>,
) -> (r: Restored)
    ensures
        r.deep_view() == restored(text@, sealed.deep_view(), payload_forward_info.deep_view()),
{
    match sealed {
        Some(rich) => {
            let content_type: Option<String> = match &rich.content_type {
                Some(kind) => Some(kind.to_text()),
                None => None,
            };
            Restored {
                content: rich.text,
                media_metadata: rich.media_metadata,
                content_type,
                forward_info: rich.forward_info,
            }
        },
        None => Restored {
            content: text,
            media_metadata: None,
            content_type: None,
            forward_info: payload_forward_info,
        },
    }
}

/// A group message that the relay fanned out.
#[derive(Debug, Clone, PartialEq, Eq)]
pub struct RelayGroupMessage {
    /// MLS group identifier.
    pub group_id: String,
    /// Who sent it, as the relay says.
    pub sender: String,
    /// Base64-encoded MLS ciphertext, or the plaintext of a group without MLS.
    pub content: String,
    /// The relay's timestamp.
    pub timestamp: String,
    /// Logical message id.
    pub message_id: String,
    /// Message this replies to.
    pub reply_to: Option<String>,
    /// Forwarding attribution.
    pub forward_info: Option<ForwardInfo>,
}

/// What a [`RelayGroupMessage`] says.
#[verifier::ext_equal]
pub struct RelayGroupMessageView {
    pub group_id: Seq<char>,
    pub sender: Seq<char>,
    pub content: Seq<char>,
    pub timestamp: Seq<char>,
    pub message_id: Seq<char>,
    pub reply_to: Option<Seq<char>>,
    pub forward_info: Option<ForwardInfoView>,
}

impl DeepView for RelayGroupMessage {
    type V = RelayGroupMessageView;

    open spec fn deep_view(&self) -> RelayGroupMessageView {
        RelayGroupMessageView {
            group_id: self.group_id.deep_view(),
            sender: self.sender.deep_view(),
            content: self.content.deep_view(),
            timestamp: self.timestamp.deep_view(),
            message_id: self.message_id.deep_view(),
            reply_to: self.reply_to.deep_view(),
            forward_info: self.forward_info.deep_view(),
        }
    }
}

/// The event for a delivered message.
pub open spec fn delivery(
    group: Seq<char>,
    sender: Seq<char>,
    shown: RichView,
    timestamp: Seq<char>,
    message_id: Seq<char>,
    reply_to: Option<Seq<char>>,
) -> EffectView {
    EffectView::Notify(
        NoticeView::MessageReceived {
            group_id: group,
            sender,
            content: shown.text,
            timestamp,
            message_id,
            reply_to,
            forward_info: shown.forward_info,
            media_metadata: shown.media_metadata,
            content_type: shown.content_type,
        },
    )
}

/// A message with this id, envelope or logical, waits in the buffer.
pub open spec fn waits(queue: Seq<PendingGroupMessageView>, id: Seq<char>) -> bool {
    exists|i: int|
        0 <= i < queue.len() && ((#[trigger] queue[i]).message_id == id || queue[i].logical_id
            == Some(id))
}

impl MeshView {
    /// The state after a message was buffered.
    pub open spec fn message_buffered(
        self,
        group: Seq<char>,
        entry: PendingGroupMessageView,
    ) -> MeshView {
        match enqueued::<PendingGroupMessage>(
            self.messages,
            group,
            message_caps(),
            MAX_PENDING_GROUP_MESSAGES_PER_GROUP as nat,
            entry,
        ) {
            Some(after) => MeshView {
                messages: after.0,
                seen: forget_all(self.seen, message_ids(after.1)),
                ..self
            },
            None => self,
        }
    }

    /// What buffering a message asks for: a release of each copy that made way.
    pub open spec fn buffering_message(
        self,
        group: Seq<char>,
        entry: PendingGroupMessageView,
    ) -> Seq<EffectView> {
        match enqueued::<PendingGroupMessage>(
            self.messages,
            group,
            message_caps(),
            MAX_PENDING_GROUP_MESSAGES_PER_GROUP as nat,
            entry,
        ) {
            Some(after) => unmarks(message_ids(after.1)),
            None => Seq::empty(),
        }
    }

    /// The message was seen before, under its envelope id or its logical id.
    pub open spec fn duplicate(self, id: Seq<char>, payload: GroupMlsMessagePayloadView) -> bool {
        assoc::known(self.seen, id) || (payload.message_id matches Some(l) && assoc::known(
            self.seen,
            l,
        ))
    }

    /// The message waits to be decrypted, under its envelope id or its logical
    /// id.
    pub open spec fn pending(self, id: Seq<char>, payload: GroupMlsMessagePayloadView) -> bool {
        let queue = queue_of(self.messages, payload.group_id);
        waits(queue, id) || (payload.message_id matches Some(l) && waits(queue, l))
    }
}

/// What is to be done with an incoming mesh message.
#[derive(Debug, PartialEq, Eq)]
pub enum MessageIntake {
    /// Nothing more.
    Settled(InternalMessageResult),
    /// Hand this ciphertext to MLS.
    Decrypt(Vec<u8>),
}

/// What a [`MessageIntake`] says.
pub enum MessageIntakeView {
    Settled(InternalMessageResult),
    Decrypt(Seq<u8>),
}

impl DeepView for MessageIntake {
    type V = MessageIntakeView;

    open spec fn deep_view(&self) -> MessageIntakeView {
        match self {
            MessageIntake::Settled(r) => MessageIntakeView::Settled(*r),
            MessageIntake::Decrypt(b) => MessageIntakeView::Decrypt(b@),
        }
    }
}

/// What is to be done with an incoming mesh message. A duplicate of a message
/// that still waits is deferred, so that its sender keeps retrying; any other
/// duplicate was delivered and is acknowledged again.
pub open spec fn intake(
    mesh: MeshView,
    id: Seq<char>,
    payload: Option<GroupMlsMessagePayloadView>,
) -> MessageIntakeView {
    match payload {
        None => MessageIntakeView::Settled(InternalMessageResult::Consumed),
        Some(p) => if mesh.duplicate(id, p) {
            MessageIntakeView::Settled(
                if mesh.pending(id, p) {
                    InternalMessageResult::Deferred
                } else {
                    InternalMessageResult::Consumed
                },
            )
        } else {
            match payload_bytes(p.ciphertext) {
                Some(bytes) => MessageIntakeView::Decrypt(bytes),
                None => MessageIntakeView::Settled(InternalMessageResult::Consumed),
            }
        },
    }
}

/// The entry that buffers a mesh message.
pub open spec fn held_mesh_message(
    id: Seq<char>,
    sender: Seq<char>,
    payload: GroupMlsMessagePayloadView,
    via: Option<TransportType>,
    now: u128,
) -> PendingGroupMessageView {
    PendingGroupMessageView {
        sender,
        message_id: id,
        logical_id: payload.message_id,
        ciphertext_b64: payload.ciphertext,
        timestamp: None,
        reply_to: payload.reply_to,
        forward_info: payload.forward_info,
        buffered_at: now,
        received_via: via,
    }
}

/// The entry that buffers a relayed message. The relay's id is the logical id,
/// and its sender awaits no acknowledgment.
pub open spec fn held_relay_message(message: RelayGroupMessageView, now: u128) -> PendingGroupMessageView {
    PendingGroupMessageView {
        sender: message.sender,
        message_id: message.message_id,
        logical_id: None,
        ciphertext_b64: message.content,
        timestamp: Some(message.timestamp),
        reply_to: message.reply_to,
        forward_info: message.forward_info,
        buffered_at: now,
        received_via: None,
    }
}

/// The id that the application sees: the logical one where there is one.
pub open spec fn shown_id(id: Seq<char>, logical: Option<Seq<char>>) -> Seq<char> {
    match logical {
        Some(l) => l,
        None => id,
    }
}

/// Both drains of a group that may have moved on: commits first.
pub open spec fn drains(group: Seq<char>) -> Seq<EffectView> {
    seq![
        EffectView::DrainCommits { group_id: group },
        EffectView::DrainMessages { group_id: group },
    ]
}

/// What the transport is told of a mesh message: it is turned away where its
/// sender is not who they claim to be, put off where it waits, and taken
/// otherwise.
pub open spec fn settled_as(outcome: OutcomeView) -> InternalMessageResult {
    match outcome {
        OutcomeView::SecurityRejected => InternalMessageResult::SecurityRejected,
        OutcomeView::Retriable => InternalMessageResult::Deferred,
        _ => InternalMessageResult::Consumed,
    }
}

impl MeshView {
    /// The state after the decryption of a mesh message was settled.
    pub open spec fn mesh_message_settled(
        self,
        id: Seq<char>,
        sender: Seq<char>,
        payload: GroupMlsMessagePayloadView,
        outcome: OutcomeView,
        via: Option<TransportType>,
        now: u128,
    ) -> MeshView {
        match outcome {
            OutcomeView::Plaintext(bytes) => if valid_utf8(bytes) && shown_id(
                id,
                payload.message_id,
            ) != id {
                self.marked(shown_id(id, payload.message_id), now)
            } else {
                self
            },
            OutcomeView::Retriable => self.message_buffered(
                payload.group_id,
                held_mesh_message(id, sender, payload, via, now),
            ),
            OutcomeView::PolicyRejected { committer, .. } => self.reported(
                payload.group_id,
                committer,
                true,
                now,
            ),
            _ => self,
        }
    }

    /// What the decryption of a mesh message asks for.
    pub open spec fn settling_mesh_message(
        self,
        id: Seq<char>,
        sender: Seq<char>,
        payload: GroupMlsMessagePayloadView,
        outcome: OutcomeView,
        sealed: Option<RichView>,
        via: Option<TransportType>,
        now: u128,
        stamp: Seq<char>,
    ) -> Seq<EffectView> {
        match outcome {
            OutcomeView::Plaintext(bytes) => if valid_utf8(bytes) {
                seq![
                    delivery(
                        payload.group_id,
                        sender,
                        restored(decode_utf8(bytes), sealed, payload.forward_info),
                        stamp,
                        shown_id(id, payload.message_id),
                        payload.reply_to,
                    ),
                ]
            } else {
                Seq::empty()
            },
            OutcomeView::Retriable => self.buffering_message(
                payload.group_id,
                held_mesh_message(id, sender, payload, via, now),
            ),
            OutcomeView::NonApplication => drains(payload.group_id),
            OutcomeView::PolicyRejected { committer, added, removed } => self.reporting(
                payload.group_id,
                committer,
                added,
                removed,
                ChangeReason::SenderNotAdmin,
                true,
                now,
            ),
            _ => Seq::empty(),
        }
    }

    /// The state after the decryption of a relayed message was settled. A frame
    /// that was neither delivered nor buffered nor consumed by MLS is unmarked,
    /// so that it cannot suppress a genuine copy.
    pub open spec fn relay_message_settled(
        self,
        message: RelayGroupMessageView,
        outcome: OutcomeView,
        now: u128,
    ) -> MeshView {
        match outcome {
            OutcomeView::Retriable => self.message_buffered(
                message.group_id,
                held_relay_message(message, now),
            ),
            OutcomeView::PolicyRejected { committer, .. } => self.reported(
                message.group_id,
                committer,
                true,
                now,
            ),
            OutcomeView::SecurityRejected | OutcomeView::Failed => self.released(
                message.message_id,
            ),
            _ => self,
        }
    }

    /// What the decryption of a relayed message asks for.
    pub open spec fn settling_relay_message(
        self,
        message: RelayGroupMessageView,
        outcome: OutcomeView,
        sealed: Option<RichView>,
        now: u128,
    ) -> Seq<EffectView> {
        match outcome {
            OutcomeView::Plaintext(bytes) => if valid_utf8(bytes) {
                seq![
                    relay_delivery(
                        message,
                        restored(decode_utf8(bytes), sealed, message.forward_info),
                    ),
                ]
            } else {
                Seq::empty()
            },
            OutcomeView::Retriable => self.buffering_message(
                message.group_id,
                held_relay_message(message, now),
            ),
            OutcomeView::NonApplication => drains(message.group_id),
            OutcomeView::PolicyRejected { committer, added, removed } => self.reporting(
                message.group_id,
                committer,
                added,
                removed,
                ChangeReason::SenderNotAdmin,
                true,
                now,
            ),
            OutcomeView::NotMlsCiphertext => seq![relay_delivery(message, raw(message))],
            _ => Seq::empty(),
        }
    }

    /// The state after a relayed message came in.
    pub open spec fn relay_message_in(
        self,
        message: RelayGroupMessageView,
        group_secured: bool,
        now: u128,
    ) -> MeshView {
        if assoc::known(self.seen, message.message_id) {
            self
        } else {
            let inside = self.let_in(message.message_id, now);
            if payload_bytes(message.content) is None && group_secured {
                inside.released(message.message_id)
            } else {
                inside
            }
        }
    }

    /// What a relayed message asks for on its way in. Plaintext that names a
    /// secured group is refused; in any other group it is legacy content.
    pub open spec fn relay_message_arriving(
        self,
        message: RelayGroupMessageView,
        group_secured: bool,
        now: u128,
    ) -> Seq<EffectView> {
        if assoc::known(self.seen, message.message_id) {
            Seq::empty()
        } else {
            let first = self.letting_in(message.message_id, now);
            if payload_bytes(message.content) is Some {
                first
            } else if group_secured {
                first.push(
                    EffectView::Notify(NoticeView::PlaintextRejected { peer_id: message.sender }),
                )
            } else {
                first.push(relay_delivery(message, raw(message)))
            }
        }
    }
}

/// The event for a relayed message.
pub open spec fn relay_delivery(message: RelayGroupMessageView, shown: RichView) -> EffectView {
    delivery(
        message.group_id,
        message.sender,
        shown,
        message.timestamp,
        message.message_id,
        message.reply_to,
    )
}

/// A relayed message shown as it came.
pub open spec fn raw(message: RelayGroupMessageView) -> RichView {
    RichView {
        text: message.content,
        media_metadata: None,
        content_type: None,
        forward_info: message.forward_info,
    }
}

/// The text of decrypted bytes.
pub fn text_of(bytes: Vec<u8>) -> (r: Option<String>)
    ensures
        match r {
            Some(text) => valid_utf8(bytes@) && text@ == decode_utf8(bytes@),
            None => !valid_utf8(bytes@),
        },
{
    let ghost b = bytes@;
    match String::from_utf8(bytes) {
        Ok(text) => {
            proof {
                vstd::utf8::encode_utf8_decode_utf8(text@);
            }
            Some(text)
        },
        Err(_) => None,
    }
}

impl GroupMeshState {
    /// Whether a message waits to be decrypted, under its envelope id or its
    /// logical id.
    pub fn is_group_message_pending(&self, group_id: &str, message_id: &str) -> (r: bool)
        requires
            self@.wf(),
        ensures
            r == waits(queue_of(self@.messages, group_id@), message_id@),
    {
        match self.pending_group_messages.get(group_id) {
            Some(queue) => {
                let mut i: usize = 0;
                while i < queue.len()
                    invariant
                        i <= queue@.len(),
                        queue.deep_view() == queue_of(self@.messages, group_id@),
                        forall|j: int|
                            0 <= j < i ==> !((#[trigger] queue.deep_view()[j]).message_id
                                == message_id@ || queue.deep_view()[j].logical_id == Some(
                                message_id@,
                            )),
                    decreases queue@.len() - i,
                {
                    let entry = &queue[i];
                    assert(queue.deep_view()[i as int] == entry.deep_view());
                    if str_eq(entry.message_id.as_str(), message_id) {
                        return true;
                    }
                    if let Some(logical) = &entry.logical_id {
                        if str_eq(logical.as_str(), message_id) {
                            return true;
                        }
                    }
                    i = i + 1;
                }
                false
            },
            None => false,
        }
    }

    /// Buffers a message whose decryption failed because group state lags.
    pub fn buffer_pending_group_message(
        &mut self,
        group_id: &str,
        pending: PendingGroupMessage,
        effects: &mut Effects,
    )
        requires
            old(self)@.wf(),
        ensures
            final(self)@.wf(),
            final(self)@ == old(self)@.message_buffered(group_id@, pending.deep_view()),
            final(effects)@ == old(effects)@ + old(self)@.buffering_message(
                group_id@,
                pending.deep_view(),
            ),
    {
        match enqueue(
            &mut self.pending_group_messages,
            group_id,
            &pending_message_caps(),
            MAX_PENDING_GROUP_MESSAGES_PER_GROUP,
            pending,
        ) {
            Some(gone) => {
                let mut ids: Vec<String> = Vec::new();
                let mut i: usize = 0;
                assert(ids.deep_view() =~= message_ids(gone.deep_view().take(0)));
                while i < gone.len()
                    invariant
                        i <= gone@.len(),
                        ids.deep_view() == message_ids(gone.deep_view().take(i as int)),
                    decreases gone@.len() - i,
                {
                    let ghost before = ids.deep_view();
                    ids.push(gone[i].message_id.clone());
                    proof {
                        assert(ids.deep_view() =~= before.push(gone[i as int].message_id@));
                        assert(ids.deep_view() =~= message_ids(gone.deep_view().take(i + 1)));
                    }
                    i = i + 1;
                }
                assert(gone.deep_view().take(i as int) =~= gone.deep_view());
                self.release_all(&ids, effects);
            },
            None => {
                assert(effects@ =~= old(effects)@ + Seq::<EffectView>::empty());
            },
        }
    }

    /// Takes in a mesh message: an unparsable frame is dropped, a duplicate is
    /// settled, and a fresh id is recorded before its ciphertext is looked at.
    /// Only the envelope id is recorded here: the logical id is unauthenticated
    /// until the ciphertext decrypts.
    pub fn handle_group_mls_msg_via(
        &mut self,
        envelope_id: &str,
        payload: &Option<GroupMlsMessagePayload>,
        now: u128,
        effects: &mut Effects,
    ) -> (r: MessageIntake)
        requires
            old(self)@.wf(),
        ensures
            final(self)@.wf(),
            r.deep_view() == intake(old(self)@, envelope_id@, payload.deep_view()),
            match payload.deep_view() {
                Some(p) => if old(self)@.duplicate(envelope_id@, p) {
                    final(self)@ == old(self)@ && final(effects)@ == old(effects)@
                } else {
                    final(self)@ == old(self)@.let_in(envelope_id@, now) && final(effects)@
                        == old(effects)@ + old(self)@.letting_in(envelope_id@, now)
                },
                None => final(self)@ == old(self)@ && final(effects)@ == old(effects)@,
            },
    {
        let p = match payload {
            Some(p) => p,
            None => return MessageIntake::Settled(InternalMessageResult::Consumed),
        };
        let seen: bool = self.was_seen(envelope_id) || match &p.message_id {
            Some(logical) => self.was_seen(logical.as_str()),
            None => false,
        };
        if seen {
            let group_id = p.group_id.as_str();
            let waiting: bool = self.is_group_message_pending(group_id, envelope_id)
                || match &p.message_id {
                Some(logical) => self.is_group_message_pending(group_id, logical.as_str()),
                None => false,
            };
            return if waiting {
                MessageIntake::Settled(InternalMessageResult::Deferred)
            } else {
                MessageIntake::Settled(InternalMessageResult::Consumed)
            };
        }
        let _ = self.take_in(envelope_id, now, effects);
        match base64_decode(p.ciphertext.as_str()) {
            Some(bytes) => MessageIntake::Decrypt(bytes),
            None => MessageIntake::Settled(InternalMessageResult::Consumed),
        }
    }

    /// Settles a mesh message once MLS has seen its ciphertext. Decryption
    /// authenticated the sender, so the logical id can now be recorded and shown.
    pub fn group_message_decrypted(
        &mut self,
        envelope_id: &str,
        sender: &str,
        payload: GroupMlsMessagePayload,
        outcome: GroupDecryptOutcome,
        sealed: Option<RichContent>,
        arrival_transport: Option<TransportType>,
        now: u128,
        stamp: &str,
        effects: &mut Effects,
    ) -> (r: InternalMessageResult)
        requires
            old(self)@.wf(),
        ensures
            final(self)@.wf(),
            final(self)@ == old(self)@.mesh_message_settled(
                envelope_id@,
                sender@,
                payload.deep_view(),
                outcome.deep_view(),
                arrival_transport,
                now,
            ),
            final(effects)@ == old(effects)@ + old(self)@.settling_mesh_message(
                envelope_id@,
                sender@,
                payload.deep_view(),
                outcome.deep_view(),
                sealed.deep_view(),
                arrival_transport,
                now,
                stamp@,
            ),
            r == (match outcome.deep_view() {
                OutcomeView::SecurityRejected => InternalMessageResult::SecurityRejected,
                OutcomeView::Retriable => InternalMessageResult::Deferred,
                _ => InternalMessageResult::Consumed,
            }),
            r == settled_as(outcome.deep_view()),
    {
        let ghost asked = old(self)@.settling_mesh_message(
            envelope_id@,
            sender@,
            payload.deep_view(),
            outcome.deep_view(),
            sealed.deep_view(),
            arrival_transport,
            now,
            stamp@,
        );
        let result = match outcome {
            GroupDecryptOutcome::Plaintext(plaintext) => {
                if let Some(text) = text_of(plaintext) {
                    let msg_id = match payload.message_id {
                        Some(logical) => logical,
                        None => envelope_id.to_owned(),
                    };
                    if !str_eq(msg_id.as_str(), envelope_id) {
                        self.mark_seen(msg_id.as_str(), now);
                    }
                    let shown = restore_group_rich(text, sealed, payload.forward_info);
                    effects.notify(
                        Notice::MessageReceived {
                            group_id: payload.group_id,
                            sender: sender.to_owned(),
                            content: shown.content,
                            timestamp: stamp.to_owned(),
                            message_id: msg_id,
                            reply_to: payload.reply_to,
                            forward_info: shown.forward_info,
                            media_metadata: shown.media_metadata,
                            content_type: shown.content_type,
                        },
                    );
                }
                InternalMessageResult::Consumed
            },
            GroupDecryptOutcome::SecurityRejected => InternalMessageResult::SecurityRejected,
            GroupDecryptOutcome::Retriable => {
                let group_id = payload.group_id;
                self.buffer_pending_group_message(
                    group_id.as_str(),
                    PendingGroupMessage {
                        sender: sender.to_owned(),
                        message_id: envelope_id.to_owned(),
                        logical_id: payload.message_id,
                        ciphertext_b64: payload.ciphertext,
                        timestamp: None,
                        reply_to: payload.reply_to,
                        forward_info: payload.forward_info,
                        buffered_at: now,
                        received_via: arrival_transport,
                    },
                    effects,
                );
                InternalMessageResult::Deferred
            },
            GroupDecryptOutcome::NonApplication => {
                effects.push(Effect::DrainCommits { group_id: payload.group_id.clone() });
                effects.push(Effect::DrainMessages { group_id: payload.group_id.clone() });
                InternalMessageResult::Consumed
            },
            GroupDecryptOutcome::PolicyRejected { committer, added, removed } => {
                self.report_unauthorized_membership_change(
                    payload.group_id.as_str(),
                    committer.as_str(),
                    &added,
                    &removed,
                    ChangeReason::SenderNotAdmin,
                    true,
                    now,
                    effects,
                );
                InternalMessageResult::Consumed
            },
            GroupDecryptOutcome::NotMlsCiphertext | GroupDecryptOutcome::Failed => {
                InternalMessageResult::Consumed
            },
        };
        assert(effects@ =~= old(effects)@ + asked);
        result
    }

    /// Emits a relayed message as it came.
    fn emit_raw(message: &RelayGroupMessage, effects: &mut Effects)
        ensures
            final(effects)@ == old(effects)@.push(
                relay_delivery(message.deep_view(), raw(message.deep_view())),
            ),
    {
        effects.notify(
            Notice::MessageReceived {
                group_id: message.group_id.clone(),
                sender: message.sender.clone(),
                content: message.content.clone(),
                timestamp: message.timestamp.clone(),
                message_id: message.message_id.clone(),
                reply_to: copy_text(&message.reply_to),
                forward_info: copy_forward(&message.forward_info),
                media_metadata: None,
                content_type: None,
            },
        );
    }

    /// Takes in a relayed message, and hands out the ciphertext for MLS where
    /// there is one to try.
    pub fn handle_relay_group_message_with_mls(
        &mut self,
        message: &RelayGroupMessage,
        group_secured: bool,
        now: u128,
        effects: &mut Effects,
    ) -> (r: Option<Vec<u8>>)
        requires
            old(self)@.wf(),
        ensures
            final(self)@.wf(),
            final(self)@ == old(self)@.relay_message_in(message.deep_view(), group_secured, now),
            final(effects)@ == old(effects)@ + old(self)@.relay_message_arriving(
                message.deep_view(),
                group_secured,
                now,
            ),
            match r {
                Some(bytes) => !assoc::known(old(self)@.seen, message.message_id@)
                    && payload_bytes(message.content@) == Some(bytes@),
                None => assoc::known(old(self)@.seen, message.message_id@) || payload_bytes(
                    message.content@,
                ) is None,
            },
    {
        if !self.take_in(message.message_id.as_str(), now, effects) {
            assert(effects@ =~= old(effects)@ + Seq::<EffectView>::empty());
            return None;
        }
        match base64_decode(message.content.as_str()) {
            Some(bytes) => Some(bytes),
            None => {
                if group_secured {
                    effects.notify(Notice::PlaintextRejected { peer_id: message.sender.clone() });
                    let _ = self.message_dedup.remove(message.message_id.as_str());
                } else {
                    Self::emit_raw(message, effects);
                }
                assert(effects@ =~= old(effects)@ + old(self)@.relay_message_arriving(
                    message.deep_view(),
                    group_secured,
                    now,
                ));
                None
            },
        }
    }

    /// Settles a relayed message once MLS has seen its ciphertext.
    pub fn relay_message_decrypted(
        &mut self,
        message: RelayGroupMessage,
        outcome: GroupDecryptOutcome,
        sealed: Option<RichContent>,
        now: u128,
        effects: &mut Effects,
    )
        requires
            old(self)@.wf(),
        ensures
            final(self)@.wf(),
            final(self)@ == old(self)@.relay_message_settled(
                message.deep_view(),
                outcome.deep_view(),
                now,
            ),
            final(effects)@ == old(effects)@ + old(self)@.settling_relay_message(
                message.deep_view(),
                outcome.deep_view(),
                sealed.deep_view(),
                now,
            ),
    {
        let ghost asked = old(self)@.settling_relay_message(
            message.deep_view(),
            outcome.deep_view(),
            sealed.deep_view(),
            now,
        );
        match outcome {
            GroupDecryptOutcome::Plaintext(plaintext) => {
                if let Some(text) = text_of(plaintext) {
                    let shown = restore_group_rich(text, sealed, message.forward_info);
                    effects.notify(
                        Notice::MessageReceived {
                            group_id: message.group_id,
                            sender: message.sender,
                            content: shown.content,
                            timestamp: message.timestamp,
                            message_id: message.message_id,
                            reply_to: message.reply_to,
                            forward_info: shown.forward_info,
                            media_metadata: shown.media_metadata,
                            content_type: shown.content_type,
                        },
                    );
                }
            },
            GroupDecryptOutcome::Retriable => {
                self.buffer_pending_group_message(
                    message.group_id.as_str(),
                    PendingGroupMessage {
                        sender: message.sender,
                        message_id: message.message_id,
                        logical_id: None,
                        ciphertext_b64: message.content,
                        timestamp: Some(message.timestamp),
                        reply_to: message.reply_to,
                        forward_info: message.forward_info,
                        buffered_at: now,
                        received_via: None,
                    },
                    effects,
                );
            },
            GroupDecryptOutcome::NonApplication => {
                effects.push(Effect::DrainCommits { group_id: message.group_id.clone() });
                effects.push(Effect::DrainMessages { group_id: message.group_id.clone() });
            },
            GroupDecryptOutcome::PolicyRejected { committer, added, removed } => {
                self.report_unauthorized_membership_change(
                    message.group_id.as_str(),
                    committer.as_str(),
                    &added,
                    &removed,
                    ChangeReason::SenderNotAdmin,
                    true,
                    now,
                    effects,
                );
            },
            GroupDecryptOutcome::NotMlsCiphertext => {
                Self::emit_raw(&message, effects);
            },
            GroupDecryptOutcome::SecurityRejected | GroupDecryptOutcome::Failed => {
                let _ = self.message_dedup.remove(message.message_id.as_str());
            },
        }
        assert(effects@ =~= old(effects)@ + asked);
    }
}

} // verus!
