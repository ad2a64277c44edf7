//! What comes of a message that arrived: over the mesh, through the relay, or out
//! of a buffer.

use vstd::prelude::*;
use vstd::utf8::{decode_utf8, encode_utf8, valid_utf8};

use crate::assoc;
use crate::base64_codec::base64_bytes;
use crate::error::MlsError;
use crate::group_mesh::buffer::{
    entries_in, free_slots, landed, lemma_pop_front, lemma_victim, make_room, pop_front, queue_of,
    victim, Buffered,
};
use crate::group_mesh::effect::{ChangeReason, EffectView, NoticeView};
use crate::group_mesh::laws::changes::{lemma_told_lately, told_lately};
use crate::group_mesh::limits::{
    message_caps, MAX_BASE64_PAYLOAD_SIZE, MAX_GROUP_MESSAGE_DEDUP_ENTRIES,
    MAX_PENDING_GROUP_MESSAGES_PER_GROUP, MAX_PENDING_GROUP_MESSAGE_TOTAL_BYTES,
};
use crate::group_mesh::messages::{
    classified, intake, settled_as, waits, Decryption, MessageIntakeView, OutcomeView,
    RelayGroupMessageView, RichView,
};
use crate::group_mesh::state::MeshView;
use crate::group_mesh::types::{
    ForwardInfoView, GroupMlsMessagePayloadView, InternalMessageResult, PendingGroupMessage,
    PendingGroupMessageView,
};
use crate::message::TransportType;

verus! {

/// The effect shows one message: who sent it to which group, when, under which
/// id, in reply to what, and what was sealed into it. Where nothing was sealed it
/// shows the bare text, with the attribution that stood beside the ciphertext.
pub open spec fn shows(
    effect: EffectView,
    group: Seq<char>,
    from: Seq<char>,
    text: Seq<char>,
    sealed: Option<RichView>,
    beside: Option<ForwardInfoView>,
    at: Seq<char>,
    id: Seq<char>,
    answers: Option<Seq<char>>,
) -> bool {
    match effect {
        EffectView::Notify(
            NoticeView::MessageReceived {
                group_id,
                sender,
                content,
                timestamp,
                message_id,
                reply_to,
                forward_info,
                media_metadata,
                content_type,
            },
        ) => {
            &&& group_id == group && sender == from && timestamp == at && message_id == id
                && reply_to == answers
            &&& sealed matches Some(rich) ==> content == rich.text && media_metadata
                == rich.media_metadata && content_type == rich.content_type && forward_info
                == rich.forward_info
            &&& sealed is None ==> content == text && media_metadata is None && content_type is None
                && forward_info == beside
        },
        _ => false,
    }
}

/// A commit that policy refused in the message channel is reported as refused,
/// unless it was lately.
pub open spec fn reports_refusal(
    mesh: MeshView,
    group: Seq<char>,
    committer: Seq<char>,
    added: Seq<Seq<char>>,
    removed: Seq<Seq<char>>,
    now: u128,
    all: Seq<EffectView>,
) -> bool {
    all == if told_lately(mesh.reports, group, committer, true, now) {
        Seq::empty()
    } else {
        seq![
            EffectView::Notify(
                NoticeView::UnauthorizedChange {
                    group_id: group,
                    committer,
                    added,
                    removed,
                    reason: ChangeReason::SenderNotAdmin,
                    enforced: true,
                },
            ),
        ]
    }
}

/// A mesh message that decrypts to text is shown once, as what was sealed into it
/// and otherwise as the bare text, under the id that its sender gave it and
/// otherwise under the envelope's; the sender's id is then known. What is no text
/// is shown to nobody.
pub proof fn a_decrypted_mesh_message_is_shown(
    mesh: MeshView,
    id: Seq<char>,
    sender: Seq<char>,
    payload: GroupMlsMessagePayloadView,
    bytes: Seq<u8>,
    sealed: Option<RichView>,
    via: Option<TransportType>,
    now: u128,
    stamp: Seq<char>,
    other: Seq<char>,
)
    requires
        mesh.wf(),
    ensures
        ({
            let outcome = OutcomeView::Plaintext(bytes);
            let all = mesh.settling_mesh_message(
                id,
                sender,
                payload,
                outcome,
                sealed,
                via,
                now,
                stamp,
            );
            let next = mesh.mesh_message_settled(id, sender, payload, outcome, via, now);
            &&& valid_utf8(bytes) ==> all.len() == 1 && shows(
                all[0],
                payload.group_id,
                sender,
                decode_utf8(bytes),
                sealed,
                payload.forward_info,
                stamp,
                (if payload.message_id is Some {
                    payload.message_id->0
                } else {
                    id
                }),
                payload.reply_to,
            )
            &&& valid_utf8(bytes) && payload.message_id == Some(other) && other != id
                ==> assoc::known(next.seen, other) && assoc::at(next.seen, other) == now
            &&& payload.message_id != Some(other) || other == id || !valid_utf8(bytes)
                ==> assoc::known(next.seen, other) == assoc::known(mesh.seen, other)
            &&& next == (MeshView { seen: next.seen, ..mesh })
            &&& !valid_utf8(bytes) ==> all.len() == 0 && next == mesh
        }),
{
    if payload.message_id is Some {
        assoc::lemma_put(mesh.seen, payload.message_id->0, now);
    }
}

/// A relayed message that decrypts to text is shown once, as what was sealed into
/// it and otherwise as the bare text; one that is no MLS ciphertext at all is
/// shown as it came. What decrypts to no text is shown to nobody.
pub proof fn a_decrypted_relay_message_is_shown(
    mesh: MeshView,
    message: RelayGroupMessageView,
    bytes: Seq<u8>,
    sealed: Option<RichView>,
    now: u128,
)
    ensures
        ({
            let all = mesh.settling_relay_message(
                message,
                OutcomeView::Plaintext(bytes),
                sealed,
                now,
            );
            let bare = mesh.settling_relay_message(
                message,
                OutcomeView::NotMlsCiphertext,
                sealed,
                now,
            );
            &&& valid_utf8(bytes) ==> all.len() == 1 && shows(
                all[0],
                message.group_id,
                message.sender,
                decode_utf8(bytes),
                sealed,
                message.forward_info,
                message.timestamp,
                message.message_id,
                message.reply_to,
            )
            &&& !valid_utf8(bytes) ==> all.len() == 0
            &&& bare.len() == 1 && shows(
                bare[0],
                message.group_id,
                message.sender,
                message.content,
                None,
                message.forward_info,
                message.timestamp,
                message.message_id,
                message.reply_to,
            )
            &&& mesh.relay_message_settled(message, OutcomeView::Plaintext(bytes), now) == mesh
            &&& mesh.relay_message_settled(message, OutcomeView::NotMlsCiphertext, now) == mesh
        }),
{
}

/// A buffered message that decrypts to text at last is shown as it would have
/// been on arrival, with the relay's timestamp where it has one; its sender is
/// answered on the transport that it came by, and its own id is then known.
pub proof fn a_decrypted_pending_message_is_shown(
    mesh: MeshView,
    group: Seq<char>,
    entry: PendingGroupMessageView,
    bytes: Seq<u8>,
    sealed: Option<RichView>,
    now: u128,
    stamp: Seq<char>,
    other: Seq<char>,
)
    requires
        mesh.wf(),
    ensures
        ({
            let outcome = OutcomeView::Plaintext(bytes);
            let all = mesh.retrying_message(group, entry, outcome, sealed, now, stamp);
            let next = mesh.message_retried(group, entry, outcome, now);
            &&& valid_utf8(bytes) ==> all.len() == (if entry.received_via is Some {
                2int
            } else {
                1int
            }) && shows(
                all[0],
                group,
                entry.sender,
                decode_utf8(bytes),
                sealed,
                entry.forward_info,
                (if entry.timestamp is Some {
                    entry.timestamp->0
                } else {
                    stamp
                }),
                (if entry.logical_id is Some {
                    entry.logical_id->0
                } else {
                    entry.message_id
                }),
                entry.reply_to,
            )
            &&& valid_utf8(bytes) ==> (entry.received_via matches Some(transport) ==> all[1]
                == EffectView::AckDelivery {
                to: entry.sender,
                message_id: entry.message_id,
                transport,
            })
            &&& valid_utf8(bytes) && entry.logical_id == Some(other) ==> assoc::known(
                next.seen,
                other,
            ) && assoc::at(next.seen, other) == now
            &&& !valid_utf8(bytes) || entry.logical_id != Some(other) ==> assoc::known(
                next.seen,
                other,
            ) == assoc::known(mesh.seen, other)
            &&& next == (MeshView { seen: next.seen, ..mesh })
            &&& !valid_utf8(bytes) ==> all.len() == 0 && next == mesh
        }),
{
    if entry.logical_id is Some {
        assoc::lemma_put(mesh.seen, entry.logical_id->0, now);
    }
}

/// What a message brings that shows nothing, however it came: a commit or
/// proposal that MLS took has the buffers tried again, commits first; a commit
/// that policy refused is reported; a forged or hopeless one has no effect but
/// that, where it came through the relay or out of a buffer, its id is free again
/// for an honest copy.
pub proof fn a_message_that_shows_nothing(
    mesh: MeshView,
    id: Seq<char>,
    sender: Seq<char>,
    payload: GroupMlsMessagePayloadView,
    message: RelayGroupMessageView,
    group: Seq<char>,
    entry: PendingGroupMessageView,
    outcome: OutcomeView,
    sealed: Option<RichView>,
    via: Option<TransportType>,
    now: u128,
    stamp: Seq<char>,
)
    requires
        mesh.wf(),
        !(outcome is Plaintext),
    ensures
        ({
            let all = mesh.settling_mesh_message(
                id,
                sender,
                payload,
                outcome,
                sealed,
                via,
                now,
                stamp,
            );
            let next = mesh.mesh_message_settled(id, sender, payload, outcome, via, now);
            match outcome {
                OutcomeView::NonApplication => next == mesh && all == seq![
                    EffectView::DrainCommits { group_id: payload.group_id },
                    EffectView::DrainMessages { group_id: payload.group_id },
                ],
                OutcomeView::PolicyRejected { committer, added, removed } => {
                    reports_refusal(mesh, payload.group_id, committer, added, removed, now, all)
                        && next == (MeshView { reports: next.reports, ..mesh })
                },
                OutcomeView::Retriable => true,
                _ => next == mesh && all.len() == 0,
            }
        }),
        ({
            let all = mesh.settling_relay_message(message, outcome, sealed, now);
            let next = mesh.relay_message_settled(message, outcome, now);
            match outcome {
                OutcomeView::NonApplication => next == mesh && all == seq![
                    EffectView::DrainCommits { group_id: message.group_id },
                    EffectView::DrainMessages { group_id: message.group_id },
                ],
                OutcomeView::PolicyRejected { committer, added, removed } => {
                    reports_refusal(mesh, message.group_id, committer, added, removed, now, all)
                        && next == (MeshView { reports: next.reports, ..mesh })
                },
                OutcomeView::SecurityRejected | OutcomeView::Failed => all.len() == 0
                    && !assoc::known(next.seen, message.message_id) && next == (MeshView {
                    seen: next.seen,
                    ..mesh
                }),
                _ => true,
            }
        }),
        ({
            let all = mesh.retrying_message(group, entry, outcome, sealed, now, stamp);
            let next = mesh.message_retried(group, entry, outcome, now);
            match outcome {
                OutcomeView::NonApplication | OutcomeView::Retriable => next == mesh && all.len()
                    == 0,
                OutcomeView::PolicyRejected { committer, added, removed } => {
                    reports_refusal(mesh, group, committer, added, removed, now, all) && next == (
                    MeshView { reports: next.reports, ..mesh })
                },
                _ => all == seq![EffectView::UnmarkSeen { message_id: entry.message_id }]
                    && !assoc::known(next.seen, entry.message_id) && next == (MeshView {
                    seen: next.seen,
                    ..mesh
                }),
            }
        }),
{
    assoc::lemma_del(mesh.seen, message.message_id);
    assoc::lemma_del(mesh.seen, entry.message_id);
    if let OutcomeView::PolicyRejected { committer, .. } = outcome {
        lemma_told_lately(mesh.reports, payload.group_id, committer, true, now);
        lemma_told_lately(mesh.reports, message.group_id, committer, true, now);
        lemma_told_lately(mesh.reports, group, committer, true, now);
    }
}

proof fn lemma_slots_distinct<T: Buffered>(
    buffers: Seq<(Seq<char>, Seq<T::V>)>,
    max_groups: nat,
    group: Seq<char>,
)
    requires
        assoc::distinct(buffers),
    ensures
        assoc::distinct(free_slots::<T>(buffers, max_groups, group).0),
    decreases buffers.len(),
{
    if buffers.len() >= max_groups && !assoc::known(buffers, group) {
        if let Some(i) = victim::<T>(buffers) {
            if 0 <= i < buffers.len() {
                let rest = buffers.remove(i);
                assert forall|a: int, b: int| 0 <= a < b < rest.len() implies (#[trigger] rest[a]).0
                    != (#[trigger] rest[b]).0 by {
                    let x = if a < i {
                        a
                    } else {
                        a + 1
                    };
                    let y = if b < i {
                        b
                    } else {
                        b + 1
                    };
                    assert(buffers[x] == rest[a] && buffers[y] == rest[b]);
                }
                lemma_slots_distinct::<T>(rest, max_groups, group);
            }
        }
    }
}

proof fn lemma_room_distinct<T: Buffered>(
    buffers: Seq<(Seq<char>, Seq<T::V>)>,
    max_entries: nat,
    max_bytes: nat,
    incoming: nat,
)
    requires
        assoc::distinct(buffers),
    ensures
        assoc::distinct(make_room::<T>(buffers, max_entries, max_bytes, incoming).0),
    decreases entries_in(buffers),
{
    lemma_victim::<T>(buffers);
    if let Some(i) = victim::<T>(buffers) {
        lemma_pop_front::<T>(buffers, i);
        let rest = pop_front(buffers, i);
        assert forall|a: int, b: int| 0 <= a < b < rest.len() implies (#[trigger] rest[a]).0 != (
        #[trigger] rest[b]).0 by {
            let shift: int = if buffers[i].1.len() <= 1 {
                1
            } else {
                0
            };
            let x = if a < i {
                a
            } else {
                a + shift
            };
            let y = if b < i {
                b
            } else {
                b + shift
            };
            assert(buffers[x].0 == rest[a].0 && buffers[y].0 == rest[b].0);
        }
        lemma_room_distinct::<T>(rest, max_entries, max_bytes, incoming);
    }
}

/// A message that waits stands last in its group's queue, unless it alone is
/// larger than everything that may be buffered: then nothing happens.
proof fn lemma_buffered_last(mesh: MeshView, group: Seq<char>, entry: PendingGroupMessageView)
    requires
        mesh.wf(),
    ensures
        encode_utf8(entry.ciphertext_b64).len() > MAX_PENDING_GROUP_MESSAGE_TOTAL_BYTES
            ==> mesh.message_buffered(group, entry) == mesh && mesh.buffering_message(
            group,
            entry,
        ).len() == 0,
        encode_utf8(entry.ciphertext_b64).len() <= MAX_PENDING_GROUP_MESSAGE_TOTAL_BYTES ==> ({
            let next = mesh.message_buffered(group, entry);
            &&& assoc::known(next.messages, group)
            &&& assoc::at(next.messages, group).len() > 0
            &&& assoc::at(next.messages, group).last() == entry
        }),
        forall|i: int|
            0 <= i < mesh.buffering_message(group, entry).len() ==> (
            #[trigger] mesh.buffering_message(group, entry)[i]) is UnmarkSeen,
{
    let caps = message_caps();
    let weight = encode_utf8(entry.ciphertext_b64).len();
    if weight <= MAX_PENDING_GROUP_MESSAGE_TOTAL_BYTES {
        let slots = free_slots::<PendingGroupMessage>(mesh.messages, caps.max_groups as nat, group);
        lemma_slots_distinct::<PendingGroupMessage>(mesh.messages, caps.max_groups as nat, group);
        let room = make_room::<PendingGroupMessage>(
            slots.0,
            caps.max_entries as nat,
            caps.max_bytes as nat,
            weight,
        );
        lemma_room_distinct::<PendingGroupMessage>(
            slots.0,
            caps.max_entries as nat,
            caps.max_bytes as nat,
            weight,
        );
        let queue = landed(
            queue_of(room.0, group),
            MAX_PENDING_GROUP_MESSAGES_PER_GROUP as nat,
            entry,
        );
        assoc::lemma_put(room.0, group, queue);
        assert(queue.last() == entry);
    }
}

/// A message that MLS cannot decrypt yet waits at the end of its group's queue,
/// with everything that showing it will take, unless it alone is larger than all
/// that may be buffered. Nothing is shown of it, and at most the ids of messages
/// that made way are released.
pub proof fn a_premature_message_waits(
    mesh: MeshView,
    id: Seq<char>,
    sender: Seq<char>,
    payload: GroupMlsMessagePayloadView,
    message: RelayGroupMessageView,
    sealed: Option<RichView>,
    via: Option<TransportType>,
    now: u128,
    stamp: Seq<char>,
)
    requires
        mesh.wf(),
    ensures
        encode_utf8(payload.ciphertext).len() <= MAX_PENDING_GROUP_MESSAGE_TOTAL_BYTES ==> ({
            let next = mesh.mesh_message_settled(
                id,
                sender,
                payload,
                OutcomeView::Retriable,
                via,
                now,
            );
            &&& assoc::known(next.messages, payload.group_id)
            &&& assoc::at(next.messages, payload.group_id).last() == (PendingGroupMessageView {
                sender,
                message_id: id,
                logical_id: payload.message_id,
                ciphertext_b64: payload.ciphertext,
                timestamp: None,
                reply_to: payload.reply_to,
                forward_info: payload.forward_info,
                buffered_at: now,
                received_via: via,
            })
        }),
        encode_utf8(message.content).len() <= MAX_PENDING_GROUP_MESSAGE_TOTAL_BYTES ==> ({
            let next = mesh.relay_message_settled(message, OutcomeView::Retriable, now);
            &&& assoc::known(next.messages, message.group_id)
            &&& assoc::at(next.messages, message.group_id).last() == (PendingGroupMessageView {
                sender: message.sender,
                message_id: message.message_id,
                logical_id: None,
                ciphertext_b64: message.content,
                timestamp: Some(message.timestamp),
                reply_to: message.reply_to,
                forward_info: message.forward_info,
                buffered_at: now,
                received_via: None,
            })
        }),
        ({
            let all = mesh.settling_mesh_message(
                id,
                sender,
                payload,
                OutcomeView::Retriable,
                sealed,
                via,
                now,
                stamp,
            );
            forall|i: int| 0 <= i < all.len() ==> (#[trigger] all[i]) is UnmarkSeen
        }),
        ({
            let all = mesh.settling_relay_message(message, OutcomeView::Retriable, sealed, now);
            forall|i: int| 0 <= i < all.len() ==> (#[trigger] all[i]) is UnmarkSeen
        }),
{
    lemma_buffered_last(
        mesh,
        payload.group_id,
        PendingGroupMessageView {
            sender,
            message_id: id,
            logical_id: payload.message_id,
            ciphertext_b64: payload.ciphertext,
            timestamp: None,
            reply_to: payload.reply_to,
            forward_info: payload.forward_info,
            buffered_at: now,
            received_via: via,
        },
    );
    lemma_buffered_last(
        mesh,
        message.group_id,
        PendingGroupMessageView {
            sender: message.sender,
            message_id: message.message_id,
            logical_id: None,
            ciphertext_b64: message.content,
            timestamp: Some(message.timestamp),
            reply_to: message.reply_to,
            forward_info: message.forward_info,
            buffered_at: now,
            received_via: None,
        },
    );
}

/// What MLS answers says what becomes of a ciphertext: data is delivered; a
/// commit or proposal is consumed; a sender who is not who they claim to be is
/// turned away; a commit that policy refused is reported; state that lags is
/// worth waiting for, as is a group that MLS does not hold yet where the bytes are
/// framed as MLS frames them; bytes without framing for such a group are no
/// ciphertext; and anything else has failed.
pub proof fn an_answer_says_what_becomes_of_a_ciphertext(decryption: Decryption)
    ensures
        decryption.answer is None ==> classified(decryption) == OutcomeView::Failed,
        decryption.answer matches Some(Ok(Some(data))) ==> classified(decryption)
            == OutcomeView::Plaintext(data@),
        decryption.answer matches Some(Ok(None)) ==> classified(decryption)
            == OutcomeView::NonApplication,
        decryption.answer matches Some(Err(e)) ==> {
            &&& e is SenderIdentityMismatch || e is LeafAddressMismatch || e is UnsupportedSender
                <==> classified(decryption) is SecurityRejected
            &&& e is Decryption || e is SessionDesync || (e is GroupNotFound && decryption.framed)
                <==> classified(decryption) is Retriable
            &&& e is GroupNotFound && !decryption.framed <==> classified(
                decryption,
            ) is NotMlsCiphertext
            &&& e is CommitNotAuthorized <==> classified(decryption) is PolicyRejected
            &&& e matches MlsError::CommitNotAuthorized { committer, added, removed } ==> classified(
                decryption,
            ) == (OutcomeView::PolicyRejected {
                committer: committer@,
                added: added.deep_view(),
                removed: removed.deep_view(),
            })
            &&& !(classified(decryption) is Plaintext) && !(classified(decryption) is NonApplication)
        },
{
}

/// The message waits in its group's queue, under its own id or the logical one.
pub open spec fn waiting(mesh: MeshView, group: Seq<char>, id: Seq<char>) -> bool {
    assoc::known(mesh.messages, group) && exists|i: int|
        0 <= i < assoc::at(mesh.messages, group).len() && ((#[trigger] assoc::at(
            mesh.messages,
            group,
        )[i]).message_id == id || assoc::at(mesh.messages, group)[i].logical_id == Some(id))
}

proof fn lemma_waiting(mesh: MeshView, group: Seq<char>, id: Seq<char>)
    ensures
        waiting(mesh, group, id) <==> waits(
            queue_of(mesh.messages, group),
            id,
        ),
{
    let queue = queue_of(mesh.messages, group);
    if waits(queue, id) {
        let i = choose|i: int|
            0 <= i < queue.len() && ((#[trigger] queue[i]).message_id == id || queue[i].logical_id
                == Some(id));
        assert(assoc::at(mesh.messages, group)[i] == queue[i]);
    }
    if waiting(mesh, group, id) {
        let i = choose|i: int|
            0 <= i < assoc::at(mesh.messages, group).len() && ((#[trigger] assoc::at(
                mesh.messages,
                group,
            )[i]).message_id == id || assoc::at(mesh.messages, group)[i].logical_id == Some(id));
        assert(queue[i] == assoc::at(mesh.messages, group)[i]);
    }
}

/// A mesh message is handed to MLS where neither of its ids was seen and its
/// ciphertext is base64 of a size that is taken; a repetition is put off while a
/// copy waits, and anything else is done with.
pub proof fn a_new_ciphertext_is_handed_to_mls(
    mesh: MeshView,
    id: Seq<char>,
    payload: GroupMlsMessagePayloadView,
)
    ensures
        ({
            let again = assoc::known(mesh.seen, id) || (payload.message_id is Some && assoc::known(
                mesh.seen,
                payload.message_id->0,
            ));
            let held = waiting(mesh, payload.group_id, id) || (payload.message_id is Some
                && waiting(mesh, payload.group_id, payload.message_id->0));
            let bytes = base64_bytes(payload.ciphertext);
            intake(mesh, id, Some(payload)) == (if !again && encode_utf8(payload.ciphertext).len()
                <= MAX_BASE64_PAYLOAD_SIZE && bytes is Some {
                MessageIntakeView::Decrypt(bytes->0)
            } else if again && held {
                MessageIntakeView::Settled(InternalMessageResult::Deferred)
            } else {
                MessageIntakeView::Settled(InternalMessageResult::Consumed)
            })
        }),
        intake(mesh, id, None) == MessageIntakeView::Settled(InternalMessageResult::Consumed),
{
    lemma_waiting(mesh, payload.group_id, id);
    if payload.message_id is Some {
        lemma_waiting(mesh, payload.group_id, payload.message_id->0);
    }
}

/// A relayed message whose id is new and whose content is no ciphertext is shown
/// as it came where MLS does not secure the group; where it does, only the
/// rejection is told, and the id is free again. Ciphertext is left to MLS, with
/// nothing shown and its id known.
pub proof fn a_relayed_message_is_taken_in(
    mesh: MeshView,
    message: RelayGroupMessageView,
    secured: bool,
    now: u128,
)
    requires
        mesh.wf(),
        !assoc::known(mesh.seen, message.message_id),
        mesh.seen.len() < MAX_GROUP_MESSAGE_DEDUP_ENTRIES,
    ensures
        ({
            let all = mesh.relay_message_arriving(message, secured, now);
            let next = mesh.relay_message_in(message, secured, now);
            let ciphertext = encode_utf8(message.content).len() <= MAX_BASE64_PAYLOAD_SIZE
                && base64_bytes(message.content) is Some;
            &&& ciphertext ==> all.len() == 0
            &&& !ciphertext && secured ==> all == seq![
                EffectView::Notify(NoticeView::PlaintextRejected { peer_id: message.sender }),
            ]
            &&& !ciphertext && !secured ==> all.len() == 1 && shows(
                all[0],
                message.group_id,
                message.sender,
                message.content,
                None,
                message.forward_info,
                message.timestamp,
                message.message_id,
                message.reply_to,
            )
            &&& assoc::known(next.seen, message.message_id) <==> ciphertext || !secured
            &&& next == (MeshView { seen: next.seen, ..mesh })
        }),
{
    assoc::lemma_put(mesh.seen, message.message_id, now);
    assoc::lemma_del(assoc::put(mesh.seen, message.message_id, now), message.message_id);
}

/// A mesh message is turned away only where its sender is not who they claim to
/// be, put off only where it waits, and taken otherwise.
pub proof fn a_mesh_message_is_answered(outcome: OutcomeView)
    ensures
        settled_as(outcome) == InternalMessageResult::SecurityRejected <==> outcome is SecurityRejected,
        settled_as(outcome) == InternalMessageResult::Deferred <==> outcome is Retriable,
        settled_as(outcome) == InternalMessageResult::Consumed <==> !(outcome is SecurityRejected)
            && !(outcome is Retriable),
{
}

} // verus!
