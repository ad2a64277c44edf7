//! What goes out: when a body is sealed, who gets which frame, and how a send is
//! told to have ended.

use vstd::prelude::*;

use crate::assoc;
use crate::base64_codec::base64_text;
use crate::constants::MAX_FORWARD_COUNT;
use crate::error::{ErrorView, TransportErrorView};
use crate::group_mesh::dated::{earliest, lemma_earliest, times_in};
use crate::group_mesh::effect::{EffectView, NoticeView};
use crate::group_mesh::limits::{
    MAX_RELAY_BROADCAST_PENDING, RELAY_BROADCAST_MAX_ATTEMPTS, RELAY_CAP_GROUP_DELIVERY_V3,
};
use crate::group_mesh::membership::{commit_frame, unsent, vouchers, welcome_frame, RICH_PAYLOAD_V1};
use crate::group_mesh::relay::reached_by;
use crate::group_mesh::sending::{
    armed_broadcast, broadcast_place, fanned_out, forward_fault, frame_ids, is_ready, member_frame,
    missed_by, opening, plain_fault, recipients_of, rich_fault, seals, send_result, told_count,
    unknowing, GroupSendView, ALL_SENDS_FAILED, CHUNK_NOT_FORWARDED, CHUNK_NOT_SENT,
    RESERVED_CONTENT, RESERVED_FORWARD,
};
use crate::group_mesh::state::{GroupSettings, MeshView};
use crate::group_mesh::types::{
    GroupCommitType, GroupInfoView, GroupMetadataView, GroupMlsCommitPayloadView,
    GroupMlsMessagePayloadView, GroupMlsWelcomePayloadView, GroupRole, RelayBroadcastPending,
    RelayBroadcastPendingView,
};
use crate::group_mesh::upkeep::{broadcast_gate, retrying_broadcast};
use crate::message::ContentType;
use crate::rosters::{except, lemma_unlisted, lemma_without, without};

verus! {

/// Everybody in the group but this node is known to read sealed bodies.
pub open spec fn all_read_sealed(
    me: Seq<char>,
    members: Seq<Seq<char>>,
    capable: Seq<Seq<char>>,
) -> bool {
    forall|m: Seq<char>| #[trigger] members.contains(m) && m != me ==> capable.contains(m)
}

/// The send has something that only a sealed body carries.
pub open spec fn has_extras(send: GroupSendView) -> bool {
    send.media_metadata is Some || send.forward_info is Some || send.content_type
        != ContentType::Text
}

/// The members who stand in the way of a seal are those, other than this node,
/// who are not known to read one.
pub proof fn the_unknowing_are_named(
    me: Seq<char>,
    members: Seq<Seq<char>>,
    capable: Seq<Seq<char>>,
)
    ensures
        forall|m: Seq<char>| #[trigger]
            unknowing(me, members, capable).contains(m) <==> members.contains(m) && m != me
                && !capable.contains(m),
        unknowing(me, members, capable).len() == 0 <==> all_read_sealed(me, members, capable),
{
    let who = unknowing(me, members, capable);
    assert forall|m: Seq<char>| #[trigger] who.contains(m) <==> members.contains(m) && m != me
        && !capable.contains(m) by {
        lemma_without(members, me, m);
        lemma_unlisted(without(members, me), capable, m);
    }
    if who.len() > 0 {
        assert(who.contains(who[0]));
    } else {
        assert forall|m: Seq<char>| #[trigger]
            members.contains(m) && m != me implies capable.contains(m) by {
            assert(!who.contains(m));
        }
    }
}

/// A body is sealed exactly where sealing is on, the send has extras, and every
/// other member is known to read sealed bodies.
pub proof fn a_body_is_sealed_where_all_can_read_it(
    settings: GroupSettings,
    me: Seq<char>,
    send: GroupSendView,
    members: Seq<Seq<char>>,
    capable: Seq<Seq<char>>,
)
    ensures
        seals(settings, me, send, members, capable) <==> settings.rich_payload_enabled
            && all_read_sealed(me, members, capable) && (send.media_metadata is Some
            || send.forward_info is Some || send.content_type != ContentType::Text),
{
    the_unknowing_are_named(me, members, capable);
}

/// A send that could have been sealed but for some members has those members
/// asked what they read, and no other send does. Media metadata that is not
/// sealed is told to be lost, with the members whose fault it is, and nothing
/// else is.
pub proof fn an_unsealed_send_says_why(
    settings: GroupSettings,
    me: Seq<char>,
    send: GroupSendView,
    members: Seq<Seq<char>>,
    capable: Seq<Seq<char>>,
    effect: EffectView,
)
    ensures
        opening(settings, me, send, members, capable).contains(effect) <==> match effect {
            EffectView::ProbeRichCapabilities { members: who } => {
                &&& settings.rich_payload_enabled && has_extras(send) && !all_read_sealed(
                    me,
                    members,
                    capable,
                )
                &&& who == unknowing(me, members, capable)
            },
            EffectView::Notify(NoticeView::RichExtrasDropped { group_id, unknown_members }) => {
                &&& send.media_metadata is Some && group_id == send.group
                &&& !(settings.rich_payload_enabled && all_read_sealed(me, members, capable))
                &&& unknown_members == if settings.rich_payload_enabled {
                    unknowing(me, members, capable)
                } else {
                    Seq::empty()
                }
            },
            _ => false,
        },
{
    the_unknowing_are_named(me, members, capable);
    let all = opening(settings, me, send, members, capable);
    if all.len() > 0 {
        assert(all.contains(all[0]));
    }
    if all.len() > 1 {
        assert(all.contains(all[1]));
    }
}

/// A message goes to the roster that is cached, or to the one that MLS reads
/// where none is cached; a group that neither knows is missing.
pub proof fn a_send_goes_to_the_known_roster(
    mesh: MeshView,
    group: Seq<char>,
    info: Result<Option<GroupInfoView>, ErrorView>,
)
    ensures
        assoc::known(mesh.members, group) ==> recipients_of(mesh, group, info) == Ok::<
            Seq<Seq<char>>,
            ErrorView,
        >(assoc::at(mesh.members, group)),
        !assoc::known(mesh.members, group) ==> recipients_of(mesh, group, info) == match info {
            Ok(Some(i)) => Ok::<Seq<Seq<char>>, ErrorView>(i.members),
            Ok(None) => Err(ErrorView::GroupNotFound(group)),
            Err(e) => Err(e),
        },
{
}

/// A frame says which group it is for, carries the ciphertext of the epoch, says
/// what it replies to, and shows an attribution only where none was sealed. A
/// broadcast says the same, was sent once, and keeps its priority.
pub proof fn a_frame_carries_the_send(
    send: GroupSendView,
    sealed: bool,
    ciphertext: Seq<u8>,
    epoch: u64,
    wall: i64,
)
    ensures
        member_frame(send, sealed, ciphertext, epoch) == (GroupMlsMessagePayloadView {
            group_id: send.group,
            ciphertext: base64_text(ciphertext),
            epoch,
            reply_to: send.reply_to,
            forward_info: if sealed {
                None
            } else {
                send.forward_info
            },
            message_id: None,
        }),
        armed_broadcast(send, sealed, ciphertext, epoch, wall) == (RelayBroadcastPendingView {
            group_id: send.group,
            ciphertext_b64: base64_text(ciphertext),
            epoch,
            reply_to: send.reply_to,
            forward_info: if sealed {
                None
            } else {
                send.forward_info
            },
            priority: send.priority,
            armed_at: wall,
            attempts: 1,
        }),
{
}

/// A message may be broadcast exactly where broadcasts are on, the relay has
/// acknowledged the group and reports deliveries, and the internet is there.
pub proof fn a_broadcast_is_open_where_the_relay_reports(
    mesh: MeshView,
    settings: GroupSettings,
    group: Seq<char>,
    internet: bool,
)
    ensures
        broadcast_gate(mesh, settings, group, internet) <==> settings.relay_broadcast_enabled
            && internet && (exists|i: int|
            0 <= i < mesh.synced.len() && (#[trigger] mesh.synced[i]).0 == group) && (exists|i: int|
            0 <= i < mesh.capabilities.len() && #[trigger] mesh.capabilities[i]
                == RELAY_CAP_GROUP_DELIVERY_V3@),
{
}

/// A broadcast is added beside those in flight while there is room for it.
pub proof fn a_broadcast_with_room_displaces_none(
    broadcasts: Seq<(Seq<char>, RelayBroadcastPendingView)>,
)
    requires
        broadcasts.len() < MAX_RELAY_BROADCAST_PENDING,
    ensures
        broadcast_place(broadcasts) == (broadcasts, Seq::<EffectView>::empty()),
{
}

/// The recipient at this place answered.
pub open spec fn answered(replies: Seq<Option<Seq<char>>>, i: int) -> bool {
    0 <= i < replies.len() && replies[i] is Some
}

/// Some recipient by this name has answered, or has not.
pub open spec fn one_who(
    recipients: Seq<Seq<char>>,
    replies: Seq<Option<Seq<char>>>,
    did: bool,
    name: Seq<char>,
) -> bool {
    exists|i: int|
        0 <= i < recipients.len() && #[trigger] recipients[i] == name && answered(replies, i) == did
}

/// Some recipient's frame went out under this id.
pub open spec fn one_sent_as(n: int, replies: Seq<Option<Seq<char>>>, id: Seq<char>) -> bool {
    exists|i: int| 0 <= i < n && i < replies.len() && #[trigger] replies[i] == Some(id)
}

/// Each recipient is counted once: as reached where their frame went out, with
/// the id that it went out under, and as missed where it did not.
pub proof fn every_recipient_is_accounted_for(
    recipients: Seq<Seq<char>>,
    replies: Seq<Option<Seq<char>>>,
    name: Seq<char>,
)
    ensures
        reached_by(recipients, replies).contains(name) <==> one_who(
            recipients,
            replies,
            true,
            name,
        ),
        missed_by(recipients, replies).contains(name) <==> one_who(
            recipients,
            replies,
            false,
            name,
        ),
        frame_ids(recipients.len(), replies).contains(name) <==> one_sent_as(
            recipients.len() as int,
            replies,
            name,
        ),
        reached_by(recipients, replies).len() + missed_by(recipients, replies).len()
            == recipients.len(),
        reached_by(recipients, replies).len() == frame_ids(recipients.len(), replies).len(),
    decreases recipients.len(),
{
    broadcast use vstd::seq_lib::group_seq_properties;

    if recipients.len() > 0 {
        let init = recipients.drop_last();
        let i = recipients.len() - 1;
        every_recipient_is_accounted_for(init, replies, name);
        assert forall|did: bool| #[trigger]
            one_who(recipients, replies, did, name) <==> one_who(init, replies, did, name) || (
            recipients[i] == name && answered(replies, i) == did) by {
            if one_who(init, replies, did, name) {
                let j = choose|j: int|
                    0 <= j < init.len() && #[trigger] init[j] == name && answered(replies, j)
                        == did;
                assert(recipients[j] == name);
            }
            if one_who(recipients, replies, did, name) {
                let j = choose|j: int|
                    0 <= j < recipients.len() && #[trigger] recipients[j] == name && answered(
                        replies,
                        j,
                    ) == did;
                if j < i {
                    assert(init[j] == name);
                }
            }
        }
        assert(one_sent_as(i + 1, replies, name) <==> one_sent_as(i, replies, name) || (i
            < replies.len() && replies[i] == Some(name)));
    }
}

/// A send ends as sent where every recipient's frame went out, with how many they
/// are and the ids of all frames; otherwise it ends as a partial failure that
/// names who was reached and who was missed.
pub proof fn a_send_is_told_as_it_ended(
    group: Seq<char>,
    recipients: Seq<Seq<char>>,
    replies: Seq<Option<Seq<char>>>,
    name: Seq<char>,
)
    requires
        recipients.len() <= u32::MAX,
    ensures
        (forall|i: int| 0 <= i < recipients.len() ==> #[trigger] answered(replies, i)) <==> (
        fanned_out(group, recipients, replies) matches EffectView::Notify(
            NoticeView::MessageSent { .. },
        )),
        match fanned_out(group, recipients, replies) {
            EffectView::Notify(NoticeView::MessageSent { group_id, message_ids, member_count }) => {
                &&& group_id == group && member_count == recipients.len()
                &&& message_ids.contains(name) <==> one_sent_as(
                    recipients.len() as int,
                    replies,
                    name,
                )
                &&& message_ids.len() == recipients.len()
            },
            EffectView::Notify(
                NoticeView::PartialFailure { group_id, failed_members, succeeded_members },
            ) => {
                &&& group_id == group
                &&& failed_members.contains(name) <==> one_who(recipients, replies, false, name)
                &&& succeeded_members.contains(name) <==> one_who(recipients, replies, true, name)
                &&& failed_members.len() + succeeded_members.len() == recipients.len()
            },
            _ => false,
        },
{
    every_recipient_is_accounted_for(recipients, replies, name);
    let failed = missed_by(recipients, replies);
    if failed.len() > 0 {
        every_recipient_is_accounted_for(recipients, replies, failed[0]);
        assert(failed.contains(failed[0]));
        let i = choose|i: int|
            0 <= i < recipients.len() && #[trigger] recipients[i] == failed[0] && answered(
                replies,
                i,
            ) == false;
        assert(!answered(replies, i));
    } else {
        assert forall|i: int| 0 <= i < recipients.len() implies #[trigger] answered(replies, i) by {
            every_recipient_is_accounted_for(recipients, replies, recipients[i]);
            if !answered(replies, i) {
                assert(one_who(recipients, replies, false, recipients[i]));
                assert(failed.contains(recipients[i]));
            }
        }
    }
    assert(told_count(recipients.len()) == recipients.len());
}

/// A commit whose sends are reported leaves out exactly those whose send failed
/// or was never reported.
pub proof fn a_failed_send_is_named(recipients: Seq<Seq<char>>, sent: Seq<bool>, name: Seq<char>)
    ensures
        unsent(recipients, sent).contains(name) <==> exists|i: int|
            0 <= i < recipients.len() && #[trigger] recipients[i] == name && !(i < sent.len()
                && sent[i]),
    decreases recipients.len(),
{
    broadcast use vstd::seq_lib::group_seq_properties;

    if recipients.len() > 0 {
        let init = recipients.drop_last();
        let last = recipients.len() - 1;
        a_failed_send_is_named(init, sent, name);
        if unsent(init, sent).contains(name) {
            let i = choose|i: int|
                0 <= i < init.len() && #[trigger] init[i] == name && !(i < sent.len() && sent[i]);
            assert(recipients[i] == name);
        }
        if exists|i: int|
            0 <= i < recipients.len() && #[trigger] recipients[i] == name && !(i < sent.len()
                && sent[i]) {
            let i = choose|i: int|
                0 <= i < recipients.len() && #[trigger] recipients[i] == name && !(i < sent.len()
                    && sent[i]);
            if i < last {
                assert(init[i] == name);
            }
        }
        if !(last < sent.len() && sent[last]) && recipients[last] == name {
            assert(recipients[last] == name);
        }
    }
}

/// A plain message is refused only where its text is reserved. One with extras is
/// refused where its text is reserved, where it poses as a chunk of a file, or
/// where it is too large. A forwarded one is refused on the same grounds and where
/// it was forwarded too often.
pub proof fn a_send_is_refused_on_these_grounds(
    reserved: bool,
    content_type: Option<ContentType>,
    kind: ContentType,
    count: u32,
    size: Option<ErrorView>,
)
    ensures
        plain_fault(reserved) is None <==> !reserved,
        rich_fault(reserved, content_type, size) is None <==> !reserved && content_type != Some(
            ContentType::FileChunk,
        ) && size is None,
        forward_fault(reserved, kind, count, size) is None <==> !reserved && kind
            != ContentType::FileChunk && count <= MAX_FORWARD_COUNT && size is None,
        reserved ==> plain_fault(reserved) == Some(ErrorView::InvalidArgument(RESERVED_CONTENT@))
            && rich_fault(reserved, content_type, size) == Some(
            ErrorView::InvalidArgument(RESERVED_CONTENT@),
        ) && forward_fault(reserved, kind, count, size) == Some(
            ErrorView::InvalidArgument(RESERVED_FORWARD@),
        ),
        !reserved && content_type == Some(ContentType::FileChunk) ==> rich_fault(
            reserved,
            content_type,
            size,
        ) == Some(ErrorView::InvalidArgument(CHUNK_NOT_SENT@)),
        !reserved && kind == ContentType::FileChunk ==> forward_fault(reserved, kind, count, size)
            == Some(ErrorView::InvalidArgument(CHUNK_NOT_FORWARDED@)),
{
}

/// What a welcome says of who reads sealed bodies: of this node where sealing is
/// on, of any other member what was heard of them, and of the invitee nothing.
pub open spec fn heard_of(
    settings: GroupSettings,
    me: Seq<char>,
    invitee: Seq<char>,
    members: Seq<Seq<char>>,
    known: Seq<Option<Seq<u8>>>,
    entry: (Seq<char>, Seq<u8>),
) -> bool {
    exists|i: int|
        0 <= i < members.len() && #[trigger] members[i] == entry.0 && entry.0 != invitee && (
        if entry.0 == me {
            settings.rich_payload_enabled && entry.1 == seq![RICH_PAYLOAD_V1]
        } else {
            i < known.len() && known[i] == Some(entry.1)
        })
}

/// An invitee is told who else reads sealed bodies, as far as this node knows.
pub proof fn an_invitee_hears_who_reads_seals(
    settings: GroupSettings,
    me: Seq<char>,
    invitee: Seq<char>,
    members: Seq<Seq<char>>,
    known: Seq<Option<Seq<u8>>>,
    entry: (Seq<char>, Seq<u8>),
)
    ensures
        vouchers(settings, me, invitee, members, known).contains(entry) <==> heard_of(
            settings,
            me,
            invitee,
            members,
            known,
            entry,
        ),
    decreases members.len(),
{
    broadcast use vstd::seq_lib::group_seq_properties;

    if members.len() > 0 {
        let init = members.drop_last();
        let last = members.len() - 1;
        an_invitee_hears_who_reads_seals(settings, me, invitee, init, known, entry);
        if heard_of(settings, me, invitee, init, known, entry) {
            let i = choose|i: int|
                0 <= i < init.len() && #[trigger] init[i] == entry.0 && entry.0 != invitee && (
                if entry.0 == me {
                    settings.rich_payload_enabled && entry.1 == seq![RICH_PAYLOAD_V1]
                } else {
                    i < known.len() && known[i] == Some(entry.1)
                });
            assert(members[i] == entry.0);
        }
        if heard_of(settings, me, invitee, members, known, entry) {
            let i = choose|i: int|
                0 <= i < members.len() && #[trigger] members[i] == entry.0 && entry.0 != invitee
                    && (if entry.0 == me {
                    settings.rich_payload_enabled && entry.1 == seq![RICH_PAYLOAD_V1]
                } else {
                    i < known.len() && known[i] == Some(entry.1)
                });
            if i < last {
                assert(init[i] == entry.0);
            }
        }
        let earlier = vouchers(settings, me, invitee, init, known);
        let all = vouchers(settings, me, invitee, members, known);
        if all.len() > earlier.len() {
            assert(all == earlier.push(all.last()));
            assert(members[last] == all.last().0);
        }
    }
}

/// A welcome carries the group's name, roster, roles and creator as they are on
/// record; a commit says what it is and whom it affects.
pub proof fn frames_say_what_is_on_record(
    group: Seq<char>,
    name: Option<Seq<char>>,
    data: Seq<u8>,
    members: Seq<Seq<char>>,
    metadata: GroupMetadataView,
    rich: Seq<(Seq<char>, Seq<u8>)>,
    commit_type: GroupCommitType,
    epoch: u64,
    affected: Option<Seq<char>>,
    role: Option<GroupRole>,
    affected_rich: Option<Seq<u8>>,
)
    ensures
        welcome_frame(group, name, data, members, Some(metadata), rich) == (
        GroupMlsWelcomePayloadView {
            group_id: group,
            group_name: name,
            welcome_data: base64_text(data),
            member_list: members,
            member_roles: metadata.roles,
            member_rich: rich,
            created_by: metadata.created_by,
        }),
        welcome_frame(group, name, data, members, None, rich).member_roles.len() == 0,
        welcome_frame(group, name, data, members, None, rich).created_by is None,
        commit_frame(group, commit_type, data, epoch, affected, role, affected_rich) == (
        GroupMlsCommitPayloadView {
            group_id: group,
            commit_type,
            ciphertext: base64_text(data),
            epoch,
            affected_member: affected,
            role,
            affected_member_rich: affected_rich,
        }),
{
}

/// Where every place for a broadcast is taken, the one that was armed first makes
/// way: whatever stays was armed no earlier than any that goes.
pub proof fn the_first_armed_broadcast_makes_way(
    broadcasts: Seq<(Seq<char>, RelayBroadcastPendingView)>,
    kept: (Seq<char>, RelayBroadcastPendingView),
    effect: EffectView,
)
    requires
        broadcast_place(broadcasts).0.contains(kept),
        broadcast_place(broadcasts).1.contains(effect),
    ensures
        broadcasts.contains(kept),
        effect matches EffectView::DowngradeBroadcast { message_id, pending }
            && broadcasts.contains((message_id, pending)) && pending.armed_at <= kept.1.armed_at,
    decreases broadcasts.len(),
{
    if broadcasts.len() >= MAX_RELAY_BROADCAST_PENDING {
        let times = times_in::<RelayBroadcastPending>(broadcasts);
        lemma_earliest(times);
        let i = earliest(times);
        let rest = broadcasts.remove(i);
        let later = broadcast_place(rest).1;
        let first = EffectView::DowngradeBroadcast {
            message_id: broadcasts[i].0,
            pending: broadcasts[i].1,
        };
        lemma_kept_broadcast(rest, kept);
        let k = choose|k: int| 0 <= k < rest.len() && rest[k] == kept;
        let m = if k < i {
            k
        } else {
            k + 1
        };
        assert(broadcasts[m] == kept);
        assert(times[i] <= times[m]);
        if effect == first {
            assert(broadcasts.contains(broadcasts[i]));
        } else {
            let n = choose|n: int|
                0 <= n < broadcast_place(broadcasts).1.len() && broadcast_place(broadcasts).1[n]
                    == effect;
            assert(later[n - 1] == effect);
            the_first_armed_broadcast_makes_way(rest, kept, effect);
            if let EffectView::DowngradeBroadcast { message_id, pending } = effect {
                let q = choose|q: int| 0 <= q < rest.len() && rest[q] == (message_id, pending);
                let r = if q < i {
                    q
                } else {
                    q + 1
                };
                assert(broadcasts[r] == (message_id, pending));
            }
        }
    }
}

proof fn lemma_kept_broadcast(
    broadcasts: Seq<(Seq<char>, RelayBroadcastPendingView)>,
    kept: (Seq<char>, RelayBroadcastPendingView),
)
    requires
        broadcast_place(broadcasts).0.contains(kept),
    ensures
        broadcasts.contains(kept),
    decreases broadcasts.len(),
{
    if broadcasts.len() >= MAX_RELAY_BROADCAST_PENDING {
        let times = times_in::<RelayBroadcastPending>(broadcasts);
        lemma_earliest(times);
        let i = earliest(times);
        let rest = broadcasts.remove(i);
        lemma_kept_broadcast(rest, kept);
        let k = choose|k: int| 0 <= k < rest.len() && rest[k] == kept;
        let m = if k < i {
            k
        } else {
            k + 1
        };
        assert(broadcasts[m] == kept);
    }
}

/// A fan-out fails exactly where there was somebody to reach and nobody was
/// reached; otherwise it is answered with the ids of the frames that went out.
pub proof fn a_fan_out_fails_where_nobody_was_reached(
    recipients: Seq<Seq<char>>,
    replies: Seq<Option<Seq<char>>>,
    id: Seq<char>,
)
    ensures
        match send_result(recipients, replies) {
            Ok(ids) => (recipients.len() == 0 || exists|i: int|
                0 <= i < recipients.len() && #[trigger] answered(replies, i)) && (ids.contains(id)
                <==> one_sent_as(recipients.len() as int, replies, id)),
            Err(e) => e == ErrorView::Transport(TransportErrorView::SendFailed(ALL_SENDS_FAILED@))
                && recipients.len() > 0 && (forall|i: int|
                0 <= i < recipients.len() ==> !#[trigger] answered(replies, i)),
        },
{
    every_recipient_is_accounted_for(recipients, replies, id);
    let ids = frame_ids(recipients.len(), replies);
    if ids.len() > 0 {
        every_recipient_is_accounted_for(recipients, replies, ids[0]);
        assert(ids.contains(ids[0]));
        let i = choose|i: int|
            0 <= i < recipients.len() && i < replies.len() && #[trigger] replies[i] == Some(
                ids[0],
            );
        assert(answered(replies, i));
    } else {
        assert forall|i: int| 0 <= i < recipients.len() implies !#[trigger] answered(
            replies,
            i,
        ) by {
            if answered(replies, i) {
                every_recipient_is_accounted_for(recipients, replies, replies[i]->0);
                assert(replies[i] == Some(replies[i]->0));
                assert(one_sent_as(recipients.len() as int, replies, replies[i]->0));
                assert(ids.contains(replies[i]->0));
            }
        }
    }
}

/// A group is ready for sealed bodies exactly where sealing is on and every other
/// member is known to read them.
pub proof fn a_group_is_ready_where_all_read_seals(
    settings: GroupSettings,
    me: Seq<char>,
    members: Seq<Seq<char>>,
    capable: Seq<Seq<char>>,
)
    ensures
        is_ready(settings, me, members, capable) <==> settings.rich_payload_enabled
            && all_read_sealed(me, members, capable),
{
    the_unknowing_are_named(me, members, capable);
}

/// A broadcast that went out is in flight, beside the others where there is room,
/// and is told as sent under its own id to as many members as there are beside
/// this node.
pub proof fn a_broadcast_is_in_flight_once_sent(
    mesh: MeshView,
    me: Seq<char>,
    members: Seq<Seq<char>>,
    id: Seq<char>,
    pending: RelayBroadcastPendingView,
    other: Seq<char>,
)
    requires
        mesh.wf(),
        mesh.broadcasts.len() < MAX_RELAY_BROADCAST_PENDING,
        members.len() <= u32::MAX,
    ensures
        ({
            let next = mesh.broadcast_tracked(id, pending);
            &&& assoc::known(next.broadcasts, id) && assoc::at(next.broadcasts, id) == pending
            &&& other != id ==> assoc::lookup(next.broadcasts, other) == assoc::lookup(
                mesh.broadcasts,
                other,
            )
            &&& next == (MeshView { broadcasts: next.broadcasts, ..mesh })
            &&& mesh.tracking_broadcast(me, members, id, pending) == seq![
                EffectView::Notify(
                    NoticeView::MessageSent {
                        group_id: pending.group_id,
                        message_ids: seq![id],
                        member_count: without(members, me).len() as u32,
                    },
                ),
            ]
        }),
{
    assoc::lemma_put(mesh.broadcasts, id, pending);
    members.lemma_filter_len(except(me));
    assert(told_count(without(members, me).len()) == without(members, me).len());
}

/// A broadcast that is tried again is in flight anew where it went out, with one
/// more attempt and the time of it, and goes out to each member where it did not.
pub proof fn a_retried_broadcast_is_in_flight_or_downgraded(
    mesh: MeshView,
    id: Seq<char>,
    pending: RelayBroadcastPendingView,
    sent: bool,
    wall: i64,
)
    requires
        mesh.wf(),
        pending.attempts < RELAY_BROADCAST_MAX_ATTEMPTS,
    ensures
        ({
            let next = mesh.broadcast_retried(id, pending, sent, wall);
            let all = retrying_broadcast(id, pending, sent);
            &&& sent ==> all.len() == 0 && assoc::known(next.broadcasts, id) && assoc::at(
                next.broadcasts,
                id,
            ).attempts == pending.attempts + 1 && assoc::at(next.broadcasts, id).armed_at == wall
                && assoc::at(next.broadcasts, id) == (RelayBroadcastPendingView {
                attempts: assoc::at(next.broadcasts, id).attempts,
                armed_at: wall,
                ..pending
            })
            &&& !sent ==> next == mesh && all == seq![
                EffectView::DowngradeBroadcast { message_id: id, pending },
            ]
        }),
{
    assoc::lemma_put(
        mesh.broadcasts,
        id,
        RelayBroadcastPendingView {
            attempts: (pending.attempts + 1) as u32,
            armed_at: wall,
            ..pending
        },
    );
}

} // verus!
