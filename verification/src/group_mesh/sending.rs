//! Sending to a group: what is refused, what is sealed, and whether one relay
//! broadcast or one frame for each member goes out.

use vstd::prelude::*;
use vstd::string::StringExecFns;

use crate::assoc;
use crate::base64_codec::{base64_encode, base64_text, encodable};
use crate::constants::MAX_FORWARD_COUNT;
use crate::error::{told, Error, ErrorView, TransportError, TransportErrorView};
use crate::events::{copy_text, copy_texts};
use crate::group_mesh::commits::carries;
use crate::group_mesh::dated::{earliest, lemma_earliest, oldest_at, times_in};
use crate::group_mesh::effect::{Effect, EffectView, Effects, Notice, NoticeView};
use crate::group_mesh::limits::MAX_RELAY_BROADCAST_PENDING;
use crate::group_mesh::membership::refresh_result;
use crate::group_mesh::relay::{reached_by, sent_to};
use crate::group_mesh::state::{GroupSettings, MeshView, OfflineProtocol};
use crate::group_mesh::types::{
    copy_forward, ForwardInfoView, GroupInfo, GroupInfoView, GroupMlsMessagePayload,
    GroupMlsMessagePayloadView, GroupRichReadiness, GroupSendOptions, RelayBroadcastPending,
    RelayBroadcastPendingView,
};
use crate::group_mesh::upkeep::broadcast_gate;
use crate::message::{ContentType, ForwardInfo, MediaMetadata, Message, MessagePriority};
use crate::rosters::{others, unlisted, unlisted_in, without};
use crate::text::{decimal, push_decimal};

verus! {

/// Refusal of content that could pass for a control frame.
pub const RESERVED_CONTENT: &'static str = "Message content must not start with a reserved internal prefix";

/// Refusal of an internal content type.
pub const CHUNK_NOT_SENT: &'static str = "FileChunk is an internal content type and cannot be sent directly";

/// Refusal to forward content that could pass for a control frame.
pub const RESERVED_FORWARD: &'static str = "Cannot forward a message with reserved internal prefix content";

/// Refusal to forward an internal content type.
pub const CHUNK_NOT_FORWARDED: &'static str = "FileChunk is an internal content type and cannot be forwarded";

/// What a send that reached nobody is answered.
pub const ALL_SENDS_FAILED: &'static str = "All group message sends failed";

/// A group message on its way out.
#[derive(Debug, PartialEq, Eq)]
pub struct GroupSend {
    pub group_id: String,
    pub content: String,
    pub priority: MessagePriority,
    pub reply_to: Option<String>,
    pub forward_info: Option<ForwardInfo>,
    pub media_metadata: Option<MediaMetadata>,
    pub content_type: ContentType,
}

/// What a [`GroupSend`] says.
#[verifier::ext_equal]
pub struct GroupSendView {
    pub group: Seq<char>,
    pub content: Seq<char>,
    pub priority: MessagePriority,
    pub reply_to: Option<Seq<char>>,
    pub forward_info: Option<ForwardInfoView>,
    pub media_metadata: Option<Seq<char>>,
    pub content_type: ContentType,
}

impl DeepView for GroupSend {
    type V = GroupSendView;

    open spec fn deep_view(&self) -> GroupSendView {
        GroupSendView {
            group: self.group_id@,
            content: self.content@,
            priority: self.priority,
            reply_to: self.reply_to.deep_view(),
            forward_info: self.forward_info.deep_view(),
            media_metadata: self.media_metadata.deep_view(),
            content_type: self.content_type,
        }
    }
}

/// The priority of a send, medium where none is given.
pub open spec fn priority_or_medium(priority: Option<MessagePriority>) -> MessagePriority {
    match priority {
        Some(p) => p,
        None => MessagePriority::Medium,
    }
}

fn or_medium(priority: Option<MessagePriority>) -> (r: MessagePriority)
    ensures
        r == priority_or_medium(priority),
{
    match priority {
        Some(p) => p,
        None => MessagePriority::Medium,
    }
}

/// A copy of a content type.
fn copy_kind(kind: &ContentType) -> (r: ContentType)
    ensures
        r == *kind,
{
    match kind {
        ContentType::Text => ContentType::Text,
        ContentType::Image => ContentType::Image,
        ContentType::Video => ContentType::Video,
        ContentType::File => ContentType::File,
        ContentType::FileChunk => ContentType::FileChunk,
        ContentType::Other(name) => ContentType::Other(name.clone()),
    }
}

/// The refusal of a message that was forwarded too often.
pub open spec fn forward_limit_text(count: u32) -> Seq<char> {
    "Forward count "@ + decimal(count as nat) + " exceeds maximum of "@ + decimal(
        MAX_FORWARD_COUNT as nat,
    )
}

/// Why a plain send is refused, if it is.
pub open spec fn plain_fault(reserved: bool) -> Option<ErrorView> {
    if reserved {
        Some(ErrorView::InvalidArgument(RESERVED_CONTENT@))
    } else {
        None
    }
}

/// Why a rich send is refused, if it is: reserved content, an internal content
/// type and oversized extras are looked at in this order.
pub open spec fn rich_fault(
    reserved: bool,
    content_type: Option<ContentType>,
    size: Option<ErrorView>,
) -> Option<ErrorView> {
    if reserved {
        Some(ErrorView::InvalidArgument(RESERVED_CONTENT@))
    } else if content_type matches Some(kind) && kind is FileChunk {
        Some(ErrorView::InvalidArgument(CHUNK_NOT_SENT@))
    } else {
        size
    }
}

/// Why a forward is refused, if it is.
pub open spec fn forward_fault(
    reserved: bool,
    content_type: ContentType,
    forward_count: u32,
    size: Option<ErrorView>,
) -> Option<ErrorView> {
    if reserved {
        Some(ErrorView::InvalidArgument(RESERVED_FORWARD@))
    } else if content_type is FileChunk {
        Some(ErrorView::InvalidArgument(CHUNK_NOT_FORWARDED@))
    } else if forward_count > MAX_FORWARD_COUNT {
        Some(ErrorView::InvalidArgument(forward_limit_text(forward_count)))
    } else {
        size
    }
}

/// What a verdict on the size of extras says.
pub open spec fn size_fault(size: Result<(), Error>) -> Option<ErrorView> {
    match size {
        Ok(()) => None,
        Err(e) => Some(e.deep_view()),
    }
}

impl OfflineProtocol {
    /// Sends a message to all members of a group. `reserved` says whether the
    /// content starts with a reserved internal prefix.
    pub fn send_group_message(
        &self,
        group_id: &str,
        content: &str,
        priority: Option<MessagePriority>,
        reply_to_msg: Option<String>,
        reserved: bool,
    ) -> (r: Result<GroupSend, Error>)
        ensures
            match (r, plain_fault(reserved)) {
                (Err(e), Some(fault)) => e.deep_view() == fault,
                (Ok(send), None) => send.deep_view() == (GroupSendView {
                    group: group_id@,
                    content: content@,
                    priority: priority_or_medium(priority),
                    reply_to: reply_to_msg.deep_view(),
                    forward_info: None,
                    media_metadata: None,
                    content_type: ContentType::Text,
                }),
                _ => false,
            },
    {
        if reserved {
            return Err(Error::InvalidArgument(RESERVED_CONTENT.to_owned()));
        }
        Ok(
            GroupSend {
                group_id: group_id.to_owned(),
                content: content.to_owned(),
                priority: or_medium(priority),
                reply_to: reply_to_msg,
                forward_info: None,
                media_metadata: None,
                content_type: ContentType::Text,
            },
        )
    }

    /// Like [`Self::send_group_message`], with rich media fields. `size` is the
    /// verdict on the size of the extras.
    pub fn send_group_message_with(
        &self,
        group_id: &str,
        content: &str,
        options: GroupSendOptions,
        reserved: bool,
        size: Result<(), Error>,
    ) -> (r: Result<GroupSend, Error>)
        ensures
            match (r, rich_fault(reserved, options.content_type, size_fault(size))) {
                (Err(e), Some(fault)) => e.deep_view() == fault,
                (Ok(send), None) => send.deep_view() == (GroupSendView {
                    group: group_id@,
                    content: content@,
                    priority: priority_or_medium(options.priority),
                    reply_to: options.reply_to_msg.deep_view(),
                    forward_info: None,
                    media_metadata: options.media_metadata.deep_view(),
                    content_type: match options.content_type {
                        Some(kind) => kind,
                        None => ContentType::Text,
                    },
                }),
                _ => false,
            },
    {
        if reserved {
            return Err(Error::InvalidArgument(RESERVED_CONTENT.to_owned()));
        }
        if let Some(kind) = &options.content_type {
            if kind.is_file_chunk() {
                return Err(Error::InvalidArgument(CHUNK_NOT_SENT.to_owned()));
            }
        }
        if let Err(e) = size {
            return Err(e);
        }
        let content_type = match options.content_type {
            Some(kind) => kind,
            None => ContentType::Text,
        };
        Ok(
            GroupSend {
                group_id: group_id.to_owned(),
                content: content.to_owned(),
                priority: or_medium(options.priority),
                reply_to: options.reply_to_msg,
                forward_info: None,
                media_metadata: options.media_metadata,
                content_type,
            },
        )
    }

    /// Forwards a message to all members of a group. `forward_info` is the
    /// attribution made from the message, and `size` the verdict on the size of
    /// the extras.
    pub fn forward_message_to_group(
        &self,
        original_message: &Message,
        group_id: &str,
        priority: Option<MessagePriority>,
        forward_info: ForwardInfo,
        reserved: bool,
        size: Result<(), Error>,
    ) -> (r: Result<GroupSend, Error>)
        ensures
            match (
                r,
                forward_fault(
                    reserved,
                    original_message.content_type,
                    forward_info.forward_count,
                    size_fault(size),
                ),
            ) {
                (Err(e), Some(fault)) => e.deep_view() == fault,
                (Ok(send), None) => send.deep_view() == (GroupSendView {
                    group: group_id@,
                    content: original_message.content@,
                    priority: priority_or_medium(priority),
                    reply_to: None,
                    forward_info: Some(forward_info.deep_view()),
                    media_metadata: original_message.media_metadata.deep_view(),
                    content_type: original_message.content_type,
                }),
                _ => false,
            },
    {
        if reserved {
            return Err(Error::InvalidArgument(RESERVED_FORWARD.to_owned()));
        }
        if original_message.content_type.is_file_chunk() {
            return Err(Error::InvalidArgument(CHUNK_NOT_FORWARDED.to_owned()));
        }
        if forward_info.forward_count > MAX_FORWARD_COUNT {
            let mut text = String::new();
            text.append("Forward count ");
            push_decimal(&mut text, forward_info.forward_count as u64);
            text.append(" exceeds maximum of ");
            push_decimal(&mut text, MAX_FORWARD_COUNT as u64);
            assert(text@ =~= forward_limit_text(forward_info.forward_count));
            return Err(Error::InvalidArgument(text));
        }
        if let Err(e) = size {
            return Err(e);
        }
        let media_metadata: Option<MediaMetadata> = match &original_message.media_metadata {
            Some(m) => Some(MediaMetadata { encoded: m.encoded.clone() }),
            None => None,
        };
        Ok(
            GroupSend {
                group_id: group_id.to_owned(),
                content: original_message.content.clone(),
                priority: or_medium(priority),
                reply_to: None,
                forward_info: Some(forward_info),
                media_metadata,
                content_type: copy_kind(&original_message.content_type),
            },
        )
    }
}

/// The message carries something that only a sealed body may carry, or that is
/// lost without one.
pub open spec fn wants_seal(send: GroupSendView) -> bool {
    send.media_metadata is Some || send.forward_info is Some || !(send.content_type is Text)
}

/// The other members that are not known to read a sealed body.
pub open spec fn unknowing(
    me: Seq<char>,
    members: Seq<Seq<char>>,
    capable: Seq<Seq<char>>,
) -> Seq<Seq<char>> {
    unlisted(without(members, me), capable)
}

/// The message is sealed: it wants to be, sealing is on, and every other member
/// is known to read it. One ciphertext serves the whole group.
pub open spec fn seals(
    settings: GroupSettings,
    me: Seq<char>,
    send: GroupSendView,
    members: Seq<Seq<char>>,
    capable: Seq<Seq<char>>,
) -> bool {
    wants_seal(send) && settings.rich_payload_enabled && unknowing(me, members, capable).len() == 0
}

/// The members that are blamed for an unsealed message: none where sealing is
/// off.
pub open spec fn blamed(
    settings: GroupSettings,
    me: Seq<char>,
    send: GroupSendView,
    members: Seq<Seq<char>>,
    capable: Seq<Seq<char>>,
) -> Seq<Seq<char>> {
    if wants_seal(send) && settings.rich_payload_enabled {
        unknowing(me, members, capable)
    } else {
        Seq::empty()
    }
}

/// What an opened send asks for. Media metadata never travels in clear: where the
/// message is not sealed it is dropped, and the application is told.
pub open spec fn opening(
    settings: GroupSettings,
    me: Seq<char>,
    send: GroupSendView,
    members: Seq<Seq<char>>,
    capable: Seq<Seq<char>>,
) -> Seq<EffectView> {
    if seals(settings, me, send, members, capable) {
        Seq::empty()
    } else {
        let who = blamed(settings, me, send, members, capable);
        let probe: Seq<EffectView> = if who.len() > 0 {
            seq![EffectView::ProbeRichCapabilities { members: who }]
        } else {
            Seq::empty()
        };
        let loss: Seq<EffectView> = if send.media_metadata is Some {
            seq![
                EffectView::Notify(
                    NoticeView::RichExtrasDropped { group_id: send.group, unknown_members: who },
                ),
            ]
        } else {
            Seq::empty()
        };
        probe + loss
    }
}

/// The members of a group for a send, cache first, or why they cannot be told.
pub open spec fn recipients_of(
    mesh: MeshView,
    group: Seq<char>,
    info: Result<Option<GroupInfoView>, ErrorView>,
) -> Result<Seq<Seq<char>>, ErrorView> {
    match assoc::lookup(mesh.members, group) {
        Some(members) => Ok(members),
        None => refresh_result(group, info),
    }
}

/// A send whose recipients are known.
#[derive(Debug, PartialEq, Eq)]
pub struct OpenedSend {
    pub members: Vec<String>,
    /// Whether the body is to be sealed before it is encrypted.
    pub sealed: bool,
}

/// The attribution that travels beside the ciphertext: none where it is sealed
/// inside.
pub open spec fn visible_forward(send: GroupSendView, sealed: bool) -> Option<ForwardInfoView> {
    if sealed {
        None
    } else {
        send.forward_info
    }
}

/// The broadcast of a send.
pub open spec fn armed_broadcast(
    send: GroupSendView,
    sealed: bool,
    ciphertext: Seq<u8>,
    epoch: u64,
    wall: i64,
) -> RelayBroadcastPendingView {
    RelayBroadcastPendingView {
        group_id: send.group,
        ciphertext_b64: base64_text(ciphertext),
        epoch,
        reply_to: send.reply_to,
        forward_info: visible_forward(send, sealed),
        priority: send.priority,
        armed_at: wall,
        attempts: 1,
    }
}

/// The frame of a send for each member.
pub open spec fn member_frame(
    send: GroupSendView,
    sealed: bool,
    ciphertext: Seq<u8>,
    epoch: u64,
) -> GroupMlsMessagePayloadView {
    GroupMlsMessagePayloadView {
        group_id: send.group,
        ciphertext: base64_text(ciphertext),
        epoch,
        reply_to: send.reply_to,
        forward_info: visible_forward(send, sealed),
        message_id: None,
    }
}

/// The frames of a send that goes to each member.
#[derive(Debug, PartialEq, Eq)]
pub struct MemberFrames {
    pub message: GroupMlsMessagePayload,
    /// Who gets it: every other member.
    pub recipients: Vec<String>,
}

/// The tracker of broadcasts with place for one more: at the cap the oldest are
/// downgraded.
pub open spec fn broadcast_place(
    broadcasts: Seq<(Seq<char>, RelayBroadcastPendingView)>,
) -> (Seq<(Seq<char>, RelayBroadcastPendingView)>, Seq<EffectView>)
    decreases broadcasts.len(),
{
    if broadcasts.len() < MAX_RELAY_BROADCAST_PENDING {
        (broadcasts, Seq::empty())
    } else {
        proof {
            lemma_earliest(times_in::<RelayBroadcastPending>(broadcasts));
        }
        let i = earliest(times_in::<RelayBroadcastPending>(broadcasts));
        let rest = broadcast_place(broadcasts.remove(i));
        (
            rest.0,
            seq![
                EffectView::DowngradeBroadcast {
                    message_id: broadcasts[i].0,
                    pending: broadcasts[i].1,
                },
            ] + rest.1,
        )
    }
}

/// A length as the application is told it.
pub open spec fn told_count(n: nat) -> u32 {
    (n % 0x1_0000_0000) as u32
}

fn count_of(n: usize) -> (r: u32)
    ensures
        r == told_count(n as nat),
{
    let wide: u64 = n as u64;
    assert((wide as u32) as u64 == wide % 0x1_0000_0000) by (bit_vector);
    #[verifier::truncate]
    (wide as u32)
}

/// The ids of the frames that went out, in order.
pub open spec fn frame_ids(n: nat, replies: Seq<Option<Seq<char>>>) -> Seq<Seq<char>>
    decreases n,
{
    if n == 0 {
        Seq::empty()
    } else {
        let rest = frame_ids((n - 1) as nat, replies);
        if n - 1 < replies.len() && replies[n - 1] is Some {
            rest.push(replies[n - 1]->0)
        } else {
            rest
        }
    }
}

/// The recipients that were not sent to, in order.
pub open spec fn missed_by(recipients: Seq<Seq<char>>, replies: Seq<Option<Seq<char>>>) -> Seq<
    Seq<char>,
>
    decreases recipients.len(),
{
    if recipients.len() == 0 {
        Seq::empty()
    } else {
        let rest = missed_by(recipients.drop_last(), replies);
        let i = recipients.len() - 1;
        if i < replies.len() && replies[i] is Some {
            rest
        } else {
            rest.push(recipients[i])
        }
    }
}

/// What a fanned-out send asks for.
pub open spec fn fanned_out(
    group: Seq<char>,
    recipients: Seq<Seq<char>>,
    replies: Seq<Option<Seq<char>>>,
) -> EffectView {
    let ids = frame_ids(recipients.len(), replies);
    let failed = missed_by(recipients, replies);
    let succeeded = reached_by(recipients, replies);
    if failed.len() == 0 {
        EffectView::Notify(
            NoticeView::MessageSent {
                group_id: group,
                message_ids: ids,
                member_count: told_count(succeeded.len()),
            },
        )
    } else {
        EffectView::Notify(
            NoticeView::PartialFailure {
                group_id: group,
                failed_members: failed,
                succeeded_members: succeeded,
            },
        )
    }
}

/// The recipients that were not sent to.
impl MeshView {
    /// The state after a broadcast went out: it is in flight, and those make way
    /// that there is no place for.
    pub open spec fn broadcast_tracked(
        self,
        message_id: Seq<char>,
        pending: RelayBroadcastPendingView,
    ) -> MeshView {
        MeshView {
            broadcasts: assoc::put(broadcast_place(self.broadcasts).0, message_id, pending),
            ..self
        }
    }

    /// What a broadcast that went out asks for.
    pub open spec fn tracking_broadcast(
        self,
        me: Seq<char>,
        members: Seq<Seq<char>>,
        message_id: Seq<char>,
        pending: RelayBroadcastPendingView,
    ) -> Seq<EffectView> {
        broadcast_place(self.broadcasts).1.push(
            EffectView::Notify(
                NoticeView::MessageSent {
                    group_id: pending.group_id,
                    message_ids: seq![message_id],
                    member_count: told_count(without(members, me).len()),
                },
            ),
        )
    }
}

/// What a fan-out is answered with: the ids of the frames that went out, and an
/// error where none did though there was somebody to reach.
pub open spec fn send_result(
    recipients: Seq<Seq<char>>,
    replies: Seq<Option<Seq<char>>>,
) -> Result<Seq<Seq<char>>, ErrorView> {
    let ids = frame_ids(recipients.len(), replies);
    if recipients.len() > 0 && ids.len() == 0 {
        Err(ErrorView::Transport(TransportErrorView::SendFailed(ALL_SENDS_FAILED@)))
    } else {
        Ok(ids)
    }
}

/// The group is ready for sealed bodies.
pub open spec fn is_ready(
    settings: GroupSettings,
    me: Seq<char>,
    members: Seq<Seq<char>>,
    capable: Seq<Seq<char>>,
) -> bool {
    settings.rich_payload_enabled && unknowing(me, members, capable).len() == 0
}

fn missed_recipients(recipients: &Vec<String>, replies: &Vec<Option<String>>) -> (r: Vec<String>)
    ensures
        r.deep_view() == missed_by(recipients.deep_view(), replies.deep_view()),
{
    let mut r: Vec<String> = Vec::new();
    let mut i: usize = 0;
    let ghost all = recipients.deep_view();
    assert(all.take(0) =~= Seq::empty());
    assert(r.deep_view() =~= Seq::empty());
    while i < recipients.len()
        invariant
            i <= recipients@.len(),
            all == recipients.deep_view(),
            r.deep_view() == missed_by(all.take(i as int), replies.deep_view()),
        decreases recipients@.len() - i,
    {
        let ghost before = r.deep_view();
        proof {
            assert(all.take(i + 1).drop_last() =~= all.take(i as int));
            assert(all.take(i + 1)[i as int] == recipients[i as int]@);
            assert(replies.deep_view().len() == replies@.len());
        }
        let sent: bool = if i < replies.len() {
            assert(replies.deep_view()[i as int] == replies@[i as int].deep_view());
            replies[i].is_some()
        } else {
            false
        };
        if !sent {
            r.push(recipients[i].clone());
            assert(r.deep_view() =~= before.push(recipients[i as int]@));
        }
        i = i + 1;
    }
    assert(all.take(i as int) =~= all);
    r
}

/// The ids of the frames that went out.
fn ids_of(n: usize, replies: &Vec<Option<String>>) -> (r: Vec<String>)
    ensures
        r.deep_view() == frame_ids(n as nat, replies.deep_view()),
{
    let mut r: Vec<String> = Vec::new();
    let mut i: usize = 0;
    assert(r.deep_view() =~= Seq::empty());
    while i < n
        invariant
            i <= n,
            r.deep_view() == frame_ids(i as nat, replies.deep_view()),
        decreases n - i,
    {
        let ghost before = r.deep_view();
        assert(replies.deep_view().len() == replies@.len());
        if i < replies.len() {
            assert(replies.deep_view()[i as int] == replies@[i as int].deep_view());
            if let Some(id) = &replies[i] {
                r.push(id.clone());
                assert(r.deep_view() =~= before.push(id@));
            }
        }
        i = i + 1;
    }
    r
}

impl OfflineProtocol {
    /// Whether a rich send right now would seal its extras, and which members are
    /// in the way. `capable` names the peers known to read a sealed body.
    pub fn group_rich_readiness(
        &self,
        group_id: &str,
        info: Result<Option<GroupInfo>, Error>,
        capable: &Vec<String>,
    ) -> (r: Result<GroupRichReadiness, Error>)
        requires
            self.group_mesh@.wf(),
        ensures
            match (r, recipients_of(self.group_mesh@, group_id@, told(info))) {
                (Ok(readiness), Ok(members)) => {
                    let unknown = unknowing(self.local_id@, members, capable.deep_view());
                    &&& readiness.ready == (self.settings.rich_payload_enabled && unknown.len()
                        == 0)
                    &&& readiness.ready == is_ready(
                        self.settings,
                        self.local_id@,
                        members,
                        capable.deep_view(),
                    )
                    &&& readiness.unknown_members.deep_view() == (
                    if self.settings.rich_payload_enabled {
                        unknown
                    } else {
                        Seq::empty()
                    })
                },
                (Err(e), Err(fault)) => e.deep_view() == fault,
                _ => false,
            },
    {
        let members = match self.group_mesh.cached_members(group_id) {
            Some(members) => members,
            None => match info {
                Ok(Some(i)) => i.members,
                Ok(None) => return Err(Error::GroupNotFound(group_id.to_owned())),
                Err(e) => return Err(e),
            },
        };
        let unknown = unlisted_in(&others(&members, self.local_id.as_str()), capable);
        assert(unknown.deep_view().len() == unknown@.len());
        if self.settings.rich_payload_enabled {
            let ready: bool = unknown.len() == 0;
            Ok(GroupRichReadiness { ready, unknown_members: unknown })
        } else {
            let none: Vec<String> = Vec::new();
            assert(none.deep_view() =~= Seq::empty());
            Ok(GroupRichReadiness { ready: false, unknown_members: none })
        }
    }

    /// Opens a send: finds its recipients, cache first, and decides whether it is
    /// sealed.
    pub fn open_group_send(
        &mut self,
        send: &GroupSend,
        info: Result<Option<GroupInfo>, Error>,
        capable: &Vec<String>,
        effects: &mut Effects,
    ) -> (r: Result<OpenedSend, Error>)
        requires
            old(self).group_mesh@.wf(),
        ensures
            final(self).group_mesh@.wf(),
            final(self).same_node(old(self)),
            final(self).group_mesh@ == old(self).group_mesh@.filled(send.group_id@, told(info)),
            match (r, recipients_of(old(self).group_mesh@, send.group_id@, told(info))) {
                (Ok(opened), Ok(members)) => {
                    &&& opened.members.deep_view() == members
                    &&& opened.sealed == seals(
                        old(self).settings,
                        old(self).local_id@,
                        send.deep_view(),
                        members,
                        capable.deep_view(),
                    )
                    &&& final(effects)@ == old(effects)@ + opening(
                        old(self).settings,
                        old(self).local_id@,
                        send.deep_view(),
                        members,
                        capable.deep_view(),
                    )
                },
                (Err(e), Err(fault)) => e.deep_view() == fault && final(effects)@ == old(effects)@,
                _ => false,
            },
    {
        let group_id = send.group_id.as_str();
        let members = match self.group_mesh.cached_members(group_id) {
            Some(members) => members,
            None => match self.group_mesh.refresh_or_fail(group_id, info) {
                Ok(members) => members,
                Err(e) => return Err(e),
            },
        };
        let wants = send.media_metadata.is_some() || send.forward_info.is_some()
            || !send.content_type.is_text();
        let unknown = unlisted_in(&others(&members, self.local_id.as_str()), capable);
        assert(unknown.deep_view().len() == unknown@.len());
        let sealed = wants && self.settings.rich_payload_enabled && unknown.len() == 0;
        if !sealed {
            let who: Vec<String> = if wants && self.settings.rich_payload_enabled {
                unknown
            } else {
                Vec::new()
            };
            assert(who.deep_view() =~= blamed(
                self.settings,
                self.local_id@,
                send.deep_view(),
                members.deep_view(),
                capable.deep_view(),
            ));
            assert(who.deep_view().len() == who@.len());
            if who.len() > 0 {
                effects.push(Effect::ProbeRichCapabilities { members: copy_texts(&who) });
            }
            if send.media_metadata.is_some() {
                effects.notify(
                    Notice::RichExtrasDropped {
                        group_id: send.group_id.clone(),
                        unknown_members: who,
                    },
                );
            }
        }
        assert(effects@ =~= old(effects)@ + opening(
            self.settings,
            self.local_id@,
            send.deep_view(),
            members.deep_view(),
            capable.deep_view(),
        ));
        Ok(OpenedSend { members, sealed })
    }

    /// The attribution that travels beside the ciphertext.
    fn forward_beside(send: &GroupSend, sealed: bool) -> (r: Option<ForwardInfo>)
        ensures
            r.deep_view() == visible_forward(send.deep_view(), sealed),
    {
        if sealed {
            None
        } else {
            copy_forward(&send.forward_info)
        }
    }

    /// The relay broadcast of an encrypted send, where it may go out as one.
    pub fn try_relay_broadcast(
        &self,
        send: &GroupSend,
        sealed: bool,
        ciphertext: &Vec<u8>,
        epoch: u64,
        internet: bool,
        wall: i64,
    ) -> (r: Option<RelayBroadcastPending>)
        requires
            self.group_mesh@.wf(),
            encodable(ciphertext@),
        ensures
            r.deep_view() == (if broadcast_gate(
                self.group_mesh@,
                self.settings,
                send.group_id@,
                internet,
            ) {
                Some(armed_broadcast(send.deep_view(), sealed, ciphertext@, epoch, wall))
            } else {
                None
            }),
            r matches Some(pending) ==> carries(pending.ciphertext_b64@, ciphertext@),
    {
        if !self.may_broadcast(send.group_id.as_str(), internet) {
            return None;
        }
        Some(
            RelayBroadcastPending {
                group_id: send.group_id.clone(),
                ciphertext_b64: base64_encode(ciphertext.as_slice()),
                epoch,
                reply_to: copy_text(&send.reply_to),
                forward_info: Self::forward_beside(send, sealed),
                priority: send.priority,
                armed_at: wall,
                attempts: 1,
            },
        )
    }

    /// Tracks a broadcast that went out, and ends its send. `members` are the
    /// recipients that the send was opened with.
    pub fn relay_broadcast_sent(
        &mut self,
        message_id: &str,
        pending: RelayBroadcastPending,
        members: &Vec<String>,
        effects: &mut Effects,
    ) -> (r: Vec<String>)
        requires
            old(self).group_mesh@.wf(),
        ensures
            final(self).group_mesh@.wf(),
            final(self).same_node(old(self)),
            r.deep_view() == seq![message_id@],
            final(self).group_mesh@ == old(self).group_mesh@.broadcast_tracked(
                message_id@,
                pending.deep_view(),
            ),
            final(effects)@ == old(effects)@ + old(self).group_mesh@.tracking_broadcast(
                old(self).local_id@,
                members.deep_view(),
                message_id@,
                pending.deep_view(),
            ),
    {
        let ghost place = broadcast_place(old(self).group_mesh@.broadcasts);
        assert(effects@ + place.1 =~= old(effects)@ + place.1);
        while self.group_mesh.relay_broadcast_pending.len() >= MAX_RELAY_BROADCAST_PENDING
            invariant
                self.group_mesh@.wf(),
                self.same_node(old(self)),
                self.group_mesh@ == (MeshView {
                    broadcasts: self.group_mesh@.broadcasts,
                    ..old(self).group_mesh@
                }),
                place.0 == broadcast_place(self.group_mesh@.broadcasts).0,
                old(effects)@ + place.1 == effects@ + broadcast_place(
                    self.group_mesh@.broadcasts,
                ).1,
            decreases self.group_mesh@.broadcasts.len(),
        {
            let ghost out = effects@;
            let ghost before = self.group_mesh@.broadcasts;
            let oldest = oldest_at(&self.group_mesh.relay_broadcast_pending);
            proof {
                assoc::lemma_position(before, oldest as int);
                assoc::lemma_del(before, before[oldest as int].0);
            }
            let (stale_id, stale) = self.group_mesh.relay_broadcast_pending.remove_at(oldest);
            effects.push(Effect::DowngradeBroadcast { message_id: stale_id, pending: stale });
            proof {
                let rest = broadcast_place(self.group_mesh@.broadcasts);
                assert(out + (seq![
                    EffectView::DowngradeBroadcast {
                        message_id: before[oldest as int].0,
                        pending: before[oldest as int].1,
                    },
                ] + rest.1) =~= effects@ + rest.1);
            }
        }
        let group_id = pending.group_id.clone();
        let _ = self.group_mesh.relay_broadcast_pending.insert(message_id.to_owned(), pending);
        let rest = others(members, self.local_id.as_str());
        assert(rest.deep_view().len() == rest@.len());
        let mut ids: Vec<String> = Vec::new();
        ids.push(message_id.to_owned());
        assert(ids.deep_view() =~= seq![message_id@]);
        effects.notify(
            Notice::MessageSent {
                group_id,
                message_ids: copy_texts(&ids),
                member_count: count_of(rest.len()),
            },
        );
        assert(effects@ =~= old(effects)@ + place.1.push(
            EffectView::Notify(
                NoticeView::MessageSent {
                    group_id: pending.group_id@,
                    message_ids: seq![message_id@],
                    member_count: told_count(
                        without(members.deep_view(), old(self).local_id@).len(),
                    ),
                },
            ),
        ));
        ids
    }

    /// The frame of an encrypted send for each member, and who gets it.
    pub fn fanout_group_frames_per_member(
        &self,
        send: &GroupSend,
        sealed: bool,
        ciphertext: &Vec<u8>,
        epoch: u64,
        members: &Vec<String>,
    ) -> (r: MemberFrames)
        requires
            encodable(ciphertext@),
        ensures
            r.message.deep_view() == member_frame(send.deep_view(), sealed, ciphertext@, epoch),
            carries(r.message.ciphertext@, ciphertext@),
            r.recipients.deep_view() == without(members.deep_view(), self.local_id@),
    {
        MemberFrames {
            message: GroupMlsMessagePayload {
                group_id: send.group_id.clone(),
                ciphertext: base64_encode(ciphertext.as_slice()),
                epoch,
                reply_to: copy_text(&send.reply_to),
                forward_info: Self::forward_beside(send, sealed),
                message_id: None,
            },
            recipients: others(members, self.local_id.as_str()),
        }
    }

    /// Ends a send that went to each member. `replies` holds the id of each frame
    /// that went out, in the order of `recipients`. A send that reached nobody
    /// although there was somebody to reach is an error.
    pub fn group_send_settled(
        group_id: &str,
        recipients: &Vec<String>,
        replies: &Vec<Option<String>>,
        effects: &mut Effects,
    ) -> (r: Result<Vec<String>, Error>)
        ensures
            final(effects)@ == old(effects)@.push(
                fanned_out(group_id@, recipients.deep_view(), replies.deep_view()),
            ),
            ({
                let ids = frame_ids(recipients@.len(), replies.deep_view());
                match r {
                    Ok(sent) => sent.deep_view() == ids && (recipients@.len() == 0 || ids.len()
                        > 0),
                    Err(e) => recipients@.len() > 0 && ids.len() == 0 && e.deep_view()
                        == ErrorView::Transport(TransportErrorView::SendFailed(ALL_SENDS_FAILED@)),
                }
            }),
            told(r) == send_result(recipients.deep_view(), replies.deep_view()),
    {
        let ids = ids_of(recipients.len(), replies);
        let succeeded = sent_to(recipients, replies);
        let failed = missed_recipients(recipients, replies);
        assert(ids.deep_view().len() == ids@.len());
        assert(failed.deep_view().len() == failed@.len());
        assert(succeeded.deep_view().len() == succeeded@.len());
        assert(recipients.deep_view().len() == recipients@.len());
        let member_count: u32 = count_of(succeeded.len());
        if failed.len() == 0 {
            effects.notify(
                Notice::MessageSent {
                    group_id: group_id.to_owned(),
                    message_ids: copy_texts(&ids),
                    member_count,
                },
            );
        } else {
            effects.notify(
                Notice::PartialFailure {
                    group_id: group_id.to_owned(),
                    failed_members: failed,
                    succeeded_members: succeeded,
                },
            );
        }
        if recipients.len() > 0 && ids.len() == 0 {
            return Err(Error::Transport(TransportError::SendFailed(ALL_SENDS_FAILED.to_owned())));
        }
        Ok(ids)
    }
}

} // verus!
