//! Suspected epoch forks: flagging them, and keeping rosters in step with MLS.

use vstd::prelude::*;

use crate::assoc;
use crate::error::{told, Error, ErrorView};
use crate::events::copy_texts;
use crate::group_mesh::dated::{drop_oldest, less_oldest};
use crate::group_mesh::effect::{EffectView, Effects, Notice, NoticeView};
use crate::group_mesh::limits::MAX_EPOCH_FORK_ENTRIES;
use crate::group_mesh::state::{GroupMeshState, MeshView};
use crate::group_mesh::types::{EpochForkState, EpochForkStateView, GroupInfo, GroupInfoView};

verus! {

/// The info of a group that MLS holds.
pub open spec fn held(info: Result<Option<GroupInfoView>, ErrorView>) -> Option<GroupInfoView> {
    match info {
        Ok(Some(i)) => Some(i),
        _ => None,
    }
}

impl MeshView {
    /// The state after the group's members were refreshed from MLS.
    pub open spec fn refreshed(
        self,
        group: Seq<char>,
        info: Result<Option<GroupInfoView>, ErrorView>,
    ) -> MeshView {
        match held(info) {
            Some(i) => MeshView { members: assoc::put(self.members, group, i.members), ..self },
            None => self,
        }
    }

    /// The members of a group: what MLS says, or else what is cached.
    pub open spec fn roster(
        self,
        group: Seq<char>,
        info: Result<Option<GroupInfoView>, ErrorView>,
    ) -> Option<Seq<Seq<char>>> {
        match held(info) {
            Some(i) => Some(i.members),
            None => assoc::lookup(self.members, group),
        }
    }

    /// The forks with a place for one more: at the cap the oldest goes.
    pub open spec fn forks_with_place(self) -> Seq<(Seq<char>, EpochForkStateView)> {
        if self.forks.len() >= MAX_EPOCH_FORK_ENTRIES {
            less_oldest::<EpochForkState>(self.forks)
        } else {
            self.forks
        }
    }

    /// The local epoch of a group, where MLS can tell.
    pub open spec fn epoch_in(info: Result<Option<GroupInfoView>, ErrorView>) -> Option<u64> {
        match held(info) {
            Some(i) => Some(i.epoch),
            None => None,
        }
    }

    /// The state after a potential fork of a group was looked into.
    pub open spec fn fork_flagged(
        self,
        group: Seq<char>,
        info: Result<Option<GroupInfoView>, ErrorView>,
        now: u128,
    ) -> MeshView {
        if assoc::known(self.forks, group) {
            self
        } else {
            MeshView {
                forks: assoc::put(
                    self.forks_with_place(),
                    group,
                    EpochForkStateView {
                        local_epoch: Self::epoch_in(info),
                        detected_at: now,
                        resolution_attempted: false,
                    },
                ),
                ..self.refreshed(group, info)
            }
        }
    }
}

impl GroupMeshState {
    /// Refreshes the cached member list of a group from what MLS reports, and
    /// hands it back.
    pub fn refresh_group_members(
        &mut self,
        group_id: &str,
        info: &Result<Option<GroupInfo>, Error>,
    ) -> (r: Option<Vec<String>>)
        requires
            old(self)@.wf(),
        ensures
            final(self)@.wf(),
            final(self)@ == old(self)@.refreshed(group_id@, told(*info)),
            r.deep_view() == (match held(told(*info)) {
                Some(i) => Some(i.members),
                None => None,
            }),
    {
        match info {
            Ok(Some(i)) => {
                let _ = self.members.insert(group_id.to_owned(), copy_texts(&i.members));
                Some(copy_texts(&i.members))
            },
            _ => None,
        }
    }

    /// The members of a group, refreshed from MLS or else from the cache.
    pub fn current_members(
        &mut self,
        group_id: &str,
        info: &Result<Option<GroupInfo>, Error>,
    ) -> (r: Option<Vec<String>>)
        requires
            old(self)@.wf(),
        ensures
            final(self)@.wf(),
            final(self)@ == old(self)@.refreshed(group_id@, told(*info)),
            r.deep_view() == old(self)@.roster(group_id@, told(*info)),
    {
        match self.refresh_group_members(group_id, info) {
            Some(members) => Some(members),
            None => self.cached_members(group_id),
        }
    }

    /// The cached members of a group.
    pub fn cached_members(&self, group_id: &str) -> (r: Option<Vec<String>>)
        requires
            self@.wf(),
        ensures
            r.deep_view() == assoc::lookup(self@.members, group_id@),
    {
        match self.members.get(group_id) {
            Some(members) => Some(copy_texts(members)),
            None => None,
        }
    }

    /// Flags a group as having a potential epoch fork, unless it is flagged
    /// already.
    pub fn flag_potential_epoch_fork(
        &mut self,
        group_id: &str,
        info: &Result<Option<GroupInfo>, Error>,
        now: u128,
        effects: &mut Effects,
    )
        requires
            old(self)@.wf(),
        ensures
            final(self)@.wf(),
            final(self)@ == old(self)@.fork_flagged(group_id@, told(*info), now),
            final(effects)@ == (if assoc::known(old(self)@.forks, group_id@) {
                old(effects)@
            } else {
                old(effects)@.push(
                    EffectView::Notify(
                        NoticeView::EpochForkDetected {
                            group_id: group_id@,
                            local_epoch: MeshView::epoch_in(told(*info)),
                        },
                    ),
                )
            }),
    {
        if self.epoch_forks.contains_key(group_id) {
            return;
        }
        if self.epoch_forks.len() >= MAX_EPOCH_FORK_ENTRIES {
            drop_oldest(&mut self.epoch_forks);
        }
        let _ = self.refresh_group_members(group_id, info);
        let local_epoch: Option<u64> = match info {
            Ok(Some(i)) => Some(i.epoch),
            _ => None,
        };
        let _ = self.epoch_forks.insert(
            group_id.to_owned(),
            EpochForkState { local_epoch, detected_at: now, resolution_attempted: false },
        );
        effects.notify(
            Notice::EpochForkDetected { group_id: group_id.to_owned(), local_epoch },
        );
    }
}

} // verus!
