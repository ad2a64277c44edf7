//! Reports of unauthorized membership changes, rate-limited by group, committer
//! and outcome.
//!
//! An applied change and a refused one are different signals, so neither
//! suppresses the other.

use vstd::prelude::*;

use crate::events::copy_texts;
use crate::group_mesh::dated::{age, age_of, earliest, keep_if, oldest_of, times_of};
use crate::group_mesh::effect::{ChangeReason, EffectView, Effects, Notice, NoticeView};
use crate::group_mesh::limits::{
    nanos, nanos_of, MAX_UNAUTHORIZED_REPORT_ENTRIES, UNAUTHORIZED_REPORT_SUPPRESS_SECS,
};
use crate::group_mesh::state::{GroupMeshState, MeshView};
use crate::group_mesh::types::{UnauthorizedReport, UnauthorizedReportView};
use crate::text::str_eq;

verus! {

/// The report is of this group, committer and outcome.
pub open spec fn concerns(
    report: UnauthorizedReportView,
    group: Seq<char>,
    committer: Seq<char>,
    enforced: bool,
) -> bool {
    report.group_id == group && report.committer == committer && report.enforced == enforced
}

/// The report is recent enough to suppress another.
pub open spec fn recent(report: UnauthorizedReportView, now: u128) -> bool {
    age(now, report.reported_at) < nanos(UNAUTHORIZED_REPORT_SUPPRESS_SECS)
}

/// A change was reported too recently to be reported again.
pub open spec fn suppressed(
    reports: Seq<UnauthorizedReportView>,
    group: Seq<char>,
    committer: Seq<char>,
    enforced: bool,
    now: u128,
) -> bool {
    exists|i: int|
        0 <= i < reports.len() && concerns(#[trigger] reports[i], group, committer, enforced)
            && recent(reports[i], now)
}

/// The reports after one more place was made: at the cap the lapsed ones go, and
/// then the oldest live one.
pub open spec fn with_place(reports: Seq<UnauthorizedReportView>, now: u128) -> Seq<
    UnauthorizedReportView,
> {
    if reports.len() < MAX_UNAUTHORIZED_REPORT_ENTRIES {
        reports
    } else {
        let live = reports.filter(|r: UnauthorizedReportView| recent(r, now));
        if live.len() < MAX_UNAUTHORIZED_REPORT_ENTRIES {
            live
        } else {
            live.remove(earliest(times_of::<UnauthorizedReport>(live)))
        }
    }
}

impl MeshView {
    /// The state after an unauthorized change was noticed.
    pub open spec fn reported(
        self,
        group: Seq<char>,
        committer: Seq<char>,
        enforced: bool,
        now: u128,
    ) -> MeshView {
        if suppressed(self.reports, group, committer, enforced, now) {
            self
        } else {
            MeshView {
                reports: with_place(self.reports, now).filter(
                    |r: UnauthorizedReportView| !concerns(r, group, committer, enforced),
                ).push(
                    UnauthorizedReportView {
                        group_id: group,
                        committer,
                        enforced,
                        reported_at: now,
                    },
                ),
                ..self
            }
        }
    }

    /// What noticing an unauthorized change asks for.
    pub open spec fn reporting(
        self,
        group: Seq<char>,
        committer: Seq<char>,
        added: Seq<Seq<char>>,
        removed: Seq<Seq<char>>,
        reason: ChangeReason,
        enforced: bool,
        now: u128,
    ) -> Seq<EffectView> {
        if suppressed(self.reports, group, committer, enforced, now) {
            Seq::empty()
        } else {
            seq![
                EffectView::Notify(
                    NoticeView::UnauthorizedChange {
                        group_id: group,
                        committer,
                        added,
                        removed,
                        reason,
                        enforced,
                    },
                ),
            ]
        }
    }
}

fn is_recent(report: &UnauthorizedReport, now: u128) -> (r: bool)
    ensures
        r == recent(report.deep_view(), now),
{
    age_of(now, report.reported_at) < nanos_of(UNAUTHORIZED_REPORT_SUPPRESS_SECS)
}

fn is_about(report: &UnauthorizedReport, group: &str, committer: &str, enforced: bool) -> (r: bool)
    ensures
        r == concerns(report.deep_view(), group@, committer@, enforced),
{
    report.enforced == enforced && str_eq(report.group_id.as_str(), group) && str_eq(
        report.committer.as_str(),
        committer,
    )
}

impl GroupMeshState {
    /// Whether a change was reported too recently to be reported again.
    fn is_suppressed(&self, group_id: &str, committer: &str, enforced: bool, now: u128) -> (r: bool)
        ensures
            r == suppressed(self@.reports, group_id@, committer@, enforced, now),
    {
        let mut i: usize = 0;
        while i < self.unauthorized_change_reports.len()
            invariant
                i <= self.unauthorized_change_reports@.len(),
                forall|j: int|
                    0 <= j < i ==> !(concerns(
                        #[trigger] self@.reports[j],
                        group_id@,
                        committer@,
                        enforced,
                    ) && recent(self@.reports[j], now)),
            decreases self.unauthorized_change_reports@.len() - i,
        {
            let report = &self.unauthorized_change_reports[i];
            assert(self@.reports[i as int] == report.deep_view());
            if is_about(report, group_id, committer, enforced) && is_recent(report, now) {
                return true;
            }
            i = i + 1;
        }
        false
    }

    /// Emits the rate-limited report of an unauthorized membership change.
    /// `enforced` says that the commit was refused before it merged, and that no
    /// change occurred.
    pub fn report_unauthorized_membership_change(
        &mut self,
        group_id: &str,
        committer: &str,
        added: &Vec<String>,
        removed: &Vec<String>,
        reason: ChangeReason,
        enforced: bool,
        now: u128,
        effects: &mut Effects,
    )
        requires
            old(self)@.wf(),
        ensures
            final(self)@.wf(),
            final(self)@ == old(self)@.reported(group_id@, committer@, enforced, now),
            final(effects)@ == old(effects)@ + old(self)@.reporting(
                group_id@,
                committer@,
                added.deep_view(),
                removed.deep_view(),
                reason,
                enforced,
                now,
            ),
    {
        if self.is_suppressed(group_id, committer, enforced, now) {
            assert(effects@ =~= old(effects)@ + Seq::<EffectView>::empty());
            return;
        }
        assert(self@.reports.len() == self.unauthorized_change_reports@.len());
        if self.unauthorized_change_reports.len() >= MAX_UNAUTHORIZED_REPORT_ENTRIES {
            let test = |r: &UnauthorizedReport| -> (keep: bool)
                ensures
                    keep == recent(r.deep_view(), now),
                { is_recent(r, now) };
            keep_if(
                &mut self.unauthorized_change_reports,
                test,
                Ghost(|r: UnauthorizedReportView| recent(r, now)),
            );
            let ghost live = self.unauthorized_change_reports.deep_view();
            assert(live.len() == self.unauthorized_change_reports@.len());
            if self.unauthorized_change_reports.len() >= MAX_UNAUTHORIZED_REPORT_ENTRIES {
                let oldest = oldest_of(&self.unauthorized_change_reports);
                let _ = self.unauthorized_change_reports.remove(oldest);
                assert(self.unauthorized_change_reports.deep_view() =~= live.remove(oldest as int));
            }
        }
        assert(self.unauthorized_change_reports.deep_view() == with_place(old(self)@.reports, now));
        let test = |r: &UnauthorizedReport| -> (keep: bool)
            ensures
                keep == !concerns(r.deep_view(), group_id@, committer@, enforced),
            { !is_about(r, group_id, committer, enforced) };
        keep_if(
            &mut self.unauthorized_change_reports,
            test,
            Ghost(|r: UnauthorizedReportView| !concerns(r, group_id@, committer@, enforced)),
        );
        let ghost before = self.unauthorized_change_reports.deep_view();
        self.unauthorized_change_reports.push(
            UnauthorizedReport {
                group_id: group_id.to_owned(),
                committer: committer.to_owned(),
                enforced,
                reported_at: now,
            },
        );
        assert(self.unauthorized_change_reports.deep_view() =~= before.push(
            UnauthorizedReportView {
                group_id: group_id@,
                committer: committer@,
                enforced,
                reported_at: now,
            },
        ));
        effects.notify(
            Notice::UnauthorizedChange {
                group_id: group_id.to_owned(),
                committer: committer.to_owned(),
                added: copy_texts(added),
                removed: copy_texts(removed),
                reason,
                enforced,
            },
        );
        assert(effects@ =~= old(effects)@ + old(self)@.reporting(
            group_id@,
            committer@,
            added.deep_view(),
            removed.deep_view(),
            reason,
            enforced,
            now,
        ));
    }
}

} // verus!
