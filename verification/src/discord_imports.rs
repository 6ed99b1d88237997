//! Imports of servers from elsewhere: one job for each attempt, worked off one at a time.
use crate::clock::now_ms;
use crate::db::ReferenceDb;
use crate::error::Error;
use crate::ids::{self, new_id};
use crate::order::{self, sort_rows, SortedRow};
use crate::table::{self, copy_opt_row, KeyedRow, Row};
use crate::text::{self, copy_opt, copy_texts, is_before, same};
use vstd::prelude::*;
use vstd::string::*;

verus! {

/// Where a job is in its life.
#[derive(Clone, Copy, Debug, PartialEq, Eq)]
pub enum ImportStatus {
    /// Waits for a worker.
    Queued,
    /// A worker has it.
    Running,
    /// Done; stays so.
    Completed,
    /// Given up; stays so.
    Failed,
}

/// What a job is at, in the order in which it goes on.
#[derive(Clone, Copy, Debug, PartialEq, Eq)]
pub enum ImportStage {
    Fetching,
    Server,
    /// Before the channels, whose permissions name roles.
    Roles,
    Channels,
    Membership,
    Invite,
    /// All of the life of a job that imports stickers.
    Stickers,
    Done,
}

/// What a job imports.
#[derive(Clone, Copy, Debug, PartialEq, Eq)]
pub enum ImportJobKind {
    Template,
    Stickers,
}

impl Default for ImportJobKind {
    /// Jobs that do not tell what they import, import a template.
    fn default() -> (r: Self)
        ensures
            r is Template,
    {
        ImportJobKind::Template
    }
}

/// What an import did.
#[derive(Clone, Debug, PartialEq, Eq)]
pub struct DiscordImportSummary {
    pub channels_created: u32,
    pub categories_created: u32,
    pub channels_skipped: u32,
    pub roles_created: u32,
    pub roles_skipped: u32,
    /// Only of jobs that import stickers.
    pub stickers_created: Option<u32>,
    /// Only of jobs that import stickers.
    pub stickers_skipped: Option<u32>,
    /// What was left out, and why.
    pub notes: Vec<String>,
}

/// What a [`DiscordImportSummary`] holds.
pub struct DiscordImportSummaryView {
    pub channels_created: u32,
    pub categories_created: u32,
    pub channels_skipped: u32,
    pub roles_created: u32,
    pub roles_skipped: u32,
    pub stickers_created: Option<u32>,
    pub stickers_skipped: Option<u32>,
    pub notes: Seq<Seq<char>>,
}

impl View for DiscordImportSummary {
    type V = DiscordImportSummaryView;

    open spec fn view(&self) -> DiscordImportSummaryView {
        DiscordImportSummaryView {
            channels_created: self.channels_created,
            categories_created: self.categories_created,
            channels_skipped: self.channels_skipped,
            roles_created: self.roles_created,
            roles_skipped: self.roles_skipped,
            stickers_created: self.stickers_created,
            stickers_skipped: self.stickers_skipped,
            notes: text::texts(self.notes@),
        }
    }
}

impl Row for DiscordImportSummary {
    fn dup(&self) -> (r: Self) {
        DiscordImportSummary {
            channels_created: self.channels_created,
            categories_created: self.categories_created,
            channels_skipped: self.channels_skipped,
            roles_created: self.roles_created,
            roles_skipped: self.roles_skipped,
            stickers_created: self.stickers_created,
            stickers_skipped: self.stickers_skipped,
            notes: copy_texts(&self.notes),
        }
    }
}

/// An attempt to import.
#[derive(Clone, Debug, PartialEq, Eq)]
pub struct DiscordImportJob {
    /// Ids come in the order in which jobs were made.
    pub id: String,
    pub user_id: String,
    /// Empty where stickers are imported.
    pub template_code: String,
    pub kind: ImportJobKind,
    pub source_guild_id: Option<String>,
    /// The job that a job for stickers came from.
    pub parent_job_id: Option<String>,
    pub status: ImportStatus,
    pub stage: ImportStage,
    /// Of the present stage.
    pub done: u32,
    /// Of the present stage.
    pub total: u32,
    /// When the job last gave a sign of life, in milliseconds of the epoch.
    pub updated_at: i64,
    pub server_id: Option<String>,
    pub invite_code: Option<String>,
    pub error: Option<String>,
    pub summary: Option<DiscordImportSummary>,
}

/// What a [`DiscordImportJob`] holds.
pub struct DiscordImportJobView {
    pub id: Seq<char>,
    pub user_id: Seq<char>,
    pub template_code: Seq<char>,
    pub kind: ImportJobKind,
    pub source_guild_id: Option<Seq<char>>,
    pub parent_job_id: Option<Seq<char>>,
    pub status: ImportStatus,
    pub stage: ImportStage,
    pub done: u32,
    pub total: u32,
    pub updated_at: i64,
    pub server_id: Option<Seq<char>>,
    pub invite_code: Option<Seq<char>>,
    pub error: Option<Seq<char>>,
    pub summary: Option<DiscordImportSummaryView>,
}

impl View for DiscordImportJob {
    type V = DiscordImportJobView;

    open spec fn view(&self) -> DiscordImportJobView {
        DiscordImportJobView {
            id: self.id@,
            user_id: self.user_id@,
            template_code: self.template_code@,
            kind: self.kind,
            source_guild_id: text::opt_text(self.source_guild_id),
            parent_job_id: text::opt_text(self.parent_job_id),
            status: self.status,
            stage: self.stage,
            done: self.done,
            total: self.total,
            updated_at: self.updated_at,
            server_id: text::opt_text(self.server_id),
            invite_code: text::opt_text(self.invite_code),
            error: text::opt_text(self.error),
            summary: table::opt_view(self.summary),
        }
    }
}

impl Row for DiscordImportJob {
    fn dup(&self) -> (r: Self) {
        DiscordImportJob {
            id: self.id.clone(),
            user_id: self.user_id.clone(),
            template_code: self.template_code.clone(),
            kind: self.kind,
            source_guild_id: copy_opt(&self.source_guild_id),
            parent_job_id: copy_opt(&self.parent_job_id),
            status: self.status,
            stage: self.stage,
            done: self.done,
            total: self.total,
            updated_at: self.updated_at,
            server_id: copy_opt(&self.server_id),
            invite_code: copy_opt(&self.invite_code),
            error: copy_opt(&self.error),
            summary: copy_opt_row(&self.summary),
        }
    }
}

impl KeyedRow for DiscordImportJob {
    open spec fn id_of(v: DiscordImportJobView) -> Seq<char> {
        v.id
    }

    fn id_is(&self, id: &str) -> (r: bool) {
        same(self.id.as_str(), id)
    }
}

impl SortedRow for DiscordImportJob {
    open spec fn sort_key(v: DiscordImportJobView) -> Seq<char> {
        v.id
    }

    fn sorts_before(&self, other: &Self) -> (r: bool) {
        is_before(self.id.as_str(), other.id.as_str())
    }
}

impl ImportStatus {
    /// The name that the status is stored under.
    #[verifier::allow_in_spec]
    pub fn as_variant_str(&self) -> (r: &'static str)
        returns
            (match *self {
                ImportStatus::Queued => "Queued",
                ImportStatus::Running => "Running",
                ImportStatus::Completed => "Completed",
                ImportStatus::Failed => "Failed",
            }),
    {
        match *self {
            ImportStatus::Queued => "Queued",
            ImportStatus::Running => "Running",
            ImportStatus::Completed => "Completed",
            ImportStatus::Failed => "Failed",
        }
    }
}

impl ImportStage {
    /// The name that the stage is stored under.
    #[verifier::allow_in_spec]
    pub fn as_variant_str(&self) -> (r: &'static str)
        returns
            (match *self {
                ImportStage::Fetching => "Fetching",
                ImportStage::Server => "Server",
                ImportStage::Roles => "Roles",
                ImportStage::Channels => "Channels",
                ImportStage::Membership => "Membership",
                ImportStage::Invite => "Invite",
                ImportStage::Stickers => "Stickers",
                ImportStage::Done => "Done",
            }),
    {
        match *self {
            ImportStage::Fetching => "Fetching",
            ImportStage::Server => "Server",
            ImportStage::Roles => "Roles",
            ImportStage::Channels => "Channels",
            ImportStage::Membership => "Membership",
            ImportStage::Invite => "Invite",
            ImportStage::Stickers => "Stickers",
            ImportStage::Done => "Done",
        }
    }
}

impl ImportJobKind {
    /// The name that the kind is stored under.
    #[verifier::allow_in_spec]
    pub fn as_variant_str(&self) -> (r: &'static str)
        returns
            (match *self {
                ImportJobKind::Template => "Template",
                ImportJobKind::Stickers => "Stickers",
            }),
    {
        match *self {
            ImportJobKind::Template => "Template",
            ImportJobKind::Stickers => "Stickers",
        }
    }
}

/// A job that waits for a worker.
pub open spec fn fresh_job(id: Seq<char>, user: Seq<char>, code: Seq<char>, now: i64) -> DiscordImportJobView {
    DiscordImportJobView {
        id,
        user_id: user,
        template_code: code,
        kind: ImportJobKind::Template,
        source_guild_id: None,
        parent_job_id: None,
        status: ImportStatus::Queued,
        stage: ImportStage::Fetching,
        done: 0,
        total: 0,
        updated_at: now,
        server_id: None,
        invite_code: None,
        error: None,
        summary: None,
    }
}

/// A job for the stickers of what another job imported.
pub open spec fn sticker_job(id: Seq<char>, parent: DiscordImportJobView, now: i64) -> DiscordImportJobView {
    DiscordImportJobView {
        id,
        user_id: parent.user_id,
        template_code: Seq::empty(),
        kind: ImportJobKind::Stickers,
        source_guild_id: parent.source_guild_id,
        parent_job_id: Some(parent.id),
        status: ImportStatus::Queued,
        stage: ImportStage::Stickers,
        done: 0,
        total: 0,
        updated_at: now,
        server_id: parent.server_id,
        invite_code: None,
        error: None,
        summary: None,
    }
}

/// Whether a job is not over.
pub open spec fn active(v: DiscordImportJobView) -> bool {
    v.status is Queued || v.status is Running
}

impl DiscordImportJob {
    /// A job that waits for a worker, under an id, made at an instant.
    pub fn new_as(user_id: String, template_code: String, id: String, now: i64) -> (r: Self)
        ensures
            r@ == fresh_job(id@, user_id@, template_code@, now),
    {
        DiscordImportJob {
            id,
            user_id,
            template_code,
            kind: ImportJobKind::Template,
            source_guild_id: None,
            parent_job_id: None,
            status: ImportStatus::Queued,
            stage: ImportStage::Fetching,
            done: 0,
            total: 0,
            updated_at: now,
            server_id: None,
            invite_code: None,
            error: None,
            summary: None,
        }
    }

    /// A job that waits for a worker.
    pub fn new(user_id: String, template_code: String) -> (r: Self)
        ensures
            r@ == fresh_job(r@.id, user_id@, template_code@, r@.updated_at),
            ids::is_id(r@.id),
    {
        DiscordImportJob::new_as(user_id, template_code, new_id(), now_ms())
    }

    /// A job for the stickers of what another job imported, under an id, made at an
    /// instant.
    pub fn new_stickers_as(parent: &DiscordImportJob, id: String, now: i64) -> (r: Self)
        ensures
            r@ == sticker_job(id@, parent@, now),
    {
        let job = DiscordImportJob {
            id,
            user_id: parent.user_id.clone(),
            template_code: String::new(),
            kind: ImportJobKind::Stickers,
            source_guild_id: copy_opt(&parent.source_guild_id),
            parent_job_id: Some(parent.id.clone()),
            status: ImportStatus::Queued,
            stage: ImportStage::Stickers,
            done: 0,
            total: 0,
            updated_at: now,
            server_id: copy_opt(&parent.server_id),
            invite_code: None,
            error: None,
            summary: None,
        };
        assert(job.template_code@ =~= Seq::<char>::empty());
        job
    }

    /// A job for the stickers of what another job imported.
    pub fn new_stickers(parent: &DiscordImportJob) -> (r: Self)
        ensures
            r@ == sticker_job(r@.id, parent@, r@.updated_at),
            ids::is_id(r@.id),
    {
        DiscordImportJob::new_stickers_as(parent, new_id(), now_ms())
    }

    /// Gives a sign of life at an instant.
    pub fn touch_at(&mut self, now: i64)
        ensures
            final(self)@ == (DiscordImportJobView { updated_at: now, ..old(self)@ }),
    {
        self.updated_at = now;
    }

    /// Gives a sign of life.
    pub fn touch(&mut self)
        ensures
            exists|now: i64|
                final(self)@ == #[trigger] touched(old(self)@, now),
    {
        let now: i64 = now_ms();
        self.touch_at(now);
        assert(self@ == touched(old(self)@, now));
    }

    /// Whether the job is not over.
    pub fn is_active(&self) -> (r: bool)
        ensures
            r == active(self@),
    {
        match self.status {
            ImportStatus::Queued => true,
            ImportStatus::Running => true,
            ImportStatus::Completed => false,
            ImportStatus::Failed => false,
        }
    }
}

/// A job that gave a sign of life at an instant.
pub open spec fn touched(v: DiscordImportJobView, now: i64) -> DiscordImportJobView {
    DiscordImportJobView { updated_at: now, ..v }
}

/// Jobs of a user that are not over.
pub open spec fn active_of(user: Seq<char>) -> spec_fn(DiscordImportJobView) -> bool {
    |v: DiscordImportJobView| v.user_id == user && active(v)
}

/// Jobs that wait for a worker.
pub open spec fn queued() -> spec_fn(DiscordImportJobView) -> bool {
    |v: DiscordImportJobView| v.status is Queued
}

/// Jobs that are not over and gave no sign of life since an instant.
pub open spec fn stale(cutoff: i64) -> spec_fn(DiscordImportJobView) -> bool {
    |v: DiscordImportJobView| active(v) && v.updated_at < cutoff
}

/// A job that a worker took at an instant.
pub open spec fn taken(now: i64) -> spec_fn(DiscordImportJobView) -> DiscordImportJobView {
    |v: DiscordImportJobView|
        DiscordImportJobView { status: ImportStatus::Running, updated_at: now, ..v }
}

/// Whether a job must wait until another of its user is over.
pub open spec fn is_blocked(rows: Seq<DiscordImportJobView>, job: DiscordImportJobView) -> bool {
    active(job) && table::any_row(rows, active_of(job.user_id))
}

/// Jobs, with one stored in place of what it was.
pub open spec fn saved(rows: Seq<DiscordImportJobView>, job: DiscordImportJobView) -> Seq<
    DiscordImportJobView,
> {
    if table::has_id::<DiscordImportJob>(rows, job.id) {
        table::upserted::<DiscordImportJob>(rows, job)
    } else {
        rows
    }
}

/// Whether what is stored of a job is not over.
pub open spec fn can_go_on(rows: Seq<DiscordImportJobView>, id: Seq<char>) -> bool {
    table::has_id::<DiscordImportJob>(rows, id) && active(
        table::row_of::<DiscordImportJob>(rows, id),
    )
}

/// The first of some jobs by their ids.
pub open spec fn first_job(
    rows: Seq<DiscordImportJobView>,
    q: spec_fn(DiscordImportJobView) -> bool,
) -> Option<DiscordImportJobView> {
    let all = order::sorted::<DiscordImportJob>(rows.filter(q));
    if all.len() == 0 {
        None
    } else {
        Some(all[0])
    }
}

/// Jobs when a worker has taken the one that was made first.
pub open spec fn after_claim(rows: Seq<DiscordImportJobView>, now: i64) -> Seq<
    DiscordImportJobView,
> {
    match first_job(rows, queued()) {
        Some(job) => table::mapped(
            rows,
            table::with_id::<DiscordImportJob>(job.id),
            taken(now),
        ),
        None => rows,
    }
}

/// The job that a worker has taken.
pub open spec fn claimed_job(rows: Seq<DiscordImportJobView>, now: i64) -> Option<
    DiscordImportJobView,
> {
    match first_job(rows, queued()) {
        Some(job) => Some(taken(now)(job)),
        None => None,
    }
}

proof fn lemma_first_job(
    rows: Seq<DiscordImportJobView>,
    q: spec_fn(DiscordImportJobView) -> bool,
)
    ensures
        match first_job(rows, q) {
            Some(job) => rows.contains(job) && q(job),
            None => !table::any_row(rows, q),
        },
{
    broadcast use vstd::seq_lib::group_to_multiset_ensures;

    let some = rows.filter(q);
    let all = order::sorted::<DiscordImportJob>(some);
    order::lemma_sorted::<DiscordImportJob>(some);
    match first_job(rows, q) {
        Some(job) => {
            assert(all[0] == job);
            assert(all.to_multiset().count(job) > 0);
            assert(some.contains(job));
            table::lemma_filter_members(rows, q, job);
        },
        None => {
            if table::any_row(rows, q) {
                let i = choose|i: int| 0 <= i < rows.len() && q(#[trigger] rows[i]);
                assert(rows.contains(rows[i]));
                table::lemma_filter_members(rows, q, rows[i]);
            }
        },
    }
}

impl ReferenceDb {
    /// Stores a new job, unless another of its user is not over.
    pub fn insert_discord_import_job(&mut self, job: &DiscordImportJob) -> (r: Result<(), Error>)
        requires
            old(self).wf(),
        ensures
            final(self).wf(),
            *final(self) == (ReferenceDb {
                discord_import_jobs: final(self).discord_import_jobs,
                ..*old(self)
            }),
            if is_blocked(old(self).discord_import_jobs@, job@) {
                &&& r == Err::<(), Error>(Error::ImportAlreadyInProgress)
                &&& final(self).discord_import_jobs@ == old(self).discord_import_jobs@
            } else {
                &&& r == Ok::<(), Error>(())
                &&& final(self).discord_import_jobs@ == table::upserted::<DiscordImportJob>(
                    old(self).discord_import_jobs@,
                    job@,
                )
            },
    {
        if job.is_active() {
            let ghost q = active_of(job@.user_id);
            let p = |v: &DiscordImportJob| -> (b: bool)
                ensures
                    b == q(v@),
                { same(v.user_id.as_str(), job.user_id.as_str()) && v.is_active() };
            if self.discord_import_jobs.find(p, Ghost(q)).is_some() {
                return Err(Error::ImportAlreadyInProgress);
            }
        }
        self.discord_import_jobs.upsert(job.id.as_str(), job.dup());
        Ok(())
    }

    /// A job.
    pub fn fetch_discord_import_job(&self, id: &str) -> (r: Result<DiscordImportJob, Error>)
        ensures
            if table::has_id::<DiscordImportJob>(self.discord_import_jobs@, id@) {
                r is Ok && r->Ok_0@ == table::row_of::<DiscordImportJob>(
                    self.discord_import_jobs@,
                    id@,
                )
            } else {
                r == Err::<DiscordImportJob, Error>(Error::NotFound)
            },
    {
        match self.discord_import_jobs.fetch(id) {
            Some(job) => Ok(job),
            None => Err(Error::NotFound),
        }
    }

    /// Stores a job in place of what it was. One that was deleted does not come back.
    pub fn save_discord_import_job(&mut self, job: &DiscordImportJob)
        requires
            old(self).wf(),
        ensures
            final(self).wf(),
            *final(self) == (ReferenceDb {
                discord_import_jobs: final(self).discord_import_jobs,
                ..*old(self)
            }),
            final(self).discord_import_jobs@ == saved(old(self).discord_import_jobs@, job@),
    {
        if self.discord_import_jobs.contains_id(job.id.as_str()) {
            self.discord_import_jobs.upsert(job.id.as_str(), job.dup());
        }
    }

    /// Stores a job in place of what it was, while what is stored is not over; tells
    /// whether it did.
    pub fn save_discord_import_job_if_active(&mut self, job: &DiscordImportJob) -> (r: bool)
        requires
            old(self).wf(),
        ensures
            final(self).wf(),
            *final(self) == (ReferenceDb {
                discord_import_jobs: final(self).discord_import_jobs,
                ..*old(self)
            }),
            r == can_go_on(old(self).discord_import_jobs@, job@.id),
            final(self).discord_import_jobs@ == if r {
                saved(old(self).discord_import_jobs@, job@)
            } else {
                old(self).discord_import_jobs@
            },
    {
        match self.discord_import_jobs.fetch(job.id.as_str()) {
            Some(existing) => {
                if existing.is_active() {
                    self.discord_import_jobs.upsert(job.id.as_str(), job.dup());
                    true
                } else {
                    false
                }
            },
            None => false,
        }
    }

    /// The job of a user that is not over: where there are several, the one that was made
    /// first.
    pub fn fetch_active_discord_import_job_for_user(&self, user_id: &str) -> (r: Option<
        DiscordImportJob,
    >)
        ensures
            table::opt_view(r) == first_job(self.discord_import_jobs@, active_of(user_id@)),
    {
        let ghost q = active_of(user_id@);
        let p = |v: &DiscordImportJob| -> (b: bool)
            ensures
                b == q(v@),
            { same(v.user_id.as_str(), user_id) && v.is_active() };
        let mut all = sort_rows(self.discord_import_jobs.select(p, Ghost(q)));
        assert(table::row_views(all@).len() == all@.len());
        if all.len() == 0 {
            None
        } else {
            assert(table::row_views(all@)[0] == all@[0]@);
            Some(all.remove(0))
        }
    }

    /// Hands the job that was made first among those that wait to a worker, at an
    /// instant.
    pub fn claim_next_queued_discord_import_job_at(&mut self, now: i64) -> (r: Option<
        DiscordImportJob,
    >)
        requires
            old(self).wf(),
        ensures
            final(self).wf(),
            *final(self) == (ReferenceDb {
                discord_import_jobs: final(self).discord_import_jobs,
                ..*old(self)
            }),
            table::opt_view(r) == claimed_job(old(self).discord_import_jobs@, now),
            final(self).discord_import_jobs@ == after_claim(old(self).discord_import_jobs@, now),
    {
        let ghost rows = self.discord_import_jobs@;
        let ghost q = queued();
        proof {
            lemma_first_job(rows, q);
        }
        let p = |v: &DiscordImportJob| -> (b: bool)
            ensures
                b == q(v@),
            {
                match v.status {
                    ImportStatus::Queued => true,
                    _ => false,
                }
            };
        let mut all = sort_rows(self.discord_import_jobs.select(p, Ghost(q)));
        assert(table::row_views(all@).len() == all@.len());
        if all.len() == 0 {
            return None;
        }
        assert(table::row_views(all@)[0] == all@[0]@);
        let mut job = all.remove(0);
        let ghost before = job@;
        proof {
            let at = choose|i: int| 0 <= i < rows.len() && rows[i] == before;
            table::lemma_keyed_row::<DiscordImportJob>(rows, before.id, at);
        }
        if let Some(i) = self.discord_import_jobs.position(job.id.as_str()) {
            job.status = ImportStatus::Running;
            job.updated_at = now;
            self.discord_import_jobs.replace(i, job.dup(), Ghost(taken(now)));
        }
        Some(job)
    }

    /// Hands the job that was made first among those that wait to a worker.
    pub fn claim_next_queued_discord_import_job(&mut self) -> (r: Option<DiscordImportJob>)
        requires
            old(self).wf(),
        ensures
            final(self).wf(),
            *final(self) == (ReferenceDb {
                discord_import_jobs: final(self).discord_import_jobs,
                ..*old(self)
            }),
            exists|now: i64|
                table::opt_view(r) == #[trigger] claimed_job(old(self).discord_import_jobs@, now)
                    && final(self).discord_import_jobs@ == after_claim(
                    old(self).discord_import_jobs@,
                    now,
                ),
    {
        let now: i64 = now_ms();
        let ghost rows = self.discord_import_jobs@;
        let r = self.claim_next_queued_discord_import_job_at(now);
        assert(table::opt_view(r) == claimed_job(rows, now));
        r
    }

    /// The jobs that are not over and gave no sign of life since an instant.
    pub fn fetch_stale_discord_import_jobs(&self, cutoff: i64) -> (r: Vec<DiscordImportJob>)
        ensures
            table::row_views(r@) == self.discord_import_jobs@.filter(stale(cutoff)),
    {
        let ghost q = stale(cutoff);
        let p = |v: &DiscordImportJob| -> (b: bool)
            ensures
                b == q(v@),
            { v.is_active() && v.updated_at < cutoff };
        self.discord_import_jobs.select(p, Ghost(q))
    }
}

/// Whether no user has two jobs that are not over.
pub open spec fn one_active_each(rows: Seq<DiscordImportJobView>) -> bool {
    forall|i: int, j: int|
        #![trigger rows[i], rows[j]]
        0 <= i < j < rows.len() && active(rows[i]) && active(rows[j]) ==> rows[i].user_id
            != rows[j].user_id
}

/// A user has at most one import that is not over: storing a new job keeps that so.
pub proof fn law_one_import_at_a_time(rows: Seq<DiscordImportJobView>, job: DiscordImportJobView)
    requires
        table::keyed::<DiscordImportJob>(rows),
        one_active_each(rows),
        !is_blocked(rows, job),
    ensures
        one_active_each(table::upserted::<DiscordImportJob>(rows, job)),
{
    let after = table::upserted::<DiscordImportJob>(rows, job);
    assert forall|i: int, j: int|
        #![trigger after[i], after[j]]
        0 <= i < j < after.len() && active(after[i]) && active(after[j]) implies after[i].user_id
        != after[j].user_id by {
        if i < rows.len() && active_of(job.user_id)(rows[i]) {
            assert(table::any_row(rows, active_of(job.user_id)));
        }
        if j < rows.len() && active_of(job.user_id)(rows[j]) {
            assert(table::any_row(rows, active_of(job.user_id)));
        }
        if i < rows.len() && j < rows.len() && after[i] != rows[i] && after[j] != rows[j] {
            let key = |v: DiscordImportJobView| DiscordImportJob::id_of(v);
            assert(key(rows[i]) != key(rows[j]));
        }
    }
}

/// A worker that goes on with a job, or ends it, keeps it so that a user has at most one
/// import that is not over.
pub proof fn law_working_keeps_one_import_at_a_time(
    rows: Seq<DiscordImportJobView>,
    job: DiscordImportJobView,
    now: i64,
)
    requires
        table::keyed::<DiscordImportJob>(rows),
        one_active_each(rows),
    ensures
        one_active_each(after_claim(rows, now)),
        can_go_on(rows, job.id) && table::row_of::<DiscordImportJob>(rows, job.id).user_id
            == job.user_id ==> one_active_each(saved(rows, job)),
{
    lemma_first_job(rows, queued());
    let claimed = after_claim(rows, now);
    assert forall|i: int, j: int|
        #![trigger claimed[i], claimed[j]]
        0 <= i < j < claimed.len() && active(claimed[i]) && active(
            claimed[j],
        ) implies claimed[i].user_id != claimed[j].user_id by {
        lemma_claimed_row(rows, now, i);
        lemma_claimed_row(rows, now, j);
        assert(rows[i].user_id != rows[j].user_id);
    }
    if can_go_on(rows, job.id) && table::row_of::<DiscordImportJob>(rows, job.id).user_id
        == job.user_id {
        let q = table::with_id::<DiscordImportJob>(job.id);
        table::lemma_first_row_matches(rows, q);
        let at = table::first_row(rows, q);
        table::lemma_keyed_row::<DiscordImportJob>(rows, job.id, at);
        let after = saved(rows, job);
        assert forall|i: int, j: int|
            #![trigger after[i], after[j]]
            0 <= i < j < after.len() && active(after[i]) && active(
                after[j],
            ) implies after[i].user_id != after[j].user_id by {
            assert(rows[i].user_id == after[i].user_id);
            assert(rows[j].user_id == after[j].user_id);
            assert(i != at ==> after[i] == rows[i]);
            assert(j != at ==> after[j] == rows[j]);
            assert(active(rows[i]) && active(rows[j]));
        }
    }
}

proof fn lemma_claimed_row(rows: Seq<DiscordImportJobView>, now: i64, i: int)
    requires
        table::keyed::<DiscordImportJob>(rows),
        0 <= i < rows.len(),
    ensures
        after_claim(rows, now).len() == rows.len(),
        after_claim(rows, now)[i].id == rows[i].id,
        after_claim(rows, now)[i].user_id == rows[i].user_id,
        active(after_claim(rows, now)[i]) == active(rows[i]),
        !active(rows[i]) ==> after_claim(rows, now)[i] == rows[i],
{
    lemma_first_job(rows, queued());
    match first_job(rows, queued()) {
        Some(job) => {
            let at = choose|k: int| 0 <= k < rows.len() && rows[k] == job;
            table::lemma_keyed_row::<DiscordImportJob>(rows, job.id, at);
            assert(i != at ==> DiscordImportJob::id_of(rows[i]) != job.id);
        },
        None => {},
    }
}

/// What is over stays as it is: neither a worker that goes on with a job nor one that
/// takes the next changes a job that was completed or has failed.
pub proof fn law_what_is_over_stays(
    rows: Seq<DiscordImportJobView>,
    job: DiscordImportJobView,
    now: i64,
    over: DiscordImportJobView,
)
    requires
        table::keyed::<DiscordImportJob>(rows),
        rows.contains(over),
        !active(over),
    ensures
        after_claim(rows, now).contains(over),
        can_go_on(rows, job.id) ==> saved(rows, job).contains(over),
        !can_go_on(rows, over.id),
{
    let at = choose|i: int| 0 <= i < rows.len() && rows[i] == over;
    lemma_claimed_row(rows, now, at);
    assert(after_claim(rows, now)[at] == over);
    table::lemma_keyed_row::<DiscordImportJob>(rows, over.id, at);
    if can_go_on(rows, job.id) {
        assert(saved(rows, job)[at] == over);
    }
}

/// A job is handed to one worker only: once taken, it does not wait any longer, so that
/// the next worker gets another one.
pub proof fn law_job_is_taken_once(rows: Seq<DiscordImportJobView>, now: i64, later: i64)
    requires
        table::keyed::<DiscordImportJob>(rows),
    ensures
        match (claimed_job(rows, now), claimed_job(after_claim(rows, now), later)) {
            (Some(a), Some(b)) => a.id != b.id && a.status is Running && b.status is Running,
            _ => true,
        },
        claimed_job(rows, now) is None <==> !table::any_row(rows, queued()),
{
    lemma_first_job(rows, queued());
    let after = after_claim(rows, now);
    lemma_first_job(after, queued());
    match (first_job(rows, queued()), first_job(after, queued())) {
        (Some(a), Some(b)) => {
            if a.id == b.id {
                let i = choose|i: int| 0 <= i < after.len() && after[i] == b;
                assert(table::with_id::<DiscordImportJob>(a.id)(rows[i])) by {
                    lemma_claimed_row(rows, now, i);
                }
                assert(after[i] == taken(now)(rows[i]));
            }
        },
        _ => {},
    }
}

/// A job that gives signs of life is not given up, however long it takes.
pub proof fn law_live_jobs_are_not_stale(
    rows: Seq<DiscordImportJobView>,
    cutoff: i64,
    v: DiscordImportJobView,
)
    ensures
        v.updated_at >= cutoff ==> !rows.filter(stale(cutoff)).contains(v),
        rows.contains(v) && active(v) && v.updated_at < cutoff ==> rows.filter(
            stale(cutoff),
        ).contains(v),
{
    table::lemma_filter_members(rows, stale(cutoff), v);
}

/// A job that was deleted does not come back.
pub proof fn law_deleted_job_stays_away(
    rows: Seq<DiscordImportJobView>,
    job: DiscordImportJobView,
)
    requires
        !table::has_id::<DiscordImportJob>(rows, job.id),
    ensures
        saved(rows, job) == rows,
        !can_go_on(rows, job.id),
{
}

/// A new job waits for a worker, with nothing done and nothing to show, for its user and its
/// template.
pub proof fn law_new_job_waits(id: Seq<char>, user: Seq<char>, code: Seq<char>, now: i64)
    ensures
        ({
            let job = fresh_job(id, user, code, now);
            &&& job.id == id && job.user_id == user && job.template_code == code
            &&& job.kind == ImportJobKind::Template && job.status == ImportStatus::Queued
                && job.stage == ImportStage::Fetching
            &&& job.done == 0 && job.total == 0 && job.updated_at == now
            &&& job.source_guild_id is None && job.parent_job_id is None && job.server_id is None
                && job.invite_code is None && job.error is None && job.summary is None
            &&& queued()(job)
        }),
{
}

/// A job for stickers waits too, and works for the user and on the server and the guild of
/// the job that it continues.
pub proof fn law_sticker_job_continues_its_parent(
    id: Seq<char>,
    parent: DiscordImportJobView,
    now: i64,
)
    ensures
        ({
            let job = sticker_job(id, parent, now);
            &&& job.id == id && job.user_id == parent.user_id && job.parent_job_id == Some(
                parent.id,
            )
            &&& job.server_id == parent.server_id && job.source_guild_id == parent.source_guild_id
            &&& job.kind == ImportJobKind::Stickers && job.status == ImportStatus::Queued
                && job.stage == ImportStage::Stickers
            &&& job.done == 0 && job.total == 0 && job.updated_at == now
            &&& job.template_code.len() == 0 && job.invite_code is None && job.error is None
                && job.summary is None
        }),
{
}

/// A job is over once it completed or failed; while a job of a user is not over, no other of
/// the user can begin, and jobs of others do not matter.
pub proof fn law_when_a_job_must_wait(
    rows: Seq<DiscordImportJobView>,
    job: DiscordImportJobView,
)
    ensures
        active(job) <==> job.status == ImportStatus::Queued || job.status == ImportStatus::Running,
        is_blocked(rows, job) <==> (job.status == ImportStatus::Queued || job.status
            == ImportStatus::Running) && exists|i: int|
            0 <= i < rows.len() && (#[trigger] rows[i]).user_id == job.user_id && (rows[i].status
                == ImportStatus::Queued || rows[i].status == ImportStatus::Running),
{
    let q = active_of(job.user_id);
    if exists|i: int|
        0 <= i < rows.len() && (#[trigger] rows[i]).user_id == job.user_id && (rows[i].status
            == ImportStatus::Queued || rows[i].status == ImportStatus::Running) {
        let i = choose|i: int|
            0 <= i < rows.len() && (#[trigger] rows[i]).user_id == job.user_id && (rows[i].status
                == ImportStatus::Queued || rows[i].status == ImportStatus::Running);
        assert(q(rows[i]));
    }
}

/// A worker takes the waiting job that was made first: it runs from then on, and all other
/// jobs stay as they are. Where none waits nothing is taken.
pub proof fn law_first_waiting_job_is_taken(rows: Seq<DiscordImportJobView>, now: i64, i: int)
    requires
        table::keyed::<DiscordImportJob>(rows),
        0 <= i < rows.len(),
    ensures
        ({
            let job = claimed_job(rows, now);
            let after = after_claim(rows, now);
            &&& rows[i].status == ImportStatus::Queued ==> job is Some
            &&& job is Some ==> {
                &&& job->Some_0.status == ImportStatus::Running
                &&& job->Some_0.updated_at == now
                &&& after.len() == rows.len()
                &&& rows[i].status == ImportStatus::Queued ==> !text::text_before(
                    rows[i].id,
                    job->Some_0.id,
                )
                &&& exists|k: int|
                    0 <= k < rows.len() && (#[trigger] rows[k]).status == ImportStatus::Queued
                        && rows[k].id == job->Some_0.id && after[k] == job->Some_0
                &&& rows[i].id != job->Some_0.id ==> after[i] == rows[i]
            }
            &&& job is None ==> after == rows
        }),
{
    lemma_first_of(rows, queued(), i);
    if let Some(job) = first_job(rows, queued()) {
        let k = choose|k: int| 0 <= k < rows.len() && rows[k] == job;
        table::lemma_keyed_row::<DiscordImportJob>(rows, job.id, k);
        assert(rows[k].status == ImportStatus::Queued);
    }
}

proof fn lemma_first_of(
    rows: Seq<DiscordImportJobView>,
    q: spec_fn(DiscordImportJobView) -> bool,
    i: int,
)
    requires
        0 <= i < rows.len(),
    ensures
        q(rows[i]) ==> first_job(rows, q) is Some && !text::text_before(
            rows[i].id,
            first_job(rows, q)->Some_0.id,
        ),
        first_job(rows, q) is Some ==> rows.contains(first_job(rows, q)->Some_0) && q(
            first_job(rows, q)->Some_0,
        ),
{
    broadcast use vstd::seq_lib::group_to_multiset_ensures;

    let kept = rows.filter(q);
    let all = order::sorted::<DiscordImportJob>(kept);
    order::lemma_sorted::<DiscordImportJob>(kept);
    if q(rows[i]) {
        assert(rows.contains(rows[i]));
        table::lemma_filter_members(rows, q, rows[i]);
        assert(kept.to_multiset().count(rows[i]) > 0);
        assert(all.contains(rows[i]));
        let k = choose|k: int| 0 <= k < all.len() && all[k] == rows[i];
        text::lemma_bytes_before_irreflexive(vstd::utf8::encode_utf8(rows[i].id));
        assert(!text::text_before(all[k].id, all[0].id));
    }
    if all.len() > 0 {
        assert(all.contains(all[0]));
        assert(kept.to_multiset().count(all[0]) > 0);
        assert(kept.contains(all[0]));
        table::lemma_filter_members(rows, q, all[0]);
    }
}

/// Jobs that are looked after are those that are not over and gave no sign of life since an
/// instant.
pub proof fn law_which_jobs_are_stale(
    rows: Seq<DiscordImportJobView>,
    cutoff: i64,
    job: DiscordImportJobView,
)
    ensures
        rows.filter(stale(cutoff)).contains(job) <==> rows.contains(job) && (job.status
            == ImportStatus::Queued || job.status == ImportStatus::Running) && job.updated_at
            < cutoff,
{
    table::lemma_filter_members(rows, stale(cutoff), job);
}

/// A stored job is replaced by what is saved of it; one that is not stored is not brought
/// back. What is over does not go on.
pub proof fn law_saved_job_is_stored(
    rows: Seq<DiscordImportJobView>,
    job: DiscordImportJobView,
    i: int,
)
    requires
        table::keyed::<DiscordImportJob>(rows),
        0 <= i < rows.len(),
    ensures
        rows[i].id == job.id ==> saved(rows, job)[i] == job,
        rows[i].id != job.id ==> saved(rows, job)[i] == rows[i],
        saved(rows, job).len() == rows.len(),
        rows[i].id == job.id ==> (can_go_on(rows, job.id) <==> rows[i].status
            == ImportStatus::Queued || rows[i].status == ImportStatus::Running),
{
    if rows[i].id == job.id {
        table::lemma_keyed_row::<DiscordImportJob>(rows, job.id, i);
    }
}

} // verus!
