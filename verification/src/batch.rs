//! The batch orchestrator: the list of files, their statuses, and the
//! aggregate progress of one convert-all run.
//!
//! The state machine here is pure: starting a batch returns the jobs to
//! spawn, and each job's completion is handed back through `on_finished`.
//! The application performs the jobs and owns the event loop.

use vstd::prelude::*;
use crate::paths::{output_path_for, spec_output_path};

verus! {

/// Status of one file in the batch.
#[derive(Debug, Clone, PartialEq)]
pub enum ConversionStatus {
    Pending,
    Converting,
    Success,
    Error(String),
}

/// The mathematical value of a status.
pub enum StatusModel {
    Pending,
    Converting,
    Success,
    Error(Seq<char>),
}

impl DeepView for ConversionStatus {
    type V = StatusModel;

    open spec fn deep_view(&self) -> StatusModel {
        match self {
            ConversionStatus::Pending => StatusModel::Pending,
            ConversionStatus::Converting => StatusModel::Converting,
            ConversionStatus::Success => StatusModel::Success,
            ConversionStatus::Error(m) => StatusModel::Error(m@),
        }
    }
}

/// One file of the batch: its path and its status.
#[derive(Debug, Clone, PartialEq)]
pub struct FileEntry {
    pub path: String,
    pub status: ConversionStatus,
}

/// The mathematical value of one entry.
pub struct EntryModel {
    pub path: Seq<char>,
    pub status: StatusModel,
}

impl DeepView for FileEntry {
    type V = EntryModel;

    open spec fn deep_view(&self) -> EntryModel {
        EntryModel { path: self.path@, status: self.status.deep_view() }
    }
}

/// One conversion to run: the entry's index, its input path, and the output
/// path its PDF goes to.
#[derive(Debug, Clone, PartialEq)]
pub struct Job {
    pub index: usize,
    pub input: String,
    pub output: String,
}

/// The mathematical value of one job.
pub struct JobModel {
    pub index: usize,
    pub input: Seq<char>,
    pub output: Seq<char>,
}

impl DeepView for Job {
    type V = JobModel;

    open spec fn deep_view(&self) -> JobModel {
        JobModel { index: self.index, input: self.input@, output: self.output@ }
    }
}

/// A message handed to the orchestrator by the user interface.
#[derive(Debug, PartialEq)]
pub enum Message {
    AddFiles,
    FilesSelected(Vec<String>),
    RemoveFile(usize),
    SelectOutputDir,
    OutputDirSelected(String),
    ConvertAll,
    ConversionFinished(usize, Result<(), String>),
    ToggleAbout,
    OpenLink(String),
    NoOp,
}

/// What the application must do after a message is applied.
#[derive(Debug, Clone, PartialEq)]
pub enum Effect {
    /// Open the file picker and hand back `FilesSelected`.
    PickFiles,
    /// Open the directory picker and hand back `OutputDirSelected`.
    PickOutputDir,
    /// Open the given link in a browser.
    OpenUrl(String),
    /// Run the given conversions, each delivering `ConversionFinished`.
    Spawn(Vec<Job>),
    /// Nothing to do.
    Quiet,
}

/// Whether some entry holds the given path.
pub open spec fn spec_contains_path(files: Seq<EntryModel>, p: Seq<char>) -> bool {
    exists|i: int| 0 <= i < files.len() && files[i].path == p
}

/// No two entries hold the same path.
pub open spec fn paths_distinct(files: Seq<EntryModel>) -> bool {
    forall|i: int, j: int| 0 <= i < j < files.len() ==> files[i].path != files[j].path
}

/// How many entries are converting.
pub open spec fn converting_count(files: Seq<EntryModel>) -> int
    decreases files.len(),
{
    if files.len() == 0 {
        0
    } else {
        converting_count(files.drop_last()) + if files.last().status is Converting {
            1int
        } else {
            0int
        }
    }
}

proof fn lemma_count_nonneg(files: Seq<EntryModel>)
    ensures
        converting_count(files) >= 0,
    decreases files.len(),
{
    if files.len() > 0 {
        lemma_count_nonneg(files.drop_last());
    }
}

/// A count of zero means no entry is converting.
proof fn lemma_count_zero(files: Seq<EntryModel>)
    requires
        converting_count(files) == 0,
    ensures
        forall|i: int| 0 <= i < files.len() ==> !(files[i].status is Converting),
    decreases files.len(),
{
    if files.len() > 0 {
        lemma_count_nonneg(files.drop_last());
        lemma_count_zero(files.drop_last());
        assert forall|i: int| 0 <= i < files.len() implies !(files[i].status is Converting) by {
            if i < files.len() - 1 {
                assert(files.drop_last()[i] == files[i]);
            }
        }
    }
}

/// No converting entry means a count of zero.
proof fn lemma_count_of_none(files: Seq<EntryModel>)
    requires
        forall|i: int| 0 <= i < files.len() ==> !(files[i].status is Converting),
    ensures
        converting_count(files) == 0,
    decreases files.len(),
{
    if files.len() > 0 {
        assert forall|i: int| 0 <= i < files.len() - 1 implies !(files.drop_last()[i].status
            is Converting) by {
            assert(files.drop_last()[i] == files[i]);
        }
        lemma_count_of_none(files.drop_last());
    }
}

/// Replacing one entry adjusts the count by the two entries' statuses.
proof fn lemma_count_update(files: Seq<EntryModel>, i: int, e: EntryModel)
    requires
        0 <= i < files.len(),
    ensures
        converting_count(files.update(i, e)) == converting_count(files) - (
        if files[i].status is Converting {
            1int
        } else {
            0int
        }) + (
        if e.status is Converting {
            1int
        } else {
            0int
        }),
    decreases files.len(),
{
    let u = files.update(i, e);
    if i == files.len() - 1 {
        assert(u.drop_last() =~= files.drop_last());
        assert(u.last() == e);
    } else {
        assert(u.drop_last() =~= files.drop_last().update(i, e));
        assert(u.last() == files.last());
        assert(files.drop_last()[i] == files[i]);
        lemma_count_update(files.drop_last(), i, e);
    }
}

/// One path added to the list: appended as `Pending` unless an entry with
/// the same path already exists.
pub open spec fn add_one(files: Seq<EntryModel>, p: Seq<char>) -> Seq<EntryModel> {
    if spec_contains_path(files, p) {
        files
    } else {
        files.push(EntryModel { path: p, status: StatusModel::Pending })
    }
}

/// The first `k` paths added in order.
pub open spec fn add_paths_upto(files: Seq<EntryModel>, ps: Seq<Seq<char>>, k: int) -> Seq<
    EntryModel,
>
    decreases k,
{
    if k <= 0 {
        files
    } else {
        add_one(add_paths_upto(files, ps, k - 1), ps[k - 1])
    }
}

/// Adding a path twice leaves a single entry: the second addition changes
/// nothing.
pub proof fn lemma_add_twice(files: Seq<EntryModel>, p: Seq<char>)
    ensures
        add_one(add_one(files, p), p) == add_one(files, p),
{
    if !spec_contains_path(files, p) {
        let g = add_one(files, p);
        assert(g[files.len() as int].path == p);
        assert(spec_contains_path(g, p));
    }
}

/// What starting a batch does to one entry: a successful entry is skipped;
/// any other becomes `Converting` when its output path exists, and fails
/// right away when it does not.
pub open spec fn start_entry(e: EntryModel, dir: Option<Seq<char>>) -> EntryModel {
    if e.status is Success {
        e
    } else if spec_output_path(e.path, dir) is Some {
        EntryModel { path: e.path, status: StatusModel::Converting }
    } else {
        EntryModel {
            path: e.path,
            status: StatusModel::Error("Input file has no parent directory"@),
        }
    }
}

/// All entries at batch start.
pub open spec fn start_files(files: Seq<EntryModel>, dir: Option<Seq<char>>) -> Seq<EntryModel> {
    files.map_values(|e: EntryModel| start_entry(e, dir))
}

/// The jobs spawned for the first `k` entries: one per entry that is not
/// yet successful and has an output path.
pub open spec fn start_jobs_upto(files: Seq<EntryModel>, dir: Option<Seq<char>>, k: int) -> Seq<
    JobModel,
>
    decreases k,
{
    if k <= 0 {
        Seq::empty()
    } else {
        let rest = start_jobs_upto(files, dir, k - 1);
        let e = files[k - 1];
        if e.status is Success {
            rest
        } else {
            match spec_output_path(e.path, dir) {
                Option::Some(o) => rest.push(
                    JobModel { index: (k - 1) as usize, input: e.path, output: o },
                ),
                Option::None => rest,
            }
        }
    }
}

/// All jobs spawned at batch start.
pub open spec fn start_jobs(files: Seq<EntryModel>, dir: Option<Seq<char>>) -> Seq<JobModel> {
    start_jobs_upto(files, dir, files.len() as int)
}

/// The batch orchestrator's state.
pub struct App {
    /// The files of the batch, in the order they were added.
    pub files: Vec<FileEntry>,
    /// Where output PDFs go; next to each input when unset.
    pub output_dir: Option<String>,
    /// Whether a batch is running.
    pub is_converting: bool,
    /// How many conversions the running batch spawned.
    pub total_files: usize,
    /// How many of them have finished.
    pub completed_files: usize,
    /// Whether the about view is shown.
    pub show_about: bool,
}

impl App {
    /// The state invariant: no two entries share a path, progress never
    /// exceeds the batch size, a running batch has as many converting
    /// entries as unfinished jobs, and an idle one has none.
    pub open spec fn wf(self) -> bool {
        &&& paths_distinct(self.files.deep_view())
        &&& self.completed_files <= self.total_files
        &&& (self.is_converting ==> self.completed_files < self.total_files)
        &&& converting_count(self.files.deep_view()) == if self.is_converting {
            self.total_files - self.completed_files
        } else {
            0int
        }
    }

    /// A fresh orchestrator: no files, no output directory, idle.
    pub fn new() -> (r: App)
        ensures
            r.wf(),
            r.files@.len() == 0,
            r.output_dir is None,
            !r.is_converting,
            r.total_files == 0,
            r.completed_files == 0,
            !r.show_about,
    {
        App {
            files: Vec::new(),
            output_dir: Option::None,
            is_converting: false,
            total_files: 0,
            completed_files: 0,
            show_about: false,
        }
    }

    /// Whether some entry holds the given path.
    #[verifier::loop_isolation(false)]
    fn contains_path(&self, p: &String) -> (r: bool)
        ensures
            r == spec_contains_path(self.files.deep_view(), p@),
    {
        let ghost dv = self.files.deep_view();
        let mut k: usize = 0;
        while k < self.files.len()
            invariant
                k <= self.files.len(),
                forall|j: int| 0 <= j < k ==> dv[j].path != p@,
            decreases self.files.len() - k,
        {
            if crate::textlines::str_eq(self.files[k].path.as_str(), p.as_str()) {
                proof {
                    assert(dv[k as int].path == p@);
                }
                return true;
            }
            k = k + 1;
        }
        false
    }

    /// Add paths to the batch: each becomes a pending entry unless an entry
    /// with the same path already exists.
    #[verifier::loop_isolation(false)]
    pub fn add_files(&mut self, paths: Vec<String>)
        requires
            old(self).wf(),
        ensures
            final(self).wf(),
            final(self).files.deep_view() == add_paths_upto(
                old(self).files.deep_view(),
                paths.deep_view(),
                paths@.len() as int,
            ),
            final(self).output_dir == old(self).output_dir,
            final(self).is_converting == old(self).is_converting,
            final(self).total_files == old(self).total_files,
            final(self).completed_files == old(self).completed_files,
            final(self).show_about == old(self).show_about,
    {
        let ghost old_dv = old(self).files.deep_view();
        let ghost ps = paths.deep_view();
        let mut k: usize = 0;
        while k < paths.len()
            invariant
                k <= paths.len(),
                self.files.deep_view() == add_paths_upto(old_dv, ps, k as int),
                paths_distinct(self.files.deep_view()),
                converting_count(self.files.deep_view()) == converting_count(old_dv),
                self.output_dir == old(self).output_dir,
                self.is_converting == old(self).is_converting,
                self.total_files == old(self).total_files,
                self.completed_files == old(self).completed_files,
                self.show_about == old(self).show_about,
            decreases paths.len() - k,
        {
            let ghost pre = self.files.deep_view();
            if !self.contains_path(&paths[k]) {
                let entry = FileEntry {
                    path: paths[k].clone(),
                    status: ConversionStatus::Pending,
                };
                self.files.push(entry);
                proof {
                    assert(self.files.deep_view() =~= pre.push(
                        EntryModel { path: ps[k as int], status: StatusModel::Pending },
                    ));
                    let now = self.files.deep_view();
                    assert(now.drop_last() =~= pre);
                    assert forall|i: int, j: int| 0 <= i < j < now.len() implies now[i].path
                        != now[j].path by {
                        if j < now.len() - 1 {
                            assert(now[i] == pre[i] && now[j] == pre[j]);
                        } else {
                            assert(now[i] == pre[i]);
                            assert(!spec_contains_path(pre, ps[k as int]));
                        }
                    }
                }
            }
            k = k + 1;
        }
        proof {
            assert(paths.deep_view().len() == paths@.len());
        }
    }

    /// Remove the entry at the index.  Does nothing while a batch runs, or
    /// when the index is out of range.
    pub fn remove_file(&mut self, index: usize)
        requires
            old(self).wf(),
        ensures
            final(self).wf(),
            old(self).is_converting || index >= old(self).files@.len() ==> *final(self) == *old(self),
            !old(self).is_converting && index < old(self).files@.len() ==> {
                &&& final(self).files.deep_view() == old(self).files.deep_view().remove(
                    index as int,
                )
                &&& final(self).output_dir == old(self).output_dir
                &&& final(self).is_converting == old(self).is_converting
                &&& final(self).total_files == old(self).total_files
                &&& final(self).completed_files == old(self).completed_files
                &&& final(self).show_about == old(self).show_about
            },
    {
        if !self.is_converting && index < self.files.len() {
            let ghost pre = self.files.deep_view();
            self.files.remove(index);
            proof {
                let now = self.files.deep_view();
                assert(now =~= pre.remove(index as int));
                assert forall|i: int, j: int| 0 <= i < j < now.len() implies now[i].path
                    != now[j].path by {
                    let i0 = if i < index { i } else { i + 1 };
                    let j0 = if j < index { j } else { j + 1 };
                    assert(now[i] == pre[i0] && now[j] == pre[j0]);
                }
                lemma_count_zero(pre);
                assert forall|i: int| 0 <= i < now.len() implies !(now[i].status
                    is Converting) by {
                    let i0 = if i < index { i } else { i + 1 };
                    assert(now[i] == pre[i0]);
                }
                lemma_count_of_none(now);
            }
        }
    }

    /// Store the output directory.
    pub fn set_output_dir(&mut self, dir: String)
        requires
            old(self).wf(),
        ensures
            final(self).wf(),
            *final(self) == (App { output_dir: Option::Some(dir), ..*old(self) }),
    {
        self.output_dir = Option::Some(dir);
    }

    /// Start a batch.  Does nothing while one runs or when the list is
    /// empty.  Otherwise every entry that has not succeeded is attempted
    /// again: it becomes `Converting` and gets a job, or fails right away
    /// when its output path cannot be formed.  Succeeded entries are
    /// skipped.  Progress restarts at zero over the spawned jobs.
    #[verifier::loop_isolation(false)]
    pub fn start_conversion(&mut self) -> (jobs: Vec<Job>)
        requires
            old(self).wf(),
        ensures
            final(self).wf(),
            old(self).is_converting || old(self).files@.len() == 0 ==> *final(self) == *old(self)
                && jobs@.len() == 0,
            !old(self).is_converting && old(self).files@.len() > 0 ==> {
                &&& final(self).files.deep_view() == start_files(
                    old(self).files.deep_view(),
                    old(self).output_dir.deep_view(),
                )
                &&& jobs.deep_view() == start_jobs(
                    old(self).files.deep_view(),
                    old(self).output_dir.deep_view(),
                )
                &&& final(self).total_files == jobs@.len()
                &&& final(self).completed_files == 0
                &&& final(self).is_converting == (jobs@.len() > 0)
                &&& final(self).output_dir == old(self).output_dir
                &&& final(self).show_about == old(self).show_about
            },
    {
        if self.is_converting || self.files.len() == 0 {
            return Vec::new();
        }
        proof {
            lemma_count_zero(old(self).files.deep_view());
        }
        self.is_converting = false;
        self.completed_files = 0;
        self.total_files = 0;
        let ghost old_dv = old(self).files.deep_view();
        let ghost dirv = old(self).output_dir.deep_view();
        let mut jobs: Vec<Job> = Vec::new();
        let mut i: usize = 0;
        while i < self.files.len()
            invariant
                i <= self.files.len(),
                self.files@.len() == old_dv.len(),
                forall|j: int| 0 <= j < i ==> self.files.deep_view()[j] == start_entry(
                    old_dv[j],
                    dirv,
                ),
                forall|j: int| i <= j < old_dv.len() ==> self.files.deep_view()[j] == old_dv[j],
                jobs.deep_view() == start_jobs_upto(old_dv, dirv, i as int),
                converting_count(self.files.deep_view()) == jobs@.len(),
                jobs@.len() <= i,
                self.output_dir == old(self).output_dir,
                self.show_about == old(self).show_about,
                !self.is_converting,
                self.total_files == 0,
                self.completed_files == 0,
            decreases self.files.len() - i,
        {
            let ghost pre = self.files.deep_view();
            let ghost jobs_pre = jobs.deep_view();
            let is_success = match self.files[i].status {
                ConversionStatus::Success => true,
                _ => false,
            };
            if !is_success {
                let out = output_path_for(self.files[i].path.as_str(), &self.output_dir);
                let path = self.files[i].path.clone();
                match out {
                    Option::Some(o) => {
                        jobs.push(Job { index: i, input: path.clone(), output: o });
                        self.files[i] = FileEntry {
                            path,
                            status: ConversionStatus::Converting,
                        };
                    },
                    Option::None => {
                        self.files[i] = FileEntry {
                            path,
                            status: ConversionStatus::Error(
                                "Input file has no parent directory".to_owned(),
                            ),
                        };
                    },
                }
                proof {
                    assert(self.files.deep_view() =~= pre.update(
                        i as int,
                        start_entry(old_dv[i as int], dirv),
                    ));
                    lemma_count_update(pre, i as int, start_entry(old_dv[i as int], dirv));
                }
            }
            proof {
                assert(jobs.deep_view() =~= start_jobs_upto(old_dv, dirv, i + 1));
            }
            i = i + 1;
        }
        self.total_files = jobs.len();
        self.is_converting = jobs.len() > 0;
        proof {
            assert(self.files.deep_view() =~= start_files(old_dv, dirv));
            if jobs@.len() > 0 {
                assert(converting_count(self.files.deep_view()) == self.total_files
                    - self.completed_files);
            }
        }
        jobs
    }

    /// Fold one job's completion back in: progress advances, the entry
    /// becomes `Success` or `Error` with the delivered message, and the
    /// batch ends when every job has finished.
    pub fn on_finished(&mut self, index: usize, result: Result<(), String>)
        requires
            old(self).wf(),
            old(self).is_converting,
            index < old(self).files@.len(),
            old(self).files.deep_view()[index as int].status is Converting,
        ensures
            final(self).wf(),
            final(self).completed_files == old(self).completed_files + 1,
            final(self).files.deep_view() == old(self).files.deep_view().update(
                index as int,
                EntryModel {
                    path: old(self).files.deep_view()[index as int].path,
                    status: match result {
                        Ok(_) => StatusModel::Success,
                        Err(m) => StatusModel::Error(m@),
                    },
                },
            ),
            final(self).is_converting == (old(self).completed_files + 1 < old(self).total_files),
            final(self).total_files == old(self).total_files,
            final(self).output_dir == old(self).output_dir,
            final(self).show_about == old(self).show_about,
    {
        let ghost pre = self.files.deep_view();
        self.completed_files = self.completed_files + 1;
        let path = self.files[index].path.clone();
        let entry = match result {
            Ok(_) => FileEntry { path, status: ConversionStatus::Success },
            Err(m) => FileEntry { path, status: ConversionStatus::Error(m) },
        };
        let ghost em = entry.deep_view();
        self.files[index] = entry;
        if self.completed_files >= self.total_files {
            self.is_converting = false;
        }
        proof {
            assert(self.files.deep_view() =~= pre.update(index as int, em));
            lemma_count_update(pre, index as int, em);
            assert forall|i: int, j: int|
                0 <= i < j < self.files.deep_view().len() implies self.files.deep_view()[i].path
                != self.files.deep_view()[j].path by {
                let now = self.files.deep_view();
                assert(now[i].path == pre[i].path && now[j].path == pre[j].path);
            }
        }
    }

    /// Toggle the about view.
    pub fn toggle_about(&mut self)
        requires
            old(self).wf(),
        ensures
            final(self).wf(),
            *final(self) == (App { show_about: !old(self).show_about, ..*old(self) }),
    {
        self.show_about = !self.show_about;
    }

    /// Everything but the file list and the about flag kept as it was.
    pub open spec fn same_batch_fields(self, post: App) -> bool {
        &&& post.output_dir == self.output_dir
        &&& post.is_converting == self.is_converting
        &&& post.total_files == self.total_files
        &&& post.completed_files == self.completed_files
        &&& post.show_about == self.show_about
    }

    /// What a batch start does: every entry restarted or skipped as
    /// `start_entry` says, one job per attempted entry, progress reset, and
    /// the batch running exactly when it has jobs.
    pub open spec fn batch_started(self, post: App, jobs: Seq<JobModel>) -> bool {
        &&& post.files.deep_view() == start_files(
            self.files.deep_view(),
            self.output_dir.deep_view(),
        )
        &&& jobs == start_jobs(self.files.deep_view(), self.output_dir.deep_view())
        &&& post.total_files == jobs.len()
        &&& post.completed_files == 0
        &&& post.is_converting == (jobs.len() > 0)
        &&& post.output_dir == self.output_dir
        &&& post.show_about == self.show_about
    }

    /// What one job's completion does: progress advances by one, the job's
    /// entry becomes terminal with the delivered outcome, and the batch ends
    /// exactly when it was the last job.
    pub open spec fn job_finished(
        self,
        post: App,
        index: int,
        result: Result<(), String>,
    ) -> bool {
        &&& post.completed_files == self.completed_files + 1
        &&& post.files.deep_view() == self.files.deep_view().update(
            index,
            EntryModel {
                path: self.files.deep_view()[index].path,
                status: match result {
                    Ok(_) => StatusModel::Success,
                    Err(m) => StatusModel::Error(m@),
                },
            },
        )
        &&& post.is_converting == (self.completed_files + 1 < self.total_files)
        &&& post.total_files == self.total_files
        &&& post.output_dir == self.output_dir
        &&& post.show_about == self.show_about
    }

    /// Apply one message and say what the application must do next.
    /// `ConversionFinished` must carry the index of an entry its batch is
    /// converting, as each spawned job does.
    pub fn update(&mut self, message: Message) -> (effect: Effect)
        requires
            old(self).wf(),
            match message {
                Message::ConversionFinished(index, _) => {
                    &&& old(self).is_converting
                    &&& index < old(self).files@.len()
                    &&& old(self).files.deep_view()[index as int].status is Converting
                },
                _ => true,
            },
        ensures
            final(self).wf(),
            match message {
                Message::AddFiles => *final(self) == *old(self) && effect == Effect::PickFiles,
                Message::FilesSelected(paths) => {
                    &&& effect == Effect::Quiet
                    &&& final(self).files.deep_view() == add_paths_upto(
                        old(self).files.deep_view(),
                        paths.deep_view(),
                        paths@.len() as int,
                    )
                    &&& old(self).same_batch_fields(*final(self))
                },
                Message::RemoveFile(index) => {
                    &&& effect == Effect::Quiet
                    &&& !old(self).is_converting && index < old(self).files@.len() ==> {
                        &&& final(self).files.deep_view() == old(self).files.deep_view().remove(
                            index as int,
                        )
                        &&& old(self).same_batch_fields(*final(self))
                    }
                    &&& old(self).is_converting || index >= old(self).files@.len()
                        ==> *final(self) == *old(self)
                },
                Message::SelectOutputDir => *final(self) == *old(self) && effect
                    == Effect::PickOutputDir,
                Message::OutputDirSelected(dir) => effect == Effect::Quiet && *final(self) == (App {
                    output_dir: Option::Some(dir),
                    ..*old(self)
                }),
                Message::ConvertAll => effect matches Effect::Spawn(jobs) && ({
                    &&& !old(self).is_converting && old(self).files@.len() > 0
                        ==> old(self).batch_started(*final(self), jobs.deep_view())
                    &&& old(self).is_converting || old(self).files@.len() == 0 ==> *final(self)
                        == *old(self) && jobs@.len() == 0
                }),
                Message::ConversionFinished(index, result) => effect == Effect::Quiet
                    && old(self).job_finished(*final(self), index as int, result),
                Message::ToggleAbout => effect == Effect::Quiet && *final(self) == (App {
                    show_about: !old(self).show_about,
                    ..*old(self)
                }),
                Message::OpenLink(url) => *final(self) == *old(self) && effect == Effect::OpenUrl(
                    url,
                ),
                Message::NoOp => *final(self) == *old(self) && effect == Effect::Quiet,
            },
    {
        match message {
            Message::AddFiles => Effect::PickFiles,
            Message::FilesSelected(paths) => {
                self.add_files(paths);
                Effect::Quiet
            },
            Message::RemoveFile(index) => {
                self.remove_file(index);
                Effect::Quiet
            },
            Message::SelectOutputDir => Effect::PickOutputDir,
            Message::OutputDirSelected(dir) => {
                self.set_output_dir(dir);
                Effect::Quiet
            },
            Message::ConvertAll => {
                let jobs = self.start_conversion();
                Effect::Spawn(jobs)
            },
            Message::ConversionFinished(index, result) => {
                self.on_finished(index, result);
                Effect::Quiet
            },
            Message::ToggleAbout => {
                self.toggle_about();
                Effect::Quiet
            },
            Message::OpenLink(url) => Effect::OpenUrl(url),
            Message::NoOp => Effect::Quiet,
        }
    }
}

/// At batch end no entry is left converting: an idle well-formed state
/// holds none.
pub proof fn lemma_batch_end(s: App)
    requires
        s.wf(),
        !s.is_converting,
    ensures
        forall|i: int|
            0 <= i < s.files.deep_view().len() ==> !(s.files.deep_view()[i].status
                is Converting),
{
    lemma_count_zero(s.files.deep_view());
}

/// Starting a batch leaves no entry pending: each is successful already,
/// converting, or failed at once.  With `lemma_batch_end`, once the batch is
/// over every entry is in `Success` or `Error`.
pub proof fn lemma_batch_start_no_pending(files: Seq<EntryModel>, dir: Option<Seq<char>>)
    ensures
        forall|i: int|
            0 <= i < files.len() ==> !(#[trigger] start_files(files, dir)[i].status is Pending),
{
    assert forall|i: int|
        0 <= i < files.len() implies !(#[trigger] start_files(files, dir)[i].status
        is Pending) by {
        assert(start_files(files, dir)[i] == start_entry(files[i], dir));
    }
}

/// Retrying a batch: a successful entry keeps its state and gets no job; an
/// entry in error (or pending) with an output path is attempted again.
pub proof fn lemma_retry(files: Seq<EntryModel>, dir: Option<Seq<char>>, i: int)
    requires
        0 <= i < files.len(),
        files.len() <= usize::MAX,
    ensures
        files[i].status is Success ==> start_files(files, dir)[i] == files[i] && forall|j: int|
            0 <= j < start_jobs(files, dir).len() ==> start_jobs(files, dir)[j].index != i,
        !(files[i].status is Success) && spec_output_path(files[i].path, dir) is Some
            ==> start_files(files, dir)[i].status is Converting && exists|j: int|
            0 <= j < start_jobs(files, dir).len() && start_jobs(files, dir)[j].index == i
                && start_jobs(files, dir)[j].input == files[i].path,
{
    lemma_jobs_upto(files, dir, i, files.len() as int);
    assert(start_files(files, dir)[i] == start_entry(files[i], dir));
    if !(files[i].status is Success) && spec_output_path(files[i].path, dir) is Some {
        let jobs = start_jobs_upto(files, dir, files.len() as int);
        let j0 = choose|j: int|
            0 <= j < jobs.len() && #[trigger] jobs[j].index == i && jobs[j].input == files[i].path;
        assert(0 <= j0 < start_jobs(files, dir).len() && start_jobs(files, dir)[j0].index == i
            && start_jobs(files, dir)[j0].input == files[i].path);
    }
}

/// Jobs for the first `k` entries: their indices lie below `k`, a
/// successful entry `i` has none, and a selected entry `i < k` has one.
proof fn lemma_jobs_upto(files: Seq<EntryModel>, dir: Option<Seq<char>>, i: int, k: int)
    requires
        0 <= i < files.len(),
        files.len() <= usize::MAX,
        0 <= k <= files.len(),
    ensures
        forall|j: int| 0 <= j < start_jobs_upto(files, dir, k).len() ==> #[trigger] start_jobs_upto(
            files,
            dir,
            k,
        )[j].index < k,
        files[i].status is Success ==> forall|j: int|
            0 <= j < start_jobs_upto(files, dir, k).len() ==> #[trigger] start_jobs_upto(
                files,
                dir,
                k,
            )[j].index != i,
        i < k && !(files[i].status is Success) && spec_output_path(files[i].path, dir) is Some
            ==> exists|j: int|
            0 <= j < start_jobs_upto(files, dir, k).len() && #[trigger] start_jobs_upto(
                files,
                dir,
                k,
            )[j].index == i && start_jobs_upto(files, dir, k)[j].input == files[i].path,
    decreases k,
{
    if k > 0 {
        lemma_jobs_upto(files, dir, i, k - 1);
        let rest = start_jobs_upto(files, dir, k - 1);
        let cur = start_jobs_upto(files, dir, k);
        let e = files[k - 1];
        let selected = !(e.status is Success) && spec_output_path(e.path, dir) is Some;
        if selected {
            let o = match spec_output_path(e.path, dir) {
                Option::Some(o) => o,
                Option::None => Seq::empty(),
            };
            let nj = JobModel { index: (k - 1) as usize, input: e.path, output: o };
            assert(cur == rest.push(nj));
            assert forall|j: int| 0 <= j < rest.len() implies cur[j] == rest[j] by {}
            assert(cur[cur.len() - 1] == nj);
        } else {
            assert(cur == rest);
        }
        if i < k && !(files[i].status is Success) && spec_output_path(files[i].path, dir)
            is Some {
            if i == k - 1 {
                assert(cur[cur.len() - 1].index == i && cur[cur.len() - 1].input
                    == files[i].path);
            } else {
                let j0 = choose|j: int|
                    0 <= j < rest.len() && #[trigger] rest[j].index == i && rest[j].input
                        == files[i].path;
                assert(cur[j0].index == i && cur[j0].input == files[i].path);
            }
        }
    }
}

} // verus!
