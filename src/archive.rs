use vstd::prelude::*;

use crate::escaping::{clean_btyper_id, safe_text};
use crate::model::{texts, StrainRequest};
use crate::text::is_safe_char;

verus! {

/// Where, under the storage root, the sequence file of a record lies:
/// `fna/<cleaned id>.fna`.
pub open spec fn fasta_path_of(id: Seq<char>) -> Seq<char> {
    "fna/"@ + safe_text(id) + ".fna"@
}

/// The name of a record's entry in the archive: `fastq/<cleaned id>.fasta`.
pub open spec fn entry_name_of(id: Seq<char>) -> Seq<char> {
    "fastq/"@ + safe_text(id) + ".fasta"@
}

/// The path of a record's sequence file, relative to the storage root.
pub fn fasta_file_path(id: &String) -> (r: String)
    ensures
        r@ == fasta_path_of(id@),
{
    let mut out = String::from_str("fna/");
    out.append(clean_btyper_id(id).as_str());
    out.append(".fna");
    out
}

/// The name of a record's entry in the archive.
pub fn archive_entry_name(id: &String) -> (r: String)
    ensures
        r@ == entry_name_of(id@),
{
    let mut out = String::from_str("fastq/");
    out.append(clean_btyper_id(id).as_str());
    out.append(".fasta");
    out
}

/// Whatever the identifier, the path of its file is the fixed directory, one
/// separator, and one file name that holds no separator and is neither `.`
/// nor `..`: it cannot leave the storage root.
pub proof fn law_file_path_stays_in_store(id: Seq<char>)
    ensures
        fasta_path_of(id) == "fna/"@ + (safe_text(id) + ".fna"@),
        !(safe_text(id) + ".fna"@).contains('/'),
        !(safe_text(id) + ".fna"@).contains('\\'),
        (safe_text(id) + ".fna"@) != "."@,
        (safe_text(id) + ".fna"@) != ".."@,
{
    reveal_strlit(".fna");
    reveal_strlit(".");
    reveal_strlit("..");
    let s = safe_text(id);
    let name = s + ".fna"@;
    s.filter_lemma(|c: char| is_safe_char(c));
    assert(safe_text(id) == id.filter(|c: char| is_safe_char(c)));
    assert(fasta_path_of(id) =~= "fna/"@ + name);
    assert forall|j: int| 0 <= j < name.len() implies #[trigger] name[j] != '/' && name[j] != '\\' by {
        if j < s.len() {
            assert(is_safe_char(s[j]));
        } else {
            assert(name[j] == ".fna"@[j - s.len()]);
        }
    }
    assert(name.len() >= 4);
}

/// Where an archive transfer stands.
#[derive(Debug, Clone, Copy, PartialEq, Eq, Structural)]
pub enum ArchivePhase {
    /// Entries are being appended, in request order.
    Streaming,
    /// Every entry is in; the trailer is to be written.
    Finalizing,
    /// The archive is whole.
    Completed,
    /// An entry or the trailer failed; the transfer stops.
    Aborted,
}

/// What the outside world reports back after a step.
#[derive(Debug, Clone, Copy, PartialEq, Eq, Structural)]
pub enum ArchiveEvent {
    /// The entry was appended.
    Appended,
    /// The step failed: a file could not be opened or read, or the trailer
    /// could not be written.
    Failed,
    /// The trailer was written.
    Finalized,
}

/// What to do next.
#[derive(Debug, Clone, PartialEq, Eq)]
pub enum ArchiveStep {
    /// Append the file at this path, relative to the storage root, as an
    /// entry of this name.
    Append(String, String),
    /// Write the archive's trailer.
    Finalize,
    /// Nothing: the transfer is over.
    Stop,
}

/// Why an archive transfer cannot start.
#[derive(Debug, Clone, Copy, PartialEq, Eq, Structural)]
pub enum ArchiveError {
    /// The request names no record.
    NoRecords,
}

/// A step, as texts.
pub ghost enum StepView {
    Append(Seq<char>, Seq<char>),
    Finalize,
    Stop,
}

impl View for ArchiveStep {
    type V = StepView;

    open spec fn view(&self) -> StepView {
        match self {
            ArchiveStep::Append(p, n) => StepView::Append(p@, n@),
            ArchiveStep::Finalize => StepView::Finalize,
            ArchiveStep::Stop => StepView::Stop,
        }
    }
}

/// An archive transfer, as the ids it covers, how many entries are in, and
/// its phase.
pub ghost struct JobView {
    pub ids: Seq<Seq<char>>,
    pub appended: nat,
    pub phase: ArchivePhase,
}

/// The plan of one archive transfer: which entry comes next, and when the
/// trailer is written.
pub struct ArchiveJob {
    ids: Vec<String>,
    appended: usize,
    phase: ArchivePhase,
}

impl View for ArchiveJob {
    type V = JobView;

    closed spec fn view(&self) -> JobView {
        JobView { ids: texts(self.ids@), appended: self.appended as nat, phase: self.phase }
    }
}

/// While entries are appended, some are still to come; once the trailer is
/// due or written, every entry is in.
pub open spec fn job_well_formed(j: JobView) -> bool {
    &&& j.ids.len() > 0
    &&& j.appended <= j.ids.len()
    &&& j.phase == ArchivePhase::Streaming ==> j.appended < j.ids.len()
    &&& (j.phase == ArchivePhase::Finalizing || j.phase == ArchivePhase::Completed) ==> j.appended
        == j.ids.len()
}

/// The step that a transfer asks for.
pub open spec fn step_of(j: JobView) -> StepView {
    match j.phase {
        ArchivePhase::Streaming => StepView::Append(
            fasta_path_of(j.ids[j.appended as int]),
            entry_name_of(j.ids[j.appended as int]),
        ),
        ArchivePhase::Finalizing => StepView::Finalize,
        _ => StepView::Stop,
    }
}

/// A transfer after an event. An appended entry moves to the next one, or to
/// the trailer after the last; any failure aborts; a written trailer
/// completes. An event that does not fit the phase changes nothing.
pub open spec fn after(j: JobView, ev: ArchiveEvent) -> JobView {
    match (j.phase, ev) {
        (ArchivePhase::Streaming, ArchiveEvent::Appended) => JobView {
            appended: j.appended + 1,
            phase: if j.appended + 1 == j.ids.len() {
                ArchivePhase::Finalizing
            } else {
                ArchivePhase::Streaming
            },
            ..j
        },
        (ArchivePhase::Streaming, ArchiveEvent::Failed) => JobView { phase: ArchivePhase::Aborted, ..j },
        (ArchivePhase::Finalizing, ArchiveEvent::Finalized) => JobView {
            phase: ArchivePhase::Completed,
            ..j
        },
        (ArchivePhase::Finalizing, ArchiveEvent::Failed) => JobView {
            phase: ArchivePhase::Aborted,
            ..j
        },
        _ => j,
    }
}

/// A transfer after a run of events, in order.
pub open spec fn after_all(j: JobView, evs: Seq<ArchiveEvent>) -> JobView
    decreases evs.len(),
{
    if evs.len() == 0 {
        j
    } else {
        after(after_all(j, evs.drop_last()), evs.last())
    }
}

impl ArchiveJob {
    pub closed spec fn well_formed(&self) -> bool {
        job_well_formed(self@) && self.ids@.len() == texts(self.ids@).len()
    }

    /// Plans the transfer of the records of a request, in request order; a
    /// request without records is refused.
    pub fn new(req: &StrainRequest) -> (r: Result<ArchiveJob, ArchiveError>)
        ensures
            req.list@.len() == 0 ==> r is Err,
            req.list@.len() > 0 ==> (r matches Ok(j) && j.well_formed() && j@ == (JobView {
                ids: texts(req.list@),
                appended: 0,
                phase: ArchivePhase::Streaming,
            })),
    {
        if req.list.len() == 0 {
            return Err(ArchiveError::NoRecords);
        }
        Ok(ArchiveJob { ids: req.list.clone(), appended: 0, phase: ArchivePhase::Streaming })
    }

    /// Where the transfer stands.
    pub fn phase(&self) -> (r: ArchivePhase)
        ensures
            r == self@.phase,
    {
        self.phase
    }

    /// How many entries are in.
    pub fn appended(&self) -> (r: usize)
        ensures
            r == self@.appended,
    {
        self.appended
    }

    /// The step that the transfer asks for.
    pub fn next_step(&self) -> (r: ArchiveStep)
        requires
            self.well_formed(),
        ensures
            r@ == step_of(self@),
    {
        match self.phase {
            ArchivePhase::Streaming => {
                let id = &self.ids[self.appended];
                proof {
                    assert(texts(self.ids@)[self.appended as int] == id@);
                }
                ArchiveStep::Append(fasta_file_path(id), archive_entry_name(id))
            },
            ArchivePhase::Finalizing => ArchiveStep::Finalize,
            _ => ArchiveStep::Stop,
        }
    }

    /// Takes in what the outside world reports after a step.
    pub fn on_event(&mut self, ev: ArchiveEvent)
        requires
            old(self).well_formed(),
        ensures
            final(self).well_formed(),
            final(self)@ == after(old(self)@, ev),
    {
        match (self.phase, ev) {
            (ArchivePhase::Streaming, ArchiveEvent::Appended) => {
                let n = self.ids.len();
                assert(self.appended < n);
                self.appended = self.appended + 1;
                if self.appended == n {
                    self.phase = ArchivePhase::Finalizing;
                }
            },
            (ArchivePhase::Streaming, ArchiveEvent::Failed) => {
                self.phase = ArchivePhase::Aborted;
            },
            (ArchivePhase::Finalizing, ArchiveEvent::Finalized) => {
                self.phase = ArchivePhase::Completed;
            },
            (ArchivePhase::Finalizing, ArchiveEvent::Failed) => {
                self.phase = ArchivePhase::Aborted;
            },
            _ => {},
        }
    }
}

/// An event keeps a transfer well formed.
pub proof fn law_events_keep_job_well_formed(j: JobView, evs: Seq<ArchiveEvent>)
    requires
        job_well_formed(j),
    ensures
        job_well_formed(after_all(j, evs)),
        after_all(j, evs).ids == j.ids,
    decreases evs.len(),
{
    if evs.len() > 0 {
        law_events_keep_job_well_formed(j, evs.drop_last());
    }
}

/// Once a transfer is aborted it stays aborted, whatever is reported after,
/// and never asks for the trailer: an archive with a failed entry never gets
/// one.
pub proof fn law_abort_is_final(j: JobView, evs: Seq<ArchiveEvent>)
    requires
        j.phase == ArchivePhase::Aborted,
    ensures
        after_all(j, evs) == j,
        step_of(after_all(j, evs)) == StepView::Stop,
    decreases evs.len(),
{
    if evs.len() > 0 {
        law_abort_is_final(j, evs.drop_last());
    }
}

/// A failed entry aborts the transfer with the entries before it in, and the
/// trailer is never asked for after it.
pub proof fn law_failed_entry_aborts(j: JobView, evs: Seq<ArchiveEvent>)
    requires
        job_well_formed(j),
        j.phase == ArchivePhase::Streaming,
    ensures
        after(j, ArchiveEvent::Failed).phase == ArchivePhase::Aborted,
        after(j, ArchiveEvent::Failed).appended == j.appended,
        step_of(after_all(after(j, ArchiveEvent::Failed), evs)) != StepView::Finalize,
{
    law_abort_is_final(after(j, ArchiveEvent::Failed), evs);
}

/// The trailer is asked for only once every entry is in.
pub proof fn law_finalize_after_all_entries(j: JobView)
    requires
        job_well_formed(j),
        step_of(j) == StepView::Finalize,
    ensures
        j.appended == j.ids.len(),
{
}

} // verus!
