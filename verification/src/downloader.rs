use vstd::prelude::*;
use crate::download_configuration::DownloadConfiguration;
use crate::download_status::DownloadFile;
use crate::download_status::DownloadStatus;
use crate::file_verify::FileVerify;

verus! {

/// The job-level state machine.  The caller's runtime drives it: each stage
/// method records one transition of the chart in `DownloadStatus`, and every
/// one of them is allowed by `spec_transition_allowed` — status never moves
/// backwards except the pre-emption re-queue `Stop -> Pending`.
pub struct Downloader {
    config: DownloadConfiguration,
    status: DownloadStatus,
    total_size: u64,
}

impl Downloader {
    pub closed spec fn spec_status(self) -> DownloadStatus {
        self.status
    }

    pub closed spec fn spec_config(self) -> DownloadConfiguration {
        self.config
    }

    /// The total size published after the HEAD probe.
    pub closed spec fn spec_total_size(self) -> u64 {
        self.total_size
    }

    pub fn new(config: DownloadConfiguration) -> (r: Downloader)
        ensures
            r.spec_status() == DownloadStatus::Idle,
            r.spec_config() == config,
            r.spec_total_size() == 0,
    {
        Downloader { config, status: DownloadStatus::Idle, total_size: 0 }
    }

    pub fn status(&self) -> (r: DownloadStatus)
        ensures
            r == self.spec_status(),
    {
        self.status
    }

    pub fn config(&self) -> (r: &DownloadConfiguration)
        ensures
            r == self.spec_config(),
    {
        &self.config
    }

    pub fn total_size(&self) -> (r: u64)
        ensures
            r == self.spec_total_size(),
    {
        self.total_size
    }

    /// The job has reached a terminal state.
    pub fn is_done(&self) -> (r: bool)
        ensures
            r == self.spec_status().is_terminal(),
    {
        matches!(
            self.status,
            DownloadStatus::Complete | DownloadStatus::Failed | DownloadStatus::Stop
        )
    }

    pub fn is_pending(&self) -> (r: bool)
        ensures
            r == (self.spec_status() == DownloadStatus::Pending),
    {
        matches!(self.status, DownloadStatus::Pending)
    }

    /// Marks the job eligible for the scheduler.  Callable on a fresh job,
    /// a stopped one being re-queued, or one already pending (idempotent).
    pub fn pending(&mut self)
        requires
            old(self).spec_status() == DownloadStatus::Idle || old(self).spec_status()
                == DownloadStatus::Stop || old(self).spec_status() == DownloadStatus::Pending,
        ensures
            final(self).spec_status() == DownloadStatus::Pending,
            final(self).spec_config() == old(self).spec_config(),
            final(self).spec_total_size() == old(self).spec_total_size(),
            old(self).spec_status() == DownloadStatus::Pending || old(
                self,
            ).spec_status().spec_transition_allowed(final(self).spec_status()),
    {
        self.status = DownloadStatus::Pending;
    }

    /// The scheduler picked the job up: the HEAD probe begins.
    pub fn begin_head(&mut self)
        requires
            old(self).spec_status() == DownloadStatus::Pending,
        ensures
            final(self).spec_status() == DownloadStatus::Head,
            final(self).spec_config() == old(self).spec_config(),
            final(self).spec_total_size() == old(self).spec_total_size(),
            old(self).spec_status().spec_transition_allowed(final(self).spec_status()),
    {
        self.status = DownloadStatus::Head;
    }

    /// The HEAD probe answered: the total size is published and the chunk
    /// downloads begin.
    pub fn begin_download(&mut self, total_size: u64)
        requires
            old(self).spec_status() == DownloadStatus::Head,
        ensures
            final(self).spec_status() == DownloadStatus::Download(DownloadFile::File),
            final(self).spec_config() == old(self).spec_config(),
            final(self).spec_total_size() == total_size,
            old(self).spec_status().spec_transition_allowed(final(self).spec_status()),
    {
        self.total_size = total_size;
        self.status = DownloadStatus::Download(DownloadFile::File);
    }

    /// Every chunk task finished: post-processing (merge and cleanup)
    /// begins.
    pub fn begin_post(&mut self)
        requires
            old(self).spec_status() is Download,
        ensures
            final(self).spec_status() == DownloadStatus::DownloadPost,
            final(self).spec_config() == old(self).spec_config(),
            final(self).spec_total_size() == old(self).spec_total_size(),
            old(self).spec_status().spec_transition_allowed(final(self).spec_status()),
    {
        self.status = DownloadStatus::DownloadPost;
    }

    /// Whether this job checks a digest before finishing: only on-disk jobs
    /// with a configured digest do.
    pub open spec fn spec_needs_verify(self) -> bool {
        self.spec_config().file_verify != FileVerify::NoVerify
            && !self.spec_config().download_in_memory
    }

    pub fn needs_verify(&self) -> (r: bool)
        ensures
            r == self.spec_needs_verify(),
    {
        !matches!(self.config.file_verify, FileVerify::NoVerify)
            && !self.config.download_in_memory
    }

    /// Post-processing finished and this job checks a digest: verification
    /// begins.
    pub fn begin_verify(&mut self)
        requires
            old(self).spec_status() == DownloadStatus::DownloadPost,
            old(self).spec_needs_verify(),
        ensures
            final(self).spec_status() == DownloadStatus::FileVerify,
            final(self).spec_config() == old(self).spec_config(),
            final(self).spec_total_size() == old(self).spec_total_size(),
            old(self).spec_status().spec_transition_allowed(final(self).spec_status()),
    {
        self.status = DownloadStatus::FileVerify;
    }

    /// The job finished: after verification, or straight after
    /// post-processing when no digest is checked.
    pub fn complete(&mut self)
        requires
            old(self).spec_status() == DownloadStatus::FileVerify || (old(self).spec_status()
                == DownloadStatus::DownloadPost && !old(self).spec_needs_verify()),
        ensures
            final(self).spec_status() == DownloadStatus::Complete,
            final(self).spec_config() == old(self).spec_config(),
            final(self).spec_total_size() == old(self).spec_total_size(),
            old(self).spec_status().spec_transition_allowed(final(self).spec_status()),
    {
        self.status = DownloadStatus::Complete;
    }

    /// An error surfaced while the job was working: the job fails.
    pub fn fail(&mut self)
        requires
            old(self).spec_status().is_active(),
        ensures
            final(self).spec_status() == DownloadStatus::Failed,
            final(self).spec_config() == old(self).spec_config(),
            final(self).spec_total_size() == old(self).spec_total_size(),
            old(self).spec_status().spec_transition_allowed(final(self).spec_status()),
    {
        self.status = DownloadStatus::Failed;
    }

    /// Cancels the job: a non-terminal job moves to `Stop`; a finished one
    /// keeps its state.  Partial files stay on disk, so a later job with the
    /// same version resumes.
    pub fn stop(&mut self)
        ensures
            final(self).spec_config() == old(self).spec_config(),
            final(self).spec_total_size() == old(self).spec_total_size(),
            old(self).spec_status().is_terminal() ==> *final(self) == *old(self),
            !old(self).spec_status().is_terminal() ==> final(self).spec_status()
                == DownloadStatus::Stop && old(self).spec_status().spec_transition_allowed(
                final(self).spec_status(),
            ),
    {
        if !self.is_done() {
            self.status = DownloadStatus::Stop;
        }
    }
}

} // verus!
