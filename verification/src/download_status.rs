use vstd::prelude::*;

verus! {

/// What kind of object a download produces.
#[derive(PartialEq, Eq, Structural, Clone, Copy, Debug)]
pub enum DownloadFile {
    File,
    Patch,
}

/// The job-level state.  The success path is
/// `Idle -> Pending -> Head -> Download -> DownloadPost -> FileVerify -> Complete`
/// (`FileVerify` is skipped when no digest is configured); `Failed` fans out
/// from the active states, and `Stop` is reachable from any non-terminal
/// state.  The scheduler's pre-emption returns a stopped job to `Pending`.
#[derive(PartialEq, Eq, Structural, Clone, Copy, Debug)]
pub enum DownloadStatus {
    Idle,
    Pending,
    Head,
    Download(DownloadFile),
    DownloadPost,
    FileVerify,
    Complete,
    Failed,
    Stop,
}

impl DownloadStatus {
    /// `Complete`, `Failed` and `Stop` are terminal.
    pub open spec fn is_terminal(self) -> bool {
        self == DownloadStatus::Complete || self == DownloadStatus::Failed || self
            == DownloadStatus::Stop
    }

    /// The states in which a job is actively working.
    pub open spec fn is_active(self) -> bool {
        self == DownloadStatus::Head || self is Download || self == DownloadStatus::DownloadPost
            || self == DownloadStatus::FileVerify
    }

    /// The status chart: the linear success path, `Failed` from any active
    /// state, `Stop` from any non-terminal state, and the pre-emption
    /// re-queue `Stop -> Pending`.
    pub open spec fn spec_transition_allowed(self, to: DownloadStatus) -> bool {
        ||| (self == DownloadStatus::Idle && to == DownloadStatus::Pending)
        ||| (self == DownloadStatus::Stop && to == DownloadStatus::Pending)
        ||| (self == DownloadStatus::Pending && to == DownloadStatus::Head)
        ||| (self == DownloadStatus::Head && to is Download)
        ||| (self is Download && to == DownloadStatus::DownloadPost)
        ||| (self == DownloadStatus::DownloadPost && to == DownloadStatus::FileVerify)
        ||| (self == DownloadStatus::DownloadPost && to == DownloadStatus::Complete)
        ||| (self == DownloadStatus::FileVerify && to == DownloadStatus::Complete)
        ||| (self.is_active() && to == DownloadStatus::Failed)
        ||| (!self.is_terminal() && to == DownloadStatus::Stop)
    }

    /// Whether moving from this status to `to` is a step of the chart.
    pub fn transition_allowed(&self, to: &DownloadStatus) -> (r: bool)
        ensures
            r == self.spec_transition_allowed(*to),
    {
        let from_active = matches!(
            self,
            DownloadStatus::Head | DownloadStatus::Download(_) | DownloadStatus::DownloadPost
                | DownloadStatus::FileVerify
        );
        let from_terminal = matches!(
            self,
            DownloadStatus::Complete | DownloadStatus::Failed | DownloadStatus::Stop
        );
        match to {
            DownloadStatus::Pending => matches!(
                self,
                DownloadStatus::Idle | DownloadStatus::Stop
            ),
            DownloadStatus::Head => matches!(self, DownloadStatus::Pending),
            DownloadStatus::Download(_) => matches!(self, DownloadStatus::Head),
            DownloadStatus::DownloadPost => matches!(self, DownloadStatus::Download(_)),
            DownloadStatus::FileVerify => matches!(self, DownloadStatus::DownloadPost),
            DownloadStatus::Complete => matches!(
                self,
                DownloadStatus::DownloadPost | DownloadStatus::FileVerify
            ),
            DownloadStatus::Failed => from_active,
            DownloadStatus::Stop => !from_terminal,
            DownloadStatus::Idle => false,
        }
    }

    /// The chart step that brings this status one move closer to `reported`,
    /// for a scheduler reconciling its record with a job's own report:
    /// `None` when they already agree or no step leads on.  Every step
    /// handed out is allowed by the chart and never moves a job into an
    /// active state it was not already in.
    pub fn step_toward(&self, reported: &DownloadStatus) -> (r: Option<DownloadStatus>)
        ensures
            r matches Some(next) ==> self.spec_transition_allowed(next) && (next.is_active()
                ==> self.is_active()),
            r is Some ==> *self != *reported,
    {
        if self == reported {
            return Option::None;
        }
        let terminal = matches!(
            self,
            DownloadStatus::Complete | DownloadStatus::Failed | DownloadStatus::Stop
        );
        if matches!(reported, DownloadStatus::Stop) && !terminal {
            return Option::Some(DownloadStatus::Stop);
        }
        let active = matches!(
            self,
            DownloadStatus::Head | DownloadStatus::Download(_) | DownloadStatus::DownloadPost
                | DownloadStatus::FileVerify
        );
        if matches!(reported, DownloadStatus::Failed) && active {
            return Option::Some(DownloadStatus::Failed);
        }
        match self {
            DownloadStatus::Head => Option::Some(DownloadStatus::Download(DownloadFile::File)),
            DownloadStatus::Download(_) => Option::Some(DownloadStatus::DownloadPost),
            DownloadStatus::DownloadPost => match reported {
                DownloadStatus::FileVerify => Option::Some(DownloadStatus::FileVerify),
                DownloadStatus::Complete => Option::Some(DownloadStatus::Complete),
                _ => Option::None,
            },
            DownloadStatus::FileVerify => match reported {
                DownloadStatus::Complete => Option::Some(DownloadStatus::Complete),
                _ => Option::None,
            },
            _ => Option::None,
        }
    }

    pub fn to_u8(&self) -> (r: u8)
        ensures
            r == self.spec_to_u8(),
    {
        match self {
            DownloadStatus::Idle => 0,
            DownloadStatus::Pending => 1,
            DownloadStatus::Head => 2,
            DownloadStatus::Download(file) => match file {
                DownloadFile::File => 3,
                DownloadFile::Patch => 4,
            },
            DownloadStatus::DownloadPost => 5,
            DownloadStatus::FileVerify => 6,
            DownloadStatus::Complete => 7,
            DownloadStatus::Failed => 8,
            DownloadStatus::Stop => 9,
        }
    }

    pub open spec fn spec_to_u8(self) -> u8 {
        match self {
            DownloadStatus::Idle => 0,
            DownloadStatus::Pending => 1,
            DownloadStatus::Head => 2,
            DownloadStatus::Download(file) => match file {
                DownloadFile::File => 3,
                DownloadFile::Patch => 4,
            },
            DownloadStatus::DownloadPost => 5,
            DownloadStatus::FileVerify => 6,
            DownloadStatus::Complete => 7,
            DownloadStatus::Failed => 8,
            DownloadStatus::Stop => 9,
        }
    }

    pub open spec fn spec_from_u8(value: u8) -> DownloadStatus {
        match value {
            0u8 => DownloadStatus::Idle,
            1u8 => DownloadStatus::Pending,
            2u8 => DownloadStatus::Head,
            3u8 => DownloadStatus::Download(DownloadFile::File),
            4u8 => DownloadStatus::Download(DownloadFile::Patch),
            5u8 => DownloadStatus::DownloadPost,
            6u8 => DownloadStatus::FileVerify,
            7u8 => DownloadStatus::Complete,
            8u8 => DownloadStatus::Failed,
            9u8 => DownloadStatus::Stop,
            _ => DownloadStatus::Idle,
        }
    }

    pub fn from_u8(value: u8) -> (r: DownloadStatus)
        ensures
            r == DownloadStatus::spec_from_u8(value),
    {
        match value {
            0 => DownloadStatus::Idle,
            1 => DownloadStatus::Pending,
            2 => DownloadStatus::Head,
            3 => DownloadStatus::Download(DownloadFile::File),
            4 => DownloadStatus::Download(DownloadFile::Patch),
            5 => DownloadStatus::DownloadPost,
            6 => DownloadStatus::FileVerify,
            7 => DownloadStatus::Complete,
            8 => DownloadStatus::Failed,
            9 => DownloadStatus::Stop,
            _ => DownloadStatus::Idle,
        }
    }
}

impl DownloadFile {
    /// The kind's text, in place of a `Display` impl.
    pub open spec fn spec_message(self) -> Seq<char> {
        match self {
            DownloadFile::File => "File"@,
            DownloadFile::Patch => "Patch"@,
        }
    }

    pub fn message(&self) -> (r: String)
        ensures
            r@ == self.spec_message(),
    {
        match self {
            DownloadFile::File => String::from_str("File"),
            DownloadFile::Patch => String::from_str("Patch"),
        }
    }
}

impl DownloadStatus {
    /// The status's text, in place of a `Display` impl.
    pub open spec fn spec_message(self) -> Seq<char> {
        match self {
            DownloadStatus::Idle => "None"@,
            DownloadStatus::Pending => "Pending"@,
            DownloadStatus::Head => "Head"@,
            DownloadStatus::Download(file) => "Download "@ + file.spec_message(),
            DownloadStatus::DownloadPost => "DownloadPost"@,
            DownloadStatus::FileVerify => "FileVerify"@,
            DownloadStatus::Complete => "Complete"@,
            DownloadStatus::Failed => "Failed"@,
            DownloadStatus::Stop => "Stop"@,
        }
    }

    pub fn message(&self) -> (r: String)
        ensures
            r@ == self.spec_message(),
    {
        match self {
            DownloadStatus::Idle => String::from_str("None"),
            DownloadStatus::Pending => String::from_str("Pending"),
            DownloadStatus::Head => String::from_str("Head"),
            DownloadStatus::Download(file) => {
                let mut s = String::from_str("Download ");
                let kind = file.message();
                s.append(kind.as_str());
                s
            },
            DownloadStatus::DownloadPost => String::from_str("DownloadPost"),
            DownloadStatus::FileVerify => String::from_str("FileVerify"),
            DownloadStatus::Complete => String::from_str("Complete"),
            DownloadStatus::Failed => String::from_str("Failed"),
            DownloadStatus::Stop => String::from_str("Stop"),
        }
    }
}

/// The two numeric encodings invert each other: decoding the code of a status
/// gives the status back.
pub proof fn lemma_status_code_round_trip(s: DownloadStatus)
    ensures
        DownloadStatus::spec_from_u8(s.spec_to_u8()) == s,
{
}

} // verus!
