use vstd::prelude::*;
use crate::decimal::spec_dec;
use crate::decimal::u64_to_dec_str;

verus! {

/// Everything that can go wrong in a download job.  `NoError` is the initial
/// value of the error channel; `Config` never enters the runtime, it is
/// raised while building a configuration.
#[derive(Debug, Clone, PartialEq)]
pub enum DownloadError {
    NoError,
    FileOpen,
    FileSeek,
    FileWrite,
    FileFlush,
    FileRename(String),
    DeleteFile,
    MemorySeek,
    MemoryWrite,
    MemoryFlush,
    Head,
    Request,
    Response(String, u16),
    ResponseChunk,
    OpenOrCreateFile,
    FileVerify,
    DownloadTask,
    Patch,
    ChunkDownloadHandle,
    Config(String),
}

impl DownloadError {
    /// The human-readable text of the error, one line per kind.
    pub open spec fn spec_message(self) -> Seq<char> {
        match self {
            DownloadError::NoError => "None"@,
            DownloadError::FileOpen => "FileOpen"@,
            DownloadError::FileSeek => "FileSeek"@,
            DownloadError::FileWrite => "FileWrite"@,
            DownloadError::FileFlush => "FileFlush"@,
            DownloadError::FileRename(message) => "file rename fail "@ + message@,
            DownloadError::DeleteFile => "DeleteFile"@,
            DownloadError::MemorySeek => "MemorySeek"@,
            DownloadError::MemoryWrite => "MemoryWrite"@,
            DownloadError::MemoryFlush => "MemoryFlush"@,
            DownloadError::Head => "Head"@,
            DownloadError::Request => "Request"@,
            DownloadError::Response(url, status_code) => url@ + " response fail "@ + spec_dec(
                status_code as int,
            ),
            DownloadError::ResponseChunk => "ResponseChunk"@,
            DownloadError::OpenOrCreateFile => "OpenOrCreateFile"@,
            DownloadError::FileVerify => "FileVerify"@,
            DownloadError::DownloadTask => "DownloadTask"@,
            DownloadError::Patch => "Patch"@,
            DownloadError::ChunkDownloadHandle => "ChunkDownloadHandle"@,
            DownloadError::Config(message) => message@,
        }
    }

    /// Renders the error as text, in place of a `Display` impl.
    pub fn message(&self) -> (r: String)
        ensures
            r@ == self.spec_message(),
    {
        match self {
            DownloadError::NoError => String::from_str("None"),
            DownloadError::FileOpen => String::from_str("FileOpen"),
            DownloadError::FileSeek => String::from_str("FileSeek"),
            DownloadError::FileWrite => String::from_str("FileWrite"),
            DownloadError::FileFlush => String::from_str("FileFlush"),
            DownloadError::FileRename(message) => {
                let mut s = String::from_str("file rename fail ");
                s.append(message.as_str());
                s
            },
            DownloadError::DeleteFile => String::from_str("DeleteFile"),
            DownloadError::MemorySeek => String::from_str("MemorySeek"),
            DownloadError::MemoryWrite => String::from_str("MemoryWrite"),
            DownloadError::MemoryFlush => String::from_str("MemoryFlush"),
            DownloadError::Head => String::from_str("Head"),
            DownloadError::Request => String::from_str("Request"),
            DownloadError::Response(url, status_code) => {
                let mut s = url.clone();
                s.append(" response fail ");
                let code = u64_to_dec_str(*status_code as u64);
                s.append(code.as_str());
                s
            },
            DownloadError::ResponseChunk => String::from_str("ResponseChunk"),
            DownloadError::OpenOrCreateFile => String::from_str("OpenOrCreateFile"),
            DownloadError::FileVerify => String::from_str("FileVerify"),
            DownloadError::DownloadTask => String::from_str("DownloadTask"),
            DownloadError::Patch => String::from_str("Patch"),
            DownloadError::ChunkDownloadHandle => String::from_str("ChunkDownloadHandle"),
            DownloadError::Config(message) => message.clone(),
        }
    }
}

} // verus!
