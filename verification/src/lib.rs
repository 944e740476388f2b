//! A concurrent, resumable HTTP file-download engine: the chunk planner,
//! resume rules, retry policy, token-bucket rate limiter, job state machine,
//! scheduler and digest check, each with its contract.  The surrounding
//! runtime performs the network and file I/O these decisions call for and
//! reports outcomes back.

pub mod chunk;
pub mod chunk_hub;
pub mod chunk_metadata;
pub mod chunk_operation;
pub mod chunk_range;
pub mod decimal;
pub mod download_configuration;
pub mod download_operation;
pub mod download_service;
pub mod download_status;
pub mod download_task;
pub mod downloader;
pub mod error;
pub mod file_verify;
pub mod rate_limiter;
pub mod remote_file;
