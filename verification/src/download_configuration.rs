use vstd::prelude::*;
use crate::error::DownloadError;
use crate::file_verify::FileVerify;

verus! {

/// Immutable per-job parameters.  Built through the builder, which checks
/// that a URL is present and, unless the payload stays in memory, a path.
pub struct DownloadConfiguration {
    pub url: Option<String>,
    pub temp_path: Option<String>,
    pub path: Option<String>,
    pub chunk_size: u64,
    pub total_length: u64,
    pub remote_version: i64,
    pub retry_times_on_failure: u8,
    pub receive_bytes_per_second: u64,
    pub timeout: u64,
    pub range_download: bool,
    pub chunk_download: bool,
    pub download_in_memory: bool,
    pub file_verify: FileVerify,
}

pub struct DownloadConfigurationBuilder {
    config: DownloadConfiguration,
}

impl DownloadConfigurationBuilder {
    pub closed spec fn spec_config(self) -> DownloadConfiguration {
        self.config
    }

    /// A valid configuration names a URL, and a path unless the payload is
    /// kept in memory.
    pub open spec fn spec_valid(self) -> bool {
        self.spec_config().url is Some && (self.spec_config().download_in_memory
            || self.spec_config().path is Some)
    }

    fn new(config: DownloadConfiguration) -> (r: Self)
        ensures
            r.spec_config() == config,
    {
        Self { config }
    }

    pub fn set_url(self, url: &str) -> (r: DownloadConfigurationBuilder)
        ensures
            r.spec_config() == (DownloadConfiguration {
                url: r.spec_config().url,
                ..self.spec_config()
            }),
            r.spec_config().url matches Some(u) && u@ == url@,
    {
        let mut this = self;
        this.config.url = Some(String::from_str(url));
        this
    }

    /// Records the destination path; the in-progress object lives beside it
    /// at `<path>.temp`.
    pub fn set_file_path(self, path: &str) -> (r: DownloadConfigurationBuilder)
        ensures
            r.spec_config() == (DownloadConfiguration {
                path: r.spec_config().path,
                temp_path: r.spec_config().temp_path,
                ..self.spec_config()
            }),
            r.spec_config().path matches Some(p) && p@ == path@,
            r.spec_config().temp_path matches Some(t) && t@ == path@ + ".temp"@,
    {
        let mut this = self;
        this.config.path = Some(String::from_str(path));
        this.config.temp_path = Some(String::from_str(path).concat(".temp"));
        this
    }

    pub fn set_remote_version(self, version: i64) -> (r: DownloadConfigurationBuilder)
        ensures
            r.spec_config() == (DownloadConfiguration {
                remote_version: version,
                ..self.spec_config()
            }),
    {
        let mut this = self;
        this.config.remote_version = version;
        this
    }

    pub fn set_range_download(self, range_download: bool) -> (r: DownloadConfigurationBuilder)
        ensures
            r.spec_config() == (DownloadConfiguration {
                range_download,
                ..self.spec_config()
            }),
    {
        let mut this = self;
        this.config.range_download = range_download;
        this
    }

    pub fn set_chunk_download(self, chunk_download: bool) -> (r: DownloadConfigurationBuilder)
        ensures
            r.spec_config() == (DownloadConfiguration {
                chunk_download,
                ..self.spec_config()
            }),
    {
        let mut this = self;
        this.config.chunk_download = chunk_download;
        this
    }

    pub fn set_chunk_size(self, chunk_size: u64) -> (r: DownloadConfigurationBuilder)
        ensures
            r.spec_config() == (DownloadConfiguration { chunk_size, ..self.spec_config() }),
    {
        let mut this = self;
        this.config.chunk_size = chunk_size;
        this
    }

    pub fn set_retry_times_on_failure(self, retry_times: u8) -> (r: DownloadConfigurationBuilder)
        ensures
            r.spec_config() == (DownloadConfiguration {
                retry_times_on_failure: retry_times,
                ..self.spec_config()
            }),
    {
        let mut this = self;
        this.config.retry_times_on_failure = retry_times;
        this
    }

    pub fn set_timeout(self, timeout: u64) -> (r: DownloadConfigurationBuilder)
        ensures
            r.spec_config() == (DownloadConfiguration { timeout, ..self.spec_config() }),
    {
        let mut this = self;
        this.config.timeout = timeout;
        this
    }

    pub fn set_download_speed_limit(self, receive_bytes_per_second: u64) -> (r:
        DownloadConfigurationBuilder)
        ensures
            r.spec_config() == (DownloadConfiguration {
                receive_bytes_per_second,
                ..self.spec_config()
            }),
    {
        let mut this = self;
        this.config.receive_bytes_per_second = receive_bytes_per_second;
        this
    }

    pub fn set_download_in_memory(self, download_in_memory: bool) -> (r:
        DownloadConfigurationBuilder)
        ensures
            r.spec_config() == (DownloadConfiguration {
                download_in_memory,
                ..self.spec_config()
            }),
    {
        let mut this = self;
        this.config.download_in_memory = download_in_memory;
        this
    }

    pub fn set_file_verify(self, file_verify: FileVerify) -> (r: DownloadConfigurationBuilder)
        ensures
            r.spec_config() == (DownloadConfiguration { file_verify, ..self.spec_config() }),
    {
        let mut this = self;
        this.config.file_verify = file_verify;
        this
    }

    /// Checks the configuration and hands it out.  Succeeds exactly when a
    /// URL is set and, unless the payload is kept in memory, a path is set;
    /// each miss is a `Config` error with its own message.
    pub fn build(self) -> (r: Result<DownloadConfiguration, DownloadError>)
        ensures
            r is Ok <==> self.spec_valid(),
            r matches Ok(c) ==> c == self.spec_config(),
            r matches Err(e) ==> e matches DownloadError::Config(m) && (if self.spec_config().url
                is None {
                m@ == "Download address not configured."@
            } else {
                m@ == "No download path specified."@
            }),
    {
        self.validate()
    }

    fn validate(self) -> (r: Result<DownloadConfiguration, DownloadError>)
        ensures
            r is Ok <==> self.spec_valid(),
            r matches Ok(c) ==> c == self.spec_config(),
            r matches Err(e) ==> e matches DownloadError::Config(m) && (if self.spec_config().url
                is None {
                m@ == "Download address not configured."@
            } else {
                m@ == "No download path specified."@
            }),
    {
        if self.config.url.is_none() {
            return Err(
                DownloadError::Config(String::from_str("Download address not configured.")),
            );
        }
        if !self.config.download_in_memory {
            if self.config.path.is_none() {
                return Err(DownloadError::Config(String::from_str("No download path specified.")));
            }
        }
        Ok(self.config)
    }
}

impl DownloadConfiguration {
    /// A fresh builder with the defaults: range downloads allowed, chunked
    /// download off, 5 MiB chunks, no retries, no timeout, no speed limit,
    /// no digest.
    pub fn new() -> (r: DownloadConfigurationBuilder)
        ensures
            r.spec_config() == (DownloadConfiguration {
                url: Option::None,
                path: Option::None,
                temp_path: Option::None,
                file_verify: FileVerify::NoVerify,
                range_download: true,
                chunk_download: false,
                chunk_size: 5242880u64,
                total_length: 0,
                remote_version: 0,
                retry_times_on_failure: 0,
                receive_bytes_per_second: 0,
                download_in_memory: false,
                timeout: 0,
            }),
    {
        let config = DownloadConfiguration {
            url: Option::None,
            path: Option::None,
            temp_path: Option::None,
            file_verify: FileVerify::NoVerify,
            range_download: true,
            chunk_download: false,
            chunk_size: 5242880u64,
            total_length: 0,
            remote_version: 0,
            retry_times_on_failure: 0,
            receive_bytes_per_second: 0,
            download_in_memory: false,
            timeout: 0,
        };
        DownloadConfigurationBuilder::new(config)
    }

    pub fn get_file_path(&self) -> (r: &str)
        requires
            self.path is Some,
        ensures
            r@ == self.path->0@,
    {
        self.path.as_ref().unwrap().as_str()
    }

    pub fn get_file_temp_path(&self) -> (r: &str)
        requires
            self.temp_path is Some,
        ensures
            r@ == self.temp_path->0@,
    {
        self.temp_path.as_ref().unwrap().as_str()
    }

    pub fn url(&self) -> (r: &str)
        requires
            self.url is Some,
        ensures
            r@ == self.url->0@,
    {
        self.url.as_ref().unwrap().as_str()
    }
}

} // verus!
