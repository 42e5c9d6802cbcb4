//! Error types for the library's domains, with user-facing message text.

use vstd::prelude::*;

use crate::parser::{ErrorCategory, ParsedError};
use crate::text::{
    contains_ci, contains_str_ci, dec_str, find_line_with, line_with_idx, lines_of, lines_vec,
    u64_to_string, views_of,
};

verus! {

use vstd::string::StrSliceExecFns;
use vstd::string::StringExecFns;

/// Categorized download errors.
#[derive(Debug, Clone)]
pub enum DownloadError {
    InvalidUrl(String),
    AlreadyDownloading,
    ProcessSpawnError(String),
    DownloadFailed(String),
    FolderNotAccessible(String),
    ExecutableNotFound(String),
    PrivateVideo,
    AgeRestricted,
    RegionLocked,
    NetworkError(String),
    NotFound,
    RateLimited,
    AuthenticationRequired,
    UnsupportedUrl(String),
    Timeout(String),
    GenericError(String),
}

/// The user-facing message of a download error.
pub open spec fn download_error_message(e: DownloadError) -> Seq<char> {
    match e {
        DownloadError::InvalidUrl(s) => "Invalid URL: "@.add(s@),
        DownloadError::AlreadyDownloading => "Download already in progress"@,
        DownloadError::ProcessSpawnError(s) => "Failed to spawn yt-dlp: "@.add(s@),
        DownloadError::DownloadFailed(s) => "Download failed: "@.add(s@),
        DownloadError::FolderNotAccessible(s) => "Output folder not accessible: "@.add(s@),
        DownloadError::ExecutableNotFound(s) => "Bundled executable not found: "@.add(s@),
        DownloadError::PrivateVideo => "Video is private"@,
        DownloadError::AgeRestricted => "Age restricted content - try enabling cookie import"@,
        DownloadError::RegionLocked => "Content not available in your region"@,
        DownloadError::NetworkError(s) => "Network error: "@.add(s@),
        DownloadError::NotFound => "Video not found"@,
        DownloadError::RateLimited => "Rate limited - please wait and try again"@,
        DownloadError::AuthenticationRequired => "Authentication required"@,
        DownloadError::UnsupportedUrl(s) => "Unsupported URL: "@.add(s@),
        DownloadError::Timeout(s) => "Timeout: "@.add(s@),
        DownloadError::GenericError(s) => s@,
    }
}

/// The category tag of a download error, for UI display.
pub open spec fn download_error_category(e: DownloadError) -> Seq<char> {
    match e {
        DownloadError::InvalidUrl(_) => "validation"@,
        DownloadError::AlreadyDownloading => "state"@,
        DownloadError::ProcessSpawnError(_) => "process"@,
        DownloadError::DownloadFailed(_) => "download"@,
        DownloadError::FolderNotAccessible(_) => "filesystem"@,
        DownloadError::ExecutableNotFound(_) => "dependency"@,
        DownloadError::PrivateVideo => "access"@,
        DownloadError::AgeRestricted => "access"@,
        DownloadError::RegionLocked => "access"@,
        DownloadError::NetworkError(_) => "network"@,
        DownloadError::NotFound => "not_found"@,
        DownloadError::RateLimited => "rate_limit"@,
        DownloadError::AuthenticationRequired => "auth"@,
        DownloadError::UnsupportedUrl(_) => "validation"@,
        DownloadError::Timeout(_) => "network"@,
        DownloadError::GenericError(_) => "generic"@,
    }
}

/// The errors that an external retry policy may retry.
pub open spec fn retryable(e: DownloadError) -> bool {
    match e {
        DownloadError::NetworkError(_) => true,
        DownloadError::DownloadFailed(_) => true,
        DownloadError::RateLimited => true,
        DownloadError::Timeout(_) => true,
        _ => false,
    }
}

impl DownloadError {
    /// The user-facing message for this error; never empty.
    pub fn message(&self) -> (r: String)
        ensures
            r@ == download_error_message(*self),
    {
        match self {
            DownloadError::InvalidUrl(s) => {
                let mut m = String::from_str("Invalid URL: ");
                m.append(s.as_str());
                m
            },
            DownloadError::AlreadyDownloading => String::from_str("Download already in progress"),
            DownloadError::ProcessSpawnError(s) => {
                let mut m = String::from_str("Failed to spawn yt-dlp: ");
                m.append(s.as_str());
                m
            },
            DownloadError::DownloadFailed(s) => {
                let mut m = String::from_str("Download failed: ");
                m.append(s.as_str());
                m
            },
            DownloadError::FolderNotAccessible(s) => {
                let mut m = String::from_str("Output folder not accessible: ");
                m.append(s.as_str());
                m
            },
            DownloadError::ExecutableNotFound(s) => {
                let mut m = String::from_str("Bundled executable not found: ");
                m.append(s.as_str());
                m
            },
            DownloadError::PrivateVideo => String::from_str("Video is private"),
            DownloadError::AgeRestricted => String::from_str(
                "Age restricted content - try enabling cookie import",
            ),
            DownloadError::RegionLocked => String::from_str("Content not available in your region"),
            DownloadError::NetworkError(s) => {
                let mut m = String::from_str("Network error: ");
                m.append(s.as_str());
                m
            },
            DownloadError::NotFound => String::from_str("Video not found"),
            DownloadError::RateLimited => String::from_str(
                "Rate limited - please wait and try again",
            ),
            DownloadError::AuthenticationRequired => String::from_str("Authentication required"),
            DownloadError::UnsupportedUrl(s) => {
                let mut m = String::from_str("Unsupported URL: ");
                m.append(s.as_str());
                m
            },
            DownloadError::Timeout(s) => {
                let mut m = String::from_str("Timeout: ");
                m.append(s.as_str());
                m
            },
            DownloadError::GenericError(s) => s.clone(),
        }
    }

    /// The error category tag for UI display.
    pub fn category(&self) -> (r: &'static str)
        ensures
            r@ == download_error_category(*self),
    {
        match self {
            DownloadError::InvalidUrl(_) => "validation",
            DownloadError::AlreadyDownloading => "state",
            DownloadError::ProcessSpawnError(_) => "process",
            DownloadError::DownloadFailed(_) => "download",
            DownloadError::FolderNotAccessible(_) => "filesystem",
            DownloadError::ExecutableNotFound(_) => "dependency",
            DownloadError::PrivateVideo => "access",
            DownloadError::AgeRestricted => "access",
            DownloadError::RegionLocked => "access",
            DownloadError::NetworkError(_) => "network",
            DownloadError::NotFound => "not_found",
            DownloadError::RateLimited => "rate_limit",
            DownloadError::AuthenticationRequired => "auth",
            DownloadError::UnsupportedUrl(_) => "validation",
            DownloadError::Timeout(_) => "network",
            DownloadError::GenericError(_) => "generic",
        }
    }

    /// Whether this error supports a retry.
    pub fn is_retryable(&self) -> (r: bool)
        ensures
            r == retryable(*self),
    {
        match self {
            DownloadError::NetworkError(_) => true,
            DownloadError::DownloadFailed(_) => true,
            DownloadError::RateLimited => true,
            DownloadError::Timeout(_) => true,
            _ => false,
        }
    }

    /// A suggested action for the user, when one exists.
    pub fn suggested_action(&self) -> (r: Option<&'static str>)
        ensures
            r is Some <==> (self matches DownloadError::PrivateVideo
                || self matches DownloadError::AgeRestricted
                || self matches DownloadError::AuthenticationRequired
                || self matches DownloadError::RateLimited
                || self matches DownloadError::NetworkError(_)
                || self matches DownloadError::FolderNotAccessible(_)
                || self matches DownloadError::ExecutableNotFound(_)),
    {
        match self {
            DownloadError::PrivateVideo => Some("Ensure you have access to this video"),
            DownloadError::AgeRestricted => Some("Enable cookie import in settings"),
            DownloadError::AuthenticationRequired => Some("Enable cookie import in settings"),
            DownloadError::RateLimited => Some("Wait a few minutes before retrying"),
            DownloadError::NetworkError(_) => Some("Check your internet connection"),
            DownloadError::FolderNotAccessible(_) => Some("Choose a different output folder"),
            DownloadError::ExecutableNotFound(_) => Some("Reinstall the application"),
            _ => None,
        }
    }
}

/// Relates a parsed stderr error to the download error made of it.
pub open spec fn download_error_of_parsed(p: ParsedError) -> DownloadError {
    match p.category {
        ErrorCategory::PrivateVideo => DownloadError::PrivateVideo,
        ErrorCategory::AgeRestricted => DownloadError::AgeRestricted,
        ErrorCategory::RegionLocked => DownloadError::RegionLocked,
        ErrorCategory::NetworkError => DownloadError::NetworkError(p.message),
        ErrorCategory::NotFound => DownloadError::NotFound,
        ErrorCategory::GenericError => DownloadError::GenericError(p.message),
    }
}

impl From<ParsedError> for DownloadError {
    /// Convert a categorized stderr error into a download error.
    fn from(parsed: ParsedError) -> (r: Self) {
        match parsed.category {
            ErrorCategory::PrivateVideo => DownloadError::PrivateVideo,
            ErrorCategory::AgeRestricted => DownloadError::AgeRestricted,
            ErrorCategory::RegionLocked => DownloadError::RegionLocked,
            ErrorCategory::NetworkError => DownloadError::NetworkError(parsed.message),
            ErrorCategory::NotFound => DownloadError::NotFound,
            ErrorCategory::GenericError => DownloadError::GenericError(parsed.message),
        }
    }
}

impl vstd::std_specs::convert::FromSpecImpl<ParsedError> for DownloadError {
    open spec fn obeys_from_spec() -> bool {
        true
    }

    open spec fn from_spec(v: ParsedError) -> Self {
        download_error_of_parsed(v)
    }
}

/// Filesystem operation errors.
#[derive(Debug, Clone)]
pub enum FilesystemError {
    FolderNotFound(String),
    NotADirectory(String),
    NotWritable(String),
    FileNotFound(String),
    NotAFile(String),
    DiskSpaceError(String),
    OpenError(String),
    PermissionDenied(String),
}

/// The user-facing message of a filesystem error.
pub open spec fn filesystem_error_message(e: FilesystemError) -> Seq<char> {
    match e {
        FilesystemError::FolderNotFound(s) => "Folder does not exist: "@.add(s@),
        FilesystemError::NotADirectory(s) => "Path is not a directory: "@.add(s@),
        FilesystemError::NotWritable(s) => "Cannot write to folder: "@.add(s@),
        FilesystemError::FileNotFound(s) => "File does not exist: "@.add(s@),
        FilesystemError::NotAFile(s) => "Path is not a file: "@.add(s@),
        FilesystemError::DiskSpaceError(s) => "Failed to get disk space: "@.add(s@),
        FilesystemError::OpenError(s) => "Failed to open file/folder: "@.add(s@),
        FilesystemError::PermissionDenied(s) => "Permission denied: "@.add(s@),
    }
}

impl FilesystemError {
    /// Render the error as a plain message string.
    pub fn to_command_error(&self) -> (r: String)
        ensures
            r@ == filesystem_error_message(*self),
    {
        match self {
            FilesystemError::FolderNotFound(s) => {
                let mut m = String::from_str("Folder does not exist: ");
                m.append(s.as_str());
                m
            },
            FilesystemError::NotADirectory(s) => {
                let mut m = String::from_str("Path is not a directory: ");
                m.append(s.as_str());
                m
            },
            FilesystemError::NotWritable(s) => {
                let mut m = String::from_str("Cannot write to folder: ");
                m.append(s.as_str());
                m
            },
            FilesystemError::FileNotFound(s) => {
                let mut m = String::from_str("File does not exist: ");
                m.append(s.as_str());
                m
            },
            FilesystemError::NotAFile(s) => {
                let mut m = String::from_str("Path is not a file: ");
                m.append(s.as_str());
                m
            },
            FilesystemError::DiskSpaceError(s) => {
                let mut m = String::from_str("Failed to get disk space: ");
                m.append(s.as_str());
                m
            },
            FilesystemError::OpenError(s) => {
                let mut m = String::from_str("Failed to open file/folder: ");
                m.append(s.as_str());
                m
            },
            FilesystemError::PermissionDenied(s) => {
                let mut m = String::from_str("Permission denied: ");
                m.append(s.as_str());
                m
            },
        }
    }
}

/// Preferences storage errors.
#[derive(Debug, Clone)]
pub enum PreferencesError {
    StoreOpenError(String),
    ParseError(String),
    SerializeError(String),
    SaveError(String),
}

/// The user-facing message of a preferences error.
pub open spec fn preferences_error_message(e: PreferencesError) -> Seq<char> {
    match e {
        PreferencesError::StoreOpenError(s) => "Failed to open preferences store: "@.add(s@),
        PreferencesError::ParseError(s) => "Failed to parse preferences: "@.add(s@),
        PreferencesError::SerializeError(s) => "Failed to serialize preferences: "@.add(s@),
        PreferencesError::SaveError(s) => "Failed to save preferences: "@.add(s@),
    }
}

impl PreferencesError {
    /// Render the error as a plain message string.
    pub fn to_command_error(&self) -> (r: String)
        ensures
            r@ == preferences_error_message(*self),
    {
        match self {
            PreferencesError::StoreOpenError(s) => {
                let mut m = String::from_str("Failed to open preferences store: ");
                m.append(s.as_str());
                m
            },
            PreferencesError::ParseError(s) => {
                let mut m = String::from_str("Failed to parse preferences: ");
                m.append(s.as_str());
                m
            },
            PreferencesError::SerializeError(s) => {
                let mut m = String::from_str("Failed to serialize preferences: ");
                m.append(s.as_str());
                m
            },
            PreferencesError::SaveError(s) => {
                let mut m = String::from_str("Failed to save preferences: ");
                m.append(s.as_str());
                m
            },
        }
    }
}

/// Updater errors.
#[derive(Debug, Clone)]
pub enum UpdateError {
    ExecutionError(String),
    SpawnError(String),
    VersionError(String),
    UpdateFailed(String),
    CheckFailed(String),
    UpdaterNotConfigured,
    NetworkError(String),
}

/// The user-facing message of an update error.
pub open spec fn update_error_message(e: UpdateError) -> Seq<char> {
    match e {
        UpdateError::ExecutionError(s) => "Failed to execute yt-dlp: "@.add(s@),
        UpdateError::SpawnError(s) => "Failed to spawn update process: "@.add(s@),
        UpdateError::VersionError(s) => "Failed to get version: "@.add(s@),
        UpdateError::UpdateFailed(s) => "Update failed: "@.add(s@),
        UpdateError::CheckFailed(s) => "Update check failed: "@.add(s@),
        UpdateError::UpdaterNotConfigured => "App updater is not configured"@,
        UpdateError::NetworkError(s) => "Network error during update: "@.add(s@),
    }
}

impl UpdateError {
    /// Render the error as a plain message string.
    pub fn to_command_error(&self) -> (r: String)
        ensures
            r@ == update_error_message(*self),
    {
        match self {
            UpdateError::ExecutionError(s) => {
                let mut m = String::from_str("Failed to execute yt-dlp: ");
                m.append(s.as_str());
                m
            },
            UpdateError::SpawnError(s) => {
                let mut m = String::from_str("Failed to spawn update process: ");
                m.append(s.as_str());
                m
            },
            UpdateError::VersionError(s) => {
                let mut m = String::from_str("Failed to get version: ");
                m.append(s.as_str());
                m
            },
            UpdateError::UpdateFailed(s) => {
                let mut m = String::from_str("Update failed: ");
                m.append(s.as_str());
                m
            },
            UpdateError::CheckFailed(s) => {
                let mut m = String::from_str("Update check failed: ");
                m.append(s.as_str());
                m
            },
            UpdateError::UpdaterNotConfigured => String::from_str("App updater is not configured"),
            UpdateError::NetworkError(s) => {
                let mut m = String::from_str("Network error during update: ");
                m.append(s.as_str());
                m
            },
        }
    }
}

/// Download queue operation errors.
#[derive(Debug, Clone)]
pub enum QueueError {
    ItemNotFound(u64),
    CannotCancel(String),
    CannotRemove(String),
    HistorySaveError(String),
    QueueFull(usize),
    InvalidOperation(String),
}

/// The user-facing message of a queue error.
pub open spec fn queue_error_message(e: QueueError) -> Seq<char> {
    match e {
        QueueError::ItemNotFound(id) => "Queue item not found: "@.add(dec_str(id as int)),
        QueueError::CannotCancel(s) => "Item cannot be cancelled (status: "@.add(s@).add(")"@),
        QueueError::CannotRemove(s) => "Item cannot be removed (status: "@.add(s@).add(")"@),
        QueueError::HistorySaveError(s) => "Failed to save history: "@.add(s@),
        QueueError::QueueFull(max) => "Queue is full (max "@.add(dec_str(max as int)).add(
            " items)"@,
        ),
        QueueError::InvalidOperation(s) => "Invalid queue operation: "@.add(s@),
    }
}

impl QueueError {
    /// Render the error as a plain message string.
    pub fn to_command_error(&self) -> (r: String)
        ensures
            r@ == queue_error_message(*self),
    {
        match self {
            QueueError::ItemNotFound(id) => {
                let mut m = String::from_str("Queue item not found: ");
                let d = u64_to_string(*id);
                m.append(d.as_str());
                m
            },
            QueueError::CannotCancel(s) => {
                let mut m = String::from_str("Item cannot be cancelled (status: ");
                m.append(s.as_str());
                m.append(")");
                m
            },
            QueueError::CannotRemove(s) => {
                let mut m = String::from_str("Item cannot be removed (status: ");
                m.append(s.as_str());
                m.append(")");
                m
            },
            QueueError::HistorySaveError(s) => {
                let mut m = String::from_str("Failed to save history: ");
                m.append(s.as_str());
                m
            },
            QueueError::QueueFull(max) => {
                let mut m = String::from_str("Queue is full (max ");
                let d = u64_to_string((*max) as u64);
                m.append(d.as_str());
                m.append(" items)");
                m
            },
            QueueError::InvalidOperation(s) => {
                let mut m = String::from_str("Invalid queue operation: ");
                m.append(s.as_str());
                m
            },
        }
    }
}

/// Media information fetching errors.
#[derive(Debug, Clone)]
pub enum MediaInfoError {
    EmptyUrl,
    ParseError(String),
    UnsupportedUrl(String),
    FetchError(String),
    Download(String),
}

/// The user-facing message of a media-info error.
pub open spec fn media_info_error_message(e: MediaInfoError) -> Seq<char> {
    match e {
        MediaInfoError::EmptyUrl => "URL cannot be empty"@,
        MediaInfoError::ParseError(s) => "Failed to parse media info: "@.add(s@),
        MediaInfoError::UnsupportedUrl(s) => "Unsupported URL format: "@.add(s@),
        MediaInfoError::FetchError(s) => "Failed to fetch info: "@.add(s@),
        MediaInfoError::Download(s) => s@,
    }
}

impl MediaInfoError {
    /// Render the error as a plain message string.
    pub fn to_command_error(&self) -> (r: String)
        ensures
            r@ == media_info_error_message(*self),
    {
        match self {
            MediaInfoError::EmptyUrl => String::from_str("URL cannot be empty"),
            MediaInfoError::ParseError(s) => {
                let mut m = String::from_str("Failed to parse media info: ");
                m.append(s.as_str());
                m
            },
            MediaInfoError::UnsupportedUrl(s) => {
                let mut m = String::from_str("Unsupported URL format: ");
                m.append(s.as_str());
                m
            },
            MediaInfoError::FetchError(s) => {
                let mut m = String::from_str("Failed to fetch info: ");
                m.append(s.as_str());
                m
            },
            MediaInfoError::Download(s) => s.clone(),
        }
    }

    /// Wrap a download error's message.
    pub fn from_download_error(err: DownloadError) -> (r: Self)
        ensures
            r matches MediaInfoError::Download(s) && s@ == download_error_message(err),
    {
        MediaInfoError::Download(err.message())
    }
}

/// Unified application error.
#[derive(Debug, Clone)]
pub enum AppError {
    Download(DownloadError),
    Filesystem(FilesystemError),
    Preferences(PreferencesError),
    Update(UpdateError),
    Queue(QueueError),
    MediaInfo(MediaInfoError),
}

/// The user-facing message of a unified application error.
pub open spec fn app_error_message(e: AppError) -> Seq<char> {
    match e {
        AppError::Download(x) => download_error_message(x),
        AppError::Filesystem(x) => filesystem_error_message(x),
        AppError::Preferences(x) => preferences_error_message(x),
        AppError::Update(x) => update_error_message(x),
        AppError::Queue(x) => queue_error_message(x),
        AppError::MediaInfo(x) => media_info_error_message(x),
    }
}

impl AppError {
    /// Render the error as a plain message string.
    pub fn message(&self) -> (r: String)
        ensures
            r@ == app_error_message(*self),
    {
        match self {
            AppError::Download(x) => x.message(),
            AppError::Filesystem(x) => x.to_command_error(),
            AppError::Preferences(x) => x.to_command_error(),
            AppError::Update(x) => x.to_command_error(),
            AppError::Queue(x) => x.to_command_error(),
            AppError::MediaInfo(x) => x.to_command_error(),
        }
    }
}

impl From<DownloadError> for AppError {
    /// Wrap a download error.
    fn from(err: DownloadError) -> (r: Self) {
        AppError::Download(err)
    }
}

impl vstd::std_specs::convert::FromSpecImpl<DownloadError> for AppError {
    open spec fn obeys_from_spec() -> bool {
        true
    }

    open spec fn from_spec(v: DownloadError) -> Self {
        AppError::Download(v)
    }
}

impl From<FilesystemError> for AppError {
    /// Wrap a filesystem error.
    fn from(err: FilesystemError) -> (r: Self) {
        AppError::Filesystem(err)
    }
}

impl vstd::std_specs::convert::FromSpecImpl<FilesystemError> for AppError {
    open spec fn obeys_from_spec() -> bool {
        true
    }

    open spec fn from_spec(v: FilesystemError) -> Self {
        AppError::Filesystem(v)
    }
}

impl From<PreferencesError> for AppError {
    /// Wrap a preferences error.
    fn from(err: PreferencesError) -> (r: Self) {
        AppError::Preferences(err)
    }
}

impl vstd::std_specs::convert::FromSpecImpl<PreferencesError> for AppError {
    open spec fn obeys_from_spec() -> bool {
        true
    }

    open spec fn from_spec(v: PreferencesError) -> Self {
        AppError::Preferences(v)
    }
}

impl From<UpdateError> for AppError {
    /// Wrap an update error.
    fn from(err: UpdateError) -> (r: Self) {
        AppError::Update(err)
    }
}

impl vstd::std_specs::convert::FromSpecImpl<UpdateError> for AppError {
    open spec fn obeys_from_spec() -> bool {
        true
    }

    open spec fn from_spec(v: UpdateError) -> Self {
        AppError::Update(v)
    }
}

impl From<QueueError> for AppError {
    /// Wrap a queue error.
    fn from(err: QueueError) -> (r: Self) {
        AppError::Queue(err)
    }
}

impl vstd::std_specs::convert::FromSpecImpl<QueueError> for AppError {
    open spec fn obeys_from_spec() -> bool {
        true
    }

    open spec fn from_spec(v: QueueError) -> Self {
        AppError::Queue(v)
    }
}

impl From<MediaInfoError> for AppError {
    /// Wrap a media-info error.
    fn from(err: MediaInfoError) -> (r: Self) {
        AppError::MediaInfo(err)
    }
}

impl vstd::std_specs::convert::FromSpecImpl<MediaInfoError> for AppError {
    open spec fn obeys_from_spec() -> bool {
        true
    }

    open spec fn from_spec(v: MediaInfoError) -> Self {
        AppError::MediaInfo(v)
    }
}

/// Exponent of a non-negative base.
pub open spec fn pow_nat(b: nat, e: nat) -> nat
    decreases e,
{
    if e == 0 {
        1
    } else {
        b * pow_nat(b, (e - 1) as nat)
    }
}

/// Retry configuration for failed downloads, with integer exponential
/// backoff.
#[derive(Debug, Clone)]
pub struct RetryConfig {
    /// Maximum number of retry attempts.
    pub max_retries: u32,
    /// Initial delay between retries in milliseconds.
    pub initial_delay_ms: u64,
    /// Maximum delay between retries in milliseconds.
    pub max_delay_ms: u64,
    /// Backoff multiplier (delay = initial_delay * multiplier^attempt).
    pub backoff_multiplier: u64,
}

impl Default for RetryConfig {
    /// Three retries, starting at one second, doubling, capped at thirty
    /// seconds.
    fn default() -> (r: Self)
        ensures
            r.max_retries == 3,
            r.initial_delay_ms == 1000,
            r.max_delay_ms == 30000,
            r.backoff_multiplier == 2,
    {
        RetryConfig { max_retries: 3, initial_delay_ms: 1000, max_delay_ms: 30000, backoff_multiplier: 2 }
    }
}

/// The backoff delay of an attempt: the initial delay scaled by the
/// multiplier per attempt, capped at the maximum delay.
pub open spec fn delay_spec(c: RetryConfig, attempt: u32) -> u64 {
    if c.initial_delay_ms * pow_nat(c.backoff_multiplier as nat, attempt as nat)
        > c.max_delay_ms {
        c.max_delay_ms
    } else {
        (c.initial_delay_ms * pow_nat(c.backoff_multiplier as nat, attempt as nat)) as u64
    }
}

impl RetryConfig {
    /// Delay before the given (0-indexed) retry attempt.
    pub fn delay_for_attempt(&self, attempt: u32) -> (r: u64)
        ensures
            r == delay_spec(*self, attempt),
    {
        let mut i: u32 = 0;
        let mut d: u128 = self.initial_delay_ms as u128;
        let cap: u128 = self.max_delay_ms as u128;
        let mult: u128 = self.backoff_multiplier as u128;
        proof {
            assert(pow_nat(self.backoff_multiplier as nat, 0) == 1);
        }
        while i < attempt
            invariant
                0 <= i <= attempt,
                cap == self.max_delay_ms,
                mult == self.backoff_multiplier,
                d <= 0xffff_ffff_ffff_ffffu128,
                ({
                    let v = (self.initial_delay_ms as nat) * pow_nat(
                        self.backoff_multiplier as nat,
                        i as nat,
                    );
                    (v <= cap ==> d == v) && (v > cap ==> (d == cap || (i == 0 && d == v)))
                }),
            decreases attempt - i,
        {
            let ghost m = self.backoff_multiplier as nat;
            let ghost p = pow_nat(m, i as nat);
            let ghost v = (self.initial_delay_ms as nat) * p;
            let ghost v2 = (self.initial_delay_ms as nat) * pow_nat(m, (i + 1) as nat);
            proof {
                assert(pow_nat(m, (i + 1) as nat) == m * p);
                assert((self.initial_delay_ms as int) * ((m as int) * (p as int))
                    == ((self.initial_delay_ms as int) * (p as int)) * (m as int))
                    by (nonlinear_arith);
                assert(v2 == v * m);
                assert((d as int) * (mult as int) <= 0xffff_ffff_ffff_ffff
                    * 0xffff_ffff_ffff_ffff) by (nonlinear_arith)
                    requires
                        0 <= d <= 0xffff_ffff_ffff_ffffu128 && 0 <= mult
                            <= 0xffff_ffff_ffff_ffffu128,
                ;
            }
            let next: u128 = d * mult;
            proof {
                if v <= cap || (v > cap && d == v) {
                    assert(next == v * m);
                    assert(next == v2);
                    if v > cap && m >= 1 {
                        assert(v2 > cap) by (nonlinear_arith)
                            requires
                                v2 == (v as int) * (m as int) && v > cap && cap >= 0 && m >= 1,
                        ;
                    }
                } else {
                    assert(d == cap);
                    if m == 0 {
                        assert(v2 == (v as int) * 0) by (nonlinear_arith)
                            requires
                                v2 == (v as int) * (m as int) && m == 0,
                        ;
                        assert(next == (cap as int) * 0) by (nonlinear_arith)
                            requires
                                next == (cap as int) * (m as int) && m == 0,
                        ;
                    } else {
                        assert(v2 > cap) by (nonlinear_arith)
                            requires
                                v2 == (v as int) * (m as int) && v > cap && cap >= 0 && m >= 1,
                        ;
                        assert(next >= cap) by (nonlinear_arith)
                            requires
                                next == (cap as int) * (m as int) && cap >= 0 && m >= 1,
                        ;
                    }
                }
            }
            d = if next > cap {
                cap
            } else {
                next
            };
            i = i + 1;
        }
        if d > cap {
            self.max_delay_ms
        } else {
            d as u64
        }
    }
}

// ---------------------------------------------------------------------------
// Whole-stderr classification
// ---------------------------------------------------------------------------
/// The first line of a text, or a default when there are no lines.
pub open spec fn first_line_or(s: Seq<char>, d: Seq<char>) -> Seq<char> {
    if lines_of(s).len() == 0 {
        d
    } else {
        lines_of(s)[0]
    }
}

/// The first line mentioning an address scheme, or a placeholder.
pub open spec fn url_line_of(s: Seq<char>) -> Seq<char> {
    let ls = lines_of(s);
    let i = line_with_idx(ls, "http"@);
    if i == -1 {
        "Unknown URL"@
    } else {
        ls[i]
    }
}

/// The first line carrying the error marker, else the first line, else a
/// placeholder.
pub open spec fn generic_line_of(s: Seq<char>) -> Seq<char> {
    let ls = lines_of(s);
    let i = line_with_idx(ls, "ERROR"@);
    if i != -1 {
        ls[i]
    } else if ls.len() > 0 {
        ls[0]
    } else {
        "Unknown error"@
    }
}

/// What classifying a whole stderr text yields: the first matching marker
/// family, in precedence order, decides the error.
pub open spec fn ytdlp_error_post(s: Seq<char>, r: DownloadError) -> bool {
    if contains_ci(s, "private video"@) || contains_ci(s, "video is private"@) {
        r is PrivateVideo
    } else if contains_ci(s, "age"@) && (contains_ci(s, "restricted"@) || contains_ci(
        s,
        "verify"@,
    ) || contains_ci(s, "confirm"@)) {
        r is AgeRestricted
    } else if contains_ci(s, "not available"@) && contains_ci(s, "country"@) {
        r is RegionLocked
    } else if contains_ci(s, "video unavailable"@) || contains_ci(s, "does not exist"@) {
        r is NotFound
    } else if contains_ci(s, "rate limit"@) || contains_ci(s, "429"@) || contains_ci(
        s,
        "too many requests"@,
    ) {
        r is RateLimited
    } else if contains_ci(s, "sign in"@) || contains_ci(s, "login"@) || contains_ci(
        s,
        "authentication"@,
    ) {
        r is AuthenticationRequired
    } else if contains_ci(s, "unsupported url"@) || contains_ci(s, "no video formats"@) {
        r matches DownloadError::UnsupportedUrl(u) && u@ == url_line_of(s)
    } else if contains_ci(s, "timed out"@) || contains_ci(s, "timeout"@) {
        r matches DownloadError::Timeout(m) && m@ == first_line_or(s, "Connection timed out"@)
    } else if contains_ci(s, "unable to download"@) || contains_ci(s, "connection"@) || contains_ci(
        s,
        "network"@,
    ) {
        r matches DownloadError::NetworkError(m) && m@ == first_line_or(s, "Network error"@)
    } else {
        r matches DownloadError::GenericError(m) && m@ == generic_line_of(s)
    }
}

/// Classify a whole stderr text into a download error, by marker precedence.
pub fn parse_ytdlp_error(stderr: &str) -> (r: DownloadError)
    ensures
        ytdlp_error_post(stderr@, r),
{
    if contains_str_ci(stderr, "private video") || contains_str_ci(stderr, "video is private") {
        return DownloadError::PrivateVideo;
    }
    if contains_str_ci(stderr, "age") && (contains_str_ci(stderr, "restricted") || contains_str_ci(
        stderr,
        "verify",
    ) || contains_str_ci(stderr, "confirm")) {
        return DownloadError::AgeRestricted;
    }
    if contains_str_ci(stderr, "not available") && contains_str_ci(stderr, "country") {
        return DownloadError::RegionLocked;
    }
    if contains_str_ci(stderr, "video unavailable") || contains_str_ci(stderr, "does not exist") {
        return DownloadError::NotFound;
    }
    if contains_str_ci(stderr, "rate limit") || contains_str_ci(stderr, "429") || contains_str_ci(
        stderr,
        "too many requests",
    ) {
        return DownloadError::RateLimited;
    }
    if contains_str_ci(stderr, "sign in") || contains_str_ci(stderr, "login") || contains_str_ci(
        stderr,
        "authentication",
    ) {
        return DownloadError::AuthenticationRequired;
    }
    let lines = lines_vec(stderr);
    if contains_str_ci(stderr, "unsupported url") || contains_str_ci(stderr, "no video formats") {
        let url: String = match find_line_with(&lines, "http") {
            Some(i) => lines[i].clone(),
            None => String::from_str("Unknown URL"),
        };
        return DownloadError::UnsupportedUrl(url);
    }
    if contains_str_ci(stderr, "timed out") || contains_str_ci(stderr, "timeout") {
        let m: String = if lines.len() > 0 {
            proof {
                assert(lines@[0]@ == views_of(lines@)[0]);
            }
            lines[0].clone()
        } else {
            String::from_str("Connection timed out")
        };
        return DownloadError::Timeout(m);
    }
    if contains_str_ci(stderr, "unable to download") || contains_str_ci(stderr, "connection")
        || contains_str_ci(stderr, "network") {
        let m: String = if lines.len() > 0 {
            proof {
                assert(lines@[0]@ == views_of(lines@)[0]);
            }
            lines[0].clone()
        } else {
            String::from_str("Network error")
        };
        return DownloadError::NetworkError(m);
    }
    let m: String = match find_line_with(&lines, "ERROR") {
        Some(i) => lines[i].clone(),
        None => {
            if lines.len() > 0 {
                proof {
                    assert(lines@[0]@ == views_of(lines@)[0]);
                }
                lines[0].clone()
            } else {
                String::from_str("Unknown error")
            }
        },
    };
    DownloadError::GenericError(m)
}

} // verus!
