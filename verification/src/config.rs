//! The configuration of a worker: what can be set, how settings from
//! outside are read and how a configuration is resolved.

use crate::path_safety::{is_absolute, join_under, joined_path, path_has_prefix, path_starts_with};
use crate::random::{is_alphanumeric_text, random_alphanumeric};
use crate::text::{
    borrowed_text, chars_of, lowercase_text, lowercased, text_equal, text_view, trim_text, trimmed,
};
use vstd::prelude::*;
use vstd::string::StringExecFns;

verus! {

/// The digest a hash job computes.
#[derive(Clone, Copy, Debug, PartialEq, Eq, Structural)]
pub enum HashAlgorithm {
    Blake3,
    Sha256,
}

/// Why a configuration was refused.
#[derive(Clone, Copy, Debug, PartialEq, Eq, Structural)]
pub enum ConfigError {
    /// The hash algorithm is neither `blake3` nor `sha256`.
    UnsupportedHashAlgorithm,
    /// The value given for a setting is no number that the setting can hold.
    InvalidSetting(Setting),
    /// The libraries root is no absolute path.
    LibrariesRootNotAbsolute,
    /// The libraries root is not `/libraries`.
    LibrariesRootMisplaced,
    /// The libraries root resolves to something that is no directory.
    LibrariesRootNotDirectory,
    /// The database path is no absolute path.
    DatabasePathNotAbsolute,
    /// The state root is no absolute path.
    StateRootNotAbsolute,
    /// The state root resolves to something that is no directory.
    StateRootNotDirectory,
    /// The database path does not lie under the state root.
    DatabaseOutsideStateRoot,
    /// The thumbs root is no absolute path.
    ThumbsRootNotAbsolute,
    /// The thumbs root resolves to something that is no directory.
    ThumbsRootNotDirectory,
    /// The thumbs root does not resolve to a place under the state root.
    ThumbsRootOutsideStateRoot,
    /// The worker id that was asked for is blank.
    BlankWorkerId,
    /// The name of the frame extractor is blank.
    BlankFfmpegBinary,
}

/// What can be set from outside.
#[derive(Clone, Copy, Debug, PartialEq, Eq, Structural)]
pub enum Setting {
    LibrariesRoot,
    StateRoot,
    ThumbsRoot,
    DatabaseUrl,
    Concurrency,
    IoRateLimitMibPerSec,
    DefaultHashAlgorithm,
    ScanWriteBatchSize,
    HashFetchBatchSize,
    HashReadChunkBytes,
    HashClaimTtlSeconds,
    HashRetryBaseSeconds,
    HashRetryMaxSeconds,
    JobLockTtlSeconds,
    ThumbnailImageConcurrency,
    ThumbnailVideoConcurrency,
    ThumbnailIoRateLimitMibPerSec,
    ThumbnailRetryBaseSeconds,
    ThumbnailRetryMaxSeconds,
    ThumbnailFfmpegBin,
    ThumbnailFfmpegTimeoutSeconds,
    ThumbnailMaxDimension,
    PollSeconds,
    MaxPollSeconds,
    PollJitterMillis,
    WalCheckpointRetrySeconds,
}

/// The name under which an algorithm is stored.
pub open spec fn algorithm_name(algorithm: HashAlgorithm) -> Seq<char> {
    match algorithm {
        HashAlgorithm::Blake3 => "blake3"@,
        HashAlgorithm::Sha256 => "sha256"@,
    }
}

/// The algorithm stored under a name, if the name is one.
pub open spec fn algorithm_named(name: Seq<char>) -> Option<HashAlgorithm> {
    if name == "blake3"@ {
        Some(HashAlgorithm::Blake3)
    } else if name == "sha256"@ {
        Some(HashAlgorithm::Sha256)
    } else {
        None
    }
}

impl HashAlgorithm {
    /// The name under which the algorithm is stored.
    pub fn as_db_value(self) -> (name: &'static str)
        ensures
            name@ == algorithm_name(self),
    {
        match self {
            HashAlgorithm::Blake3 => "blake3",
            HashAlgorithm::Sha256 => "sha256",
        }
    }

    /// The algorithm with exactly this stored name.
    pub fn from_db_value(name: &str) -> (algorithm: Option<HashAlgorithm>)
        ensures
            algorithm == algorithm_named(name@),
    {
        if text_equal(name, "blake3") {
            Some(HashAlgorithm::Blake3)
        } else if text_equal(name, "sha256") {
            Some(HashAlgorithm::Sha256)
        } else {
            None
        }
    }

    /// Reads an algorithm name as a user wrote it: surrounding white space and
    /// letter case do not matter.
    pub fn parse(raw: &str) -> (result: Result<HashAlgorithm, ConfigError>)
        ensures
            match result {
                Ok(algorithm) => algorithm_named(lowercased(trimmed(raw@))) == Some(algorithm),
                Err(fault) => algorithm_named(lowercased(trimmed(raw@))) is None && fault
                    == ConfigError::UnsupportedHashAlgorithm,
            },
    {
        let name = lowercase_text(trim_text(raw));
        match HashAlgorithm::from_db_value(name.as_str()) {
            Some(algorithm) => Ok(algorithm),
            None => Err(ConfigError::UnsupportedHashAlgorithm),
        }
    }
}

/// The settings a worker runs with.
#[derive(Clone, Debug)]
pub struct WorkerConfig {
    pub libraries_root: String,
    pub libraries_root_real: String,
    pub database_path: String,
    pub thumbs_root_real: String,
    pub concurrency: usize,
    pub io_rate_limit_mib_per_sec: Option<u64>,
    pub hash_algorithm: HashAlgorithm,
    pub scan_write_batch_size: usize,
    pub hash_fetch_batch_size: usize,
    pub hash_read_chunk_bytes: usize,
    pub hash_claim_ttl_seconds: u64,
    pub hash_retry_base_seconds: u64,
    pub hash_retry_max_seconds: u64,
    pub job_lock_ttl_seconds: u64,
    pub thumbnail_image_concurrency: usize,
    pub thumbnail_video_concurrency: usize,
    pub thumbnail_io_rate_limit_mib_per_sec: Option<u64>,
    pub thumbnail_retry_base_seconds: u64,
    pub thumbnail_retry_max_seconds: u64,
    pub thumbnail_ffmpeg_bin: String,
    pub thumbnail_ffmpeg_timeout_seconds: u64,
    pub thumbnail_max_dimension: usize,
    pub rust_worker_poll_seconds: u64,
    pub rust_worker_max_poll_seconds: u64,
    pub rust_worker_poll_jitter_millis: u64,
    pub wal_checkpoint_retry_seconds: u64,
    pub worker_id: String,
}

/// The value of a decimal digit.
pub open spec fn digit_value(c: char) -> Option<nat> {
    if c == '0' {
        Some(0)
    } else if c == '1' {
        Some(1)
    } else if c == '2' {
        Some(2)
    } else if c == '3' {
        Some(3)
    } else if c == '4' {
        Some(4)
    } else if c == '5' {
        Some(5)
    } else if c == '6' {
        Some(6)
    } else if c == '7' {
        Some(7)
    } else if c == '8' {
        Some(8)
    } else if c == '9' {
        Some(9)
    } else {
        None
    }
}

/// The number that a text of decimal digits denotes; none for the empty
/// text and for a text that holds anything but digits.
pub open spec fn digits_value(text: Seq<char>) -> Option<nat>
    decreases text.len(),
{
    if text.len() == 0 {
        None
    } else if text.len() == 1 {
        digit_value(text[0])
    } else {
        match (digits_value(text.drop_last()), digit_value(text.last())) {
            (Some(high), Some(low)) => Some(high * 10 + low),
            _ => None,
        }
    }
}

/// The number that a text denotes as a setting: decimal digits, with a `+`
/// before them if one likes, that give a number of at most 64 bits.
pub open spec fn number_value(text: Seq<char>) -> Option<u64> {
    let digits = if text.len() > 0 && text[0] == '+' {
        text.drop_first()
    } else {
        text
    };
    match digits_value(digits) {
        Some(value) => if value <= u64::MAX {
            Some(value as u64)
        } else {
            None
        },
        None => None,
    }
}

/// A text of digits that goes on from a number too large to hold denotes
/// no smaller number.
proof fn lemma_digits_only_grow(text: Seq<char>, n: int)
    requires
        1 <= n <= text.len(),
        digits_value(text.take(n)) matches Some(value) && value > u64::MAX,
    ensures
        digits_value(text) matches Some(value) ==> value > u64::MAX,
    decreases text.len() - n,
{
    if n < text.len() {
        assert(text.take(n + 1).drop_last() =~= text.take(n));
        if digits_value(text.take(n + 1)) is Some {
            lemma_digits_only_grow(text, n + 1);
        } else {
            lemma_digits_stay_invalid(text, n + 1);
        }
    } else {
        assert(text.take(n) =~= text);
    }
}

/// A text of digits that goes on from a text that denotes no number
/// denotes none.
proof fn lemma_digits_stay_invalid(text: Seq<char>, n: int)
    requires
        1 <= n <= text.len(),
        digits_value(text.take(n)) is None,
    ensures
        digits_value(text) is None,
    decreases text.len() - n,
{
    if n < text.len() {
        assert(text.take(n + 1).drop_last() =~= text.take(n));
        lemma_digits_stay_invalid(text, n + 1);
    } else {
        assert(text.take(n) =~= text);
    }
}

/// Reads a number as a setting gives it.
pub fn parse_number(text: &str) -> (number: Option<u64>)
    ensures
        number == number_value(text@),
{
    let chars = chars_of(text);
    let start: usize = if chars.len() > 0 && chars[0] == '+' {
        1
    } else {
        0
    };
    if start >= chars.len() {
        proof {
            if start == 1 {
                assert(text@.drop_first() =~= Seq::<char>::empty());
            }
        }
        return None;
    }
    let ghost digits = chars@.skip(start as int);
    proof {
        if start == 1 {
            assert(text@.drop_first() =~= digits);
        } else {
            assert(text@ =~= digits);
        }
    }
    let mut value: u64 = 0;
    let mut i: usize = start;
    while i < chars.len()
        invariant
            start <= i <= chars.len(),
            start < chars.len(),
            digits == chars@.skip(start as int),
            number_value(text@) == match digits_value(digits) {
                Some(all) => if all <= u64::MAX {
                    Some(all as u64)
                } else {
                    None
                },
                None => None,
            },
            i > start ==> digits_value(digits.take(i - start)) == Some(value as nat),
            i == start ==> value == 0,
        decreases chars.len() - i,
    {
        let c = chars[i];
        let digit: u64 = if c == '0' {
            0
        } else if c == '1' {
            1
        } else if c == '2' {
            2
        } else if c == '3' {
            3
        } else if c == '4' {
            4
        } else if c == '5' {
            5
        } else if c == '6' {
            6
        } else if c == '7' {
            7
        } else if c == '8' {
            8
        } else if c == '9' {
            9
        } else {
            proof {
                let k = i - start;
                assert(digits.take(k + 1).drop_last() =~= digits.take(k));
                assert(digits.take(k + 1).last() == c);
                assert(digits_value(digits.take(k + 1)) is None);
                lemma_digits_stay_invalid(digits, k + 1);
            }
            return None;
        };
        proof {
            let k = i - start;
            assert(digits.take(k + 1).drop_last() =~= digits.take(k));
            assert(digits.take(k + 1).last() == c);
            assert(digit_value(c) == Some(digit as nat));
            if k == 0 {
                assert(digits.take(1)[0] == c);
            }
            assert(digits_value(digits.take(k + 1)) == Some((value * 10 + digit) as nat));
        }
        let scaled = match value.checked_mul(10) {
            Some(scaled) => scaled,
            None => {
                proof {
                    lemma_digits_only_grow(digits, i - start + 1);
                }
                return None;
            },
        };
        value = match scaled.checked_add(digit) {
            Some(sum) => sum,
            None => {
                proof {
                    lemma_digits_only_grow(digits, i - start + 1);
                }
                return None;
            },
        };
        i += 1;
    }
    proof {
        assert(digits.take(digits.len() as int) =~= digits);
    }
    Some(value)
}

/// The numbers and the algorithm that a configuration may set.
#[derive(Clone, Copy, Debug, PartialEq, Eq, Structural)]
pub struct Knobs {
    pub concurrency: Option<usize>,
    pub io_rate_limit_mib_per_sec: Option<u64>,
    pub hash_algorithm: Option<HashAlgorithm>,
    pub scan_write_batch_size: Option<usize>,
    pub hash_fetch_batch_size: Option<usize>,
    pub hash_read_chunk_bytes: Option<usize>,
    pub hash_claim_ttl_seconds: Option<u64>,
    pub hash_retry_base_seconds: Option<u64>,
    pub hash_retry_max_seconds: Option<u64>,
    pub job_lock_ttl_seconds: Option<u64>,
    pub thumbnail_image_concurrency: Option<usize>,
    pub thumbnail_video_concurrency: Option<usize>,
    pub thumbnail_io_rate_limit_mib_per_sec: Option<u64>,
    pub thumbnail_retry_base_seconds: Option<u64>,
    pub thumbnail_retry_max_seconds: Option<u64>,
    pub thumbnail_ffmpeg_timeout_seconds: Option<u64>,
    pub thumbnail_max_dimension: Option<usize>,
    pub rust_worker_poll_seconds: Option<u64>,
    pub rust_worker_max_poll_seconds: Option<u64>,
    pub rust_worker_poll_jitter_millis: Option<u64>,
    pub wal_checkpoint_retry_seconds: Option<u64>,
}

/// A configuration as it was given: what is not set takes its default when
/// the configuration is resolved.
#[derive(Debug)]
pub struct PartialWorkerConfig {
    pub state_root: Option<String>,
    pub libraries_root: Option<String>,
    pub database_path: Option<String>,
    pub thumbs_root: Option<String>,
    pub thumbnail_ffmpeg_bin: Option<String>,
    pub knobs: Knobs,
}

/// A [`PartialWorkerConfig`] as plain values.
pub struct PartialConfigView {
    pub state_root: Option<Seq<char>>,
    pub libraries_root: Option<Seq<char>>,
    pub database_path: Option<Seq<char>>,
    pub thumbs_root: Option<Seq<char>>,
    pub thumbnail_ffmpeg_bin: Option<Seq<char>>,
    pub knobs: Knobs,
}

impl View for PartialWorkerConfig {
    type V = PartialConfigView;

    open spec fn view(&self) -> PartialConfigView {
        PartialConfigView {
            state_root: text_view(self.state_root),
            libraries_root: text_view(self.libraries_root),
            database_path: text_view(self.database_path),
            thumbs_root: text_view(self.thumbs_root),
            thumbnail_ffmpeg_bin: text_view(self.thumbnail_ffmpeg_bin),
            knobs: self.knobs,
        }
    }
}

/// Knobs of which none is set.
pub open spec fn no_knobs() -> Knobs {
    Knobs {
        concurrency: None,
        io_rate_limit_mib_per_sec: None,
        hash_algorithm: None,
        scan_write_batch_size: None,
        hash_fetch_batch_size: None,
        hash_read_chunk_bytes: None,
        hash_claim_ttl_seconds: None,
        hash_retry_base_seconds: None,
        hash_retry_max_seconds: None,
        job_lock_ttl_seconds: None,
        thumbnail_image_concurrency: None,
        thumbnail_video_concurrency: None,
        thumbnail_io_rate_limit_mib_per_sec: None,
        thumbnail_retry_base_seconds: None,
        thumbnail_retry_max_seconds: None,
        thumbnail_ffmpeg_timeout_seconds: None,
        thumbnail_max_dimension: None,
        rust_worker_poll_seconds: None,
        rust_worker_max_poll_seconds: None,
        rust_worker_poll_jitter_millis: None,
        wal_checkpoint_retry_seconds: None,
    }
}

/// The number that a text denotes as a count or size of this machine.
pub open spec fn size_value(text: Seq<char>) -> Option<usize> {
    match number_value(text) {
        Some(number) => if number <= usize::MAX {
            Some(number as usize)
        } else {
            None
        },
        None => None,
    }
}

/// Reads a count or size as a setting gives it.
pub fn parse_size(text: &str) -> (size: Option<usize>)
    ensures
        size == size_value(text@),
{
    match parse_number(text) {
        Some(number) => if number <= usize::MAX as u64 {
            Some(number as usize)
        } else {
            None
        },
        None => None,
    }
}

/// The path that a database address names: what follows `sqlite:///`;
/// none for an address of another form.
pub open spec fn database_url_path(url: Seq<char>) -> Option<Seq<char>> {
    if "sqlite:///"@.is_prefix_of(url) {
        Some(url.skip(10))
    } else {
        None
    }
}

/// The knobs with one of them set from a text.
pub open spec fn knobs_with(knobs: Knobs, setting: Setting, value: Seq<char>) -> Result<
    Knobs,
    ConfigError,
> {
    let bad = Err::<Knobs, ConfigError>(ConfigError::InvalidSetting(setting));
    let number = number_value(value);
    let size = size_value(value);
    match setting {
        Setting::Concurrency => if size is Some {
            Ok(Knobs { concurrency: size, ..knobs })
        } else {
            bad
        },
        Setting::IoRateLimitMibPerSec => if number is Some {
            Ok(Knobs { io_rate_limit_mib_per_sec: number, ..knobs })
        } else {
            bad
        },
        Setting::DefaultHashAlgorithm => match algorithm_named(lowercased(trimmed(value))) {
            Some(algorithm) => Ok(Knobs { hash_algorithm: Some(algorithm), ..knobs }),
            None => Err(ConfigError::UnsupportedHashAlgorithm),
        },
        Setting::ScanWriteBatchSize => if size is Some {
            Ok(Knobs { scan_write_batch_size: size, ..knobs })
        } else {
            bad
        },
        Setting::HashFetchBatchSize => if size is Some {
            Ok(Knobs { hash_fetch_batch_size: size, ..knobs })
        } else {
            bad
        },
        Setting::HashReadChunkBytes => if size is Some {
            Ok(Knobs { hash_read_chunk_bytes: size, ..knobs })
        } else {
            bad
        },
        Setting::HashClaimTtlSeconds => if number is Some {
            Ok(Knobs { hash_claim_ttl_seconds: number, ..knobs })
        } else {
            bad
        },
        Setting::HashRetryBaseSeconds => if number is Some {
            Ok(Knobs { hash_retry_base_seconds: number, ..knobs })
        } else {
            bad
        },
        Setting::HashRetryMaxSeconds => if number is Some {
            Ok(Knobs { hash_retry_max_seconds: number, ..knobs })
        } else {
            bad
        },
        Setting::JobLockTtlSeconds => if number is Some {
            Ok(Knobs { job_lock_ttl_seconds: number, ..knobs })
        } else {
            bad
        },
        Setting::ThumbnailImageConcurrency => if size is Some {
            Ok(Knobs { thumbnail_image_concurrency: size, ..knobs })
        } else {
            bad
        },
        Setting::ThumbnailVideoConcurrency => if size is Some {
            Ok(Knobs { thumbnail_video_concurrency: size, ..knobs })
        } else {
            bad
        },
        Setting::ThumbnailIoRateLimitMibPerSec => if number is Some {
            Ok(Knobs { thumbnail_io_rate_limit_mib_per_sec: number, ..knobs })
        } else {
            bad
        },
        Setting::ThumbnailRetryBaseSeconds => if number is Some {
            Ok(Knobs { thumbnail_retry_base_seconds: number, ..knobs })
        } else {
            bad
        },
        Setting::ThumbnailRetryMaxSeconds => if number is Some {
            Ok(Knobs { thumbnail_retry_max_seconds: number, ..knobs })
        } else {
            bad
        },
        Setting::ThumbnailFfmpegTimeoutSeconds => if number is Some {
            Ok(Knobs { thumbnail_ffmpeg_timeout_seconds: number, ..knobs })
        } else {
            bad
        },
        Setting::ThumbnailMaxDimension => if size is Some {
            Ok(Knobs { thumbnail_max_dimension: size, ..knobs })
        } else {
            bad
        },
        Setting::PollSeconds => if number is Some {
            Ok(Knobs { rust_worker_poll_seconds: number, ..knobs })
        } else {
            bad
        },
        Setting::MaxPollSeconds => if number is Some {
            Ok(Knobs { rust_worker_max_poll_seconds: number, ..knobs })
        } else {
            bad
        },
        Setting::PollJitterMillis => if number is Some {
            Ok(Knobs { rust_worker_poll_jitter_millis: number, ..knobs })
        } else {
            bad
        },
        Setting::WalCheckpointRetrySeconds => if number is Some {
            Ok(Knobs { wal_checkpoint_retry_seconds: number, ..knobs })
        } else {
            bad
        },
        _ => Ok(knobs),
    }
}

impl PartialConfigView {
    /// The configuration with one setting taken from outside. A state root
    /// from outside also places the database in it, and the thumbs under it
    /// unless their place is set; a database address of another form than
    /// `sqlite:///` changes nothing.
    pub open spec fn with_setting(self, setting: Setting, value: Seq<char>) -> Result<
        PartialConfigView,
        ConfigError,
    > {
        match setting {
            Setting::LibrariesRoot => Ok(PartialConfigView { libraries_root: Some(value), ..self }),
            Setting::StateRoot => Ok(
                PartialConfigView {
                    state_root: Some(value),
                    database_path: Some(joined_path(value, "dedupfs.sqlite3"@)),
                    thumbs_root: if self.thumbs_root is None {
                        Some(joined_path(value, "thumbs"@))
                    } else {
                        self.thumbs_root
                    },
                    ..self
                },
            ),
            Setting::ThumbsRoot => Ok(PartialConfigView { thumbs_root: Some(value), ..self }),
            Setting::DatabaseUrl => match database_url_path(value) {
                Some(path) => Ok(PartialConfigView { database_path: Some(path), ..self }),
                None => Ok(self),
            },
            Setting::ThumbnailFfmpegBin => Ok(
                PartialConfigView { thumbnail_ffmpeg_bin: Some(value), ..self },
            ),
            _ => match knobs_with(self.knobs, setting, value) {
                Ok(knobs) => Ok(PartialConfigView { knobs, ..self }),
                Err(fault) => Err(fault),
            },
        }
    }
}

/// A setting with the value given for it from outside.
#[derive(Debug)]
pub struct SettingValue {
    pub setting: Setting,
    pub value: String,
}

/// The configuration with the settings from outside taken one after the
/// other; the first value that is refused ends it.
pub open spec fn with_settings(partial: PartialConfigView, values: Seq<SettingValue>) -> Result<
    PartialConfigView,
    ConfigError,
>
    decreases values.len(),
{
    if values.len() == 0 {
        Ok(partial)
    } else {
        match with_settings(partial, values.drop_last()) {
            Ok(before) => before.with_setting(values.last().setting, values.last().value@),
            Err(fault) => Err(fault),
        }
    }
}

impl PartialWorkerConfig {
    /// A configuration in which nothing is set.
    pub fn new() -> (partial: PartialWorkerConfig)
        ensures
            partial@ == (PartialConfigView {
                state_root: None,
                libraries_root: None,
                database_path: None,
                thumbs_root: None,
                thumbnail_ffmpeg_bin: None,
                knobs: no_knobs(),
            }),
    {
        PartialWorkerConfig {
            state_root: None,
            libraries_root: None,
            database_path: None,
            thumbs_root: None,
            thumbnail_ffmpeg_bin: None,
            knobs: Knobs {
                concurrency: None,
                io_rate_limit_mib_per_sec: None,
                hash_algorithm: None,
                scan_write_batch_size: None,
                hash_fetch_batch_size: None,
                hash_read_chunk_bytes: None,
                hash_claim_ttl_seconds: None,
                hash_retry_base_seconds: None,
                hash_retry_max_seconds: None,
                job_lock_ttl_seconds: None,
                thumbnail_image_concurrency: None,
                thumbnail_video_concurrency: None,
                thumbnail_io_rate_limit_mib_per_sec: None,
                thumbnail_retry_base_seconds: None,
                thumbnail_retry_max_seconds: None,
                thumbnail_ffmpeg_timeout_seconds: None,
                thumbnail_max_dimension: None,
                rust_worker_poll_seconds: None,
                rust_worker_max_poll_seconds: None,
                rust_worker_poll_jitter_millis: None,
                wal_checkpoint_retry_seconds: None,
            },
        }
    }

    /// Takes one setting from outside; a value that is refused leaves the
    /// configuration as it is.
    pub fn apply(&mut self, setting: Setting, value: &str) -> (result: Result<(), ConfigError>)
        ensures
            match old(self)@.with_setting(setting, value@) {
                Ok(after) => result is Ok && final(self)@ == after,
                Err(fault) => result == Err::<(), ConfigError>(fault) && final(self)@ == old(self)@,
            },
    {
        match setting {
            Setting::LibrariesRoot => {
                self.libraries_root = Some(String::from_str(value));
            },
            Setting::StateRoot => {
                self.state_root = Some(String::from_str(value));
                self.database_path = Some(join_under(value, "dedupfs.sqlite3"));
                if self.thumbs_root.is_none() {
                    self.thumbs_root = Some(join_under(value, "thumbs"));
                }
            },
            Setting::ThumbsRoot => {
                self.thumbs_root = Some(String::from_str(value));
            },
            Setting::DatabaseUrl => {
                match strip_database_scheme(value) {
                    Some(path) => {
                        self.database_path = Some(path);
                    },
                    None => {},
                }
            },
            Setting::ThumbnailFfmpegBin => {
                self.thumbnail_ffmpeg_bin = Some(String::from_str(value));
            },
            Setting::DefaultHashAlgorithm => {
                match HashAlgorithm::parse(value) {
                    Ok(algorithm) => {
                        self.knobs.hash_algorithm = Some(algorithm);
                    },
                    Err(fault) => {
                        return Err(fault);
                    },
                }
            },
            Setting::Concurrency => {
                match parse_size(value) {
                    Some(size) => {
                        self.knobs.concurrency = Some(size);
                    },
                    None => {
                        return Err(ConfigError::InvalidSetting(setting));
                    },
                }
            },
            Setting::ScanWriteBatchSize => {
                match parse_size(value) {
                    Some(size) => {
                        self.knobs.scan_write_batch_size = Some(size);
                    },
                    None => {
                        return Err(ConfigError::InvalidSetting(setting));
                    },
                }
            },
            Setting::HashFetchBatchSize => {
                match parse_size(value) {
                    Some(size) => {
                        self.knobs.hash_fetch_batch_size = Some(size);
                    },
                    None => {
                        return Err(ConfigError::InvalidSetting(setting));
                    },
                }
            },
            Setting::HashReadChunkBytes => {
                match parse_size(value) {
                    Some(size) => {
                        self.knobs.hash_read_chunk_bytes = Some(size);
                    },
                    None => {
                        return Err(ConfigError::InvalidSetting(setting));
                    },
                }
            },
            Setting::ThumbnailImageConcurrency => {
                match parse_size(value) {
                    Some(size) => {
                        self.knobs.thumbnail_image_concurrency = Some(size);
                    },
                    None => {
                        return Err(ConfigError::InvalidSetting(setting));
                    },
                }
            },
            Setting::ThumbnailVideoConcurrency => {
                match parse_size(value) {
                    Some(size) => {
                        self.knobs.thumbnail_video_concurrency = Some(size);
                    },
                    None => {
                        return Err(ConfigError::InvalidSetting(setting));
                    },
                }
            },
            Setting::ThumbnailMaxDimension => {
                match parse_size(value) {
                    Some(size) => {
                        self.knobs.thumbnail_max_dimension = Some(size);
                    },
                    None => {
                        return Err(ConfigError::InvalidSetting(setting));
                    },
                }
            },
            _ => {
                let number = match parse_number(value) {
                    Some(number) => number,
                    None => {
                        return Err(ConfigError::InvalidSetting(setting));
                    },
                };
                match setting {
                    Setting::IoRateLimitMibPerSec => {
                        self.knobs.io_rate_limit_mib_per_sec = Some(number);
                    },
                    Setting::HashClaimTtlSeconds => {
                        self.knobs.hash_claim_ttl_seconds = Some(number);
                    },
                    Setting::HashRetryBaseSeconds => {
                        self.knobs.hash_retry_base_seconds = Some(number);
                    },
                    Setting::HashRetryMaxSeconds => {
                        self.knobs.hash_retry_max_seconds = Some(number);
                    },
                    Setting::JobLockTtlSeconds => {
                        self.knobs.job_lock_ttl_seconds = Some(number);
                    },
                    Setting::ThumbnailIoRateLimitMibPerSec => {
                        self.knobs.thumbnail_io_rate_limit_mib_per_sec = Some(number);
                    },
                    Setting::ThumbnailRetryBaseSeconds => {
                        self.knobs.thumbnail_retry_base_seconds = Some(number);
                    },
                    Setting::ThumbnailRetryMaxSeconds => {
                        self.knobs.thumbnail_retry_max_seconds = Some(number);
                    },
                    Setting::ThumbnailFfmpegTimeoutSeconds => {
                        self.knobs.thumbnail_ffmpeg_timeout_seconds = Some(number);
                    },
                    Setting::PollSeconds => {
                        self.knobs.rust_worker_poll_seconds = Some(number);
                    },
                    Setting::MaxPollSeconds => {
                        self.knobs.rust_worker_max_poll_seconds = Some(number);
                    },
                    Setting::PollJitterMillis => {
                        self.knobs.rust_worker_poll_jitter_millis = Some(number);
                    },
                    _ => {
                        self.knobs.wal_checkpoint_retry_seconds = Some(number);
                    },
                }
            },
        }
        Ok(())
    }
}

/// The path that a database address names.
pub fn strip_database_scheme(url: &str) -> (path: Option<String>)
    ensures
        text_view(path) == database_url_path(url@),
{
    let chars = chars_of(url);
    let scheme = chars_of("sqlite:///");
    proof {
        reveal_strlit("sqlite:///");
    }
    if chars.len() < scheme.len() {
        return None;
    }
    let mut i: usize = 0;
    while i < scheme.len()
        invariant
            i <= scheme.len() <= chars.len(),
            scheme@ == "sqlite:///"@,
            chars@ == url@,
            forall|j: int| 0 <= j < i ==> chars@[j] == scheme@[j],
        decreases scheme.len() - i,
    {
        if chars[i] != scheme[i] {
            assert(url@.subrange(0, scheme@.len() as int)[i as int] != scheme@[i as int]);
            return None;
        }
        i += 1;
    }
    assert(scheme@ =~= url@.subrange(0, scheme@.len() as int));
    let path = crate::text::text_of_range(&chars, scheme.len(), chars.len());
    assert(url@.skip(10) =~= chars@.subrange(10, chars@.len() as int));
    Some(path)
}

/// Takes the settings that were given from outside into a configuration,
/// one after the other; the first value that is refused ends it.
pub fn apply_environment(partial: &mut PartialWorkerConfig, values: &Vec<SettingValue>) -> (result:
    Result<(), ConfigError>)
    ensures
        match with_settings(old(partial)@, values@) {
            Ok(after) => result is Ok && final(partial)@ == after,
            Err(fault) => result == Err::<(), ConfigError>(fault),
        },
{
    let mut i: usize = 0;
    assert(values@.take(0) =~= Seq::<SettingValue>::empty());
    while i < values.len()
        invariant
            i <= values.len(),
            with_settings(old(partial)@, values@.take(i as int)) == Ok::<
                PartialConfigView,
                ConfigError,
            >(partial@),
        decreases values.len() - i,
    {
        proof {
            assert(values@.take(i + 1).drop_last() =~= values@.take(i as int));
            assert(values@.take(i + 1).last() == values@[i as int]);
        }
        match partial.apply(values[i].setting, values[i].value.as_str()) {
            Ok(_) => {},
            Err(fault) => {
                proof {
                    lemma_settings_fault_stays(old(partial)@, values@, i + 1);
                }
                return Err(fault);
            },
        }
        i += 1;
    }
    assert(values@.take(values@.len() as int) =~= values@);
    Ok(())
}

/// A value that is refused among the first settings is the fault of all of
/// them.
proof fn lemma_settings_fault_stays(partial: PartialConfigView, values: Seq<SettingValue>, n: int)
    requires
        0 <= n <= values.len(),
        with_settings(partial, values.take(n)) is Err,
    ensures
        with_settings(partial, values) == with_settings(partial, values.take(n)),
    decreases values.len() - n,
{
    if n < values.len() {
        assert(values.take(n + 1).drop_last() =~= values.take(n));
        lemma_settings_fault_stays(partial, values, n + 1);
    } else {
        assert(values.take(n) =~= values);
    }
}

/// The name of the variable of the environment that gives a setting.
pub open spec fn variable_name(setting: Setting) -> Seq<char> {
    match setting {
        Setting::LibrariesRoot => "DEDUPFS_LIBRARIES_ROOT"@,
        Setting::StateRoot => "DEDUPFS_STATE_ROOT"@,
        Setting::ThumbsRoot => "DEDUPFS_THUMBS_ROOT"@,
        Setting::DatabaseUrl => "DEDUPFS_DATABASE_URL"@,
        Setting::Concurrency => "DEDUPFS_RUST_WORKER_CONCURRENCY"@,
        Setting::IoRateLimitMibPerSec => "DEDUPFS_RUST_WORKER_IO_RATE_LIMIT_MIB_PER_SEC"@,
        Setting::DefaultHashAlgorithm => "DEDUPFS_DEFAULT_HASH_ALGORITHM"@,
        Setting::ScanWriteBatchSize => "DEDUPFS_SCAN_WRITE_BATCH_SIZE"@,
        Setting::HashFetchBatchSize => "DEDUPFS_HASH_FETCH_BATCH_SIZE"@,
        Setting::HashReadChunkBytes => "DEDUPFS_HASH_READ_CHUNK_BYTES"@,
        Setting::HashClaimTtlSeconds => "DEDUPFS_HASH_CLAIM_TTL_SECONDS"@,
        Setting::HashRetryBaseSeconds => "DEDUPFS_HASH_RETRY_BASE_SECONDS"@,
        Setting::HashRetryMaxSeconds => "DEDUPFS_HASH_RETRY_MAX_SECONDS"@,
        Setting::JobLockTtlSeconds => "DEDUPFS_JOB_LOCK_TTL_SECONDS"@,
        Setting::ThumbnailImageConcurrency => "DEDUPFS_THUMBNAIL_IMAGE_CONCURRENCY"@,
        Setting::ThumbnailVideoConcurrency => "DEDUPFS_THUMBNAIL_VIDEO_CONCURRENCY"@,
        Setting::ThumbnailIoRateLimitMibPerSec => "DEDUPFS_THUMBNAIL_IO_RATE_LIMIT_MIB_PER_SEC"@,
        Setting::ThumbnailRetryBaseSeconds => "DEDUPFS_THUMBNAIL_RETRY_BASE_SECONDS"@,
        Setting::ThumbnailRetryMaxSeconds => "DEDUPFS_THUMBNAIL_RETRY_MAX_SECONDS"@,
        Setting::ThumbnailFfmpegBin => "DEDUPFS_THUMBNAIL_FFMPEG_BIN"@,
        Setting::ThumbnailFfmpegTimeoutSeconds => "DEDUPFS_THUMBNAIL_FFMPEG_TIMEOUT_SECONDS"@,
        Setting::ThumbnailMaxDimension => "DEDUPFS_THUMBNAIL_MAX_DIMENSION"@,
        Setting::PollSeconds => "DEDUPFS_RUST_WORKER_POLL_SECONDS"@,
        Setting::MaxPollSeconds => "DEDUPFS_RUST_WORKER_MAX_POLL_SECONDS"@,
        Setting::PollJitterMillis => "DEDUPFS_RUST_WORKER_POLL_JITTER_MILLIS"@,
        Setting::WalCheckpointRetrySeconds => "DEDUPFS_WAL_CHECKPOINT_RETRY_SECONDS"@,
    }
}

/// The name of the variable of the environment that gives a setting.
pub fn setting_variable(setting: Setting) -> (name: &'static str)
    ensures
        name@ == variable_name(setting),
{
    match setting {
        Setting::LibrariesRoot => "DEDUPFS_LIBRARIES_ROOT",
        Setting::StateRoot => "DEDUPFS_STATE_ROOT",
        Setting::ThumbsRoot => "DEDUPFS_THUMBS_ROOT",
        Setting::DatabaseUrl => "DEDUPFS_DATABASE_URL",
        Setting::Concurrency => "DEDUPFS_RUST_WORKER_CONCURRENCY",
        Setting::IoRateLimitMibPerSec => "DEDUPFS_RUST_WORKER_IO_RATE_LIMIT_MIB_PER_SEC",
        Setting::DefaultHashAlgorithm => "DEDUPFS_DEFAULT_HASH_ALGORITHM",
        Setting::ScanWriteBatchSize => "DEDUPFS_SCAN_WRITE_BATCH_SIZE",
        Setting::HashFetchBatchSize => "DEDUPFS_HASH_FETCH_BATCH_SIZE",
        Setting::HashReadChunkBytes => "DEDUPFS_HASH_READ_CHUNK_BYTES",
        Setting::HashClaimTtlSeconds => "DEDUPFS_HASH_CLAIM_TTL_SECONDS",
        Setting::HashRetryBaseSeconds => "DEDUPFS_HASH_RETRY_BASE_SECONDS",
        Setting::HashRetryMaxSeconds => "DEDUPFS_HASH_RETRY_MAX_SECONDS",
        Setting::JobLockTtlSeconds => "DEDUPFS_JOB_LOCK_TTL_SECONDS",
        Setting::ThumbnailImageConcurrency => "DEDUPFS_THUMBNAIL_IMAGE_CONCURRENCY",
        Setting::ThumbnailVideoConcurrency => "DEDUPFS_THUMBNAIL_VIDEO_CONCURRENCY",
        Setting::ThumbnailIoRateLimitMibPerSec => "DEDUPFS_THUMBNAIL_IO_RATE_LIMIT_MIB_PER_SEC",
        Setting::ThumbnailRetryBaseSeconds => "DEDUPFS_THUMBNAIL_RETRY_BASE_SECONDS",
        Setting::ThumbnailRetryMaxSeconds => "DEDUPFS_THUMBNAIL_RETRY_MAX_SECONDS",
        Setting::ThumbnailFfmpegBin => "DEDUPFS_THUMBNAIL_FFMPEG_BIN",
        Setting::ThumbnailFfmpegTimeoutSeconds => "DEDUPFS_THUMBNAIL_FFMPEG_TIMEOUT_SECONDS",
        Setting::ThumbnailMaxDimension => "DEDUPFS_THUMBNAIL_MAX_DIMENSION",
        Setting::PollSeconds => "DEDUPFS_RUST_WORKER_POLL_SECONDS",
        Setting::MaxPollSeconds => "DEDUPFS_RUST_WORKER_MAX_POLL_SECONDS",
        Setting::PollJitterMillis => "DEDUPFS_RUST_WORKER_POLL_JITTER_MILLIS",
        Setting::WalCheckpointRetrySeconds => "DEDUPFS_WAL_CHECKPOINT_RETRY_SECONDS",
    }
}

/// The settings in the order in which they are taken from the environment.
pub open spec fn setting_order() -> Seq<Setting> {
    seq![
        Setting::LibrariesRoot,
        Setting::StateRoot,
        Setting::ThumbsRoot,
        Setting::DatabaseUrl,
        Setting::Concurrency,
        Setting::IoRateLimitMibPerSec,
        Setting::DefaultHashAlgorithm,
        Setting::ScanWriteBatchSize,
        Setting::HashFetchBatchSize,
        Setting::HashReadChunkBytes,
        Setting::HashClaimTtlSeconds,
        Setting::HashRetryBaseSeconds,
        Setting::HashRetryMaxSeconds,
        Setting::JobLockTtlSeconds,
        Setting::ThumbnailImageConcurrency,
        Setting::ThumbnailVideoConcurrency,
        Setting::ThumbnailIoRateLimitMibPerSec,
        Setting::ThumbnailRetryBaseSeconds,
        Setting::ThumbnailRetryMaxSeconds,
        Setting::ThumbnailFfmpegBin,
        Setting::ThumbnailFfmpegTimeoutSeconds,
        Setting::ThumbnailMaxDimension,
        Setting::PollSeconds,
        Setting::MaxPollSeconds,
        Setting::PollJitterMillis,
        Setting::WalCheckpointRetrySeconds,
    ]
}

/// The settings in the order in which they are taken from the environment.
pub fn all_settings() -> (settings: Vec<Setting>)
    ensures
        settings@ == setting_order(),
{
    let mut settings: Vec<Setting> = Vec::new();
    settings.push(Setting::LibrariesRoot);
    settings.push(Setting::StateRoot);
    settings.push(Setting::ThumbsRoot);
    settings.push(Setting::DatabaseUrl);
    settings.push(Setting::Concurrency);
    settings.push(Setting::IoRateLimitMibPerSec);
    settings.push(Setting::DefaultHashAlgorithm);
    settings.push(Setting::ScanWriteBatchSize);
    settings.push(Setting::HashFetchBatchSize);
    settings.push(Setting::HashReadChunkBytes);
    settings.push(Setting::HashClaimTtlSeconds);
    settings.push(Setting::HashRetryBaseSeconds);
    settings.push(Setting::HashRetryMaxSeconds);
    settings.push(Setting::JobLockTtlSeconds);
    settings.push(Setting::ThumbnailImageConcurrency);
    settings.push(Setting::ThumbnailVideoConcurrency);
    settings.push(Setting::ThumbnailIoRateLimitMibPerSec);
    settings.push(Setting::ThumbnailRetryBaseSeconds);
    settings.push(Setting::ThumbnailRetryMaxSeconds);
    settings.push(Setting::ThumbnailFfmpegBin);
    settings.push(Setting::ThumbnailFfmpegTimeoutSeconds);
    settings.push(Setting::ThumbnailMaxDimension);
    settings.push(Setting::PollSeconds);
    settings.push(Setting::MaxPollSeconds);
    settings.push(Setting::PollJitterMillis);
    settings.push(Setting::WalCheckpointRetrySeconds);
    assert(settings@ =~= setting_order());
    settings
}

/// A text that is set, or the default.
pub open spec fn text_or(value: Option<Seq<char>>, default: Seq<char>) -> Seq<char> {
    match value {
        Some(text) => text,
        None => default,
    }
}

/// A count that is set, or the default, and at least the floor.
pub open spec fn size_or(value: Option<usize>, default: usize, floor: usize) -> usize {
    let given = match value {
        Some(size) => size,
        None => default,
    };
    if given < floor {
        floor
    } else {
        given
    }
}

/// A number that is set, or the default, and at least the floor.
pub open spec fn number_or(value: Option<u64>, default: u64, floor: u64) -> u64 {
    let given = match value {
        Some(number) => number,
        None => default,
    };
    if given < floor {
        floor
    } else {
        given
    }
}

/// A count that is set, or the default, and at least the floor.
pub fn resolve_size(value: Option<usize>, default: usize, floor: usize) -> (size: usize)
    ensures
        size == size_or(value, default, floor),
{
    let given = match value {
        Some(size) => size,
        None => default,
    };
    if given < floor {
        floor
    } else {
        given
    }
}

/// A number that is set, or the default, and at least the floor.
pub fn resolve_number(value: Option<u64>, default: u64, floor: u64) -> (number: u64)
    ensures
        number == number_or(value, default, floor),
{
    let given = match value {
        Some(number) => number,
        None => default,
    };
    if given < floor {
        floor
    } else {
        given
    }
}

/// Where a configuration places its roots and its database, before any of
/// it is looked up on disk.
#[derive(Debug)]
pub struct RootPlan {
    pub libraries_root: String,
    pub database_path: String,
    pub state_root: String,
    pub thumbs_root: String,
}

/// Where a configuration places the libraries root.
pub open spec fn planned_libraries_root(partial: PartialConfigView) -> Seq<char> {
    text_or(partial.libraries_root, "/libraries"@)
}

/// Where a configuration places the database.
pub open spec fn planned_database_path(partial: PartialConfigView) -> Seq<char> {
    text_or(partial.database_path, "/state/dedupfs.sqlite3"@)
}

/// Where a configuration places the state root.
pub open spec fn planned_state_root(partial: PartialConfigView) -> Seq<char> {
    text_or(partial.state_root, "/state"@)
}

/// Where a configuration places the thumbs root.
pub open spec fn planned_thumbs_root(partial: PartialConfigView) -> Seq<char> {
    text_or(partial.thumbs_root, "/state/thumbs"@)
}

/// Why the places of a configuration are refused, if they are: the
/// libraries root has to be `/libraries`, the database, the state root and
/// the thumbs root have to be absolute, and the database has to lie under the
/// state root.
pub open spec fn root_plan_fault(partial: PartialConfigView) -> Option<ConfigError> {
    if !is_absolute(planned_libraries_root(partial)) {
        Some(ConfigError::LibrariesRootNotAbsolute)
    } else if planned_libraries_root(partial) != "/libraries"@ {
        Some(ConfigError::LibrariesRootMisplaced)
    } else if !is_absolute(planned_database_path(partial)) {
        Some(ConfigError::DatabasePathNotAbsolute)
    } else if !is_absolute(planned_state_root(partial)) {
        Some(ConfigError::StateRootNotAbsolute)
    } else if !path_has_prefix(planned_database_path(partial), planned_state_root(partial)) {
        Some(ConfigError::DatabaseOutsideStateRoot)
    } else if !is_absolute(planned_thumbs_root(partial)) {
        Some(ConfigError::ThumbsRootNotAbsolute)
    } else {
        None
    }
}

/// A text that is set, or the default.
fn resolve_text(value: &Option<String>, default: &str) -> (text: String)
    ensures
        text@ == text_or(text_view(*value), default@),
{
    match value {
        Some(text) => text.clone(),
        None => String::from_str(default),
    }
}

/// Whether a path starts at the root.
fn starts_at_root(path: &str) -> (absolute: bool)
    ensures
        absolute == is_absolute(path@),
{
    let chars = chars_of(path);
    chars.len() > 0 && chars[0] == '/'
}

/// Settles where a configuration places its roots and its database.
pub fn plan_roots(partial: &PartialWorkerConfig) -> (result: Result<RootPlan, ConfigError>)
    ensures
        match result {
            Ok(plan) => {
                &&& root_plan_fault(partial@) is None
                &&& plan.libraries_root@ == planned_libraries_root(partial@)
                &&& plan.database_path@ == planned_database_path(partial@)
                &&& plan.state_root@ == planned_state_root(partial@)
                &&& plan.thumbs_root@ == planned_thumbs_root(partial@)
            },
            Err(fault) => root_plan_fault(partial@) == Some(fault),
        },
{
    let libraries_root = resolve_text(&partial.libraries_root, "/libraries");
    if !starts_at_root(libraries_root.as_str()) {
        return Err(ConfigError::LibrariesRootNotAbsolute);
    }
    if !text_equal(libraries_root.as_str(), "/libraries") {
        return Err(ConfigError::LibrariesRootMisplaced);
    }
    let database_path = resolve_text(&partial.database_path, "/state/dedupfs.sqlite3");
    if !starts_at_root(database_path.as_str()) {
        return Err(ConfigError::DatabasePathNotAbsolute);
    }
    let state_root = resolve_text(&partial.state_root, "/state");
    if !starts_at_root(state_root.as_str()) {
        return Err(ConfigError::StateRootNotAbsolute);
    }
    if !path_starts_with(database_path.as_str(), state_root.as_str()) {
        return Err(ConfigError::DatabaseOutsideStateRoot);
    }
    let thumbs_root = resolve_text(&partial.thumbs_root, "/state/thumbs");
    if !starts_at_root(thumbs_root.as_str()) {
        return Err(ConfigError::ThumbsRootNotAbsolute);
    }
    Ok(RootPlan { libraries_root, database_path, state_root, thumbs_root })
}

/// What the disk told of the planned roots.
#[derive(Debug)]
pub struct RootFacts {
    /// The libraries root as resolved on disk, where it could be resolved.
    pub libraries_root_real: Option<String>,
    /// Whether what the libraries root resolved to is a directory.
    pub libraries_is_dir: bool,
    /// The state root as resolved on disk, after it was made.
    pub state_root_real: String,
    pub state_is_dir: bool,
    /// The thumbs root as resolved on disk, after it was made.
    pub thumbs_root_real: String,
    pub thumbs_is_dir: bool,
}

/// The worker id that was asked for, where it is not blank.
pub open spec fn asked_worker_id(asked: Option<Seq<char>>) -> Option<Seq<char>> {
    match asked {
        Some(text) => if trimmed(text).len() > 0 {
            Some(trimmed(text))
        } else {
            None
        },
        None => None,
    }
}

/// Why a configuration is refused once its roots were looked up on disk,
/// if it is.
pub open spec fn resolve_fault(
    partial: PartialConfigView,
    facts: RootFacts,
    asked_id: Option<Seq<char>>,
) -> Option<ConfigError> {
    if facts.libraries_root_real is Some && !facts.libraries_is_dir {
        Some(ConfigError::LibrariesRootNotDirectory)
    } else if !facts.state_is_dir {
        Some(ConfigError::StateRootNotDirectory)
    } else if !facts.thumbs_is_dir {
        Some(ConfigError::ThumbsRootNotDirectory)
    } else if !path_has_prefix(facts.thumbs_root_real@, facts.state_root_real@) {
        Some(ConfigError::ThumbsRootOutsideStateRoot)
    } else if asked_id is Some && asked_worker_id(asked_id) is None {
        Some(ConfigError::BlankWorkerId)
    } else if trimmed(text_or(partial.thumbnail_ffmpeg_bin, "ffmpeg"@)).len() == 0 {
        Some(ConfigError::BlankFfmpegBinary)
    } else {
        None
    }
}

/// Whether a worker id is one that a worker gives itself: `rust-worker-`
/// and ten letters and digits.
pub open spec fn is_generated_worker_id(id: Seq<char>) -> bool {
    exists|suffix: Seq<char>|
        suffix.len() == 10 && is_alphanumeric_text(suffix) && id == "rust-worker-"@ + suffix
}

/// Whether a configuration is what the given one resolves to: every place
/// as planned and found on disk, every number as set or at its default and
/// not below its floor, the retry and poll ceilings not below their floors'
/// values.
pub open spec fn is_resolved_from(
    config: WorkerConfig,
    partial: PartialConfigView,
    plan: RootPlan,
    facts: RootFacts,
    asked_id: Option<Seq<char>>,
) -> bool {
    let knobs = partial.knobs;
    &&& config.libraries_root@ == plan.libraries_root@
    &&& config.libraries_root_real@ == text_or(
        text_view(facts.libraries_root_real),
        plan.libraries_root@,
    )
    &&& config.database_path@ == plan.database_path@
    &&& config.thumbs_root_real@ == facts.thumbs_root_real@
    &&& config.concurrency == size_or(knobs.concurrency, 4, 1)
    &&& config.io_rate_limit_mib_per_sec == knobs.io_rate_limit_mib_per_sec
    &&& config.hash_algorithm == match knobs.hash_algorithm {
        Some(algorithm) => algorithm,
        None => HashAlgorithm::Blake3,
    }
    &&& config.scan_write_batch_size == size_or(knobs.scan_write_batch_size, 2000, 1)
    &&& config.hash_fetch_batch_size == size_or(knobs.hash_fetch_batch_size, 512, 1)
    &&& config.hash_read_chunk_bytes == size_or(knobs.hash_read_chunk_bytes, 4194304, 1024)
    &&& config.hash_claim_ttl_seconds == number_or(knobs.hash_claim_ttl_seconds, 600, 1)
    &&& config.hash_retry_base_seconds == number_or(knobs.hash_retry_base_seconds, 30, 1)
    &&& config.hash_retry_max_seconds == number_or(
        knobs.hash_retry_max_seconds,
        3600,
        config.hash_retry_base_seconds,
    )
    &&& config.job_lock_ttl_seconds == number_or(knobs.job_lock_ttl_seconds, 300, 1)
    &&& config.thumbnail_image_concurrency == size_or(knobs.thumbnail_image_concurrency, 2, 1)
    &&& config.thumbnail_video_concurrency == size_or(knobs.thumbnail_video_concurrency, 1, 1)
    &&& config.thumbnail_io_rate_limit_mib_per_sec == knobs.thumbnail_io_rate_limit_mib_per_sec
    &&& config.thumbnail_retry_base_seconds == number_or(knobs.thumbnail_retry_base_seconds, 30, 1)
    &&& config.thumbnail_retry_max_seconds == number_or(
        knobs.thumbnail_retry_max_seconds,
        1800,
        config.thumbnail_retry_base_seconds,
    )
    &&& config.thumbnail_ffmpeg_bin@ == trimmed(text_or(partial.thumbnail_ffmpeg_bin, "ffmpeg"@))
    &&& config.thumbnail_ffmpeg_timeout_seconds == number_or(
        knobs.thumbnail_ffmpeg_timeout_seconds,
        120,
        1,
    )
    &&& config.thumbnail_max_dimension == size_or(knobs.thumbnail_max_dimension, 256, 16)
    &&& config.rust_worker_poll_seconds == number_or(knobs.rust_worker_poll_seconds, 5, 1)
    &&& config.rust_worker_max_poll_seconds == number_or(
        knobs.rust_worker_max_poll_seconds,
        30,
        config.rust_worker_poll_seconds,
    )
    &&& config.rust_worker_poll_jitter_millis == number_or(
        knobs.rust_worker_poll_jitter_millis,
        250,
        0,
    )
    &&& config.wal_checkpoint_retry_seconds == number_or(knobs.wal_checkpoint_retry_seconds, 120, 1)
    &&& match asked_worker_id(asked_id) {
        Some(id) => config.worker_id@ == id,
        None => is_generated_worker_id(config.worker_id@),
    }
}

/// A worker id for a worker that was given none: `rust-worker-` and ten
/// letters and digits drawn at random.
pub fn generate_worker_id() -> (id: String)
    ensures
        is_generated_worker_id(id@),
{
    let suffix = random_alphanumeric(10);
    let mut id = String::from_str("rust-worker-");
    id.append(suffix.as_str());
    id
}

impl WorkerConfig {
    /// Resolves a configuration once its roots were looked up on disk:
    /// the libraries root, where it exists, the state root and the thumbs
    /// root have to be directories, and the thumbs root has to lie under the
    /// state root. A worker id that is asked for may not be blank; a worker
    /// that is given none gives itself one.
    pub fn resolve(
        partial: &PartialWorkerConfig,
        plan: RootPlan,
        facts: RootFacts,
        worker_id_override: Option<&str>,
    ) -> (result: Result<WorkerConfig, ConfigError>)
        ensures
            match result {
                Ok(config) => {
                    &&& resolve_fault(partial@, facts, borrowed_text(worker_id_override))
                        is None
                    &&& is_resolved_from(
                        config,
                        partial@,
                        plan,
                        facts,
                        borrowed_text(worker_id_override),
                    )
                },
                Err(fault) => resolve_fault(
                    partial@,
                    facts,
                    borrowed_text(worker_id_override),
                ) == Some(fault),
            },
    {
        if facts.libraries_root_real.is_some() && !facts.libraries_is_dir {
            return Err(ConfigError::LibrariesRootNotDirectory);
        }
        if !facts.state_is_dir {
            return Err(ConfigError::StateRootNotDirectory);
        }
        if !facts.thumbs_is_dir {
            return Err(ConfigError::ThumbsRootNotDirectory);
        }
        if !path_starts_with(facts.thumbs_root_real.as_str(), facts.state_root_real.as_str()) {
            return Err(ConfigError::ThumbsRootOutsideStateRoot);
        }
        let worker_id = match worker_id_override {
            Some(asked) => {
                let id = trim_text(asked);
                if id.unicode_len() == 0 {
                    return Err(ConfigError::BlankWorkerId);
                }
                String::from_str(id)
            },
            None => generate_worker_id(),
        };
        let ffmpeg_given = resolve_text(&partial.thumbnail_ffmpeg_bin, "ffmpeg");
        let ffmpeg_bin = trim_text(ffmpeg_given.as_str());
        if ffmpeg_bin.unicode_len() == 0 {
            return Err(ConfigError::BlankFfmpegBinary);
        }
        let knobs = partial.knobs;
        let libraries_root_real = match &facts.libraries_root_real {
            Some(path) => path.clone(),
            None => plan.libraries_root.clone(),
        };
        let hash_retry_base_seconds = resolve_number(knobs.hash_retry_base_seconds, 30, 1);
        let thumbnail_retry_base_seconds = resolve_number(knobs.thumbnail_retry_base_seconds, 30, 1);
        let rust_worker_poll_seconds = resolve_number(knobs.rust_worker_poll_seconds, 5, 1);
        Ok(
            WorkerConfig {
                libraries_root: plan.libraries_root,
                libraries_root_real,
                database_path: plan.database_path,
                thumbs_root_real: facts.thumbs_root_real,
                concurrency: resolve_size(knobs.concurrency, 4, 1),
                io_rate_limit_mib_per_sec: knobs.io_rate_limit_mib_per_sec,
                hash_algorithm: match knobs.hash_algorithm {
                    Some(algorithm) => algorithm,
                    None => HashAlgorithm::Blake3,
                },
                scan_write_batch_size: resolve_size(knobs.scan_write_batch_size, 2000, 1),
                hash_fetch_batch_size: resolve_size(knobs.hash_fetch_batch_size, 512, 1),
                hash_read_chunk_bytes: resolve_size(knobs.hash_read_chunk_bytes, 4194304, 1024),
                hash_claim_ttl_seconds: resolve_number(knobs.hash_claim_ttl_seconds, 600, 1),
                hash_retry_base_seconds,
                hash_retry_max_seconds: resolve_number(
                    knobs.hash_retry_max_seconds,
                    3600,
                    hash_retry_base_seconds,
                ),
                job_lock_ttl_seconds: resolve_number(knobs.job_lock_ttl_seconds, 300, 1),
                thumbnail_image_concurrency: resolve_size(knobs.thumbnail_image_concurrency, 2, 1),
                thumbnail_video_concurrency: resolve_size(knobs.thumbnail_video_concurrency, 1, 1),
                thumbnail_io_rate_limit_mib_per_sec: knobs.thumbnail_io_rate_limit_mib_per_sec,
                thumbnail_retry_base_seconds,
                thumbnail_retry_max_seconds: resolve_number(
                    knobs.thumbnail_retry_max_seconds,
                    1800,
                    thumbnail_retry_base_seconds,
                ),
                thumbnail_ffmpeg_bin: String::from_str(ffmpeg_bin),
                thumbnail_ffmpeg_timeout_seconds: resolve_number(
                    knobs.thumbnail_ffmpeg_timeout_seconds,
                    120,
                    1,
                ),
                thumbnail_max_dimension: resolve_size(knobs.thumbnail_max_dimension, 256, 16),
                rust_worker_poll_seconds,
                rust_worker_max_poll_seconds: resolve_number(
                    knobs.rust_worker_max_poll_seconds,
                    30,
                    rust_worker_poll_seconds,
                ),
                rust_worker_poll_jitter_millis: resolve_number(
                    knobs.rust_worker_poll_jitter_millis,
                    250,
                    0,
                ),
                wal_checkpoint_retry_seconds: resolve_number(
                    knobs.wal_checkpoint_retry_seconds,
                    120,
                    1,
                ),
                worker_id,
            },
        )
    }
}

} // verus!
