//! The thumbnail engine: error codes, source and output paths, the watch
//! over the frame extractor, and the lease refresher.

use crate::config::WorkerConfig;
use crate::db::{first_flagged, StoreError};
use crate::hash::{candidate_path, candidate_path_fault, metadata_mtime_ns, mtime_nanos};
use crate::io_budget::{reserve_global_io_budget, IoBucketRow};
use crate::path_safety::{
    lemma_joined_path_extends_root, lemma_prefix_is_transitive,
    lemma_validated_path_stays_under_root,
    canonical_form, file_name_of, join_under, joined_path, parent_of, path_error_text,
    path_has_prefix, path_starts_with, relative_path_fault, split_last, validate_relative_path,
    PathError,
};
use crate::text::{
    chars_of, contains_text, decimal_digits, has_substring, lowercase_text, lowercased,
    push_decimal_digits, text_equal, text_of_range, trim_text, trimmed, truncate_error_message,
    truncated_text,
};
use crate::thumbnail_queue::{
    refresh_thumbnail_lease, thumbnail_heartbeat_flags, thumbnail_views, ThumbnailRow,
    ThumbnailTaskRecord,
};
use vstd::prelude::*;
use vstd::string::StringExecFns;

verus! {

/// The code of a thumbnail error, from its message in lower case: the
/// frame extractor first, then the path policy, then decoding, else the
/// general code.
pub open spec fn thumbnail_error_code(lowered: Seq<char>) -> Seq<char> {
    if has_substring(lowered, "ffmpeg"@) {
        "THUMB_VIDEO_FFMPEG_FAILED"@
    } else if has_substring(lowered, "path"@) || has_substring(lowered, "escape"@) {
        "THUMB_PATH_POLICY_REJECTED"@
    } else if has_substring(lowered, "format"@) || has_substring(lowered, "decode"@) {
        "THUMB_DECODE_FAILED"@
    } else {
        "THUMB_GENERATION_FAILED"@
    }
}

/// Classifies a thumbnail error by its message in lower case.
pub fn classify_lowered_message(lowered: &str) -> (code: &'static str)
    ensures
        code@ == thumbnail_error_code(lowered@),
{
    if contains_text(lowered, "ffmpeg") {
        return "THUMB_VIDEO_FFMPEG_FAILED";
    }
    if contains_text(lowered, "path") || contains_text(lowered, "escape") {
        return "THUMB_PATH_POLICY_REJECTED";
    }
    if contains_text(lowered, "format") || contains_text(lowered, "decode") {
        return "THUMB_DECODE_FAILED";
    }
    "THUMB_GENERATION_FAILED"
}

/// Classifies a thumbnail error by its message, whatever the case of its
/// letters.
pub fn classify_thumbnail_error(message: &str) -> (code: &'static str)
    ensures
        code@ == thumbnail_error_code(lowercased(message@)),
{
    let lowered = lowercase_text(message);
    classify_lowered_message(lowered.as_str())
}

/// Why a thumbnail task did not succeed.
#[derive(Debug)]
pub enum ThumbnailError {
    /// The lease of the task was lost.
    LeaseRevoked { task_id: i64 },
    /// The path of the source was refused.
    SourcePath(PathError),
    /// There is no source file at the path.
    SourceMissing { path: String },
    /// The source resolves to a place outside its library root.
    SourceEscapes,
    /// The size of the source does not fit the store.
    SourceSizeOutOfRange,
    /// The source has another size than when the task was queued.
    SourceSizeChanged,
    /// The source has another modification time than when the task was
    /// queued.
    SourceMtimeChanged,
    /// The output path of the task was refused.
    InvalidOutputPath { thumb_key: String },
    /// The output path has no directory above it.
    OutputNoParent,
    /// The directory of the output resolves to a place outside the thumbs
    /// root.
    OutputDirectoryEscapes { directory: String },
    /// The output path names no file.
    OutputNoFilename,
    /// The directory of the output could not be resolved on disk.
    OutputDirectoryUnresolved { directory: String },
    /// An output path that the store holds was refused.
    InvalidStoredPath { path: String },
    /// The media type is neither image nor video.
    UnsupportedMediaType { media_type: String },
    /// The output format is neither jpeg nor webp.
    UnsupportedFormat { format: String },
    /// The frame extractor ended with an error; the text is what it wrote.
    FrameExtractionFailed { stderr: String },
    /// The frame extractor ran longer than allowed.
    FrameExtractionTimedOut { seconds: u64 },
    /// Reading, decoding or writing failed; the text says how.
    Other { message: String },
}

/// What a thumbnail error says.
pub open spec fn thumbnail_error_text(fault: ThumbnailError) -> Seq<char> {
    match fault {
        ThumbnailError::LeaseRevoked { task_id } => "thumbnail task "@ + crate::text::decimal_text(
            task_id as int,
        ) + " lease update rejected"@,
        ThumbnailError::SourcePath(inner) => path_error_text(inner),
        ThumbnailError::SourceMissing { path } => "source media file does not exist: "@ + path@,
        ThumbnailError::SourceEscapes => "source candidate path escapes library root"@,
        ThumbnailError::SourceSizeOutOfRange => "thumbnail source size over i64 range"@,
        ThumbnailError::SourceSizeChanged => "source size changed before thumbnail generation"@,
        ThumbnailError::SourceMtimeChanged => "source mtime changed before thumbnail generation"@,
        ThumbnailError::InvalidOutputPath { thumb_key } =>
            "invalid thumbnail output relative path for thumb_key "@ + thumb_key@,
        ThumbnailError::OutputNoParent => "thumbnail output path has no parent directory"@,
        ThumbnailError::OutputDirectoryEscapes { directory } =>
            "thumbnail output directory escapes thumbs root: "@ + directory@,
        ThumbnailError::OutputNoFilename => "thumbnail output path is missing filename"@,
        ThumbnailError::OutputDirectoryUnresolved { directory } =>
            "failed to resolve thumbnail output directory: "@ + directory@,
        ThumbnailError::InvalidStoredPath { path } => "invalid thumbnail relative path in DB: "@
            + path@,
        ThumbnailError::UnsupportedMediaType { media_type } => "unsupported thumbnail media_type: "@
            + media_type@,
        ThumbnailError::UnsupportedFormat { format } => "unsupported thumbnail output format: "@
            + format@,
        ThumbnailError::FrameExtractionFailed { stderr } => "ffmpeg frame extraction failed: "@
            + truncated_text(stderr@, 2048),
        ThumbnailError::FrameExtractionTimedOut { seconds } =>
            "ffmpeg frame extraction timed out after "@ + decimal_digits(seconds as nat)
                + " seconds"@,
        ThumbnailError::Other { message } => message@,
    }
}

impl ThumbnailError {
    /// What the error says.
    pub fn message(&self) -> (text: String)
        ensures
            text@ == thumbnail_error_text(*self),
    {
        match self {
            ThumbnailError::LeaseRevoked { task_id } => {
                let mut text = String::from_str("thumbnail task ");
                crate::text::push_decimal(&mut text, *task_id);
                text.append(" lease update rejected");
                text
            },
            ThumbnailError::SourcePath(inner) => String::from_str(inner.message()),
            ThumbnailError::SourceMissing { path } => {
                let mut text = String::from_str("source media file does not exist: ");
                text.append(path.as_str());
                text
            },
            ThumbnailError::SourceEscapes => String::from_str(
                "source candidate path escapes library root",
            ),
            ThumbnailError::SourceSizeOutOfRange => String::from_str(
                "thumbnail source size over i64 range",
            ),
            ThumbnailError::SourceSizeChanged => String::from_str(
                "source size changed before thumbnail generation",
            ),
            ThumbnailError::SourceMtimeChanged => String::from_str(
                "source mtime changed before thumbnail generation",
            ),
            ThumbnailError::InvalidOutputPath { thumb_key } => {
                let mut text = String::from_str(
                    "invalid thumbnail output relative path for thumb_key ",
                );
                text.append(thumb_key.as_str());
                text
            },
            ThumbnailError::OutputNoParent => String::from_str(
                "thumbnail output path has no parent directory",
            ),
            ThumbnailError::OutputDirectoryEscapes { directory } => {
                let mut text = String::from_str("thumbnail output directory escapes thumbs root: ");
                text.append(directory.as_str());
                text
            },
            ThumbnailError::OutputNoFilename => String::from_str(
                "thumbnail output path is missing filename",
            ),
            ThumbnailError::OutputDirectoryUnresolved { directory } => {
                let mut text = String::from_str("failed to resolve thumbnail output directory: ");
                text.append(directory.as_str());
                text
            },
            ThumbnailError::InvalidStoredPath { path } => {
                let mut text = String::from_str("invalid thumbnail relative path in DB: ");
                text.append(path.as_str());
                text
            },
            ThumbnailError::UnsupportedMediaType { media_type } => {
                let mut text = String::from_str("unsupported thumbnail media_type: ");
                text.append(media_type.as_str());
                text
            },
            ThumbnailError::UnsupportedFormat { format } => {
                let mut text = String::from_str("unsupported thumbnail output format: ");
                text.append(format.as_str());
                text
            },
            ThumbnailError::FrameExtractionFailed { stderr } => {
                let mut text = String::from_str("ffmpeg frame extraction failed: ");
                let cut = truncate_error_message(stderr.as_str(), 2048);
                text.append(cut.as_str());
                text
            },
            ThumbnailError::FrameExtractionTimedOut { seconds } => {
                let mut text = String::from_str("ffmpeg frame extraction timed out after ");
                push_decimal_digits(&mut text, *seconds);
                text.append(" seconds");
                text
            },
            ThumbnailError::Other { message } => message.clone(),
        }
    }
}

/// The longest side a thumbnail may have: the smaller of what the task asks
/// for and what the configuration allows, but at least 16; a task that asks
/// for a negative size gets what the configuration allows.
pub open spec fn allowed_dimension(task_max: i64, config_max: usize) -> int {
    let asked = if task_max < 0 || task_max > config_max {
        config_max as int
    } else {
        task_max as int
    };
    if asked < 16 {
        16
    } else {
        asked
    }
}

/// The longest side a thumbnail may have.
pub fn effective_max_dimension(task_max_dimension: i64, config_max_dimension: usize) -> (dimension:
    usize)
    ensures
        dimension == allowed_dimension(task_max_dimension, config_max_dimension),
{
    let asked: usize = if task_max_dimension < 0 || task_max_dimension as i128
        > config_max_dimension as i128 {
        config_max_dimension
    } else {
        task_max_dimension as usize
    };
    if asked < 16 {
        16
    } else {
        asked
    }
}

/// The format a thumbnail is written in.
#[derive(Clone, Copy, Debug, PartialEq, Eq, Structural)]
pub enum OutputFormat {
    Jpeg,
    WebP,
}

/// Reads the output format of a task.
pub fn parse_output_format(raw_format: &str) -> (result: Result<OutputFormat, ThumbnailError>)
    ensures
        match result {
            Ok(format) => (raw_format@ == "jpeg"@ && format == OutputFormat::Jpeg) || (raw_format@
                != "jpeg"@ && raw_format@ == "webp"@ && format == OutputFormat::WebP),
            Err(fault) => {
                &&& raw_format@ != "jpeg"@
                &&& raw_format@ != "webp"@
                &&& fault matches ThumbnailError::UnsupportedFormat { format }
                &&& format@ == raw_format@
            },
        },
{
    if text_equal(raw_format, "jpeg") {
        Ok(OutputFormat::Jpeg)
    } else if text_equal(raw_format, "webp") {
        Ok(OutputFormat::WebP)
    } else {
        Err(ThumbnailError::UnsupportedFormat { format: String::from_str(raw_format) })
    }
}

/// What a task renders.
#[derive(Clone, Copy, Debug, PartialEq, Eq, Structural)]
pub enum MediaType {
    Image,
    Video,
}

/// Reads the media type of a task.
pub fn parse_media_type(raw: &str) -> (result: Result<MediaType, ThumbnailError>)
    ensures
        match result {
            Ok(media) => (raw@ == "image"@ && media == MediaType::Image) || (raw@ != "image"@
                && raw@ == "video"@ && media == MediaType::Video),
            Err(fault) => {
                &&& raw@ != "image"@
                &&& raw@ != "video"@
                &&& fault matches ThumbnailError::UnsupportedMediaType { media_type }
                &&& media_type@ == raw@
            },
        },
{
    if text_equal(raw, "image") {
        Ok(MediaType::Image)
    } else if text_equal(raw, "video") {
        Ok(MediaType::Video)
    } else {
        Err(ThumbnailError::UnsupportedMediaType { media_type: String::from_str(raw) })
    }
}

/// The path at which the source of a task is looked up: its validated
/// relative path under its library root, which must lie under the libraries
/// root. `root_real` is the library root as resolved on disk.
pub fn source_path(config: &WorkerConfig, task: &ThumbnailTaskRecord, root_real: &str) -> (result:
    Result<String, ThumbnailError>)
    ensures
        match result {
            Ok(path) => {
                &&& candidate_path_fault(
                    config.libraries_root_real@,
                    root_real@,
                    task.relative_path@,
                ) is None
                &&& path@ == joined_path(root_real@, canonical_form(task.relative_path@))
                &&& path_has_prefix(path@, config.libraries_root_real@)
            },
            Err(fault) => {
                &&& fault matches ThumbnailError::SourcePath(inner)
                &&& candidate_path_fault(
                    config.libraries_root_real@,
                    root_real@,
                    task.relative_path@,
                ) == Some(inner)
            },
        },
{
    match candidate_path(config, root_real, task.relative_path.as_str()) {
        Ok(path) => Ok(path),
        Err(fault) => Err(ThumbnailError::SourcePath(fault)),
    }
}

/// Settles the source of a task once it has been looked up on disk.
/// `source_real` is the path of [`source_path`] as resolved on disk, where
/// a file exists there. The source has to exist and to resolve to a place
/// under its library root, which lies under the libraries root.
pub fn resolve_source_path(
    config: &WorkerConfig,
    task: &ThumbnailTaskRecord,
    root_real: &str,
    source_real: Option<&str>,
) -> (result: Result<String, ThumbnailError>)
    ensures
        match candidate_path_fault(config.libraries_root_real@, root_real@, task.relative_path@) {
            Some(inner) => {
                &&& result matches Err(ThumbnailError::SourcePath(fault))
                &&& fault == inner
            },
            None => match source_real {
                Some(resolved) => if path_has_prefix(resolved@, root_real@) {
                    &&& result matches Ok(path)
                    &&& path@ == resolved@
                } else {
                    result matches Err(ThumbnailError::SourceEscapes)
                },
                None => {
                    &&& result matches Err(ThumbnailError::SourceMissing { path })
                    &&& path@ == joined_path(root_real@, canonical_form(task.relative_path@))
                },
            },
        },
        result matches Ok(path) ==> path_has_prefix(path@, root_real@) && path_has_prefix(
            path@,
            config.libraries_root_real@,
        ),
{
    let candidate = match source_path(config, task, root_real) {
        Ok(candidate) => candidate,
        Err(fault) => {
            return Err(fault);
        },
    };
    match source_real {
        Some(resolved) => {
            if path_starts_with(resolved, root_real) {
                proof {
                    lemma_prefix_is_transitive(
                        resolved@,
                        root_real@,
                        config.libraries_root_real@,
                    );
                }
                Ok(String::from_str(resolved))
            } else {
                Err(ThumbnailError::SourceEscapes)
            }
        },
        None => Err(ThumbnailError::SourceMissing { path: candidate }),
    }
}

/// The first validation of a thumbnail task: the source on disk has to have
/// the size and the modification time that the task was queued with.
pub fn check_source_unchanged(
    task: &ThumbnailTaskRecord,
    size: u64,
    mtime_seconds: i64,
    mtime_nanos_part: i64,
) -> (result: Result<(), ThumbnailError>)
    ensures
        match result {
            Ok(_) => size == task.source_size_bytes && mtime_nanos(mtime_seconds, mtime_nanos_part)
                == task.source_mtime_ns,
            Err(fault) => if size > i64::MAX {
                fault matches ThumbnailError::SourceSizeOutOfRange
            } else if size != task.source_size_bytes {
                fault matches ThumbnailError::SourceSizeChanged
            } else {
                &&& fault matches ThumbnailError::SourceMtimeChanged
                &&& mtime_nanos(mtime_seconds, mtime_nanos_part) != task.source_mtime_ns
            },
        },
{
    if size > i64::MAX as u64 {
        return Err(ThumbnailError::SourceSizeOutOfRange);
    }
    if size as i64 != task.source_size_bytes {
        return Err(ThumbnailError::SourceSizeChanged);
    }
    if metadata_mtime_ns(mtime_seconds, mtime_nanos_part) != task.source_mtime_ns {
        return Err(ThumbnailError::SourceMtimeChanged);
    }
    Ok(())
}

/// The path at which the output of a task is to appear: its validated
/// output path under the thumbs root. Such a path lies under the thumbs
/// root.
pub fn resolve_output_path(config: &WorkerConfig, task: &ThumbnailTaskRecord) -> (result: Result<
    String,
    ThumbnailError,
>)
    ensures
        match result {
            Ok(path) => {
                &&& relative_path_fault(task.output_relpath@) is None
                &&& path@ == joined_path(
                    config.thumbs_root_real@,
                    canonical_form(task.output_relpath@),
                )
                &&& path_has_prefix(path@, config.thumbs_root_real@)
            },
            Err(fault) => {
                &&& relative_path_fault(task.output_relpath@) is Some
                &&& fault matches ThumbnailError::InvalidOutputPath { thumb_key }
                &&& thumb_key@ == task.thumb_key@
            },
        },
{
    let relative = match validate_relative_path(task.output_relpath.as_str()) {
        Ok(relative) => relative,
        Err(_) => {
            return Err(ThumbnailError::InvalidOutputPath { thumb_key: task.thumb_key.clone() });
        },
    };
    proof {
        lemma_validated_path_stays_under_root(config.thumbs_root_real@, task.output_relpath@);
    }
    Ok(join_under(config.thumbs_root_real.as_str(), relative.as_str()))
}

/// The directory that has to exist before the output is written.
pub fn output_directory(path: &str) -> (result: Result<String, ThumbnailError>)
    ensures
        match result {
            Ok(directory) => parent_of(path@) == Some(directory@),
            Err(fault) => {
                &&& parent_of(path@) is None
                &&& fault matches ThumbnailError::OutputNoParent
            },
        },
{
    match split_last(path).0 {
        Some(directory) => Ok(directory),
        None => Err(ThumbnailError::OutputNoParent),
    }
}

/// Why an output target is refused once its directory was resolved.
pub enum TargetFault {
    NoParent,
    DirectoryEscapes,
    NoFilename,
}

/// Why an output target is refused, if it is.
pub open spec fn target_fault(
    thumbs_root_real: Seq<char>,
    path: Seq<char>,
    parent_real: Seq<char>,
) -> Option<TargetFault> {
    if parent_of(path) is None {
        Some(TargetFault::NoParent)
    } else if !path_has_prefix(parent_real, thumbs_root_real) {
        Some(TargetFault::DirectoryEscapes)
    } else if file_name_of(path) is None {
        Some(TargetFault::NoFilename)
    } else {
        None
    }
}

/// Whether an error is the one that stands for a target fault.
pub open spec fn is_target_error(
    fault: ThumbnailError,
    kind: TargetFault,
    parent_real: Seq<char>,
) -> bool {
    match kind {
        TargetFault::NoParent => fault matches ThumbnailError::OutputNoParent,
        TargetFault::DirectoryEscapes => {
            &&& fault matches ThumbnailError::OutputDirectoryEscapes { directory }
            &&& directory@ == parent_real
        },
        TargetFault::NoFilename => fault matches ThumbnailError::OutputNoFilename,
    }
}

/// Settles where an output is written, once the directory that holds it
/// was resolved on disk to `parent_real`: the directory has to lie under the
/// thumbs root, and the output is written under its own name in the resolved
/// directory, which puts it under the thumbs root.
pub fn normalize_existing_output_target(config: &WorkerConfig, path: &str, parent_real: &str) -> (result:
    Result<String, ThumbnailError>)
    ensures
        match result {
            Ok(target) => {
                &&& target_fault(config.thumbs_root_real@, path@, parent_real@) is None
                &&& target@ == joined_path(parent_real@, file_name_of(path@)->0)
                &&& path_has_prefix(target@, config.thumbs_root_real@)
            },
            Err(fault) => {
                &&& target_fault(config.thumbs_root_real@, path@, parent_real@) matches Some(kind)
                &&& is_target_error(fault, kind, parent_real@)
            },
        },
{
    let (parent, file_name) = split_last(path);
    if parent.is_none() {
        return Err(ThumbnailError::OutputNoParent);
    }
    if !path_starts_with(parent_real, config.thumbs_root_real.as_str()) {
        return Err(
            ThumbnailError::OutputDirectoryEscapes { directory: String::from_str(parent_real) },
        );
    }
    match file_name {
        Some(name) => {
            proof {
                lemma_joined_path_extends_root(parent_real@, name@);
                lemma_prefix_is_transitive(
                    joined_path(parent_real@, name@),
                    parent_real@,
                    config.thumbs_root_real@,
                );
            }
            Ok(join_under(parent_real, name.as_str()))
        },
        None => Err(ThumbnailError::OutputNoFilename),
    }
}

/// Settles where an output is written, once the directory that holds it
/// was made and resolved on disk to `parent_real`.
pub fn normalize_output_target(config: &WorkerConfig, path: &str, parent_real: &str) -> (result:
    Result<String, ThumbnailError>)
    ensures
        match result {
            Ok(target) => {
                &&& target_fault(config.thumbs_root_real@, path@, parent_real@) is None
                &&& target@ == joined_path(parent_real@, file_name_of(path@)->0)
                &&& path_has_prefix(target@, config.thumbs_root_real@)
            },
            Err(fault) => {
                &&& target_fault(config.thumbs_root_real@, path@, parent_real@) matches Some(kind)
                &&& is_target_error(fault, kind, parent_real@)
            },
        },
{
    normalize_existing_output_target(config, path, parent_real)
}

/// The path with its last component replaced by `name`; `name` is put
/// under the path where the path has no last component that names
/// something.
pub open spec fn with_file_name(path: Seq<char>, name: Seq<char>) -> Seq<char> {
    if file_name_of(path) is Some {
        joined_path(parent_of(path)->0, name)
    } else {
        joined_path(path, name)
    }
}

/// The path with its last component replaced by `name`.
pub fn replace_file_name(path: &str, name: &str) -> (replaced: String)
    ensures
        replaced@ == with_file_name(path@, name@),
{
    let (parent, file_name) = split_last(path);
    match (parent, file_name) {
        (Some(directory), Some(_)) => join_under(directory.as_str(), name),
        _ => join_under(path, name),
    }
}

/// The path of the temporary file that a render writes before the output is
/// published: beside the output, named after the thumb key.
pub fn temp_output_path(output_path: &str, thumb_key: &str) -> (temp: String)
    ensures
        temp@ == with_file_name(output_path@, thumb_key@ + ".tmp"@),
{
    let mut name = String::from_str(thumb_key);
    name.append(".tmp");
    replace_file_name(output_path, name.as_str())
}

/// The position of the last `.` of a name; minus one where it has none.
pub open spec fn last_dot(name: Seq<char>) -> int
    decreases name.len(),
{
    if name.len() == 0 {
        -1
    } else if name.last() == '.' {
        name.len() - 1
    } else {
        last_dot(name.drop_last())
    }
}

/// The stem of a file name: what stands before its last `.`; the whole name
/// where it has no `.` or only one at its start.
pub open spec fn stem_of(name: Seq<char>) -> Seq<char> {
    if last_dot(name) <= 0 {
        name
    } else {
        name.take(last_dot(name))
    }
}

/// The stem of a file name.
pub fn file_stem(name: &str) -> (stem: String)
    ensures
        stem@ == stem_of(name@),
{
    let chars = chars_of(name);
    let mut end: usize = chars.len();
    assert(chars@.take(chars@.len() as int) =~= chars@);
    while end > 0 && chars[end - 1] != '.'
        invariant
            end <= chars.len(),
            chars@ == name@,
            last_dot(chars@) == last_dot(chars@.take(end as int)),
        decreases end,
    {
        proof {
            assert(chars@.take(end as int).drop_last() =~= chars@.take(end - 1));
        }
        end -= 1;
    }
    proof {
        if end > 0 {
            assert(chars@.take(end as int).last() == '.');
        }
    }
    if end <= 1 {
        String::from_str(name)
    } else {
        let stem = text_of_range(&chars, 0, end - 1);
        assert(chars@.subrange(0, end - 1) =~= chars@.take(end - 1));
        stem
    }
}

/// The name of the file that holds the extracted frame, beside the file
/// that the thumbnail is written to.
pub open spec fn frame_file_name(output_path: Seq<char>) -> Seq<char> {
    (match file_name_of(output_path) {
        Some(name) => stem_of(name),
        None => "frame"@,
    }) + "-frame.jpg"@
}

/// The path of the file that holds the extracted frame.
pub fn frame_path_for(output_path: &str) -> (frame: String)
    ensures
        frame@ == with_file_name(output_path@, frame_file_name(output_path@)),
{
    let mut name = match split_last(output_path).1 {
        Some(file_name) => file_stem(file_name.as_str()),
        None => String::from_str("frame"),
    };
    name.append("-frame.jpg");
    replace_file_name(output_path, name.as_str())
}

/// The arguments that the frame extractor is run with: errors only,
/// overwrite, seek to the first second, one frame from the source into the
/// frame file.
pub open spec fn extractor_arguments(source_path: Seq<char>, frame_path: Seq<char>) -> Seq<
    Seq<char>,
> {
    seq![
        "-v"@,
        "error"@,
        "-y"@,
        "-ss"@,
        "00:00:01"@,
        "-i"@,
        source_path,
        "-frames:v"@,
        "1"@,
        frame_path,
    ]
}

/// The arguments that the frame extractor is run with.
pub fn ffmpeg_arguments(source_path: &str, frame_path: &str) -> (arguments: Vec<String>)
    ensures
        crate::text::texts(arguments@) == extractor_arguments(source_path@, frame_path@),
{
    let mut arguments: Vec<String> = Vec::new();
    arguments.push(String::from_str("-v"));
    arguments.push(String::from_str("error"));
    arguments.push(String::from_str("-y"));
    arguments.push(String::from_str("-ss"));
    arguments.push(String::from_str("00:00:01"));
    arguments.push(String::from_str("-i"));
    arguments.push(String::from_str(source_path));
    arguments.push(String::from_str("-frames:v"));
    arguments.push(String::from_str("1"));
    arguments.push(String::from_str(frame_path));
    assert(crate::text::texts(arguments@) =~= extractor_arguments(source_path@, frame_path@));
    arguments
}

/// Milliseconds between two looks at the running frame extractor.
pub const EXTRACTOR_POLL_MILLIS: u64 = 200;

/// What a look at the frame extractor told.
#[derive(Clone, Copy, Debug, PartialEq, Eq, Structural)]
pub enum ExtractorState {
    /// It still runs.
    Running,
    /// It ended, with or without success.
    Exited { success: bool },
}

/// What to do about the frame extractor.
#[derive(Clone, Copy, Debug, PartialEq, Eq, Structural)]
pub enum ExtractorStep {
    /// Go on with the extracted frame.
    UseFrame,
    /// Read what it wrote and fail with it.
    FailWithStderr,
    /// Kill it, wait for its end and fail with a timeout.
    KillAndFail,
    /// Wait for the poll interval and look again.
    Wait,
}

/// What to do about the frame extractor after a look at it: an extractor
/// that ended is done with, one way or the other; one that still runs is
/// killed once the allowed time is over, and waited for before that.
pub open spec fn extractor_verdict(
    state: ExtractorState,
    elapsed_millis: u64,
    timeout_seconds: u64,
) -> ExtractorStep {
    match state {
        ExtractorState::Exited { success } => if success {
            ExtractorStep::UseFrame
        } else {
            ExtractorStep::FailWithStderr
        },
        ExtractorState::Running => if elapsed_millis >= timeout_seconds * 1000 {
            ExtractorStep::KillAndFail
        } else {
            ExtractorStep::Wait
        },
    }
}

/// What to do about the frame extractor after a look at it.
pub fn extractor_step(state: ExtractorState, elapsed_millis: u64, timeout_seconds: u64) -> (step:
    ExtractorStep)
    ensures
        step == extractor_verdict(state, elapsed_millis, timeout_seconds),
{
    match state {
        ExtractorState::Exited { success } => if success {
            ExtractorStep::UseFrame
        } else {
            ExtractorStep::FailWithStderr
        },
        ExtractorState::Running => if elapsed_millis as u128 >= timeout_seconds as u128 * 1000 {
            ExtractorStep::KillAndFail
        } else {
            ExtractorStep::Wait
        },
    }
}

/// Seconds between two heartbeats of a thumbnail task: a third of the lease
/// time, but at least one.
pub open spec fn refresh_interval(ttl_seconds: u64) -> u64 {
    if ttl_seconds / 3 < 1 {
        1
    } else {
        ttl_seconds / 3
    }
}

/// Keeps the lease of a thumbnail task alive without writing at every step.
#[derive(Clone, Copy, Debug, PartialEq, Eq, Structural)]
pub struct LeaseRefresher {
    pub task_id: i64,
    pub interval_seconds: u64,
    /// When the lease was last renewed, on a clock that never runs back.
    pub last_refresh_at_millis: u64,
}

impl LeaseRefresher {
    /// Whether a heartbeat is due at `now_millis`: the interval has passed
    /// since the last one.
    pub open spec fn is_due(self, now_millis: u64) -> bool {
        now_millis >= self.last_refresh_at_millis && now_millis - self.last_refresh_at_millis
            >= self.interval_seconds * 1000
    }

    /// A refresher for a task whose lease was renewed just now.
    pub fn new(config: &WorkerConfig, task_id: i64, now_millis: u64) -> (refresher: LeaseRefresher)
        ensures
            refresher == (LeaseRefresher {
                task_id,
                interval_seconds: refresh_interval(config.job_lock_ttl_seconds),
                last_refresh_at_millis: now_millis,
            }),
    {
        let third = config.job_lock_ttl_seconds / 3;
        LeaseRefresher {
            task_id,
            interval_seconds: if third < 1 {
                1
            } else {
                third
            },
            last_refresh_at_millis: now_millis,
        }
    }

    /// Renews the lease of the task if a heartbeat is due, and tells
    /// whether it did. A lease that the store refuses to renew is lost.
    pub fn maybe_refresh(
        &mut self,
        thumbnails: &mut Vec<ThumbnailRow>,
        config: &WorkerConfig,
        now_millis: u64,
        now: i64,
    ) -> (result: Result<bool, StoreError>)
        ensures
            final(self).task_id == old(self).task_id,
            final(self).interval_seconds == old(self).interval_seconds,
            !old(self).is_due(now_millis) ==> {
                &&& result == Ok::<bool, StoreError>(false)
                &&& *final(self) == *old(self)
                &&& thumbnail_views(final(thumbnails)@) == thumbnail_views(old(thumbnails)@)
            },
            old(self).is_due(now_millis) ==> ({
                let before = thumbnail_views(old(thumbnails)@);
                match first_flagged(
                    thumbnail_heartbeat_flags(before, old(self).task_id, config.worker_id@, now),
                ) {
                    Some(i) => {
                        &&& result == Ok::<bool, StoreError>(true)
                        &&& final(self).last_refresh_at_millis == now_millis
                        &&& thumbnail_views(final(thumbnails)@) == before.update(
                            i,
                            before[i].refreshed(now, config.job_lock_ttl_seconds),
                        )
                    },
                    None => {
                        &&& result == Err::<bool, StoreError>(StoreError::LeaseUpdateRejected)
                        &&& *final(self) == *old(self)
                        &&& thumbnail_views(final(thumbnails)@) == before
                    },
                }
            }),
    {
        let due = now_millis >= self.last_refresh_at_millis && (now_millis
            - self.last_refresh_at_millis) as u128 >= self.interval_seconds as u128 * 1000;
        if !due {
            return Ok(false);
        }
        match refresh_thumbnail_lease(thumbnails, config, self.task_id, now) {
            Ok(_) => {
                self.last_refresh_at_millis = now_millis;
                Ok(true)
            },
            Err(fault) => Err(fault),
        }
    }
}

/// Reserves the I/O budget for `bytes` of thumbnail work in the bucket that
/// all workers share, and tells how many milliseconds to wait.
pub fn reserve_thumbnail_io_budget(
    buckets: &mut Vec<IoBucketRow>,
    config: &WorkerConfig,
    bytes: u64,
    now_ms: i64,
    now: i64,
) -> (delay_ms: u64)
    ensures
        crate::io_budget::reservation_effect(
            crate::io_budget::bucket_views(old(buckets)@),
            crate::io_budget::bucket_views(final(buckets)@),
            delay_ms,
            "thumbnail_io_global"@,
            bytes,
            config.thumbnail_io_rate_limit_mib_per_sec,
            now_ms,
            now,
        ),
{
    reserve_global_io_budget(
        buckets,
        "thumbnail_io_global",
        bytes,
        config.thumbnail_io_rate_limit_mib_per_sec,
        now_ms,
        now,
    )
}

/// Whether the lease of a cleanup is to be renewed before the output at
/// position `index` is removed: before every 128th.
pub fn cleanup_refresh_is_due(index: usize) -> (due: bool)
    ensures
        due == (index % 128 == 0),
{
    index % 128 == 0
}

/// Where the output of a terminal thumbnail is looked for: nowhere for a row
/// that holds no output path, else at its validated path under the thumbs
/// root.
pub fn cleanup_candidate(config: &WorkerConfig, relpath: &str) -> (result: Result<
    Option<String>,
    ThumbnailError,
>)
    ensures
        if trimmed(relpath@).len() == 0 {
            result matches Ok(None)
        } else {
            match relative_path_fault(relpath@) {
                Some(_) => {
                    &&& result matches Err(ThumbnailError::InvalidStoredPath { path })
                    &&& path@ == relpath@
                },
                None => {
                    &&& result matches Ok(Some(path))
                    &&& path@ == joined_path(config.thumbs_root_real@, canonical_form(relpath@))
                },
            }
        },
{
    if trim_text(relpath).unicode_len() == 0 {
        return Ok(None);
    }
    match validate_relative_path(relpath) {
        Ok(relative) => Ok(Some(join_under(config.thumbs_root_real.as_str(), relative.as_str()))),
        Err(_) => Err(ThumbnailError::InvalidStoredPath { path: String::from_str(relpath) }),
    }
}

/// Settles which file a cleanup removes for an output at `absolute`.
/// `parent_real` is the directory of the output as resolved on disk, where
/// that succeeded; `exists` tells whether anything is at `absolute`. An
/// output that cannot be placed and is not there is passed over; one that
/// cannot be placed though something is there fails the cleanup. The file
/// to remove lies under the thumbs root.
pub fn cleanup_target(
    config: &WorkerConfig,
    absolute: &str,
    parent_real: Option<&str>,
    exists: bool,
) -> (result: Result<Option<String>, ThumbnailError>)
    ensures
        match parent_real {
            None => if !exists {
                result matches Ok(None)
            } else {
                match parent_of(absolute@) {
                    Some(parent) => {
                        &&& result matches Err(ThumbnailError::OutputDirectoryUnresolved { directory })
                        &&& directory@ == parent
                    },
                    None => result matches Err(ThumbnailError::OutputNoParent),
                }
            },
            Some(directory) => match target_fault(config.thumbs_root_real@, absolute@, directory@) {
                Some(kind) => if exists {
                    &&& result matches Err(fault)
                    &&& is_target_error(fault, kind, directory@)
                } else {
                    result matches Ok(None)
                },
                None => {
                    &&& result matches Ok(Some(target))
                    &&& target@ == joined_path(directory@, file_name_of(absolute@)->0)
                    &&& path_has_prefix(target@, config.thumbs_root_real@)
                },
            },
        },
{
    let directory = match parent_real {
        Some(directory) => directory,
        None => {
            if !exists {
                return Ok(None);
            }
            return match split_last(absolute).0 {
                Some(parent) => Err(ThumbnailError::OutputDirectoryUnresolved { directory: parent }),
                None => Err(ThumbnailError::OutputNoParent),
            };
        },
    };
    let normalized = match normalize_existing_output_target(config, absolute, directory) {
        Ok(normalized) => normalized,
        Err(fault) => {
            if !exists {
                return Ok(None);
            }
            return Err(fault);
        },
    };
    Ok(Some(normalized))
}

} // verus!
