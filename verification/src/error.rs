//! Error taxonomy of the extraction framework.
//!
//! Configuration-validation errors are accumulated and surfaced together;
//! data-extraction errors are field-scoped and abort the current unit.
//! Every error kind maps to a stable exit code so that surrounding
//! automation can branch on the failure class.  Errors raised by outside
//! collaborators (the TOML parser, the operating system) are carried as
//! their rendered message.

use vstd::prelude::*;

verus! {

/// Mathematical image of [`ArgsValidationErr`]: the same variants over
/// character sequences.  Contracts state which errors a validation run
/// produces in terms of these values.
pub enum SpecArgsValidationErr {
    NoExtension(Seq<char>),
    InvalidExtension(Seq<char>, Seq<char>),
    PathDoesNotExist(Seq<char>),
    PathIsNotFile(Seq<char>),
    PathIsNotDirectory(Seq<char>),
}

/// Mathematical image of [`CliErr`].
pub enum SpecCliErr {
    Validation(SpecArgsValidationErr),
}

/// Mathematical image of [`ConfigValidationErr`].
pub enum SpecConfigValidationErr {
    InvalidExtension(Seq<char>, Seq<char>),
    NoExtension(Seq<char>),
    PathDoesNotExist(Seq<char>),
    PathIsNotFile(Seq<char>),
    PathIsNotDirectory(Seq<char>),
    MismatchedAccAxis(Seq<char>, Seq<char>, int),
    DuplicateAccAxis(Seq<char>, Seq<char>, int),
    RequiredAccAxis(Seq<char>, int),
    DuplicateNames(Seq<char>),
}

/// Mathematical image of [`AnalysisConfigErr`].
pub enum SpecAnalysisConfigErr {
    Validation(SpecConfigValidationErr),
    Parse(Seq<char>),
    Io(Seq<char>),
}

/// Mathematical image of [`DataExtractionErr`].
pub enum SpecDataExtractionErr {
    EndianDetectionFailed(Seq<char>),
    FormatUnsupported(Seq<char>),
    MissingFileData(Seq<char>, Seq<char>),
    FailedExtraction(Seq<char>, Seq<char>),
    PatternNotMatched(Seq<char>, Seq<char>),
}

/// Mathematical image of [`ProcessErr`].
pub enum SpecProcessErr {
    Extraction(SpecDataExtractionErr),
    Io(Seq<char>),
}

/// Mathematical image of [`AppError`].
pub enum SpecAppError {
    Cli(SpecCliErr),
    AnalysisConfig(SpecAnalysisConfigErr),
    Process(SpecProcessErr),
}

/// A command-line argument failed validation.
#[derive(Debug, Clone, PartialEq, Eq)]
pub enum ArgsValidationErr {
    /// The path has no file extension.
    NoExtension(String),
    /// The path's extension (first field) is not among the supported ones
    /// (second field, comma-separated).
    InvalidExtension(String, String),
    /// The path does not exist.
    PathDoesNotExist(String),
    /// The path exists but is not a regular file.
    PathIsNotFile(String),
    /// The path exists but is not a directory.
    PathIsNotDirectory(String),
}

impl View for ArgsValidationErr {
    type V = SpecArgsValidationErr;

    open spec fn view(&self) -> SpecArgsValidationErr {
        match self {
            ArgsValidationErr::NoExtension(p) => SpecArgsValidationErr::NoExtension(p@),
            ArgsValidationErr::InvalidExtension(e, a) => SpecArgsValidationErr::InvalidExtension(
                e@,
                a@,
            ),
            ArgsValidationErr::PathDoesNotExist(p) => SpecArgsValidationErr::PathDoesNotExist(p@),
            ArgsValidationErr::PathIsNotFile(p) => SpecArgsValidationErr::PathIsNotFile(p@),
            ArgsValidationErr::PathIsNotDirectory(p) => SpecArgsValidationErr::PathIsNotDirectory(
                p@,
            ),
        }
    }
}

/// An error of the command-line interface.
#[derive(Debug, Clone, PartialEq, Eq)]
pub enum CliErr {
    Validation(ArgsValidationErr),
}

impl View for CliErr {
    type V = SpecCliErr;

    open spec fn view(&self) -> SpecCliErr {
        match self {
            CliErr::Validation(e) => SpecCliErr::Validation(e@),
        }
    }
}

impl CliErr {
    pub open spec fn spec_exit_code(&self) -> i32 {
        2
    }

    pub fn exit_code(&self) -> (r: i32)
        ensures
            r == self.spec_exit_code(),
    {
        match self {
            Self::Validation(_) => 2,
        }
    }
}

/// A violation found while validating a conversion plan.
#[derive(Debug, Clone, PartialEq, Eq)]
pub enum ConfigValidationErr {
    /// A file's extension (first field) is not acceptable for its format;
    /// the second field lists the acceptable extensions, comma-separated.
    InvalidExtension(String, String),
    /// The file path has no extension.
    NoExtension(String),
    /// The file path does not exist.
    PathDoesNotExist(String),
    /// The file path exists but is not a regular file.
    PathIsNotFile(String),
    /// The file path exists but is not a directory.
    PathIsNotDirectory(String),
    /// A single-axis format was given a file carrying an axis tag
    /// (format, plan name, group id).
    MismatchedAccAxis(String, String, usize),
    /// A multi-axis format was given an axis tag that was already supplied
    /// (format, plan name, group id).
    DuplicateAccAxis(String, String, usize),
    /// A multi-axis format was given a file without an axis tag
    /// (plan name, group id).
    RequiredAccAxis(String, usize),
    /// Two conversion plans share the given name.
    DuplicateNames(String),
}

impl View for ConfigValidationErr {
    type V = SpecConfigValidationErr;

    open spec fn view(&self) -> SpecConfigValidationErr {
        match self {
            ConfigValidationErr::InvalidExtension(e, a) => SpecConfigValidationErr::InvalidExtension(
                e@,
                a@,
            ),
            ConfigValidationErr::NoExtension(p) => SpecConfigValidationErr::NoExtension(p@),
            ConfigValidationErr::PathDoesNotExist(p) => SpecConfigValidationErr::PathDoesNotExist(
                p@,
            ),
            ConfigValidationErr::PathIsNotFile(p) => SpecConfigValidationErr::PathIsNotFile(p@),
            ConfigValidationErr::PathIsNotDirectory(p) => SpecConfigValidationErr::PathIsNotDirectory(
                p@,
            ),
            ConfigValidationErr::MismatchedAccAxis(f, n, id) => SpecConfigValidationErr::MismatchedAccAxis(
                f@,
                n@,
                *id as int,
            ),
            ConfigValidationErr::DuplicateAccAxis(f, n, id) => SpecConfigValidationErr::DuplicateAccAxis(
                f@,
                n@,
                *id as int,
            ),
            ConfigValidationErr::RequiredAccAxis(n, id) => SpecConfigValidationErr::RequiredAccAxis(
                n@,
                *id as int,
            ),
            ConfigValidationErr::DuplicateNames(n) => SpecConfigValidationErr::DuplicateNames(n@),
        }
    }
}

/// An error concerning the analysis configuration file.
#[derive(Debug, Clone, PartialEq, Eq)]
pub enum AnalysisConfigErr {
    Validation(ConfigValidationErr),
    /// The configuration text failed to parse; carries the parser's message.
    Parse(String),
    /// The configuration file could not be read; carries the I/O message.
    Io(String),
}

impl AnalysisConfigErr {
    pub open spec fn spec_exit_code(&self) -> i32 {
        match self {
            Self::Validation(_) => 3,
            Self::Parse(_) => 5,
            Self::Io(_) => 4,
        }
    }

    pub fn exit_code(&self) -> (r: i32)
        ensures
            r == self.spec_exit_code(),
    {
        match self {
            Self::Validation(_) => 3,
            Self::Parse(_) => 5,
            Self::Io(_) => 4,
        }
    }
}

impl View for AnalysisConfigErr {
    type V = SpecAnalysisConfigErr;

    open spec fn view(&self) -> SpecAnalysisConfigErr {
        match self {
            AnalysisConfigErr::Validation(e) => SpecAnalysisConfigErr::Validation(e@),
            AnalysisConfigErr::Parse(m) => SpecAnalysisConfigErr::Parse(m@),
            AnalysisConfigErr::Io(m) => SpecAnalysisConfigErr::Io(m@),
        }
    }
}

/// A field-scoped failure while extracting data from one unit's content.
#[derive(Debug, Clone, PartialEq, Eq)]
pub enum DataExtractionErr {
    /// Neither byte-order hypothesis scored strictly higher for the file
    /// at the given path.
    EndianDetectionFailed(String),
    /// The named format (or payload kind) has no decoder yet.
    FormatUnsupported(String),
    /// The named piece of data is missing from the file at the given path.
    MissingFileData(String, String),
    /// The named field could not be extracted from the file at the given
    /// path.
    FailedExtraction(String, String),
    /// The named field's extraction pattern did not match in the file at
    /// the given path.
    PatternNotMatched(String, String),
}

impl View for DataExtractionErr {
    type V = SpecDataExtractionErr;

    open spec fn view(&self) -> SpecDataExtractionErr {
        match self {
            DataExtractionErr::EndianDetectionFailed(p) => SpecDataExtractionErr::EndianDetectionFailed(
                p@,
            ),
            DataExtractionErr::FormatUnsupported(f) => SpecDataExtractionErr::FormatUnsupported(f@),
            DataExtractionErr::MissingFileData(w, p) => SpecDataExtractionErr::MissingFileData(
                w@,
                p@,
            ),
            DataExtractionErr::FailedExtraction(w, p) => SpecDataExtractionErr::FailedExtraction(
                w@,
                p@,
            ),
            DataExtractionErr::PatternNotMatched(w, p) => SpecDataExtractionErr::PatternNotMatched(
                w@,
                p@,
            ),
        }
    }
}

/// An error raised while processing units.
#[derive(Debug, Clone, PartialEq, Eq)]
pub enum ProcessErr {
    Extraction(DataExtractionErr),
    /// An I/O failure, carried as its rendered message.
    Io(String),
}

impl ProcessErr {
    pub open spec fn spec_exit_code(&self) -> i32 {
        match self {
            Self::Extraction(_) => 6,
            Self::Io(_) => 4,
        }
    }

    pub fn exit_code(&self) -> (r: i32)
        ensures
            r == self.spec_exit_code(),
    {
        match self {
            Self::Extraction(_) => 6,
            Self::Io(_) => 4,
        }
    }
}

impl View for ProcessErr {
    type V = SpecProcessErr;

    open spec fn view(&self) -> SpecProcessErr {
        match self {
            ProcessErr::Extraction(e) => SpecProcessErr::Extraction(e@),
            ProcessErr::Io(m) => SpecProcessErr::Io(m@),
        }
    }
}

/// Top-level error: every failure class of the pipeline.
#[derive(Debug, Clone, PartialEq, Eq)]
pub enum AppError {
    Cli(CliErr),
    AnalysisConfig(AnalysisConfigErr),
    Process(ProcessErr),
}

impl View for AppError {
    type V = SpecAppError;

    open spec fn view(&self) -> SpecAppError {
        match self {
            AppError::Cli(e) => SpecAppError::Cli(e@),
            AppError::AnalysisConfig(e) => SpecAppError::AnalysisConfig(e@),
            AppError::Process(e) => SpecAppError::Process(e@),
        }
    }
}

impl AppError {
    pub open spec fn spec_exit_code(&self) -> i32 {
        match self {
            Self::Cli(e) => e.spec_exit_code(),
            Self::AnalysisConfig(e) => e.spec_exit_code(),
            Self::Process(e) => e.spec_exit_code(),
        }
    }

    pub fn exit_code(&self) -> (r: i32)
        ensures
            r == self.spec_exit_code(),
    {
        match self {
            Self::Cli(e) => e.exit_code(),
            Self::AnalysisConfig(e) => e.exit_code(),
            Self::Process(e) => e.exit_code(),
        }
    }
}

} // verus!
