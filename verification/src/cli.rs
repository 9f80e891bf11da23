//! Command-line arguments and their validation.
//!
//! Parsing the process's argument list is the surrounding binary's
//! concern; it hands the parsed values over as an [`Args`] together with
//! what it found out about the two paths on disk, and this module decides
//! which of them are acceptable: the input must be an existing regular
//! file with the `toml` extension, the output an existing directory.

use vstd::prelude::*;
use crate::analysis_config::{extension_of, extension_of_path, PathStatus};
use crate::error::{AppError, ArgsValidationErr, CliErr, SpecAppError, SpecArgsValidationErr, SpecCliErr};
use crate::logging::LogLevel;
use crate::text::lower;

verus! {

/// The parsed command-line arguments.
#[derive(Debug, Clone, PartialEq, Eq)]
pub struct Args {
    /// Path of the file describing the files to be converted.
    pub input_file_path: String,
    /// Path of the output directory for the converted files.
    pub output_dir_path: String,
    /// The logging verbosity to run under.
    pub log_level: LogLevel,
}

/// The error, if any, of checking the input path: it must exist, be a
/// regular file, and carry the `toml` extension (compared in ASCII
/// lowercase).
pub open spec fn spec_input_file_error(path: Seq<char>, st: PathStatus) -> Option<
    SpecArgsValidationErr,
> {
    if !st.exists {
        Some(SpecArgsValidationErr::PathDoesNotExist(path))
    } else if !st.is_file {
        Some(SpecArgsValidationErr::PathIsNotFile(path))
    } else {
        match extension_of(path) {
            None => Some(SpecArgsValidationErr::NoExtension(path)),
            Some(e) => if lower(e) == "toml"@ {
                None
            } else {
                Some(SpecArgsValidationErr::InvalidExtension(lower(e), "toml"@))
            },
        }
    }
}

/// The error, if any, of checking the output path: it must exist and be a
/// directory.
pub open spec fn spec_output_dir_error(path: Seq<char>, st: PathStatus) -> Option<
    SpecArgsValidationErr,
> {
    if !st.exists {
        Some(SpecArgsValidationErr::PathDoesNotExist(path))
    } else if !st.is_dir {
        Some(SpecArgsValidationErr::PathIsNotDirectory(path))
    } else {
        None
    }
}

/// An optional argument error as a top-level error sequence.
pub open spec fn spec_opt_cli_errs(o: Option<SpecArgsValidationErr>) -> Seq<SpecAppError> {
    match o {
        None => Seq::empty(),
        Some(e) => seq![SpecAppError::Cli(SpecCliErr::Validation(e))],
    }
}

/// All validation errors of the arguments: the input check, then the
/// output check.
pub open spec fn spec_args_errors(args: Args, ist: PathStatus, ost: PathStatus) -> Seq<
    SpecAppError,
> {
    spec_opt_cli_errs(spec_input_file_error(args.input_file_path@, ist)) + spec_opt_cli_errs(
        spec_output_dir_error(args.output_dir_path@, ost),
    )
}

impl Args {
    /// Bundles already-parsed argument values.
    pub fn new(input_file_path: String, output_dir_path: String, log_level: LogLevel) -> (r: Args)
        ensures
            r.input_file_path == input_file_path,
            r.output_dir_path == output_dir_path,
            r.log_level == log_level,
    {
        Args { input_file_path, output_dir_path, log_level }
    }

    /// Validates the two paths, going by the loader's findings about them,
    /// and accumulates every violation.
    pub fn validate(&self, input_status: &PathStatus, output_status: &PathStatus) -> (r: Result<
        (),
        Vec<AppError>,
    >)
        ensures
            match r {
                Ok(()) => spec_args_errors(*self, *input_status, *output_status).len() == 0,
                Err(es) => es@.map_values(|e: AppError| e@) == spec_args_errors(
                    *self,
                    *input_status,
                    *output_status,
                ) && es@.len() > 0,
            },
    {
        let mut errors: Vec<AppError> = Vec::new();
        match self.validate_input_file_path(input_status) {
            Ok(()) => {},
            Err(e) => {
                errors.push(AppError::Cli(e));
            },
        }
        match self.validate_output_dir_path(output_status) {
            Ok(()) => {},
            Err(e) => {
                errors.push(AppError::Cli(e));
            },
        }
        proof {
            assert(errors@.map_values(|e: AppError| e@) =~= spec_args_errors(
                *self,
                *input_status,
                *output_status,
            ));
        }
        if errors.len() != 0 {
            return Err(errors);
        }
        Ok(())
    }

    /// Checks the input path: existence, regular-file kind, and the `toml`
    /// extension.
    fn validate_input_file_path(&self, status: &PathStatus) -> (r: Result<(), CliErr>)
        ensures
            match r {
                Ok(()) => spec_input_file_error(self.input_file_path@, *status) is None,
                Err(e) => spec_input_file_error(self.input_file_path@, *status) matches Some(ve)
                    && e@ == SpecCliErr::Validation(ve),
            },
    {
        if !status.exists {
            return Err(
                CliErr::Validation(
                    ArgsValidationErr::PathDoesNotExist(self.input_file_path.clone()),
                ),
            );
        }
        if !status.is_file {
            return Err(
                CliErr::Validation(ArgsValidationErr::PathIsNotFile(self.input_file_path.clone())),
            );
        }
        match extension_of_path(self.input_file_path.as_str()) {
            None => Err(
                CliErr::Validation(ArgsValidationErr::NoExtension(self.input_file_path.clone())),
            ),
            Some(e) => {
                let lowered = crate::text::to_ascii_lowercase(e.as_str());
                let accepted: String = "toml".to_owned();
                if lowered == accepted {
                    Ok(())
                } else {
                    Err(
                        CliErr::Validation(ArgsValidationErr::InvalidExtension(lowered, accepted)),
                    )
                }
            },
        }
    }

    /// Checks the output path: existence and directory kind.
    fn validate_output_dir_path(&self, status: &PathStatus) -> (r: Result<(), CliErr>)
        ensures
            match r {
                Ok(()) => spec_output_dir_error(self.output_dir_path@, *status) is None,
                Err(e) => spec_output_dir_error(self.output_dir_path@, *status) matches Some(ve)
                    && e@ == SpecCliErr::Validation(ve),
            },
    {
        if !status.exists {
            return Err(
                CliErr::Validation(
                    ArgsValidationErr::PathDoesNotExist(self.output_dir_path.clone()),
                ),
            );
        }
        if !status.is_dir {
            return Err(
                CliErr::Validation(
                    ArgsValidationErr::PathIsNotDirectory(self.output_dir_path.clone()),
                ),
            );
        }
        Ok(())
    }
}

} // verus!
