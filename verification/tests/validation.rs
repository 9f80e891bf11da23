//! Tests of the configuration validator: extension whitelist, path facts,
//! axis layout per format, duplicate plan names, and unit expansion.

use naifuru::analysis_config::{
    AccAxis, Config, ConversionConfig, FileConfig, FromType, GlobalConfig, GroupConfig, NameFormat,
    PathStatus, ToType,
};
use naifuru::cli::Args;
use naifuru::error::{
    AnalysisConfigErr, AppError, ArgsValidationErr, CliErr, ConfigValidationErr, ProcessErr,
    DataExtractionErr,
};
use naifuru::logging::LogLevel;

fn good_status() -> PathStatus {
    PathStatus { exists: true, is_file: true, is_dir: false }
}

fn file(path: &str, acc_axis: Option<AccAxis>) -> FileConfig {
    FileConfig { path: path.to_string(), acc_axis, status: good_status(), data: None }
}

fn knet_exts() -> Vec<String> {
    vec!["ns".to_string(), "ew".to_string(), "ud".to_string()]
}

#[test]
fn multi_axis_group_with_all_three_axes_passes() {
    let group = GroupConfig {
        files: vec![
            file("a.ns", Some(AccAxis::Ns)),
            file("a.ew", Some(AccAxis::Ew)),
            file("a.ud", Some(AccAxis::Ud)),
        ],
    };
    assert!(group.validate(&FromType::JpNiedKnet, &knet_exts(), "plan", 1).is_ok());
}

#[test]
fn multi_axis_group_with_duplicate_axis_fails() {
    let group = GroupConfig {
        files: vec![
            file("a.ns", Some(AccAxis::Ns)),
            file("b.ns", Some(AccAxis::Ns)),
            file("a.ud", Some(AccAxis::Ud)),
        ],
    };
    let errs = group.validate(&FromType::JpNiedKnet, &knet_exts(), "plan", 1).unwrap_err();
    assert_eq!(errs.len(), 1);
    assert_eq!(
        errs[0],
        AnalysisConfigErr::Validation(ConfigValidationErr::DuplicateAccAxis(
            "jp_nied_knet".to_string(),
            "plan".to_string(),
            1,
        ))
    );
}

#[test]
fn multi_axis_group_with_untagged_file_fails() {
    let group = GroupConfig {
        files: vec![
            file("a.ns", Some(AccAxis::Ns)),
            file("a.ew", None),
            file("a.ud", Some(AccAxis::Ud)),
        ],
    };
    let errs = group.validate(&FromType::JpNiedKnet, &knet_exts(), "plan", 2).unwrap_err();
    assert!(errs.contains(&AnalysisConfigErr::Validation(ConfigValidationErr::RequiredAccAxis(
        "plan".to_string(),
        2,
    ))));
}

#[test]
fn multi_axis_group_with_four_files_fails() {
    let group = GroupConfig {
        files: vec![
            file("a.ns", Some(AccAxis::Ns)),
            file("a.ew", Some(AccAxis::Ew)),
            file("a.ud", Some(AccAxis::Ud)),
            file("b.ns", Some(AccAxis::Ns)),
        ],
    };
    assert!(group.validate(&FromType::JpNiedKnet, &knet_exts(), "plan", 1).is_err());
}

#[test]
fn single_axis_group_with_axis_tag_fails() {
    let group = GroupConfig { files: vec![file("a.sac", Some(AccAxis::Ns))] };
    let errs =
        group.validate(&FromType::TwPalertSac, &vec!["sac".to_string()], "plan", 3).unwrap_err();
    assert_eq!(errs.len(), 1);
    assert_eq!(
        errs[0],
        AnalysisConfigErr::Validation(ConfigValidationErr::MismatchedAccAxis(
            "tw_palert_sac".to_string(),
            "plan".to_string(),
            3,
        ))
    );
}

#[test]
fn single_axis_group_without_tags_passes() {
    let group = GroupConfig { files: vec![file("a.sac", None), file("b.sac", None)] };
    assert!(group.validate(&FromType::TwPalertSac, &vec!["sac".to_string()], "plan", 1).is_ok());
}

#[test]
fn extension_is_checked_case_insensitively() {
    let group = GroupConfig { files: vec![file("dir/REC.SAC", None)] };
    assert!(group.validate(&FromType::TwPalertSac, &vec!["sac".to_string()], "plan", 1).is_ok());
}

#[test]
fn wrong_extension_is_reported_with_the_whitelist() {
    let f = file("rec.txt", None);
    let errs = f.validate(&knet_exts()).unwrap_err();
    assert_eq!(errs.len(), 1);
    assert_eq!(
        errs[0],
        AnalysisConfigErr::Validation(ConfigValidationErr::InvalidExtension(
            "txt".to_string(),
            "ns, ew, ud".to_string(),
        ))
    );
}

#[test]
fn path_without_extension_is_reported() {
    let f = file("noext", None);
    let errs = f.validate(&knet_exts()).unwrap_err();
    assert_eq!(
        errs[0],
        AnalysisConfigErr::Validation(ConfigValidationErr::NoExtension("noext".to_string()))
    );
}

#[test]
fn missing_path_is_reported() {
    let mut f = file("a.ns", Some(AccAxis::Ns));
    f.status = PathStatus { exists: false, is_file: false, is_dir: false };
    let errs = f.validate(&knet_exts()).unwrap_err();
    assert_eq!(
        errs[0],
        AnalysisConfigErr::Validation(ConfigValidationErr::PathDoesNotExist("a.ns".to_string()))
    );
}

#[test]
fn non_file_path_is_reported() {
    let mut f = file("a.ns", Some(AccAxis::Ns));
    f.status = PathStatus { exists: true, is_file: false, is_dir: true };
    let errs = f.validate(&knet_exts()).unwrap_err();
    assert_eq!(
        errs[0],
        AnalysisConfigErr::Validation(ConfigValidationErr::PathIsNotFile("a.ns".to_string()))
    );
}

fn sac_plan(name: &str, paths: &[&str]) -> ConversionConfig {
    ConversionConfig {
        name: name.to_string(),
        from: FromType::TwPalertSac,
        to: ToType::JpJmaCsv,
        group: vec![GroupConfig { files: paths.iter().map(|p| file(p, None)).collect() }],
    }
}

#[test]
fn duplicate_plan_names_are_reported_once() {
    let config = Config {
        global: GlobalConfig { name_format: NameFormat::YyyymmddHhmmssSnN },
        conversion: vec![sac_plan("same", &["a.sac"]), sac_plan("same", &["b.sac"])],
    };
    let errs = config.validate().unwrap_err();
    assert_eq!(errs.len(), 1);
    assert_eq!(
        errs[0],
        AppError::AnalysisConfig(AnalysisConfigErr::Validation(
            ConfigValidationErr::DuplicateNames("same".to_string())
        ))
    );
}

#[test]
fn validation_accumulates_across_plans() {
    let config = Config {
        global: GlobalConfig { name_format: NameFormat::YyyymmddHhmmssSnN },
        conversion: vec![sac_plan("one", &["a.txt"]), sac_plan("two", &["b.csv"])],
    };
    let errs = config.validate().unwrap_err();
    assert_eq!(errs.len(), 2);
}

#[test]
fn valid_config_passes() {
    let config = Config {
        global: GlobalConfig { name_format: NameFormat::YyyymmddHhmmssSnN },
        conversion: vec![sac_plan("one", &["a.sac"]), sac_plan("two", &["b.sac"])],
    };
    assert!(config.validate().is_ok());
}

#[test]
fn processable_files_keep_group_and_file_order() {
    let plan = ConversionConfig {
        name: "plan".to_string(),
        from: FromType::JpNiedKnet,
        to: ToType::JpStera3dTxt,
        group: vec![
            GroupConfig {
                files: vec![file("a.ns", Some(AccAxis::Ns)), file("a.ew", Some(AccAxis::Ew))],
            },
            GroupConfig { files: vec![file("b.ud", Some(AccAxis::Ud))] },
        ],
    };
    let units = plan.iter_processable_files();
    assert_eq!(units.len(), 3);
    assert_eq!(units[0].path, "a.ns");
    assert_eq!(units[0].group_index, 0);
    assert_eq!(units[0].file_index, 0);
    assert_eq!(units[1].path, "a.ew");
    assert_eq!(units[1].group_index, 0);
    assert_eq!(units[1].file_index, 1);
    assert_eq!(units[2].path, "b.ud");
    assert_eq!(units[2].group_index, 1);
    assert_eq!(units[2].file_index, 0);
    assert_eq!(units[2].conv_name, "plan");
    assert_eq!(units[2].from, FromType::JpNiedKnet);
}

#[test]
fn args_validation_checks_both_paths() {
    let args = Args::new("conf.toml".to_string(), "out".to_string(), LogLevel::Info);
    let file_st = PathStatus { exists: true, is_file: true, is_dir: false };
    let dir_st = PathStatus { exists: true, is_file: false, is_dir: true };
    assert!(args.validate(&file_st, &dir_st).is_ok());

    let missing = PathStatus { exists: false, is_file: false, is_dir: false };
    let errs = args.validate(&missing, &missing).unwrap_err();
    assert_eq!(errs.len(), 2);
    assert_eq!(
        errs[0],
        AppError::Cli(CliErr::Validation(ArgsValidationErr::PathDoesNotExist(
            "conf.toml".to_string()
        )))
    );
    assert_eq!(
        errs[1],
        AppError::Cli(CliErr::Validation(ArgsValidationErr::PathDoesNotExist(
            "out".to_string()
        )))
    );
}

#[test]
fn args_validation_rejects_wrong_input_extension() {
    let args = Args::new("conf.json".to_string(), "out".to_string(), LogLevel::Error);
    let file_st = PathStatus { exists: true, is_file: true, is_dir: false };
    let dir_st = PathStatus { exists: true, is_file: false, is_dir: true };
    let errs = args.validate(&file_st, &dir_st).unwrap_err();
    assert_eq!(
        errs[0],
        AppError::Cli(CliErr::Validation(ArgsValidationErr::InvalidExtension(
            "json".to_string(),
            "toml".to_string()
        )))
    );
}

#[test]
fn args_validation_rejects_non_directory_output() {
    let args = Args::new("conf.toml".to_string(), "out".to_string(), LogLevel::Debug);
    let file_st = PathStatus { exists: true, is_file: true, is_dir: false };
    let errs = args.validate(&file_st, &file_st).unwrap_err();
    assert_eq!(
        errs[0],
        AppError::Cli(CliErr::Validation(ArgsValidationErr::PathIsNotDirectory(
            "out".to_string()
        )))
    );
}

#[test]
fn exit_codes_follow_the_error_class() {
    let cli = AppError::Cli(CliErr::Validation(ArgsValidationErr::NoExtension(
        "x".to_string(),
    )));
    assert_eq!(cli.exit_code(), 2);
    let val = AppError::AnalysisConfig(AnalysisConfigErr::Validation(
        ConfigValidationErr::NoExtension("x".to_string()),
    ));
    assert_eq!(val.exit_code(), 3);
    let parse = AppError::AnalysisConfig(AnalysisConfigErr::Parse("bad".to_string()));
    assert_eq!(parse.exit_code(), 5);
    let io = AppError::AnalysisConfig(AnalysisConfigErr::Io("gone".to_string()));
    assert_eq!(io.exit_code(), 4);
    let extraction = AppError::Process(ProcessErr::Extraction(
        DataExtractionErr::FormatUnsupported("fmt".to_string()),
    ));
    assert_eq!(extraction.exit_code(), 6);
    let pio = AppError::Process(ProcessErr::Io("gone".to_string()));
    assert_eq!(pio.exit_code(), 4);
}
