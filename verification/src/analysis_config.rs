//! The conversion-plan configuration and its validator.
//!
//! A configuration is a set of named conversion plans, each listing groups
//! of files of one source format.  Validation enforces, per file, the
//! format's extension whitelist and the existence of the path, and per
//! group the format's acceleration-axis layout; across plans, names must
//! be unique.  Every violation is accumulated — validation never stops at
//! the first error.
//!
//! The validator itself performs no I/O: whether a path exists on disk is
//! recorded in each file's [`PathStatus`] by the surrounding loader before
//! validation runs.

use vstd::prelude::*;
use crate::error::{
    AnalysisConfigErr, AppError, ConfigValidationErr, SpecAnalysisConfigErr, SpecAppError,
    SpecConfigValidationErr,
};
use crate::model::ir::ProcessableFile;
use crate::text::{joined, lower, string_views, to_ascii_lowercase, join_strings};

verus! {

/// File format before conversion.
#[derive(Debug, Clone, Copy, PartialEq, Eq, Structural)]
pub enum FromType {
    JpNiedKnet,
    UsScsnV2,
    NzGeonetV1a,
    NzGeonetV2a,
    TwPalertSac,
    TkAfadAsc,
}

impl FromType {
    /// The format's name in snake case, as used in error reports.
    pub open spec fn spec_snake_case(&self) -> Seq<char> {
        match self {
            FromType::JpNiedKnet => "jp_nied_knet"@,
            FromType::UsScsnV2 => "us_scsn_v2"@,
            FromType::NzGeonetV1a => "nz_geonet_v1a"@,
            FromType::NzGeonetV2a => "nz_geonet_v2a"@,
            FromType::TwPalertSac => "tw_palert_sac"@,
            FromType::TkAfadAsc => "tk_afad_asc"@,
        }
    }

    pub fn to_snake_case(&self) -> (r: &'static str)
        ensures
            r@ == self.spec_snake_case(),
    {
        match self {
            FromType::JpNiedKnet => "jp_nied_knet",
            FromType::UsScsnV2 => "us_scsn_v2",
            FromType::NzGeonetV1a => "nz_geonet_v1a",
            FromType::NzGeonetV2a => "nz_geonet_v2a",
            FromType::TwPalertSac => "tw_palert_sac",
            FromType::TkAfadAsc => "tk_afad_asc",
        }
    }

    /// Whether the format stores the three acceleration axes in three
    /// separate files.
    pub open spec fn spec_is_multi_axis(&self) -> bool {
        self is JpNiedKnet || self is TkAfadAsc
    }

    /// Whether the format stores the three acceleration axes in three
    /// separate files.
    pub fn is_multi_axis(&self) -> (r: bool)
        ensures
            r == self.spec_is_multi_axis(),
    {
        match self {
            FromType::JpNiedKnet | FromType::TkAfadAsc => true,
            _ => false,
        }
    }

    /// The file extensions acceptable for the format.
    pub open spec fn spec_acceptable_exts(&self) -> Seq<Seq<char>> {
        match self {
            FromType::JpNiedKnet => seq!["ns"@, "ew"@, "ud"@],
            FromType::UsScsnV2 => seq!["v2"@],
            FromType::NzGeonetV1a => seq!["v1a"@],
            FromType::NzGeonetV2a => seq!["v2a"@],
            FromType::TwPalertSac => seq!["sac"@],
            FromType::TkAfadAsc => seq!["asc"@],
        }
    }
}

/// File format after conversion.
#[derive(Debug, Clone, Copy, PartialEq, Eq, Structural)]
pub enum ToType {
    JpJmaCsv,
    JpStera3dTxt,
}

/// One of the three acceleration axes of a multi-axis format.
#[derive(Debug, Clone, Copy, PartialEq, Eq, Structural)]
pub enum AccAxis {
    Ns,
    Ew,
    Ud,
}

impl AccAxis {
    /// The axis tag as written in configurations and file extensions.
    pub open spec fn spec_as_str(&self) -> Seq<char> {
        match self {
            AccAxis::Ns => "ns"@,
            AccAxis::Ew => "ew"@,
            AccAxis::Ud => "ud"@,
        }
    }

    pub fn as_str(&self) -> (r: &'static str)
        ensures
            r@ == self.spec_as_str(),
    {
        match self {
            AccAxis::Ns => "ns",
            AccAxis::Ew => "ew",
            AccAxis::Ud => "ud",
        }
    }
}

/// Naming convention expected of the produced output files.  Not
/// interpreted by this crate.
#[derive(Debug, Clone, Copy, PartialEq, Eq, Structural)]
pub enum NameFormat {
    /// Example: `20240101-161018-ISK005-knet.csv` — observation start date
    /// and time, station name, institution name.
    YyyymmddHhmmssSnN,
}

/// What the surrounding loader found out about a path on disk.  The
/// validator consumes these facts; it never touches the filesystem itself.
#[derive(Debug, Clone, Copy, PartialEq, Eq, Structural, Default)]
pub struct PathStatus {
    pub exists: bool,
    pub is_file: bool,
    pub is_dir: bool,
}

/// Mathematical image of [`TextOrBinary`]: lines as character sequences,
/// or the byte sequence.
pub enum SpecTextOrBinary {
    Text(Seq<Seq<char>>),
    Binary(Seq<u8>),
}

/// A file's loaded content: an ordered sequence of text lines, or raw
/// bytes.
#[derive(Debug, PartialEq, Eq)]
pub enum TextOrBinary {
    Text(Vec<String>),
    Binary(Vec<u8>),
}

impl View for TextOrBinary {
    type V = SpecTextOrBinary;

    open spec fn view(&self) -> SpecTextOrBinary {
        match self {
            TextOrBinary::Text(lines) => SpecTextOrBinary::Text(string_views(lines@)),
            TextOrBinary::Binary(bytes) => SpecTextOrBinary::Binary(bytes@),
        }
    }
}

/// The view of optional file content.
pub open spec fn opt_data_view(d: Option<TextOrBinary>) -> Option<SpecTextOrBinary> {
    match d {
        None => None,
        Some(c) => Some(c@),
    }
}

impl Clone for TextOrBinary {
    fn clone(&self) -> (r: Self)
        ensures
            r@ == self@,
    {
        match self {
            TextOrBinary::Text(lines) => {
                let mut copy: Vec<String> = Vec::new();
                let mut i: usize = 0;
                while i < lines.len()
                    invariant
                        i <= lines@.len(),
                        copy@ =~= lines@.take(i as int),
                    decreases lines@.len() - i,
                {
                    copy.push(lines[i].clone());
                    assert(copy@ =~= lines@.take(i + 1));
                    i = i + 1;
                }
                assert(lines@.take(lines@.len() as int) =~= lines@);
                TextOrBinary::Text(copy)
            },
            TextOrBinary::Binary(bytes) => {
                let mut copy: Vec<u8> = Vec::new();
                let mut i: usize = 0;
                while i < bytes.len()
                    invariant
                        i <= bytes@.len(),
                        copy@ =~= bytes@.take(i as int),
                    decreases bytes@.len() - i,
                {
                    copy.push(bytes[i]);
                    assert(copy@ =~= bytes@.take(i + 1));
                    i = i + 1;
                }
                assert(bytes@.take(bytes@.len() as int) =~= bytes@);
                TextOrBinary::Binary(copy)
            },
        }
    }
}

/// One file of a group: its path, its optional axis tag, what the loader
/// learned about the path, and — once loaded — its content.
#[derive(Debug, Clone, PartialEq, Eq)]
pub struct FileConfig {
    pub path: String,
    pub acc_axis: Option<AccAxis>,
    pub status: PathStatus,
    pub data: Option<TextOrBinary>,
}

/// The files that together represent one observation event.
#[derive(Debug, Clone, PartialEq, Eq)]
pub struct GroupConfig {
    pub files: Vec<FileConfig>,
}

/// One named conversion plan.
#[derive(Debug, Clone, PartialEq, Eq)]
pub struct ConversionConfig {
    pub name: String,
    pub from: FromType,
    pub to: ToType,
    pub group: Vec<GroupConfig>,
}

/// Global settings of a configuration.
#[derive(Debug, Clone, Copy, PartialEq, Eq, Structural)]
pub struct GlobalConfig {
    pub name_format: NameFormat,
}

/// A full analysis configuration.
#[derive(Debug, Clone, PartialEq, Eq)]
pub struct Config {
    pub global: GlobalConfig,
    pub conversion: Vec<ConversionConfig>,
}

/// Index of the last occurrence of `c` in `s`, or `-1`.
pub open spec fn last_index_of(s: Seq<char>, c: char) -> int
    decreases s.len(),
{
    if s.len() == 0 {
        -1
    } else if s.last() == c {
        s.len() - 1
    } else {
        last_index_of(s.drop_last(), c)
    }
}

/// `last_index_of` stays within bounds.
pub proof fn lemma_last_index_of_bounds(s: Seq<char>, c: char)
    ensures
        -1 <= last_index_of(s, c) < s.len(),
    decreases s.len(),
{
    if s.len() > 0 && s.last() != c {
        lemma_last_index_of_bounds(s.drop_last(), c);
    }
}

/// The final path component: everything after the last `/`.
pub open spec fn file_name_of(p: Seq<char>) -> Seq<char> {
    p.skip(last_index_of(p, '/') + 1)
}

/// The path's extension: what follows the last dot of the final component,
/// unless that component has no dot or begins with its only dot.
pub open spec fn extension_of(p: Seq<char>) -> Option<Seq<char>> {
    let name = file_name_of(p);
    let d = last_index_of(name, '.');
    if d <= 0 {
        None
    } else {
        Some(name.skip(d + 1))
    }
}

/// Index of the last occurrence of `c` within `v[from..to]`, if any.
fn last_index_in(v: &Vec<char>, from: usize, to: usize, c: char) -> (r: Option<usize>)
    requires
        from <= to <= v@.len(),
    ensures
        match r {
            Some(i) => from <= i < to && last_index_of(v@.subrange(from as int, to as int), c) == i
                - from,
            None => last_index_of(v@.subrange(from as int, to as int), c) == -1,
        },
{
    let ghost s = v@.subrange(from as int, to as int);
    let mut j: usize = to;
    while j > from
        invariant
            from <= j <= to <= v@.len(),
            s == v@.subrange(from as int, to as int),
            last_index_of(s, c) == last_index_of(v@.subrange(from as int, j as int), c),
        decreases j,
    {
        assert(v@.subrange(from as int, j as int).last() == v@[j - 1]);
        if v[j - 1] == c {
            proof {
                lemma_last_index_of_bounds(v@.subrange(from as int, j as int), c);
            }
            return Some(j - 1);
        }
        assert(v@.subrange(from as int, j as int).drop_last() =~= v@.subrange(
            from as int,
            j - 1,
        ));
        j = j - 1;
    }
    assert(v@.subrange(from as int, from as int) =~= Seq::<char>::empty());
    None
}

/// The extension of `path`, as written (not lowercased), if it has one.
pub fn extension_of_path(path: &str) -> (r: Option<String>)
    ensures
        match r {
            Some(e) => extension_of(path@) == Some(e@),
            None => extension_of(path@) is None,
        },
{
    let v = crate::text::chars_of(path);
    let n = v.len();
    assert(v@.subrange(0, n as int) =~= v@);
    let start: usize = match last_index_in(&v, 0, n, '/') {
        Some(i) => i + 1,
        None => 0,
    };
    assert(file_name_of(path@) =~= v@.subrange(start as int, n as int));
    match last_index_in(&v, start, n, '.') {
        None => None,
        Some(i) => {
            if i == start {
                None
            } else {
                let e = path.substring_char(i + 1, n).to_owned();
                assert(e@ =~= file_name_of(path@).skip(i - start + 1));
                Some(e)
            }
        },
    }
}

/// The error, if any, of checking `path` against the acceptable
/// extensions: no extension at all, or one outside the whitelist
/// (compared, and reported, in ASCII lowercase).
pub open spec fn spec_ext_error(path: Seq<char>, exts: Seq<Seq<char>>) -> Option<
    SpecConfigValidationErr,
> {
    match extension_of(path) {
        None => Some(SpecConfigValidationErr::NoExtension(path)),
        Some(e) => if exts.contains(lower(e)) {
            None
        } else {
            Some(SpecConfigValidationErr::InvalidExtension(lower(e), joined(exts, ", "@)))
        },
    }
}

/// The error, if any, of checking a file's path facts: the path must
/// exist and be a regular file.
pub open spec fn spec_path_error(f: FileConfig) -> Option<SpecConfigValidationErr> {
    if !f.status.exists {
        Some(SpecConfigValidationErr::PathDoesNotExist(f.path@))
    } else if !f.status.is_file {
        Some(SpecConfigValidationErr::PathIsNotFile(f.path@))
    } else {
        None
    }
}

/// An optional validation error as an error sequence.
pub open spec fn spec_opt_errs(o: Option<SpecConfigValidationErr>) -> Seq<SpecAnalysisConfigErr> {
    match o {
        None => Seq::empty(),
        Some(e) => seq![SpecAnalysisConfigErr::Validation(e)],
    }
}

/// All validation errors of one file: the extension check, then the path
/// check.
pub open spec fn spec_file_errors(f: FileConfig, exts: Seq<Seq<char>>) -> Seq<
    SpecAnalysisConfigErr,
> {
    spec_opt_errs(spec_ext_error(f.path@, exts)) + spec_opt_errs(spec_path_error(f))
}

/// The views of a vector of configuration errors.
pub open spec fn spec_errs_of(v: Seq<AnalysisConfigErr>) -> Seq<SpecAnalysisConfigErr> {
    v.map_values(|e: AnalysisConfigErr| e@)
}

/// The views of a vector of top-level errors.
pub open spec fn spec_app_errs_of(v: Seq<AppError>) -> Seq<SpecAppError> {
    v.map_values(|e: AppError| e@)
}

impl FileConfig {
    /// Checks this file's extension against `acceptable_exts` and its path
    /// facts, accumulating every violation.
    pub fn validate(&self, acceptable_exts: &Vec<String>) -> (r: Result<
        (),
        Vec<AnalysisConfigErr>,
    >)
        ensures
            match r {
                Ok(()) => spec_file_errors(
                    *self,
                    crate::text::string_views(acceptable_exts@),
                ).len() == 0,
                Err(es) => spec_errs_of(es@) == spec_file_errors(
                    *self,
                    crate::text::string_views(acceptable_exts@),
                ) && es@.len() > 0,
            },
    {
        let ghost exts = crate::text::string_views(acceptable_exts@);
        let mut errors: Vec<AnalysisConfigErr> = Vec::new();

        match self.validate_extension_for_acceptable_exts(acceptable_exts) {
            Ok(()) => {},
            Err(e) => {
                errors.push(e);
            },
        }
        let ghost after_ext = errors@;
        match self.validate_path() {
            Ok(()) => {},
            Err(e) => {
                errors.push(e);
            },
        }
        proof {
            assert(spec_errs_of(errors@) =~= spec_opt_errs(spec_ext_error(self.path@, exts))
                + spec_opt_errs(spec_path_error(*self)));
        }
        if errors.len() != 0 {
            return Err(errors);
        }
        Ok(())
    }

    /// Checks that the path exists and is a regular file, going by the
    /// loader's findings.
    fn validate_path(&self) -> (r: Result<(), AnalysisConfigErr>)
        ensures
            match r {
                Ok(()) => spec_path_error(*self) is None,
                Err(e) => spec_path_error(*self) matches Some(ve) && e@
                    == SpecAnalysisConfigErr::Validation(ve),
            },
    {
        if !self.status.exists {
            return Err(
                AnalysisConfigErr::Validation(
                    ConfigValidationErr::PathDoesNotExist(self.path.clone()),
                ),
            );
        }
        if !self.status.is_file {
            return Err(
                AnalysisConfigErr::Validation(ConfigValidationErr::PathIsNotFile(self.path.clone())),
            );
        }
        Ok(())
    }

    /// Checks the file's extension against the acceptable set.
    fn validate_extension_for_acceptable_exts(&self, acceptable_exts: &Vec<String>) -> (r: Result<
        (),
        AnalysisConfigErr,
    >)
        ensures
            match r {
                Ok(()) => spec_ext_error(self.path@, crate::text::string_views(acceptable_exts@))
                    is None,
                Err(e) => spec_ext_error(self.path@, crate::text::string_views(acceptable_exts@))
                    matches Some(ve) && e@ == SpecAnalysisConfigErr::Validation(ve),
            },
    {
        let ghost exts = crate::text::string_views(acceptable_exts@);
        match extension_of_path(self.path.as_str()) {
            None => Err(
                AnalysisConfigErr::Validation(ConfigValidationErr::NoExtension(self.path.clone())),
            ),
            Some(e) => {
                let lowered = to_ascii_lowercase(e.as_str());
                let mut i: usize = 0;
                while i < acceptable_exts.len()
                    invariant
                        exts == crate::text::string_views(acceptable_exts@),
                        i <= exts.len(),
                        extension_of(self.path@) is Some,
                        lowered@ == lower(extension_of(self.path@)->Some_0),
                        forall|k: int| 0 <= k < i ==> exts[k] != lowered@,
                    decreases exts.len() - i,
                {
                    if lowered == acceptable_exts[i] {
                        proof {
                            assert(exts[i as int] == lowered@);
                            assert(exts.contains(lowered@));
                        }
                        return Ok(());
                    }
                    i = i + 1;
                }
                assert(!exts.contains(lowered@));
                Err(
                    AnalysisConfigErr::Validation(
                        ConfigValidationErr::InvalidExtension(
                            lowered,
                            join_strings(acceptable_exts, ", "),
                        ),
                    ),
                )
            },
        }
    }
}

/// The validation errors of every file of `files`, in file order.
pub open spec fn spec_files_errors(files: Seq<FileConfig>, exts: Seq<Seq<char>>) -> Seq<
    SpecAnalysisConfigErr,
>
    decreases files.len(),
{
    if files.len() == 0 {
        Seq::empty()
    } else {
        spec_files_errors(files.drop_last(), exts) + spec_file_errors(files.last(), exts)
    }
}

/// The axes carried by the files of `files`, as a set.
pub open spec fn spec_used_axes(files: Seq<FileConfig>) -> Set<AccAxis>
    decreases files.len(),
{
    if files.len() == 0 {
        Set::empty()
    } else {
        match files.last().acc_axis {
            Some(a) => spec_used_axes(files.drop_last()).insert(a),
            None => spec_used_axes(files.drop_last()),
        }
    }
}

/// For a multi-axis format, the error of one file judged against the axes
/// the files before it supplied: a missing tag demands one, a tag already
/// supplied is a duplicate.
pub open spec fn spec_axis_file_error(
    prev: Seq<FileConfig>,
    f: FileConfig,
    from: FromType,
    name: Seq<char>,
    id: int,
) -> Seq<SpecAnalysisConfigErr> {
    match f.acc_axis {
        None => seq![
            SpecAnalysisConfigErr::Validation(SpecConfigValidationErr::RequiredAccAxis(name, id)),
        ],
        Some(a) => if spec_used_axes(prev).contains(a) {
            seq![
                SpecAnalysisConfigErr::Validation(
                    SpecConfigValidationErr::DuplicateAccAxis(from.spec_snake_case(), name, id),
                ),
            ]
        } else {
            Seq::empty()
        },
    }
}

/// The axis-layout errors of a multi-axis group, in file order.
pub open spec fn spec_multi_axis_errors(
    files: Seq<FileConfig>,
    from: FromType,
    name: Seq<char>,
    id: int,
) -> Seq<SpecAnalysisConfigErr>
    decreases files.len(),
{
    if files.len() == 0 {
        Seq::empty()
    } else {
        spec_multi_axis_errors(files.drop_last(), from, name, id) + spec_axis_file_error(
            files.drop_last(),
            files.last(),
            from,
            name,
            id,
        )
    }
}

/// The axis-layout errors of a single-axis group: every file carrying an
/// axis tag is a mismatch.
pub open spec fn spec_single_axis_errors(
    files: Seq<FileConfig>,
    from: FromType,
    name: Seq<char>,
    id: int,
) -> Seq<SpecAnalysisConfigErr>
    decreases files.len(),
{
    if files.len() == 0 {
        Seq::empty()
    } else {
        spec_single_axis_errors(files.drop_last(), from, name, id) + (
        if files.last().acc_axis is Some {
            seq![
                SpecAnalysisConfigErr::Validation(
                    SpecConfigValidationErr::MismatchedAccAxis(from.spec_snake_case(), name, id),
                ),
            ]
        } else {
            Seq::empty()
        })
    }
}

/// The axis-layout errors of a group under its format's layout.
pub open spec fn spec_axis_errors(
    files: Seq<FileConfig>,
    from: FromType,
    name: Seq<char>,
    id: int,
) -> Seq<SpecAnalysisConfigErr> {
    if from.spec_is_multi_axis() {
        spec_multi_axis_errors(files, from, name, id)
    } else {
        spec_single_axis_errors(files, from, name, id)
    }
}

/// All validation errors of one group: the per-file checks, then the
/// axis-layout check.
pub open spec fn spec_group_errors(
    g: GroupConfig,
    from: FromType,
    exts: Seq<Seq<char>>,
    name: Seq<char>,
    id: int,
) -> Seq<SpecAnalysisConfigErr> {
    spec_files_errors(g.files@, exts) + spec_axis_errors(g.files@, from, name, id)
}

/// An axis is in a group's used set exactly when some file carries it.
pub proof fn lemma_used_axes_iff(files: Seq<FileConfig>, a: AccAxis)
    ensures
        spec_used_axes(files).contains(a) <==> exists|i: int|
            0 <= i < files.len() && files[i].acc_axis == Some(a),
    decreases files.len(),
{
    if files.len() > 0 {
        let prev = files.drop_last();
        lemma_used_axes_iff(prev, a);
        if spec_used_axes(files).contains(a) {
            if files.last().acc_axis == Some(a) {
                assert(files[files.len() - 1].acc_axis == Some(a));
            } else {
                let i = choose|i: int| 0 <= i < prev.len() && prev[i].acc_axis == Some(a);
                assert(files[i].acc_axis == Some(a));
            }
        }
        if exists|i: int| 0 <= i < files.len() && files[i].acc_axis == Some(a) {
            let i = choose|i: int| 0 <= i < files.len() && files[i].acc_axis == Some(a);
            if i < files.len() - 1 {
                assert(prev[i].acc_axis == Some(a));
            }
        }
    }
}

/// A multi-axis group's axis check passes exactly when every file carries
/// a tag and no tag repeats.
proof fn lemma_multi_axis_errors_empty(
    files: Seq<FileConfig>,
    from: FromType,
    name: Seq<char>,
    id: int,
)
    ensures
        spec_multi_axis_errors(files, from, name, id).len() == 0 <==> {
            &&& forall|i: int| 0 <= i < files.len() ==> (#[trigger] files[i]).acc_axis is Some
            &&& forall|i: int, j: int|
                0 <= i < j < files.len() ==> files[i].acc_axis != files[j].acc_axis
        },
    decreases files.len(),
{
    if files.len() > 0 {
        let prev = files.drop_last();
        let last = files.last();
        lemma_multi_axis_errors_empty(prev, from, name, id);
        assert(forall|i: int| 0 <= i < prev.len() ==> prev[i] == files[i]);
        if spec_multi_axis_errors(files, from, name, id).len() == 0 {
            assert(spec_multi_axis_errors(prev, from, name, id).len() == 0);
            assert(spec_axis_file_error(prev, last, from, name, id).len() == 0);
            let a = last.acc_axis->0;
            assert(!spec_used_axes(prev).contains(a));
            lemma_used_axes_iff(prev, a);
            assert forall|i: int, j: int|
                0 <= i < j < files.len() implies files[i].acc_axis != files[j].acc_axis by {
                if j == files.len() - 1 {
                    if files[i].acc_axis == last.acc_axis {
                        assert(prev[i].acc_axis == Some(a));
                    }
                }
            }
        } else {
            if spec_multi_axis_errors(prev, from, name, id).len() == 0 {
                // the last file's own check must have failed
                if last.acc_axis is Some {
                    let a = last.acc_axis->0;
                    assert(spec_used_axes(prev).contains(a));
                    lemma_used_axes_iff(prev, a);
                    let i = choose|i: int| 0 <= i < prev.len() && prev[i].acc_axis == Some(a);
                    assert(files[i].acc_axis == files[files.len() - 1].acc_axis);
                }
            }
        }
    }
}

/// Law: for a multi-axis format, a group of at least three files passes
/// the axis-layout check exactly when its files supply the three axes
/// {north-south, east-west, up-down} completely, with no file untagged and
/// no axis repeated — which forces exactly three files.  Any duplicate or
/// superset fails; an untagged file fails.
pub proof fn lemma_multi_axis_law(files: Seq<FileConfig>, from: FromType, name: Seq<char>, id: int)
    requires
        from.spec_is_multi_axis(),
        files.len() >= 3,
    ensures
        spec_axis_errors(files, from, name, id).len() == 0 <==> {
            &&& files.len() == 3
            &&& forall|i: int| 0 <= i < files.len() ==> (#[trigger] files[i]).acc_axis is Some
            &&& forall|i: int, j: int|
                0 <= i < j < files.len() ==> files[i].acc_axis != files[j].acc_axis
            &&& spec_used_axes(files) == Set::<AccAxis>::empty().insert(AccAxis::Ns).insert(
                AccAxis::Ew,
            ).insert(AccAxis::Ud)
        },
{
    lemma_multi_axis_errors_empty(files, from, name, id);
    if spec_multi_axis_errors(files, from, name, id).len() == 0 {
        // all tagged and pairwise distinct; three axis values exist, so at
        // most three files fit, and three distinct tags cover all axes
        assert(files.len() == 3) by {
            if files.len() > 3 {
                let a0 = files[0].acc_axis->0;
                let a1 = files[1].acc_axis->0;
                let a2 = files[2].acc_axis->0;
                let a3 = files[3].acc_axis->0;
                assert(a0 != a1 && a0 != a2 && a0 != a3 && a1 != a2 && a1 != a3 && a2 != a3);
            }
        }
        let a0 = files[0].acc_axis->0;
        let a1 = files[1].acc_axis->0;
        let a2 = files[2].acc_axis->0;
        assert(a0 != a1 && a0 != a2 && a1 != a2);
        let all = Set::<AccAxis>::empty().insert(AccAxis::Ns).insert(AccAxis::Ew).insert(
            AccAxis::Ud,
        );
        assert(spec_used_axes(files) =~= all) by {
            assert forall|x: AccAxis| all.contains(x) implies spec_used_axes(files).contains(
                x,
            ) by {
                lemma_used_axes_iff(files, x);
                assert(x == a0 || x == a1 || x == a2);
                assert(files[0].acc_axis == Some(a0));
                assert(files[1].acc_axis == Some(a1));
                assert(files[2].acc_axis == Some(a2));
            }
            assert forall|x: AccAxis| spec_used_axes(files).contains(x) implies all.contains(
                x,
            ) by {
                assert(x == AccAxis::Ns || x == AccAxis::Ew || x == AccAxis::Ud);
            }
        }
    }
}

/// Law: for a single-axis format, a group fails the axis-layout check
/// exactly when some file carries an axis tag.
pub proof fn lemma_single_axis_law(files: Seq<FileConfig>, from: FromType, name: Seq<char>, id: int)
    requires
        !from.spec_is_multi_axis(),
    ensures
        spec_axis_errors(files, from, name, id).len() == 0 <==> (forall|i: int|
            0 <= i < files.len() ==> (#[trigger] files[i]).acc_axis is None),
    decreases files.len(),
{
    if files.len() > 0 {
        let prev = files.drop_last();
        lemma_single_axis_law(prev, from, name, id);
        assert(forall|i: int| 0 <= i < prev.len() ==> prev[i] == files[i]);
        if forall|i: int| 0 <= i < files.len() ==> (#[trigger] files[i]).acc_axis is None {
            assert(files.last().acc_axis is None);
            assert(forall|i: int| 0 <= i < prev.len() ==> (#[trigger] prev[i]).acc_axis is None);
        }
        if spec_single_axis_errors(files, from, name, id).len() == 0 {
            assert(spec_single_axis_errors(prev, from, name, id).len() == 0);
            assert(files.last().acc_axis is None);
            assert forall|i: int| 0 <= i < files.len() implies (#[trigger] files[i]).acc_axis
                is None by {
                if i < files.len() - 1 {
                    assert(prev[i].acc_axis is None);
                }
            }
        }
    }
}

/// Law, at the validator's boundary: a multi-axis group of at least three
/// files whose per-file checks all pass validates exactly when its files
/// supply the three axes completely, with no file untagged and no axis
/// repeated.
pub proof fn lemma_group_multi_axis_validation(
    g: GroupConfig,
    from: FromType,
    exts: Seq<Seq<char>>,
    name: Seq<char>,
    id: int,
)
    requires
        from.spec_is_multi_axis(),
        g.files@.len() >= 3,
        spec_files_errors(g.files@, exts).len() == 0,
    ensures
        spec_group_errors(g, from, exts, name, id).len() == 0 <==> {
            &&& g.files@.len() == 3
            &&& forall|i: int| 0 <= i < g.files@.len() ==> (#[trigger] g.files@[i]).acc_axis
                is Some
            &&& forall|i: int, j: int|
                0 <= i < j < g.files@.len() ==> g.files@[i].acc_axis != g.files@[j].acc_axis
            &&& spec_used_axes(g.files@) == Set::<AccAxis>::empty().insert(AccAxis::Ns).insert(
                AccAxis::Ew,
            ).insert(AccAxis::Ud)
        },
{
    lemma_multi_axis_law(g.files@, from, name, id);
}

/// Law, at the validator's boundary: a single-axis group whose per-file
/// checks all pass fails validation exactly when some file carries an
/// axis tag.
pub proof fn lemma_group_single_axis_validation(
    g: GroupConfig,
    from: FromType,
    exts: Seq<Seq<char>>,
    name: Seq<char>,
    id: int,
)
    requires
        !from.spec_is_multi_axis(),
        spec_files_errors(g.files@, exts).len() == 0,
    ensures
        spec_group_errors(g, from, exts, name, id).len() == 0 <==> (forall|i: int|
            0 <= i < g.files@.len() ==> (#[trigger] g.files@[i]).acc_axis is None),
{
    lemma_single_axis_law(g.files@, from, name, id);
}

impl GroupConfig {
    /// Validates every file of the group and then the group's axis layout,
    /// accumulating every violation.
    pub fn validate(
        &self,
        from: &FromType,
        acceptable_exts: &Vec<String>,
        name: &str,
        id: usize,
    ) -> (r: Result<(), Vec<AnalysisConfigErr>>)
        ensures
            match r {
                Ok(()) => spec_group_errors(
                    *self,
                    *from,
                    string_views(acceptable_exts@),
                    name@,
                    id as int,
                ).len() == 0,
                Err(es) => spec_errs_of(es@) == spec_group_errors(
                    *self,
                    *from,
                    string_views(acceptable_exts@),
                    name@,
                    id as int,
                ) && es@.len() > 0,
            },
    {
        let ghost exts = string_views(acceptable_exts@);
        let mut errors: Vec<AnalysisConfigErr> = Vec::new();
        let mut i: usize = 0;
        while i < self.files.len()
            invariant
                exts == string_views(acceptable_exts@),
                i <= self.files@.len(),
                spec_errs_of(errors@) =~= spec_files_errors(self.files@.take(i as int), exts),
            decreases self.files@.len() - i,
        {
            match self.files[i].validate(acceptable_exts) {
                Ok(()) => {},
                Err(mut es) => {
                    errors.append(&mut es);
                },
            }
            proof {
                assert(self.files@.take(i + 1).drop_last() =~= self.files@.take(i as int));
                assert(self.files@.take(i + 1).last() == self.files@[i as int]);
                assert(spec_errs_of(errors@) =~= spec_files_errors(self.files@.take(i + 1), exts));
            }
            i = i + 1;
        }
        assert(self.files@.take(self.files@.len() as int) =~= self.files@);
        match self.validate_file_by_acc_axis(from, name, id) {
            Ok(()) => {},
            Err(mut es) => {
                errors.append(&mut es);
            },
        }
        proof {
            assert(spec_errs_of(errors@) =~= spec_files_errors(self.files@, exts)
                + spec_axis_errors(self.files@, *from, name@, id as int));
        }
        if errors.len() != 0 {
            return Err(errors);
        }
        Ok(())
    }

    /// Checks the group's files against the format's axis layout: a
    /// multi-axis format needs each of the three axes exactly once; a
    /// single-axis format allows no axis tag at all.
    fn validate_file_by_acc_axis(&self, from: &FromType, name: &str, id: usize) -> (r: Result<
        (),
        Vec<AnalysisConfigErr>,
    >)
        ensures
            match r {
                Ok(()) => spec_axis_errors(self.files@, *from, name@, id as int).len() == 0,
                Err(es) => spec_errs_of(es@) == spec_axis_errors(
                    self.files@,
                    *from,
                    name@,
                    id as int,
                ) && es@.len() > 0,
            },
    {
        let mut errors: Vec<AnalysisConfigErr> = Vec::new();
        if from.is_multi_axis() {
            let mut ns_used = false;
            let mut ew_used = false;
            let mut ud_used = false;
            let mut i: usize = 0;
            while i < self.files.len()
                invariant
                    from.spec_is_multi_axis(),
                    i <= self.files@.len(),
                    ns_used == spec_used_axes(self.files@.take(i as int)).contains(AccAxis::Ns),
                    ew_used == spec_used_axes(self.files@.take(i as int)).contains(AccAxis::Ew),
                    ud_used == spec_used_axes(self.files@.take(i as int)).contains(AccAxis::Ud),
                    spec_errs_of(errors@) =~= spec_multi_axis_errors(
                        self.files@.take(i as int),
                        *from,
                        name@,
                        id as int,
                    ),
                decreases self.files@.len() - i,
            {
                let ghost prev = self.files@.take(i as int);
                match &self.files[i].acc_axis {
                    None => {
                        errors.push(
                            AnalysisConfigErr::Validation(
                                ConfigValidationErr::RequiredAccAxis(name.to_owned(), id),
                            ),
                        );
                    },
                    Some(a) => {
                        let used = match a {
                            AccAxis::Ns => ns_used,
                            AccAxis::Ew => ew_used,
                            AccAxis::Ud => ud_used,
                        };
                        if used {
                            errors.push(
                                AnalysisConfigErr::Validation(
                                    ConfigValidationErr::DuplicateAccAxis(
                                        from.to_snake_case().to_owned(),
                                        name.to_owned(),
                                        id,
                                    ),
                                ),
                            );
                        } else {
                            match a {
                                AccAxis::Ns => {
                                    ns_used = true;
                                },
                                AccAxis::Ew => {
                                    ew_used = true;
                                },
                                AccAxis::Ud => {
                                    ud_used = true;
                                },
                            }
                        }
                    },
                }
                proof {
                    assert(self.files@.take(i + 1).drop_last() =~= prev);
                    assert(self.files@.take(i + 1).last() == self.files@[i as int]);
                    assert(spec_errs_of(errors@) =~= spec_multi_axis_errors(
                        self.files@.take(i + 1),
                        *from,
                        name@,
                        id as int,
                    ));
                }
                i = i + 1;
            }
            assert(self.files@.take(self.files@.len() as int) =~= self.files@);
        } else {
            let mut i: usize = 0;
            while i < self.files.len()
                invariant
                    !from.spec_is_multi_axis(),
                    i <= self.files@.len(),
                    spec_errs_of(errors@) =~= spec_single_axis_errors(
                        self.files@.take(i as int),
                        *from,
                        name@,
                        id as int,
                    ),
                decreases self.files@.len() - i,
            {
                if self.files[i].acc_axis.is_some() {
                    errors.push(
                        AnalysisConfigErr::Validation(
                            ConfigValidationErr::MismatchedAccAxis(
                                from.to_snake_case().to_owned(),
                                name.to_owned(),
                                id,
                            ),
                        ),
                    );
                }
                proof {
                    assert(self.files@.take(i + 1).drop_last() =~= self.files@.take(i as int));
                    assert(self.files@.take(i + 1).last() == self.files@[i as int]);
                    assert(spec_errs_of(errors@) =~= spec_single_axis_errors(
                        self.files@.take(i + 1),
                        *from,
                        name@,
                        id as int,
                    ));
                }
                i = i + 1;
            }
            assert(self.files@.take(self.files@.len() as int) =~= self.files@);
        }
        if errors.len() != 0 {
            return Err(errors);
        }
        Ok(())
    }
}

/// The validation errors of the first `n` groups of plan `c`; group ids
/// are 1-based.
pub open spec fn spec_groups_errors(c: ConversionConfig, n: int) -> Seq<SpecAnalysisConfigErr>
    decreases n,
{
    if n <= 0 {
        Seq::empty()
    } else {
        spec_groups_errors(c, n - 1) + spec_group_errors(
            c.group@[n - 1],
            c.from,
            c.from.spec_acceptable_exts(),
            c.name@,
            n,
        )
    }
}

/// All validation errors of one conversion plan.
pub open spec fn spec_conversion_errors(c: ConversionConfig) -> Seq<SpecAnalysisConfigErr> {
    spec_groups_errors(c, c.group@.len() as int)
}

/// The unit that file `f` of group `g` of plan `c` expands to.
pub open spec fn spec_unit_at(c: ConversionConfig, g: int, f: int)
    -> crate::model::ir::SpecProcessableFile
    recommends
        0 <= g < c.group@.len(),
        0 <= f < c.group@[g].files@.len(),
{
    crate::model::ir::SpecProcessableFile {
        conv_name: c.name@,
        from: c.from,
        to: c.to,
        group_index: g,
        file_index: f,
        acc_axis: c.group@[g].files@[f].acc_axis,
        path: c.group@[g].files@[f].path@,
        data: opt_data_view(c.group@[g].files@[f].data),
    }
}

/// The units of group `g` of plan `c`, in file order.
pub open spec fn spec_group_units(c: ConversionConfig, g: int) -> Seq<
    crate::model::ir::SpecProcessableFile,
>
    recommends
        0 <= g < c.group@.len(),
{
    Seq::new(c.group@[g].files@.len(), |f: int| spec_unit_at(c, g, f))
}

/// The units of the first `n` groups of plan `c`, in group order.
pub open spec fn spec_units_upto(c: ConversionConfig, n: int) -> Seq<
    crate::model::ir::SpecProcessableFile,
>
    decreases n,
{
    if n <= 0 {
        Seq::empty()
    } else {
        spec_units_upto(c, n - 1) + spec_group_units(c, n - 1)
    }
}

/// All units of plan `c`: one per file, groups in order, files in order.
pub open spec fn spec_processable_files(c: ConversionConfig) -> Seq<
    crate::model::ir::SpecProcessableFile,
> {
    spec_units_upto(c, c.group@.len() as int)
}

impl ConversionConfig {
    /// Validates every group of the plan, accumulating every violation.
    pub fn validate(&self) -> (r: Result<(), Vec<AnalysisConfigErr>>)
        ensures
            match r {
                Ok(()) => spec_conversion_errors(*self).len() == 0,
                Err(es) => spec_errs_of(es@) == spec_conversion_errors(*self) && es@.len() > 0,
            },
    {
        let mut errors: Vec<AnalysisConfigErr> = Vec::new();
        let mut g_index: usize = 0;
        while g_index < self.group.len()
            invariant
                g_index <= self.group@.len(),
                spec_errs_of(errors@) =~= spec_groups_errors(*self, g_index as int),
            decreases self.group@.len() - g_index,
        {
            let id: usize = g_index + 1;
            let acceptable_exts = Self::assign_ext_based_on_from(&self.from);
            match self.group[g_index].validate(&self.from, &acceptable_exts, self.name.as_str(), id)
            {
                Ok(()) => {},
                Err(mut es) => {
                    errors.append(&mut es);
                },
            }
            proof {
                assert(spec_errs_of(errors@) =~= spec_groups_errors(*self, g_index + 1));
            }
            g_index = g_index + 1;
        }
        if errors.len() != 0 {
            return Err(errors);
        }
        Ok(())
    }

    /// Flattens the plan into one self-contained unit per file.
    pub fn iter_processable_files(&self) -> (r: Vec<ProcessableFile>)
        ensures
            crate::model::ir::unit_views(r@) == spec_processable_files(*self),
    {
        let mut result: Vec<ProcessableFile> = Vec::new();
        let mut g_idx: usize = 0;
        while g_idx < self.group.len()
            invariant
                g_idx <= self.group@.len(),
                crate::model::ir::unit_views(result@) =~= spec_units_upto(*self, g_idx as int),
            decreases self.group@.len() - g_idx,
        {
            let group = &self.group[g_idx];
            let mut f_idx: usize = 0;
            while f_idx < group.files.len()
                invariant
                    g_idx < self.group@.len(),
                    group == &self.group@[g_idx as int],
                    f_idx <= group.files@.len(),
                    crate::model::ir::unit_views(result@) =~= spec_units_upto(*self, g_idx as int)
                        + spec_group_units(*self, g_idx as int).take(f_idx as int),
                decreases group.files@.len() - f_idx,
            {
                let file = &group.files[f_idx];
                let data = match &file.data {
                    None => None,
                    Some(d) => Some(d.clone()),
                };
                let ghost before = result@;
                result.push(
                    ProcessableFile {
                        conv_name: self.name.clone(),
                        from: self.from,
                        to: self.to,
                        group_index: g_idx,
                        file_index: f_idx,
                        acc_axis: file.acc_axis,
                        path: file.path.clone(),
                        data,
                    },
                );
                proof {
                    let u = spec_unit_at(*self, g_idx as int, f_idx as int);
                    let upto = spec_units_upto(*self, g_idx as int);
                    let gu = spec_group_units(*self, g_idx as int);
                    assert(result@.last()@ == u);
                    assert(crate::model::ir::unit_views(result@) =~= crate::model::ir::unit_views(
                        before,
                    ).push(u));
                    assert(gu.take(f_idx + 1) =~= gu.take(f_idx as int).push(u));
                    assert((upto + gu.take(f_idx as int)).push(u) =~= upto + gu.take(
                        f_idx as int,
                    ).push(u));
                    assert(crate::model::ir::unit_views(result@) =~= upto + gu.take(f_idx + 1));
                }
                f_idx = f_idx + 1;
            }
            proof {
                assert(spec_group_units(*self, g_idx as int).take(
                    spec_group_units(*self, g_idx as int).len() as int,
                ) =~= spec_group_units(*self, g_idx as int));
                assert(crate::model::ir::unit_views(result@) =~= spec_units_upto(
                    *self,
                    g_idx + 1,
                ));
            }
            g_idx = g_idx + 1;
        }
        result
    }

    /// The file extensions acceptable for the given source format.
    fn assign_ext_based_on_from(from: &FromType) -> (r: Vec<String>)
        ensures
            string_views(r@) == from.spec_acceptable_exts(),
    {
        let mut r: Vec<String> = Vec::new();
        match from {
            FromType::JpNiedKnet => {
                r.push("ns".to_owned());
                r.push("ew".to_owned());
                r.push("ud".to_owned());
            },
            FromType::UsScsnV2 => {
                r.push("v2".to_owned());
            },
            FromType::NzGeonetV1a => {
                r.push("v1a".to_owned());
            },
            FromType::NzGeonetV2a => {
                r.push("v2a".to_owned());
            },
            FromType::TwPalertSac => {
                r.push("sac".to_owned());
            },
            FromType::TkAfadAsc => {
                r.push("asc".to_owned());
            },
        }
        assert(string_views(r@) =~= from.spec_acceptable_exts());
        r
    }
}

/// The names of a sequence of plans.
pub open spec fn spec_plan_names(convs: Seq<ConversionConfig>) -> Seq<Seq<char>> {
    convs.map_values(|c: ConversionConfig| c.name@)
}

/// The first name that repeats an earlier one, scanning from position `i`.
pub open spec fn spec_first_dup(names: Seq<Seq<char>>, i: int) -> Option<Seq<char>>
    decreases names.len() - i,
{
    if i < 0 || i >= names.len() {
        None
    } else if names.take(i).contains(names[i]) {
        Some(names[i])
    } else {
        spec_first_dup(names, i + 1)
    }
}

/// An error sequence wrapped into top-level errors.
pub open spec fn spec_wrap_app(es: Seq<SpecAnalysisConfigErr>) -> Seq<SpecAppError> {
    es.map_values(|e: SpecAnalysisConfigErr| SpecAppError::AnalysisConfig(e))
}

/// The duplicate-name error of a configuration, if any.
pub open spec fn spec_dup_name_errors(c: Config) -> Seq<SpecAppError> {
    match spec_first_dup(spec_plan_names(c.conversion@), 0) {
        None => Seq::empty(),
        Some(n) => seq![
            SpecAppError::AnalysisConfig(
                SpecAnalysisConfigErr::Validation(SpecConfigValidationErr::DuplicateNames(n)),
            ),
        ],
    }
}

/// The validation errors of the first `n` plans, wrapped as top-level
/// errors.
pub open spec fn spec_convs_errors(convs: Seq<ConversionConfig>, n: int) -> Seq<SpecAppError>
    decreases n,
{
    if n <= 0 {
        Seq::empty()
    } else {
        spec_convs_errors(convs, n - 1) + spec_wrap_app(spec_conversion_errors(convs[n - 1]))
    }
}

/// All validation errors of a configuration: every plan's errors in plan
/// order, then the duplicate-name check.
pub open spec fn spec_config_errors(c: Config) -> Seq<SpecAppError> {
    spec_convs_errors(c.conversion@, c.conversion@.len() as int) + spec_dup_name_errors(c)
}

impl Config {
    /// Validates every conversion plan and the uniqueness of plan names,
    /// accumulating every violation across every plan.
    pub fn validate(&self) -> (r: Result<(), Vec<AppError>>)
        ensures
            match r {
                Ok(()) => spec_config_errors(*self).len() == 0,
                Err(es) => spec_app_errs_of(es@) == spec_config_errors(*self) && es@.len() > 0,
            },
    {
        let mut errors: Vec<AppError> = Vec::new();
        let mut all_names: Vec<String> = Vec::new();
        let mut i: usize = 0;
        while i < self.conversion.len()
            invariant
                i <= self.conversion@.len(),
                spec_app_errs_of(errors@) =~= spec_convs_errors(self.conversion@, i as int),
                string_views(all_names@) =~= spec_plan_names(self.conversion@).take(i as int),
            decreases self.conversion@.len() - i,
        {
            match self.conversion[i].validate() {
                Ok(()) => {},
                Err(es) => {
                    let ghost before = errors@;
                    let ghost all = es@;
                    let mut es = es;
                    while es.len() > 0
                        invariant
                            es@.len() <= all.len(),
                            es@ =~= all.skip(all.len() - es@.len()),
                            errors@.len() == before.len() + all.len() - es@.len(),
                            errors@.take(before.len() as int) =~= before,
                            forall|k: int|
                                0 <= k < all.len() - es@.len() ==> errors@[before.len() + k]
                                    == AppError::AnalysisConfig(all[k]),
                        decreases es@.len(),
                    {
                        let e = es.remove(0);
                        proof {
                            assert(e == all[all.len() - es@.len() - 1]);
                        }
                        errors.push(AppError::AnalysisConfig(e));
                        proof {
                            assert(es@ =~= all.skip(all.len() - es@.len()));
                        }
                    }
                    proof {
                        assert(spec_app_errs_of(errors@) =~= spec_app_errs_of(before)
                            + spec_wrap_app(spec_errs_of(all)));
                    }
                },
            }
            let ghost names_before = all_names@;
            all_names.push(self.conversion[i].name.clone());
            proof {
                assert(spec_app_errs_of(errors@) =~= spec_convs_errors(self.conversion@, i + 1));
                let pn = spec_plan_names(self.conversion@);
                assert(all_names@.last() == self.conversion@[i as int].name);
                assert(string_views(all_names@) =~= string_views(names_before).push(
                    pn[i as int],
                ));
                assert(pn.take(i + 1) =~= pn.take(i as int).push(pn[i as int]));
                assert(string_views(all_names@) =~= pn.take(i + 1));
            }
            i = i + 1;
        }
        proof {
            assert(spec_plan_names(self.conversion@).take(self.conversion@.len() as int)
                =~= spec_plan_names(self.conversion@));
        }
        match self.validate_duplicate_name(&all_names) {
            Ok(()) => {},
            Err(e) => {
                errors.push(AppError::AnalysisConfig(e));
            },
        }
        proof {
            assert(spec_app_errs_of(errors@) =~= spec_config_errors(*self));
        }
        if errors.len() != 0 {
            return Err(errors);
        }
        Ok(())
    }

    /// Reports the first plan name that repeats an earlier one.
    fn validate_duplicate_name(&self, all_names: &Vec<String>) -> (r: Result<
        (),
        AnalysisConfigErr,
    >)
        ensures
            match r {
                Ok(()) => spec_first_dup(string_views(all_names@), 0) is None,
                Err(e) => spec_first_dup(string_views(all_names@), 0) matches Some(n) && e@
                    == SpecAnalysisConfigErr::Validation(SpecConfigValidationErr::DuplicateNames(n)),
            },
    {
        let ghost names = string_views(all_names@);
        let mut i: usize = 0;
        while i < all_names.len()
            invariant
                names == string_views(all_names@),
                i <= names.len(),
                spec_first_dup(names, 0) == spec_first_dup(names, i as int),
            decreases names.len() - i,
        {
            let mut j: usize = 0;
            while j < i
                invariant
                    names == string_views(all_names@),
                    j <= i < names.len(),
                    spec_first_dup(names, 0) == spec_first_dup(names, i as int),
                    forall|k: int| 0 <= k < j ==> names[k] != names[i as int],
                decreases i - j,
            {
                if all_names[j] == all_names[i] {
                    proof {
                        assert(names.take(i as int)[j as int] == names[i as int]);
                        assert(names.take(i as int).contains(names[i as int]));
                    }
                    return Err(
                        AnalysisConfigErr::Validation(
                            ConfigValidationErr::DuplicateNames(all_names[i].clone()),
                        ),
                    );
                }
                j = j + 1;
            }
            proof {
                assert(!names.take(i as int).contains(names[i as int])) by {
                    if names.take(i as int).contains(names[i as int]) {
                        let k = choose|k: int|
                            0 <= k < i && names.take(i as int)[k] == names[i as int];
                        assert(names[k] == names[i as int]);
                    }
                }
            }
            i = i + 1;
        }
        Ok(())
    }
}

} // verus!
