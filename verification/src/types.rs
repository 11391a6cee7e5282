//! Statuses, entries, statistics and filters shared by both comparison modes.
use vstd::prelude::*;

use crate::text::{chars_of, lex_less, lex_lt, lowercase, str_equal, to_lowercase};
use crate::text::{lemma_lex_lt_irreflexive, lemma_lex_lt_total, lemma_lex_lt_transitive};

verus! {

/// File status in two-way comparison.
#[derive(Debug, Clone, Copy, PartialEq, Eq, Hash, Structural)]
pub enum FileStatus {
    Added,
    Modified,
    Deleted,
    Unchanged,
    Symlink,
    Special,
    Permission,
    Error,
}

impl FileStatus {
    /// The canonical lowercase name of a status.
    pub open spec fn name(self) -> Seq<char> {
        match self {
            FileStatus::Added => "added"@,
            FileStatus::Modified => "modified"@,
            FileStatus::Deleted => "deleted"@,
            FileStatus::Unchanged => "unchanged"@,
            FileStatus::Symlink => "symlink"@,
            FileStatus::Special => "special"@,
            FileStatus::Permission => "permission"@,
            FileStatus::Error => "error"@,
        }
    }

    /// The status that a lowercase keyword or alias denotes, if any.
    pub open spec fn keyword(k: Seq<char>) -> Option<FileStatus> {
        if k == "added"@ || k == "add"@ || k == "a"@ {
            Some(FileStatus::Added)
        } else if k == "modified"@ || k == "modify"@ || k == "m"@ {
            Some(FileStatus::Modified)
        } else if k == "deleted"@ || k == "delete"@ || k == "d"@ {
            Some(FileStatus::Deleted)
        } else if k == "unchanged"@ || k == "same"@ || k == "u"@ {
            Some(FileStatus::Unchanged)
        } else if k == "symlink"@ || k == "sym"@ || k == "link"@ {
            Some(FileStatus::Symlink)
        } else if k == "special"@ || k == "spec"@ {
            Some(FileStatus::Special)
        } else if k == "permission"@ || k == "perm"@ {
            Some(FileStatus::Permission)
        } else if k == "error"@ || k == "err"@ {
            Some(FileStatus::Error)
        } else {
            None
        }
    }

    /// Parses an already lowercased keyword or alias.
    pub fn from_keyword(k: &str) -> (r: Option<FileStatus>)
        ensures
            r == FileStatus::keyword(k@),
    {
        if str_equal(k, "added") || str_equal(k, "add") || str_equal(k, "a") {
            Some(FileStatus::Added)
        } else if str_equal(k, "modified") || str_equal(k, "modify") || str_equal(k, "m") {
            Some(FileStatus::Modified)
        } else if str_equal(k, "deleted") || str_equal(k, "delete") || str_equal(k, "d") {
            Some(FileStatus::Deleted)
        } else if str_equal(k, "unchanged") || str_equal(k, "same") || str_equal(k, "u") {
            Some(FileStatus::Unchanged)
        } else if str_equal(k, "symlink") || str_equal(k, "sym") || str_equal(k, "link") {
            Some(FileStatus::Symlink)
        } else if str_equal(k, "special") || str_equal(k, "spec") {
            Some(FileStatus::Special)
        } else if str_equal(k, "permission") || str_equal(k, "perm") {
            Some(FileStatus::Permission)
        } else if str_equal(k, "error") || str_equal(k, "err") {
            Some(FileStatus::Error)
        } else {
            None
        }
    }

    /// Parses a status name or alias, ignoring case.
    pub fn from_str(s: &str) -> (r: Option<FileStatus>)
        ensures
            r == FileStatus::keyword(lowercase(s@)),
    {
        let lowered = to_lowercase(s);
        FileStatus::from_keyword(lowered.as_str())
    }

    /// The canonical name of this status.
    pub fn as_str(&self) -> (r: &'static str)
        ensures
            r@ == self.name(),
    {
        match self {
            FileStatus::Added => "added",
            FileStatus::Modified => "modified",
            FileStatus::Deleted => "deleted",
            FileStatus::Unchanged => "unchanged",
            FileStatus::Symlink => "symlink",
            FileStatus::Special => "special",
            FileStatus::Permission => "permission",
            FileStatus::Error => "error",
        }
    }
}

/// File status in three-way comparison.
#[derive(Debug, Clone, Copy, PartialEq, Eq, Hash, Structural)]
pub enum ThreeWayStatus {
    Unchanged,
    OursOnly,
    TheirsOnly,
    BothSame,
    Conflict,
    AddedOurs,
    AddedTheirs,
    AddedBothSame,
    AddedBothDiff,
    DeletedOurs,
    DeletedTheirs,
    DeletedBoth,
    ModifyDelete,
    DeleteModify,
}

/// Replaces every underscore by a hyphen.
pub open spec fn underscores_to_hyphens(s: Seq<char>) -> Seq<char> {
    s.map_values(|c: char| if c == '_' { '-' } else { c })
}

/// Builds `underscores_to_hyphens` of a string.
pub fn replace_underscores(s: &str) -> (r: String)
    ensures
        r@ == underscores_to_hyphens(s@),
{
    let v = chars_of(s);
    let mut out = String::new();
    let mut i: usize = 0;
    while i < v.len()
        invariant
            i <= v@.len(),
            v@ == s@,
            out@ == underscores_to_hyphens(s@.take(i as int)),
        decreases v@.len() - i,
    {
        let c = v[i];
        if c == '_' {
            crate::text::push_char(&mut out, '-');
        } else {
            crate::text::push_char(&mut out, c);
        }
        proof {
            assert(s@.take(i + 1) =~= s@.take(i as int).push(c));
        }
        i = i + 1;
    }
    proof {
        assert(s@.take(i as int) =~= s@);
    }
    out
}

impl ThreeWayStatus {
    /// The label of a status as the reports print it.
    pub open spec fn name(self) -> Seq<char> {
        match self {
            ThreeWayStatus::Unchanged => "unchanged"@,
            ThreeWayStatus::OursOnly => "ours-only"@,
            ThreeWayStatus::TheirsOnly => "theirs-only"@,
            ThreeWayStatus::BothSame => "both-same"@,
            ThreeWayStatus::Conflict => "CONFLICT"@,
            ThreeWayStatus::AddedOurs => "added-ours"@,
            ThreeWayStatus::AddedTheirs => "added-theirs"@,
            ThreeWayStatus::AddedBothSame => "added-both-same"@,
            ThreeWayStatus::AddedBothDiff => "added-both-diff"@,
            ThreeWayStatus::DeletedOurs => "deleted-ours"@,
            ThreeWayStatus::DeletedTheirs => "deleted-theirs"@,
            ThreeWayStatus::DeletedBoth => "deleted-both"@,
            ThreeWayStatus::ModifyDelete => "modify-delete"@,
            ThreeWayStatus::DeleteModify => "delete-modify"@,
        }
    }

    /// The status that a lowercase, hyphenated keyword denotes, if any.
    pub open spec fn keyword(k: Seq<char>) -> Option<ThreeWayStatus> {
        if k == "unchanged"@ {
            Some(ThreeWayStatus::Unchanged)
        } else if k == "ours-only"@ {
            Some(ThreeWayStatus::OursOnly)
        } else if k == "theirs-only"@ {
            Some(ThreeWayStatus::TheirsOnly)
        } else if k == "both-same"@ {
            Some(ThreeWayStatus::BothSame)
        } else if k == "conflict"@ {
            Some(ThreeWayStatus::Conflict)
        } else if k == "added-ours"@ {
            Some(ThreeWayStatus::AddedOurs)
        } else if k == "added-theirs"@ {
            Some(ThreeWayStatus::AddedTheirs)
        } else if k == "added-both-same"@ {
            Some(ThreeWayStatus::AddedBothSame)
        } else if k == "added-both-diff"@ {
            Some(ThreeWayStatus::AddedBothDiff)
        } else if k == "deleted-ours"@ {
            Some(ThreeWayStatus::DeletedOurs)
        } else if k == "deleted-theirs"@ {
            Some(ThreeWayStatus::DeletedTheirs)
        } else if k == "deleted-both"@ {
            Some(ThreeWayStatus::DeletedBoth)
        } else if k == "modify-delete"@ {
            Some(ThreeWayStatus::ModifyDelete)
        } else if k == "delete-modify"@ {
            Some(ThreeWayStatus::DeleteModify)
        } else {
            None
        }
    }

    /// Parses an already normalized (lowercase, hyphenated) keyword.
    pub fn from_keyword(k: &str) -> (r: Option<ThreeWayStatus>)
        ensures
            r == ThreeWayStatus::keyword(k@),
    {
        if str_equal(k, "unchanged") {
            Some(ThreeWayStatus::Unchanged)
        } else if str_equal(k, "ours-only") {
            Some(ThreeWayStatus::OursOnly)
        } else if str_equal(k, "theirs-only") {
            Some(ThreeWayStatus::TheirsOnly)
        } else if str_equal(k, "both-same") {
            Some(ThreeWayStatus::BothSame)
        } else if str_equal(k, "conflict") {
            Some(ThreeWayStatus::Conflict)
        } else if str_equal(k, "added-ours") {
            Some(ThreeWayStatus::AddedOurs)
        } else if str_equal(k, "added-theirs") {
            Some(ThreeWayStatus::AddedTheirs)
        } else if str_equal(k, "added-both-same") {
            Some(ThreeWayStatus::AddedBothSame)
        } else if str_equal(k, "added-both-diff") {
            Some(ThreeWayStatus::AddedBothDiff)
        } else if str_equal(k, "deleted-ours") {
            Some(ThreeWayStatus::DeletedOurs)
        } else if str_equal(k, "deleted-theirs") {
            Some(ThreeWayStatus::DeletedTheirs)
        } else if str_equal(k, "deleted-both") {
            Some(ThreeWayStatus::DeletedBoth)
        } else if str_equal(k, "modify-delete") {
            Some(ThreeWayStatus::ModifyDelete)
        } else if str_equal(k, "delete-modify") {
            Some(ThreeWayStatus::DeleteModify)
        } else {
            None
        }
    }

    /// Parses a status name, ignoring case and accepting `_` for `-`.
    pub fn from_str(s: &str) -> (r: Option<ThreeWayStatus>)
        ensures
            r == ThreeWayStatus::keyword(underscores_to_hyphens(lowercase(s@))),
    {
        let lowered = to_lowercase(s);
        let normalized = replace_underscores(lowered.as_str());
        ThreeWayStatus::from_keyword(normalized.as_str())
    }

    /// The report label of this status.
    pub fn as_str(&self) -> (r: &'static str)
        ensures
            r@ == self.name(),
    {
        match self {
            ThreeWayStatus::Unchanged => "unchanged",
            ThreeWayStatus::OursOnly => "ours-only",
            ThreeWayStatus::TheirsOnly => "theirs-only",
            ThreeWayStatus::BothSame => "both-same",
            ThreeWayStatus::Conflict => "CONFLICT",
            ThreeWayStatus::AddedOurs => "added-ours",
            ThreeWayStatus::AddedTheirs => "added-theirs",
            ThreeWayStatus::AddedBothSame => "added-both-same",
            ThreeWayStatus::AddedBothDiff => "added-both-diff",
            ThreeWayStatus::DeletedOurs => "deleted-ours",
            ThreeWayStatus::DeletedTheirs => "deleted-theirs",
            ThreeWayStatus::DeletedBoth => "deleted-both",
            ThreeWayStatus::ModifyDelete => "modify-delete",
            ThreeWayStatus::DeleteModify => "delete-modify",
        }
    }

    /// The statuses that need a manual merge.
    pub open spec fn conflicting(self) -> bool {
        self is Conflict || self is AddedBothDiff || self is ModifyDelete || self is DeleteModify
    }

    /// Whether this status is a conflict.
    pub fn is_conflict(&self) -> (r: bool)
        ensures
            r == self.conflicting(),
    {
        match self {
            ThreeWayStatus::Conflict | ThreeWayStatus::AddedBothDiff
            | ThreeWayStatus::ModifyDelete | ThreeWayStatus::DeleteModify => true,
            _ => false,
        }
    }
}


/// Symlink status details.
#[derive(Debug, Clone)]
pub struct SymlinkInfo {
    pub path: String,
    pub target: String,
    pub is_directory: bool,
    pub is_broken: bool,
}

/// Special file type (Unix only).
#[derive(Debug, Clone, Copy, PartialEq, Eq, Structural)]
pub enum SpecialFileType {
    Socket,
    Fifo,
    BlockDevice,
    CharDevice,
}

impl SpecialFileType {
    /// The printed name of a special file type.
    pub open spec fn name(self) -> Seq<char> {
        match self {
            SpecialFileType::Socket => "socket"@,
            SpecialFileType::Fifo => "fifo"@,
            SpecialFileType::BlockDevice => "block device"@,
            SpecialFileType::CharDevice => "char device"@,
        }
    }

    /// The printed name of this special file type.
    pub fn as_str(&self) -> (r: &'static str)
        ensures
            r@ == self.name(),
    {
        match self {
            SpecialFileType::Socket => "socket",
            SpecialFileType::Fifo => "fifo",
            SpecialFileType::BlockDevice => "block device",
            SpecialFileType::CharDevice => "char device",
        }
    }
}

/// Permission change information.
#[derive(Debug, Clone)]
pub struct PermissionChange {
    pub path: String,
    pub old_mode: String,
    pub new_mode: String,
}

/// File entry with comparison result; paths are relative and use `/`.
#[derive(Debug, Clone)]
pub struct FileEntry {
    pub relative_path: String,
    pub status: FileStatus,
    pub is_directory: bool,
    pub source_size: Option<u64>,
    pub target_size: Option<u64>,
    pub source_hash: Option<String>,
    pub target_hash: Option<String>,
    pub symlink_info: Option<SymlinkInfo>,
    pub special_type: Option<SpecialFileType>,
    pub permission_change: Option<PermissionChange>,
    pub error_message: Option<String>,
}

impl FileEntry {
    /// A new entry with no sizes, hashes or details.
    pub fn new(relative_path: String, status: FileStatus, is_directory: bool) -> (r: FileEntry)
        ensures
            r.relative_path == relative_path,
            r.status == status,
            r.is_directory == is_directory,
            r.source_size is None,
            r.target_size is None,
            r.source_hash is None,
            r.target_hash is None,
            r.symlink_info is None,
            r.special_type is None,
            r.permission_change is None,
            r.error_message is None,
    {
        FileEntry {
            relative_path,
            status,
            is_directory,
            source_size: None,
            target_size: None,
            source_hash: None,
            target_hash: None,
            symlink_info: None,
            special_type: None,
            permission_change: None,
            error_message: None,
        }
    }
}

/// Three-way file entry; paths are relative and use `/`.
#[derive(Debug, Clone)]
pub struct ThreeWayEntry {
    pub relative_path: String,
    pub status: ThreeWayStatus,
    pub is_directory: bool,
    pub base_exists: bool,
    pub ours_exists: bool,
    pub theirs_exists: bool,
    pub base_hash: Option<String>,
    pub ours_hash: Option<String>,
    pub theirs_hash: Option<String>,
    pub base_size: Option<u64>,
    pub ours_size: Option<u64>,
    pub theirs_size: Option<u64>,
}

impl ThreeWayEntry {
    /// A new entry in which no version exists yet and nothing is measured.
    pub fn new(relative_path: String, status: ThreeWayStatus, is_directory: bool) -> (r: ThreeWayEntry)
        ensures
            r.relative_path == relative_path,
            r.status == status,
            r.is_directory == is_directory,
            !r.base_exists,
            !r.ours_exists,
            !r.theirs_exists,
            r.base_hash is None,
            r.ours_hash is None,
            r.theirs_hash is None,
            r.base_size is None,
            r.ours_size is None,
            r.theirs_size is None,
    {
        ThreeWayEntry {
            relative_path,
            status,
            is_directory,
            base_exists: false,
            ours_exists: false,
            theirs_exists: false,
            base_hash: None,
            ours_hash: None,
            theirs_hash: None,
            base_size: None,
            ours_size: None,
            theirs_size: None,
        }
    }
}

/// Permission check mode.
#[derive(Debug, Clone, Copy, PartialEq, Eq, Structural)]
pub enum CheckPermissionsMode {
    /// No permission check (`none`).
    Off,
    Scripts,
    All,
}

impl CheckPermissionsMode {
    /// The configuration name of a mode.
    pub open spec fn name(self) -> Seq<char> {
        match self {
            CheckPermissionsMode::Off => "none"@,
            CheckPermissionsMode::Scripts => "scripts"@,
            CheckPermissionsMode::All => "all"@,
        }
    }

    /// The mode that a lowercase keyword denotes, if any.
    pub open spec fn keyword(k: Seq<char>) -> Option<CheckPermissionsMode> {
        if k == "none"@ {
            Some(CheckPermissionsMode::Off)
        } else if k == "scripts"@ {
            Some(CheckPermissionsMode::Scripts)
        } else if k == "all"@ {
            Some(CheckPermissionsMode::All)
        } else {
            None
        }
    }

    /// Parses a mode name, ignoring case.
    pub fn from_str(s: &str) -> (r: Option<CheckPermissionsMode>)
        ensures
            r == CheckPermissionsMode::keyword(lowercase(s@)),
    {
        let lowered = to_lowercase(s);
        let k = lowered.as_str();
        if str_equal(k, "none") {
            Some(CheckPermissionsMode::Off)
        } else if str_equal(k, "scripts") {
            Some(CheckPermissionsMode::Scripts)
        } else if str_equal(k, "all") {
            Some(CheckPermissionsMode::All)
        } else {
            None
        }
    }

    /// The configuration name of this mode.
    pub fn as_str(&self) -> (r: &'static str)
        ensures
            r@ == self.name(),
    {
        match self {
            CheckPermissionsMode::Off => "none",
            CheckPermissionsMode::Scripts => "scripts",
            CheckPermissionsMode::All => "all",
        }
    }
}

impl Default for CheckPermissionsMode {
    fn default() -> (r: CheckPermissionsMode)
        ensures
            r == CheckPermissionsMode::Off,
    {
        CheckPermissionsMode::Off
    }
}

/// Merge style for three-way comparison.
#[derive(Debug, Clone, Copy, PartialEq, Eq, Structural)]
pub enum MergeStyle {
    All,
    Ours,
    Theirs,
}

impl MergeStyle {
    /// The configuration name of a merge style.
    pub open spec fn name(self) -> Seq<char> {
        match self {
            MergeStyle::All => "all"@,
            MergeStyle::Ours => "ours"@,
            MergeStyle::Theirs => "theirs"@,
        }
    }

    /// The merge style that a lowercase keyword denotes, if any.
    pub open spec fn keyword(k: Seq<char>) -> Option<MergeStyle> {
        if k == "all"@ {
            Some(MergeStyle::All)
        } else if k == "ours"@ {
            Some(MergeStyle::Ours)
        } else if k == "theirs"@ {
            Some(MergeStyle::Theirs)
        } else {
            None
        }
    }

    /// Parses a merge style name, ignoring case.
    pub fn from_str(s: &str) -> (r: Option<MergeStyle>)
        ensures
            r == MergeStyle::keyword(lowercase(s@)),
    {
        let lowered = to_lowercase(s);
        let k = lowered.as_str();
        if str_equal(k, "all") {
            Some(MergeStyle::All)
        } else if str_equal(k, "ours") {
            Some(MergeStyle::Ours)
        } else if str_equal(k, "theirs") {
            Some(MergeStyle::Theirs)
        } else {
            None
        }
    }

    /// The configuration name of this merge style.
    pub fn as_str(&self) -> (r: &'static str)
        ensures
            r@ == self.name(),
    {
        match self {
            MergeStyle::All => "all",
            MergeStyle::Ours => "ours",
            MergeStyle::Theirs => "theirs",
        }
    }
}

impl Default for MergeStyle {
    fn default() -> (r: MergeStyle)
        ensures
            r == MergeStyle::All,
    {
        MergeStyle::All
    }
}

/// Color output mode.
#[derive(Debug, Clone, Copy, PartialEq, Eq, Structural)]
pub enum ColorMode {
    Auto,
    Always,
    Never,
}

impl ColorMode {
    /// The configuration name of a color mode.
    pub open spec fn name(self) -> Seq<char> {
        match self {
            ColorMode::Auto => "auto"@,
            ColorMode::Always => "always"@,
            ColorMode::Never => "never"@,
        }
    }

    /// The color mode that a lowercase keyword denotes, if any.
    pub open spec fn keyword(k: Seq<char>) -> Option<ColorMode> {
        if k == "auto"@ {
            Some(ColorMode::Auto)
        } else if k == "always"@ {
            Some(ColorMode::Always)
        } else if k == "never"@ {
            Some(ColorMode::Never)
        } else {
            None
        }
    }

    /// Parses a color mode name, ignoring case.
    pub fn from_str(s: &str) -> (r: Option<ColorMode>)
        ensures
            r == ColorMode::keyword(lowercase(s@)),
    {
        let lowered = to_lowercase(s);
        let k = lowered.as_str();
        if str_equal(k, "auto") {
            Some(ColorMode::Auto)
        } else if str_equal(k, "always") {
            Some(ColorMode::Always)
        } else if str_equal(k, "never") {
            Some(ColorMode::Never)
        } else {
            None
        }
    }

    /// The configuration name of this color mode.
    pub fn as_str(&self) -> (r: &'static str)
        ensures
            r@ == self.name(),
    {
        match self {
            ColorMode::Auto => "auto",
            ColorMode::Always => "always",
            ColorMode::Never => "never",
        }
    }
}

impl Default for ColorMode {
    fn default() -> (r: ColorMode)
        ensures
            r == ColorMode::Auto,
    {
        ColorMode::Auto
    }
}

/// Log level.
#[derive(Debug, Clone, Copy, PartialEq, Eq, Structural)]
pub enum LogLevel {
    Error,
    Warn,
    Info,
    Debug,
}

impl LogLevel {
    /// The configuration name of a log level.
    pub open spec fn name(self) -> Seq<char> {
        match self {
            LogLevel::Error => "error"@,
            LogLevel::Warn => "warn"@,
            LogLevel::Info => "info"@,
            LogLevel::Debug => "debug"@,
        }
    }

    /// The log level that a lowercase keyword denotes, if any.
    pub open spec fn keyword(k: Seq<char>) -> Option<LogLevel> {
        if k == "error"@ {
            Some(LogLevel::Error)
        } else if k == "warn"@ {
            Some(LogLevel::Warn)
        } else if k == "info"@ {
            Some(LogLevel::Info)
        } else if k == "debug"@ {
            Some(LogLevel::Debug)
        } else {
            None
        }
    }

    /// Parses a log level name, ignoring case.
    pub fn from_str(s: &str) -> (r: Option<LogLevel>)
        ensures
            r == LogLevel::keyword(lowercase(s@)),
    {
        let lowered = to_lowercase(s);
        let k = lowered.as_str();
        if str_equal(k, "error") {
            Some(LogLevel::Error)
        } else if str_equal(k, "warn") {
            Some(LogLevel::Warn)
        } else if str_equal(k, "info") {
            Some(LogLevel::Info)
        } else if str_equal(k, "debug") {
            Some(LogLevel::Debug)
        } else {
            None
        }
    }

    /// The configuration name of this log level.
    pub fn as_str(&self) -> (r: &'static str)
        ensures
            r@ == self.name(),
    {
        match self {
            LogLevel::Error => "error",
            LogLevel::Warn => "warn",
            LogLevel::Info => "info",
            LogLevel::Debug => "debug",
        }
    }
}

impl Default for LogLevel {
    fn default() -> (r: LogLevel)
        ensures
            r == LogLevel::Warn,
    {
        LogLevel::Warn
    }
}


/// Comparison statistics.
#[derive(Debug, Clone)]
pub struct ComparisonStats {
    pub added_files: usize,
    pub added_dirs: usize,
    pub modified_files: usize,
    pub deleted_files: usize,
    pub deleted_dirs: usize,
    pub unchanged_files: usize,
    pub symlink_files: usize,
    pub special_files: usize,
    pub permission_files: usize,
    pub error_files: usize,
    pub total_items: usize,
}

impl ComparisonStats {
    /// Added, modified and deleted items together.
    pub open spec fn changes(self) -> int {
        self.added_files + self.added_dirs + self.modified_files + self.deleted_files + self.deleted_dirs
    }

    /// Whether anything differs between the two trees.
    pub open spec fn differs(self) -> bool {
        self.changes() > 0 || self.symlink_files > 0 || self.special_files > 0 || self.permission_files > 0
    }

    /// The number of added, modified and deleted items.
    pub fn total_changes(&self) -> (r: usize)
        requires
            self.changes() <= usize::MAX,
        ensures
            r == self.changes(),
    {
        self.added_files + self.added_dirs + self.modified_files + self.deleted_files + self.deleted_dirs
    }

    /// Whether there is any change, symlink, special file or permission change.
    pub fn has_differences(&self) -> (r: bool)
        ensures
            r == self.differs(),
    {
        self.added_files > 0 || self.added_dirs > 0 || self.modified_files > 0 || self.deleted_files > 0
            || self.deleted_dirs > 0 || self.symlink_files > 0 || self.special_files > 0
            || self.permission_files > 0
    }
}

impl Default for ComparisonStats {
    fn default() -> (r: ComparisonStats)
        ensures
            r.added_files == 0 && r.added_dirs == 0 && r.modified_files == 0 && r.deleted_files == 0
                && r.deleted_dirs == 0 && r.unchanged_files == 0 && r.symlink_files == 0
                && r.special_files == 0 && r.permission_files == 0 && r.error_files == 0
                && r.total_items == 0,
    {
        ComparisonStats {
            added_files: 0,
            added_dirs: 0,
            modified_files: 0,
            deleted_files: 0,
            deleted_dirs: 0,
            unchanged_files: 0,
            symlink_files: 0,
            special_files: 0,
            permission_files: 0,
            error_files: 0,
            total_items: 0,
        }
    }
}

/// Three-way comparison statistics.
#[derive(Debug, Clone)]
pub struct ThreeWayStats {
    pub unchanged: usize,
    pub ours_only: usize,
    pub theirs_only: usize,
    pub both_same: usize,
    pub conflict: usize,
    pub added_ours: usize,
    pub added_theirs: usize,
    pub added_both_same: usize,
    pub added_both_diff: usize,
    pub deleted_ours: usize,
    pub deleted_theirs: usize,
    pub deleted_both: usize,
    pub modify_delete: usize,
    pub delete_modify: usize,
    pub total_items: usize,
}

impl ThreeWayStats {
    /// The number of conflicting items.
    pub open spec fn conflicts(self) -> int {
        self.conflict + self.added_both_diff + self.modify_delete + self.delete_modify
    }

    /// The number of conflicting items.
    pub fn total_conflicts(&self) -> (r: usize)
        requires
            self.conflicts() <= usize::MAX,
        ensures
            r == self.conflicts(),
    {
        self.conflict + self.added_both_diff + self.modify_delete + self.delete_modify
    }

    /// Whether some item is not unchanged.
    pub fn has_differences(&self) -> (r: bool)
        ensures
            r == (self.total_items > self.unchanged),
    {
        self.total_items > self.unchanged
    }

    /// Whether some item is in conflict.
    pub fn has_conflicts(&self) -> (r: bool)
        ensures
            r == (self.conflicts() > 0),
    {
        self.conflict > 0 || self.added_both_diff > 0 || self.modify_delete > 0 || self.delete_modify > 0
    }
}

impl Default for ThreeWayStats {
    fn default() -> (r: ThreeWayStats)
        ensures
            r.unchanged == 0 && r.ours_only == 0 && r.theirs_only == 0 && r.both_same == 0
                && r.conflict == 0 && r.added_ours == 0 && r.added_theirs == 0
                && r.added_both_same == 0 && r.added_both_diff == 0 && r.deleted_ours == 0
                && r.deleted_theirs == 0 && r.deleted_both == 0 && r.modify_delete == 0
                && r.delete_modify == 0 && r.total_items == 0,
    {
        ThreeWayStats {
            unchanged: 0,
            ours_only: 0,
            theirs_only: 0,
            both_same: 0,
            conflict: 0,
            added_ours: 0,
            added_theirs: 0,
            added_both_same: 0,
            added_both_diff: 0,
            deleted_ours: 0,
            deleted_theirs: 0,
            deleted_both: 0,
            modify_delete: 0,
            delete_modify: 0,
            total_items: 0,
        }
    }
}

/// The number of elements of `s` that satisfy `p`.
pub open spec fn count_where<A>(s: Seq<A>, p: spec_fn(A) -> bool) -> nat
    decreases s.len(),
{
    if s.len() == 0 {
        0
    } else {
        count_where(s.drop_last(), p) + if p(s.last()) { 1nat } else { 0nat }
    }
}

/// A count never exceeds the length of the sequence.
pub proof fn lemma_count_le_len<A>(s: Seq<A>, p: spec_fn(A) -> bool)
    ensures
        count_where(s, p) <= s.len(),
    decreases s.len(),
{
    if s.len() > 0 {
        lemma_count_le_len(s.drop_last(), p);
    }
}

/// Strictly increasing in lexicographic order (hence free of repeats).
pub open spec fn strictly_sorted(s: Seq<Seq<char>>) -> bool {
    forall|i: int, j: int| 0 <= i < j < s.len() ==> lex_lt(#[trigger] s[i], #[trigger] s[j])
}

/// A set of status keywords, kept in lexicographic order.
#[derive(Debug)]
pub struct StatusSet {
    items: Vec<String>,
}

impl View for StatusSet {
    type V = Seq<Seq<char>>;

    /// The keywords, in increasing lexicographic order.
    closed spec fn view(&self) -> Seq<Seq<char>> {
        self.items@.map_values(|s: String| s@)
    }
}

impl StatusSet {
    #[verifier::type_invariant]
    spec fn sorted_inv(self) -> bool {
        strictly_sorted(self@)
    }

    /// The empty set.
    pub fn new() -> (r: StatusSet)
        ensures
            r@ == Seq::<Seq<char>>::empty(),
    {
        let r = StatusSet { items: Vec::new() };
        proof {
            assert(r@ =~= Seq::<Seq<char>>::empty());
        }
        r
    }

    /// The number of keywords.
    pub fn len(&self) -> (r: usize)
        ensures
            r == self@.len(),
    {
        self.items.len()
    }

    /// Whether the set holds no keyword.
    pub fn is_empty(&self) -> (r: bool)
        ensures
            r == (self@.len() == 0),
    {
        self.items.len() == 0
    }

    /// The keyword at a position of the ordered set.
    pub fn get(&self, i: usize) -> (r: &str)
        requires
            i < self@.len(),
        ensures
            r@ == self@[i as int],
    {
        self.items[i].as_str()
    }

    /// Whether the set holds the keyword `k`.
    pub fn contains(&self, k: &str) -> (r: bool)
        ensures
            r == self@.contains(k@),
    {
        let mut i: usize = 0;
        while i < self.items.len()
            invariant
                i <= self@.len(),
                self@.len() == self.items@.len(),
                forall|j: int| 0 <= j < i ==> self@[j] != k@,
            decreases self.items@.len() - i,
        {
            if str_equal(self.items[i].as_str(), k) {
                proof {
                    assert(self@[i as int] == k@);
                }
                return true;
            }
            i = i + 1;
        }
        proof {
            if self@.contains(k@) {
                let j = choose|j: int| 0 <= j < self@.len() && self@[j] == k@;
                assert(self@[j] != k@);
            }
        }
        false
    }

    /// Adds the keyword `k`; answers whether it was not there before.
    pub fn insert(&mut self, k: String) -> (r: bool)
        ensures
            r == !old(self)@.contains(k@),
            final(self)@.to_set() == old(self)@.to_set().insert(k@),
            r ==> final(self)@.len() == old(self)@.len() + 1,
            !r ==> final(self)@ == old(self)@,
    {
        proof {
            use_type_invariant(&*self);
        }
        let ghost old_view = self@;
        let n = self.items.len();
        let mut i: usize = 0;
        while i < n && lex_less(self.items[i].as_str(), k.as_str())
            invariant
                i <= n,
                n == self.items@.len(),
                self@ == old_view,
                strictly_sorted(old_view),
                forall|j: int| 0 <= j < i ==> lex_lt(#[trigger] old_view[j], k@),
            decreases n - i,
        {
            i = i + 1;
        }
        if i < n && str_equal(self.items[i].as_str(), k.as_str()) {
            proof {
                assert(old_view[i as int] == k@);
                assert(old_view.to_set() =~= old_view.to_set().insert(k@));
            }
            return false;
        }
        proof {
            // k sorts strictly between the keywords before and after position i
            assert forall|j: int| i <= j < n implies lex_lt(k@, #[trigger] old_view[j]) by {
                lemma_lex_lt_total(old_view[i as int], k@);
                if j > i {
                    lemma_lex_lt_transitive(k@, old_view[i as int], old_view[j]);
                }
            }
            assert(!old_view.contains(k@)) by {
                if old_view.contains(k@) {
                    let j = choose|j: int| 0 <= j < old_view.len() && old_view[j] == k@;
                    if j < i {
                        lemma_lex_lt_irreflexive(k@);
                    } else {
                        lemma_lex_lt_irreflexive(k@);
                    }
                }
            }
        }
        let ghost kv = k@;
        let mut items: Vec<String> = Vec::new();
        std::mem::swap(&mut items, &mut self.items);
        items.insert(i, k);
        proof {
            let nv = items@.map_values(|s: String| s@);
            assert(nv =~= old_view.insert(i as int, kv));
            assert forall|a: int, b: int| 0 <= a < b < nv.len() implies lex_lt(#[trigger] nv[a], #[trigger] nv[b]) by {
                if b < i {
                    assert(nv[a] == old_view[a] && nv[b] == old_view[b]);
                } else if b == i {
                    assert(nv[a] == old_view[a]);
                } else if a < i {
                    assert(nv[a] == old_view[a] && nv[b] == old_view[b - 1]);
                } else if a == i {
                    assert(nv[b] == old_view[b - 1]);
                } else {
                    assert(nv[a] == old_view[a - 1] && nv[b] == old_view[b - 1]);
                }
            }
        }
        self.items = items;
        proof {
            assert(self@ =~= old_view.insert(i as int, kv));
            assert(self@.to_set() =~= old_view.to_set().insert(kv)) by {
                assert forall|x: Seq<char>| self@.to_set().contains(x) <==> old_view.to_set().insert(kv).contains(x) by {
                    if self@.contains(x) {
                        let j = choose|j: int| 0 <= j < self@.len() && self@[j] == x;
                        if j < i {
                            assert(old_view[j] == x);
                        } else if j > i {
                            assert(old_view[j - 1] == x);
                        }
                    }
                    if old_view.contains(x) {
                        let j = choose|j: int| 0 <= j < old_view.len() && old_view[j] == x;
                        if j < i {
                            assert(self@[j] == x);
                        } else {
                            assert(self@[j + 1] == x);
                        }
                    }
                    if x == kv {
                        assert(self@[i as int] == x);
                    }
                }
            }
        }
        true
    }

    /// The keywords, in increasing order.
    pub fn to_vec(&self) -> (r: Vec<String>)
        ensures
            r@.map_values(|s: String| s@) == self@,
            strictly_sorted(self@),
    {
        proof {
            use_type_invariant(self);
        }
        let mut r: Vec<String> = Vec::new();
        let mut i: usize = 0;
        while i < self.items.len()
            invariant
                i <= self.items@.len(),
                self@.len() == self.items@.len(),
                r@.len() == i,
                forall|k: int| 0 <= k < i ==> (#[trigger] r@[k])@ == self@[k],
            decreases self.items@.len() - i,
        {
            let s = self.items[i].clone();
            proof {
                assert(s@ == self@[i as int]);
            }
            r.push(s);
            i = i + 1;
        }
        proof {
            assert(r@.map_values(|s: String| s@) =~= self@);
        }
        r
    }
}

impl Clone for StatusSet {
    /// A copy holding the same keywords.
    fn clone(&self) -> (r: StatusSet)
        ensures
            r@ == self@,
    {
        let items = self.to_vec();
        let r = StatusSet { items };
        r
    }
}

impl Default for StatusSet {
    fn default() -> (r: StatusSet)
        ensures
            r@ == Seq::<Seq<char>>::empty(),
    {
        StatusSet::new()
    }
}

/// Filter for file statuses: keywords to show, keywords to hide, and
/// whether everything not hidden is shown.
#[derive(Debug, Clone)]
pub struct StatusFilter {
    pub included: StatusSet,
    pub excluded: StatusSet,
    pub include_all: bool,
}

impl StatusFilter {
    /// The filter has no effect.
    pub open spec fn blank(self) -> bool {
        self.included@.len() == 0 && self.excluded@.len() == 0 && !self.include_all
    }

    /// Whether the filter lets an item whose status is named `name` through.
    pub open spec fn admits(self, name: Seq<char>) -> bool {
        if self.blank() {
            true
        } else if self.excluded@.contains(name) {
            false
        } else if self.include_all || self.included@.contains(name) {
            true
        } else {
            self.included@.len() == 0
        }
    }

    /// The filter that lets everything through.
    pub fn new() -> (r: StatusFilter)
        ensures
            r.blank(),
            r.included@.len() == 0,
            r.excluded@.len() == 0,
            !r.include_all,
    {
        StatusFilter { included: StatusSet::new(), excluded: StatusSet::new(), include_all: false }
    }

    /// Whether the filter has no effect.
    pub fn is_empty(&self) -> (r: bool)
        ensures
            r == self.blank(),
    {
        self.included.is_empty() && self.excluded.is_empty() && !self.include_all
    }

    fn admits_name(&self, name: &str) -> (r: bool)
        ensures
            r == self.admits(name@),
    {
        if self.is_empty() {
            return true;
        }
        if self.excluded.contains(name) {
            return false;
        }
        if self.include_all || self.included.contains(name) {
            return true;
        }
        self.included.is_empty()
    }

    /// Whether an item with the given two-way status is shown.
    pub fn matches(&self, status: FileStatus) -> (r: bool)
        ensures
            r == self.admits(status.name()),
    {
        self.admits_name(status.as_str())
    }

    /// Whether an item with the given three-way status is shown.
    pub fn matches_three_way(&self, status: ThreeWayStatus) -> (r: bool)
        ensures
            r == self.admits(status.name()),
    {
        self.admits_name(status.as_str())
    }
}

impl Default for StatusFilter {
    fn default() -> (r: StatusFilter)
        ensures
            r.blank(),
            r.included@.len() == 0,
            r.excluded@.len() == 0,
            !r.include_all,
    {
        StatusFilter::new()
    }
}

/// Copy result for a single file.
#[derive(Debug, Clone)]
pub struct CopyResult {
    pub path: String,
    pub success: bool,
    pub error_message: Option<String>,
}

/// Patch generation result.
#[derive(Debug, Clone)]
pub struct PatchResult {
    pub path: String,
    pub generated: bool,
    pub skipped_binary: bool,
    pub error_message: Option<String>,
}

/// Overall two-way comparison result.
#[derive(Debug)]
pub struct ComparisonResult {
    pub entries: Vec<FileEntry>,
    pub stats: ComparisonStats,
    pub copy_results: Vec<CopyResult>,
    pub patch_results: Vec<PatchResult>,
}

impl ComparisonResult {
    /// An empty result with zero statistics.
    pub fn new() -> (r: ComparisonResult)
        ensures
            r.entries@.len() == 0,
            r.copy_results@.len() == 0,
            r.patch_results@.len() == 0,
            r.stats.total_items == 0,
            !r.stats.differs(),
            r.stats.added_files == 0 && r.stats.added_dirs == 0 && r.stats.modified_files == 0
                && r.stats.deleted_files == 0 && r.stats.deleted_dirs == 0 && r.stats.unchanged_files == 0
                && r.stats.symlink_files == 0 && r.stats.special_files == 0 && r.stats.permission_files == 0
                && r.stats.error_files == 0,
    {
        ComparisonResult {
            entries: Vec::new(),
            stats: ComparisonStats::default(),
            copy_results: Vec::new(),
            patch_results: Vec::new(),
        }
    }
}

impl Default for ComparisonResult {
    fn default() -> (r: ComparisonResult)
        ensures
            r.entries@.len() == 0,
            r.copy_results@.len() == 0,
            r.patch_results@.len() == 0,
            r.stats.total_items == 0,
    {
        ComparisonResult::new()
    }
}

/// Overall three-way comparison result.
#[derive(Debug)]
pub struct ThreeWayResult {
    pub entries: Vec<ThreeWayEntry>,
    pub stats: ThreeWayStats,
    pub copy_results: Vec<CopyResult>,
}

impl ThreeWayResult {
    /// An empty result with zero statistics.
    pub fn new() -> (r: ThreeWayResult)
        ensures
            r.entries@.len() == 0,
            r.copy_results@.len() == 0,
            r.stats.total_items == 0,
            r.stats.conflicts() == 0,
    {
        ThreeWayResult { entries: Vec::new(), stats: ThreeWayStats::default(), copy_results: Vec::new() }
    }
}

impl Default for ThreeWayResult {
    fn default() -> (r: ThreeWayResult)
        ensures
            r.entries@.len() == 0,
            r.copy_results@.len() == 0,
            r.stats.total_items == 0,
    {
        ThreeWayResult::new()
    }
}

proof fn lemma_texts_differ(x: Seq<char>, y: Seq<char>, i: int)
    requires
        x.len() != y.len() || (0 <= i < x.len() && i < y.len() && x[i] != y[i]),
    ensures
        x != y,
{
}

/// Each three-way status has its own label, and a label (with `conflict`
/// for the upper-case conflict label) is the keyword of its status.
pub proof fn lemma_three_way_names(a: ThreeWayStatus, b: ThreeWayStatus)
    ensures
        a.name() == b.name() ==> a == b,
        a != ThreeWayStatus::Conflict ==> ThreeWayStatus::keyword(a.name()) == Some(a),
        ThreeWayStatus::keyword("conflict"@) == Some(ThreeWayStatus::Conflict),
{
    reveal_strlit("unchanged");
    reveal_strlit("ours-only");
    reveal_strlit("theirs-only");
    reveal_strlit("both-same");
    reveal_strlit("CONFLICT");
    reveal_strlit("added-ours");
    reveal_strlit("added-theirs");
    reveal_strlit("added-both-same");
    reveal_strlit("added-both-diff");
    reveal_strlit("deleted-ours");
    reveal_strlit("deleted-theirs");
    reveal_strlit("deleted-both");
    reveal_strlit("modify-delete");
    reveal_strlit("delete-modify");
    reveal_strlit("conflict");
    lemma_texts_differ("ours-only"@, "unchanged"@, 0);
    lemma_texts_differ("theirs-only"@, "unchanged"@, 0);
    lemma_texts_differ("theirs-only"@, "ours-only"@, 0);
    lemma_texts_differ("both-same"@, "unchanged"@, 0);
    lemma_texts_differ("both-same"@, "ours-only"@, 0);
    lemma_texts_differ("both-same"@, "theirs-only"@, 0);
    lemma_texts_differ("conflict"@, "unchanged"@, 0);
    lemma_texts_differ("conflict"@, "ours-only"@, 0);
    lemma_texts_differ("conflict"@, "theirs-only"@, 0);
    lemma_texts_differ("conflict"@, "both-same"@, 0);
    lemma_texts_differ("added-ours"@, "unchanged"@, 0);
    lemma_texts_differ("added-ours"@, "ours-only"@, 0);
    lemma_texts_differ("added-ours"@, "theirs-only"@, 0);
    lemma_texts_differ("added-ours"@, "both-same"@, 0);
    lemma_texts_differ("added-ours"@, "conflict"@, 0);
    lemma_texts_differ("added-theirs"@, "unchanged"@, 0);
    lemma_texts_differ("added-theirs"@, "ours-only"@, 0);
    lemma_texts_differ("added-theirs"@, "theirs-only"@, 0);
    lemma_texts_differ("added-theirs"@, "both-same"@, 0);
    lemma_texts_differ("added-theirs"@, "conflict"@, 0);
    lemma_texts_differ("added-theirs"@, "added-ours"@, 0);
    lemma_texts_differ("added-both-same"@, "unchanged"@, 0);
    lemma_texts_differ("added-both-same"@, "ours-only"@, 0);
    lemma_texts_differ("added-both-same"@, "theirs-only"@, 0);
    lemma_texts_differ("added-both-same"@, "both-same"@, 0);
    lemma_texts_differ("added-both-same"@, "conflict"@, 0);
    lemma_texts_differ("added-both-same"@, "added-ours"@, 0);
    lemma_texts_differ("added-both-same"@, "added-theirs"@, 0);
    lemma_texts_differ("added-both-diff"@, "unchanged"@, 0);
    lemma_texts_differ("added-both-diff"@, "ours-only"@, 0);
    lemma_texts_differ("added-both-diff"@, "theirs-only"@, 0);
    lemma_texts_differ("added-both-diff"@, "both-same"@, 0);
    lemma_texts_differ("added-both-diff"@, "conflict"@, 0);
    lemma_texts_differ("added-both-diff"@, "added-ours"@, 0);
    lemma_texts_differ("added-both-diff"@, "added-theirs"@, 0);
    lemma_texts_differ("added-both-diff"@, "added-both-same"@, 11);
    lemma_texts_differ("deleted-ours"@, "unchanged"@, 0);
    lemma_texts_differ("deleted-ours"@, "ours-only"@, 0);
    lemma_texts_differ("deleted-ours"@, "theirs-only"@, 0);
    lemma_texts_differ("deleted-ours"@, "both-same"@, 0);
    lemma_texts_differ("deleted-ours"@, "conflict"@, 0);
    lemma_texts_differ("deleted-ours"@, "added-ours"@, 0);
    lemma_texts_differ("deleted-ours"@, "added-theirs"@, 0);
    lemma_texts_differ("deleted-ours"@, "added-both-same"@, 0);
    lemma_texts_differ("deleted-ours"@, "added-both-diff"@, 0);
    lemma_texts_differ("deleted-theirs"@, "unchanged"@, 0);
    lemma_texts_differ("deleted-theirs"@, "ours-only"@, 0);
    lemma_texts_differ("deleted-theirs"@, "theirs-only"@, 0);
    lemma_texts_differ("deleted-theirs"@, "both-same"@, 0);
    lemma_texts_differ("deleted-theirs"@, "conflict"@, 0);
    lemma_texts_differ("deleted-theirs"@, "added-ours"@, 0);
    lemma_texts_differ("deleted-theirs"@, "added-theirs"@, 0);
    lemma_texts_differ("deleted-theirs"@, "added-both-same"@, 0);
    lemma_texts_differ("deleted-theirs"@, "added-both-diff"@, 0);
    lemma_texts_differ("deleted-theirs"@, "deleted-ours"@, 0);
    lemma_texts_differ("deleted-both"@, "unchanged"@, 0);
    lemma_texts_differ("deleted-both"@, "ours-only"@, 0);
    lemma_texts_differ("deleted-both"@, "theirs-only"@, 0);
    lemma_texts_differ("deleted-both"@, "both-same"@, 0);
    lemma_texts_differ("deleted-both"@, "conflict"@, 0);
    lemma_texts_differ("deleted-both"@, "added-ours"@, 0);
    lemma_texts_differ("deleted-both"@, "added-theirs"@, 0);
    lemma_texts_differ("deleted-both"@, "added-both-same"@, 0);
    lemma_texts_differ("deleted-both"@, "added-both-diff"@, 0);
    lemma_texts_differ("deleted-both"@, "deleted-ours"@, 8);
    lemma_texts_differ("deleted-both"@, "deleted-theirs"@, 0);
    lemma_texts_differ("modify-delete"@, "unchanged"@, 0);
    lemma_texts_differ("modify-delete"@, "ours-only"@, 0);
    lemma_texts_differ("modify-delete"@, "theirs-only"@, 0);
    lemma_texts_differ("modify-delete"@, "both-same"@, 0);
    lemma_texts_differ("modify-delete"@, "conflict"@, 0);
    lemma_texts_differ("modify-delete"@, "added-ours"@, 0);
    lemma_texts_differ("modify-delete"@, "added-theirs"@, 0);
    lemma_texts_differ("modify-delete"@, "added-both-same"@, 0);
    lemma_texts_differ("modify-delete"@, "added-both-diff"@, 0);
    lemma_texts_differ("modify-delete"@, "deleted-ours"@, 0);
    lemma_texts_differ("modify-delete"@, "deleted-theirs"@, 0);
    lemma_texts_differ("modify-delete"@, "deleted-both"@, 0);
    lemma_texts_differ("delete-modify"@, "unchanged"@, 0);
    lemma_texts_differ("delete-modify"@, "ours-only"@, 0);
    lemma_texts_differ("delete-modify"@, "theirs-only"@, 0);
    lemma_texts_differ("delete-modify"@, "both-same"@, 0);
    lemma_texts_differ("delete-modify"@, "conflict"@, 0);
    lemma_texts_differ("delete-modify"@, "added-ours"@, 0);
    lemma_texts_differ("delete-modify"@, "added-theirs"@, 0);
    lemma_texts_differ("delete-modify"@, "added-both-same"@, 0);
    lemma_texts_differ("delete-modify"@, "added-both-diff"@, 0);
    lemma_texts_differ("delete-modify"@, "deleted-ours"@, 0);
    lemma_texts_differ("delete-modify"@, "deleted-theirs"@, 0);
    lemma_texts_differ("delete-modify"@, "deleted-both"@, 0);
    lemma_texts_differ("delete-modify"@, "modify-delete"@, 0);
    if a.name() == b.name() && a != b {
        assert(a.name().len() == b.name().len());
        assert(a.name()[0] == b.name()[0]);
        assert(a.name()[a.name().len() - 1] == b.name()[b.name().len() - 1]);
        assert(a.name()[2] == b.name()[2]);
        assert(a.name()[7] == b.name()[7]);
        assert(a.name()[8] == b.name()[8]);
    }
}

} // verus!
