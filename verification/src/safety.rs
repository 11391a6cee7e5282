//! Safety checks before a run: protected paths and existence of the input
//! directories.
use vstd::prelude::*;

use crate::error::DiffCopyError;
use crate::text::str_equal;

verus! {

/// The system directories that `--force` may never delete on Unix.
pub open spec fn unix_protected() -> Seq<Seq<char>> {
    seq![
        "/"@, "/bin"@, "/boot"@, "/dev"@, "/etc"@, "/home"@, "/lib"@, "/lib32"@, "/lib64"@, "/libx32"@,
        "/media"@, "/mnt"@, "/opt"@, "/proc"@, "/root"@, "/run"@, "/sbin"@, "/srv"@, "/sys"@, "/tmp"@,
        "/usr"@, "/var"@
    ]
}

/// The drive roots and system directories that `--force` may never delete
/// on Windows.
pub open spec fn windows_protected() -> Seq<Seq<char>> {
    seq![
        "A:\\"@, "B:\\"@, "C:\\"@, "D:\\"@, "E:\\"@, "F:\\"@, "G:\\"@, "H:\\"@, "I:\\"@, "J:\\"@, "K:\\"@,
        "L:\\"@, "M:\\"@, "N:\\"@, "O:\\"@, "P:\\"@, "Q:\\"@, "R:\\"@, "S:\\"@, "T:\\"@, "U:\\"@, "V:\\"@,
        "W:\\"@, "X:\\"@, "Y:\\"@, "Z:\\"@, "C:\\Windows"@, "C:\\Program Files"@,
        "C:\\Program Files (x86)"@, "C:\\ProgramData"@, "C:\\Users"@
    ]
}

fn literal_list(items: &[&str]) -> (r: Vec<String>)
    ensures
        r@.map_values(|s: String| s@) == items@.map_values(|s: &str| s@),
{
    let mut r: Vec<String> = Vec::new();
    let mut i: usize = 0;
    while i < items.len()
        invariant
            i <= items@.len(),
            r@.len() == i,
            r@.map_values(|s: String| s@) == items@.take(i as int).map_values(|s: &str| s@),
        decreases items@.len() - i,
    {
        let ghost before = r@;
        let item = items[i].to_owned();
        assert(item@ == items@[i as int]@);
        r.push(item);
        proof {
            let lhs = r@.map_values(|s: String| s@);
            let rhs = items@.take(i + 1).map_values(|s: &str| s@);
            assert(lhs.len() == rhs.len());
            assert forall|k: int| 0 <= k < lhs.len() implies lhs[k] == rhs[k] by {
                if k < i {
                    assert(lhs[k] == before.map_values(|s: String| s@)[k]);
                    assert(rhs[k] == items@.take(i as int).map_values(|s: &str| s@)[k]);
                }
            }
            assert(lhs =~= rhs);
        }
        i = i + 1;
    }
    proof {
        assert(items@.take(i as int) =~= items@);
    }
    r
}

/// The paths that `--force` may never delete: the system directories of the
/// platform, then the home directory (if known), then, on Windows, the
/// directories directly inside the home directory.
pub fn get_protected_paths(home: Option<String>, home_subdirs: Vec<String>, windows: bool) -> (r: Vec<String>)
    ensures
        r@.map_values(|s: String| s@) == (if windows { windows_protected() } else { unix_protected() })
            + (match home { Some(h) => seq![h@], None => Seq::empty() })
            + (if windows && home is Some { home_subdirs@.map_values(|s: String| s@) } else { Seq::empty() }),
{
    let mut r = if windows {
        literal_list(&[
            "A:\\", "B:\\", "C:\\", "D:\\", "E:\\", "F:\\", "G:\\", "H:\\", "I:\\", "J:\\", "K:\\", "L:\\",
            "M:\\", "N:\\", "O:\\", "P:\\", "Q:\\", "R:\\", "S:\\", "T:\\", "U:\\", "V:\\", "W:\\", "X:\\",
            "Y:\\", "Z:\\", "C:\\Windows", "C:\\Program Files", "C:\\Program Files (x86)",
            "C:\\ProgramData", "C:\\Users",
        ])
    } else {
        literal_list(&[
            "/", "/bin", "/boot", "/dev", "/etc", "/home", "/lib", "/lib32", "/lib64", "/libx32", "/media",
            "/mnt", "/opt", "/proc", "/root", "/run", "/sbin", "/srv", "/sys", "/tmp", "/usr", "/var",
        ])
    };
    let ghost base = r@.map_values(|s: String| s@);
    proof {
        if windows {
            assert(base =~= windows_protected());
        } else {
            assert(base =~= unix_protected());
        }
    }
    let has_home = home.is_some();
    if let Some(h) = home {
        let ghost hv = h@;
        r.push(h);
        proof {
            assert(r@.map_values(|s: String| s@) =~= base + seq![hv]);
        }
    } else {
        proof {
            assert(r@.map_values(|s: String| s@) =~= base + Seq::<Seq<char>>::empty());
        }
    }
    let ghost with_home = r@;
    if windows && has_home {
        let mut subdirs = home_subdirs;
        r.append(&mut subdirs);
        proof {
            assert(r@.map_values(|s: String| s@) =~= with_home.map_values(|s: String| s@) + home_subdirs@.map_values(|s: String| s@));
        }
    } else {
        proof {
            assert(r@.map_values(|s: String| s@) =~= with_home.map_values(|s: String| s@) + Seq::<Seq<char>>::empty());
        }
    }
    r
}

/// Whether a path is protected: it equals one of the protected paths (both
/// sides as the file system resolves them, where it can).
pub fn is_protected_path(path: &str, protected: &Vec<String>) -> (r: bool)
    ensures
        r == protected@.map_values(|s: String| s@).contains(path@),
{
    let mut i: usize = 0;
    while i < protected.len()
        invariant
            i <= protected@.len(),
            forall|j: int| 0 <= j < i ==> protected@[j]@ != path@,
        decreases protected@.len() - i,
    {
        if str_equal(protected[i].as_str(), path) {
            proof {
                assert(protected@.map_values(|s: String| s@)[i as int] == path@);
            }
            return true;
        }
        i = i + 1;
    }
    proof {
        let names = protected@.map_values(|s: String| s@);
        assert forall|j: int| 0 <= j < names.len() implies #[trigger] names[j] != path@ by {
            assert(names[j] == protected@[j]@);
        }
    }
    false
}

/// The outcome of validating the input directories: the source must exist,
/// then the target, then the base (when given).
pub open spec fn validation_ok(source_exists: bool, target_exists: bool, base: Option<&str>, base_exists: bool) -> bool {
    source_exists && target_exists && (base is Some ==> base_exists)
}

/// Checks that the source, target and (when given) base directories exist.
pub fn validate_directories(
    source: &str,
    target: &str,
    base: Option<&str>,
    source_exists: bool,
    target_exists: bool,
    base_exists: bool,
) -> (r: Result<(), DiffCopyError>)
    ensures
        r is Ok <==> validation_ok(source_exists, target_exists, base, base_exists),
        r matches Err(e) ==> if !source_exists {
            e matches DiffCopyError::SourceNotFound(p) && p@ == source@
        } else if !target_exists {
            e matches DiffCopyError::TargetNotFound(p) && p@ == target@
        } else {
            e matches DiffCopyError::BaseNotFound(p) && p@ == base->0@
        },
{
    if !source_exists {
        return Err(DiffCopyError::SourceNotFound(source.to_owned()));
    }
    if !target_exists {
        return Err(DiffCopyError::TargetNotFound(target.to_owned()));
    }
    if let Some(b) = base {
        if !base_exists {
            return Err(DiffCopyError::BaseNotFound(b.to_owned()));
        }
    }
    Ok(())
}

/// What to do with an existing output directory.
#[derive(Debug, Clone, Copy, PartialEq, Eq, Structural)]
pub enum OutputDecision {
    /// Go on: the directory does not exist, or a dry run keeps it.
    Proceed,
    /// Refuse: the directory exists and `--force` was not given.
    RefuseExisting,
    /// Refuse: the directory is protected.
    RefuseProtected,
    /// Ask the user, then delete the directory on a yes.
    ConfirmAndDelete,
}

/// Decides how an output directory is handled from whether it exists, the
/// `--force` and `--dry-run` options and whether it is protected.
pub fn output_directory_decision(exists: bool, force: bool, dry_run: bool, protected: bool) -> (r: OutputDecision)
    ensures
        r == (if !exists {
            OutputDecision::Proceed
        } else if !force {
            OutputDecision::RefuseExisting
        } else if dry_run {
            OutputDecision::Proceed
        } else if protected {
            OutputDecision::RefuseProtected
        } else {
            OutputDecision::ConfirmAndDelete
        }),
{
    if !exists {
        OutputDecision::Proceed
    } else if !force {
        OutputDecision::RefuseExisting
    } else if dry_run {
        OutputDecision::Proceed
    } else if protected {
        OutputDecision::RefuseProtected
    } else {
        OutputDecision::ConfirmAndDelete
    }
}

/// Whether a typed answer confirms deletion: `y` or `yes`, once trimmed and
/// lowercased.
pub fn is_confirmation(answer: &str) -> (r: bool)
    ensures
        r == (answer@ == "y"@ || answer@ == "yes"@),
{
    str_equal(answer, "y") || str_equal(answer, "yes")
}

} // verus!
