//! Exclusion of scanned paths by glob patterns, and the decisions the
//! directory scan makes on each entry it finds.
use globset::{Glob, GlobSet, GlobSetBuilder};
use vstd::prelude::*;

use crate::error::DiffCopyError;
use crate::text::{push_str, texts};
use crate::types::SpecialFileType;
use crate::utils::{components, path_components};

verus! {

#[verifier::external_type_specification]
#[verifier::external_body]
pub struct ExGlobError(globset::Error);

/// Exclusion patterns being assembled: globset's builder, the text of each
/// pattern added to it, in order, and whether `\\` is a path separator on
/// this machine (`std::path::is_separator('\\')`, read when the builder is
/// made; globset's default options follow the same answer).
#[verifier::external_body]
pub struct PatternBuilder {
    builder: GlobSetBuilder,
    patterns: Vec<String>,
    backslash_sep: bool,
}

/// A built set of exclusion patterns: globset's set, the texts it was built
/// from, in order, and the answer of `std::path::is_separator('\\')` on this
/// machine.
#[verifier::external_body]
pub struct PatternSet {
    set: GlobSet,
    patterns: Vec<String>,
    backslash_sep: bool,
}

/// The texts of the patterns a builder holds (its `patterns` field).
pub uninterp spec fn builder_globs(b: PatternBuilder) -> Seq<Seq<char>>;

/// Whether `\\` is a path separator, as the builder read it when made (its
/// `backslash_sep` field).
pub uninterp spec fn builder_sep(b: PatternBuilder) -> bool;

/// The texts of the patterns a set was built from (its `patterns` field).
pub uninterp spec fn set_globs(s: PatternSet) -> Seq<Seq<char>>;

/// Whether `\\` is a path separator, as the set records it (its
/// `backslash_sep` field).
pub uninterp spec fn set_sep(s: PatternSet) -> bool;

/// Whether `Glob::new` accepts a pattern, where `sep` tells whether `\\` is
/// a path separator: where it is not, a backslash escapes the next
/// character, and a pattern ending in one is refused.
pub uninterp spec fn glob_parses(p: Seq<char>, sep: bool) -> bool;

/// Whether `GlobSetBuilder::build` succeeds for globs parsed from the given
/// patterns, where `sep` tells whether `\\` is a path separator.
pub uninterp spec fn globs_build(globs: Seq<Seq<char>>, sep: bool) -> bool;

/// What `GlobSet::is_match` answers for a set built from the given patterns
/// and a path, where `sep` tells whether `\\` is a path separator (paths
/// are then read with `\\` as `/`).
pub uninterp spec fn globs_match(globs: Seq<Seq<char>>, path: Seq<char>, sep: bool) -> bool;

/// A new, empty builder (`GlobSetBuilder::new`), which reads
/// `std::path::is_separator('\\')` for this machine. Nothing is claimed of
/// that answer.
#[verifier::external_body]
fn new_builder() -> (r: PatternBuilder)
    ensures
        builder_globs(r) == Seq::<Seq<char>>::empty(),
{
    PatternBuilder { builder: GlobSetBuilder::new(), patterns: Vec::new(), backslash_sep: std::path::is_separator('\\') }
}

/// Parses a pattern with `Glob::new` and, when it parses, adds it to the
/// builder with `GlobSetBuilder::add`, recording its text. The contract
/// claims that the result tells whether the pattern parsed under this
/// machine's answer (which the builder holds), and that the builder then
/// holds the pattern after the ones it held; otherwise it is unchanged.
#[verifier::external_body]
fn add_pattern(b: &mut PatternBuilder, p: &str) -> (ok: bool)
    ensures
        ok == glob_parses(p@, builder_sep(*old(b))),
        builder_sep(*final(b)) == builder_sep(*old(b)),
        builder_globs(*final(b)) == (if ok { builder_globs(*old(b)).push(p@) } else { builder_globs(*old(b)) }),
{
    match Glob::new(p) {
        Ok(g) => {
            b.builder.add(g);
            b.patterns.push(p.to_string());
            true
        },
        Err(_) => false,
    }
}

/// Builds the set of the builder's patterns (`GlobSetBuilder::build`). The
/// contract claims that building succeeds exactly when the patterns build
/// under this machine's answer, and that a set built holds the builder's
/// pattern texts and that answer.
#[verifier::external_body]
fn build_set(b: &PatternBuilder) -> (r: Result<PatternSet, globset::Error>)
    ensures
        r is Ok <==> globs_build(builder_globs(*b), builder_sep(*b)),
        r matches Ok(s) ==> set_globs(s) == builder_globs(*b) && set_sep(s) == builder_sep(*b),
{
    match b.builder.build() {
        Ok(set) => Ok(PatternSet { set, patterns: b.patterns.clone(), backslash_sep: b.backslash_sep }),
        Err(e) => Err(e),
    }
}

/// The message of a glob error (`to_string`); nothing is claimed of it.
#[verifier::external_body]
fn glob_error_text(e: &globset::Error) -> (r: String) {
    e.to_string()
}

/// Whether some pattern of the set matches the path (`GlobSet::is_match`).
/// The contract names the result: `globs_match` of the set's patterns, the
/// path and this machine's answer, which the set holds.
#[verifier::external_body]
fn set_is_match(s: &PatternSet, path: &str) -> (r: bool)
    ensures
        r == globs_match(set_globs(*s), path@, set_sep(*s)),
{
    s.set.is_match(path)
}

/// An entry found by the directory scan.
#[derive(Debug, Clone)]
pub struct ScannedEntry {
    pub relative_path: String,
    pub is_directory: bool,
    pub is_symlink: bool,
    pub is_special: bool,
}

/// Matches paths against the exclusion patterns.
pub struct Scanner {
    exclude_patterns: PatternSet,
}

/// Whether a pattern is also tried below any directory: it neither starts
/// with `**/` nor holds a `/`.
pub open spec fn widened(p: Seq<char>) -> bool {
    !(p.len() >= 3 && p.take(3) == "**/"@) && !p.contains('/')
}

/// The patterns compiled for the given exclusions, while all parse: each
/// pattern, then its `**/` form when it is widened and that form parses.
pub open spec fn compiled(patterns: Seq<Seq<char>>, sep: bool) -> Seq<Seq<char>>
    decreases patterns.len(),
{
    if patterns.len() == 0 {
        Seq::empty()
    } else {
        let p = patterns.last();
        let rest = compiled(patterns.drop_last(), sep).push(p);
        if widened(p) && glob_parses("**/"@ + p, sep) { rest.push("**/"@ + p) } else { rest }
    }
}

/// The first pattern that does not parse, if any.
pub open spec fn first_bad(patterns: Seq<Seq<char>>, sep: bool) -> Option<Seq<char>>
    decreases patterns.len(),
{
    if patterns.len() == 0 {
        None
    } else {
        match first_bad(patterns.drop_last(), sep) {
            Some(b) => Some(b),
            None => if glob_parses(patterns.last(), sep) { None } else { Some(patterns.last()) },
        }
    }
}

/// A pattern that does not parse stays the first bad one as more patterns
/// follow.
proof fn lemma_first_bad_prefix(v: Seq<Seq<char>>, n: int, sep: bool)
    requires
        0 <= n <= v.len(),
        first_bad(v.take(n), sep) is Some,
    ensures
        first_bad(v, sep) == first_bad(v.take(n), sep),
    decreases v.len() - n,
{
    if n < v.len() {
        assert(v.take(n + 1).drop_last() =~= v.take(n));
        lemma_first_bad_prefix(v, n + 1, sep);
    } else {
        assert(v.take(n) =~= v);
    }
}

/// Whether a path is excluded by the set's patterns: the path matches, or
/// one of its components does.
pub open spec fn excluded_by(globs: Seq<Seq<char>>, path: Seq<char>, sep: bool) -> bool {
    globs_match(globs, path, sep) || exists|i: int|
        0 <= i < path_components(path).len() && globs_match(globs, #[trigger] path_components(path)[i], sep)
}

fn starts_with_globstar(p: &str) -> (r: bool)
    ensures
        r == (p@.len() >= 3 && p@.take(3) == "**/"@),
{
    let v = crate::text::chars_of(p);
    proof {
        reveal_strlit("**/");
    }
    if v.len() >= 3 && v[0] == '*' && v[1] == '*' && v[2] == '/' {
        proof {
            assert(p@.take(3) =~= "**/"@);
        }
        true
    } else {
        proof {
            if p@.len() >= 3 && p@.take(3) == "**/"@ {
                assert(p@.take(3)[0] == '*');
                assert(p@.take(3)[1] == '*');
                assert(p@.take(3)[2] == '/');
            }
        }
        false
    }
}

fn has_slash(p: &str) -> (r: bool)
    ensures
        r == p@.contains('/'),
{
    let v = crate::text::chars_of(p);
    let mut i: usize = 0;
    while i < v.len()
        invariant
            i <= v@.len(),
            v@ == p@,
            forall|j: int| 0 <= j < i ==> v@[j] != '/',
        decreases v@.len() - i,
    {
        if v[i] == '/' {
            proof {
                assert(p@[i as int] == '/');
            }
            return true;
        }
        i = i + 1;
    }
    false
}

/// What compiling the exclusion patterns gives on a machine where `\\` is a
/// path separator (`sep`) or not: the first pattern that does not parse is
/// refused with its text; otherwise the scanner holds the compiled patterns
/// and the flag, exactly when they build, and a failed build is reported as
/// an invalid pattern.
pub open spec fn scanner_outcome(patterns: Seq<Seq<char>>, sep: bool, r: Result<Scanner, DiffCopyError>) -> bool {
    match first_bad(patterns, sep) {
        Some(b) => r matches Err(DiffCopyError::InvalidGlobPattern(m)) && m@ == b,
        None => {
            &&& (r is Ok <==> globs_build(compiled(patterns, sep), sep))
            &&& (r matches Ok(s) ==> s.patterns() == compiled(patterns, sep) && s.backslash_separates() == sep)
            &&& (r matches Err(e) ==> e is InvalidGlobPattern)
        },
    }
}

impl Scanner {
    /// The patterns the scanner matches with.
    pub closed spec fn patterns(self) -> Seq<Seq<char>> {
        set_globs(self.exclude_patterns)
    }

    /// Whether `\\` is a path separator on the machine the scanner was built
    /// on.
    pub closed spec fn backslash_separates(self) -> bool {
        set_sep(self.exclude_patterns)
    }

    /// Compiles the exclusion patterns. A pattern that does not parse is
    /// refused with its text; a pattern without `/` and not starting with
    /// `**/` is also tried below any directory. How backslashes are read
    /// depends on the machine, so the outcome is stated for this machine's
    /// setting.
    pub fn new(patterns: &Vec<String>) -> (r: Result<Scanner, DiffCopyError>)
        ensures
            exists|sep: bool| scanner_outcome(texts(patterns@), sep, r),
    {
        let ghost v = texts(patterns@);
        let mut b = new_builder();
        let ghost sep = builder_sep(b);
        let mut i: usize = 0;
        while i < patterns.len()
            invariant
                i <= patterns@.len(),
                v == texts(patterns@),
                first_bad(v.take(i as int), sep) is None,
                builder_sep(b) == sep,
                builder_globs(b) == compiled(v.take(i as int), sep),
            decreases patterns@.len() - i,
        {
            let p = patterns[i].as_str();
            proof {
                assert(v.take(i + 1).drop_last() =~= v.take(i as int));
                assert(v.take(i + 1).last() == p@);
            }
            if !add_pattern(&mut b, p) {
                proof {
                    assert(first_bad(v.take(i + 1), sep) == Some(p@));
                    lemma_first_bad_prefix(v, i + 1, sep);
                }
                let r = Err(DiffCopyError::InvalidGlobPattern(p.to_owned()));
                proof {
                    assert(scanner_outcome(v, sep, r));
                }
                return r;
            }
            if !starts_with_globstar(p) && !has_slash(p) {
                let mut wide = "**/".to_owned();
                push_str(&mut wide, p);
                add_pattern(&mut b, wide.as_str());
            }
            proof {
                reveal_strlit("**/");
            }
            i = i + 1;
        }
        proof {
            assert(v.take(i as int) =~= v);
        }
        let r = match build_set(&b) {
            Ok(set) => Ok(Scanner { exclude_patterns: set }),
            Err(e) => Err(DiffCopyError::InvalidGlobPattern(glob_error_text(&e))),
        };
        proof {
            assert(scanner_outcome(v, sep, r));
        }
        r
    }

    /// Whether a relative path is excluded: the path or one of its
    /// components matches a pattern.
    pub fn is_excluded(&self, path: &str) -> (r: bool)
        ensures
            r == excluded_by(self.patterns(), path@, self.backslash_separates()),
    {
        let ghost sep = set_sep(self.exclude_patterns);
        if set_is_match(&self.exclude_patterns, path) {
            return true;
        }
        let comps = components(path);
        let ghost cv = texts(comps@);
        let mut i: usize = 0;
        while i < comps.len()
            invariant
                i <= comps@.len(),
                cv == texts(comps@),
                cv == path_components(path@),
                sep == set_sep(self.exclude_patterns),
                forall|j: int| 0 <= j < i ==> !globs_match(set_globs(self.exclude_patterns), #[trigger] cv[j], sep),
            decreases comps@.len() - i,
        {
            if set_is_match(&self.exclude_patterns, comps[i].as_str()) {
                proof {
                    assert(cv[i as int] == comps@[i as int]@);
                }
                return true;
            }
            proof {
                assert(cv[i as int] == comps@[i as int]@);
            }
            i = i + 1;
        }
        set_is_match(&self.exclude_patterns, path)
    }

    /// The entries the scan keeps: those not excluded, in the order found.
    pub fn keep_included(&self, found: &Vec<ScannedEntry>) -> (r: Vec<ScannedEntry>)
        ensures
            r@ == found@.filter(|e: ScannedEntry| !excluded_by(self.patterns(), e.relative_path@, self.backslash_separates())),
    {
        let ghost keep = |e: ScannedEntry| !excluded_by(set_globs(self.exclude_patterns), e.relative_path@, set_sep(self.exclude_patterns));
        let mut r: Vec<ScannedEntry> = Vec::new();
        let mut k: usize = 0;
        while k < found.len()
            invariant
                k <= found@.len(),
                keep == (|e: ScannedEntry| !excluded_by(set_globs(self.exclude_patterns), e.relative_path@, set_sep(self.exclude_patterns))),
                r@ == found@.take(k as int).filter(keep),
            decreases found@.len() - k,
        {
            proof {
                assert(found@.take(k + 1).drop_last() =~= found@.take(k as int));
                reveal(Seq::filter);
            }
            let f = &found[k];
            if !self.is_excluded(f.relative_path.as_str()) {
                let copy = ScannedEntry {
                    relative_path: f.relative_path.clone(),
                    is_directory: f.is_directory,
                    is_symlink: f.is_symlink,
                    is_special: f.is_special,
                };
                proof {
                    assert(copy == found@[k as int]);
                }
                r.push(copy);
            }
            k = k + 1;
        }
        proof {
            assert(found@.take(k as int) =~= found@);
        }
        r
    }
}

/// The first of the special kinds that applies: socket, FIFO, block device,
/// character device.
pub fn get_special_file_type(is_socket: bool, is_fifo: bool, is_block_device: bool, is_char_device: bool) -> (r: Option<SpecialFileType>)
    ensures
        r == (if is_socket {
            Some(SpecialFileType::Socket)
        } else if is_fifo {
            Some(SpecialFileType::Fifo)
        } else if is_block_device {
            Some(SpecialFileType::BlockDevice)
        } else if is_char_device {
            Some(SpecialFileType::CharDevice)
        } else {
            None
        }),
{
    if is_socket {
        Some(SpecialFileType::Socket)
    } else if is_fifo {
        Some(SpecialFileType::Fifo)
    } else if is_block_device {
        Some(SpecialFileType::BlockDevice)
    } else if is_char_device {
        Some(SpecialFileType::CharDevice)
    } else {
        None
    }
}

} // verus!
