//! Rules that keep a relative path inside one of the project's evidence
//! directories.

use crate::text::{is_blank, lemma_trimmed_empty_iff_blank, str_equal, to_chars, trim};
use vstd::prelude::*;
use vstd::string::*;

verus! {

/// The kinds of component that a path is made of.
#[derive(Clone, Copy, Debug, PartialEq, Eq, Structural)]
pub enum PathPart {
    /// A drive or share prefix.
    Prefix,
    /// The root directory.
    RootDir,
    /// The current directory, `.`.
    CurDir,
    /// The parent directory, `..`.
    ParentDir,
    /// A named file or directory.
    Normal,
}

/// Whether the platform's path syntax makes `path` absolute.
pub uninterp spec fn path_is_absolute(path: Seq<char>) -> bool;

/// The kinds of the components of `path`, in order, as the platform's path
/// syntax cuts them.
pub uninterp spec fn path_components(path: Seq<char>) -> Seq<PathPart>;

/// The path that joining `rel` onto `base` gives.
pub uninterp spec fn joined_path(base: Seq<char>, rel: Seq<char>) -> Seq<char>;

/// Whether `base` is a prefix of `path`, whole components compared.
pub uninterp spec fn path_has_prefix(path: Seq<char>, base: Seq<char>) -> bool;

/// Asks `std::path::Path::is_absolute`. Trusted: the answer depends on the
/// text of the path alone.
#[verifier::external_body]
fn is_absolute(path: &str) -> (r: bool)
    ensures
        r == path_is_absolute(path@),
{
    std::path::Path::new(path).is_absolute()
}

/// Walks `std::path::Path::components` and keeps the kind of each component.
/// Trusted: the kinds depend on the text of the path alone.
#[verifier::external_body]
fn components(path: &str) -> (r: Vec<PathPart>)
    ensures
        r@ == path_components(path@),
{
    let mut out = Vec::new();
    for part in std::path::Path::new(path).components() {
        out.push(
            match part {
                std::path::Component::Prefix(_) => PathPart::Prefix,
                std::path::Component::RootDir => PathPart::RootDir,
                std::path::Component::CurDir => PathPart::CurDir,
                std::path::Component::ParentDir => PathPart::ParentDir,
                std::path::Component::Normal(_) => PathPart::Normal,
            },
        );
    }
    out
}

/// Joins with `std::path::Path::join`. Trusted: the joined path depends on the
/// two texts alone.
#[verifier::external_body]
pub(crate) fn join(base: &str, rel: &str) -> (r: String)
    ensures
        r@ == joined_path(base@, rel@),
{
    std::path::Path::new(base).join(rel).to_string_lossy().into_owned()
}

/// Asks `std::path::Path::starts_with`. Trusted: the answer depends on the two
/// texts alone.
#[verifier::external_body]
fn has_prefix(path: &str, base: &str) -> (r: bool)
    ensures
        r == path_has_prefix(path@, base@),
{
    std::path::Path::new(path).starts_with(base)
}

/// The directory, relative to the base directory, that a logical root names.
pub open spec fn project_subdir(logical_root: Seq<char>) -> Option<Seq<char>> {
    if logical_root == "status"@ {
        Some("gumgang_meeting/status"@)
    } else if logical_root == "ui"@ {
        Some("gumgang_meeting/ui"@)
    } else if logical_root == "conversations"@ {
        Some("gumgang_meeting/conversations"@)
    } else if logical_root == "sessions"@ {
        Some("gumgang_meeting/sessions"@)
    } else {
        None
    }
}

/// The complaint about a logical root that is not known.
pub open spec fn invalid_root_message() -> Seq<char> {
    "invalid root (must be one of: status|ui|conversations|sessions)"@
}

/// The directory of a logical root under `root_dir`; an unknown logical root
/// is refused.
pub fn join_project_root(root_dir: &str, logical_root: &str) -> (r: Result<String, String>)
    ensures
        match project_subdir(logical_root@) {
            Some(sub) => r is Ok && r->Ok_0@ == joined_path(root_dir@, sub),
            None => r is Err && r->Err_0@ == invalid_root_message(),
        },
{
    let allowed: Option<&'static str> = if str_equal(logical_root, "status") {
        Some("gumgang_meeting/status")
    } else if str_equal(logical_root, "ui") {
        Some("gumgang_meeting/ui")
    } else if str_equal(logical_root, "conversations") {
        Some("gumgang_meeting/conversations")
    } else if str_equal(logical_root, "sessions") {
        Some("gumgang_meeting/sessions")
    } else {
        None
    };
    match allowed {
        Some(sub) => Ok(join(root_dir, sub)),
        None => Err(
            "invalid root (must be one of: status|ui|conversations|sessions)".to_owned(),
        ),
    }
}

/// Why a relative path is refused.
#[derive(Clone, Copy, Debug, PartialEq, Eq, Structural)]
pub enum PathFault {
    /// The path is empty or blank.
    Empty,
    /// The path is absolute.
    Absolute,
    /// The path climbs to a parent directory.
    Traversal,
    /// The path holds a root or a prefix.
    InvalidComponent,
}

/// The complaint that belongs to a fault.
pub open spec fn fault_message(fault: PathFault) -> Seq<char> {
    match fault {
        PathFault::Empty => "path must be a non-empty relative path"@,
        PathFault::Absolute => "path must be relative (not absolute)"@,
        PathFault::Traversal => "path traversal ('..') is not allowed"@,
        PathFault::InvalidComponent => "invalid path component"@,
    }
}

/// The fault of the first component that a relative path may not hold.
pub open spec fn first_part_fault(parts: Seq<PathPart>) -> Option<PathFault>
    decreases parts.len(),
{
    if parts.len() == 0 {
        None
    } else {
        match parts[0] {
            PathPart::ParentDir => Some(PathFault::Traversal),
            PathPart::RootDir | PathPart::Prefix => Some(PathFault::InvalidComponent),
            PathPart::CurDir | PathPart::Normal => first_part_fault(parts.drop_first()),
        }
    }
}

/// The fault of a relative path with the given absoluteness and components,
/// if it has one.
pub open spec fn path_fault(rel: Seq<char>, absolute: bool, parts: Seq<PathPart>) -> Option<
    PathFault,
> {
    if is_blank(rel) {
        Some(PathFault::Empty)
    } else if absolute {
        Some(PathFault::Absolute)
    } else {
        first_part_fault(parts)
    }
}

/// Finds the first component that a relative path may not hold.
pub fn check_parts(parts: &Vec<PathPart>) -> (r: Option<PathFault>)
    ensures
        r == first_part_fault(parts@),
{
    let mut i: usize = 0;
    assert(parts@.skip(0) =~= parts@);
    while i < parts.len()
        invariant
            i <= parts.len(),
            first_part_fault(parts@) == first_part_fault(parts@.skip(i as int)),
        decreases parts.len() - i,
    {
        let ghost rest = parts@.skip(i as int);
        proof {
            assert(rest.drop_first() =~= parts@.skip(i + 1));
        }
        match parts[i] {
            PathPart::ParentDir => {
                return Some(PathFault::Traversal);
            },
            PathPart::RootDir => {
                return Some(PathFault::InvalidComponent);
            },
            PathPart::Prefix => {
                return Some(PathFault::InvalidComponent);
            },
            PathPart::CurDir => {},
            PathPart::Normal => {},
        }
        i += 1;
    }
    None
}

/// The complaint that belongs to `fault`.
pub fn describe_fault(fault: PathFault) -> (r: String)
    ensures
        r@ == fault_message(fault),
{
    match fault {
        PathFault::Empty => "path must be a non-empty relative path".to_owned(),
        PathFault::Absolute => "path must be relative (not absolute)".to_owned(),
        PathFault::Traversal => "path traversal ('..') is not allowed".to_owned(),
        PathFault::InvalidComponent => "invalid path component".to_owned(),
    }
}

/// Decides, from what the platform says of `rel`, whether it may be used as a
/// relative path.
pub fn judge_rel_path(rel: &str, absolute: bool, parts: &Vec<PathPart>) -> (r: Option<PathFault>)
    ensures
        r == path_fault(rel@, absolute, parts@),
{
    let text = to_chars(rel);
    let core = trim(&text);
    proof {
        lemma_trimmed_empty_iff_blank(rel@);
    }
    if core.len() == 0 {
        Some(PathFault::Empty)
    } else if absolute {
        Some(PathFault::Absolute)
    } else {
        check_parts(parts)
    }
}

/// Accepts `rel` when it is a relative path that stays below its base: not
/// blank, not absolute, without `..`, root or prefix. Otherwise the complaint
/// names the first rule that it breaks.
pub fn sanitize_rel_path(rel: &str) -> (r: Result<&str, String>)
    ensures
        match path_fault(rel@, path_is_absolute(rel@), path_components(rel@)) {
            Some(fault) => r is Err && r->Err_0@ == fault_message(fault),
            None => r is Ok && r->Ok_0@ == rel@,
        },
{
    let absolute = is_absolute(rel);
    let parts = components(rel);
    match judge_rel_path(rel, absolute, &parts) {
        Some(fault) => Err(describe_fault(fault)),
        None => Ok(rel),
    }
}

/// The complaint about a base directory that could not be resolved.
pub open spec fn unresolved_base_message(cause: Seq<char>) -> Seq<char> {
    "canonicalize base failed: "@ + cause
}

/// Decides whether `child` lies under a base directory, given what resolving
/// them gave: `resolved_parent` is the canonical form of the directory that
/// holds `child`, if it has one that could be resolved, and `resolved_base`
/// is the canonical form of the base or the cause for which it could not be
/// resolved. Without a resolved parent `child` itself is compared.
pub fn canonical_starts_with(
    child: &str,
    resolved_parent: Option<&str>,
    resolved_base: Result<&str, &str>,
) -> (r: Result<bool, String>)
    ensures
        match resolved_base {
            Ok(base) => r is Ok && r->Ok_0 == path_has_prefix(
                match resolved_parent {
                    Some(parent) => parent@,
                    None => child@,
                },
                base@,
            ),
            Err(cause) => r is Err && r->Err_0@ == unresolved_base_message(cause@),
        },
{
    let subject: &str = match resolved_parent {
        Some(parent) => parent,
        None => child,
    };
    match resolved_base {
        Ok(base) => Ok(has_prefix(subject, base)),
        Err(cause) => Err("canonicalize base failed: ".to_owned().concat(cause)),
    }
}

/// Where a save below a logical root goes.
#[derive(Debug)]
pub struct SaveTarget {
    /// The directory of the logical root.
    pub project_root: String,
    /// The file to write, below that directory.
    pub target: String,
}

/// Finds the file that a save of `rel` below the logical root `logical_root`
/// goes to, under the base directory `base_root`. An unknown logical root is
/// refused first, then a relative path that breaks a rule.
pub fn save_target(base_root: &str, logical_root: &str, rel: &str) -> (r: Result<
    SaveTarget,
    String,
>)
    ensures
        match project_subdir(logical_root@) {
            None => r is Err && r->Err_0@ == invalid_root_message(),
            Some(sub) => match path_fault(rel@, path_is_absolute(rel@), path_components(rel@)) {
                Some(fault) => r is Err && r->Err_0@ == fault_message(fault),
                None => {
                    &&& r is Ok
                    &&& r->Ok_0.project_root@ == joined_path(base_root@, sub)
                    &&& r->Ok_0.target@ == joined_path(joined_path(base_root@, sub), rel@)
                },
            },
        },
{
    match join_project_root(base_root, logical_root) {
        Err(message) => Err(message),
        Ok(project_root) => match sanitize_rel_path(rel) {
            Err(message) => Err(message),
            Ok(clean) => {
                let target = join(project_root.as_str(), clean);
                Ok(SaveTarget { project_root, target })
            },
        },
    }
}

/// What stands against a save, given where its target lies and whether it
/// exists: a target outside its root, or one that exists when overwriting is
/// switched off. Overwriting is on unless it is switched off.
pub open spec fn save_objection(inside_root: bool, overwrite: Option<bool>, exists: bool) -> Option<
    Seq<char>,
> {
    if !inside_root {
        Some("path traversal blocked"@)
    } else if overwrite == Some(false) && exists {
        Some("file exists and overwrite=false"@)
    } else {
        None
    }
}

/// Decides whether a save may go ahead.
pub fn check_save(inside_root: bool, overwrite: Option<bool>, exists: bool) -> (r: Result<
    (),
    String,
>)
    ensures
        match save_objection(inside_root, overwrite, exists) {
            Some(message) => r is Err && r->Err_0@ == message,
            None => r is Ok,
        },
{
    let may_overwrite = match overwrite {
        Some(choice) => choice,
        None => true,
    };
    if !inside_root {
        Err("path traversal blocked".to_owned())
    } else if !may_overwrite && exists {
        Err("file exists and overwrite=false".to_owned())
    } else {
        Ok(())
    }
}

/// Whether the directories above the target are to be made before a save:
/// yes, unless it is switched off.
pub fn wants_parent_dirs(ensure_dirs: Option<bool>) -> (r: bool)
    ensures
        r == (ensure_dirs != Some(false)),
{
    match ensure_dirs {
        Some(choice) => choice,
        None => true,
    }
}

} // verus!
