//! Request path guard: validates PHP file paths before execution.
//!
//! - path traversal detection (`..`)
//! - null byte injection prevention
//! - system path blocking (`/etc`, `/var`, `/home`, ...)
//! - execution whitelist and data directory checks
use vstd::prelude::*;

use crate::config::str_views;
use crate::paths::{
    components, components_chars, has_parent, has_parent_chars, join, join_chars, join_path, join_path_chars, path_is_file,
};
use crate::text::{
    chars_eq, chars_of, contains, contains_chars, ends_with, ends_with_chars, lowercase, split_on,
    starts_with, starts_with_chars, string_of, to_lowercase_chars,
};

verus! {

/// Why a path was refused.
pub enum PathGuardError {
    /// The path climbs out of the root with `..`.
    PathTraversal { path: String },
    /// The path holds a NUL character.
    NullByte { path: String },
    /// The path reaches a system directory.
    BlockedPath { path: String },
}

impl PathGuardError {
    /// The error message.
    pub fn message(&self) -> (r: String)
        ensures
            r@ == match self {
                PathGuardError::PathTraversal { path } => "Path traversal detected: "@ + path@,
                PathGuardError::NullByte { path } => "Null byte in path: "@ + path@,
                PathGuardError::BlockedPath { path } => "Access to blocked system path: "@ + path@,
            },
    {
        let (head, path) = match self {
            PathGuardError::PathTraversal { path } => ("Path traversal detected: ", path),
            PathGuardError::NullByte { path } => ("Null byte in path: ", path),
            PathGuardError::BlockedPath { path } => ("Access to blocked system path: ", path),
        };
        let mut m = chars_of(head);
        let p = chars_of(path.as_str());
        crate::text::push_all(&mut m, p.as_slice());
        string_of(m.as_slice())
    }
}

/// System directories that are never served.
pub open spec fn blocked_prefixes() -> Seq<Seq<char>> {
    seq![
        "/etc"@, "/var"@, "/home"@, "/root"@, "/proc"@, "/sys"@, "/dev"@, "/tmp"@, "/usr/sbin"@,
        "/usr/bin"@, "/sbin"@, "/bin"@,
    ]
}

/// A path is blocked when its lower-case form starts with a system
/// directory or holds a Windows drive (`c:\` or `c:/`).
pub open spec fn is_blocked(path: Seq<char>) -> bool {
    let l = lowercase(path);
    (exists|k: int| 0 <= k < 12 && starts_with(l, #[trigger] blocked_prefixes()[k]))
        || contains(l, "c:\\"@) || contains(l, "c:/"@)
}

/// A path holds a NUL character.
pub open spec fn has_nul(path: Seq<char>) -> bool {
    exists|i: int| 0 <= i < path.len() && path[i] == '\0'
}

/// The outcome of `validate`: the normalized relative path, or why the
/// path was refused (checked in this order: NUL, `..`, system path).
pub open spec fn validate_spec(path: Seq<char>) -> Result<Seq<char>, int> {
    if has_nul(path) {
        Err(1)
    } else if has_parent(split_on(path, '/')) {
        Err(0)
    } else if is_blocked(path) {
        Err(2)
    } else {
        Ok(join(components(path), '/'))
    }
}

/// The file a path names under `root`: its normalized form joined to
/// the root; none for a path with a NUL or a `..` component.
pub open spec fn file_target_of(root: Seq<char>, path: Seq<char>) -> Option<Seq<char>> {
    if has_nul(path) || has_parent(split_on(path, '/')) {
        None
    } else {
        Some(join_path(root, join(components(path), '/')))
    }
}

/// Validates PHP file paths against a document root.
///
/// It does not read file contents; PHP does its own file I/O, restricted
/// by `open_basedir`.
pub struct RequestGuard {
    root: String,
}

fn has_nul_chars(p: &[char]) -> (r: bool)
    ensures
        r == has_nul(p@),
{
    crate::text::find_char(p, '\0').is_some()
        || {
        proof {
            crate::text::lemma_first_occurrence(p@, seq!['\0']);
            if has_nul(p@) {
                let i = choose|i: int| 0 <= i < p@.len() && p@[i] == '\0';
                crate::text::lemma_single_occurs(p@, '\0', i);
            }
        }
        false
    }
}

impl RequestGuard {
    /// The document root, as given.
    pub closed spec fn root_view(&self) -> Seq<char> {
        self.root@
    }

    /// A guard for the document root `root`.
    pub fn new(root: &str) -> (r: Self)
        ensures
            r.root_view() == root@,
    {
        RequestGuard { root: root.to_string() }
    }

    /// The document root.
    pub fn root(&self) -> (r: &str)
        ensures
            r@ == self.root_view(),
    {
        self.root.as_str()
    }

    /// Validate a request path for security issues: null bytes, path
    /// traversal and blocked system paths.  Returns the normalized
    /// relative path on success.
    pub fn validate(&self, path: &str) -> (r: Result<String, PathGuardError>)
        ensures
            match r {
                Ok(n) => validate_spec(path@) == Ok::<Seq<char>, int>(n@),
                Err(PathGuardError::NullByte { path: p }) => validate_spec(path@) == Err::<Seq<char>, int>(1) && p@ == path@,
                Err(PathGuardError::PathTraversal { path: p }) => validate_spec(path@) == Err::<Seq<char>, int>(0) && p@ == path@,
                Err(PathGuardError::BlockedPath { path: p }) => validate_spec(path@) == Err::<Seq<char>, int>(2) && p@ == path@,
            },
    {
        let p = chars_of(path);
        if has_nul_chars(p.as_slice()) {
            return Err(PathGuardError::NullByte { path: path.to_string() });
        }
        let pieces = crate::text::split_chars(p.as_slice(), '/');
        if has_parent_chars(&pieces) {
            return Err(PathGuardError::PathTraversal { path: path.to_string() });
        }
        if check_blocked(p.as_slice()) {
            return Err(PathGuardError::BlockedPath { path: path.to_string() });
        }
        let comps = components_chars(p.as_slice());
        let n = join_chars(&comps, '/');
        Ok(string_of(n.as_slice()))
    }

    /// The file `file_exists` asks the disk about: the normalized path
    /// joined to the root; none for a path with a NUL or a `..` component.
    pub fn file_target(&self, path: &str) -> (r: Option<String>)
        ensures
            match r {
                Some(t) => file_target_of(self.root_view(), path@) == Some(t@),
                None => file_target_of(self.root_view(), path@) is None,
            },
    {
        let p = chars_of(path);
        if has_nul_chars(p.as_slice()) {
            return None;
        }
        let pieces = crate::text::split_chars(p.as_slice(), '/');
        if has_parent_chars(&pieces) {
            return None;
        }
        let comps = components_chars(p.as_slice());
        let n = join_chars(&comps, '/');
        let root = chars_of(self.root.as_str());
        let full = join_path_chars(root.as_slice(), n.as_slice());
        Some(string_of(full.as_slice()))
    }

    /// Whether `path` validates as traversal-free and names a regular file
    /// under the root.  NUL bytes and `..` give `false` without a look at
    /// the disk; otherwise the disk decides, asked about `file_target`.
    pub fn file_exists(&self, path: &str) -> (r: bool)
        ensures
            has_nul(path@) || has_parent(split_on(path@, '/')) ==> !r,
    {
        match self.file_target(path) {
            None => false,
            Some(t) => {
                let full = chars_of(t.as_str());
                path_is_file(full.as_slice())
            },
        }
    }

    /// Check if a path is in a data directory (no PHP execution allowed):
    /// its lower-case form starts with the lower-case form of one of them.
    pub fn is_data_directory(&self, path: &str, data_dirs: &[String]) -> (r: bool)
        ensures
            r == exists|i: int|
                0 <= i < data_dirs@.len() && starts_with(
                    lowercase(path@),
                    lowercase(#[trigger] str_views(data_dirs@)[i]),
                ),
    {
        let p = chars_of(path);
        let lower = to_lowercase_chars(p.as_slice());
        let mut i: usize = 0;
        while i < data_dirs.len()
            invariant
                i <= data_dirs@.len(),
                lower@ == lowercase(path@),
                forall|j: int|
                    0 <= j < i ==> !starts_with(lower@, lowercase(#[trigger] str_views(data_dirs@)[j])),
            decreases data_dirs.len() - i,
        {
            let d = chars_of(data_dirs[i].as_str());
            assert(str_views(data_dirs@)[i as int] == d@);
            let dl = to_lowercase_chars(d.as_slice());
            if starts_with_chars(lower.as_slice(), dl.as_slice()) {
                return true;
            }
            i = i + 1;
        }
        false
    }

    /// Check if a path is in the execution whitelist: equal to an entry
    /// or ending with one.
    pub fn is_whitelisted(&self, path: &str, whitelist: &[String]) -> (r: bool)
        ensures
            r == exists|i: int|
                0 <= i < whitelist@.len() && (path@ == #[trigger] str_views(whitelist@)[i]
                    || ends_with(path@, str_views(whitelist@)[i])),
    {
        let p = chars_of(path);
        let mut i: usize = 0;
        while i < whitelist.len()
            invariant
                i <= whitelist@.len(),
                p@ == path@,
                forall|j: int|
                    0 <= j < i ==> !(path@ == #[trigger] str_views(whitelist@)[j] || ends_with(
                        path@,
                        str_views(whitelist@)[j],
                    )),
            decreases whitelist.len() - i,
        {
            let w = chars_of(whitelist[i].as_str());
            assert(str_views(whitelist@)[i as int] == w@);
            if chars_eq(p.as_slice(), w.as_slice()) || ends_with_chars(p.as_slice(), w.as_slice()) {
                return true;
            }
            i = i + 1;
        }
        false
    }
}

/// Whether `path` is blocked.
fn check_blocked(path: &[char]) -> (r: bool)
    ensures
        r == is_blocked(path@),
{
    let lower = to_lowercase_chars(path);
    let list = ["/etc", "/var", "/home", "/root", "/proc", "/sys", "/dev", "/tmp", "/usr/sbin", "/usr/bin", "/sbin", "/bin"];
    let mut k: usize = 0;
    while k < 12
        invariant
            k <= 12,
            lower@ == lowercase(path@),
            list@.len() == 12,
            forall|j: int| 0 <= j < 12 ==> (#[trigger] list@[j])@ == blocked_prefixes()[j],
            forall|j: int| 0 <= j < k ==> !starts_with(lower@, #[trigger] blocked_prefixes()[j]),
        decreases 12 - k,
    {
        let b = chars_of(list[k]);
        if starts_with_chars(lower.as_slice(), b.as_slice()) {
            return true;
        }
        k = k + 1;
    }
    let c1 = chars_of("c:\\");
    let c2 = chars_of("c:/");
    contains_chars(lower.as_slice(), c1.as_slice()) || contains_chars(lower.as_slice(), c2.as_slice())
}

} // verus!
