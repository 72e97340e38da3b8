//! The sandbox: every path that is read or written is first made canonical
//! and then held against the serving root.

use vstd::prelude::*;
use vstd::string::*;
use crate::text::{
    chars_of, has_prefix, join, last_index, last_index_of, matches_at, slice_of, text_of,
};

verus! {

/// Why the sandbox refuses a path.
#[derive(Debug, Clone, Copy, PartialEq, Eq, Structural)]
pub enum SandboxError {
    /// The path could not be made canonical.
    Invalid,
    /// The canonical path lies outside the serving root.
    OutOfScope,
}

/// `path` is `root` itself or lies below it. Both are canonical paths:
/// absolute, without `.` or `..` and without doubled separators, so whole
/// components are compared when the character after the prefix is a separator.
pub open spec fn is_within(root: Seq<char>, path: Seq<char>) -> bool {
    path == root || (has_prefix(path, root) && root.len() < path.len() && (path[root.len() as int]
        == '/' || (root.len() > 0 && root.last() == '/')))
}

/// What the sandbox answers for a candidate whose canonical form is
/// `canonical` (`None` where there is none).
pub open spec fn verdict(root: Seq<char>, canonical: Option<Seq<char>>) -> Result<
    Seq<char>,
    SandboxError,
> {
    match canonical {
        None => Err(SandboxError::Invalid),
        Some(path) => if is_within(root, path) {
            Ok(path)
        } else {
            Err(SandboxError::OutOfScope)
        },
    }
}

/// The text of a sandbox answer.
pub open spec fn answer_text(answer: Result<String, SandboxError>) -> Result<
    Seq<char>,
    SandboxError,
> {
    match answer {
        Ok(path) => Ok(path@),
        Err(e) => Err(e),
    }
}

/// The path starts at the top of the file system.
pub open spec fn is_absolute(path: Seq<char>) -> bool {
    path.len() > 0 && path[0] == '/'
}

/// The directory outside of which nothing is read or written, in canonical
/// form.
pub struct ServingRoot {
    path: String,
}

impl View for ServingRoot {
    type V = Seq<char>;

    closed spec fn view(&self) -> Seq<char> {
        self.path@
    }
}

impl ServingRoot {
    /// Every root is an absolute path.
    #[verifier::type_invariant]
    spec fn absolute(self) -> bool {
        is_absolute(self.path@)
    }

    /// A root from a path that is already canonical. A path that is not
    /// absolute is no root.
    pub fn from_canonical(path: String) -> (root: Option<ServingRoot>)
        ensures
            match root {
                Some(r) => is_absolute(path@) && r@ == path@,
                None => !is_absolute(path@),
            },
    {
        let chars = chars_of(path.as_str());
        if chars.len() > 0 && chars[0] == '/' {
            Some(ServingRoot { path })
        } else {
            None
        }
    }

    /// The root for the directory `scope`, or `None` where that directory
    /// has no canonical form that is an absolute path.
    pub fn locate(scope: &str) -> (root: Option<ServingRoot>)
        ensures
            root matches Some(r) ==> is_absolute(r@),
    {
        match canonicalize(scope) {
            Some(path) => ServingRoot::from_canonical(path),
            None => None,
        }
    }

    /// The canonical path of the root, which is absolute.
    pub fn path(&self) -> (path: &str)
        ensures
            path@ == self@,
            is_absolute(self@),
    {
        proof {
            use_type_invariant(self);
        }
        self.path.as_str()
    }
}

/// Calls `std::path::Path::canonicalize`, which resolves symbolic links and
/// relative segments against the file system. `None` stands for its error and
/// for a canonical path that is not UTF-8. Nothing is claimed of the result:
/// it depends on what is on disk, so callers are verified for every outcome.
#[verifier::external_body]
pub(crate) fn canonicalize(path: &str) -> (canonical: Option<String>) {
    match std::path::Path::new(path).canonicalize() {
        Ok(buffer) => buffer.into_os_string().into_string().ok(),
        Err(_) => None,
    }
}

/// Calls `std::path::Path::is_file`: whether a regular file stands at `path`
/// right now. Nothing is claimed of the result.
#[verifier::external_body]
pub(crate) fn file_exists(path: &str) -> (regular: bool) {
    std::path::Path::new(path).is_file()
}

/// Calls `std::path::Path::is_symlink`: whether a symbolic link stands at
/// `path` right now, wherever it leads. Nothing is claimed of the result.
#[verifier::external_body]
pub(crate) fn is_link(path: &str) -> (link: bool) {
    std::path::Path::new(path).is_symlink()
}

/// Whether the canonical `path` is `root` or lies below it.
pub fn contains_path(root: &str, path: &str) -> (r: bool)
    ensures
        r == is_within(root@, path@),
{
    let base = chars_of(root);
    let full = chars_of(path);
    if !matches_at(&full, &base, 0) {
        proof {
            assert(path@.subrange(0, path@.len() as int) =~= path@);
        }
        return false;
    }
    if full.len() == base.len() {
        proof {
            assert(path@.subrange(0, path@.len() as int) =~= path@);
        }
        return true;
    }
    full[base.len()] == '/' || (base.len() > 0 && base[base.len() - 1] == '/')
}

/// The sandbox's answer for a candidate, given its canonical form.
pub fn judge(root: &ServingRoot, canonical: Option<String>) -> (answer: Result<
    String,
    SandboxError,
>)
    ensures
        answer_text(answer) == verdict(root@, text_of(canonical)),
{
    match canonical {
        None => Err(SandboxError::Invalid),
        Some(path) => {
            if contains_path(root.path(), path.as_str()) {
                Ok(path)
            } else {
                Err(SandboxError::OutOfScope)
            }
        },
    }
}

/// A candidate that has no canonical form, or whose canonical form lies
/// outside the root, is refused, whether or not anything stands there.
pub proof fn lemma_outside_is_rejected(root: Seq<char>, canonical: Option<Seq<char>>)
    requires
        canonical matches Some(path) ==> !is_within(root, path),
    ensures
        verdict(root, canonical) is Err,
        canonical is None ==> verdict(root, canonical) == Err::<Seq<char>, SandboxError>(
            SandboxError::Invalid,
        ),
        canonical is Some ==> verdict(root, canonical) == Err::<Seq<char>, SandboxError>(
            SandboxError::OutOfScope,
        ),
{
}

/// Whatever the sandbox lets through lies within the root.
pub proof fn lemma_allowed_is_within(root: Seq<char>, canonical: Option<Seq<char>>)
    ensures
        verdict(root, canonical) matches Ok(path) ==> is_within(root, path) && canonical == Some(
            path,
        ),
{
}

/// Makes `candidate` canonical and holds it against the root. Every path that
/// is handed out lies within the root.
pub fn sandbox(root: &ServingRoot, candidate: &str) -> (answer: Result<String, SandboxError>)
    ensures
        answer matches Ok(path) ==> is_within(root@, path@),
{
    let canonical = canonicalize(candidate);
    judge(root, canonical)
}

/// The canonical form of `path` where the sandbox allows it.
pub fn get_path_buffer_for_allowed_path(root: &ServingRoot, path: &str) -> (allowed: Option<
    String,
>)
    ensures
        allowed matches Some(p) ==> is_within(root@, p@),
{
    match sandbox(root, path) {
        Ok(canonical) => Some(canonical),
        Err(_) => None,
    }
}

/// The last component of a path: what follows its last separator.
pub open spec fn file_name(path: Seq<char>) -> Seq<char> {
    path.subrange(last_index_of(path, '/') + 1, path.len() as int)
}

/// The extension of a path: what follows the last dot of its file name.
/// There is none where the name has no dot, where its only dot is its first
/// character, and for the name `..`.
pub open spec fn extension(path: Seq<char>) -> Option<Seq<char>> {
    let name = file_name(path);
    let dot = last_index_of(name, '.');
    if dot <= 0 || name == seq!['.', '.'] {
        None
    } else {
        Some(name.subrange(dot + 1, name.len() as int))
    }
}

/// The extension of a path, without its dot.
pub fn extension_of(path: &str) -> (found: Option<String>)
    ensures
        text_of(found) == extension(path@),
{
    let chars = chars_of(path);
    let slash = last_index(&chars, '/');
    let start: usize = match slash {
        Some(i) => {
            assert(i < chars.len());
            i + 1
        },
        None => 0,
    };
    let name = slice_of(path, start, chars.len());
    let name_chars = chars_of(name.as_str());
    match last_index(&name_chars, '.') {
        None => None,
        Some(dot) => {
            if dot == 0 || (name_chars.len() == 2 && name_chars[0] == '.') {
                proof {
                    if dot != 0 {
                        assert(name_chars@ =~= seq!['.', '.']);
                    }
                }
                None
            } else {
                proof {
                    if name_chars@ == seq!['.', '.'] {
                        assert(seq!['.', '.'].len() == 2);
                        assert(seq!['.', '.'][0] == '.');
                    }
                }
                Some(slice_of(name.as_str(), dot + 1, name_chars.len()))
            }
        },
    }
}

/// The directory part of a path: what stands before its last separator; the
/// current directory where it has none, the top where that separator is its
/// first character.
pub open spec fn parent_of(path: Seq<char>) -> Seq<char> {
    let slash = last_index_of(path, '/');
    if slash < 0 {
        seq!['.']
    } else if slash == 0 {
        seq!['/']
    } else {
        path.subrange(0, slash)
    }
}

/// A name under which a new file can be made: not empty, without a
/// separator, and neither of the two names that stand for a directory.
pub open spec fn usable_leaf(leaf: Seq<char>) -> bool {
    &&& leaf.len() > 0
    &&& leaf != seq!['.']
    &&& leaf != seq!['.', '.']
    &&& forall|i: int| 0 <= i < leaf.len() ==> leaf[i] != '/'
}

/// The path of the entry `leaf` of the directory `dir`.
pub open spec fn entry_path(dir: Seq<char>, leaf: Seq<char>) -> Seq<char> {
    if dir.len() > 0 && dir.last() == '/' {
        dir + leaf
    } else {
        dir + seq!['/'] + leaf
    }
}

/// What the sandbox answers for a file that is not there yet, given the
/// canonical form of its directory: the directory is held against the root
/// and the name is put behind it.
pub open spec fn new_file_verdict(
    root: Seq<char>,
    parent_canonical: Option<Seq<char>>,
    leaf: Seq<char>,
) -> Result<Seq<char>, SandboxError> {
    if !usable_leaf(leaf) {
        Err(SandboxError::Invalid)
    } else {
        match verdict(root, parent_canonical) {
            Ok(dir) => Ok(entry_path(dir, leaf)),
            Err(e) => Err(e),
        }
    }
}

/// An entry of a directory within the root lies within the root.
pub proof fn lemma_entry_is_within(root: Seq<char>, dir: Seq<char>, leaf: Seq<char>)
    requires
        is_within(root, dir),
        leaf.len() > 0,
    ensures
        is_within(root, entry_path(dir, leaf)),
{
    let path = entry_path(dir, leaf);
    assert(path.subrange(0, dir.len() as int) =~= dir);
    assert(path.subrange(0, root.len() as int) =~= dir.subrange(0, root.len() as int));
}

/// The directory part and the file name of a path.
pub fn split_leaf(path: &str) -> (parts: (String, String))
    ensures
        parts.0@ == parent_of(path@),
        parts.1@ == file_name(path@),
{
    let chars = chars_of(path);
    let slash = last_index(&chars, '/');
    match slash {
        None => {
            proof {
                reveal_strlit(".");
                assert("."@ =~= seq!['.']);
            }
            (String::from_str("."), slice_of(path, 0, chars.len()))
        },
        Some(i) => {
            assert(i < chars.len());
            let leaf = slice_of(path, i + 1, chars.len());
            if i == 0 {
                proof {
                    reveal_strlit("/");
                    assert("/"@ =~= seq!['/']);
                }
                (String::from_str("/"), leaf)
            } else {
                (slice_of(path, 0, i), leaf)
            }
        },
    }
}

/// Whether a new file can be made under the name `leaf`.
pub fn is_usable_leaf(leaf: &str) -> (usable: bool)
    ensures
        usable == usable_leaf(leaf@),
{
    let chars = chars_of(leaf);
    let mut i: usize = 0;
    while i < chars.len()
        invariant
            i <= chars.len(),
            chars@ == leaf@,
            forall|j: int| 0 <= j < i ==> chars@[j] != '/',
        decreases chars.len() - i,
    {
        if chars[i] == '/' {
            return false;
        }
        i += 1;
    }
    if chars.len() == 0 {
        false
    } else if chars.len() == 1 && chars[0] == '.' {
        assert(chars@ =~= seq!['.']);
        false
    } else if chars.len() == 2 && chars[0] == '.' && chars[1] == '.' {
        assert(chars@ =~= seq!['.', '.']);
        false
    } else {
        proof {
            if chars@ == seq!['.'] {
                assert(seq!['.'].len() == 1 && seq!['.'][0] == '.');
            }
            if chars@ == seq!['.', '.'] {
                assert(seq!['.', '.'].len() == 2 && seq!['.', '.'][0] == '.' && seq!['.', '.'][1]
                    == '.');
            }
        }
        true
    }
}

/// The sandbox's answer for a file that is not there yet, given the canonical
/// form of its directory.
pub fn judge_new_file(root: &ServingRoot, parent_canonical: Option<String>, leaf: &str) -> (answer:
    Result<String, SandboxError>)
    ensures
        answer_text(answer) == new_file_verdict(root@, text_of(parent_canonical), leaf@),
        answer matches Ok(path) ==> is_within(root@, path@),
{
    if !is_usable_leaf(leaf) {
        return Err(SandboxError::Invalid);
    }
    match judge(root, parent_canonical) {
        Ok(dir) => {
            proof {
                lemma_entry_is_within(root@, dir@, leaf@);
                reveal_strlit("/");
                assert("/"@ =~= seq!['/']);
            }
            let dir_chars = chars_of(dir.as_str());
            if dir_chars.len() > 0 && dir_chars[dir_chars.len() - 1] == '/' {
                Ok(dir.concat(leaf))
            } else {
                Ok(dir.concat("/").concat(leaf))
            }
        },
        Err(e) => Err(e),
    }
}

/// Refuses the place of a new file where a link stands under its name: the
/// link leads nowhere, and a write would follow it.
pub fn keep_unlinked(path: String, link: bool) -> (answer: Result<String, SandboxError>)
    ensures
        answer == if link {
            Err::<String, SandboxError>(SandboxError::Invalid)
        } else {
            Ok::<String, SandboxError>(path)
        },
{
    if link {
        Err(SandboxError::Invalid)
    } else {
        Ok(path)
    }
}

/// What the sandbox answers for the target of an upload, from what the file
/// system gave: the canonical form of the target, that of its directory, and
/// whether a link stands at the target. A target that has a canonical form is
/// held against the root in that form. One that has none is a new file: it
/// is placed in its directory, unless a link that leads nowhere stands there.
pub open spec fn target_verdict(
    root: Seq<char>,
    canonical: Option<Seq<char>>,
    parent_canonical: Option<Seq<char>>,
    leaf: Seq<char>,
    link: bool,
) -> Result<Seq<char>, SandboxError> {
    match canonical {
        Some(path) => verdict(root, Some(path)),
        None => match new_file_verdict(root, parent_canonical, leaf) {
            Ok(path) => if link {
                Err(SandboxError::Invalid)
            } else {
                Ok(path)
            },
            Err(e) => Err(e),
        },
    }
}

/// The sandbox's answer for the target of an upload, from what the file
/// system gave.
pub fn decide_target(
    root: &ServingRoot,
    canonical: Option<String>,
    parent_canonical: Option<String>,
    leaf: &str,
    link: bool,
) -> (answer: Result<String, SandboxError>)
    ensures
        answer_text(answer) == target_verdict(
            root@,
            text_of(canonical),
            text_of(parent_canonical),
            leaf@,
            link,
        ),
        answer matches Ok(path) ==> is_within(root@, path@),
{
    match canonical {
        Some(path) => judge(root, Some(path)),
        None => match judge_new_file(root, parent_canonical, leaf) {
            Ok(path) => keep_unlinked(path, link),
            Err(e) => Err(e),
        },
    }
}

/// The path to write an upload to: the target, its directory and a link at
/// the target are looked up, and `decide_target` answers. Missing
/// directories are not made. Every path that is handed out lies within the
/// root.
pub fn upload_target(root: &ServingRoot, local_path: &str) -> (answer: Result<String, SandboxError>)
    ensures
        answer matches Ok(path) ==> is_within(root@, path@),
{
    let canonical = canonicalize(local_path);
    let (parent, leaf) = split_leaf(local_path);
    let parent_canonical = canonicalize(parent.as_str());
    let link = is_link(local_path);
    decide_target(root, canonical, parent_canonical, leaf.as_str(), link)
}

/// The local path for the path of a request: the serving root followed by
/// it. Relative segments in it are left as they are; the sandbox resolves
/// them.
pub fn uri_to_local_path(root: &ServingRoot, uri_path: &str) -> (local: String)
    ensures
        local@ == root@ + uri_path@,
{
    join(root.path(), uri_path)
}

} // verus!
