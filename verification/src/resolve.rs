//! The path resolver: the ordered candidates for a request path, and the
//! first of them that the sandbox allows and that is a regular file.

use vstd::prelude::*;
use vstd::string::*;
use crate::files::{
    canonicalize, extension, extension_of, file_exists, is_within, judge, uri_to_local_path,
    ServingRoot,
};
use crate::mime::{get_mime_type_by_extension, mime_type_of};
use crate::text::{join, text_of};

verus! {

/// How many candidates one base path has.
pub const CANDIDATE_COUNT: usize = 5;

/// What is added to a base path, in the order in which it is tried.
pub open spec fn suffixes() -> Seq<Seq<char>> {
    seq![""@, ".htmd"@, ".txt"@, ".html"@, ".xml"@]
}

/// The candidates for a base path, in the order in which they are tried.
pub open spec fn candidates(base: Seq<char>) -> Seq<Seq<char>> {
    Seq::new(suffixes().len(), |i: int| base + suffixes()[i])
}

/// The suffixes as data.
pub fn suffix_table() -> (table: Vec<&'static str>)
    ensures
        table@.len() == CANDIDATE_COUNT,
        table@.len() == suffixes().len(),
        forall|i: int| 0 <= i < table@.len() ==> (#[trigger] table@[i])@ == suffixes()[i],
{
    vec!["", ".htmd", ".txt", ".html", ".xml"]
}

/// The candidates for a base path, in the order in which they are tried.
pub fn candidate_paths(base_path: &str) -> (paths: Vec<String>)
    ensures
        paths@.len() == CANDIDATE_COUNT,
        paths@.len() == candidates(base_path@).len(),
        forall|i: int| 0 <= i < paths@.len() ==> (#[trigger] paths@[i])@ == candidates(base_path@)[i],
{
    let table = suffix_table();
    let mut paths: Vec<String> = Vec::new();
    let mut i: usize = 0;
    while i < table.len()
        invariant
            i <= table.len(),
            paths@.len() == i,
            table@.len() == CANDIDATE_COUNT,
            table@.len() == suffixes().len(),
            forall|k: int| 0 <= k < table@.len() ==> (#[trigger] table@[k])@ == suffixes()[k],
            forall|k: int| 0 <= k < i ==> (#[trigger] paths@[k])@ == candidates(base_path@)[k],
        decreases table.len() - i,
    {
        let suffix = table[i];
        assert(suffix == table@[i as int]);
        paths.push(join(base_path, suffix));
        i += 1;
    }
    paths
}

/// A file that a request resolved to.
#[derive(Debug, Clone, PartialEq, Eq)]
pub struct ResolvedFile {
    /// Canonical path of the file, inside the serving root.
    pub absolute_path: String,
    /// MIME type for the file's extension.
    pub mime_type: String,
    /// The suffix that was added to the base path, where one was.
    pub extension_matched: Option<String>,
}

/// What resolving a request path gives.
#[derive(Debug, Clone, PartialEq, Eq)]
pub enum Resolution {
    Resolved(ResolvedFile),
    NotFound,
}

/// The suffix recorded for the candidate at position `matched` of a list
/// that holds the candidates of one base path after those of another: none
/// for a base path itself, which comes first among its candidates.
pub open spec fn matched_suffix(matched: int) -> Option<Seq<char>> {
    if 0 <= matched && matched % (suffixes().len() as int) != 0 {
        Some(suffixes()[matched % (suffixes().len() as int)])
    } else {
        None
    }
}

impl ResolvedFile {
    /// The record for the canonical path `canonical`, found as the candidate
    /// at position `matched`.
    pub open spec fn describes(&self, canonical: Seq<char>, matched: int) -> bool {
        &&& self.absolute_path@ == canonical
        &&& self.mime_type@ == mime_type_of(extension(canonical))
        &&& text_of(self.extension_matched) == matched_suffix(matched)
    }
}

/// The record for a canonical path that was found as the candidate at
/// position `matched`.
pub fn resolved_file(canonical: &str, matched: usize) -> (file: ResolvedFile)
    ensures
        file.describes(canonical@, matched as int),
{
    let found = extension_of(canonical);
    let mime = match &found {
        Some(e) => get_mime_type_by_extension(Some(e.as_str())),
        None => get_mime_type_by_extension(None),
    };
    let table = suffix_table();
    let place: usize = matched % table.len();
    let extension_matched = if place == 0 {
        None
    } else {
        let suffix = table[place];
        assert(suffix == table@[place as int]);
        Some(String::from_str(suffix))
    };
    ResolvedFile {
        absolute_path: String::from_str(canonical),
        mime_type: String::from_str(mime),
        extension_matched,
    }
}

/// The first position from `from` on at which a probe hit.
pub open spec fn first_hit_from(probes: Seq<Option<String>>, from: int) -> Option<int>
    decreases probes.len() - from,
{
    if from < 0 || from >= probes.len() {
        None
    } else if probes[from] is Some {
        Some(from)
    } else {
        first_hit_from(probes, from + 1)
    }
}

/// The position of the first probe that hit.
pub fn first_hit(probes: &Vec<Option<String>>) -> (hit: Option<usize>)
    ensures
        match hit {
            Some(i) => first_hit_from(probes@, 0) == Some(i as int) && i < probes@.len()
                && probes@[i as int] is Some,
            None => first_hit_from(probes@, 0) == None::<int>,
        },
{
    let mut i: usize = 0;
    while i < probes.len()
        invariant
            i <= probes.len(),
            first_hit_from(probes@, 0) == first_hit_from(probes@, i as int),
        decreases probes.len() - i,
    {
        if probes[i].is_some() {
            return Some(i);
        }
        i += 1;
    }
    None
}

/// Keeps an allowed path only where a regular file stands at it.
pub fn keep_regular(allowed: Option<String>, regular: bool) -> (kept: Option<String>)
    ensures
        kept == if regular {
            allowed
        } else {
            None
        },
{
    if regular {
        allowed
    } else {
        None
    }
}

/// Probes one candidate: the canonical path, where the sandbox allows it and
/// a regular file stands there.
pub fn probe(root: &ServingRoot, candidate: &str) -> (hit: Option<String>)
    ensures
        hit matches Some(path) ==> is_within(root@, path@),
{
    let canonical = canonicalize(candidate);
    match judge(root, canonical) {
        Ok(path) => {
            let regular = file_exists(path.as_str());
            keep_regular(Some(path), regular)
        },
        Err(_) => None,
    }
}

/// Probes the candidates in order and stops after the first hit.
pub fn probe_until_hit(root: &ServingRoot, paths: &Vec<String>) -> (probes: Vec<Option<String>>)
    ensures
        probes@.len() <= paths@.len(),
        forall|j: int|
            0 <= j < probes@.len() ==> ((#[trigger] probes@[j]) matches Some(p) ==> is_within(
                root@,
                p@,
            )),
        forall|j: int| 0 <= j < probes@.len() - 1 ==> (#[trigger] probes@[j]) is None,
        probes@.len() < paths@.len() ==> probes@.len() > 0 && probes@.last() is Some,
{
    let mut probes: Vec<Option<String>> = Vec::new();
    let mut i: usize = 0;
    while i < paths.len()
        invariant
            i <= paths.len(),
            probes@.len() == i,
            forall|j: int|
                0 <= j < probes@.len() ==> ((#[trigger] probes@[j]) matches Some(p) ==> is_within(
                    root@,
                    p@,
                )),
            forall|j: int| 0 <= j < probes@.len() ==> (#[trigger] probes@[j]) is None,
        decreases paths.len() - i,
    {
        let hit = probe(root, paths[i].as_str());
        let stop = hit.is_some();
        probes.push(hit);
        if stop {
            return probes;
        }
        i += 1;
    }
    probes
}

/// What a row of probes resolves to: the record for the first hit.
pub open spec fn selects(probes: Seq<Option<String>>, found: Option<ResolvedFile>) -> bool {
    match first_hit_from(probes, 0) {
        Some(i) => found matches Some(file) && probes[i] matches Some(path) && file.describes(
            path@,
            i,
        ),
        None => found is None,
    }
}

/// The file that a row of probes resolves to: the first hit, with its MIME
/// type and the suffix under which it was found.
pub fn select(probes: &Vec<Option<String>>) -> (found: Option<ResolvedFile>)
    ensures
        selects(probes@, found),
{
    match first_hit(probes) {
        Some(i) => {
            match &probes[i] {
                Some(path) => Some(resolved_file(path.as_str(), i)),
                None => None,
            }
        },
        None => None,
    }
}

/// The first candidate for `base_path` that the sandbox allows and that is a
/// regular file. Whatever the file system holds, a file that is found lies
/// within the root, and its record is that of one of the candidates.
pub fn find_file(root: &ServingRoot, base_path: &str) -> (found: Option<ResolvedFile>)
    ensures
        found matches Some(file) ==> is_within(root@, file.absolute_path@) && exists|matched: int|
            0 <= matched < CANDIDATE_COUNT && #[trigger] file.describes(
                file.absolute_path@,
                matched,
            ),
{
    let paths = candidate_paths(base_path);
    let probes = probe_until_hit(root, &paths);
    let found = select(&probes);
    proof {
        lemma_first_hit_in_range(probes@, 0);
        if found is Some {
            let i = first_hit_from(probes@, 0).unwrap();
            assert(found.unwrap().describes(found.unwrap().absolute_path@, i));
        }
    }
    found
}

/// The first hit, where there is one, is the position of a probe that hit.
pub proof fn lemma_first_hit_in_range(probes: Seq<Option<String>>, from: int)
    requires
        0 <= from,
    ensures
        first_hit_from(probes, from) matches Some(i) ==> from <= i < probes.len() && probes[i] is Some,
    decreases probes.len() - from,
{
    if from < probes.len() && probes[from] is None {
        lemma_first_hit_in_range(probes, from + 1);
    }
}

/// From a position at or before a probe that hit, the first hit is found, at
/// or before that probe, and no probe before it hit.
pub proof fn lemma_first_hit_is_least(probes: Seq<Option<String>>, from: int, hit: int)
    requires
        0 <= from <= hit < probes.len(),
        probes[hit] is Some,
    ensures
        first_hit_from(probes, from) matches Some(i) && from <= i <= hit && probes[i] is Some
            && forall|j: int| from <= j < i ==> probes[j] is None,
    decreases hit - from,
{
    if probes[from] is None {
        lemma_first_hit_is_least(probes, from + 1, hit);
    }
}

/// A candidate that hits is the one resolved to when every candidate before
/// it misses: a file found only under a later suffix is found, never
/// reported missing.
pub proof fn lemma_fallback_is_found(
    probes: Seq<Option<String>>,
    hit: int,
    found: Option<ResolvedFile>,
)
    requires
        0 <= hit < probes.len(),
        probes[hit] is Some,
        forall|j: int| 0 <= j < hit ==> probes[j] is None,
        selects(probes, found),
    ensures
        first_hit_from(probes, 0) == Some(hit),
        found matches Some(file) && file.describes(probes[hit].unwrap()@, hit),
{
    lemma_first_hit_is_least(probes, 0, hit);
}

/// Where two candidates hit, the later one is not the one resolved to: the
/// order of the candidates decides, so `.htmd` comes before `.html`.
pub proof fn lemma_earlier_candidate_wins(
    probes: Seq<Option<String>>,
    earlier: int,
    later: int,
    found: Option<ResolvedFile>,
)
    requires
        0 <= earlier < later < probes.len(),
        probes[earlier] is Some,
        probes[later] is Some,
        selects(probes, found),
    ensures
        first_hit_from(probes, 0) matches Some(i) && i <= earlier && (found matches Some(file)
            && file.describes(probes[i].unwrap()@, i)),
{
    lemma_first_hit_is_least(probes, 0, earlier);
}

/// What is added to a base path to reach the index of a directory.
pub const INDEX_NAME: &'static str = "/index";

/// The candidates for the local path of a request, in the order in which
/// they are tried: those for the path itself, then those for its index.
pub open spec fn request_candidates(local: Seq<char>) -> Seq<Seq<char>> {
    candidates(local) + candidates(local + INDEX_NAME@)
}

/// The candidates for the local path of a request, in the order in which
/// they are tried.
pub fn request_paths(local_path: &str) -> (paths: Vec<String>)
    ensures
        paths@.len() == 2 * CANDIDATE_COUNT,
        paths@.len() == request_candidates(local_path@).len(),
        forall|i: int|
            0 <= i < paths@.len() ==> (#[trigger] paths@[i])@ == request_candidates(
                local_path@,
            )[i],
{
    let mut paths = candidate_paths(local_path);
    let index = join(local_path, INDEX_NAME);
    let more = candidate_paths(index.as_str());
    let mut i: usize = 0;
    while i < more.len()
        invariant
            i <= more.len(),
            more@.len() == CANDIDATE_COUNT,
            index@ == local_path@ + INDEX_NAME@,
            candidates(local_path@).len() == CANDIDATE_COUNT,
            candidates(index@).len() == CANDIDATE_COUNT,
            paths@.len() == CANDIDATE_COUNT + i,
            forall|k: int| 0 <= k < more@.len() ==> (#[trigger] more@[k])@ == candidates(index@)[k],
            forall|k: int|
                0 <= k < CANDIDATE_COUNT + i ==> (#[trigger] paths@[k])@ == request_candidates(
                    local_path@,
                )[k],
        decreases more.len() - i,
    {
        let path = more[i].clone();
        assert(path@ == more@[i as int]@);
        paths.push(path);
        i += 1;
    }
    paths
}

/// Resolves the path of a request: the first of its candidates, those for
/// the path itself before those for its `index`, that the sandbox allows and
/// that is a regular file. Whatever the file system holds, a file that is
/// found lies within the root, and its record is that of one of the
/// candidates.
pub fn try_files(root: &ServingRoot, uri_path: &str) -> (resolution: Resolution)
    ensures
        resolution matches Resolution::Resolved(file) ==> is_within(root@, file.absolute_path@)
            && exists|matched: int|
            0 <= matched < 2 * CANDIDATE_COUNT && #[trigger] file.describes(
                file.absolute_path@,
                matched,
            ),
{
    let local = uri_to_local_path(root, uri_path);
    let paths = request_paths(local.as_str());
    let probes = probe_until_hit(root, &paths);
    let found = select(&probes);
    proof {
        lemma_first_hit_in_range(probes@, 0);
        if found is Some {
            let i = first_hit_from(probes@, 0).unwrap();
            assert(found.unwrap().describes(found.unwrap().absolute_path@, i));
        }
    }
    match found {
        Some(file) => Resolution::Resolved(file),
        None => Resolution::NotFound,
    }
}

} // verus!
