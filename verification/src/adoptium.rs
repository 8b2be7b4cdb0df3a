use vstd::prelude::*;

use crate::text::{str_eq, str_starts_with};
use crate::version::{
    insert_distinct_sorted, key_le, key_lt, lemma_key_order, semver_of, sorted_strict, version_lt,
    JdkVersion,
};
use vstd::string::StringExecFns;

verus! {

/// Failures of release-catalog resolution.
#[derive(Clone, Copy, PartialEq, Eq, Structural, Debug)]
pub enum ResolveError {
    /// The local OS or CPU architecture has no catalog token; fatal,
    /// never retried.
    UnsupportedPlatform,
    /// The catalog has no build for this version and platform.
    NoMatchingBuild,
    /// The catalog's answer was malformed, or a required field was
    /// missing or empty.
    MetadataIncomplete,
    /// The catalog could not be reached at all.
    CatalogUnreachable,
    /// The catalog lists no published releases.
    NoReleasesFound,
}

/// Failures of the installation stage.
#[derive(Clone, Copy, PartialEq, Eq, Structural, Debug)]
pub enum InstallError {
    /// The extracted tree lacks the platform's `java` launcher where a
    /// JDK keeps it: the extraction went wrong, nothing is installed.
    JavaExecutableMissing,
}

/// One remote JDK build, as the release catalog describes it.
#[derive(Debug)]
pub struct JdkMetadata {
    pub semver: String,
    pub release_name: String,
    pub package_name: String,
    pub download_link: String,
    pub checksum: String,
}

/// One immediate child of the installation base directory, reduced to
/// what the store logic reads: its file name, whether it is a
/// directory, and whether it carries the store's marker file.
#[derive(Debug)]
pub struct StoreEntry {
    pub name: String,
    pub is_dir: bool,
    pub marked: bool,
}

/// The version key a directory name sorts by: its parsed semantic
/// version, or a plain `0.0.0` when the name does not parse as one.
pub open spec fn name_key(s: Seq<char>) -> (i64, i64, i64, bool) {
    match semver_of(s) {
        Some(t) => t,
        None => (0, 0, 0, false),
    }
}

/// The sort key of a store entry, from its name.
pub open spec fn entry_key(e: StoreEntry) -> (i64, i64, i64, bool) {
    name_key(e.name@)
}

/// Version key of a name, for sorting: the parsed version, or a plain
/// `0.0.0` for names outside the semantic-version grammar.
fn effective_version(name: &str) -> (r: JdkVersion)
    ensures
        r.key() == name_key(name@),
{
    match crate::version::parse_version(name) {
        Some(v) => v,
        None => JdkVersion { major: 0, minor: 0, patch: 0, prerelease: false },
    }
}

/// A store-managed directory whose name starts with the requested
/// version string; a directory without the marker file is never
/// matched.
pub open spec fn prefix_match(e: StoreEntry, req: Seq<char>) -> bool {
    e.is_dir && e.marked && req.is_prefix_of(e.name@)
}

/// Some directory under the base matches the requested version prefix.
pub open spec fn has_suitable(entries: Seq<StoreEntry>, req: Seq<char>) -> bool {
    exists|i: int| 0 <= i < entries.len() && prefix_match(entries[i], req)
}

/// Entry `i` is a matching directory that no other matching directory
/// beats: none has a higher version, and none with the same version
/// comes earlier in the listing.
pub open spec fn best_suitable_at(entries: Seq<StoreEntry>, req: Seq<char>, i: int) -> bool {
    &&& 0 <= i < entries.len()
    &&& prefix_match(entries[i], req)
    &&& forall|j: int|
        0 <= j < entries.len() && #[trigger] prefix_match(entries[j], req) ==> key_le(
            entry_key(entries[j]),
            entry_key(entries[i]),
        ) && (entry_key(entries[j]) == entry_key(entries[i]) ==> i <= j)
}

/// Among the base directory's entries, picks the store-managed
/// directory whose name starts with `required_version` and sorts
/// highest as a semantic version (earliest listed on a tie), or `None`
/// when no marked directory matches the prefix.
pub fn find_suitable_jdk(entries: &Vec<StoreEntry>, required_version: &str) -> (r: Option<
    String,
>)
    ensures
        r is Some <==> has_suitable(entries@, required_version@),
        r matches Some(name) ==> exists|i: int|
            best_suitable_at(entries@, required_version@, i) && name@ == entries@[i].name@,
{
    let mut have: bool = false;
    let mut best: usize = 0;
    let mut best_key = JdkVersion { major: 0, minor: 0, patch: 0, prerelease: false };
    let mut i: usize = 0;
    while i < entries.len()
        invariant
            0 <= i <= entries@.len(),
            !have ==> forall|j: int|
                0 <= j < i ==> !prefix_match(entries@[j], required_version@),
            have ==> 0 <= best < i && prefix_match(entries@[best as int], required_version@)
                && best_key.key() == entry_key(entries@[best as int]) && forall|j: int|
                0 <= j < i && #[trigger] prefix_match(entries@[j], required_version@) ==> key_le(
                    entry_key(entries@[j]),
                    entry_key(entries@[best as int]),
                ) && (entry_key(entries@[j]) == entry_key(entries@[best as int]) ==> best <= j),
        decreases entries@.len() - i,
    {
        let e = &entries[i];
        if e.is_dir && e.marked && str_starts_with(e.name.as_str(), required_version) {
            let key = effective_version(e.name.as_str());
            if !have || version_lt(&best_key, &key) {
                have = true;
                best = i;
                best_key = key;
            }
        }
        i = i + 1;
    }
    if have {
        proof {
            assert(best_suitable_at(entries@, required_version@, best as int));
        }
        Some(entries[best].name.clone())
    } else {
        None
    }
}

/// The exact version of this build is already present under the base:
/// some entry's name equals the build's full version string.
pub open spec fn is_installed(entries: Seq<StoreEntry>, m: JdkMetadata) -> bool {
    exists|i: int| 0 <= i < entries.len() && entries[i].name@ == m.semver@
}

/// Looks for an entry named exactly after the build's version string;
/// returns that name when present.
pub fn find_installed_jdk(jdk_metadata: &JdkMetadata, entries: &Vec<StoreEntry>) -> (r: Option<
    String,
>)
    ensures
        r is Some <==> is_installed(entries@, *jdk_metadata),
        r matches Some(p) ==> p@ == jdk_metadata.semver@,
{
    let mut i: usize = 0;
    while i < entries.len()
        invariant
            0 <= i <= entries@.len(),
            forall|j: int| 0 <= j < i ==> entries@[j].name@ != jdk_metadata.semver@,
        decreases entries@.len() - i,
    {
        if str_eq(entries[i].name.as_str(), jdk_metadata.semver.as_str()) {
            return Some(entries[i].name.clone());
        }
        i = i + 1;
    }
    None
}

/// An entry the cleanup pass may touch at all: a directory, carrying
/// the marker file, whose name parses as a semantic version.
pub open spec fn cleanable(e: StoreEntry) -> bool {
    e.is_dir && e.marked && semver_of(e.name@) is Some
}

/// Entry `j` supersedes entry `i`: both are cleanable, they share a
/// major version, and `j` either has the strictly higher version or the
/// same version earlier in the listing.
pub open spec fn dominates(entries: Seq<StoreEntry>, i: int, j: int) -> bool {
    &&& 0 <= j < entries.len()
    &&& j != i
    &&& cleanable(entries[j])
    &&& entry_key(entries[j]).0 == entry_key(entries[i]).0
    &&& (key_lt(entry_key(entries[i]), entry_key(entries[j])) || (entry_key(entries[j])
        == entry_key(entries[i]) && j < i))
}

/// The cleanup pass removes entry `i`: it is cleanable and some other
/// cleanable entry of the same major version supersedes it.
pub open spec fn superseded(entries: Seq<StoreEntry>, i: int) -> bool {
    &&& cleanable(entries[i])
    &&& exists|j: int| dominates(entries, i, j)
}

/// The parsed version of an entry the cleanup pass may touch, or `None`
/// for entries it must leave alone.
fn cleanable_version(e: &StoreEntry) -> (r: Option<JdkVersion>)
    ensures
        r is Some <==> cleanable(*e),
        r matches Some(v) ==> Some(v.key()) == semver_of(e.name@),
{
    if !e.is_dir || !e.marked {
        return None;
    }
    crate::version::parse_version(e.name.as_str())
}

/// Decides which entries the cleanup removes: for every group of
/// marked, semver-named directories sharing a major version, every
/// member except the highest (earliest listed on a tie). Returns the
/// indices to remove, in increasing order. Directories without the
/// marker file, non-directories, and names that are not semantic
/// versions are never listed.
pub fn clean_jdks(entries: &Vec<StoreEntry>) -> (r: Vec<usize>)
    ensures
        forall|k: int|
            0 <= k < r@.len() ==> r@[k] < entries@.len() && superseded(entries@, r@[k] as int),
        forall|i: int| 0 <= i < entries@.len() && superseded(entries@, i) ==> r@.contains(
            i as usize,
        ),
        forall|k1: int, k2: int| 0 <= k1 < k2 < r@.len() ==> r@[k1] < r@[k2],
        forall|k: int|
            0 <= k < r@.len() ==> entries@[r@[k] as int].marked && entries@[r@[k] as int].is_dir
                && semver_of(entries@[r@[k] as int].name@) is Some,
{
    let mut r: Vec<usize> = Vec::new();
    let mut i: usize = 0;
    while i < entries.len()
        invariant
            0 <= i <= entries@.len(),
            forall|k: int|
                0 <= k < r@.len() ==> r@[k] < i && superseded(entries@, r@[k] as int),
            forall|i2: int| 0 <= i2 < i && superseded(entries@, i2) ==> r@.contains(i2 as usize),
            forall|k1: int, k2: int| 0 <= k1 < k2 < r@.len() ==> r@[k1] < r@[k2],
        decreases entries@.len() - i,
    {
        match cleanable_version(&entries[i]) {
            None => {},
            Some(vi) => {
                let mut found = false;
                let mut j: usize = 0;
                while j < entries.len()
                    invariant
                        0 <= j <= entries@.len(),
                        i < entries@.len(),
                        cleanable(entries@[i as int]),
                        vi.key() == entry_key(entries@[i as int]),
                        found <==> exists|j2: int|
                            0 <= j2 < j && dominates(entries@, i as int, j2),
                    decreases entries@.len() - j,
                {
                    if j != i && !found {
                        match cleanable_version(&entries[j]) {
                            None => {},
                            Some(vj) => {
                                if vj.major == vi.major && (version_lt(&vi, &vj) || (vj == vi && j
                                    < i)) {
                                    found = true;
                                    assert(dominates(entries@, i as int, j as int));
                                }
                            },
                        }
                    }
                    j = j + 1;
                }
                if found {
                    let ghost r0 = r@;
                    r.push(i);
                    proof {
                        assert(r@.contains(i as usize)) by {
                            assert(r@[r0.len() as int] == i as usize);
                        }
                        assert forall|x: usize| r0.contains(x) implies r@.contains(x) by {
                            let k = choose|k: int| 0 <= k < r0.len() && r0[k] == x;
                            assert(r@[k] == x);
                        }
                    }
                }
            },
        }
        i = i + 1;
    }
    r
}

/// Law: within one major-version group of marked, semver-named
/// directories whose highest version is held by exactly one member,
/// the cleanup removes exactly the members other than that one.
pub proof fn lemma_cleanup_keeps_exactly_highest(entries: Seq<StoreEntry>, k: int)
    requires
        entries.len() >= 2,
        0 <= k < entries.len(),
        forall|i: int| 0 <= i < entries.len() ==> cleanable(#[trigger] entries[i]),
        forall|i: int|
            0 <= i < entries.len() ==> entry_key(#[trigger] entries[i]).0 == entry_key(
                entries[k],
            ).0,
        forall|i: int|
            0 <= i < entries.len() && i != k ==> entry_key(#[trigger] entries[i]) != entry_key(
                entries[k],
            ),
        forall|i: int|
            0 <= i < entries.len() ==> key_le(entry_key(#[trigger] entries[i]), entry_key(
                entries[k],
            )),
    ensures
        forall|i: int| 0 <= i < entries.len() ==> (superseded(entries, i) <==> i != k),
{
    assert forall|i: int| 0 <= i < entries.len() implies (superseded(entries, i) <==> i != k) by {
        if i != k {
            lemma_key_order(entry_key(entries[i]), entry_key(entries[k]));
            assert(dominates(entries, i, k));
            assert(superseded(entries, i));
        } else {
            if superseded(entries, k) {
                let j = choose|j: int| dominates(entries, k, j);
                lemma_key_order(entry_key(entries[k]), entry_key(entries[j]));
                assert(false);
            }
        }
    }
}

/// Collects the distinct major versions of the marked, semver-named
/// directories under the base, in increasing order; this drives the
/// "refresh everything installed" bulk update.
pub fn find_installed_major_versions(entries: &Vec<StoreEntry>) -> (r: Vec<i64>)
    ensures
        forall|m: i64|
            r@.contains(m) <==> exists|i: int|
                0 <= i < entries@.len() && cleanable(#[trigger] entries@[i]) && entry_key(
                    entries@[i],
                ).0 == m,
        sorted_strict(r@),
{
    let mut r: Vec<i64> = Vec::new();
    let mut i: usize = 0;
    while i < entries.len()
        invariant
            0 <= i <= entries@.len(),
            sorted_strict(r@),
            forall|m: i64|
                r@.contains(m) <==> exists|i2: int|
                    0 <= i2 < i && cleanable(#[trigger] entries@[i2]) && entry_key(
                        entries@[i2],
                    ).0 == m,
        decreases entries@.len() - i,
    {
        match cleanable_version(&entries[i]) {
            None => {},
            Some(v) => {
                insert_distinct_sorted(&mut r, v.major);
            },
        }
        i = i + 1;
    }
    r
}

/// All five fields a build descriptor must carry are non-empty.
pub open spec fn metadata_complete(m: JdkMetadata) -> bool {
    &&& m.semver@.len() > 0
    &&& m.release_name@.len() > 0
    &&& m.package_name@.len() > 0
    &&& m.download_link@.len() > 0
    &&& m.checksum@.len() > 0
}

/// Assembles a build record from the five fields read out of a
/// descriptor: succeeds exactly when every field is non-empty, and
/// then carries them through unchanged.
pub fn build_metadata(
    semver: String,
    release_name: String,
    package_name: String,
    download_link: String,
    checksum: String,
) -> (r: Result<JdkMetadata, ResolveError>)
    ensures
        r is Ok <==> (semver@.len() > 0 && release_name@.len() > 0 && package_name@.len() > 0
            && download_link@.len() > 0 && checksum@.len() > 0),
        r matches Ok(m) ==> m.semver@ == semver@ && m.release_name@ == release_name@
            && m.package_name@ == package_name@ && m.download_link@ == download_link@
            && m.checksum@ == checksum@,
        r is Err ==> r == Err::<JdkMetadata, ResolveError>(ResolveError::MetadataIncomplete),
{
    if semver.as_str().is_empty() || release_name.as_str().is_empty()
        || package_name.as_str().is_empty() || download_link.as_str().is_empty()
        || checksum.as_str().is_empty() {
        Err(ResolveError::MetadataIncomplete)
    } else {
        Ok(
            JdkMetadata {
                semver,
                release_name,
                package_name,
                download_link,
                checksum,
            },
        )
    }
}

/// The version part of the first build descriptor in the catalog's
/// "latest assets" answer, as `serde_json` reads it: `None` when the
/// body is not a JSON array; `Some(None)` when the array is empty;
/// otherwise the texts of `version.semver` and `release_name` of the
/// first descriptor, each read as the empty sequence when absent or
/// not a string. A function of the body text alone.
pub uninterp spec fn catalog_build_of(body: Seq<char>) -> Option<Option<(Seq<char>, Seq<char>)>>;

/// The package part of the first build descriptor in the catalog's
/// "latest assets" answer, in the same shape: the texts of
/// `binary.package.name`, `.link` and `.checksum` of the first
/// descriptor. A function of the body text alone.
pub uninterp spec fn catalog_package_of(body: Seq<char>) -> Option<
    Option<(Seq<char>, Seq<char>, Seq<char>)>,
>;

/// The five field texts of the first build descriptor, put together:
/// `None` when either part of the answer is malformed, `Some(None)`
/// when the answer is an empty array, and otherwise the fields of the
/// first descriptor in catalog order.
pub open spec fn catalog_fields_of(body: Seq<char>) -> Option<
    Option<(Seq<char>, Seq<char>, Seq<char>, Seq<char>, Seq<char>)>,
> {
    match (catalog_build_of(body), catalog_package_of(body)) {
        (Option::None, _) => None,
        (Option::Some(Option::None), _) => Some(None),
        (Option::Some(Option::Some(b)), Option::Some(Option::Some(p))) => Some(
            Some((b.0, b.1, p.0, p.1, p.2)),
        ),
        (Option::Some(Option::Some(_)), _) => None,
    }
}

/// Relies on `serde_json::from_str::<serde_json::Value>`,
/// `Value::as_array`, `Value::pointer` and `Value::as_str`: parses the
/// catalog's answer and reads the first descriptor's version fields,
/// exactly as `catalog_build_of` describes them.
#[verifier::external_body]
fn read_catalog_build(body: &str) -> (r: Option<Option<(String, String)>>)
    ensures
        match r {
            None => catalog_build_of(body@) is None,
            Some(None) => (catalog_build_of(body@) matches Some(d) && d is None),
            Some(Some(f)) => (catalog_build_of(body@) matches Some(d) && d == Some((f.0@, f.1@))),
        },
{
    let json: serde_json::Value = serde_json::from_str(body).ok()?;
    let s = |d: &serde_json::Value, p: &str| {
        d.pointer(p).and_then(|x| x.as_str()).unwrap_or("").to_string()
    };
    Some(json.as_array()?.first().map(|d| (s(d, "/version/semver"), s(d, "/release_name"))))
}

/// Relies on `serde_json::from_str::<serde_json::Value>`,
/// `Value::as_array`, `Value::pointer` and `Value::as_str`: parses the
/// catalog's answer and reads the first descriptor's package fields,
/// exactly as `catalog_package_of` describes them.
#[verifier::external_body]
fn read_catalog_package(body: &str) -> (r: Option<Option<(String, String, String)>>)
    ensures
        match r {
            None => catalog_package_of(body@) is None,
            Some(None) => (catalog_package_of(body@) matches Some(d) && d is None),
            Some(Some(f)) => (catalog_package_of(body@) matches Some(d) && d == Some(
                (f.0@, f.1@, f.2@),
            )),
        },
{
    let json: serde_json::Value = serde_json::from_str(body).ok()?;
    let s = |d: &serde_json::Value, p: &str| {
        d.pointer(p).and_then(|x| x.as_str()).unwrap_or("").to_string()
    };
    Some(json.as_array()?.first().map(|d| (
        s(d, "/binary/package/name"),
        s(d, "/binary/package/link"),
        s(d, "/binary/package/checksum"),
    )))
}

/// Reads the catalog's "latest assets" answer: a body that is not a
/// JSON array is malformed; an empty array means no build matches the
/// requested version on this platform; otherwise the first
/// descriptor's five fields make the build record, with a missing or
/// empty field rejecting the answer, and a success carrying all five
/// through unchanged.
pub fn fetch_metadata(body: &str) -> (r: Result<JdkMetadata, ResolveError>)
    ensures
        catalog_fields_of(body@) is None ==> r == Err::<JdkMetadata, ResolveError>(
            ResolveError::MetadataIncomplete,
        ),
        catalog_fields_of(body@) matches Some(d) ==> match d {
            Option::None => r == Err::<JdkMetadata, ResolveError>(ResolveError::NoMatchingBuild),
            Option::Some(f) => {
                &&& (r is Ok <==> (f.0.len() > 0 && f.1.len() > 0 && f.2.len() > 0 && f.3.len()
                    > 0 && f.4.len() > 0))
                &&& (r matches Ok(m) ==> m.semver@ == f.0 && m.release_name@ == f.1
                    && m.package_name@ == f.2 && m.download_link@ == f.3 && m.checksum@ == f.4)
                &&& (r is Err ==> r == Err::<JdkMetadata, ResolveError>(
                    ResolveError::MetadataIncomplete,
                ))
            },
        },
        r matches Ok(m) ==> metadata_complete(m),
{
    let (semver, release_name) = match read_catalog_build(body) {
        None => {
            return Err(ResolveError::MetadataIncomplete);
        },
        Some(None) => {
            return Err(ResolveError::NoMatchingBuild);
        },
        Some(Some(b)) => b,
    };
    match read_catalog_package(body) {
        None => Err(ResolveError::MetadataIncomplete),
        Some(None) => Err(ResolveError::MetadataIncomplete),
        Some(Some((package_name, download_link, checksum))) => {
            build_metadata(semver, release_name, package_name, download_link, checksum)
        },
    }
}

/// The highest major version in the catalog's release list; an empty
/// list means no releases were found.
pub fn max_release(releases: &Vec<i64>) -> (r: Result<i64, ResolveError>)
    ensures
        r is Ok <==> releases@.len() > 0,
        r matches Ok(m) ==> releases@.contains(m) && forall|k: int|
            0 <= k < releases@.len() ==> releases@[k] <= m,
        r is Err ==> r == Err::<i64, ResolveError>(ResolveError::NoReleasesFound),
{
    if releases.len() == 0 {
        return Err(ResolveError::NoReleasesFound);
    }
    let mut m: i64 = releases[0];
    let mut i: usize = 1;
    while i < releases.len()
        invariant
            1 <= i <= releases@.len(),
            releases@.contains(m),
            forall|k: int| 0 <= k < i ==> releases@[k] <= m,
        decreases releases@.len() - i,
    {
        if releases[i] > m {
            m = releases[i];
            proof {
                assert(releases@[i as int] == m);
            }
        }
        i = i + 1;
    }
    Ok(m)
}

/// The catalog's `available_releases` member, as `serde_json` reads
/// it: `None` when the body is malformed or the member is missing or
/// not an array; otherwise each element as an integer, with `None`
/// standing for an element that is not one. A function of the body
/// text alone.
pub uninterp spec fn releases_of(body: Seq<char>) -> Option<Seq<Option<i64>>>;

/// Relies on `serde_json::from_str::<serde_json::Value>`, `Value::get`,
/// `Value::as_array` and `Value::as_i64`: reads the
/// `available_releases` member exactly as `releases_of` describes it.
#[verifier::external_body]
fn read_available_releases(body: &str) -> (r: Option<Vec<Option<i64>>>)
    ensures
        r is Some <==> releases_of(body@) is Some,
        r matches Some(v) ==> releases_of(body@) == Some(v@),
{
    let json: serde_json::Value = match serde_json::from_str(body) {
        Ok(j) => j,
        Err(_) => return None,
    };
    match json.get("available_releases").and_then(|v| v.as_array()) {
        Some(arr) => Some(arr.iter().map(|v| v.as_i64()).collect()),
        None => None,
    }
}

/// The integers among an array's elements, in order.
pub open spec fn ints_of(nodes: Seq<Option<i64>>) -> Seq<i64>
    decreases nodes.len(),
{
    if nodes.len() == 0 {
        Seq::empty()
    } else {
        let rest = ints_of(nodes.drop_last());
        match nodes.last() {
            Some(x) => rest.push(x),
            None => rest,
        }
    }
}

/// Reads the catalog's "available releases" answer and returns the
/// highest published major version: the maximum over the integers in
/// its `available_releases` array. An answer without such an array is
/// malformed; one without an integer in it lists no releases.
pub fn find_latest_jdk(body: &str) -> (r: Result<i64, ResolveError>)
    ensures
        releases_of(body@) is None ==> r == Err::<i64, ResolveError>(
            ResolveError::MetadataIncomplete,
        ),
        releases_of(body@) matches Some(nodes) ==> {
            &&& (r is Ok <==> ints_of(nodes).len() > 0)
            &&& (r matches Ok(m) ==> ints_of(nodes).contains(m) && forall|k: int|
                0 <= k < ints_of(nodes).len() ==> ints_of(nodes)[k] <= m)
            &&& (r is Err ==> r == Err::<i64, ResolveError>(ResolveError::NoReleasesFound))
        },
{
    let nodes = match read_available_releases(body) {
        None => {
            return Err(ResolveError::MetadataIncomplete);
        },
        Some(n) => n,
    };
    let mut releases: Vec<i64> = Vec::new();
    let mut i: usize = 0;
    while i < nodes.len()
        invariant
            0 <= i <= nodes@.len(),
            releases@ == ints_of(nodes@.subrange(0, i as int)),
        decreases nodes@.len() - i,
    {
        match nodes[i] {
            None => {},
            Some(x) => {
                releases.push(x);
            },
        }
        proof {
            assert(nodes@.subrange(0, i + 1).drop_last() =~= nodes@.subrange(0, i as int));
            assert(nodes@.subrange(0, i + 1).last() == nodes@[i as int]);
        }
        i = i + 1;
    }
    proof {
        assert(nodes@.subrange(0, nodes@.len() as int) =~= nodes@);
    }
    max_release(&releases)
}

/// Maps the running platform's OS name to the catalog's OS token; an
/// OS the catalog does not serve is unsupported, which is fatal and
/// never retried.
pub fn jdk_os(os_name: &str) -> (r: Result<String, ResolveError>)
    ensures
        (os_name@ == "linux"@ || os_name@ == "windows"@ || os_name@ == "solaris"@ || os_name@
            == "aix"@) ==> (r matches Ok(t) && t@ == os_name@),
        os_name@ == "macos"@ ==> (r matches Ok(t) && t@ == "mac"@),
        r is Err <==> !(os_name@ == "linux"@ || os_name@ == "windows"@ || os_name@ == "solaris"@
            || os_name@ == "aix"@ || os_name@ == "macos"@),
        r is Err ==> r == Err::<String, ResolveError>(ResolveError::UnsupportedPlatform),
{
    proof {
        reveal_strlit("linux");
        reveal_strlit("windows");
        reveal_strlit("solaris");
        reveal_strlit("aix");
        reveal_strlit("macos");
        reveal_strlit("mac");
        assert("macos"@ != "linux"@) by {
            assert("macos"@[0] == 'm');
            assert("linux"@[0] == 'l');
        }
    }
    if str_eq(os_name, "linux") || str_eq(os_name, "windows") || str_eq(os_name, "solaris")
        || str_eq(os_name, "aix") {
        Ok(String::from_str(os_name))
    } else if str_eq(os_name, "macos") {
        Ok(String::from_str("mac"))
    } else {
        Err(ResolveError::UnsupportedPlatform)
    }
}

/// Maps the running platform's CPU architecture name to the catalog's
/// architecture token; for 64-bit POWER the byte order picks between
/// the two tokens. An architecture the catalog does not serve is
/// unsupported, which is fatal and never retried.
pub fn jdk_arch(arch_name: &str, little_endian: bool) -> (r: Result<String, ResolveError>)
    ensures
        arch_name@ == "x86_64"@ ==> (r matches Ok(t) && t@ == "x64"@),
        arch_name@ == "x86"@ ==> (r matches Ok(t) && t@ == "x32"@),
        (arch_name@ == "powerpc64"@ && little_endian) ==> (r matches Ok(t) && t@ == "ppc64le"@),
        (arch_name@ == "powerpc64"@ && !little_endian) ==> (r matches Ok(t) && t@ == "ppc64"@),
        (arch_name@ == "s390x"@ || arch_name@ == "arm"@ || arch_name@ == "aarch64"@ || arch_name@
            == "riscv64"@) ==> (r matches Ok(t) && t@ == arch_name@),
        arch_name@ == "sparc64"@ ==> (r matches Ok(t) && t@ == "sparcv9"@),
        r is Err <==> !(arch_name@ == "x86_64"@ || arch_name@ == "x86"@ || arch_name@
            == "powerpc64"@ || arch_name@ == "s390x"@ || arch_name@ == "arm"@ || arch_name@
            == "aarch64"@ || arch_name@ == "riscv64"@ || arch_name@ == "sparc64"@),
        r is Err ==> r == Err::<String, ResolveError>(ResolveError::UnsupportedPlatform),
{
    proof {
        reveal_strlit("x86_64");
        reveal_strlit("x86");
        reveal_strlit("x64");
        reveal_strlit("x32");
        reveal_strlit("powerpc64");
        reveal_strlit("ppc64le");
        reveal_strlit("ppc64");
        reveal_strlit("s390x");
        reveal_strlit("arm");
        reveal_strlit("aarch64");
        reveal_strlit("riscv64");
        reveal_strlit("sparc64");
        reveal_strlit("sparcv9");
        assert("x86_64"@.len() == 6);
        assert("x86"@.len() == 3);
        assert("powerpc64"@.len() == 9);
        assert("s390x"@.len() == 5);
        assert("arm"@.len() == 3);
        assert("aarch64"@.len() == 7);
        assert("riscv64"@.len() == 7);
        assert("sparc64"@.len() == 7);
        assert("x86"@ != "arm"@) by {
            assert("x86"@[0] == 'x');
            assert("arm"@[0] == 'a');
        }
        assert("aarch64"@ != "sparc64"@) by {
            assert("aarch64"@[0] == 'a');
            assert("sparc64"@[0] == 's');
        }
        assert("riscv64"@ != "sparc64"@) by {
            assert("riscv64"@[0] == 'r');
            assert("sparc64"@[0] == 's');
        }
    }
    if str_eq(arch_name, "x86_64") {
        Ok(String::from_str("x64"))
    } else if str_eq(arch_name, "x86") {
        Ok(String::from_str("x32"))
    } else if str_eq(arch_name, "powerpc64") {
        if little_endian {
            Ok(String::from_str("ppc64le"))
        } else {
            Ok(String::from_str("ppc64"))
        }
    } else if str_eq(arch_name, "s390x") || str_eq(arch_name, "arm") || str_eq(
        arch_name,
        "aarch64",
    ) || str_eq(arch_name, "riscv64") {
        Ok(String::from_str(arch_name))
    } else if str_eq(arch_name, "sparc64") {
        Ok(String::from_str("sparcv9"))
    } else {
        Err(ResolveError::UnsupportedPlatform)
    }
}

/// The catalog's "latest assets" query for a major version on this
/// platform.
pub fn build_api_url(java_version: &str, arch_token: &str, os_token: &str) -> (r: String)
    ensures
        r@ == "https://api.adoptium.net/v3/assets/latest/"@ + java_version@
            + "/hotspot?architecture="@ + arch_token@ + "&image_type=jdk&os="@ + os_token@
            + "&vendor=eclipse"@,
{
    let mut url = String::from_str("https://api.adoptium.net/v3/assets/latest/");
    url.append(java_version);
    url.append("/hotspot?architecture=");
    url.append(arch_token);
    url.append("&image_type=jdk&os=");
    url.append(os_token);
    url.append("&vendor=eclipse");
    url
}

/// Where the real JDK root sits inside the extracted tree, relative to
/// the extraction directory: the release-name folder, except on macOS,
/// where it is nested under `Contents/Home`.
pub fn find_jdk_path(jdk_metadata: &JdkMetadata, os_name: &str) -> (r: String)
    ensures
        os_name@ == "macos"@ ==> r@ == jdk_metadata.release_name@ + "/Contents/Home"@,
        os_name@ != "macos"@ ==> r@ == jdk_metadata.release_name@,
{
    let mut root = jdk_metadata.release_name.clone();
    if str_eq(os_name, "macos") {
        root.append("/Contents/Home");
    }
    root
}

/// Where a JDK root keeps its `java` launcher, relative to that root:
/// under `bin`, with the executable suffix on Windows.
pub fn java_bin_path(os_name: &str) -> (r: &'static str)
    ensures
        os_name@ == "windows"@ ==> r@ == "bin/java.exe"@,
        os_name@ != "windows"@ ==> r@ == "bin/java"@,
{
    if str_eq(os_name, "windows") {
        "bin/java.exe"
    } else {
        "bin/java"
    }
}

/// Name of the zero-byte marker file whose presence proves a directory
/// is managed by this tool.
pub fn marker_file_name() -> (r: &'static str)
    ensures
        r@ == ".jlo-managed"@,
{
    ".jlo-managed"
}

/// Validates an extracted tree before it is moved into place: without
/// the platform's `java` launcher at its expected spot the extraction
/// went wrong, and nothing may be installed. A valid tree yields the
/// store entry that installation creates: a directory named after the
/// build's full version string, carrying the marker file.
pub fn install_jdk(jdk_metadata: &JdkMetadata, java_bin_present: bool) -> (r: Result<
    StoreEntry,
    InstallError,
>)
    ensures
        r is Ok <==> java_bin_present,
        r matches Ok(e) ==> e.name@ == jdk_metadata.semver@ && e.is_dir && e.marked,
        r is Err ==> r == Err::<StoreEntry, InstallError>(InstallError::JavaExecutableMissing),
{
    if java_bin_present {
        Ok(
            StoreEntry {
                name: jdk_metadata.semver.clone(),
                is_dir: true,
                marked: true,
            },
        )
    } else {
        Err(InstallError::JavaExecutableMissing)
    }
}

/// Law: a directory without the marker file is never removed by the
/// cleanup, whatever its name.
pub proof fn lemma_cleanup_spares_unmarked(entries: Seq<StoreEntry>, i: int)
    requires
        0 <= i < entries.len(),
        !entries[i].marked,
    ensures
        !superseded(entries, i),
{
}

/// Law: installing a build and then looking its exact version up finds
/// the directory the install just created.
pub proof fn lemma_install_then_find_installed(
    entries: Seq<StoreEntry>,
    e: StoreEntry,
    m: JdkMetadata,
)
    requires
        e.name@ == m.semver@,
    ensures
        is_installed(entries.push(e), m),
{
    assert(entries.push(e)[entries.len() as int].name@ == m.semver@);
}

/// Law: once a directory matching the requested version prefix has been
/// installed, a later lookup is satisfied locally, so a repeated
/// "ensure available" short-circuits without resolving again.
pub proof fn lemma_install_then_find_suitable(
    entries: Seq<StoreEntry>,
    e: StoreEntry,
    req: Seq<char>,
)
    requires
        e.is_dir,
        e.marked,
        req.is_prefix_of(e.name@),
    ensures
        has_suitable(entries.push(e), req),
{
    assert(prefix_match(entries.push(e)[entries.len() as int], req));
}

} // verus!
