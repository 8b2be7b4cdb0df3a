use vstd::prelude::*;

verus! {

/// The numeric core of a parsed semantic version, together with
/// whether the version carries a prerelease tag (a prerelease ranks
/// below the plain release of the same numbers).
#[derive(Clone, Copy, PartialEq, Eq, Structural, Debug)]
pub struct JdkVersion {
    pub major: i64,
    pub minor: i64,
    pub patch: i64,
    pub prerelease: bool,
}

impl JdkVersion {
    /// The version as an ordered quadruple, the form the ordering below
    /// and the directory-scan contracts speak of.
    pub open spec fn key(self) -> (i64, i64, i64, bool) {
        (self.major, self.minor, self.patch, self.prerelease)
    }
}

/// What `semver_rs` makes of a string with default options: the numeric
/// triple of the parsed version and whether it carries a prerelease
/// tag, or `None` when the string does not parse as a concrete
/// semantic version.
pub uninterp spec fn semver_of(s: Seq<char>) -> Option<(i64, i64, i64, bool)>;

/// Relies on `semver_rs::parse` with default options, together with
/// `semver_rs::Version::is_empty`, `Version::is_any` and
/// `Version::has_prerelease`: a string outside the semantic-version
/// grammar parses to the empty `Version`, and a numeric part beyond
/// `i64` is an error; the empty and wildcard forms of `Version` both
/// count here as "no version".
#[verifier::external_body]
pub fn parse_version(name: &str) -> (r: Option<JdkVersion>)
    ensures
        r is Some <==> semver_of(name@) is Some,
        r matches Some(v) ==> semver_of(name@) == Some((v.major, v.minor, v.patch, v.prerelease)),
{
    match semver_rs::parse(name, None::<semver_rs::Options>) {
        Err(_) => None,
        Ok(v) if v.is_empty() || v.is_any() => None,
        Ok(v) => Some(JdkVersion {
            major: v.major,
            minor: v.minor,
            patch: v.patch,
            prerelease: v.has_prerelease(),
        }),
    }
}

/// Strict order on version keys: by major, then minor, then patch;
/// with equal numbers a prerelease ranks below the plain release.
pub open spec fn key_lt(a: (i64, i64, i64, bool), b: (i64, i64, i64, bool)) -> bool {
    ||| a.0 < b.0
    ||| (a.0 == b.0 && a.1 < b.1)
    ||| (a.0 == b.0 && a.1 == b.1 && a.2 < b.2)
    ||| (a.0 == b.0 && a.1 == b.1 && a.2 == b.2 && a.3 && !b.3)
}

/// Non-strict companion of `key_lt`.
pub open spec fn key_le(a: (i64, i64, i64, bool), b: (i64, i64, i64, bool)) -> bool {
    !key_lt(b, a)
}

/// The key order is total: distinct keys are strictly ordered one way
/// or the other, and never both.
pub proof fn lemma_key_order(a: (i64, i64, i64, bool), b: (i64, i64, i64, bool))
    ensures
        a == b || key_lt(a, b) || key_lt(b, a),
        !(key_lt(a, b) && key_lt(b, a)),
        key_le(a, b) && key_le(b, a) ==> a == b,
{
}

/// A sequence of numbers in strictly increasing order: sorted, with no
/// repeats.
pub open spec fn sorted_strict(s: Seq<i64>) -> bool {
    forall|i: int, j: int| 0 <= i < j < s.len() ==> s[i] < s[j]
}

/// Inserts a value into a strictly sorted vector, keeping it strictly
/// sorted; a value already present is left alone.
pub fn insert_distinct_sorted(v: &mut Vec<i64>, x: i64)
    requires
        sorted_strict(old(v)@),
    ensures
        sorted_strict(final(v)@),
        forall|y: i64| final(v)@.contains(y) <==> (old(v)@.contains(y) || y == x),
{
    let ghost r0 = v@;
    let mut k: usize = 0;
    while k < v.len() && v[k] < x
        invariant
            0 <= k <= v@.len(),
            v@ == r0,
            sorted_strict(r0),
            forall|i: int| 0 <= i < k ==> r0[i] < x,
        decreases v@.len() - k,
    {
        k = k + 1;
    }
    if k < v.len() && v[k] == x {
        proof {
            assert(r0.contains(x)) by {
                assert(r0[k as int] == x);
            }
        }
        return ;
    }
    v.insert(k, x);
    proof {
        r0.insert_ensures(k as int, x);
        assert(v@ == r0.insert(k as int, x));
        assert forall|a: int, b: int| 0 <= a < b < v@.len() implies v@[a] < v@[b] by {
            if k < r0.len() {
                assert(r0[k as int] > x);
            }
        }
        assert forall|y: i64| v@.contains(y) implies (r0.contains(y) || y == x) by {
            let idx = choose|idx: int| 0 <= idx < v@.len() && v@[idx] == y;
            if idx < k {
                assert(r0[idx] == y);
            } else if idx > k {
                assert(r0[idx - 1] == y);
            }
        }
        assert forall|y: i64| r0.contains(y) || y == x implies v@.contains(y) by {
            if r0.contains(y) {
                let idx = choose|idx: int| 0 <= idx < r0.len() && r0[idx] == y;
                if idx < k {
                    assert(v@[idx] == y);
                } else {
                    assert(v@[idx + 1] == y);
                }
            } else {
                assert(v@[k as int] == y);
            }
        }
    }
}

/// Executable comparison matching `key_lt` on the keys.
pub fn version_lt(a: &JdkVersion, b: &JdkVersion) -> (r: bool)
    ensures
        r == key_lt(a.key(), b.key()),
{
    if a.major != b.major {
        a.major < b.major
    } else if a.minor != b.minor {
        a.minor < b.minor
    } else if a.patch != b.patch {
        a.patch < b.patch
    } else {
        a.prerelease && !b.prerelease
    }
}

} // verus!
