use vstd::prelude::*;

use crate::text::str_eq;
use vstd::string::StrSliceExecFns;

verus! {

/// Errors of the archive extraction stage.
#[derive(Clone, Copy, PartialEq, Eq, Structural, Debug)]
pub enum ExtractError {
    /// The archive's file name carries neither of the two accepted
    /// extensions.
    UnsupportedFormat,
    /// Unpacking broke off: the destination must not be trusted.
    ExtractionFailed,
}

/// The two archive container formats the tool accepts.
#[derive(Clone, Copy, PartialEq, Eq, Structural, Debug)]
pub enum ArchiveFormat {
    /// Gzip-compressed tarball: a name ending in `.tar.gz`.
    TarGz,
    /// Zip archive: extension `zip`.
    Zip,
}

/// A name the tool treats as a gzip-compressed tarball: one that ends
/// in `.tar.gz`.
pub open spec fn is_tar_gz_name(s: Seq<char>) -> bool {
    ".tar.gz"@.is_suffix_of(s)
}

/// Index of the last `.` in a name, or `-1` when there is none.
pub open spec fn last_dot(s: Seq<char>) -> int
    decreases s.len(),
{
    if s.len() == 0 {
        -1
    } else if s.last() == '.' {
        s.len() - 1
    } else {
        last_dot(s.drop_last())
    }
}

/// The file name's extension, as paths define it: the part after the
/// last `.`, unless there is no `.` or the only `.` leads the name.
pub open spec fn extension_of(s: Seq<char>) -> Option<Seq<char>> {
    let p = last_dot(s);
    if p <= 0 {
        None
    } else {
        Some(s.skip(p + 1))
    }
}

proof fn lemma_last_dot(s: Seq<char>, k: int)
    requires
        0 <= k <= s.len(),
        forall|j: int| k <= j < s.len() ==> s[j] != '.',
        k == 0 || s[k - 1] == '.',
    ensures
        last_dot(s) == k - 1,
    decreases s.len(),
{
    if s.len() == 0 {
    } else if s.last() == '.' {
        assert(k == s.len());
    } else {
        assert(k < s.len());
        lemma_last_dot(s.drop_last(), k);
    }
}

/// Decides how to unpack an archive purely from its file name: a name
/// ending in `.tar.gz` means gzip-decompress then untar, the `zip`
/// extension means zip decode, and anything else is refused.
pub fn extract(file_name: &str) -> (r: Result<ArchiveFormat, ExtractError>)
    ensures
        r == Ok::<ArchiveFormat, ExtractError>(ArchiveFormat::TarGz) <==> is_tar_gz_name(
            file_name@,
        ),
        r == Ok::<ArchiveFormat, ExtractError>(ArchiveFormat::Zip) <==> (!is_tar_gz_name(
            file_name@,
        ) && extension_of(file_name@) == Some("zip"@)),
        r is Err ==> r == Err::<ArchiveFormat, ExtractError>(ExtractError::UnsupportedFormat),
{
    let n = file_name.unicode_len();
    proof {
        reveal_strlit(".tar.gz");
        assert(".tar.gz"@.len() == 7);
    }
    if n >= 7 {
        let tail = file_name.substring_char(n - 7, n);
        if str_eq(tail, ".tar.gz") {
            proof {
                assert(tail@ =~= file_name@.subrange(n - 7, n as int));
                assert(is_tar_gz_name(file_name@));
            }
            return Ok(ArchiveFormat::TarGz);
        }
        proof {
            assert(!is_tar_gz_name(file_name@)) by {
                if is_tar_gz_name(file_name@) {
                    assert(".tar.gz"@ =~= file_name@.subrange(n - 7, n as int));
                }
            }
        }
    }
    let mut k: usize = n;
    while k > 0 && file_name.get_char(k - 1) != '.'
        invariant
            0 <= k <= n,
            n == file_name@.len(),
            forall|j: int| k <= j < n ==> file_name@[j] != '.',
        decreases k,
    {
        k = k - 1;
    }
    proof {
        lemma_last_dot(file_name@, k as int);
    }
    if k < 2 {
        return Err(ExtractError::UnsupportedFormat);
    }
    let ext = file_name.substring_char(k, n);
    proof {
        assert(ext@ =~= file_name@.skip(k as int));
    }
    if str_eq(ext, "zip") {
        Ok(ArchiveFormat::Zip)
    } else {
        Err(ExtractError::UnsupportedFormat)
    }
}

} // verus!
