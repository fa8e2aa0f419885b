//! The document cache's naming rules: where a cached document and the
//! index live under the cache directory, and how a file name found there
//! is read back. The directory walking itself stays outside this crate.

use vstd::prelude::*;

use crate::numfmt::{dec_chars, usize_to_dec};
use crate::text::{has_at, str_eq_str, str_has_at};

verus! {

/// The local cache of downloaded documents, addressed by file names under
/// one cache directory.
pub struct RfcCache {
    cache_dir: String,
}

/// What a file name found in the cache directory stands for.
#[derive(Debug, Clone, PartialEq, Eq)]
pub enum CacheFileKind {
    /// The cached index.
    IndexFile,
    /// A cached document; the payload is the number part of the name.
    RfcFile(String),
    /// A stray file that the cache never wrote.
    OtherFile,
}

impl RfcCache {
    /// The cache directory path.
    pub closed spec fn dir(&self) -> Seq<char> {
        self.cache_dir@
    }

    /// Opens the cache over the given directory; creating the directory
    /// falls to the caller.
    pub fn new(cache_dir: String) -> (c: RfcCache)
        ensures
            c.dir() == cache_dir@,
    {
        RfcCache { cache_dir }
    }

    /// The cache directory.
    pub fn cache_dir(&self) -> (r: &String)
        ensures
            r@ == self.dir(),
    {
        &self.cache_dir
    }

    /// The path of the cache file for document `rfc_number`:
    /// `<dir>/rfc<number>.txt`.
    pub fn format_cache_path(&self, rfc_number: u16) -> (r: String)
        ensures
            r@ == self.dir() + "/rfc"@ + dec_chars(rfc_number as int) + ".txt"@,
    {
        let number = usize_to_dec(rfc_number as usize);
        let r = self.cache_dir.clone().concat("/rfc").concat(number.as_str()).concat(".txt");
        proof {
            assert(r@ =~= self.dir() + "/rfc"@ + dec_chars(rfc_number as int) + ".txt"@);
        }
        r
    }

    /// The path of the cached index: `<dir>/rfc-index.txt`.
    pub fn get_index_cache_path(&self) -> (r: String)
        ensures
            r@ == self.dir() + "/rfc-index.txt"@,
    {
        self.cache_dir.clone().concat("/rfc-index.txt")
    }
}

/// Whether `name` has the shape of a cached document file:
/// `rfc<something>.txt`, with the index file's name set apart.
pub open spec fn is_rfc_file_name(name: Seq<char>) -> bool {
    &&& name.len() >= 7
    &&& name.take(3) == "rfc"@
    &&& name.skip(name.len() - 4) == ".txt"@
}

/// Reads a file name found in the cache directory: the index file by its
/// fixed name, a document file by the `rfc<number>.txt` shape — its number
/// part handed back — and anything else as a stray file.
pub fn classify_cache_file_name(name: &str) -> (r: CacheFileKind)
    ensures
        name@ == "rfc-index.txt"@ ==> r == CacheFileKind::IndexFile,
        name@ != "rfc-index.txt"@ && is_rfc_file_name(name@) ==> r is RfcFile && r->RfcFile_0@
            == name@.subrange(3, name@.len() - 4),
        name@ != "rfc-index.txt"@ && !is_rfc_file_name(name@) ==> r == CacheFileKind::OtherFile,
{
    if str_eq_str(name, "rfc-index.txt") {
        return CacheFileKind::IndexFile;
    }
    let n = name.unicode_len();
    proof {
        reveal_strlit("rfc");
        reveal_strlit(".txt");
    }
    if n >= 7 && str_has_at(name, 0, "rfc") && str_has_at(name, n - 4, ".txt") {
        let middle = name.substring_char(3, n - 4).to_owned();
        proof {
            assert(name@.take(3) =~= name@.subrange(0, 3));
            assert(name@.skip(n - 4) =~= name@.subrange(n - 4, n as int));
        }
        CacheFileKind::RfcFile(middle)
    } else {
        proof {
            if is_rfc_file_name(name@) {
                assert(has_at(name@, 0, "rfc"@)) by {
                    assert(name@.subrange(0, 3) =~= name@.take(3));
                }
                assert(has_at(name@, n - 4, ".txt"@)) by {
                    assert(name@.subrange(n - 4, n as int) =~= name@.skip(n - 4));
                }
            }
        }
        CacheFileKind::OtherFile
    }
}

} // verus!
