//! Rules of the download queue that do not touch the network or the disk.
use vstd::prelude::*;
use crate::text::{chars_of, slice_chars, string_of};

verus! {

/// The download queue.
pub struct UsenetDownloader;

/// `s` ends with `suffix`.
pub open spec fn has_suffix(s: Seq<char>, suffix: Seq<char>) -> bool {
    suffix.len() <= s.len() && s.skip(s.len() - suffix.len()) == suffix
}

/// The job name of an NZB file name: the name without a trailing ".nzb".
pub open spec fn spec_job_name(filename: Seq<char>) -> Seq<char> {
    if has_suffix(filename, ".nzb"@) {
        filename.take(filename.len() - 4)
    } else {
        filename
    }
}

impl UsenetDownloader {
    /// The job name of an NZB file name: the name without a trailing
    /// ".nzb" (the name itself when it has none).
    pub fn extract_job_name(filename: &str) -> (r: String)
        ensures
            r@ == spec_job_name(filename@),
    {
        let v = chars_of(filename);
        let n = v.len();
        proof {
            reveal_strlit(".nzb");
        }
        if n >= 4 && v[n - 4] == '.' && v[n - 3] == 'n' && v[n - 2] == 'z' && v[n - 1] == 'b' {
            assert(v@.skip(n - 4) =~= ".nzb"@);
            let head = slice_chars(v.as_slice(), 0, n - 4);
            assert(head@ =~= filename@.take(n - 4));
            string_of(head.as_slice())
        } else {
            assert(!has_suffix(filename@, ".nzb"@)) by {
                if has_suffix(filename@, ".nzb"@) {
                    assert(v@.skip(n - 4)[0] == '.');
                    assert(v@.skip(n - 4)[1] == 'n');
                    assert(v@.skip(n - 4)[2] == 'z');
                    assert(v@.skip(n - 4)[3] == 'b');
                }
            }
            filename.to_string()
        }
    }
}

} // verus!
