//! Image file naming.
//!
//! Before an image is written under the application's data directory,
//! its file name is sanitized: every space becomes an underscore.  The
//! writing, path lookup and removal of the files are the caller's.

use vstd::prelude::*;
use vstd::string::*;

verus! {

/// The sanitized form of an image file name: spaces become
/// underscores, every other character is kept.
pub open spec fn sanitized(s: Seq<char>) -> Seq<char> {
    s.map_values(
        |c: char|
            if c == ' ' {
                '_'
            } else {
                c
            },
    )
}

/// Sanitizes an image file name, executable.
#[verifier::loop_isolation(false)]
pub fn sanitize_image_filename(filename: &str) -> (r: String)
    ensures
        r@ == sanitized(filename@),
{
    let n = filename.unicode_len();
    let mut r = String::new();
    let mut start: usize = 0;
    let mut i: usize = 0;
    while i < n
        invariant
            start <= i <= n,
            n == filename@.len(),
            r@ == sanitized(filename@.subrange(0, start as int)),
            forall|k: int| start <= k < i ==> filename@[k] != ' ',
        decreases n - i,
    {
        if filename.get_char(i) == ' ' {
            let piece = filename.substring_char(start, i);
            r = r.concat(piece).concat("_");
            proof {
                reveal_strlit("_");
                assert("_"@ =~= seq!['_']);
                assert(r@ =~= sanitized(filename@.subrange(0, i + 1)));
            }
            start = i + 1;
        }
        i = i + 1;
    }
    let piece = filename.substring_char(start, n);
    let r = r.concat(piece);
    proof {
        assert(r@ =~= sanitized(filename@));
    }
    r
}

} // verus!
