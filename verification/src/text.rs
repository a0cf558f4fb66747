//! Small verified text helpers: exact string comparison, blank detection
//! for validated inputs, and deriving a repository name from a path.

use vstd::prelude::*;
use vstd::string::StrSliceExecFns;
use vstd::string::StringExecFns;
use vstd::string::StringSliceAdditionalSpecFns;
use vstd::utf8::encode_utf8_decode_utf8;

verus! {

/// Whether two string slices hold the same characters.
pub fn str_eq(a: &str, b: &str) -> (r: bool)
    ensures
        r == (a@ == b@),
{
    let ab = a.as_bytes();
    let bb = b.as_bytes();
    if ab.len() != bb.len() {
        proof {
            if a@ == b@ {
                assert(a.spec_bytes() == b.spec_bytes());
            }
        }
        return false;
    }
    let mut i: usize = 0;
    while i < ab.len()
        invariant
            i <= ab@.len(),
            ab@.len() == bb@.len(),
            ab@ == a.spec_bytes(),
            bb@ == b.spec_bytes(),
            forall|k: int| 0 <= k < i ==> ab@[k] == bb@[k],
        decreases ab@.len() - i,
    {
        if ab[i] != bb[i] {
            proof {
                if a@ == b@ {
                    assert(a.spec_bytes() == b.spec_bytes());
                }
            }
            return false;
        }
        i = i + 1;
    }
    proof {
        assert(a.spec_bytes() =~= b.spec_bytes());
        encode_utf8_decode_utf8(a@);
        encode_utf8_decode_utf8(b@);
    }
    true
}

/// Whether a character carries the Unicode White_Space property, the set
/// `str::trim` removes.
pub open spec fn is_space(c: char) -> bool {
    let n = c as u32;
    ||| n == 0x20
    ||| (0x09 <= n && n <= 0x0D)
    ||| n == 0x85
    ||| n == 0xA0
    ||| n == 0x1680
    ||| (0x2000 <= n && n <= 0x200A)
    ||| n == 0x2028
    ||| n == 0x2029
    ||| n == 0x202F
    ||| n == 0x205F
    ||| n == 0x3000
}

/// Whether a string holds nothing but blank space (or nothing at all).
pub open spec fn spec_is_blank(s: Seq<char>) -> bool {
    forall|i: int| 0 <= i < s.len() ==> is_space(#[trigger] s[i])
}

/// Whether a string holds nothing but blank space; such a commit message
/// or branch name is rejected.
pub fn is_blank(s: &str) -> (r: bool)
    ensures
        r == spec_is_blank(s@),
{
    let n = s.unicode_len();
    let mut i: usize = 0;
    while i < n
        invariant
            i <= n,
            n == s@.len(),
            forall|k: int| 0 <= k < i ==> is_space(#[trigger] s@[k]),
        decreases n - i,
    {
        let c = s.get_char(i);
        let n = c as u32;
        let space = n == 0x20 || (0x09 <= n && n <= 0x0D) || n == 0x85 || n == 0xA0 || n == 0x1680
            || (0x2000 <= n && n <= 0x200A) || n == 0x2028 || n == 0x2029 || n == 0x202F || n
            == 0x205F || n == 0x3000;
        if !space {
            return false;
        }
        i = i + 1;
    }
    true
}

/// The start of the last `/`-separated segment of a path.
pub open spec fn last_segment_start(s: Seq<char>) -> int {
    if exists|i: int| 0 <= i < s.len() && s[i] == '/' {
        (choose|i: int|
            0 <= i < s.len() && s[i] == '/' && (forall|j: int|
                i < j < s.len() ==> s[j] != '/')) + 1
    } else {
        0
    }
}

/// The name a repository takes from its path: the last `/`-separated
/// segment, or `unknown` where the path ends in a separator or is empty.
pub open spec fn spec_repo_name(s: Seq<char>) -> Seq<char> {
    let seg = s.skip(last_segment_start(s));
    if seg.len() == 0 {
        "unknown"@
    } else {
        seg
    }
}

/// Derives a repository's display name from its path.
pub fn repo_name_from_path(path: &str) -> (r: String)
    ensures
        r@ == spec_repo_name(path@),
{
    let n = path.unicode_len();
    let mut start: usize = 0;
    let mut i: usize = 0;
    while i < n
        invariant
            i <= n,
            n == path@.len(),
            0 <= start <= i,
            start > 0 ==> path@[start - 1] == '/' && (forall|j: int|
                start <= j < i ==> path@[j] != '/'),
            start == 0 ==> forall|j: int| 0 <= j < i ==> path@[j] != '/',
        decreases n - i,
    {
        if path.get_char(i) == '/' {
            start = i + 1;
        }
        i = i + 1;
    }
    proof {
        if start > 0 {
            assert(last_segment_start(path@) == start) by {
                assert(path@[start - 1] == '/' && (forall|j: int|
                    start - 1 < j < path@.len() ==> path@[j] != '/'));
                let w = choose|k: int|
                    0 <= k < path@.len() && path@[k] == '/' && (forall|j: int|
                        k < j < path@.len() ==> path@[j] != '/');
                if w < start - 1 {
                    assert(path@[start - 1] == '/');
                    assert(false);
                } else if w > start - 1 {
                    assert(path@[w] != '/');
                    assert(false);
                }
            }
        } else {
            assert(last_segment_start(path@) == 0) by {
                if exists|k: int| 0 <= k < path@.len() && path@[k] == '/' {
                    let k = choose|k: int| 0 <= k < path@.len() && path@[k] == '/';
                    assert(path@[k] != '/');
                    assert(false);
                }
            }
        }
    }
    if start >= n {
        let r = String::from_str("unknown");
        proof {
            assert(path@.skip(start as int).len() == 0);
        }
        r
    } else {
        let seg = path.substring_char(start, n);
        proof {
            assert(seg@ == path@.skip(start as int));
        }
        String::from_str(seg)
    }
}

} // verus!
