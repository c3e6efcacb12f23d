//! Case-insensitive text matching.
//!
//! Matching folds the ASCII uppercase letters to lowercase and leaves every
//! other character as it stands, so "Turkey" matches "turkey" while non-ASCII
//! characters compare exactly.  A needle matches a haystack when the folded
//! needle occurs as a contiguous run inside the folded haystack; two strings
//! are similar when either occurs inside the other, which covers equality.

use vstd::prelude::*;

verus! {

/// ASCII case folding of one Unicode scalar: an uppercase ASCII letter folds
/// to its lowercase form, every other scalar stands for itself.
pub open spec fn fold_scalar(u: u32) -> u32 {
    if 65 <= u && u <= 90 {
        (u + 32) as u32
    } else {
        u
    }
}

/// The folded needle occurs in the folded haystack starting at position `i`.
pub open spec fn nocase_match_at(hay: Seq<char>, needle: Seq<char>, i: int) -> bool {
    &&& 0 <= i
    &&& i + needle.len() <= hay.len()
    &&& forall|j: int|
        0 <= j < needle.len() ==> fold_scalar(hay[i + j] as u32) == fold_scalar(
            (#[trigger] needle[j]) as u32,
        )
}

/// The folded needle occurs somewhere in the folded haystack.
///
/// An empty needle occurs in every haystack.
pub open spec fn contains_nocase(hay: Seq<char>, needle: Seq<char>) -> bool {
    exists|i: int| nocase_match_at(hay, needle, i)
}

/// Either string occurs in the other once both are folded; equal strings are
/// always similar.
pub open spec fn similar_nocase(a: Seq<char>, b: Seq<char>) -> bool {
    contains_nocase(a, b) || contains_nocase(b, a)
}

/// Some string of `items` is similar to `target`.
pub open spec fn any_similar_nocase(items: Seq<Seq<char>>, target: Seq<char>) -> bool {
    exists|i: int| 0 <= i < items.len() && similar_nocase(#[trigger] items[i], target)
}

/// ASCII case folding of one character, as executable code.
fn fold_char(c: char) -> (r: u32)
    ensures
        r == fold_scalar(c as u32),
{
    let u = c as u32;
    if 65 <= u && u <= 90 {
        u + 32
    } else {
        u
    }
}

/// The characters of a string, in order.
pub fn chars_of(s: &str) -> (v: Vec<char>)
    ensures
        v@ == s@,
{
    let n = s.unicode_len();
    let mut v: Vec<char> = Vec::new();
    let mut i: usize = 0;
    while i < n
        invariant
            i <= n,
            n == s@.len(),
            v@ == s@.take(i as int),
        decreases n - i,
    {
        let c = s.get_char(i);
        v.push(c);
        proof {
            assert(s@.take(i + 1) =~= s@.take(i as int).push(s@[i as int]));
        }
        i = i + 1;
    }
    proof {
        assert(s@.take(n as int) =~= s@);
    }
    v
}

/// Whether the folded needle occurs in the folded haystack at position `i`.
fn nocase_match_at_chars(hay: &Vec<char>, needle: &Vec<char>, i: usize) -> (r: bool)
    requires
        i + needle.len() <= hay.len(),
    ensures
        r == nocase_match_at(hay@, needle@, i as int),
{
    let mut j: usize = 0;
    while j < needle.len()
        invariant
            j <= needle.len(),
            i + needle.len() <= hay.len(),
            forall|k: int|
                0 <= k < j ==> fold_scalar(hay@[i + k] as u32) == fold_scalar(
                    (#[trigger] needle@[k]) as u32,
                ),
        decreases needle.len() - j,
    {
        let hc = fold_char(hay[i + j]);
        let nc = fold_char(needle[j]);
        if hc != nc {
            proof {
                assert(!nocase_match_at(hay@, needle@, i as int)) by {
                    if nocase_match_at(hay@, needle@, i as int) {
                        assert(fold_scalar(hay@[i + j] as u32) == fold_scalar(
                            needle@[j as int] as u32,
                        ));
                    }
                }
            }
            return false;
        }
        j = j + 1;
    }
    true
}

/// Whether the folded needle occurs anywhere in the folded haystack.
fn contains_nocase_chars(hay: &Vec<char>, needle: &Vec<char>) -> (r: bool)
    ensures
        r == contains_nocase(hay@, needle@),
{
    if needle.len() > hay.len() {
        proof {
            assert(forall|i: int| !nocase_match_at(hay@, needle@, i));
        }
        return false;
    }
    let mut i: usize = 0;
    while i <= hay.len() - needle.len()
        invariant
            needle.len() <= hay.len(),
            forall|k: int| 0 <= k < i ==> !nocase_match_at(hay@, needle@, k),
        decreases hay.len() - i,
    {
        if nocase_match_at_chars(hay, needle, i) {
            proof {
                assert(nocase_match_at(hay@, needle@, i as int));
            }
            return true;
        }
        i = i + 1;
    }
    proof {
        assert(forall|k: int| !nocase_match_at(hay@, needle@, k));
    }
    false
}

/// Whether the folded `needle` occurs in the folded `hay`.
pub fn str_contains_nocase(hay: &str, needle: &str) -> (r: bool)
    ensures
        r == contains_nocase(hay@, needle@),
{
    let h = chars_of(hay);
    let n = chars_of(needle);
    contains_nocase_chars(&h, &n)
}

/// Whether either string occurs in the other, case-insensitively.
pub fn str_similar_nocase(a: &str, b: &str) -> (r: bool)
    ensures
        r == similar_nocase(a@, b@),
{
    let contained = str_contains_nocase(a, b);
    if contained {
        true
    } else {
        str_contains_nocase(b, a)
    }
}

/// Whether some string of `items` is similar to `target`.
pub fn any_similar(items: &Vec<String>, target: &str) -> (r: bool)
    ensures
        r == any_similar_nocase(items.deep_view(), target@),
{
    let mut i: usize = 0;
    while i < items.len()
        invariant
            i <= items.len(),
            forall|k: int|
                0 <= k < i ==> !similar_nocase(#[trigger] items.deep_view()[k], target@),
        decreases items.len() - i,
    {
        if str_similar_nocase(items[i].as_str(), target) {
            proof {
                assert(similar_nocase(items.deep_view()[i as int], target@));
            }
            return true;
        }
        i = i + 1;
    }
    false
}

/// Some string of `items` holds `needle`, case-insensitively.
pub open spec fn any_contains_nocase(items: Seq<Seq<char>>, needle: Seq<char>) -> bool {
    exists|i: int| 0 <= i < items.len() && contains_nocase(#[trigger] items[i], needle)
}

/// Whether some string of `items` holds `needle`, case-insensitively.
pub fn any_contains(items: &Vec<String>, needle: &str) -> (r: bool)
    ensures
        r == any_contains_nocase(items.deep_view(), needle@),
{
    let mut i: usize = 0;
    while i < items.len()
        invariant
            i <= items.len(),
            forall|k: int|
                0 <= k < i ==> !contains_nocase(#[trigger] items.deep_view()[k], needle@),
        decreases items.len() - i,
    {
        if str_contains_nocase(items[i].as_str(), needle) {
            proof {
                assert(contains_nocase(items.deep_view()[i as int], needle@));
            }
            return true;
        }
        i = i + 1;
    }
    false
}

/// Some string of `items` equals `target` exactly, case-sensitively.
pub open spec fn contains_exact(items: Seq<Seq<char>>, target: Seq<char>) -> bool {
    exists|i: int| 0 <= i < items.len() && #[trigger] items[i] == target
}

/// Whether some string of `items` equals `target` exactly.
pub fn any_equal(items: &Vec<String>, target: &String) -> (r: bool)
    ensures
        r == contains_exact(items.deep_view(), target@),
{
    let mut i: usize = 0;
    while i < items.len()
        invariant
            i <= items.len(),
            forall|k: int| 0 <= k < i ==> #[trigger] items.deep_view()[k] != target@,
        decreases items.len() - i,
    {
        if items[i].eq(target) {
            proof {
                assert(items.deep_view()[i as int] == target@);
            }
            return true;
        }
        i = i + 1;
    }
    false
}

} // verus!
