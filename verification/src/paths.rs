//! File paths and text: the few `std::path` operations that module
//! resolution uses, and the text comparisons and number formatting it needs.
use vstd::prelude::*;

use std::path::Path;

verus! {

/// The parent of a path (`Path::parent`), as text.
pub uninterp spec fn spec_path_parent(p: Seq<char>) -> Option<Seq<char>>;

/// The file stem of a path (`Path::file_stem`), as text.
pub uninterp spec fn spec_file_stem(p: Seq<char>) -> Option<Seq<char>>;

/// A path extended by a component (`Path::join`), as text.
pub uninterp spec fn spec_path_join(base: Seq<char>, name: Seq<char>) -> Seq<char>;

/// Two paths are equal as `Path`s: component by component.
pub uninterp spec fn spec_paths_equal(a: Seq<char>, b: Seq<char>) -> bool;

/// `s` ends with `suffix`.
pub open spec fn seq_ends_with(s: Seq<char>, suffix: Seq<char>) -> bool {
    suffix.len() <= s.len() && s.subrange(s.len() - suffix.len(), s.len() as int) == suffix
}

/// `Path::parent` of a path given as text, converted back to text.
///
/// Claimed: the result is a function of the text alone, named `spec_path_parent`.
/// A parent of a path made from UTF-8 text is UTF-8 text, so the conversion
/// back never loses it.
#[verifier::external_body]
pub(crate) fn path_parent(p: &str) -> (r: Option<String>)
    ensures
        r is Some <==> spec_path_parent(p@) is Some,
        r matches Some(s) ==> s@ == spec_path_parent(p@)->0,
{
    match Path::new(p).parent() {
        Some(q) => q.to_str().map(str::to_string),
        None => None,
    }
}

/// `Path::file_stem` of a path given as text, converted back to text.
///
/// Claimed: the result is a function of the text alone, named `spec_file_stem`.
#[verifier::external_body]
pub(crate) fn path_file_stem(p: &str) -> (r: Option<String>)
    ensures
        r is Some <==> spec_file_stem(p@) is Some,
        r matches Some(s) ==> s@ == spec_file_stem(p@)->0,
{
    match Path::new(p).file_stem() {
        Some(s) => s.to_str().map(str::to_string),
        None => None,
    }
}

/// `Path::join` of two paths given as text, converted back to text.
///
/// Claimed: the result is a function of the two texts alone, named
/// `spec_path_join`. Joining UTF-8 texts gives UTF-8 text; were the
/// conversion to fail, the result would be empty.
#[verifier::external_body]
pub(crate) fn path_join(base: &str, name: &str) -> (r: String)
    ensures
        r@ == spec_path_join(base@, name@),
{
    match Path::new(base).join(name).to_str() {
        Some(s) => s.to_string(),
        None => String::new(),
    }
}

/// `==` on `Path`s made from two texts.
///
/// Claimed: the result is a function of the two texts, named
/// `spec_paths_equal`; and, as `Path` implements `Eq`, a text is equal to itself.
#[verifier::external_body]
pub(crate) fn paths_equal(a: &str, b: &str) -> (r: bool)
    ensures
        r == spec_paths_equal(a@, b@),
        a@ == b@ ==> r,
{
    Path::new(a) == Path::new(b)
}

/// Whether `s[start..start + part.len()]` is `part`.
fn matches_at(s: &str, start: usize, part: &str) -> (r: bool)
    requires
        start + part@.len() <= s@.len(),
    ensures
        r == (s@.subrange(start as int, start + part@.len()) == part@),
{
    let n = part.unicode_len();
    let total = s.unicode_len();
    let mut i: usize = 0;
    while i < n
        invariant
            n == part@.len(),
            total == s@.len(),
            start + n <= s@.len(),
            i <= n,
            forall|j: int| 0 <= j < i ==> s@[start + j] == part@[j],
        decreases n - i,
    {
        if s.get_char(start + i) != part.get_char(i) {
            assert(s@.subrange(start as int, start + n)[i as int] != part@[i as int]);
            return false;
        }
        i = i + 1;
    }
    assert(s@.subrange(start as int, start + n) =~= part@);
    true
}

/// Whether `s` ends with `suffix`.
pub(crate) fn str_ends_with(s: &str, suffix: &str) -> (r: bool)
    ensures
        r == seq_ends_with(s@, suffix@),
{
    let n = s.unicode_len();
    let m = suffix.unicode_len();
    if m > n {
        return false;
    }
    matches_at(s, n - m, suffix)
}

/// `s` starts with `prefix`.
pub open spec fn seq_starts_with(s: Seq<char>, prefix: Seq<char>) -> bool {
    prefix.len() <= s.len() && s.subrange(0, prefix.len() as int) == prefix
}

/// Whether `s` starts with `prefix`.
pub(crate) fn str_starts_with(s: &str, prefix: &str) -> (r: bool)
    ensures
        r == seq_starts_with(s@, prefix@),
{
    if prefix.unicode_len() > s.unicode_len() {
        return false;
    }
    matches_at(s, 0, prefix)
}

/// The character of a decimal digit.
pub open spec fn digit_char(d: int) -> char {
    ((48 + d) as u32) as char
}

/// The decimal digits of a number, as `u64::to_string` writes them: the
/// most significant first, with no leading zero.
pub open spec fn spec_decimal(n: u64) -> Seq<char>
    decreases n,
{
    if n < 10 {
        seq![digit_char(n as int)]
    } else {
        spec_decimal(n / 10).push(digit_char((n % 10) as int))
    }
}

/// The text of a decimal digit.
pub fn digit_str(d: u64) -> (s: &'static str)
    requires
        d < 10,
    ensures
        s@ == seq![digit_char(d as int)],
{
    proof {
        reveal_strlit("0");
        reveal_strlit("1");
        reveal_strlit("2");
        reveal_strlit("3");
        reveal_strlit("4");
        reveal_strlit("5");
        reveal_strlit("6");
        reveal_strlit("7");
        reveal_strlit("8");
        reveal_strlit("9");
    }
    if d == 0 {
        "0"
    } else if d == 1 {
        "1"
    } else if d == 2 {
        "2"
    } else if d == 3 {
        "3"
    } else if d == 4 {
        "4"
    } else if d == 5 {
        "5"
    } else if d == 6 {
        "6"
    } else if d == 7 {
        "7"
    } else if d == 8 {
        "8"
    } else {
        "9"
    }
}

/// The decimal text of a number.
pub fn decimal(n: u64) -> (r: String)
    ensures
        r@ == spec_decimal(n),
    decreases n,
{
    if n < 10 {
        digit_str(n).to_string()
    } else {
        let r = decimal(n / 10).concat(digit_str(n % 10));
        proof {
            assert(r@ =~= spec_decimal(n / 10) + seq![digit_char((n % 10) as int)]);
        }
        r
    }
}

/// Whether two texts are equal.
pub(crate) fn str_eq(a: &str, b: &str) -> (r: bool)
    ensures
        r == (a@ == b@),
{
    if a.unicode_len() != b.unicode_len() {
        return false;
    }
    let r = matches_at(a, 0, b);
    assert(a@.subrange(0, b@.len() as int) =~= a@);
    r
}

} // verus!
