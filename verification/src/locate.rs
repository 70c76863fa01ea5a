//! Locating the package files: picking, among the files of the packages
//! directory, the one with the highest patch digit for a package
//! identifier; deriving from it the sibling patch-stream paths; and
//! constructing the package aggregate. The directory listing is handed in
//! as plain path strings; no file system is touched here.

use vstd::prelude::*;

verus! {

use vstd::string::*;
use crate::PkgError;
use crate::parse::hex_char_lower;
use crate::parse::nibble_str_lower;
use crate::structs::{Header, Package};

/// Whether a character separates path components.
pub open spec fn is_sep(c: char) -> bool {
    c == '/' || c == '\\'
}

/// Whether `i` is the last separator of `s`.
pub open spec fn sep_index_ok(s: Seq<char>, i: int) -> bool {
    &&& 0 <= i < s.len()
    &&& is_sep(s[i])
    &&& forall|j: int| i < j < s.len() ==> !is_sep(#[trigger] s[j])
}

/// The ten decimal digit characters.
pub open spec fn is_digit_char(c: char) -> bool {
    ||| c == '0'
    ||| c == '1'
    ||| c == '2'
    ||| c == '3'
    ||| c == '4'
    ||| c == '5'
    ||| c == '6'
    ||| c == '7'
    ||| c == '8'
    ||| c == '9'
}

/// The value of a decimal digit character (-1 for any other character).
pub open spec fn digit_val(c: char) -> int {
    if c == '0' { 0 }
    else if c == '1' { 1 }
    else if c == '2' { 2 }
    else if c == '3' { 3 }
    else if c == '4' { 4 }
    else if c == '5' { 5 }
    else if c == '6' { 6 }
    else if c == '7' { 7 }
    else if c == '8' { 8 }
    else if c == '9' { 9 }
    else { -1 }
}

/// Whether `pat` occurs in `s` starting at position `i`.
pub open spec fn contains_at(s: Seq<char>, pat: Seq<char>, i: int) -> bool {
    &&& 0 <= i
    &&& i + pat.len() <= s.len()
    &&& s.subrange(i, i + pat.len()) == pat
}

/// Whether `pat` occurs anywhere in `s`.
pub open spec fn seq_contains(s: Seq<char>, pat: Seq<char>) -> bool {
    exists|i: int| contains_at(s, pat, i)
}

/// Whether a directory entry belongs to the requested package: its path
/// contains the package identifier.
pub open spec fn path_matches(p: Seq<char>, id: Seq<char>) -> bool {
    seq_contains(p, id)
}

/// Whether a matching path has the shape the naming convention promises:
/// a decimal patch digit 5 characters before the end (before the
/// 4-character extension), and a path separator that leaves a non-negative
/// stem in front of `_{digit}.pkg`.
pub open spec fn path_wf(p: Seq<char>) -> bool {
    &&& p.len() >= 7
    &&& is_digit_char(p[p.len() - 5])
    &&& exists|i: int| sep_index_ok(p, i) && i + 1 <= p.len() - 6
}

/// The patch digit of a path, read 5 characters before its end.
pub open spec fn patch_digit(p: Seq<char>) -> int {
    digit_val(p[p.len() - 5])
}

/// The package's base name inside a path: the characters between the last
/// separator and the trailing `_{digit}.pkg`.
pub open spec fn spec_stem(p: Seq<char>) -> Seq<char> {
    let i = choose|i: int| sep_index_ok(p, i) && i + 1 <= p.len() - 6;
    p.subrange(i + 1, p.len() - 6)
}

/// The resolved primary path: `{dir}/{stem}_{digit}.pkg`.
pub open spec fn spec_primary_path(pp: Seq<char>, stem: Seq<char>, d: int) -> Seq<char> {
    pp + "/"@ + stem + "_"@ + seq![hex_char_lower(d)] + ".pkg"@
}

/// The path the locator settles on: a well-formed match whose patch digit
/// no other match exceeds; among equal maxima the first, except that a
/// maximum of zero keeps the last match seen.
pub open spec fn chosen_ok(paths: Seq<String>, id: Seq<char>, k: int) -> bool {
    &&& 0 <= k < paths.len()
    &&& path_matches(paths[k]@, id)
    &&& path_wf(paths[k]@)
    &&& forall|t: int|
        0 <= t < paths.len() && path_matches(#[trigger] paths[t]@, id) ==> patch_digit(paths[t]@)
            <= patch_digit(paths[k]@)
    &&& (patch_digit(paths[k]@) > 0 ==> forall|t: int|
        0 <= t < k && path_matches(#[trigger] paths[t]@, id) ==> patch_digit(paths[t]@)
            < patch_digit(paths[k]@))
    &&& (patch_digit(paths[k]@) == 0 ==> forall|t: int|
        k < t < paths.len() ==> !path_matches(#[trigger] paths[t]@, id))
}

/// The last separator of a path has a unique index, so the stem read from
/// any last-separator witness is the stem.
proof fn lemma_stem_unique(p: Seq<char>, si: int)
    requires
        sep_index_ok(p, si),
        si + 1 <= p.len() - 6,
    ensures
        spec_stem(p) == p.subrange(si + 1, p.len() - 6),
{
    assert(exists|i: int| sep_index_ok(p, i) && i + 1 <= p.len() - 6);
    let i = choose|i: int| sep_index_ok(p, i) && i + 1 <= p.len() - 6;
    if i < si {
        assert(!is_sep(p[si]));
        assert(false);
    }
    if i > si {
        assert(!is_sep(p[i]));
        assert(false);
    }
}

/// Whether `pat` occurs anywhere in `s`.
pub fn str_contains(s: &str, pat: &str) -> (r: bool)
    ensures
        r == seq_contains(s@, pat@),
{
    let n: usize = s.unicode_len();
    let m: usize = pat.unicode_len();
    if m == 0 {
        proof {
            assert(s@.subrange(0, 0) =~= pat@);
            assert(contains_at(s@, pat@, 0));
        }
        return true;
    }
    if m > n {
        return false;
    }
    let mut i: usize = 0;
    while i <= n - m
        invariant
            1 <= m <= n,
            n == s@.len(),
            m == pat@.len(),
            i <= n - m + 1,
            forall|i2: int| 0 <= i2 < i ==> !contains_at(s@, pat@, i2),
        decreases n - m + 1 - i,
    {
        let mut j: usize = 0;
        let mut ok: bool = true;
        while ok && j < m
            invariant
                1 <= m <= n,
                n == s@.len(),
                m == pat@.len(),
                i + m <= n,
                j <= m,
                ok ==> forall|j2: int| 0 <= j2 < j ==> s@[i + j2] == pat@[j2],
                !ok ==> !contains_at(s@, pat@, i as int),
            decreases m - j + (if ok { 1int } else { 0int }),
        {
            if s.get_char(i + j) != pat.get_char(j) {
                proof {
                    if contains_at(s@, pat@, i as int) {
                        assert(s@.subrange(i as int, i + pat@.len())[j as int] == pat@[j as int]);
                    }
                }
                ok = false;
            } else {
                j = j + 1;
            }
        }
        if ok {
            proof {
                assert(s@.subrange(i as int, i + pat@.len()) =~= pat@);
                assert(contains_at(s@, pat@, i as int));
            }
            return true;
        }
        i = i + 1;
    }
    false
}

/// The index of the last path separator of `s`, if any.
fn find_last_sep(s: &str) -> (r: Option<usize>)
    ensures
        r matches Some(i) ==> sep_index_ok(s@, i as int),
        r is None ==> forall|j: int| 0 <= j < s@.len() ==> !is_sep(#[trigger] s@[j]),
{
    let n: usize = s.unicode_len();
    let mut i: usize = n;
    while i > 0
        invariant
            i <= n,
            n == s@.len(),
            forall|j: int| i <= j < n ==> !is_sep(#[trigger] s@[j]),
        decreases i,
    {
        let c = s.get_char(i - 1);
        if c == '/' || c == '\\' {
            return Some(i - 1);
        }
        i = i - 1;
    }
    None
}

/// The value of a decimal digit character, or `None` for any other.
fn digit_of_char(c: char) -> (r: Option<u8>)
    ensures
        r matches Some(d) ==> is_digit_char(c) && d == digit_val(c) && d <= 9,
        r is None ==> !is_digit_char(c),
{
    match c {
        '0' => Some(0),
        '1' => Some(1),
        '2' => Some(2),
        '3' => Some(3),
        '4' => Some(4),
        '5' => Some(5),
        '6' => Some(6),
        '7' => Some(7),
        '8' => Some(8),
        '9' => Some(9),
        _ => None,
    }
}

/// Checks a matching path against the naming convention and returns its
/// last-separator index and patch digit.
fn check_path(p: &str) -> (r: Option<(usize, u8)>)
    ensures
        r matches Some(sd) ==> {
            &&& path_wf(p@)
            &&& sep_index_ok(p@, sd.0 as int)
            &&& sd.0 + 1 <= p@.len() - 6
            &&& sd.1 == patch_digit(p@)
            &&& sd.1 <= 9
        },
        r is None ==> !path_wf(p@),
{
    let n: usize = p.unicode_len();
    if n < 7 {
        return None;
    }
    let c = p.get_char(n - 5);
    let d: u8 = match digit_of_char(c) {
        Some(d) => d,
        None => {
            return None;
        },
    };
    let si: usize = match find_last_sep(p) {
        Some(si) => si,
        None => {
            proof {
                if path_wf(p@) {
                    let i = choose|i: int| sep_index_ok(p@, i) && i + 1 <= p@.len() - 6;
                    assert(is_sep(p@[i]));
                }
            }
            return None;
        },
    };
    if si + 1 > n - 6 {
        proof {
            if path_wf(p@) {
                let i = choose|i: int| sep_index_ok(p@, i) && i + 1 <= p@.len() - 6;
                if i < si {
                    assert(!is_sep(p@[si as int]));
                }
                if i > si {
                    assert(!is_sep(p@[i]));
                }
                assert(false);
            }
        }
        return None;
    }
    Some((si, d))
}

/// Scans the directory listing for the package's files and resolves the
/// primary path and the package's base name. The match with the highest
/// patch digit wins. No match at all is a configuration error; a matching
/// path that breaks the naming convention is a format error.
pub(crate) fn locate_with_stem(paths: &Vec<String>, packages_path: &str, package_id: &str) -> (r:
    Result<(String, String), PkgError>)
    ensures
        r matches Ok(ps) ==> exists|k: int|
            {
                &&& #[trigger] chosen_ok(paths@, package_id@, k)
                &&& ps.0@ == spec_primary_path(
                    packages_path@,
                    spec_stem(paths@[k]@),
                    patch_digit(paths@[k]@),
                )
                &&& ps.1@ == spec_stem(paths@[k]@)
            },
        r == Err::<(String, String), PkgError>(PkgError::Configuration) <==> !(exists|t: int|
            0 <= t < paths@.len() && path_matches(#[trigger] paths@[t]@, package_id@)),
        r == Err::<(String, String), PkgError>(PkgError::Format) <==> exists|t: int|
            0 <= t < paths@.len() && path_matches(#[trigger] paths@[t]@, package_id@) && !path_wf(
                paths@[t]@,
            ),
        r is Err ==> r == Err::<(String, String), PkgError>(PkgError::Configuration) || r == Err::<
            (String, String),
            PkgError,
        >(PkgError::Format),
{
    let mut found: bool = false;
    let mut best_d: u8 = 0;
    let mut best_stem: String = String::new();
    let ghost mut best_k: int = 0int;
    let mut j: usize = 0;
    while j < paths.len()
        invariant
            j <= paths@.len(),
            forall|t: int|
                0 <= t < j && path_matches(#[trigger] paths@[t]@, package_id@) ==> path_wf(
                    paths@[t]@,
                ),
            !found ==> forall|t: int|
                0 <= t < j ==> !path_matches(#[trigger] paths@[t]@, package_id@),
            found ==> {
                &&& 0 <= best_k < j
                &&& path_matches(paths@[best_k]@, package_id@)
                &&& path_wf(paths@[best_k]@)
                &&& best_d == patch_digit(paths@[best_k]@)
                &&& best_stem@ == spec_stem(paths@[best_k]@)
                &&& forall|t: int|
                    0 <= t < j && path_matches(#[trigger] paths@[t]@, package_id@) ==> patch_digit(
                        paths@[t]@,
                    ) <= best_d
                &&& (best_d > 0 ==> forall|t: int|
                    0 <= t < best_k && path_matches(#[trigger] paths@[t]@, package_id@)
                        ==> patch_digit(paths@[t]@) < best_d)
                &&& (best_d == 0 ==> forall|t: int|
                    best_k < t < j ==> !path_matches(#[trigger] paths@[t]@, package_id@))
            },
        decreases paths@.len() - j,
    {
        let p: &String = &paths[j];
        if str_contains(p.as_str(), package_id) {
            let sd = match check_path(p.as_str()) {
                Some(sd) => sd,
                None => {
                    return Err(PkgError::Format);
                },
            };
            let (si, d): (usize, u8) = sd;
            if !found || d > best_d || best_d == 0 {
                let n: usize = p.as_str().unicode_len();
                let stem_slice: &str = p.as_str().substring_char(si + 1, n - 6);
                best_stem = stem_slice.to_owned();
                proof {
                    lemma_stem_unique(p@, si as int);
                }
                best_d = d;
                found = true;
                proof {
                    best_k = j as int;
                }
            }
        }
        j = j + 1;
    }
    if !found {
        return Err(PkgError::Configuration);
    }
    let mut out: String = packages_path.to_owned();
    out.append("/");
    out.append(best_stem.as_str());
    out.append("_");
    out.append(nibble_str_lower(best_d as u32));
    out.append(".pkg");
    proof {
        assert(out@ =~= spec_primary_path(
            packages_path@,
            spec_stem(paths@[best_k]@),
            patch_digit(paths@[best_k]@),
        ));
        assert(chosen_ok(paths@, package_id@, best_k));
    }
    Ok((out, best_stem))
}

/// Resolves the primary package path for an identifier from the directory
/// listing: the well-formed match with the highest patch digit, rendered
/// as `{dir}/{stem}_{digit}.pkg`. No match is a configuration error; a
/// matching path that breaks the naming convention is a format error.
pub fn get_latest_patch_id_path(paths: &Vec<String>, packages_path: &str, package_id: &str) -> (r:
    Result<String, PkgError>)
    ensures
        r matches Ok(path) ==> exists|k: int|
            #[trigger] chosen_ok(paths@, package_id@, k) && path@ == spec_primary_path(
                packages_path@,
                spec_stem(paths@[k]@),
                patch_digit(paths@[k]@),
            ),
        r == Err::<String, PkgError>(PkgError::Configuration) <==> !(exists|t: int|
            0 <= t < paths@.len() && path_matches(#[trigger] paths@[t]@, package_id@)),
        r == Err::<String, PkgError>(PkgError::Format) <==> exists|t: int|
            0 <= t < paths@.len() && path_matches(#[trigger] paths@[t]@, package_id@) && !path_wf(
                paths@[t]@,
            ),
        r is Err ==> r == Err::<String, PkgError>(PkgError::Configuration) || r == Err::<
            String,
            PkgError,
        >(PkgError::Format),
{
    match locate_with_stem(paths, packages_path, package_id) {
        Ok((path, _stem)) => Ok(path),
        Err(e) => Err(e),
    }
}

impl Package {
    /// Builds the package aggregate for an identifier: resolves the
    /// primary path and base name from the directory listing, and fills
    /// in the format-level constants — the base nonce and the two AES-128
    /// keys. Header, entries and blocks start empty, to be populated by
    /// the parse pass. The locator's errors pass through.
    pub fn new(pkgspath: &str, pkgid: &str, listing: &Vec<String>) -> (r: Result<
        Package,
        PkgError,
    >)
        ensures
            r matches Ok(p) ==> {
                &&& p.packages_path@ == pkgspath@
                &&& p.package_id@ == pkgid@
                &&& p.header == (Header {
                    pkgid: 0,
                    patchid: 0,
                    entry_table_offset: 0,
                    entry_table_size: 0,
                    block_table_offset: 0,
                    block_table_size: 0,
                    hash64_table_offset: 0,
                    hash64_table_size: 0,
                })
                &&& p.entries@.len() == 0
                &&& p.blocks@.len() == 0
                &&& p.nonce@ == seq![
                    0x84u8, 0xEAu8, 0x11u8, 0xC0u8, 0xACu8, 0xABu8, 0xFAu8, 0x20u8, 0x33u8,
                    0x11u8, 0x26u8, 0x99u8,
                ]
                &&& p.aes_key@ == seq![
                    0xD6u8, 0x2Au8, 0xB2u8, 0xC1u8, 0x0Cu8, 0xC0u8, 0x1Bu8, 0xC5u8, 0x35u8,
                    0xDBu8, 0x7Bu8, 0x86u8, 0x55u8, 0xC7u8, 0xDCu8, 0x3Bu8,
                ]
                &&& p.aes_alt_key@ == seq![
                    0x3Au8, 0x4Au8, 0x5Du8, 0x36u8, 0x73u8, 0xA6u8, 0x60u8, 0x58u8, 0x7Eu8,
                    0x63u8, 0xE6u8, 0x76u8, 0xE4u8, 0x08u8, 0x92u8, 0xB5u8,
                ]
                &&& exists|k: int|
                    {
                        &&& #[trigger] chosen_ok(listing@, pkgid@, k)
                        &&& p.package_path@ == spec_primary_path(
                            pkgspath@,
                            spec_stem(listing@[k]@),
                            patch_digit(listing@[k]@),
                        )
                        &&& p.package_filename@ == spec_stem(listing@[k]@)
                    }
            },
            r matches Err(e) ==> (e == PkgError::Configuration || e == PkgError::Format),
            r is Err <==> !((exists|t: int|
                0 <= t < listing@.len() && path_matches(#[trigger] listing@[t]@, pkgid@)) && (
            forall|t: int|
                0 <= t < listing@.len() && path_matches(#[trigger] listing@[t]@, pkgid@)
                    ==> path_wf(listing@[t]@))),
    {
        let (package_path, package_filename) = match locate_with_stem(listing, pkgspath, pkgid) {
            Ok(ps) => ps,
            Err(e) => {
                return Err(e);
            },
        };
        let p = Package {
            header: Header::new(),
            nonce: [
                0x84u8, 0xEAu8, 0x11u8, 0xC0u8, 0xACu8, 0xABu8, 0xFAu8, 0x20u8, 0x33u8, 0x11u8,
                0x26u8, 0x99u8,
            ],
            blocks: Vec::new(),
            packages_path: pkgspath.to_owned(),
            package_filename,
            package_id: pkgid.to_owned(),
            package_path,
            entries: Vec::new(),
            aes_key: [
                0xD6u8, 0x2Au8, 0xB2u8, 0xC1u8, 0x0Cu8, 0xC0u8, 0x1Bu8, 0xC5u8, 0x35u8, 0xDBu8,
                0x7Bu8, 0x86u8, 0x55u8, 0xC7u8, 0xDCu8, 0x3Bu8,
            ],
            aes_alt_key: [
                0x3Au8, 0x4Au8, 0x5Du8, 0x36u8, 0x73u8, 0xA6u8, 0x60u8, 0x58u8, 0x7Eu8, 0x63u8,
                0xE6u8, 0x76u8, 0xE4u8, 0x08u8, 0x92u8, 0xB5u8,
            ],
        };
        proof {
            assert(p.nonce@ =~= seq![
                0x84u8, 0xEAu8, 0x11u8, 0xC0u8, 0xACu8, 0xABu8, 0xFAu8, 0x20u8, 0x33u8, 0x11u8,
                0x26u8, 0x99u8,
            ]);
            assert(p.aes_key@ =~= seq![
                0xD6u8, 0x2Au8, 0xB2u8, 0xC1u8, 0x0Cu8, 0xC0u8, 0x1Bu8, 0xC5u8, 0x35u8, 0xDBu8,
                0x7Bu8, 0x86u8, 0x55u8, 0xC7u8, 0xDCu8, 0x3Bu8,
            ]);
            assert(p.aes_alt_key@ =~= seq![
                0x3Au8, 0x4Au8, 0x5Du8, 0x36u8, 0x73u8, 0xA6u8, 0x60u8, 0x58u8, 0x7Eu8, 0x63u8,
                0xE6u8, 0x76u8, 0xE4u8, 0x08u8, 0x92u8, 0xB5u8,
            ]);
        }
        Ok(p)
    }
}

/// Derives the `patchid + 1` candidate patch-stream paths from the
/// resolved primary path by substituting each digit `0..=patchid` for the
/// patch-digit character, 5 characters before the end. The naming
/// convention carries a single digit, so the patch count may not exceed 9.
pub fn patch_stream_paths(package_path: &str, patchid: u16) -> (r: Vec<String>)
    requires
        package_path@.len() >= 5,
        patchid <= 9,
    ensures
        r@.len() == patchid + 1,
        forall|i: int|
            0 <= i <= patchid ==> (#[trigger] r@[i])@ == package_path@.subrange(
                0,
                package_path@.len() - 5,
            ) + seq![hex_char_lower(i)] + package_path@.subrange(
                package_path@.len() - 4,
                package_path@.len() as int,
            ),
{
    let n: usize = package_path.unicode_len();
    let mut v: Vec<String> = Vec::new();
    let mut i: u16 = 0;
    while i <= patchid
        invariant
            patchid <= 9,
            i <= patchid + 1,
            n == package_path@.len(),
            n >= 5,
            v@.len() == i,
            forall|t: int|
                0 <= t < i ==> (#[trigger] v@[t])@ == package_path@.subrange(
                    0,
                    package_path@.len() - 5,
                ) + seq![hex_char_lower(t)] + package_path@.subrange(
                    package_path@.len() - 4,
                    package_path@.len() as int,
                ),
        decreases patchid + 1 - i,
    {
        let prefix: &str = package_path.substring_char(0, n - 5);
        let suffix: &str = package_path.substring_char(n - 4, n);
        let mut s: String = prefix.to_owned();
        s.append(nibble_str_lower(i as u32));
        s.append(suffix);
        v.push(s);
        i = i + 1;
    }
    v
}

} // verus!
