//! Classification of entries into output files: the type/subtype pair
//! picks the extension, the subdirectory and the file name; the
//! skip-non-audio switch drops everything that is not an audio bank or
//! wem stream. Naming the "unknown" outputs is delegated to an external
//! hashing collaborator: for those the classifier hands out the key
//! string to hash and marks it as such.

use vstd::prelude::*;

verus! {

use vstd::string::*;
use crate::parse::{hex4_lower, is_lower_hex_char, spec_hex4_lower};
use crate::structs::Entry;

/// The uppercase counterpart of a lowercase hex digit; any other
/// character stays as it is.
pub open spec fn upper_hex_char(c: char) -> char {
    if c == 'a' { 'A' }
    else if c == 'b' { 'B' }
    else if c == 'c' { 'C' }
    else if c == 'd' { 'D' }
    else if c == 'e' { 'E' }
    else if c == 'f' { 'F' }
    else { c }
}

/// A hex string with every letter raised to uppercase.
pub open spec fn spec_upper_hex(s: Seq<char>) -> Seq<char> {
    Seq::new(s.len(), |k: int| upper_hex_char(s[k]))
}

/// One lowercase hex digit, uppercased, as a string slice.
fn char_upper_str(c: char) -> (r: &'static str)
    requires
        is_lower_hex_char(c),
    ensures
        r@ =~= seq![upper_hex_char(c)],
{
    proof {
        reveal_strlit("0");
        reveal_strlit("1");
        reveal_strlit("2");
        reveal_strlit("3");
        reveal_strlit("4");
        reveal_strlit("5");
        reveal_strlit("6");
        reveal_strlit("7");
        reveal_strlit("8");
        reveal_strlit("9");
        reveal_strlit("A");
        reveal_strlit("B");
        reveal_strlit("C");
        reveal_strlit("D");
        reveal_strlit("E");
        reveal_strlit("F");
    }
    match c {
        '0' => "0",
        '1' => "1",
        '2' => "2",
        '3' => "3",
        '4' => "4",
        '5' => "5",
        '6' => "6",
        '7' => "7",
        '8' => "8",
        '9' => "9",
        'a' => "A",
        'b' => "B",
        'c' => "C",
        'd' => "D",
        'e' => "E",
        _ => "F",
    }
}

/// Uppercases a string of lowercase hex digits.
pub fn to_upper_hex(s: &str) -> (r: String)
    requires
        forall|k: int| 0 <= k < s@.len() ==> is_lower_hex_char(#[trigger] s@[k]),
    ensures
        r@ == spec_upper_hex(s@),
{
    let n: usize = s.unicode_len();
    let mut out: String = String::new();
    let mut i: usize = 0;
    while i < n
        invariant
            i <= n,
            n == s@.len(),
            forall|k: int| 0 <= k < s@.len() ==> is_lower_hex_char(#[trigger] s@[k]),
            out@.len() == i,
            forall|k: int| 0 <= k < i ==> out@[k] == upper_hex_char(#[trigger] s@[k]),
        decreases n - i,
    {
        let c = s.get_char(i);
        out.append(char_upper_str(c));
        i = i + 1;
    }
    proof {
        assert(out@ =~= spec_upper_hex(s@));
    }
    out
}

/// Where one entry's bytes go: a subdirectory under the output base, a
/// file name and an extension. When `needs_hash` is set the file name is
/// not final: it is the key string an external hashing collaborator turns
/// into the actual name.
pub struct OutputTarget {
    pub subdirectory: String,
    pub file_name: String,
    pub extension: String,
    pub needs_hash: bool,
}

/// Whether the type/subtype pair marks an audio entry: a bank (26, 6) or
/// a wem stream (26, 7).
pub open spec fn is_audio(numtype: u8, numsubtype: u8) -> bool {
    numtype == 26 && (numsubtype == 6 || numsubtype == 7)
}

/// The key string hashed for unclassified outputs, also the bank file
/// name: `{package_id}-{entry_index:04x}`.
pub open spec fn spec_name_key(id: Seq<char>, idx: u16) -> Seq<char> {
    id + "-"@ + spec_hex4_lower(idx)
}

/// Maps an entry to its output target. A wem stream (26, 7) goes to
/// `wem/{REFERENCE}.wem` with the reference uppercased; a bank (26, 6)
/// goes to `bnk/{package_id}-{entry_index:04x}.bnk`; everything else goes
/// to `unknown/{REFERENCE}/` as a `.bin` named by the external hash of
/// the key string, and is dropped entirely when `skip_non_audio` is set.
pub fn classify_entry(
    entry: &Entry,
    package_id: &str,
    entry_index: u16,
    skip_non_audio: bool,
) -> (r: Option<OutputTarget>)
    requires
        forall|k: int|
            0 <= k < entry.reference@.len() ==> is_lower_hex_char(#[trigger] entry.reference@[k]),
    ensures
        r is None <==> (skip_non_audio && !is_audio(entry.numtype, entry.numsubtype)),
        r matches Some(t) ==> {
            &&& (entry.numtype == 26 && entry.numsubtype == 7) ==> {
                &&& t.extension@ == "wem"@
                &&& t.subdirectory@ == "wem"@
                &&& t.file_name@ == spec_upper_hex(entry.reference@)
                &&& !t.needs_hash
            }
            &&& (entry.numtype == 26 && entry.numsubtype == 6) ==> {
                &&& t.extension@ == "bnk"@
                &&& t.subdirectory@ == "bnk"@
                &&& t.file_name@ == spec_name_key(package_id@, entry_index)
                &&& !t.needs_hash
            }
            &&& !is_audio(entry.numtype, entry.numsubtype) ==> {
                &&& t.extension@ == "bin"@
                &&& t.subdirectory@ == "unknown/"@ + spec_upper_hex(entry.reference@) + "/"@
                &&& t.file_name@ == spec_name_key(package_id@, entry_index)
                &&& t.needs_hash
            }
        },
{
    if entry.numtype == 26 && entry.numsubtype == 7 {
        let file_name = to_upper_hex(entry.reference.as_str());
        Some(
            OutputTarget {
                subdirectory: "wem".to_owned(),
                file_name,
                extension: "wem".to_owned(),
                needs_hash: false,
            },
        )
    } else if entry.numtype == 26 && entry.numsubtype == 6 {
        let mut file_name: String = package_id.to_owned();
        file_name.append("-");
        let idx = hex4_lower(entry_index);
        file_name.append(idx.as_str());
        proof {
            assert(file_name@ =~= spec_name_key(package_id@, entry_index));
        }
        Some(
            OutputTarget {
                subdirectory: "bnk".to_owned(),
                file_name,
                extension: "bnk".to_owned(),
                needs_hash: false,
            },
        )
    } else if skip_non_audio {
        None
    } else {
        let upper = to_upper_hex(entry.reference.as_str());
        let mut subdirectory: String = "unknown/".to_owned();
        subdirectory.append(upper.as_str());
        subdirectory.append("/");
        let mut file_name: String = package_id.to_owned();
        file_name.append("-");
        let idx = hex4_lower(entry_index);
        file_name.append(idx.as_str());
        proof {
            assert(subdirectory@ =~= "unknown/"@ + spec_upper_hex(entry.reference@) + "/"@);
            assert(file_name@ =~= spec_name_key(package_id@, entry_index));
        }
        Some(
            OutputTarget {
                subdirectory,
                file_name,
                extension: "bin".to_owned(),
                needs_hash: true,
            },
        )
    }
}

} // verus!
