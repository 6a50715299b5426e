//! Recognising Mach-O binaries and the app bundles that hold them.

use vstd::prelude::*;
use crate::text::{chars_of, contains_bytes, contains_seq, texts};

verus! {

/// What a scan learns of a binary.
pub struct MachOInfo {
    pub path: String,
    pub is_macho: bool,
    pub has_signature_slot: bool,
    pub size: usize,
}

/// The Mach-O scanner.
pub struct MachOScannerA4;

/// Whether `data` starts with one of the four Mach-O magic numbers (32 or 64
/// bit, either byte order).
pub open spec fn has_macho_magic(data: Seq<u8>) -> bool {
    data.len() >= 4 && {
        let (a, b, c, d) = (data[0], data[1], data[2], data[3]);
        ||| (a == 0xfe && b == 0xed && c == 0xfa && d == 0xce)
        ||| (a == 0xce && b == 0xfa && c == 0xed && d == 0xfe)
        ||| (a == 0xfe && b == 0xed && c == 0xfa && d == 0xcf)
        ||| (a == 0xcf && b == 0xfa && c == 0xed && d == 0xfe)
    }
}

/// The ASCII bytes of `LC_CODE_SIGNATURE`.
pub open spec fn code_signature_marker() -> Seq<u8> {
    seq![76u8, 67, 95, 67, 79, 68, 69, 95, 83, 73, 71, 78, 65, 84, 85, 82, 69]
}

/// The position of the last `c` in `s`, or -1.
pub open spec fn last_index_of(s: Seq<char>, c: char) -> int
    decreases s.len(),
{
    if s.len() == 0 {
        -1
    } else if s.last() == c {
        s.len() - 1
    } else {
        last_index_of(s.drop_last(), c)
    }
}

proof fn lemma_last_index_of(s: Seq<char>, c: char)
    ensures
        -1 <= last_index_of(s, c) < s.len(),
        last_index_of(s, c) >= 0 ==> s[last_index_of(s, c)] == c,
        forall|k: int| last_index_of(s, c) < k < s.len() ==> s[k] != c,
    decreases s.len(),
{
    if s.len() > 0 && s.last() != c {
        lemma_last_index_of(s.drop_last(), c);
        assert forall|k: int| last_index_of(s, c) < k < s.len() implies s[k] != c by {
            if k < s.len() - 1 {
                assert(s.drop_last()[k] == s[k]);
            }
        }
    }
}

/// The extension of a file name, as `Path::extension` gives it: what follows
/// the last dot, unless the name has no dot, its only dot is its first
/// character, or it is `..`.
pub open spec fn extension_of(name: Seq<char>) -> Option<Seq<char>> {
    let d = last_index_of(name, '.');
    if (name.len() == 2 && name[0] == '.' && name[1] == '.') || d <= 0 {
        None
    } else {
        Some(name.subrange(d + 1, name.len() as int))
    }
}

/// What an extension is: the text after the last dot, where that dot is not
/// the first character and the name is not `..`; a name has none when no dot
/// stands after its first character (or it is `..`).
pub proof fn lemma_extension_shape(name: Seq<char>)
    ensures
        match extension_of(name) {
            Some(e) => {
                &&& e.len() + 2 <= name.len()
                &&& name[name.len() - e.len() - 1] == '.'
                &&& name.subrange(name.len() - e.len(), name.len() as int) == e
                &&& forall|k: int| 0 <= k < e.len() ==> #[trigger] e[k] != '.'
                &&& !(name.len() == 2 && name[0] == '.' && name[1] == '.')
            },
            None => (name.len() == 2 && name[0] == '.' && name[1] == '.') || forall|k: int|
                0 < k < name.len() ==> #[trigger] name[k] != '.',
        },
{
    lemma_last_index_of(name, '.');
    let d = last_index_of(name, '.');
    match extension_of(name) {
        Some(e) => {
            assert(e == name.subrange(d + 1, name.len() as int));
            assert forall|k: int| 0 <= k < e.len() implies #[trigger] e[k] != '.' by {
                assert(e[k] == name[d + 1 + k]);
            }
        },
        None => {
            if !(name.len() == 2 && name[0] == '.' && name[1] == '.') {
                assert forall|k: int| 0 < k < name.len() implies #[trigger] name[k] != '.' by {
                    if name[k] == '.' {
                        assert(d >= k);
                    }
                }
            }
        },
    }
}

/// The extension of the file name `name`, if it has one.
pub fn file_extension(name: &str) -> (out: Option<String>)
    ensures
        match out {
            Some(e) => extension_of(name@) == Some(e@),
            None => extension_of(name@) is None,
        },
{
    let cs = chars_of(name);
    let n = cs.len();
    if n == 2 && cs[0] == '.' && cs[1] == '.' {
        return None;
    }
    let mut i = n;
    while i > 0 && cs[i - 1] != '.'
        invariant
            cs@ == name@,
            n == cs@.len(),
            i <= n,
            forall|k: int| i <= k < n ==> cs@[k] != '.',
        decreases i,
    {
        i = i - 1;
    }
    proof {
        lemma_last_index_of(cs@, '.');
        let d = last_index_of(cs@, '.');
        if i == 0 {
            if d >= 0 {
                assert(cs@[d] == '.');
            }
        } else {
            assert(cs@[i - 1] == '.');
            if d > i - 1 {
                assert(cs@[d] == '.');
            }
            assert(d == i - 1);
        }
    }
    if i <= 1 {
        return None;
    }
    let ext = name.substring_char(i, n);
    Some(String::from_str(ext))
}

impl MachOScannerA4 {
    /// Whether `data` starts with a Mach-O magic number.
    pub fn check_magic(data: &[u8]) -> (out: bool)
        ensures
            out == has_macho_magic(data@),
    {
        if data.len() < 4 {
            return false;
        }
        let (a, b, c, d) = (data[0], data[1], data[2], data[3]);
        (a == 0xfe && b == 0xed && c == 0xfa && d == 0xce) || (a == 0xce && b == 0xfa && c == 0xed
            && d == 0xfe) || (a == 0xfe && b == 0xed && c == 0xfa && d == 0xcf) || (a == 0xcf && b
            == 0xfa && c == 0xed && d == 0xfe)
    }

    /// Whether the bytes `LC_CODE_SIGNATURE` occur anywhere in `data`.
    pub fn detect_signature_section(data: &[u8]) -> (out: bool)
        ensures
            out == contains_seq(data@, code_signature_marker()),
    {
        let marker: Vec<u8> = vec![
            76u8,
            67,
            95,
            67,
            79,
            68,
            69,
            95,
            83,
            73,
            71,
            78,
            65,
            84,
            85,
            82,
            69,
        ];
        assert(marker@ =~= code_signature_marker());
        contains_bytes(data, marker.as_slice())
    }

    /// What a scan reports of the binary at `path` whose contents are `data`
    /// (the caller finds and reads it).
    pub fn describe_binary(path: String, data: &[u8]) -> (out: MachOInfo)
        ensures
            out.path == path,
            out.is_macho == has_macho_magic(data@),
            out.has_signature_slot == contains_seq(data@, code_signature_marker()),
            out.size == data@.len(),
    {
        let is_macho = Self::check_magic(data);
        let has_signature_slot = Self::detect_signature_section(data);
        MachOInfo { path, is_macho, has_signature_slot, size: data.len() }
    }

    /// Whether a directory entry named `name` is an app bundle (extension `app`).
    pub fn is_app_bundle(name: &str) -> (out: bool)
        ensures
            out == (extension_of(name@) == Some("app"@)),
    {
        match file_extension(name) {
            Some(e) => crate::text::same_text(e.as_str(), "app"),
            None => false,
        }
    }

    /// Whether a file named `name` inside an app bundle is taken as its main
    /// binary: it has an extension, and it is a `dylib` or has a non-empty name.
    pub fn is_binary_candidate(name: &str) -> (out: bool)
        ensures
            out == (extension_of(name@) is Some),
    {
        match file_extension(name) {
            Some(e) => crate::text::same_text(e.as_str(), "dylib") || name.unicode_len() > 0,
            None => false,
        }
    }
}

/// The positions, below `k`, of the app bundles among the entry names, in
/// order.
pub open spec fn bundle_positions(names: Seq<Seq<char>>, k: nat) -> Seq<usize>
    decreases k,
{
    if k == 0 {
        seq![]
    } else if extension_of(names[k - 1]) == Some("app"@) {
        bundle_positions(names, (k - 1) as nat).push((k - 1) as usize)
    } else {
        bundle_positions(names, (k - 1) as nat)
    }
}

/// The walk visits exactly the entries whose extension is `app`, each once,
/// in listed order.
pub proof fn lemma_bundle_positions(names: Seq<Seq<char>>, k: nat)
    requires
        k <= names.len(),
        names.len() <= usize::MAX,
    ensures
        forall|i: int|
            0 <= i < names.len() ==> (bundle_positions(names, k).contains(i as usize) <==> (i < k
                && extension_of(names[i]) == Some("app"@))),
        forall|a: int, b: int|
            0 <= a < b < bundle_positions(names, k).len() ==> bundle_positions(names, k)[a]
                < bundle_positions(names, k)[b],
        forall|a: int| 0 <= a < bundle_positions(names, k).len() ==> bundle_positions(names, k)[a] < k,
    decreases k,
{
    if k > 0 {
        let k1 = (k - 1) as nat;
        lemma_bundle_positions(names, k1);
        let prev = bundle_positions(names, k1);
        let cur = bundle_positions(names, k);
        if extension_of(names[k - 1]) == Some("app"@) {
            assert(cur == prev.push(k1 as usize));
            assert forall|x: int, y: int| 0 <= x < y < cur.len() implies cur[x] < cur[y] by {
                assert(cur[x] == prev[x]);
                if y < prev.len() {
                    assert(cur[y] == prev[y]);
                }
            }
            assert forall|x: int| 0 <= x < cur.len() implies cur[x] < k by {
                if x < prev.len() {
                    assert(cur[x] == prev[x]);
                }
            }
            assert forall|i: int| 0 <= i < names.len() implies (cur.contains(i as usize) <==> (i
                < k && extension_of(names[i]) == Some("app"@))) by {
                if i < k && extension_of(names[i]) == Some("app"@) {
                    if i == k1 {
                        assert(cur[prev.len() as int] == i as usize);
                    } else {
                        let j = choose|j: int| 0 <= j < prev.len() && prev[j] == i as usize;
                        assert(cur[j] == prev[j]);
                    }
                }
                if cur.contains(i as usize) {
                    let j = choose|j: int| 0 <= j < cur.len() && cur[j] == i as usize;
                    if j < prev.len() {
                        assert(cur[j] == prev[j]);
                        assert(prev.contains(i as usize));
                    }
                }
            }
        } else {
            assert(cur == prev);
        }
    }
}

impl MachOScannerA4 {
    /// The positions of the app bundles in a directory listing, in order: where
    /// the walk looks for the main binary.
    pub fn app_bundles(names: &Vec<String>) -> (out: Vec<usize>)
        ensures
            out@ == bundle_positions(texts(names@), names@.len()),
    {
        let mut out: Vec<usize> = Vec::new();
        let n = names.len();
        let mut i: usize = 0;
        while i < n
            invariant
                n == names@.len(),
                i <= n,
                out@ == bundle_positions(texts(names@), i as nat),
            decreases n - i,
        {
            assert(texts(names@)[i as int] == names@[i as int]@);
            if Self::is_app_bundle(names[i].as_str()) {
                out.push(i);
            }
            i = i + 1;
        }
        out
    }

    /// The position of the main binary in an app bundle's listing: the first
    /// entry with an extension, if any.
    pub fn pick_binary(names: &Vec<String>) -> (out: Option<usize>)
        ensures
            match out {
                Some(i) => i < names@.len() && extension_of(names@[i as int]@) is Some
                    && forall|j: int| 0 <= j < i ==> extension_of(#[trigger] names@[j]@) is None,
                None => forall|j: int|
                    0 <= j < names@.len() ==> extension_of(#[trigger] names@[j]@) is None,
            },
    {
        let n = names.len();
        let mut i: usize = 0;
        while i < n
            invariant
                n == names@.len(),
                i <= n,
                forall|j: int| 0 <= j < i ==> extension_of(#[trigger] names@[j]@) is None,
            decreases n - i,
        {
            if Self::is_binary_candidate(names[i].as_str()) {
                return Some(i);
            }
            i = i + 1;
        }
        None
    }
}

/// Whether a buffer is Mach-O depends on its first four bytes alone.
pub proof fn lemma_magic_reads_four_bytes(a: Seq<u8>, b: Seq<u8>)
    requires
        a.len() >= 4,
        b.len() >= 4,
        a.take(4) == b.take(4),
    ensures
        has_macho_magic(a) == has_macho_magic(b),
{
    assert(a[0] == a.take(4)[0] && a[1] == a.take(4)[1] && a[2] == a.take(4)[2] && a[3] == a.take(
        4,
    )[3]);
    assert(b[0] == b.take(4)[0] && b[1] == b.take(4)[1] && b[2] == b.take(4)[2] && b[3] == b.take(
        4,
    )[3]);
}

} // verus!
