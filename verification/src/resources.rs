//! Reading the resource figures that container and process tools print:
//! which part of their output holds the number, and in which unit it is.

use vstd::prelude::*;
use crate::chars::{first_index_of, parse_u64_text, trim, trim_range, parse_u64};
use crate::text::to_chars;

verus! {

/// `s` ends with `suffix`.
pub open spec fn has_suffix(s: Seq<char>, suffix: Seq<char>) -> bool {
    suffix.len() <= s.len() && s.subrange(s.len() - suffix.len(), s.len() as int) == suffix
}

/// `s` with every trailing repetition of a non-empty `suffix` removed, as
/// `str::trim_end_matches` does.
pub open spec fn strip_suffixes(s: Seq<char>, suffix: Seq<char>) -> Seq<char>
    decreases s.len(),
{
    if suffix.len() > 0 && has_suffix(s, suffix) {
        strip_suffixes(s.subrange(0, s.len() - suffix.len()), suffix)
    } else {
        s
    }
}

/// The text before the first `sep` of `s`, or all of `s` without one.
pub open spec fn before_first(s: Seq<char>, sep: char) -> Seq<char> {
    let i = first_index_of(s, sep);
    if i < 0 {
        s
    } else {
        s.subrange(0, i)
    }
}

/// The figure of a CPU reading such as `12.5%`: the trimmed output without
/// its trailing percent signs.
pub open spec fn cpu_figure(output: Seq<char>) -> Seq<char> {
    strip_suffixes(trim(output), seq!['%'])
}

/// The used part of a memory reading such as `1.5GiB / 15.5GiB`: the
/// trimmed text before the first `/` of the trimmed output.
pub open spec fn memory_figure(output: Seq<char>) -> Seq<char> {
    trim(before_first(trim(output), '/'))
}

/// The number and the bytes per unit of a memory reading: a figure ending
/// in `GiB`, `MiB` or `KiB` is scaled by 2^30, 2^20 or 2^10 and loses the
/// unit (every trailing repetition of it); any other figure is in bytes.
pub open spec fn memory_reading(output: Seq<char>) -> (Seq<char>, u64) {
    let f = memory_figure(output);
    if has_suffix(f, "GiB"@) {
        (strip_suffixes(f, "GiB"@), 1073741824)
    } else if has_suffix(f, "MiB"@) {
        (strip_suffixes(f, "MiB"@), 1048576)
    } else if has_suffix(f, "KiB"@) {
        (strip_suffixes(f, "KiB"@), 1024)
    } else {
        (f, 1)
    }
}

/// The bytes of a resident-set reading in KiB, such as `2048`: the trimmed
/// output read as a number (0 when it is none) times 1024, wrapping at
/// 2^64.
pub open spec fn rss_bytes(output: Seq<char>) -> u64 {
    match parse_u64_text(trim(output)) {
        Some(k) => ((k * 1024) % 0x1_0000_0000_0000_0000) as u64,
        None => 0,
    }
}

/// A memory figure and the number of bytes in its unit.
#[derive(Debug, Clone)]
pub struct MemoryReading {
    /// The number, still as text.
    pub number: String,
    /// Bytes per unit of the number.
    pub scale: u64,
}

/// Does `v[lo..end]` end with `suffix`?
fn ends_with_at(v: &Vec<char>, lo: usize, end: usize, suffix: &Vec<char>) -> (b: bool)
    requires
        lo <= end <= v.len(),
    ensures
        b == has_suffix(v@.subrange(lo as int, end as int), suffix@),
{
    let ghost w = v@.subrange(lo as int, end as int);
    if suffix.len() > end - lo {
        return false;
    }
    let start = end - suffix.len();
    let mut k: usize = 0;
    while k < suffix.len()
        invariant
            lo <= start <= end <= v.len(),
            start + suffix.len() == end,
            w == v@.subrange(lo as int, end as int),
            k <= suffix.len(),
            forall|j: int| 0 <= j < k ==> v@[start + j] == suffix@[j],
        decreases suffix.len() - k,
    {
        if v[start + k] != suffix[k] {
            assert(w.subrange(w.len() - suffix@.len(), w.len() as int)[k as int] == v@[start + k]);
            return false;
        }
        k += 1;
    }
    assert(w.subrange(w.len() - suffix@.len(), w.len() as int) =~= suffix@);
    true
}

/// The end of `v[lo..end]` once every trailing repetition of `suffix` is
/// removed.
fn strip_end(v: &Vec<char>, lo: usize, end: usize, suffix: &Vec<char>) -> (e: usize)
    requires
        lo <= end <= v.len(),
        suffix.len() > 0,
    ensures
        lo <= e <= end,
        v@.subrange(lo as int, e as int) == strip_suffixes(v@.subrange(lo as int, end as int), suffix@),
{
    let mut e = end;
    while ends_with_at(v, lo, e, suffix)
        invariant
            lo <= e <= end <= v.len(),
            suffix.len() > 0,
            strip_suffixes(v@.subrange(lo as int, e as int), suffix@) == strip_suffixes(
                v@.subrange(lo as int, end as int),
                suffix@,
            ),
        decreases e,
    {
        let ghost w = v@.subrange(lo as int, e as int);
        assert(w.subrange(0, w.len() - suffix@.len()) =~= v@.subrange(lo as int, e - suffix.len()));
        e = e - suffix.len();
    }
    e
}

/// The CPU figure of a container's statistics output, as `cpu_figure`
/// describes.
pub fn read_cpu_percent(output: &str) -> (t: String)
    ensures
        t@ == cpu_figure(output@),
{
    let v = to_chars(output);
    let (a, b) = trim_range(&v, 0, v.len());
    assert(v@.subrange(0, v.len() as int) =~= output@);
    let pct = vec!['%'];
    assert(pct@ =~= seq!['%']);
    let e = strip_end(&v, a, b, &pct);
    output.substring_char(a, e).to_owned()
}

/// The memory figure of a container's statistics output and its unit, as
/// `memory_reading` describes.
pub fn read_memory_usage(output: &str) -> (m: MemoryReading)
    ensures
        (m.number@, m.scale) == memory_reading(output@),
{
    proof {
        reveal_strlit("GiB");
        reveal_strlit("MiB");
        reveal_strlit("KiB");
    }
    let v = to_chars(output);
    let (a, b) = trim_range(&v, 0, v.len());
    assert(v@.subrange(0, v.len() as int) =~= output@);
    let ghost t = v@.subrange(a as int, b as int);
    let mut k: usize = a;
    while k < b && v[k] != '/'
        invariant
            a <= k <= b <= v.len(),
            t == v@.subrange(a as int, b as int),
            forall|j: int| 0 <= j < k - a ==> t[j] != '/',
        decreases b - k,
    {
        assert(t[k - a] == v@[k as int]);
        k += 1;
    }
    proof {
        if k < b {
            assert(t[k - a] == v@[k as int]);
        }
        lemma_first_index_at(t, '/', k - a);
        assert(before_first(t, '/') =~= v@.subrange(a as int, k as int));
    }
    let (c, d) = trim_range(&v, a, k);
    let gib = to_chars("GiB");
    let mib = to_chars("MiB");
    let kib = to_chars("KiB");
    let (e, scale) = if ends_with_at(&v, c, d, &gib) {
        (strip_end(&v, c, d, &gib), 1073741824u64)
    } else if ends_with_at(&v, c, d, &mib) {
        (strip_end(&v, c, d, &mib), 1048576u64)
    } else if ends_with_at(&v, c, d, &kib) {
        (strip_end(&v, c, d, &kib), 1024u64)
    } else {
        (d, 1u64)
    };
    MemoryReading { number: output.substring_char(c, e).to_owned(), scale }
}

/// The bytes of a process's resident-set output, as `rss_bytes` describes.
pub fn read_rss_bytes(output: &str) -> (n: u64)
    ensures
        n == rss_bytes(output@),
{
    let v = to_chars(output);
    let (a, b) = trim_range(&v, 0, v.len());
    assert(v@.subrange(0, v.len() as int) =~= output@);
    let t = output.substring_char(a, b);
    match parse_u64(t) {
        Some(k) => k.wrapping_mul(1024),
        None => 0,
    }
}

/// The first `sep` of `s` is at `i`, when `s[..i]` holds none and `s[i]`
/// is one (or `i` is the length, when none occurs).
proof fn lemma_first_index_at(s: Seq<char>, sep: char, i: int)
    requires
        0 <= i <= s.len(),
        forall|j: int| 0 <= j < i ==> s[j] != sep,
        i == s.len() || s[i] == sep,
    ensures
        first_index_of(s, sep) == if i == s.len() { -1 } else { i },
    decreases i,
{
    if i > 0 {
        assert forall|j: int| 0 <= j < i - 1 implies s.drop_first()[j] != sep by {
            assert(s.drop_first()[j] == s[j + 1]);
        }
        if i < s.len() {
            assert(s.drop_first()[i - 1] == s[i]);
        }
        lemma_first_index_at(s.drop_first(), sep, i - 1);
    }
}

} // verus!
