//! Scanning mod files: the hashes by which Modrinth and CurseForge find a
//! file, and which of the files they found.
use crate::subcommands::upgrade::{extension_of, has_extension};
use crate::text::{eq_ignore_ascii_case_spec, views};
use sha1::Digest;
use vstd::prelude::*;

verus! {

/// The SHA-1 digest of some bytes, as the `sha1` crate computes it.
pub uninterp spec fn sha1_digest(bytes: Seq<u8>) -> Seq<u8>;

/// The CurseForge fingerprint of some bytes, as `furse::cf_fingerprint`
/// computes it (a variant of MurmurHash2 over the bytes that are not
/// whitespace).
pub uninterp spec fn cf_fingerprint_of(bytes: Seq<u8>) -> usize;

/// Whether a byte is one that the CurseForge fingerprint leaves out: tab,
/// line feed, carriage return or space.
pub open spec fn is_fingerprint_blank(b: u8) -> bool {
    b == 9 || b == 10 || b == 13 || b == 32
}

/// The bytes that the CurseForge fingerprint hashes: all but the blanks.
pub open spec fn fingerprint_bytes(bytes: Seq<u8>) -> Seq<u8> {
    bytes.filter(|b: u8| !is_fingerprint_blank(b))
}

/// `sha1::Sha1::digest`: the SHA-1 digest of the bytes, 20 bytes long.
#[verifier::external_body]
pub(crate) fn sha1_of(bytes: &Vec<u8>) -> (r: Vec<u8>)
    ensures
        r@ == sha1_digest(bytes@),
        r@.len() == 20,
{
    sha1::Sha1::digest(bytes.as_slice()).to_vec()
}

/// `furse::cf_fingerprint`: the CurseForge fingerprint of the bytes. Its
/// source drops the blank bytes (tab, line feed, carriage return, space)
/// and hashes the rest with the 32-bit MurmurHash2, seed 1: so the result
/// depends on the other bytes alone, and fits in 32 bits. The hash itself is
/// named, not described.
#[verifier::external_body]
fn cf_fingerprint(bytes: &Vec<u8>) -> (r: usize)
    ensures
        r == cf_fingerprint_of(bytes@),
        r == cf_fingerprint_of(fingerprint_bytes(bytes@)),
        r <= u32::MAX,
{
    furse::cf_fingerprint(bytes.as_slice())
}

/// The lowercase hexadecimal digit of a value below 16.
pub open spec fn hex_digit(v: int) -> char {
    if v < 10 {
        (('0' as int) + v) as char
    } else {
        (('a' as int) + v - 10) as char
    }
}

/// The lowercase hexadecimal form of some bytes, two digits each.
pub open spec fn hex_spec(bytes: Seq<u8>) -> Seq<char>
    decreases bytes.len(),
{
    if bytes.len() == 0 {
        Seq::empty()
    } else {
        let b = bytes.last();
        hex_spec(bytes.drop_last()) + seq![hex_digit(b as int / 16), hex_digit(b as int % 16)]
    }
}

fn hex_char(v: u8) -> (c: char)
    requires
        v < 16,
    ensures
        c == hex_digit(v as int),
{
    if v < 10 {
        (('0' as u8) + v) as char
    } else {
        (('a' as u8) + v - 10) as char
    }
}

/// The lowercase hexadecimal form of some bytes, as `{:x}` prints a digest.
pub fn hex_lower(bytes: &Vec<u8>) -> (r: String)
    ensures
        r@ == hex_spec(bytes@),
{
    let mut out: Vec<char> = Vec::new();
    let mut i: usize = 0;
    while i < bytes.len()
        invariant
            i <= bytes.len(),
            out@ == hex_spec(bytes@.take(i as int)),
        decreases bytes.len() - i,
    {
        let b = bytes[i];
        let hi = hex_char(b / 16);
        let lo = hex_char(b % 16);
        out.push(hi);
        out.push(lo);
        assert(bytes@.take(i + 1).drop_last() =~= bytes@.take(i as int));
        assert(out@ =~= hex_spec(bytes@.take(i + 1)));
        i = i + 1;
    }
    assert(bytes@.take(bytes.len() as int) =~= bytes@);
    crate::text::string_from_chars(&out)
}

/// The hashes of the files scanned, each file once: where two files have the
/// same fingerprint, the second is not hashed again, and its name stands for
/// that fingerprint.
#[derive(Debug)]
pub struct Hashes {
    /// The SHA-1 digests, in hexadecimal, for Modrinth
    pub mr_hashes: Vec<String>,
    /// The fingerprints, for CurseForge
    pub cf_hashes: Vec<usize>,
    /// The file name for each fingerprint
    pub filenames: Vec<(usize, String)>,
}

/// What hashing the files `files` (names and contents) gives: the hashes of
/// each file whose fingerprint was not seen before, and the name of the last
/// file of each fingerprint.
pub open spec fn hashes_of(files: Seq<(String, Vec<u8>)>) -> (Seq<Seq<char>>, Seq<usize>, Map<usize, Seq<char>>)
    decreases files.len(),
{
    if files.len() == 0 {
        (Seq::empty(), Seq::empty(), Map::empty())
    } else {
        let (mr, cf, names) = hashes_of(files.drop_last());
        let f = files.last();
        let fp = cf_fingerprint_of(f.1@);
        if names.contains_key(fp) {
            (mr, cf, names.insert(fp, f.0@))
        } else {
            (mr.push(hex_spec(sha1_digest(f.1@))), cf.push(fp), names.insert(fp, f.0@))
        }
    }
}

/// The map that a list of pairs with distinct keys stands for.
pub open spec fn pairs_map(v: Seq<(usize, String)>) -> Map<usize, Seq<char>> {
    Map::new(
        |k: usize| exists|i: int| 0 <= i < v.len() && v[i].0 == k,
        |k: usize| v[choose|i: int| 0 <= i < v.len() && v[i].0 == k].1@,
    )
}

/// Whether the keys of a list of pairs are distinct.
pub open spec fn keys_distinct(v: Seq<(usize, String)>) -> bool {
    forall|i: int, j: int| 0 <= i < j < v.len() ==> v[i].0 != v[j].0
}

/// Whether the hashes are those `hashes_of` gives for some files: names are
/// known for exactly the fingerprints hashed, each hashed once.
pub open spec fn hashes_wf(h: Hashes) -> bool {
    &&& h.mr_hashes@.len() == h.cf_hashes@.len()
    &&& keys_distinct(h.filenames@)
    &&& forall|i: int, j: int| 0 <= i < j < h.cf_hashes@.len() ==> h.cf_hashes@[i] != h.cf_hashes@[j]
    &&& forall|k: usize| pairs_map(h.filenames@).contains_key(k) <==> h.cf_hashes@.contains(k)
}

/// The index of the pair with key `k`.
fn key_index(v: &Vec<(usize, String)>, k: usize) -> (r: Option<usize>)
    ensures
        r matches Some(i) ==> i < v.len() && v@[i as int].0 == k,
        r is None ==> forall|i: int| 0 <= i < v.len() ==> v@[i].0 != k,
{
    let mut i: usize = 0;
    while i < v.len()
        invariant
            i <= v.len(),
            forall|j: int| 0 <= j < i ==> v@[j].0 != k,
        decreases v.len() - i,
    {
        if v[i].0 == k {
            return Some(i);
        }
        i = i + 1;
    }
    None
}

/// The files that `scan` looks at: those whose extension is `jar`, ignoring
/// ASCII case, in order.
pub open spec fn jar_entries(files: Seq<(String, Vec<u8>)>) -> Seq<(String, Vec<u8>)>
    decreases files.len(),
{
    if files.len() == 0 {
        Seq::empty()
    } else {
        let r = jar_entries(files.drop_last());
        if extension_of(files.last().0@) matches Some(e) && eq_ignore_ascii_case_spec(e, "jar"@) {
            r.push(files.last())
        } else {
            r
        }
    }
}

/// Keeps the files that `scan` looks at, the `.jar` files.
pub fn jar_files(files: Vec<(String, Vec<u8>)>) -> (r: Vec<(String, Vec<u8>)>)
    ensures
        r@ == jar_entries(files@),
{
    let ghost all = files@;
    let mut rest = files;
    let mut r: Vec<(String, Vec<u8>)> = Vec::new();
    let mut i: usize = 0;
    assert(all.len() <= usize::MAX) by {
        let n = rest.len();
    }
    while rest.len() > 0
        invariant
            i + rest@.len() == all.len(),
            all.len() <= usize::MAX,
            rest@ == all.skip(i as int),
            r@ == jar_entries(all.take(i as int)),
        decreases rest.len(),
    {
        let ghost rest_before = rest@;
        let f = rest.remove(0);
        assert(f == all[i as int]) by {
            assert(rest_before[0] == all.skip(i as int)[0]);
        }
        assert(rest@ =~= all.skip(i + 1));
        assert(all.take(i + 1).drop_last() =~= all.take(i as int));
        if has_extension(f.0.as_str(), "jar") {
            r.push(f);
        }
        i = i + 1;
    }
    assert(all.take(i as int) =~= all);
    r
}

/// Hashes the files (names and contents) as `scan` does.
pub fn hash_files(files: Vec<(String, Vec<u8>)>) -> (h: Hashes)
    ensures
        hashes_wf(h),
        views(h.mr_hashes@) == hashes_of(files@).0,
        h.cf_hashes@ == hashes_of(files@).1,
        pairs_map(h.filenames@) == hashes_of(files@).2,
{
    let ghost all = files@;
    assert(all.len() == files.len());
    let mut rest = files;
    let mut h = Hashes { mr_hashes: Vec::new(), cf_hashes: Vec::new(), filenames: Vec::new() };
    let mut i: usize = 0;
    assert(all.take(0) =~= Seq::<(String, Vec<u8>)>::empty());
    assert(views(h.mr_hashes@) =~= Seq::<Seq<char>>::empty());
    assert(pairs_map(h.filenames@) =~= Map::<usize, Seq<char>>::empty());
    while rest.len() > 0
        invariant
            i + rest.len() == all.len(),
            all.len() <= usize::MAX,
            rest@ == all.skip(i as int),
            hashes_wf(h),
            views(h.mr_hashes@) == hashes_of(all.take(i as int)).0,
            h.cf_hashes@ == hashes_of(all.take(i as int)).1,
            pairs_map(h.filenames@) == hashes_of(all.take(i as int)).2,
        decreases rest.len(),
    {
        let ghost rest_before = rest@;
        let f = rest.remove(0);
        assert(f == all[i as int]) by {
            assert(rest_before[0] == all.skip(i as int)[0]);
        }
        assert(rest@ =~= all.skip(i + 1));
        assert(all.take(i + 1).drop_last() =~= all.take(i as int));
        let (name, bytes) = f;
        let fp = cf_fingerprint(&bytes);
        let ghost before = h.filenames@;
        match key_index(&h.filenames, fp) {
            Some(k) => {
                h.filenames.set(k, (fp, name));
                assert(pairs_map(h.filenames@) =~= pairs_map(before).insert(fp, all[i as int].0@)) by {
                    assert forall|q: usize| #[trigger] pairs_map(h.filenames@).contains_key(q) implies pairs_map(h.filenames@)[q]
                        == pairs_map(before).insert(fp, all[i as int].0@)[q] by {
                        let a = choose|j: int| 0 <= j < h.filenames@.len() && h.filenames@[j].0 == q;
                        if q != fp {
                            let b = choose|j: int| 0 <= j < before.len() && before[j].0 == q;
                            assert(a == b);
                        }
                    }
                    assert forall|q: usize| pairs_map(h.filenames@).contains_key(q) <==> pairs_map(before).insert(fp, all[i as int].0@).contains_key(q) by {
                        if pairs_map(before).contains_key(q) {
                            let b = choose|j: int| 0 <= j < before.len() && before[j].0 == q;
                            assert(h.filenames@[b].0 == q);
                        }
                        if pairs_map(h.filenames@).contains_key(q) {
                            let a = choose|j: int| 0 <= j < h.filenames@.len() && h.filenames@[j].0 == q;
                            assert(before[a].0 == q);
                        }
                    }
                }
                assert(keys_distinct(h.filenames@)) by {
                    assert forall|a: int, b: int| 0 <= a < b < h.filenames@.len() implies h.filenames@[a].0 != h.filenames@[b].0 by {
                        assert(before[a].0 != before[b].0);
                    }
                }
            },
            None => {
                let digest = sha1_of(&bytes);
                let mr = hex_lower(&digest);
                let ghost before_mr = views(h.mr_hashes@);
                let ghost before_cf = h.cf_hashes@;
                h.mr_hashes.push(mr);
                h.cf_hashes.push(fp);
                h.filenames.push((fp, name));
                assert(views(h.mr_hashes@) =~= before_mr.push(hex_spec(sha1_digest(all[i as int].1@))));
                assert(!pairs_map(before).contains_key(fp));
                assert(pairs_map(h.filenames@) =~= pairs_map(before).insert(fp, all[i as int].0@)) by {
                    assert forall|q: usize| #[trigger] pairs_map(h.filenames@).contains_key(q) implies pairs_map(h.filenames@)[q]
                        == pairs_map(before).insert(fp, all[i as int].0@)[q] by {
                        let a = choose|j: int| 0 <= j < h.filenames@.len() && h.filenames@[j].0 == q;
                        if q != fp {
                            let b = choose|j: int| 0 <= j < before.len() && before[j].0 == q;
                            assert(h.filenames@[b].0 == q);
                            assert(a == b);
                        } else {
                            assert(a == before.len());
                        }
                    }
                    assert forall|q: usize| pairs_map(h.filenames@).contains_key(q) <==> pairs_map(before).insert(fp, all[i as int].0@).contains_key(q) by {
                        if pairs_map(before).contains_key(q) {
                            let b = choose|j: int| 0 <= j < before.len() && before[j].0 == q;
                            assert(h.filenames@[b].0 == q);
                        }
                        if q == fp {
                            assert(h.filenames@[before.len() as int].0 == q);
                        }
                    }
                }
                assert(keys_distinct(h.filenames@));
                assert forall|a: int, b: int| 0 <= a < b < h.cf_hashes@.len() implies h.cf_hashes@[a] != h.cf_hashes@[b] by {
                    if b == before_cf.len() {
                        assert(before_cf.contains(before_cf[a]));
                    }
                }
                assert forall|k: usize| pairs_map(h.filenames@).contains_key(k) <==> h.cf_hashes@.contains(k) by {
                    if before_cf.contains(k) {
                        let j = choose|j: int| 0 <= j < before_cf.len() && before_cf[j] == k;
                        assert(h.cf_hashes@[j] == k);
                    }
                    if h.cf_hashes@.contains(k) && k != fp {
                        let j = choose|j: int| 0 <= j < h.cf_hashes@.len() && h.cf_hashes@[j] == k;
                        assert(before_cf[j] == k);
                    }
                    if k == fp {
                        assert(h.cf_hashes@[before_cf.len() as int] == k);
                    }
                }
            },
        }
        i = i + 1;
    }
    assert(all.take(i as int) =~= all);
    h
}

/// The value of the last pair whose key is `k`: what a map built from the pairs holds.
pub open spec fn last_value_of<V>(keys: Seq<Seq<char>>, values: Seq<V>, k: Seq<char>) -> Option<V> {
    if exists|i: int| 0 <= i < keys.len() && keys[i] == k {
        Some(values[choose|i: int| 0 <= i < keys.len() && keys[i] == k && forall|j: int| i < j < keys.len() ==> keys[j] != k])
    } else {
        None
    }
}

/// The value of the last pair whose key is `k`, for fingerprints.
pub open spec fn last_match_of(v: Seq<(i64, i32)>, k: i64) -> Option<i32> {
    if exists|i: int| 0 <= i < v.len() && v[i].0 == k {
        Some(v[choose|i: int| 0 <= i < v.len() && v[i].0 == k && forall|j: int| i < j < v.len() ==> v[j].0 != k].1)
    } else {
        None
    }
}

/// What `scan` gives for each file hashed: its name, the Modrinth project of
/// its digest and the CurseForge project of its fingerprint, where found.
/// Each digest and fingerprint is looked up once: a repeat finds nothing.
pub open spec fn scan_outcome(h: Hashes, mr_results: Seq<(String, String)>, cf_results: Seq<(i64, i32)>) -> Seq<(Seq<char>, Option<Seq<char>>, Option<i32>)> {
    let mr = views(h.mr_hashes@);
    let cf = h.cf_hashes@;
    let keys = mr_results.map_values(|p: (String, String)| p.0@);
    let vals = mr_results.map_values(|p: (String, String)| p.1@);
    Seq::new(
        mr.len(),
        |k: int|
            (
                pairs_map(h.filenames@)[cf[k]],
                if exists|j: int| 0 <= j < k && mr[j] == mr[k] {
                    None
                } else {
                    last_value_of(keys, vals, mr[k])
                },
                if exists|j: int| 0 <= j < k && cf[j] as i64 == cf[k] as i64 {
                    None
                } else {
                    last_match_of(cf_results, cf[k] as i64)
                },
            ),
    )
}

/// The views of what `scan` gives.
pub open spec fn scanned_views(v: Seq<(String, Option<String>, Option<i32>)>) -> Seq<(Seq<char>, Option<Seq<char>>, Option<i32>)> {
    v.map_values(|t: (String, Option<String>, Option<i32>)| (t.0@, match t.1 {
        Some(s) => Some(s@),
        None => None,
    }, t.2))
}

fn seen_before(v: &Vec<String>, k: usize) -> (r: bool)
    requires
        k < v.len(),
    ensures
        r == exists|j: int| 0 <= j < k && views(v@)[j] == views(v@)[k as int],
{
    let mut j: usize = 0;
    while j < k
        invariant
            j <= k,
            k < v.len(),
            forall|q: int| 0 <= q < j ==> views(v@)[q] != views(v@)[k as int],
        decreases k - j,
    {
        if crate::text::str_eq(v[j].as_str(), v[k].as_str()) {
            assert(views(v@)[j as int] == views(v@)[k as int]);
            return true;
        }
        j = j + 1;
    }
    false
}

fn fingerprint_seen_before(v: &Vec<usize>, k: usize) -> (r: bool)
    requires
        k < v.len(),
    ensures
        r == exists|j: int| 0 <= j < k && v@[j] as i64 == v@[k as int] as i64,
{
    let mut j: usize = 0;
    while j < k
        invariant
            j <= k,
            k < v.len(),
            forall|q: int| 0 <= q < j ==> v@[q] as i64 != v@[k as int] as i64,
        decreases k - j,
    {
        if v[j] as i64 == v[k] as i64 {
            return true;
        }
        j = j + 1;
    }
    false
}

fn last_value(pairs: &Vec<(String, String)>, key: &String) -> (r: Option<String>)
    ensures
        match r {
            Some(s) => last_value_of(pairs@.map_values(|p: (String, String)| p.0@), pairs@.map_values(|p: (String, String)| p.1@), key@) == Some(s@),
            None => last_value_of(pairs@.map_values(|p: (String, String)| p.0@), pairs@.map_values(|p: (String, String)| p.1@), key@) is None,
        },
{
    let ghost keys = pairs@.map_values(|p: (String, String)| p.0@);
    let mut i: usize = pairs.len();
    while i > 0
        invariant
            i <= pairs.len(),
            keys == pairs@.map_values(|p: (String, String)| p.0@),
            forall|j: int| i <= j < pairs.len() ==> keys[j] != key@,
        decreases i,
    {
        i = i - 1;
        assert(keys[i as int] == pairs@[i as int].0@);
        if crate::text::str_eq(pairs[i].0.as_str(), key.as_str()) {
            assert forall|q: int| 0 <= q < keys.len() && keys[q] == key@ && (forall|j: int| q < j < keys.len() ==> keys[j] != key@) implies q == i by {
                if q < i {
                    assert(keys[i as int] == key@);
                }
            }
            return Some(crate::text::copy_string(&pairs[i].1));
        }
    }
    None
}

fn last_match(pairs: &Vec<(i64, i32)>, key: i64) -> (r: Option<i32>)
    ensures
        r == last_match_of(pairs@, key),
{
    let mut i: usize = pairs.len();
    while i > 0
        invariant
            i <= pairs.len(),
            forall|j: int| i <= j < pairs.len() ==> pairs@[j].0 != key,
        decreases i,
    {
        i = i - 1;
        if pairs[i].0 == key {
            assert forall|q: int| 0 <= q < pairs.len() && pairs@[q].0 == key && (forall|j: int| q < j < pairs.len() ==> pairs@[j].0 != key) implies q == i by {
                if q < i {
                    assert(pairs@[i as int].0 == key);
                }
            }
            return Some(pairs[i].1);
        }
    }
    None
}

fn name_of(filenames: &Vec<(usize, String)>, k: usize) -> (r: String)
    requires
        keys_distinct(filenames@),
        pairs_map(filenames@).contains_key(k),
    ensures
        r@ == pairs_map(filenames@)[k],
{
    let mut i: usize = 0;
    while i < filenames.len()
        invariant
            i <= filenames.len(),
            keys_distinct(filenames@),
            pairs_map(filenames@).contains_key(k),
            forall|j: int| 0 <= j < i ==> filenames@[j].0 != k,
        decreases filenames.len() - i,
    {
        if filenames[i].0 == k {
            proof {
                let c = choose|j: int| 0 <= j < filenames@.len() && filenames@[j].0 == k;
                assert(filenames@[i as int].0 == k);
                if c < i {
                    assert(filenames@[c].0 != filenames@[i as int].0);
                } else if c > i {
                    assert(filenames@[i as int].0 != filenames@[c].0);
                }
                assert(c == i as int);
            }
            return crate::text::copy_string(&filenames[i].1);
        }
        i = i + 1;
    }
    proof {
        let c = choose|j: int| 0 <= j < filenames@.len() && filenames@[j].0 == k;
        assert(filenames@[c].0 == k);
    }
    String::new()
}

/// Pairs each hashed file with what Modrinth (digest to project id) and
/// CurseForge (fingerprint to project id) found.
pub fn scan_results(
    hashes: &Hashes,
    mr_results: &Vec<(String, String)>,
    cf_results: &Vec<(i64, i32)>,
) -> (r: Vec<(String, Option<String>, Option<i32>)>)
    requires
        hashes_wf(*hashes),
    ensures
        scanned_views(r@) == scan_outcome(*hashes, mr_results@, cf_results@),
{
    let ghost out = scan_outcome(*hashes, mr_results@, cf_results@);
    let mut r: Vec<(String, Option<String>, Option<i32>)> = Vec::new();
    let mut k: usize = 0;
    while k < hashes.mr_hashes.len()
        invariant
            k <= hashes.mr_hashes.len(),
            hashes_wf(*hashes),
            out == scan_outcome(*hashes, mr_results@, cf_results@),
            scanned_views(r@) == out.take(k as int),
        decreases hashes.mr_hashes.len() - k,
    {
        let fp = hashes.cf_hashes[k];
        assert(hashes.cf_hashes@.contains(fp));
        let name = name_of(&hashes.filenames, fp);
        let mr = if seen_before(&hashes.mr_hashes, k) {
            None
        } else {
            last_value(mr_results, &hashes.mr_hashes[k])
        };
        let cf = if fingerprint_seen_before(&hashes.cf_hashes, k) {
            None
        } else {
            last_match(cf_results, fp as i64)
        };
        let ghost before = scanned_views(r@);
        r.push((name, mr, cf));
        assert(views(hashes.mr_hashes@)[k as int] == hashes.mr_hashes@[k as int]@);
        assert(scanned_views(r@) =~= before.push(out[k as int]));
        assert(out.take(k + 1) =~= out.take(k as int).push(out[k as int]));
        k = k + 1;
    }
    assert(out.take(k as int) =~= out);
    r
}

/// Scanning reports, for a file hashed whose fingerprint no earlier file
/// had, the CurseForge project that the answer for its fingerprint names (the
/// last one, where several answers name it, as a map of the answers keeps).
pub proof fn lemma_scan_reports_curseforge_match(
    h: Hashes,
    mr_results: Seq<(String, String)>,
    cf_results: Seq<(i64, i32)>,
    k: int,
    j: int,
)
    requires
        0 <= k < h.mr_hashes@.len(),
        h.mr_hashes@.len() == h.cf_hashes@.len(),
        forall|q: int| 0 <= q < k ==> h.cf_hashes@[q] as i64 != h.cf_hashes@[k] as i64,
        0 <= j < cf_results.len(),
        cf_results[j].0 == h.cf_hashes@[k] as i64,
        forall|q: int| j < q < cf_results.len() ==> cf_results[q].0 != cf_results[j].0,
    ensures
        scan_outcome(h, mr_results, cf_results).len() == h.mr_hashes@.len(),
        scan_outcome(h, mr_results, cf_results)[k].2 == Some(cf_results[j].1),
{
    let fp = h.cf_hashes@[k] as i64;
    assert(!(exists|q: int| 0 <= q < k && h.cf_hashes@[q] as i64 == h.cf_hashes@[k] as i64));
    assert(exists|i: int| 0 <= i < cf_results.len() && cf_results[i].0 == fp);
    let c = choose|i: int| 0 <= i < cf_results.len() && cf_results[i].0 == fp && forall|q: int| i < q < cf_results.len() ==> cf_results[q].0 != fp;
    assert(0 <= j < cf_results.len() && cf_results[j].0 == fp && forall|q: int| j < q < cf_results.len() ==> cf_results[q].0 != fp);
    assert(c == j);
}

/// Scanning reports no CurseForge project for a file whose fingerprint no
/// answer names.
pub proof fn lemma_scan_reports_no_curseforge_match(
    h: Hashes,
    mr_results: Seq<(String, String)>,
    cf_results: Seq<(i64, i32)>,
    k: int,
)
    requires
        0 <= k < h.mr_hashes@.len(),
        forall|q: int| 0 <= q < cf_results.len() ==> cf_results[q].0 != h.cf_hashes@[k] as i64,
    ensures
        scan_outcome(h, mr_results, cf_results)[k].2 is None,
{
}

/// Scanning reports, for a file hashed whose digest no earlier file had, the
/// Modrinth project that the answer for its digest names (the last one, where
/// several answers name it).
pub proof fn lemma_scan_reports_modrinth_match(
    h: Hashes,
    mr_results: Seq<(String, String)>,
    cf_results: Seq<(i64, i32)>,
    k: int,
    j: int,
)
    requires
        0 <= k < h.mr_hashes@.len(),
        forall|q: int| 0 <= q < k ==> h.mr_hashes@[q]@ != h.mr_hashes@[k]@,
        0 <= j < mr_results.len(),
        mr_results[j].0@ == h.mr_hashes@[k]@,
        forall|q: int| j < q < mr_results.len() ==> mr_results[q].0@ != mr_results[j].0@,
    ensures
        scan_outcome(h, mr_results, cf_results)[k].1 == Some(mr_results[j].1@),
{
    let mr = views(h.mr_hashes@);
    let keys = mr_results.map_values(|p: (String, String)| p.0@);
    let vals = mr_results.map_values(|p: (String, String)| p.1@);
    assert(mr[k] == h.mr_hashes@[k]@);
    assert forall|q: int| 0 <= q < k implies mr[q] != mr[k] by {
        assert(mr[q] == h.mr_hashes@[q]@);
    }
    assert(keys[j] == mr[k]);
    let c = choose|i: int| 0 <= i < keys.len() && keys[i] == mr[k] && forall|q: int| i < q < keys.len() ==> keys[q] != mr[k];
    assert forall|q: int| j < q < keys.len() implies keys[q] != mr[k] by {
        assert(keys[q] == mr_results[q].0@);
    }
    if c < j {
        assert(keys[j] == mr[k]);
    } else if c > j {
        assert(keys[c] == mr_results[c].0@);
    }
    assert(vals[j] == mr_results[j].1@);
}

} // verus!
