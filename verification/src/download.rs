//! Deciding what to download and install, and what to do with the files
//! already in the output directory.
use crate::order::{insertion_point, keys_sorted, lemma_insert_sorted, lemma_text_le_refl, text_le};
use crate::text::{ends_with, ends_with_spec, str_eq, views};
use crate::subcommands::profile::first_exactly;
use crate::upgrade::{is_file_name_of, DownloadData};
use vstd::prelude::*;

verus! {

/// The output paths of the files to download.
pub open spec fn outputs(v: Seq<DownloadData>) -> Seq<Seq<char>> {
    v.map_values(|d: DownloadData| d.output@)
}

/// Sorts the files to download by output path; files of equal paths come in any order.
pub fn sort_by_output(v: Vec<DownloadData>) -> (r: Vec<DownloadData>)
    ensures
        r@.to_multiset() == v@.to_multiset(),
        keys_sorted(outputs(r@)),
{
    let ghost all = v@;
    assert(all.len() == v.len());
    let mut rest = v;
    let mut items: Vec<DownloadData> = Vec::new();
    let mut keys: Vec<String> = Vec::new();
    let mut i: usize = 0;
    assert(all.take(0) =~= Seq::<DownloadData>::empty());
    assert(views(keys@) =~= outputs(items@));
    while rest.len() > 0
        invariant
            i + rest.len() == all.len(),
            all.len() <= usize::MAX,
            rest@ == all.skip(i as int),
            views(keys@) == outputs(items@),
            keys_sorted(views(keys@)),
            items@.to_multiset() == all.take(i as int).to_multiset(),
        decreases rest.len(),
    {
        let ghost rest_before = rest@;
        let d = rest.remove(0);
        assert(d == all[i as int]) by {
            assert(rest_before[0] == all.skip(i as int)[0]);
        }
        assert(rest@ =~= all.skip(i + 1));
        let key = crate::text::copy_string(&d.output);
        let pos = insertion_point(&keys, &key);
        let ghost old_items = items@;
        let ghost old_keys = views(keys@);
        proof {
            assert forall|k: int| 0 <= k < pos implies text_le(old_keys[k], key@) by {
                assert(old_keys[k] == keys@[k]@);
            }
            assert forall|k: int| pos <= k < old_keys.len() implies text_le(key@, old_keys[k]) by {
                assert(old_keys[k] == keys@[k]@);
            }
            lemma_insert_sorted(old_keys, pos as int, key@);
            vstd::seq_lib::to_multiset_insert(old_items, pos as int, d);
            vstd::seq_lib::to_multiset_build(all.take(i as int), d);
            assert(all.take(i + 1) =~= all.take(i as int).push(d));
        }
        keys.insert(pos, key);
        items.insert(pos, d);
        assert(views(keys@) =~= old_keys.insert(pos as int, d.output@));
        assert(outputs(items@) =~= outputs(old_items).insert(pos as int, d.output@));
        i = i + 1;
    }
    assert(all.take(i as int) =~= all);
    items
}

/// Sorts the files to download by output path and keeps one file of each
/// path; returns how many were dropped as duplicates.
pub fn dedup_by_output(to_download: &mut Vec<DownloadData>) -> (dropped: usize)
    ensures
        forall|i: int, j: int| 0 <= i < j < final(to_download)@.len() ==> text_le(
            #[trigger] outputs(final(to_download)@)[i],
            #[trigger] outputs(final(to_download)@)[j],
        ) && outputs(final(to_download)@)[i] != outputs(final(to_download)@)[j],
        forall|k: int| 0 <= k < final(to_download)@.len() ==> old(to_download)@.contains(#[trigger] final(to_download)@[k]),
        forall|o: Seq<char>| outputs(old(to_download)@).contains(o) <==> outputs(final(to_download)@).contains(o),
        dropped == old(to_download)@.len() - final(to_download)@.len(),
{
    let ghost start = to_download@;
    let mut all: Vec<DownloadData> = Vec::new();
    std::mem::swap(&mut all, to_download);
    let n = all.len();
    let sorted = sort_by_output(all);
    let ghost srt = sorted@;
    proof {
        assert forall|k: int| 0 <= k < srt.len() implies start.contains(#[trigger] srt[k]) by {
            vstd::seq_lib::to_multiset_contains(srt, srt[k]);
            assert(srt.contains(srt[k]));
            vstd::seq_lib::to_multiset_contains(start, srt[k]);
        }
        assert forall|k: int| 0 <= k < start.len() implies srt.contains(#[trigger] start[k]) by {
            vstd::seq_lib::to_multiset_contains(start, start[k]);
            assert(start.contains(start[k]));
            vstd::seq_lib::to_multiset_contains(srt, start[k]);
        }
        vstd::seq_lib::to_multiset_len(srt);
        vstd::seq_lib::to_multiset_len(start);
    }
    let mut rest = sorted;
    let mut kept: Vec<DownloadData> = Vec::new();
    let mut i: usize = 0;
    while rest.len() > 0
        invariant
            i + rest.len() == srt.len(),
            srt.len() <= usize::MAX,
            rest@ == srt.skip(i as int),
            keys_sorted(outputs(srt)),
            forall|a: int, b: int| 0 <= a < b < kept@.len() ==> text_le(
                #[trigger] outputs(kept@)[a],
                #[trigger] outputs(kept@)[b],
            ) && outputs(kept@)[a] != outputs(kept@)[b],
            forall|k: int| 0 <= k < kept@.len() ==> srt.take(i as int).contains(#[trigger] kept@[k]),
            forall|o: Seq<char>| outputs(srt.take(i as int)).contains(o) <==> outputs(kept@).contains(o),
            i > 0 ==> kept@.len() > 0 && kept@.last().output@ == srt[i - 1].output@,
            kept@.len() <= i,
        decreases rest.len(),
    {
        let ghost rest_before = rest@;
        let d = rest.remove(0);
        assert(d == srt[i as int]) by {
            assert(rest_before[0] == srt.skip(i as int)[0]);
        }
        assert(rest@ =~= srt.skip(i + 1));
        let ghost before = kept@;
        assert(forall|o: Seq<char>| outputs(srt.take(i as int)).contains(o) <==> outputs(before).contains(o));
        let repeat = kept.len() > 0 && str_eq(kept[kept.len() - 1].output.as_str(), d.output.as_str());
        assert(srt.take(i + 1) =~= srt.take(i as int).push(d));
        assert(outputs(srt.take(i + 1)) =~= outputs(srt.take(i as int)).push(d.output@));
        proof {
            assert forall|o: Seq<char>| outputs(srt.take(i + 1)).contains(o) <==> (outputs(srt.take(i as int)).contains(o) || o == d.output@) by {
                lemma_push_contains(outputs(srt.take(i as int)), d.output@, o);
            }
        }
        if !repeat {
            kept.push(d);
            assert(outputs(kept@) =~= outputs(before).push(srt[i as int].output@));
            proof {
                assert forall|a: int, b: int| 0 <= a < b < kept@.len() implies text_le(
                    #[trigger] outputs(kept@)[a],
                    #[trigger] outputs(kept@)[b],
                ) && outputs(kept@)[a] != outputs(kept@)[b] by {
                    if b == kept@.len() - 1 {
                        let last = before.last().output@;
                        assert(i > 0);
                        assert(outputs(srt)[i - 1] == last);
                        assert(text_le(outputs(srt)[i - 1], outputs(srt)[i as int]));
                        assert(outputs(kept@)[a] == outputs(before)[a]);
                        if a < before.len() - 1 {
                            assert(text_le(outputs(before)[a], outputs(before)[before.len() - 1]));
                        } else {
                            lemma_text_le_refl(last);
                        }
                        assert(outputs(before)[before.len() - 1] == last);
                        crate::order::lemma_text_le_trans(outputs(before)[a], last, d.output@);
                        if outputs(kept@)[a] == outputs(kept@)[b] {
                            crate::order::lemma_text_le_antisym(last, d.output@);
                        }
                    } else {
                        assert(outputs(kept@)[a] == outputs(before)[a]);
                        assert(outputs(kept@)[b] == outputs(before)[b]);
                    }
                }
                assert forall|k: int| 0 <= k < kept@.len() implies srt.take(i + 1).contains(#[trigger] kept@[k]) by {
                    if k < before.len() {
                        assert(srt.take(i as int).contains(before[k]));
                        let q = choose|q: int| 0 <= q < srt.take(i as int).len() && srt.take(i as int)[q] == before[k];
                        assert(srt.take(i + 1)[q] == before[k]);
                    } else {
                        assert(srt.take(i + 1)[i as int] == d);
                    }
                }
                assert forall|o: Seq<char>| outputs(srt.take(i + 1)).contains(o) <==> outputs(kept@).contains(o) by {
                    if outputs(srt.take(i as int)).contains(o) {
                        assert(outputs(before).contains(o));
                        let q = choose|q: int| 0 <= q < outputs(before).len() && outputs(before)[q] == o;
                        assert(outputs(kept@)[q] == o);
                    }
                    if outputs(kept@).contains(o) && o != d.output@ {
                        let q = choose|q: int| 0 <= q < outputs(kept@).len() && outputs(kept@)[q] == o;
                        if q == before.len() {
                            assert(outputs(kept@)[q] == d.output@);
                        }
                        assert(outputs(before)[q] == o);
                        assert(outputs(before).contains(o));
                        assert(outputs(srt.take(i as int)).contains(o));
                    }
                    if o == d.output@ {
                        assert(outputs(kept@)[before.len() as int] == o);
                    }
                }
            }
        } else {
            proof {
                assert(before.last().output@ == d.output@);
                assert forall|k: int| 0 <= k < kept@.len() implies srt.take(i + 1).contains(#[trigger] kept@[k]) by {
                    assert(srt.take(i as int).contains(before[k]));
                    let q = choose|q: int| 0 <= q < srt.take(i as int).len() && srt.take(i as int)[q] == before[k];
                    assert(srt.take(i + 1)[q] == before[k]);
                }
                assert forall|o: Seq<char>| outputs(srt.take(i + 1)).contains(o) <==> outputs(kept@).contains(o) by {
                    if o == d.output@ {
                        assert(outputs(kept@)[kept@.len() - 1] == o);
                    }
                }
            }
        }
        i = i + 1;
    }
    assert(srt.take(i as int) =~= srt);
    *to_download = kept;
    proof {
        assert forall|k: int| 0 <= k < to_download@.len() implies start.contains(#[trigger] to_download@[k]) by {
            assert(srt.contains(to_download@[k]));
            let q = choose|q: int| 0 <= q < srt.len() && srt[q] == to_download@[k];
            assert(start.contains(srt[q]));
        }
        assert forall|o: Seq<char>| outputs(start).contains(o) <==> outputs(to_download@).contains(o) by {
            if outputs(start).contains(o) {
                let q = choose|q: int| 0 <= q < outputs(start).len() && outputs(start)[q] == o;
                assert(srt.contains(start[q]));
                let w = choose|w: int| 0 <= w < srt.len() && srt[w] == start[q];
                assert(outputs(srt)[w] == o);
            }
            if outputs(srt).contains(o) {
                let q = choose|q: int| 0 <= q < outputs(srt).len() && outputs(srt)[q] == o;
                assert(start.contains(srt[q]));
                let w = choose|w: int| 0 <= w < start.len() && start[w] == srt[q];
                assert(outputs(start)[w] == o);
            }
        }
    }
    n - to_download.len()
}

/// What a sequence with one more item holds.
proof fn lemma_push_contains(s: Seq<Seq<char>>, x: Seq<char>, o: Seq<char>)
    ensures
        s.push(x).contains(o) <==> (s.contains(o) || o == x),
{
    if s.push(x).contains(o) {
        let q = choose|q: int| 0 <= q < s.push(x).len() && s.push(x)[q] == o;
        if q < s.len() {
            assert(s[q] == o);
        }
    }
    if s.contains(o) {
        let q = choose|q: int| 0 <= q < s.len() && s[q] == o;
        assert(s.push(x)[q] == o);
    }
    if o == x {
        assert(s.push(x)[s.len() as int] == o);
    }
}

/// The file names the files to download get: the last component of each output path.
pub fn download_names(to_download: &Vec<DownloadData>) -> (r: Vec<String>)
    ensures
        r.len() == to_download.len(),
        forall|k: int| 0 <= k < r.len() ==> is_file_name_of(#[trigger] r@[k]@, to_download@[k].output@),
{
    let mut r: Vec<String> = Vec::new();
    let mut i: usize = 0;
    while i < to_download.len()
        invariant
            i <= to_download.len(),
            r.len() == i,
            forall|k: int| 0 <= k < r.len() ==> is_file_name_of(#[trigger] r@[k]@, to_download@[k].output@),
        decreases to_download.len() - i,
    {
        r.push(to_download[i].filename());
        i = i + 1;
    }
    r
}

/// What to do with a file found in the output directory.
#[derive(Debug, PartialEq, Eq, Structural)]
pub enum Existing {
    /// It is one of the files to download or install: it stays, and is not downloaded or installed again
    Kept,
    /// It is a partly downloaded file: it is deleted
    Delete,
    /// It is some other file: it is moved to `.old` (and deleted if that fails)
    MoveToOld,
}

/// The first index of `name` in `names`.
fn index_of_name(names: &Vec<String>, name: &String) -> (r: Option<usize>)
    ensures
        r matches Some(i) ==> i < names.len() && first_exactly(views(names@), name@) == Some(i as int),
        r is None ==> first_exactly(views(names@), name@) is None,
{
    let ghost vs = views(names@);
    let mut i: usize = 0;
    while i < names.len()
        invariant
            i <= names.len(),
            vs == views(names@),
            forall|j: int| 0 <= j < i ==> vs[j] != name@,
        decreases names.len() - i,
    {
        assert(vs[i as int] == names@[i as int]@);
        if str_eq(names[i].as_str(), name.as_str()) {
            assert forall|k: int| 0 <= k < vs.len() && vs[k] == name@ && (forall|j: int| 0 <= j < k ==> vs[j] != name@) implies k == i by {
                if k > i {
                    assert(vs[i as int] != name@);
                }
            }
            return Some(i);
        }
        i = i + 1;
    }
    None
}

/// The names of the files to install.
pub open spec fn install_names(v: Seq<(String, String)>) -> Seq<Seq<char>> {
    v.map_values(|p: (String, String)| p.0@)
}

/// Decides about a file named `name` in the output directory: a file to
/// download (by its name in `download_names`) or to install that is there
/// already is taken off its list; a partly downloaded file (its name ends in
/// `.part`) is deleted; any other file is moved to `.old`.
pub fn clean_file(
    name: &String,
    to_download: &mut Vec<DownloadData>,
    download_names: &mut Vec<String>,
    to_install: &mut Vec<(String, String)>,
) -> (r: Existing)
    requires
        old(download_names).len() == old(to_download).len(),
    ensures
        final(download_names).len() == final(to_download).len(),
        match first_exactly(views(old(download_names)@), name@) {
            Some(i) => r == Existing::Kept && final(to_download)@ == crate::add::swap_removed(old(to_download)@, i)
                && final(download_names)@ == crate::add::swap_removed(old(download_names)@, i)
                && final(to_install)@ == old(to_install)@,
            None => final(to_download)@ == old(to_download)@ && final(download_names)@ == old(download_names)@ && match first_exactly(install_names(old(to_install)@), name@) {
                Some(j) => r == Existing::Kept && final(to_install)@ == crate::add::swap_removed(old(to_install)@, j),
                None => final(to_install)@ == old(to_install)@ && r == (if ends_with_spec(name@, ".part"@) {
                    Existing::Delete
                } else {
                    Existing::MoveToOld
                }),
            },
        },
{
    if let Some(i) = index_of_name(download_names, name) {
        to_download.swap_remove(i);
        download_names.swap_remove(i);
        return Existing::Kept;
    }
    let mut names: Vec<String> = Vec::new();
    let mut k: usize = 0;
    while k < to_install.len()
        invariant
            k <= to_install.len(),
            views(names@) == install_names(to_install@).take(k as int),
        decreases to_install.len() - k,
    {
        let ghost before = views(names@);
        names.push(crate::text::copy_string(&to_install[k].0));
        assert(views(names@) =~= before.push(to_install@[k as int].0@));
        assert(install_names(to_install@).take(k + 1) =~= install_names(to_install@).take(k as int).push(to_install@[k as int].0@));
        k = k + 1;
    }
    assert(install_names(to_install@).take(k as int) =~= install_names(to_install@));
    if let Some(j) = index_of_name(&names, name) {
        to_install.swap_remove(j);
        return Existing::Kept;
    }
    if ends_with(name.as_str(), ".part") {
        Existing::Delete
    } else {
        Existing::MoveToOld
    }
}

} // verus!
