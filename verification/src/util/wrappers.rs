//! Minecraft versions and the default mods directory.
use crate::text::{copy_string, owned, str_eq, views};
use crate::util::ferium_error::FError;
use crate::util::launchermeta::{Version, VersionType};
use vstd::prelude::*;

verus! {

#[verifier::external_type_specification]
#[verifier::external_body]
pub struct ExOnigRegex(onig::Regex);

/// Whether `onig::Regex::new` accepts `pattern`. A function of the pattern alone.
pub uninterp spec fn onig_compiles(pattern: Seq<char>) -> bool;

/// What `onig::Regex::replace_all` gives back, for the regex compiled from
/// `pattern`, on `text` with the replacement `rep`. A function of the three alone.
pub uninterp spec fn onig_replace_all(pattern: Seq<char>, text: Seq<char>, rep: Seq<char>) -> Seq<char>;

/// `onig::Regex::new`: succeeds exactly when the pattern compiles. On failure
/// it hands back the error's message, of which nothing is stated.
#[verifier::external_body]
fn onig_new(pattern: &str) -> (r: Result<onig::Regex, String>)
    ensures
        r is Ok <==> onig_compiles(pattern@),
{
    match onig::Regex::new(pattern) {
        Ok(re) => Ok(re),
        Err(e) => Err(e.to_string()),
    }
}

/// An Oniguruma regex together with the pattern it was compiled from.
pub struct OnigRegex {
    pattern: String,
    re: onig::Regex,
}

impl OnigRegex {
    /// The pattern this regex was compiled from.
    pub closed spec fn pattern(&self) -> Seq<char> {
        self.pattern@
    }

    /// Compiles `pattern`; the error holds the message of `onig`.
    pub fn compile(pattern: &str) -> (r: Result<OnigRegex, String>)
        ensures
            r is Ok <==> onig_compiles(pattern@),
            r matches Ok(c) ==> c.pattern() == pattern@,
    {
        match onig_new(pattern) {
            Ok(re) => Ok(OnigRegex { pattern: owned(pattern), re }),
            Err(e) => Err(e),
        }
    }
}

/// The longest text whose patch segment is removed.
pub const LONGEST_VERSION: usize = 100;

/// `onig::Regex::replace_all` on the regex that `compiled` holds, with a
/// replacement text. Its fields are private and `OnigRegex::compile` is the
/// only way to build one, so the regex is the one compiled from `compiled.pattern()`.
///
/// `replace_all` panics where Oniguruma's search fails, and with the default
/// match parameters the one failure a search can meet is the limit of ten
/// million retries within one match attempt. So the call is made only with
/// the fixed patch pattern, on a text of at most `LONGEST_VERSION`
/// characters: an attempt at one position tries each start of the look-behind
/// (at most 100), each split of its digits around the dot (at most 100), and
/// each end of the trailing digits (at most 100), fewer than 100^3 + 100
/// retries, far below the limit.
#[verifier::external_body]
fn onig_replace_all_text(compiled: &OnigRegex, text: &str, rep: &str) -> (r: String)
    requires
        compiled.pattern() == semver_patch_pattern(),
        text@.len() <= LONGEST_VERSION,
    ensures
        r@ == onig_replace_all(compiled.pattern(), text@, rep@),
{
    compiled.re.replace_all(text, rep)
}

/// The pattern that matches the patch segment of a semantic version: a dot
/// and digits at the end, after digits, a dot and digits.
pub open spec fn semver_patch_pattern() -> Seq<char> {
    "(?<=\\d{1,}\\.\\d{1,})(\\.\\d{1,}$)"@
}

/// A version with its patch segment removed, as the regex leaves it.
pub open spec fn without_patch(semver: Seq<char>) -> Seq<char> {
    onig_replace_all(semver_patch_pattern(), semver, ""@)
}

/// Removes the patch segment from semver formatted strings using a regex:
/// fails exactly when the regex does not compile. The text is a version id,
/// at most `LONGEST_VERSION` characters long.
pub fn remove_semver_patch(semver: &str) -> (r: Result<String, FError>)
    requires
        semver@.len() <= LONGEST_VERSION,
    ensures
        r is Err <==> !onig_compiles(semver_patch_pattern()),
        r matches Ok(s) ==> s@ == without_patch(semver@),
        r matches Err(e) ==> e is RegexError,
{
    let pattern = "(?<=\\d{1,}\\.\\d{1,})(\\.\\d{1,}$)";
    proof {
        reveal_strlit("(?<=\\d{1,}\\.\\d{1,})(\\.\\d{1,}$)");
    }
    match OnigRegex::compile(pattern) {
        Ok(re) => Ok(onig_replace_all_text(&re, semver, "")),
        Err(m) => Err(FError::RegexError(m)),
    }
}

/// A version as the selection reads it: its ID, whether it is a release, and
/// its ID without the patch segment.
pub open spec fn version_keys(vs: Seq<Version>, majors: Seq<Seq<char>>) -> Seq<(Seq<char>, bool, Seq<char>)> {
    Seq::new(vs.len(), |i: int| (vs[i].id@, vs[i].type_field == VersionType::Release, majors[i]))
}

/// The versions shown and the major versions they stand for, after the
/// versions read so far: a release is taken while fewer than `count` are
/// shown and no version of its major version was taken before.
pub open spec fn latest_versions(vs: Seq<(Seq<char>, bool, Seq<char>)>, count: nat) -> (Seq<Seq<char>>, Seq<Seq<char>>)
    decreases vs.len(),
{
    if vs.len() == 0 {
        (Seq::empty(), Seq::empty())
    } else {
        let (shown, majors) = latest_versions(vs.drop_last(), count);
        let (id, release, major) = vs.last();
        if shown.len() < count && release && !majors.contains(major) {
            (shown.push(id), majors.push(major))
        } else {
            (shown, majors)
        }
    }
}

/// At most `count` versions are shown, all releases, and no two of the same
/// major version.
pub proof fn lemma_latest_versions_lengths(vs: Seq<(Seq<char>, bool, Seq<char>)>, count: nat)
    ensures
        latest_versions(vs, count).0.len() == latest_versions(vs, count).1.len(),
        latest_versions(vs, count).0.len() <= count,
        latest_versions(vs, count).1.no_duplicates(),
        forall|k: int|
            0 <= k < latest_versions(vs, count).0.len() ==> exists|i: int|
                0 <= i < vs.len() && vs[i].1 && vs[i].0 == #[trigger] latest_versions(vs, count).0[k],
    decreases vs.len(),
{
    if vs.len() > 0 {
        let prev = vs.drop_last();
        lemma_latest_versions_lengths(prev, count);
        let (shown, majors) = latest_versions(prev, count);
        assert forall|k: int| 0 <= k < latest_versions(vs, count).0.len() implies exists|i: int|
            0 <= i < vs.len() && vs[i].1 && vs[i].0 == #[trigger] latest_versions(vs, count).0[k] by {
            if k < shown.len() {
                let i = choose|i: int| 0 <= i < prev.len() && prev[i].1 && prev[i].0 == #[trigger] shown[k];
                assert(vs[i] == prev[i]);
            } else {
                assert(vs[vs.len() - 1].0 == latest_versions(vs, count).0[k]);
            }
        }
    }
}

/// Once `count` versions are shown, the versions after do not change what is shown.
proof fn lemma_latest_versions_full(vs: Seq<(Seq<char>, bool, Seq<char>)>, k: int, count: nat)
    requires
        0 <= k <= vs.len(),
        latest_versions(vs.take(k), count).0.len() >= count,
    ensures
        latest_versions(vs, count) == latest_versions(vs.take(k), count),
    decreases vs.len() - k,
{
    if k < vs.len() {
        assert(vs.take(k + 1).drop_last() =~= vs.take(k));
        lemma_latest_versions_full(vs, k + 1, count);
    } else {
        assert(vs.take(k) =~= vs);
    }
}

/// Whether `s` is among `v`.
fn contains_text(v: &Vec<String>, s: &String) -> (r: bool)
    ensures
        r == views(v@).contains(s@),
{
    let mut i: usize = 0;
    while i < v.len()
        invariant
            i <= v.len(),
            forall|j: int| 0 <= j < i ==> views(v@)[j] != s@,
        decreases v.len() - i,
    {
        if str_eq(v[i].as_str(), s.as_str()) {
            assert(views(v@)[i as int] == s@);
            return true;
        }
        i = i + 1;
    }
    false
}

/// The IDs of at most `count` of the latest versions, one per major version,
/// releases only, given each version's major version in `majors`.
pub fn pick_latest_versions(versions: &Vec<Version>, majors: &Vec<String>, count: usize) -> (r: Vec<String>)
    requires
        majors@.len() == versions@.len(),
    ensures
        views(r@) == latest_versions(version_keys(versions@, views(majors@)), count as nat).0,
{
    let ghost keys = version_keys(versions@, views(majors@));
    let mut shown: Vec<String> = Vec::new();
    let mut added: Vec<String> = Vec::new();
    let mut i: usize = 0;
    while i < versions.len()
        invariant
            i <= versions.len(),
            majors@.len() == versions@.len(),
            keys == version_keys(versions@, views(majors@)),
            (views(shown@), views(added@)) == latest_versions(keys.take(i as int), count as nat),
        decreases versions.len() - i,
    {
        proof {
            lemma_latest_versions_lengths(keys.take(i as int), count as nat);
        }
        if shown.len() >= count {
            proof {
                lemma_latest_versions_full(keys, i as int, count as nat);
            }
            return shown;
        }
        assert(keys.take(i + 1).drop_last() =~= keys.take(i as int));
        assert(keys.take(i + 1).last() == keys[i as int]);
        let v = &versions[i];
        let is_release = match v.type_field {
            VersionType::Release => true,
            _ => false,
        };
        if is_release && !contains_text(&added, &majors[i]) {
            shown.push(copy_string(&v.id));
            added.push(copy_string(&majors[i]));
            assert(views(shown@) =~= latest_versions(keys.take(i as int), count as nat).0.push(v.id@));
            assert(views(added@) =~= latest_versions(keys.take(i as int), count as nat).1.push(views(majors@)[i as int]));
        }
        i = i + 1;
    }
    assert(keys.take(versions.len() as int) =~= keys);
    shown
}

/// Get a maximum of `count` number of the latest versions of Minecraft from
/// the versions of the manifest, newest first. Fails exactly when a major
/// version has to be found and the regex does not compile.
pub fn get_latest_mc_versions(versions: &Vec<Version>, count: usize) -> (r: Result<Vec<String>, FError>)
    requires
        forall|i: int| 0 <= i < versions@.len() ==> (#[trigger] versions@[i]).id@.len() <= LONGEST_VERSION,
    ensures
        r is Err <==> (count > 0 && versions@.len() > 0 && !onig_compiles(semver_patch_pattern())),
        r matches Ok(ids) ==> views(ids@) == latest_versions(
            version_keys(versions@, Seq::new(versions@.len(), |i: int| without_patch(versions@[i].id@))),
            count as nat,
        ).0,
{
    let ghost wanted = Seq::new(versions@.len(), |i: int| without_patch(versions@[i].id@));
    if count == 0 || versions.len() == 0 {
        let r: Vec<String> = Vec::new();
        proof {
            lemma_latest_versions_lengths(version_keys(versions@, wanted), count as nat);
            if versions@.len() == 0 {
                assert(version_keys(versions@, wanted) =~= Seq::empty());
            }
        }
        assert(views(r@) =~= latest_versions(version_keys(versions@, wanted), count as nat).0);
        return Ok(r);
    }
    let mut majors: Vec<String> = Vec::new();
    let mut i: usize = 0;
    while i < versions.len()
        invariant
            i <= versions.len(),
            count > 0,
            versions.len() > 0,
            wanted == Seq::new(versions@.len(), |i: int| without_patch(versions@[i].id@)),
            views(majors@) == wanted.take(i as int),
            i > 0 ==> onig_compiles(semver_patch_pattern()),
            forall|j: int| 0 <= j < versions@.len() ==> (#[trigger] versions@[j]).id@.len() <= LONGEST_VERSION,
        decreases versions.len() - i,
    {
        assert(wanted[i as int] == without_patch(versions@[i as int].id@));
        match remove_semver_patch(versions[i].id.as_str()) {
            Ok(m) => {
                let ghost before = majors@;
                assert(m@ == wanted[i as int]);
                majors.push(m);
                assert(views(majors@) =~= views(before).push(m@));
                assert(views(majors@) =~= wanted.take(i + 1));
            },
            Err(e) => {
                return Err(e);
            },
        }
        i = i + 1;
    }
    assert(views(majors@) =~= wanted);
    Ok(pick_latest_versions(versions, &majors, count))
}

/// The folders below the home directory where mods are stored by default on
/// the given operating system; `None` on one that is not supported.
pub open spec fn mods_dir_parts(os: Seq<char>) -> Option<Seq<Seq<char>>> {
    if os == "macos"@ {
        Some(seq!["Library"@, "ApplicationSupport"@, "minecraft"@, "mods"@])
    } else if os == "linux"@ {
        Some(seq![".minecraft"@, "mods"@])
    } else if os == "windows"@ {
        Some(seq!["AppData"@, "Roaming"@, ".minecraft"@, "mods"@])
    } else {
        None
    }
}

/// Returns the folders, below the home directory, of the default directory
/// where mods are stored on `os`; an unsupported device is an error.
pub fn get_mods_dir(os: &str) -> (r: Result<Vec<String>, FError>)
    ensures
        match mods_dir_parts(os@) {
            Some(parts) => r matches Ok(v) && views(v@) == parts,
            None => r matches Err(e) && e is InvalidDeviceError,
        },
{
    let mut v: Vec<String> = Vec::new();
    if str_eq(os, "macos") {
        v.push(owned("Library"));
        v.push(owned("ApplicationSupport"));
        v.push(owned("minecraft"));
        v.push(owned("mods"));
        assert(views(v@) =~= seq!["Library"@, "ApplicationSupport"@, "minecraft"@, "mods"@]);
        Ok(v)
    } else if str_eq(os, "linux") {
        v.push(owned(".minecraft"));
        v.push(owned("mods"));
        assert(views(v@) =~= seq![".minecraft"@, "mods"@]);
        Ok(v)
    } else if str_eq(os, "windows") {
        v.push(owned("AppData"));
        v.push(owned("Roaming"));
        v.push(owned(".minecraft"));
        v.push(owned("mods"));
        assert(views(v@) =~= seq!["AppData"@, "Roaming"@, ".minecraft"@, "mods"@]);
        Ok(v)
    } else {
        Err(FError::InvalidDeviceError)
    }
}

} // verus!
