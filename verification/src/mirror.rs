//! Mirroring packages out of archives into a repository: entry selection,
//! per-entry upload, aggregate error reporting, and the small decisions of
//! the download loop.  Fetching archives over the network is the
//! application's job; the functions here take the archive bytes.

use vstd::prelude::*;
use crate::archive::{
    spec_archive_view, tar_gz_entries, tar_gz_entries_of, zip_entries, zip_entries_of,
};
use crate::conda_package::{spec_is_conda, spec_process, spec_validation_ok, spec_cache_insert,
    CondaPackageHandler, ProcessedView};
use crate::errors::MirrorError;
use crate::json::{push_literal, push_u64};
use crate::pattern::{regex_match, regex_ok, Pattern};
use crate::repository::{
    spec_finalize_writes, spec_s3_bucket, spec_upload_writes, spec_writes_view, Repository,
    RepositoryType, StorageWrite, WriteView,
};
use crate::strutil::{
    chars_of, spec_split, spec_starts_with, spec_u64_digits, split_char, string_of,
    vec_starts_with_str, views_of,
};
use crate::urlpath::{url_path, url_path_of};

verus! {

broadcast use vstd::string::group_string_axioms;

/// Whether a source is fetched rather than read from the file system.
pub open spec fn spec_is_remote(s: Seq<char>) -> bool {
    ||| spec_starts_with(s, "http://"@)
    ||| spec_starts_with(s, "https://"@)
    ||| spec_starts_with(s, "file://"@)
}

/// The last `/`-separated segment of a path.
pub open spec fn spec_basename(p: Seq<char>) -> Seq<char> {
    spec_split(p, '/').last()
}

/// The package name a local path yields: its last segment, unless that is
/// empty or a dot segment.
pub open spec fn spec_local_package_name(s: Seq<char>) -> Option<Seq<char>> {
    let last = spec_basename(s);
    if last.len() > 0 && last != "."@ && last != ".."@ {
        Some(last)
    } else {
        None
    }
}

/// The package name a URL yields: the last segment of its path, which
/// excludes any query; `None` when the URL does not parse or the segment is
/// empty.
pub open spec fn spec_url_package_name(s: Seq<char>) -> Option<Seq<char>> {
    match url_path_of(s) {
        None => None,
        Some(p) => {
            let last = spec_basename(p);
            if last.len() > 0 {
                Some(last)
            } else {
                None
            }
        },
    }
}

/// Last token of `v` split at `/`.
fn basename_chars(v: &Vec<char>) -> (r: Vec<char>)
    ensures
        r@ == spec_basename(v@),
{
    let parts = split_char(v, '/');
    proof {
        assert(views_of(parts@).last() == parts@[parts@.len() - 1]@);
    }
    let mut out: Vec<char> = Vec::new();
    let last = &parts[parts.len() - 1];
    let mut i: usize = 0;
    while i < last.len()
        invariant
            i <= last@.len(),
            out@ == last@.take(i as int),
        decreases last@.len() - i,
    {
        out.push(last[i]);
        i += 1;
        proof {
            assert(out@ =~= last@.take(i as int));
        }
    }
    proof {
        assert(last@.take(last@.len() as int) =~= last@);
    }
    out
}

/// The filename a package source denotes: the last path segment of a local
/// path or of a URL.
pub fn extract_package_name(source: &str) -> (r: Result<String, MirrorError>)
    ensures
        !spec_is_remote(source@) ==> (r is Ok) == (spec_local_package_name(source@) is Some) && (
        r matches Ok(n) ==> Some(n@) == spec_local_package_name(source@)),
        spec_is_remote(source@) ==> (r is Ok) == (spec_url_package_name(source@) is Some) && (
        r matches Ok(n) ==> Some(n@) == spec_url_package_name(source@)),
        r matches Err(e) ==> e is InvalidInput,
{
    let v = chars_of(source);
    let remote = vec_starts_with_str(&v, "http://") || vec_starts_with_str(&v, "https://")
        || vec_starts_with_str(&v, "file://");
    if !remote {
        let base = basename_chars(&v);
        if base.len() > 0 && !crate::strutil::vec_eq_str(&base, ".") && !crate::strutil::vec_eq_str(
            &base,
            "..",
        ) {
            Ok(string_of(&base))
        } else {
            Err(
                MirrorError::InvalidInput(
                    "Could not extract package name from file path".to_owned(),
                ),
            )
        }
    } else {
        let path = match url_path(source) {
            Some(p) => p,
            None => {
                return Err(MirrorError::InvalidInput("Could not parse URL".to_owned()));
            },
        };
        let pv = chars_of(path.as_str());
        let base = basename_chars(&pv);
        if base.len() > 0 {
            Ok(string_of(&base))
        } else {
            Err(MirrorError::InvalidInput("Package name is empty".to_owned()))
        }
    }
}

/// Powers of two.
pub open spec fn spec_pow2(n: nat) -> nat
    decreases n,
{
    if n == 0 {
        1
    } else {
        2 * spec_pow2((n - 1) as nat)
    }
}

proof fn lemma_pow2_bound(n: nat)
    requires
        n <= 63,
    ensures
        spec_pow2(n) <= 9223372036854775808,
    decreases 63 - n,
{
    if n == 63 {
        lemma_pow2_63();
    } else {
        lemma_pow2_bound(n + 1);
    }
}

proof fn lemma_pow2_eq(n: nat)
    ensures
        spec_pow2(n) == vstd::arithmetic::power2::pow2(n),
    decreases n,
{
    if n > 0 {
        lemma_pow2_eq((n - 1) as nat);
        vstd::arithmetic::power2::lemma_pow2_unfold(n);
    } else {
        vstd::arithmetic::power2::lemma2_to64();
    }
}

proof fn lemma_pow2_63()
    ensures
        spec_pow2(63) == 9223372036854775808,
{
    lemma_pow2_eq(63);
    vstd::arithmetic::power2::lemma2_to64_rest();
}

/// The delay before retry `attempt`: exponential backoff with base two
/// seconds, as the download loop waits.
pub fn backoff_delay_seconds(attempt: u32) -> (r: u64)
    requires
        1 <= attempt <= 64,
    ensures
        r == spec_pow2((attempt - 1) as nat),
{
    let mut acc: u64 = 1;
    let mut i: u32 = 0;
    while i < attempt - 1
        invariant
            1 <= attempt <= 64,
            i <= attempt - 1,
            acc == spec_pow2(i as nat),
        decreases attempt - 1 - i,
    {
        proof {
            lemma_pow2_bound((i + 1) as nat);
        }
        acc = acc * 2;
        i += 1;
    }
    acc
}

/// What mirroring an archive leaves behind: the writes the backend must
/// perform for the committed packages, and the aggregate error, if any,
/// reported after committing them.
pub struct MirrorOutcome {
    pub writes: Vec<StorageWrite>,
    pub error: Option<MirrorError>,
}

/// State threaded through an archive scan.
pub ghost struct ScanState {
    pub cache: Seq<ProcessedView>,
    pub writes: Seq<WriteView>,
    pub successes: int,
    pub failures: int,
}

/// Whether the scan takes an entry: a conda extension, and a match with
/// the path pattern when one is given.
pub open spec fn spec_entry_selected(name: Seq<char>, pat: Option<Seq<char>>) -> bool {
    spec_is_conda(name) && match pat {
        None => true,
        Some(p) => regex_match(p, name),
    }
}

/// One scan over archive entries: each selected entry is processed under
/// its basename and uploaded; a failed upload counts but leaves no write.
/// With a path pattern the scan stops after the first selected entry.
pub open spec fn spec_scan(
    rt: RepositoryType,
    path: Seq<char>,
    st: ScanState,
    entries: Seq<(Seq<char>, Seq<u8>)>,
    pat: Option<Seq<char>>,
    now: u64,
) -> ScanState
    decreases entries.len(),
{
    if entries.len() == 0 {
        st
    } else {
        let name = entries[0].0;
        if spec_entry_selected(name, pat) {
            let base = spec_basename(name);
            let p = spec_process(entries[0].1, base, now);
            let cache2 = if spec_is_conda(base) {
                spec_cache_insert(st.cache, p)
            } else {
                st.cache
            };
            let ok = spec_is_conda(base) && spec_validation_ok(p) && (rt is S3 ==> spec_s3_bucket(
                path,
            ).len() > 0);
            let st2 = if ok {
                ScanState {
                    cache: cache2,
                    writes: st.writes + spec_upload_writes(rt, path, p, cache2),
                    successes: st.successes + 1,
                    failures: st.failures,
                }
            } else {
                ScanState {
                    cache: cache2,
                    writes: st.writes,
                    successes: st.successes,
                    failures: st.failures + 1,
                }
            };
            if pat is Some {
                st2
            } else {
                spec_scan(rt, path, st2, entries.skip(1), pat, now)
            }
        } else {
            spec_scan(rt, path, st, entries.skip(1), pat, now)
        }
    }
}

/// The names of archive entries.
pub open spec fn spec_entry_names(entries: Seq<(Seq<char>, Seq<u8>)>) -> Seq<Seq<char>> {
    entries.map_values(|e: (Seq<char>, Seq<u8>)| e.0)
}

/// The numbered file listing an empty scan reports: one line per entry.
pub open spec fn spec_listing(names: Seq<Seq<char>>) -> Seq<char>
    decreases names.len(),
{
    if names.len() == 0 {
        Seq::<char>::empty()
    } else {
        spec_listing(names.drop_last()) + "\n  "@ + spec_u64_digits(names.len() as nat) + ": "@
            + names.last()
    }
}

/// The message reported when a ZIP archive held no matching conda package.
pub open spec fn spec_zip_error_msg(names: Seq<Seq<char>>, pat: Option<Seq<char>>) -> Seq<char> {
    let shown = match pat {
        None => "<root>"@,
        Some(p) => p,
    };
    let hint = match pat {
        None => "\n\nHint: Files must have .conda or .tar.bz2 extensions"@,
        Some(p) => "\n\nHint: File paths must match regex pattern '"@ + p
            + "' and have .conda or .tar.bz2 extensions"@,
    };
    "No conda packages found in ZIP file matching pattern: '"@ + shown + "'"@
        + "\n\nAll files in ZIP:"@ + spec_listing(names) + hint
}

/// The message reported when a tarball held no conda package.
pub open spec fn spec_tarball_error_msg(names: Seq<Seq<char>>) -> Seq<char> {
    "No conda packages found in tarball"@ + "\n\nAll files in tarball:"@ + spec_listing(names)
        + "\n\nHint: Files must have .conda or .tar.bz2 extensions"@
}

/// Append the listing of `names` to `out`.
fn push_listing(out: &mut Vec<char>, entries: &Vec<(String, Vec<u8>)>)
    ensures
        final(out)@ == old(out)@ + spec_listing(
            spec_entry_names(crate::archive::spec_archive_view(entries@)),
        ),
{
    let ghost names = spec_entry_names(crate::archive::spec_archive_view(entries@));
    let ghost pre = out@;
    let mut i: usize = 0;
    proof {
        assert(names.take(0).len() == 0);
        assert(out@ =~= pre + spec_listing(names.take(0)));
    }
    while i < entries.len()
        invariant
            i <= names.len(),
            names == spec_entry_names(crate::archive::spec_archive_view(entries@)),
            names.len() == entries@.len(),
            out@ == pre + spec_listing(names.take(i as int)),
        decreases names.len() - i,
    {
        push_literal(out, "\n  ");
        push_u64(out, (i as u64) + 1);
        push_literal(out, ": ");
        push_literal(out, entries[i].0.as_str());
        i += 1;
        proof {
            assert(names.take(i as int).drop_last() =~= names.take(i - 1));
            assert(names.take(i as int).last() == names[i - 1]);
            assert(names[i - 1] == entries@[i - 1].0@);
            assert(out@ =~= pre + spec_listing(names.take(i as int)));
        }
    }
    proof {
        assert(names.take(names.len() as int) =~= names);
    }
}

/// Move the writes of `src` onto the end of `dst`, in order.
fn append_writes(dst: &mut Vec<StorageWrite>, src: Vec<StorageWrite>)
    ensures
        spec_writes_view(final(dst)@) == spec_writes_view(old(dst)@) + spec_writes_view(src@),
{
    let ghost dst0 = spec_writes_view(old(dst)@);
    let ghost src0 = spec_writes_view(src@);
    let mut src = src;
    let mut j: usize = 0;
    let nsrc = src.len();
    proof {
        assert(src0.len() == nsrc);
        assert(spec_writes_view(dst@) =~= dst0 + src0.take(0));
    }
    while src.len() > 0
        invariant
            j <= src0.len(),
            src0.len() <= usize::MAX,
            spec_writes_view(src@) == src0.skip(j as int),
            src@.len() == src0.len() - j,
            dst@.len() == old(dst)@.len() + j,
            dst0.len() == old(dst)@.len(),
            spec_writes_view(dst@) == dst0 + src0.take(j as int),
        decreases src@.len(),
    {
        let ghost pre_src = src@;
        let x = src.remove(0);
        proof {
            assert(x == pre_src[0]);
            assert(spec_writes_view(pre_src)[0] == pre_src[0]@);
            assert(src0.skip(j as int)[0] == src0[j as int]);
            assert(x@ == src0[j as int]);
            assert(src@ =~= pre_src.skip(1));
            assert forall|k: int| 0 <= k < src@.len() implies #[trigger] spec_writes_view(src@)[k]
                == src0.skip(j + 1)[k] by {
                assert(spec_writes_view(src@)[k] == src@[k]@);
                assert(src@[k] == pre_src[k + 1]);
                assert(spec_writes_view(pre_src)[k + 1] == pre_src[k + 1]@);
                assert(src0.skip(j as int)[k + 1] == src0[j + 1 + k]);
            }
            assert(spec_writes_view(src@) =~= src0.skip(j + 1));
        }
        let ghost pre_dst = dst@;
        dst.push(x);
        j += 1;
        proof {
            assert forall|k: int|
                0 <= k < dst@.len() implies #[trigger] spec_writes_view(dst@)[k] == (dst0
                + src0.take(j as int))[k] by {
                assert(spec_writes_view(dst@)[k] == dst@[k]@);
                if k < dst@.len() - 1 {
                    assert(dst@[k] == pre_dst[k]);
                    assert(spec_writes_view(pre_dst)[k] == pre_dst[k]@);
                    assert((dst0 + src0.take(j - 1))[k] == (dst0 + src0.take(j as int))[k]);
                } else {
                    assert(dst@[k] == x);
                }
            }
            assert(spec_writes_view(dst@) =~= dst0 + src0.take(j as int));
        }
    }
    proof {
        assert(src0.take(j as int) =~= src0);
    }
}

/// Mirror the conda packages of a decoded archive into the repository.
/// With a nonempty `pattern` only the first matching entry is processed.
/// Invalid patterns are rejected up front; after the scan, the repository
/// is finalized when anything succeeded, and the aggregate error — some
/// packages failed, or nothing matched — is reported beside the writes
/// already planned.
fn mirror_entries(
    repository: &mut Repository,
    entries: &Vec<(String, Vec<u8>)>,
    pattern: Option<&str>,
    zip_texts: bool,
    now: u64,
) -> (r: Result<MirrorOutcome, MirrorError>)
    requires
        old(repository).wf(),
    ensures
        final(repository).wf(),
        final(repository).kind() == old(repository).kind(),
        final(repository).spec_path() == old(repository).spec_path(),
        pattern matches Some(p) && !regex_ok(p@) ==> (r matches Err(e) && e is InvalidInput)
            && final(repository).cache() == old(repository).cache(),
        (match pattern {
            Some(p) => regex_ok(p@),
            None => true,
        }) ==> (r matches Ok(o) && {
            let pat = match pattern {
                Some(p) => Some(p@),
                None => None,
            };
            let evs = crate::archive::spec_archive_view(entries@);
            let st = spec_scan(
                old(repository).kind(),
                old(repository).spec_path(),
                ScanState {
                    cache: old(repository).cache(),
                    writes: Seq::<WriteView>::empty(),
                    successes: 0,
                    failures: 0,
                },
                evs,
                pat,
                now,
            );
            &&& final(repository).cache() == st.cache
            &&& spec_writes_view(o.writes@) == st.writes + (if st.successes > 0 {
                spec_finalize_writes(old(repository).kind(), st.cache)
            } else {
                Seq::<WriteView>::empty()
            })
            &&& (st.failures > 0 ==> (o.error matches Some(e) && e is StorageError
                && e.spec_message() == spec_u64_digits(st.failures as nat)
                + " packages failed to mirror"@))
            &&& (st.failures == 0 && st.successes == 0 ==> (o.error matches Some(e) && (zip_texts
                ==> e.spec_message() == spec_zip_error_msg(spec_entry_names(evs), pat)) && (
            !zip_texts ==> e.spec_message() == spec_tarball_error_msg(spec_entry_names(evs)))
                && e is UnsupportedFormat))
            &&& (st.failures == 0 && st.successes > 0 ==> o.error is None)
        }),
{
    let re: Option<Pattern> = match pattern {
        Some(p) => match Pattern::compile(p) {
            Some(re) => Some(re),
            None => {
                let mut msg = chars_of("Invalid regex pattern: ");
                push_literal(&mut msg, p);
                return Err(MirrorError::InvalidInput(string_of(&msg)));
            },
        },
        None => None,
    };
    let ghost pat = match pattern {
        Some(p) => Some(p@),
        None => None,
    };
    let ghost evs = crate::archive::spec_archive_view(entries@);
    let ghost st0 = ScanState {
        cache: old(repository).cache(),
        writes: Seq::<WriteView>::empty(),
        successes: 0,
        failures: 0,
    };
    let ghost rt = old(repository).kind();
    let ghost rpath = old(repository).spec_path();
    let mut writes: Vec<StorageWrite> = Vec::new();
    let mut successes: u64 = 0;
    let mut failures: u64 = 0;
    let mut i: usize = 0;
    let mut stop: bool = false;
    proof {
        assert(evs.skip(0) =~= evs);
        assert(spec_writes_view(writes@) =~= Seq::<WriteView>::empty());
    }
    while i < entries.len() && !stop
        invariant
            i <= evs.len(),
            evs == crate::archive::spec_archive_view(entries@),
            evs.len() == entries@.len(),
            repository.wf(),
            repository.kind() == rt,
            repository.spec_path() == rpath,
            rt == old(repository).kind(),
            rpath == old(repository).spec_path(),
            st0 == (ScanState {
                cache: old(repository).cache(),
                writes: Seq::<WriteView>::empty(),
                successes: 0,
                failures: 0,
            }),
            successes + failures <= i,
            match (pattern, &re) {
                (Some(p), Some(cre)) => cre.src() == p@ && pat == Some(p@),
                (None, None) => pat is None,
                _ => false,
            },
            !stop ==> spec_scan(rt, rpath, st0, evs, pat, now) == spec_scan(
                rt,
                rpath,
                ScanState {
                    cache: repository.cache(),
                    writes: spec_writes_view(writes@),
                    successes: successes as int,
                    failures: failures as int,
                },
                evs.skip(i as int),
                pat,
                now,
            ),
            stop ==> spec_scan(rt, rpath, st0, evs, pat, now) == (ScanState {
                cache: repository.cache(),
                writes: spec_writes_view(writes@),
                successes: successes as int,
                failures: failures as int,
            }),
        decreases evs.len() - i,
    {
        proof {
            assert(evs.skip(i as int)[0] == evs[i as int]);
            assert(evs.skip(i as int).skip(1) =~= evs.skip(i + 1));
            assert(evs[i as int].0 == entries@[i as int].0@);
            assert(evs[i as int].1 == entries@[i as int].1@);
        }
        let name = entries[i].0.as_str();
        let conda = CondaPackageHandler::is_conda_package(name);
        let matched = match &re {
            Some(cre) => cre.is_match(name),
            None => true,
        };
        if conda && matched {
            let nv = chars_of(name);
            let base = basename_chars(&nv);
            let base_s = string_of(&base);
            let content = entries[i].1.clone();
            proof {
                assert(content@ =~= entries@[i as int].1@);
            }
            match repository.upload_package(base_s.as_str(), content, now) {
                Ok(w) => {
                    successes = successes + 1;
                    append_writes(&mut writes, w);
                },
                Err(_) => {
                    failures = failures + 1;
                },
            }
            if pattern.is_some() {
                stop = true;
            }
        }
        i += 1;
        proof {
            if i == evs.len() && !stop {
                assert(evs.skip(i as int).len() == 0);
            }
        }
    }
    proof {
        if !stop {
            assert(evs.skip(evs.len() as int).len() == 0);
        }
        assert(spec_scan(rt, rpath, st0, evs, pat, now) == (ScanState {
            cache: repository.cache(),
            writes: spec_writes_view(writes@),
            successes: successes as int,
            failures: failures as int,
        }));
    }
    if successes > 0 {
        match repository.finalize_repository() {
            Ok(fw) => {
                append_writes(&mut writes, fw);
            },
            Err(_) => {
                proof {
                    assert(false);
                }
            },
        }
    }
    let error: Option<MirrorError> = if failures > 0 {
        let mut msg = crate::strutil::u64_to_chars(failures);
        push_literal(&mut msg, " packages failed to mirror");
        Some(MirrorError::StorageError(string_of(&msg)))
    } else if successes == 0 {
        if zip_texts {
            let mut msg = chars_of("No conda packages found in ZIP file matching pattern: '");
            match pattern {
                Some(p) => {
                    push_literal(&mut msg, p);
                },
                None => {
                    push_literal(&mut msg, "<root>");
                },
            }
            push_literal(&mut msg, "'");
            push_literal(&mut msg, "\n\nAll files in ZIP:");
            push_listing(&mut msg, entries);
            match pattern {
                Some(p) => {
                    push_literal(&mut msg, "\n\nHint: File paths must match regex pattern '");
                    push_literal(&mut msg, p);
                    push_literal(&mut msg, "' and have .conda or .tar.bz2 extensions");
                },
                None => {
                    push_literal(&mut msg, "\n\nHint: Files must have .conda or .tar.bz2 extensions");
                },
            }
            Some(MirrorError::UnsupportedFormat(string_of(&msg)))
        } else {
            let mut msg = chars_of("No conda packages found in tarball");
            push_literal(&mut msg, "\n\nAll files in tarball:");
            push_listing(&mut msg, entries);
            push_literal(&mut msg, "\n\nHint: Files must have .conda or .tar.bz2 extensions");
            Some(MirrorError::UnsupportedFormat(string_of(&msg)))
        }
    } else {
        None
    };
    Ok(MirrorOutcome { writes, error })
}

/// Mirror the conda packages of a ZIP archive.  An empty `zip_path` means
/// no path filter; a nonempty one is a regular expression of which only
/// the first matching entry is processed.
pub fn mirror_from_zip(
    repository: &mut Repository,
    data: &Vec<u8>,
    zip_path: &str,
    now: u64,
) -> (r: Result<MirrorOutcome, MirrorError>)
    requires
        old(repository).wf(),
    ensures
        final(repository).wf(),
        final(repository).kind() == old(repository).kind(),
        final(repository).spec_path() == old(repository).spec_path(),
        zip_entries_of(data@) is None ==> (r matches Err(e) && e is ParseError) && final(repository).cache() == old(
            repository,
        ).cache(),
        zip_entries_of(data@) is Some && zip_path@.len() > 0 && !regex_ok(zip_path@) ==> (
        r matches Err(e) && e is InvalidInput) && final(repository).cache() == old(
            repository,
        ).cache(),
        zip_entries_of(data@) is Some && (zip_path@.len() == 0 || regex_ok(zip_path@))
            ==> (r matches Ok(o) && {
            let pat = if zip_path@.len() == 0 {
                None
            } else {
                Some(zip_path@)
            };
            let evs = zip_entries_of(data@).unwrap();
            let st = spec_scan(
                old(repository).kind(),
                old(repository).spec_path(),
                ScanState {
                    cache: old(repository).cache(),
                    writes: Seq::<WriteView>::empty(),
                    successes: 0,
                    failures: 0,
                },
                evs,
                pat,
                now,
            );
            &&& final(repository).cache() == st.cache
            &&& spec_writes_view(o.writes@) == st.writes + (if st.successes > 0 {
                spec_finalize_writes(old(repository).kind(), st.cache)
            } else {
                Seq::<WriteView>::empty()
            })
            &&& (st.failures > 0 ==> (o.error matches Some(e) && e is StorageError
                && e.spec_message() == spec_u64_digits(st.failures as nat)
                + " packages failed to mirror"@))
            &&& (st.failures == 0 && st.successes == 0 ==> (o.error matches Some(e)
                && e is UnsupportedFormat && e.spec_message() == spec_zip_error_msg(
                spec_entry_names(evs),
                pat,
            )))
            &&& (st.failures == 0 && st.successes > 0 ==> o.error is None)
        }),
{
    let entries = match zip_entries(data.as_slice()) {
        Some(e) => e,
        None => {
            return Err(MirrorError::ParseError("could not decode ZIP archive".to_owned()));
        },
    };
    let pattern: Option<&str> = if zip_path.is_empty() {
        None
    } else {
        Some(zip_path)
    };
    mirror_entries(repository, &entries, pattern, true, now)
}

/// Mirror the conda packages of a gzip-compressed tarball.
pub fn mirror_from_tarball(repository: &mut Repository, data: &Vec<u8>, now: u64) -> (r: Result<
    MirrorOutcome,
    MirrorError,
>)
    requires
        old(repository).wf(),
    ensures
        final(repository).wf(),
        final(repository).kind() == old(repository).kind(),
        final(repository).spec_path() == old(repository).spec_path(),
        tar_gz_entries_of(data@) is None ==> (r matches Err(e) && e is ParseError) && final(repository).cache() == old(
            repository,
        ).cache(),
        tar_gz_entries_of(data@) is Some ==> (r matches Ok(o) && {
            let evs = tar_gz_entries_of(data@).unwrap();
            let st = spec_scan(
                old(repository).kind(),
                old(repository).spec_path(),
                ScanState {
                    cache: old(repository).cache(),
                    writes: Seq::<WriteView>::empty(),
                    successes: 0,
                    failures: 0,
                },
                evs,
                None,
                now,
            );
            &&& final(repository).cache() == st.cache
            &&& spec_writes_view(o.writes@) == st.writes + (if st.successes > 0 {
                spec_finalize_writes(old(repository).kind(), st.cache)
            } else {
                Seq::<WriteView>::empty()
            })
            &&& (st.failures > 0 ==> (o.error matches Some(e) && e is StorageError
                && e.spec_message() == spec_u64_digits(st.failures as nat)
                + " packages failed to mirror"@))
            &&& (st.failures == 0 && st.successes == 0 ==> (o.error matches Some(e)
                && e is UnsupportedFormat && e.spec_message() == spec_tarball_error_msg(
                spec_entry_names(evs),
            )))
            &&& (st.failures == 0 && st.successes > 0 ==> o.error is None)
        }),
{
    let entries = match tar_gz_entries(data.as_slice()) {
        Some(e) => e,
        None => {
            return Err(MirrorError::ParseError("could not decode tarball".to_owned()));
        },
    };
    mirror_entries(repository, &entries, None, false, now)
}

} // verus!
