//! The library's general laws, stated and proved once for all inputs.

use vstd::prelude::*;
use crate::conda_package::{
    spec_extract_platform, spec_fallback_index, spec_nv_name, spec_nv_version, spec_process,
    spec_resolve, spec_strip_ext, spec_validation_ok, spec_version_idx, spec_version_like,
    spec_find_version_from, IndexView, ProcessedView,
};
use crate::digest::{spec_md5_hex, spec_sha256_hex};
use crate::platform::{
    lemma_subdir_roundtrip, spec_is_platform_str, spec_platform_of_subdir, spec_subdir, Platform,
};
use crate::strutil::{
    lemma_split_basic, lemma_split_of_join, lemma_split_sepfree, spec_contains, spec_ends_with, spec_join, spec_split,
};

verus! {

broadcast use vstd::string::group_string_axioms;

/// Resolving metadata whose subdir field holds a canonical subdirectory
/// name yields exactly that platform, whatever the other fields hold.
pub proof fn lemma_resolve_canonical_subdir(m: IndexView, p: Platform)
    requires
        m.subdir == Some(spec_subdir(p)),
    ensures
        spec_resolve(m) == p,
{
    lemma_subdir_roundtrip(p);
}

/// Validation succeeds exactly when the package's checksums match its
/// bytes, its name and version are nonempty, and its content is nonempty —
/// stated for packages whose filename is nonempty, since a package without
/// a filename is rejected besides.
pub proof fn lemma_validation_round_trip(p: ProcessedView)
    requires
        p.filename.len() > 0,
    ensures
        spec_validation_ok(p) <==> (p.md5 == spec_md5_hex(p.content) && p.sha256
            == spec_sha256_hex(p.content) && p.metadata.name.len() > 0 && p.metadata.version.len()
            > 0 && p.content.len() > 0),
{
}

/// Processing is deterministic: the same filename, content and processing
/// time always yield the same processed package, so processing a pair
/// twice gives identical results.
pub proof fn lemma_processing_idempotent(
    content: Seq<u8>,
    filename: Seq<char>,
    now: u64,
    first: ProcessedView,
    second: ProcessedView,
)
    requires
        first == spec_process(content, filename, now),
        second == spec_process(content, filename, now),
    ensures
        first == second,
{
}

/// A processed package always carries the digests of its own content, the
/// content's size, and the filename it was processed under.
pub proof fn lemma_processed_checksums(content: Seq<u8>, filename: Seq<char>, now: u64)
    ensures
        spec_process(content, filename, now).md5 == spec_md5_hex(content),
        spec_process(content, filename, now).sha256 == spec_sha256_hex(content),
        spec_process(content, filename, now).size == content.len() as u64,
        spec_process(content, filename, now).filename == filename,
        spec_process(content, filename, now).content == content,
{
}

proof fn lemma_platform_list_keeps_acc(
    cache: Seq<ProcessedView>,
    acc: Seq<Platform>,
    p: Platform,
)
    requires
        acc.contains(p),
    ensures
        crate::conda_package::spec_platform_list(cache, acc).contains(p),
    decreases cache.len(),
{
    if cache.len() > 0 {
        let q = cache[0].platform;
        if acc.contains(q) {
            lemma_platform_list_keeps_acc(cache.skip(1), acc, p);
        } else {
            assert(acc.push(q).contains(p)) by {
                let w = choose|w: int| 0 <= w < acc.len() && acc[w] == p;
                assert(acc.push(q)[w] == p);
            }
            lemma_platform_list_keeps_acc(cache.skip(1), acc.push(q), p);
        }
    }
}

/// Every processed package is covered by the platform grouping: its
/// platform appears in the platform list, and the package itself stands in
/// that platform's group.
pub proof fn lemma_grouping_covers_every_package(
    cache: Seq<ProcessedView>,
    acc: Seq<Platform>,
    i: int,
)
    requires
        0 <= i < cache.len(),
    ensures
        crate::conda_package::spec_platform_list(cache, acc).contains(cache[i].platform),
        crate::conda_package::spec_platform_group(cache, cache[i].platform).contains(cache[i]),
    decreases i,
{
    let p = cache[i].platform;
    cache.lemma_filter_contains(|x: ProcessedView| x.platform == p, i);
    if i == 0 {
        let q = cache[0].platform;
        if acc.contains(q) {
            lemma_platform_list_keeps_acc(cache.skip(1), acc, q);
        } else {
            assert(acc.push(q).contains(q)) by {
                assert(acc.push(q)[acc.len() as int] == q);
            }
            lemma_platform_list_keeps_acc(cache.skip(1), acc.push(q), q);
        }
    } else {
        let q = cache[0].platform;
        let acc2 = if acc.contains(q) {
            acc
        } else {
            acc.push(q)
        };
        lemma_grouping_covers_every_package(cache.skip(1), acc2, i - 1);
        assert(cache.skip(1)[i - 1] == cache[i]);
    }
}

proof fn lemma_join_append(a: Seq<Seq<char>>, b: Seq<Seq<char>>, sep: char)
    requires
        a.len() >= 1,
        b.len() >= 1,
    ensures
        spec_join(a + b, sep) == spec_join(a, sep) + seq![sep] + spec_join(b, sep),
    decreases a.len(),
{
    let ab = a + b;
    assert(ab.len() >= 2);
    assert(ab[0] == a[0]);
    if a.len() == 1 {
        assert(ab.skip(1) =~= b);
        assert(spec_join(ab, sep) == ab[0] + seq![sep] + spec_join(ab.skip(1), sep));
        assert(spec_join(a, sep) == a[0]);
    } else {
        lemma_join_append(a.skip(1), b, sep);
        assert(ab.skip(1) =~= a.skip(1) + b);
        assert(spec_join(ab, sep) == ab[0] + seq![sep] + spec_join(ab.skip(1), sep));
        assert(spec_join(a, sep) == a[0] + seq![sep] + spec_join(a.skip(1), sep));
        assert(spec_join(ab, sep) =~= spec_join(a, sep) + seq![sep] + spec_join(b, sep));
    }
}

proof fn lemma_find_version_at(parts: Seq<Seq<char>>, i: int, j: int)
    requires
        1 <= i <= j < parts.len(),
        spec_version_like(parts[j]),
        forall|k: int| i <= k < j ==> !spec_version_like(#[trigger] parts[k]),
    ensures
        spec_find_version_from(parts, i) == Some(j),
    decreases j - i,
{
    if i < j {
        lemma_find_version_at(parts, i + 1, j);
    }
}

/// Under two suffixes of the same string, the characters counted from the
/// end agree; a disagreement rules the second suffix out.
proof fn lemma_not_ends(stem: Seq<char>, a: Seq<char>, b: Seq<char>, k: int)
    requires
        spec_ends_with(stem, a),
        0 <= k < a.len(),
        k < b.len(),
        a[a.len() - 1 - k] != b[b.len() - 1 - k],
    ensures
        !spec_ends_with(stem, b),
{
    if spec_ends_with(stem, b) {
        assert(stem.skip(stem.len() - a.len())[a.len() - 1 - k] == stem[stem.len() - 1 - k]);
        assert(stem.skip(stem.len() - b.len())[b.len() - 1 - k] == stem[stem.len() - 1 - k]);
        assert(a[a.len() - 1 - k] == stem[stem.len() - 1 - k]);
        assert(b[b.len() - 1 - k] == stem[stem.len() - 1 - k]);
    }
}

/// A string without a dash can only be the `noarch` subdirectory name.
proof fn lemma_dashfree_platform(t: Seq<char>)
    requires
        !spec_contains(t, '-'),
        spec_platform_of_subdir(t) is Some,
    ensures
        t == "noarch"@,
{
    reveal_strlit("linux-64");
    reveal_strlit("linux-32");
    reveal_strlit("linux-aarch64");
    reveal_strlit("linux-armv6l");
    reveal_strlit("linux-armv7l");
    reveal_strlit("linux-ppc64le");
    reveal_strlit("linux-s390x");
    reveal_strlit("osx-64");
    reveal_strlit("osx-arm64");
    reveal_strlit("win-32");
    reveal_strlit("win-64");
    if t != "noarch"@ {
        assert(spec_contains(t, '-')) by {
            if t == "linux-64"@ || t == "linux-32"@ {
                assert(t[5] == '-');
            } else if t == "linux-aarch64"@ || t == "linux-armv6l"@ || t == "linux-armv7l"@ || t
                == "linux-ppc64le"@ || t == "linux-s390x"@ {
                assert(t[5] == '-');
            } else {
                assert(t[3] == '-');
            }
        }
    }
}

/// A joined sequence ends with its last part.
proof fn lemma_join_ends_with_last(parts: Seq<Seq<char>>, sep: char)
    requires
        parts.len() >= 1,
    ensures
        spec_ends_with(spec_join(parts, sep), parts.last()),
{
    let s = spec_join(parts, sep);
    if parts.len() == 1 {
        assert(s == parts[0]);
        assert(s.skip(0) =~= s);
    } else {
        lemma_join_append(parts.take(parts.len() - 1), seq![parts.last()], sep);
        assert(parts.take(parts.len() - 1) + seq![parts.last()] =~= parts);
        let pre = spec_join(parts.take(parts.len() - 1), sep);
        assert(s == pre + seq![sep] + parts.last());
        assert(s.skip(s.len() - parts.last().len()) =~= parts.last());
    }
}

/// The first part of a dash-free decomposition of `subdir` is its prefix
/// up to the first dash.
proof fn lemma_first_segment(pp: Seq<Seq<char>>, subdir: Seq<char>, first: Seq<char>, di: int)
    requires
        pp.len() >= 1,
        forall|k: int| 0 <= k < pp.len() ==> !spec_contains(#[trigger] pp[k], '-'),
        spec_join(pp, '-') == subdir,
        0 <= di < subdir.len(),
        subdir[di] == '-',
        forall|j: int| 0 <= j < di ==> subdir[j] != '-',
        first.len() == di,
        forall|j: int| 0 <= j < di ==> first[j] == subdir[j],
    ensures
        pp[0] == first,
{
    if pp.len() == 1 {
        assert(subdir == pp[0]);
        assert(subdir[di] != '-') by {
            assert(!spec_contains(pp[0], '-'));
        }
    } else {
        let p0 = pp[0];
        assert(subdir == p0 + seq!['-'] + spec_join(pp.skip(1), '-'));
        assert(forall|j: int| 0 <= j < p0.len() ==> subdir[j] == p0[j]);
        assert(subdir[p0.len() as int] == '-');
        assert(forall|j: int| 0 <= j < p0.len() ==> p0[j] != '-');
        if di < p0.len() {
            assert(subdir[di] == p0[di]);
            assert(p0[di] != '-');
        }
        if di > p0.len() {
            assert(subdir[p0.len() as int] != '-');
        }
        assert(di == p0.len());
        assert(p0 =~= first);
    }
}

/// Filename-fallback extraction recovers name, version and a platform
/// hint: for every filename of the form
/// `<name>-<version>-<build>-<platform>.conda` whose name tokens after the
/// first neither start with a digit nor contain a dot, whose version token
/// does, and whose tokens are dash-free, the recovered name and version
/// are the originals, and the first hyphen-segment of the recovered
/// platform hint is the first hyphen-segment of the platform's
/// subdirectory name.
pub proof fn lemma_conda_filename_round_trip(
    name_toks: Seq<Seq<char>>,
    version: Seq<char>,
    build_toks: Seq<Seq<char>>,
    p: Platform,
    now: u64,
)
    requires
        name_toks.len() >= 1,
        forall|k: int| 0 <= k < name_toks.len() ==> !spec_contains(#[trigger] name_toks[k], '-'),
        forall|k: int| 1 <= k < name_toks.len() ==> !spec_version_like(#[trigger] name_toks[k]),
        spec_version_like(version),
        !spec_contains(version, '-'),
        forall|k: int| 0 <= k < build_toks.len() ==> !spec_contains(#[trigger] build_toks[k], '-'),
    ensures
        ({
            let stem_toks = name_toks + seq![version] + build_toks + spec_split(
                spec_subdir(p),
                '-',
            );
            let f = spec_join(stem_toks, '-') + ".conda"@;
            &&& spec_fallback_index(f, now) is Some
            &&& spec_fallback_index(f, now).unwrap().name == spec_join(name_toks, '-')
            &&& spec_fallback_index(f, now).unwrap().version == version
            &&& spec_fallback_index(f, now).unwrap().platform is Some
            &&& spec_split(spec_fallback_index(f, now).unwrap().platform.unwrap(), '-')[0]
                == spec_split(spec_subdir(p), '-')[0]
        }),
{
    let subdir = spec_subdir(p);
    let psegs = spec_split(subdir, '-');
    lemma_split_basic(subdir, '-');
    let toks = name_toks + seq![version] + build_toks + psegs;
    let stem = spec_join(toks, '-');
    let f = stem + ".conda"@;
    reveal_strlit(".conda");
    assert(".conda"@.len() == 6);
    assert(spec_ends_with(f, ".conda"@)) by {
        assert(f.skip(f.len() - 6) =~= ".conda"@);
    }
    assert(f.take(f.len() - 6) =~= stem);
    assert(spec_strip_ext(f) == Some(stem));
    assert forall|k: int| 0 <= k < toks.len() implies !spec_contains(#[trigger] toks[k], '-') by {
        if k < name_toks.len() {
            assert(toks[k] == name_toks[k]);
        } else if k == name_toks.len() {
            assert(toks[k] == version);
        } else if k < name_toks.len() + 1 + build_toks.len() {
            assert(toks[k] == build_toks[k - name_toks.len() - 1]);
        } else {
            assert(toks[k] == psegs[k - name_toks.len() - 1 - build_toks.len()]);
        }
    }
    lemma_split_of_join(toks, '-');
    assert(spec_split(stem, '-') == toks);
    assert(toks.len() >= 2);
    let nl = name_toks.len() as int;
    assert(toks[nl] == version);
    assert forall|k: int| 1 <= k < nl implies !spec_version_like(#[trigger] toks[k]) by {
        assert(toks[k] == name_toks[k]);
    }
    lemma_find_version_at(toks, 1, nl);
    assert(spec_version_idx(toks) == nl);
    assert(toks.take(nl) =~= name_toks);
    assert(spec_nv_name(toks) == spec_join(name_toks, '-'));
    assert(spec_nv_version(toks) == version);
    // the platform hint
    lemma_join_ends_with_last(psegs, '-');
    assert(toks.last() == psegs.last()) by {
        assert(psegs.len() >= 1);
    }
    let pre = name_toks + seq![version] + build_toks;
    assert(pre.len() >= 2);
    assert(pre + psegs =~= toks);
    lemma_join_append(pre, psegs, '-');
    assert(spec_ends_with(stem, subdir)) by {
        assert(stem == spec_join(pre, '-') + seq!['-'] + subdir);
        assert(stem.skip(stem.len() - subdir.len()) =~= subdir);
    }
    if !(p is NoArch) {
        lemma_hint_hyphenated(f, stem, toks, p);
    }
    if p is NoArch {
        reveal_strlit("noarch");
        assert(!spec_contains("noarch"@, '-')) by {
            assert forall|i: int| 0 <= i < "noarch"@.len() implies "noarch"@[i] != '-' by {
                if i == 0 {
                } else if i == 1 {
                } else if i == 2 {
                } else if i == 3 {
                } else if i == 4 {
                } else {
                    assert(i == 5);
                }
            }
        }
        lemma_split_sepfree("noarch"@, '-');
        assert(psegs == seq!["noarch"@]);
        assert(toks.last() == "noarch"@);
        assert(spec_is_platform_str(toks.last()));
        assert(spec_extract_platform(f) == Some("noarch"@));
        assert(spec_split("noarch"@, '-')[0] == "noarch"@);
        assert(psegs[0] == "noarch"@);
    }
    assert(spec_fallback_index(f, now) is Some);
}

/// For a platform other than `noarch`, the filename ending in the
/// platform's subdirectory yields the hint whose first segment is the
/// subdirectory's first segment.
proof fn lemma_hint_hyphenated(f: Seq<char>, stem: Seq<char>, toks: Seq<Seq<char>>, p: Platform)
    requires
        !(p is NoArch),
        spec_strip_ext(f) == Some(stem),
        spec_split(stem, '-') == toks,
        toks.len() >= 2,
        toks.last() == spec_split(spec_subdir(p), '-').last(),
        spec_ends_with(stem, spec_subdir(p)),
    ensures
        spec_extract_platform(f) is Some,
        spec_split(spec_extract_platform(f).unwrap(), '-')[0] == spec_split(
            spec_subdir(p),
            '-',
        )[0],
{
    let subdir = spec_subdir(p);
    let psegs = spec_split(subdir, '-');
    lemma_split_basic(subdir, '-');
    reveal_strlit("linux-64");
    reveal_strlit("linux-32");
    reveal_strlit("linux-aarch64");
    reveal_strlit("linux-armv6l");
    reveal_strlit("linux-armv7l");
    reveal_strlit("linux-ppc64le");
    reveal_strlit("linux-s390x");
    reveal_strlit("osx-64");
    reveal_strlit("osx-arm64");
    reveal_strlit("win-32");
    reveal_strlit("win-64");
    reveal_strlit("noarch");
    reveal_strlit("linux");
    reveal_strlit("osx");
    reveal_strlit("win");
    // the last token is not a platform string
    let lastseg = psegs.last();
    assert(!spec_contains(lastseg, '-')) by {
        assert(!spec_contains(psegs[psegs.len() - 1], '-'));
    }
    assert(!spec_is_platform_str(lastseg)) by {
        if spec_is_platform_str(lastseg) {
            lemma_dashfree_platform(lastseg);
            lemma_join_ends_with_last(psegs, '-');
            assert(spec_ends_with(subdir, "noarch"@));
            assert(subdir[subdir.len() - 1] == "noarch"@[5]) by {
                assert(subdir.skip(subdir.len() - 6) == "noarch"@);
                assert(subdir.skip(subdir.len() - 6)[5] == subdir[subdir.len() - 1]);
            }
            match p {
                Platform::Linux64 => assert(subdir[7] == '4'),
                Platform::Linux32 => assert(subdir[7] == '2'),
                Platform::LinuxAarch64 => assert(subdir[12] == '4'),
                Platform::LinuxArmV6l => assert(subdir[11] == 'l'),
                Platform::LinuxArmV7l => assert(subdir[11] == 'l'),
                Platform::LinuxPpc64le => assert(subdir[12] == 'e'),
                Platform::LinuxS390X => assert(subdir[10] == 'x'),
                Platform::Osx64 => assert(subdir[5] == '4'),
                Platform::OsxArm64 => assert(subdir[8] == '4'),
                Platform::Win32 => assert(subdir[5] == '2'),
                Platform::Win64 => assert(subdir[5] == '4'),
                Platform::NoArch => assert(false),
            }
        }
    }
    assert(!spec_contains("linux"@, '-')) by {
        assert forall|i: int| 0 <= i < "linux"@.len() implies "linux"@[i] != '-' by {}
    }
    assert(!spec_contains("osx"@, '-')) by {
        assert forall|i: int| 0 <= i < "osx"@.len() implies "osx"@[i] != '-' by {}
    }
    assert(!spec_contains("win"@, '-')) by {
        assert forall|i: int| 0 <= i < "win"@.len() implies "win"@[i] != '-' by {}
    }
    lemma_split_sepfree("linux"@, '-');
    lemma_split_sepfree("osx"@, '-');
    lemma_split_sepfree("win"@, '-');
    match p {
        Platform::Linux64 | Platform::Linux32 | Platform::LinuxAarch64 | Platform::LinuxArmV6l
            | Platform::LinuxArmV7l | Platform::LinuxPpc64le | Platform::LinuxS390X => {
            assert(spec_extract_platform(f) == Some("linux"@));
            lemma_first_segment(psegs, subdir, "linux"@, 5);
        },
        Platform::Osx64 => {
            lemma_not_ends(stem, subdir, "linux-64"@, 4);
            lemma_not_ends(stem, subdir, "linux-32"@, 0);
            lemma_not_ends(stem, subdir, "linux-aarch64"@, 2);
            lemma_not_ends(stem, subdir, "linux-armv6l"@, 0);
            lemma_not_ends(stem, subdir, "linux-armv7l"@, 0);
            lemma_not_ends(stem, subdir, "linux-ppc64le"@, 0);
            lemma_not_ends(stem, subdir, "linux-s390x"@, 0);
            assert(spec_extract_platform(f) == Some("osx"@));
            lemma_first_segment(psegs, subdir, "osx"@, 3);
        },
        Platform::OsxArm64 => {
            lemma_not_ends(stem, subdir, "linux-64"@, 2);
            lemma_not_ends(stem, subdir, "linux-32"@, 0);
            lemma_not_ends(stem, subdir, "linux-aarch64"@, 2);
            lemma_not_ends(stem, subdir, "linux-armv6l"@, 0);
            lemma_not_ends(stem, subdir, "linux-armv7l"@, 0);
            lemma_not_ends(stem, subdir, "linux-ppc64le"@, 0);
            lemma_not_ends(stem, subdir, "linux-s390x"@, 0);
            assert(spec_extract_platform(f) == Some("osx"@));
            lemma_first_segment(psegs, subdir, "osx"@, 3);
        },
        Platform::Win32 => {
            lemma_not_ends(stem, subdir, "linux-64"@, 0);
            lemma_not_ends(stem, subdir, "linux-32"@, 3);
            lemma_not_ends(stem, subdir, "linux-aarch64"@, 0);
            lemma_not_ends(stem, subdir, "linux-armv6l"@, 0);
            lemma_not_ends(stem, subdir, "linux-armv7l"@, 0);
            lemma_not_ends(stem, subdir, "linux-ppc64le"@, 0);
            lemma_not_ends(stem, subdir, "linux-s390x"@, 0);
            lemma_not_ends(stem, subdir, "osx-64"@, 0);
            lemma_not_ends(stem, subdir, "osx-arm64"@, 0);
            assert(spec_extract_platform(f) == Some("win"@));
            lemma_first_segment(psegs, subdir, "win"@, 3);
        },
        Platform::Win64 => {
            lemma_not_ends(stem, subdir, "linux-64"@, 3);
            lemma_not_ends(stem, subdir, "linux-32"@, 0);
            lemma_not_ends(stem, subdir, "linux-aarch64"@, 2);
            lemma_not_ends(stem, subdir, "linux-armv6l"@, 0);
            lemma_not_ends(stem, subdir, "linux-armv7l"@, 0);
            lemma_not_ends(stem, subdir, "linux-ppc64le"@, 0);
            lemma_not_ends(stem, subdir, "linux-s390x"@, 0);
            lemma_not_ends(stem, subdir, "osx-64"@, 3);
            lemma_not_ends(stem, subdir, "osx-arm64"@, 2);
            assert(spec_extract_platform(f) == Some("win"@));
            lemma_first_segment(psegs, subdir, "win"@, 3);
        },
        _ => {
            assert(false);
        },
    }
}

} // verus!
