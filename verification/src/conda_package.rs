//! Conda package metadata: extraction, platform resolution, validation and
//! the per-platform index document.

use vstd::prelude::*;
use crate::archive::{spec_archive_view, tar_bz2_entries, tar_bz2_entries_of};
use crate::digest::{md5_hex, sha256_hex, spec_md5_hex, spec_sha256_hex};
use crate::errors::MirrorError;
use crate::json::{
    json_object_of, parse_json_object, push_json_string, push_literal, push_u64, spec_json_string,
    JsonVal, JsonValV,
};
use crate::platform::{
    spec_platform_of_hint, spec_platform_of_pair, spec_platform_of_subdir, spec_subdir, Platform,
};
use crate::strutil::{
    chars_of, contains_char, is_digit, join_char, spec_contains, spec_ends_with, spec_is_digit,
    spec_join, spec_parse_u64, spec_split, spec_u64_digits, split_char, string_of, subvec,
    parse_u64_chars, vec_ends_with_str, vec_eq_str, views_of,
};

verus! {

broadcast use vstd::string::group_string_axioms;

/// Package metadata, as read from a manifest or recovered from a filename.
#[derive(Clone, Debug)]
pub struct SimpleIndexJson {
    pub name: String,
    pub version: String,
    pub build: String,
    pub build_number: u64,
    pub depends: Vec<String>,
    pub license: Option<String>,
    pub platform: Option<String>,
    pub subdir: Option<String>,
    pub arch: Option<String>,
    /// Milliseconds since the epoch.
    pub timestamp: Option<u64>,
}

/// Specification-level image of `SimpleIndexJson`.
pub ghost struct IndexView {
    pub name: Seq<char>,
    pub version: Seq<char>,
    pub build: Seq<char>,
    pub build_number: u64,
    pub depends: Seq<Seq<char>>,
    pub license: Option<Seq<char>>,
    pub platform: Option<Seq<char>>,
    pub subdir: Option<Seq<char>>,
    pub arch: Option<Seq<char>>,
    pub timestamp: Option<u64>,
}

pub open spec fn spec_opt_view(o: Option<String>) -> Option<Seq<char>> {
    match o {
        Some(s) => Some(s@),
        None => None,
    }
}

impl View for SimpleIndexJson {
    type V = IndexView;

    open spec fn view(&self) -> IndexView {
        IndexView {
            name: self.name@,
            version: self.version@,
            build: self.build@,
            build_number: self.build_number,
            depends: self.depends.deep_view(),
            license: spec_opt_view(self.license),
            platform: spec_opt_view(self.platform),
            subdir: spec_opt_view(self.subdir),
            arch: spec_opt_view(self.arch),
            timestamp: self.timestamp,
        }
    }
}

/// The metadata used when nothing can be recovered: name `unknown`,
/// version `0.0.0`, and the given processing time.
pub open spec fn spec_default_index(now: u64) -> IndexView {
    IndexView {
        name: "unknown"@,
        version: "0.0.0"@,
        build: "unknown"@,
        build_number: 0,
        depends: Seq::<Seq<char>>::empty(),
        license: None,
        platform: None,
        subdir: None,
        arch: None,
        timestamp: Some(now),
    }
}

impl Default for SimpleIndexJson {
    /// The placeholder metadata, with a timestamp of zero; callers that know
    /// the processing time set it afterwards.
    fn default() -> (r: Self)
        ensures
            r@ == spec_default_index(0),
    {
        let r = SimpleIndexJson {
            name: "unknown".to_owned(),
            version: "0.0.0".to_owned(),
            build: "unknown".to_owned(),
            build_number: 0,
            depends: Vec::new(),
            license: None,
            platform: None,
            subdir: None,
            arch: None,
            timestamp: Some(0),
        };
        proof {
            assert(r@.depends =~= spec_default_index(0).depends);
        }
        r
    }
}

impl SimpleIndexJson {
    /// A field-by-field copy whose view equals this one's.
    pub fn duplicate(&self) -> (r: Self)
        ensures
            r@ == self@,
    {
        let depends = self.depends.clone();
        proof {
            assert(depends@ =~= self.depends@);
            assert(depends.deep_view() =~= self.depends.deep_view());
        }
        let r = SimpleIndexJson {
            name: self.name.clone(),
            version: self.version.clone(),
            build: self.build.clone(),
            build_number: self.build_number,
            depends,
            license: match &self.license {
                Some(s) => Some(s.clone()),
                None => None,
            },
            platform: match &self.platform {
                Some(s) => Some(s.clone()),
                None => None,
            },
            subdir: match &self.subdir {
                Some(s) => Some(s.clone()),
                None => None,
            },
            arch: match &self.arch {
                Some(s) => Some(s.clone()),
                None => None,
            },
            timestamp: self.timestamp,
        };
        r
    }
}

/// A package that went through the processor: its bytes, recovered
/// metadata, resolved platform and checksums.
#[derive(Clone, Debug)]
pub struct ProcessedPackage {
    pub content: Vec<u8>,
    pub metadata: SimpleIndexJson,
    pub filename: String,
    pub platform: Platform,
    pub size: u64,
    pub md5: String,
    pub sha256: String,
}

/// Specification-level image of `ProcessedPackage`.
pub ghost struct ProcessedView {
    pub content: Seq<u8>,
    pub metadata: IndexView,
    pub filename: Seq<char>,
    pub platform: Platform,
    pub size: u64,
    pub md5: Seq<char>,
    pub sha256: Seq<char>,
}

impl View for ProcessedPackage {
    type V = ProcessedView;

    open spec fn view(&self) -> ProcessedView {
        ProcessedView {
            content: self.content@,
            metadata: self.metadata@,
            filename: self.filename@,
            platform: self.platform,
            size: self.size,
            md5: self.md5@,
            sha256: self.sha256@,
        }
    }
}

impl ProcessedPackage {
    /// A field-by-field copy whose view equals this one's.
    pub fn duplicate(&self) -> (r: Self)
        ensures
            r@ == self@,
    {
        let content = self.content.clone();
        proof {
            assert(content@ =~= self.content@);
        }
        ProcessedPackage {
            content,
            metadata: self.metadata.duplicate(),
            filename: self.filename.clone(),
            platform: self.platform,
            size: self.size,
            md5: self.md5.clone(),
            sha256: self.sha256.clone(),
        }
    }
}

/// Whether a filename has one of the two conda package extensions.
pub open spec fn spec_is_conda(f: Seq<char>) -> bool {
    spec_ends_with(f, ".conda"@) || spec_ends_with(f, ".tar.bz2"@)
}

/// `f` with its conda extension removed: `.conda` first, then `.tar.bz2`.
pub open spec fn spec_strip_ext(f: Seq<char>) -> Option<Seq<char>> {
    if spec_ends_with(f, ".conda"@) {
        Some(f.take(f.len() - ".conda"@.len()))
    } else if spec_ends_with(f, ".tar.bz2"@) {
        Some(f.take(f.len() - ".tar.bz2"@.len()))
    } else {
        None
    }
}

/// The name-guessing table: known Linux binary tools resolve to `linux-64`;
/// every other name, including the `rb-`/`python-`/`nodejs-` language
/// prefixes, falls to `noarch`.
pub open spec fn spec_is_linux_tool(n: Seq<char>) -> bool {
    ||| n == "coreos-installer"@
    ||| n == "okd-install"@
    ||| n == "openshift-installer"@
    ||| n == "docker"@
    ||| n == "podman"@
    ||| n == "containerd"@
    ||| n == "runc"@
    ||| n == "skopeo"@
    ||| n == "buildah"@
    ||| n == "cni-plugins"@
    ||| n == "flannel"@
    ||| n == "calico"@
    ||| n == "weave"@
    ||| n == "kubectl"@
    ||| n == "helm"@
    ||| n == "oc"@
    ||| n == "kind"@
    ||| n == "minikube"@
    ||| n == "k9s"@
    ||| n == "kubectx"@
    ||| n == "kubens"@
    ||| n == "systemd"@
    ||| n == "dbus"@
    ||| n == "udev"@
    ||| n == "polkit"@
    ||| n == "rpm"@
    ||| n == "dpkg"@
    ||| n == "apt"@
    ||| n == "yum"@
    ||| n == "dnf"@
    ||| n == "zypper"@
    ||| n == "qemu"@
    ||| n == "kvm"@
    ||| n == "libvirt"@
    ||| n == "virt-manager"@
}

/// Platform guessed from a package name alone.
pub open spec fn spec_guess_platform(n: Seq<char>) -> Platform {
    if spec_is_linux_tool(n) {
        Platform::Linux64
    } else {
        Platform::NoArch
    }
}

/// The resolution cascade: exact subdir match, then the platform + arch
/// table, then a bare platform hint, then the name-guessing table, and
/// `noarch` last.
pub open spec fn spec_resolve(m: IndexView) -> Platform {
    if m.subdir is Some && spec_platform_of_subdir(m.subdir.unwrap()) is Some {
        spec_platform_of_subdir(m.subdir.unwrap()).unwrap()
    } else if m.platform is Some && m.arch is Some && spec_platform_of_pair(
        m.platform.unwrap(),
        m.arch.unwrap(),
    ) is Some {
        spec_platform_of_pair(m.platform.unwrap(), m.arch.unwrap()).unwrap()
    } else if m.platform is Some && spec_platform_of_hint(m.platform.unwrap()) is Some {
        spec_platform_of_hint(m.platform.unwrap()).unwrap()
    } else {
        spec_guess_platform(m.name)
    }
}

/// A token looks like a version if it starts with a digit or contains a dot.
pub open spec fn spec_version_like(t: Seq<char>) -> bool {
    (t.len() > 0 && spec_is_digit(t[0])) || spec_contains(t, '.')
}

/// First index at or after `i` whose token looks like a version.
pub open spec fn spec_find_version_from(parts: Seq<Seq<char>>, i: int) -> Option<int>
    decreases parts.len() - i,
{
    if i < 0 || i >= parts.len() {
        None
    } else if spec_version_like(parts[i]) {
        Some(i)
    } else {
        spec_find_version_from(parts, i + 1)
    }
}

/// Index of the version token: the first version-like token after the
/// first, or 1 when none is found.
pub open spec fn spec_version_idx(parts: Seq<Seq<char>>) -> int {
    match spec_find_version_from(parts, 1) {
        Some(i) => i,
        None => 1,
    }
}

/// The package name recovered from filename tokens: everything before the
/// version token, joined with dashes.
pub open spec fn spec_nv_name(parts: Seq<Seq<char>>) -> Seq<char> {
    spec_join(parts.take(spec_version_idx(parts)), '-')
}

/// The version recovered from filename tokens.
pub open spec fn spec_nv_version(parts: Seq<Seq<char>>) -> Seq<char> {
    if spec_version_idx(parts) < parts.len() {
        parts[spec_version_idx(parts)]
    } else {
        "0"@
    }
}

/// The tokens after the version token.
pub open spec fn spec_nv_rest(parts: Seq<Seq<char>>) -> Seq<Seq<char>> {
    if spec_version_idx(parts) + 1 <= parts.len() {
        parts.skip(spec_version_idx(parts) + 1)
    } else {
        Seq::<Seq<char>>::empty()
    }
}

/// Whether `s` is a canonical platform string, at token level.
pub open spec fn spec_is_platform_tok(s: Seq<char>) -> bool {
    spec_platform_of_subdir(s) is Some
}

/// First index at or after `i` where a platform string starts in `rem`,
/// either as one token or as two tokens joined by a dash; `rem.len()` if
/// none does.
pub open spec fn spec_platform_scan(rem: Seq<Seq<char>>, i: int) -> int
    decreases rem.len() - i,
{
    if i < 0 || i >= rem.len() {
        rem.len() as int
    } else if spec_is_platform_tok(rem[i]) {
        i
    } else if i + 1 < rem.len() && spec_is_platform_tok(rem[i] + seq!['-'] + rem[i + 1]) {
        i
    } else {
        spec_platform_scan(rem, i + 1)
    }
}

/// The build string: the tokens before the platform, joined with dashes,
/// or `0` when there are none.
pub open spec fn spec_build_of(rem: Seq<Seq<char>>) -> Seq<char> {
    let cut = spec_platform_scan(rem, 0);
    if cut == 0 {
        "0"@
    } else {
        spec_join(rem.take(cut), '-')
    }
}

/// The build number: the integer after the last underscore of the build
/// string, or 0 when that is absent or does not parse.
pub open spec fn spec_build_number(build: Seq<char>) -> u64 {
    match spec_parse_u64(spec_split(build, '_').last()) {
        Some(v) => v,
        None => 0,
    }
}

/// The platform hint recovered from a filename: the token after the last
/// dash when it is a canonical platform string, else the first segment of
/// any canonical platform string the stem ends with.
pub open spec fn spec_extract_platform(f: Seq<char>) -> Option<Seq<char>> {
    match spec_strip_ext(f) {
        None => None,
        Some(stem) => {
            let parts = spec_split(stem, '-');
            if parts.len() >= 2 && spec_is_platform_tok(parts.last()) {
                Some(parts.last())
            } else if spec_ends_with(stem, "linux-64"@) || spec_ends_with(stem, "linux-32"@)
                || spec_ends_with(stem, "linux-aarch64"@) || spec_ends_with(stem, "linux-armv6l"@)
                || spec_ends_with(stem, "linux-armv7l"@) || spec_ends_with(stem, "linux-ppc64le"@)
                || spec_ends_with(stem, "linux-s390x"@) {
                Some("linux"@)
            } else if spec_ends_with(stem, "osx-64"@) || spec_ends_with(stem, "osx-arm64"@) {
                Some("osx"@)
            } else if spec_ends_with(stem, "win-32"@) || spec_ends_with(stem, "win-64"@) {
                Some("win"@)
            } else if spec_ends_with(stem, "noarch"@) {
                Some("noarch"@)
            } else {
                None
            }
        },
    }
}

/// The metadata recovered from a filename alone: `None` only when the
/// extension is not a conda extension; a malformed stem falls back to the
/// placeholder metadata.
pub open spec fn spec_fallback_index(f: Seq<char>, now: u64) -> Option<IndexView> {
    match spec_strip_ext(f) {
        None => None,
        Some(stem) => {
            let parts = spec_split(stem, '-');
            if parts.len() < 2 {
                Some(spec_default_index(now))
            } else {
                let build = spec_build_of(spec_nv_rest(parts));
                Some(
                    IndexView {
                        name: spec_nv_name(parts),
                        version: spec_nv_version(parts),
                        build: build,
                        build_number: spec_build_number(build),
                        depends: Seq::<Seq<char>>::empty(),
                        license: None,
                        platform: spec_extract_platform(f),
                        subdir: None,
                        arch: None,
                        timestamp: Some(now),
                    },
                )
            }
        },
    }
}

/// Strip a conda extension from `v`.
fn strip_ext_chars(v: &Vec<char>) -> (r: Option<Vec<char>>)
    ensures
        match r {
            Some(s) => spec_strip_ext(v@) == Some(s@),
            None => spec_strip_ext(v@) is None,
        },
{
    proof {
        reveal_strlit(".conda");
        reveal_strlit(".tar.bz2");
    }
    if vec_ends_with_str(v, ".conda") {
        let s = subvec(v, 0, v.len() - 6);
        proof {
            assert(s@ =~= v@.take(v@.len() - ".conda"@.len()));
        }
        Some(s)
    } else if vec_ends_with_str(v, ".tar.bz2") {
        let s = subvec(v, 0, v.len() - 8);
        proof {
            assert(s@ =~= v@.take(v@.len() - ".tar.bz2"@.len()));
        }
        Some(s)
    } else {
        None
    }
}

/// Copy of `v[from..to]`, token vectors cloned.
fn subparts(v: &Vec<Vec<char>>, from: usize, to: usize) -> (r: Vec<Vec<char>>)
    requires
        from <= to <= v@.len(),
    ensures
        views_of(r@) == views_of(v@).subrange(from as int, to as int),
{
    let mut r: Vec<Vec<char>> = Vec::new();
    let mut i: usize = from;
    while i < to
        invariant
            from <= i <= to <= v@.len(),
            r@.len() == i - from,
            views_of(r@) == views_of(v@).subrange(from as int, i as int),
        decreases to - i,
    {
        let c = v[i].clone();
        proof {
            assert(c@ =~= v@[i as int]@);
        }
        r.push(c);
        i += 1;
        proof {
            assert(views_of(r@) =~= views_of(v@).subrange(from as int, i as int));
        }
    }
    proof {
        assert(views_of(r@) =~= views_of(v@).subrange(from as int, i as int));
    }
    r
}

/// `a`, a dash, then `b`.
fn concat_with_dash(a: &Vec<char>, b: &Vec<char>) -> (r: Vec<char>)
    ensures
        r@ == a@ + seq!['-'] + b@,
{
    let mut r = a.clone();
    proof {
        assert(r@ =~= a@);
    }
    r.push('-');
    let mut i: usize = 0;
    while i < b.len()
        invariant
            i <= b@.len(),
            r@ == a@ + seq!['-'] + b@.take(i as int),
        decreases b@.len() - i,
    {
        r.push(b[i]);
        i += 1;
        proof {
            assert(r@ =~= a@ + seq!['-'] + b@.take(i as int));
        }
    }
    proof {
        assert(b@.take(b@.len() as int) =~= b@);
    }
    r
}

/// Whether a platform string starts at token `i`, either as the token
/// itself or as this token and the next joined by a dash.
fn platform_starts_at(rest: &Vec<Vec<char>>, i: usize) -> (r: bool)
    requires
        i < rest@.len(),
    ensures
        r == (spec_is_platform_tok(views_of(rest@)[i as int]) || (i + 1 < rest@.len()
            && spec_is_platform_tok(
            views_of(rest@)[i as int] + seq!['-'] + views_of(rest@)[i + 1],
        ))),
{
    if Platform::from_subdir_chars(&rest[i]).is_some() {
        return true;
    }
    let n = rest.len();
    if i < n - 1 {
        let joined = concat_with_dash(&rest[i], &rest[i + 1]);
        return Platform::from_subdir_chars(&joined).is_some();
    }
    false
}

fn version_like(t: &Vec<char>) -> (r: bool)
    ensures
        r == spec_version_like(t@),
{
    (t.len() > 0 && is_digit(t[0])) || contains_char(t, '.')
}

/// Split filename tokens into name tokens, version token and the rest.
fn name_version_split(parts: &Vec<Vec<char>>) -> (r: (Vec<char>, Vec<char>, Vec<Vec<char>>))
    requires
        parts@.len() >= 1,
    ensures
        r.0@ == spec_nv_name(views_of(parts@)),
        r.1@ == spec_nv_version(views_of(parts@)),
        views_of(r.2@) == spec_nv_rest(views_of(parts@)),
{
    let ghost vs = views_of(parts@);
    let mut idx: usize = 1;
    let mut found: bool = false;
    while idx < parts.len() && !found
        invariant
            1 <= idx <= vs.len() || (vs.len() == 1 && idx == 1),
            vs == views_of(parts@),
            vs.len() >= 1,
            idx <= vs.len() || idx == 1,
            !found ==> spec_find_version_from(vs, 1) == spec_find_version_from(vs, idx as int),
            found ==> spec_find_version_from(vs, 1) == Some(idx as int) && idx < vs.len(),
        decreases vs.len() - idx + (if found { 0int } else { 1int }),
    {
        if version_like(&parts[idx]) {
            found = true;
        } else {
            idx += 1;
        }
    }
    let ghost sidx = spec_version_idx(vs);
    proof {
        if found {
            assert(sidx == idx as int);
        } else {
            assert(spec_find_version_from(vs, idx as int) is None);
            assert(sidx == 1);
        }
    }
    let vidx: usize = if found {
        idx
    } else {
        1
    };
    proof {
        assert(vidx as int == sidx);
        assert(1 <= sidx <= vs.len());
    }
    let name_parts = subparts(parts, 0, vidx);
    proof {
        assert(views_of(name_parts@) =~= vs.take(sidx));
    }
    let name = join_char(&name_parts, '-');
    let version: Vec<char> = if vidx < parts.len() {
        let v = parts[vidx].clone();
        proof {
            assert(v@ =~= vs[sidx]);
        }
        v
    } else {
        let v = chars_of("0");
        v
    };
    let rest: Vec<Vec<char>> = if vidx + 1 <= parts.len() {
        let r = subparts(parts, vidx + 1, parts.len());
        proof {
            assert(views_of(r@) =~= vs.skip(sidx + 1));
        }
        r
    } else {
        Vec::new()
    };
    proof {
        if vidx + 1 > parts@.len() {
            assert(views_of(rest@) =~= spec_nv_rest(vs));
        }
    }
    (name, version, rest)
}

/// The value of the first entry with the given key, if any.
pub open spec fn spec_field_lookup(entries: Seq<(Seq<char>, JsonValV)>, key: Seq<char>) -> Option<
    JsonValV,
>
    decreases entries.len(),
{
    if entries.len() == 0 {
        None
    } else if entries[0].0 == key {
        Some(entries[0].1)
    } else {
        spec_field_lookup(entries.skip(1), key)
    }
}

/// A string-valued field.
pub open spec fn spec_str_field(entries: Seq<(Seq<char>, JsonValV)>, key: Seq<char>) -> Option<
    Seq<char>,
> {
    match spec_field_lookup(entries, key) {
        Some(JsonValV::Str(s)) => Some(s),
        _ => None,
    }
}

/// An unsigned-number field.
pub open spec fn spec_num_field(entries: Seq<(Seq<char>, JsonValV)>, key: Seq<char>) -> Option<
    u64,
> {
    match spec_field_lookup(entries, key) {
        Some(JsonValV::Num(n)) => n,
        _ => None,
    }
}

/// The present strings of `l`, in order.
pub open spec fn spec_somes(l: Seq<Option<Seq<char>>>) -> Seq<Seq<char>>
    decreases l.len(),
{
    if l.len() == 0 {
        Seq::<Seq<char>>::empty()
    } else {
        let rest = spec_somes(l.drop_last());
        match l.last() {
            Some(s) => rest.push(s),
            None => rest,
        }
    }
}

/// The `depends` field: the string elements of its array, or empty.
pub open spec fn spec_deps_field(entries: Seq<(Seq<char>, JsonValV)>) -> Seq<Seq<char>> {
    match spec_field_lookup(entries, "depends"@) {
        Some(JsonValV::StrList(l)) => spec_somes(l),
        _ => Seq::<Seq<char>>::empty(),
    }
}

/// The metadata read from the fields of a manifest object: absent or
/// mistyped fields fall back to `unknown`/`0.0.0`/`0`, and a missing
/// timestamp defaults to the processing time.
pub open spec fn spec_index_of_fields(entries: Seq<(Seq<char>, JsonValV)>, now: u64) -> IndexView {
    IndexView {
        name: match spec_str_field(entries, "name"@) {
            Some(s) => s,
            None => "unknown"@,
        },
        version: match spec_str_field(entries, "version"@) {
            Some(s) => s,
            None => "0.0.0"@,
        },
        build: match spec_str_field(entries, "build"@) {
            Some(s) => s,
            None => "0"@,
        },
        build_number: match spec_num_field(entries, "build_number"@) {
            Some(n) => n,
            None => 0,
        },
        depends: spec_deps_field(entries),
        license: spec_str_field(entries, "license"@),
        platform: spec_str_field(entries, "platform"@),
        subdir: spec_str_field(entries, "subdir"@),
        arch: spec_str_field(entries, "arch"@),
        timestamp: match spec_num_field(entries, "timestamp"@) {
            Some(t) => Some(t),
            None => Some(now),
        },
    }
}

/// The bytes of the first archive entry at the given path, if any.
pub open spec fn spec_find_entry(entries: Seq<(Seq<char>, Seq<u8>)>, path: Seq<char>) -> Option<
    Seq<u8>,
>
    decreases entries.len(),
{
    if entries.len() == 0 {
        None
    } else if entries[0].0 == path {
        Some(entries[0].1)
    } else {
        spec_find_entry(entries.skip(1), path)
    }
}

/// The metadata of a legacy `.tar.bz2` package: decode the archive, find
/// `info/index.json`, parse it as a JSON object and read its fields.
pub open spec fn spec_legacy_index(content: Seq<u8>, now: u64) -> Option<IndexView> {
    match tar_bz2_entries_of(content) {
        None => None,
        Some(entries) => match spec_find_entry(entries, "info/index.json"@) {
            None => None,
            Some(data) => match json_object_of(data) {
                None => None,
                Some(fields) => Some(spec_index_of_fields(fields, now)),
            },
        },
    }
}

/// The metadata the processor ends up with: the manifest of a legacy
/// archive when it can be read, else the filename fallback.  The `.conda`
/// format's inner zstd tarball is not decoded, so that format always takes
/// the fallback.
pub open spec fn spec_extract_metadata(content: Seq<u8>, f: Seq<char>, now: u64) -> Option<
    IndexView,
> {
    if spec_ends_with(f, ".tar.bz2"@) && spec_legacy_index(content, now) is Some {
        spec_legacy_index(content, now)
    } else {
        spec_fallback_index(f, now)
    }
}

/// The processed package built from content and filename alone.
pub open spec fn spec_process(content: Seq<u8>, f: Seq<char>, now: u64) -> ProcessedView {
    let m = spec_extract_metadata(content, f, now).unwrap();
    ProcessedView {
        content: content,
        metadata: m,
        filename: f,
        platform: spec_resolve(m),
        size: content.len() as u64,
        md5: spec_md5_hex(content),
        sha256: spec_sha256_hex(content),
    }
}

/// The first cached package with the given filename, if any.
pub open spec fn spec_cache_find(cache: Seq<ProcessedView>, name: Seq<char>) -> Option<
    ProcessedView,
>
    decreases cache.len(),
{
    if cache.len() == 0 {
        None
    } else if cache[0].filename == name {
        Some(cache[0])
    } else {
        spec_cache_find(cache.skip(1), name)
    }
}

/// The cache after storing `p`: the entry with `p`'s filename is replaced
/// in place, or `p` is appended.
pub open spec fn spec_cache_insert(cache: Seq<ProcessedView>, p: ProcessedView) -> Seq<
    ProcessedView,
>
    decreases cache.len(),
{
    if cache.len() == 0 {
        seq![p]
    } else if cache[0].filename == p.filename {
        seq![p] + cache.skip(1)
    } else {
        seq![cache[0]] + spec_cache_insert(cache.skip(1), p)
    }
}

proof fn lemma_cache_insert_update(cache: Seq<ProcessedView>, p: ProcessedView, k: int)
    requires
        0 <= k < cache.len(),
        cache[k].filename == p.filename,
        forall|j: int| 0 <= j < k ==> cache[j].filename != p.filename,
    ensures
        spec_cache_insert(cache, p) == cache.update(k, p),
    decreases k,
{
    if k == 0 {
        assert(spec_cache_insert(cache, p) =~= cache.update(0, p));
    } else {
        assert(cache.skip(1)[k - 1] == cache[k]);
        assert forall|j: int| 0 <= j < k - 1 implies cache.skip(1)[j].filename != p.filename by {
            assert(cache.skip(1)[j] == cache[j + 1]);
        }
        lemma_cache_insert_update(cache.skip(1), p, k - 1);
        assert(spec_cache_insert(cache, p) =~= cache.update(k, p));
    }
}

proof fn lemma_cache_insert_push(cache: Seq<ProcessedView>, p: ProcessedView)
    requires
        forall|j: int| 0 <= j < cache.len() ==> cache[j].filename != p.filename,
    ensures
        spec_cache_insert(cache, p) == cache.push(p),
    decreases cache.len(),
{
    if cache.len() == 0 {
        assert(spec_cache_insert(cache, p) =~= cache.push(p));
    } else {
        assert forall|j: int|
            0 <= j < cache.skip(1).len() implies cache.skip(1)[j].filename != p.filename by {
            assert(cache.skip(1)[j] == cache[j + 1]);
        }
        lemma_cache_insert_push(cache.skip(1), p);
        assert(spec_cache_insert(cache, p) =~= cache.push(p));
    }
}

/// View of a vector of processed packages.
pub open spec fn spec_pkgs_view(s: Seq<ProcessedPackage>) -> Seq<ProcessedView> {
    s.map_values(|p: ProcessedPackage| p@)
}

/// The distinct platforms of the cached packages, in order of first
/// appearance, appended to `acc`.
pub open spec fn spec_platform_list(cache: Seq<ProcessedView>, acc: Seq<Platform>) -> Seq<Platform>
    decreases cache.len(),
{
    if cache.len() == 0 {
        acc
    } else {
        let p = cache[0].platform;
        spec_platform_list(
            cache.skip(1),
            if acc.contains(p) {
                acc
            } else {
                acc.push(p)
            },
        )
    }
}

/// The cached packages of one platform, in cache order.
pub open spec fn spec_platform_group(cache: Seq<ProcessedView>, p: Platform) -> Seq<
    ProcessedView,
> {
    cache.filter(|x: ProcessedView| x.platform == p)
}

/// The number of cached packages of one platform.
pub open spec fn spec_count_platform(cache: Seq<ProcessedView>, p: Platform) -> int {
    spec_platform_group(cache, p).len() as int
}

/// Total size of the cached packages, added with saturation at `u64::MAX`.
pub open spec fn spec_size_fold(cache: Seq<ProcessedView>) -> u64
    decreases cache.len(),
{
    if cache.len() == 0 {
        0
    } else {
        let a = spec_size_fold(cache.drop_last());
        if a + cache.last().size > u64::MAX {
            u64::MAX
        } else {
            (a + cache.last().size) as u64
        }
    }
}

/// Statistics over the processed packages.
#[derive(Debug)]
pub struct PackageStats {
    pub total_packages: usize,
    pub total_size: u64,
    pub packages_by_platform: Vec<(Platform, usize)>,
}

impl Default for PackageStats {
    /// Empty statistics.
    fn default() -> (r: Self)
        ensures
            r.total_packages == 0,
            r.total_size == 0,
            r.packages_by_platform@ == Seq::<(Platform, usize)>::empty(),
    {
        let r = PackageStats { total_packages: 0, total_size: 0, packages_by_platform: Vec::new() };
        proof {
            assert(r.packages_by_platform@ =~= Seq::<(Platform, usize)>::empty());
        }
        r
    }
}

/// Whether a package passes validation: nonempty filename, name, version
/// and content, and checksums that match its bytes.
pub open spec fn spec_validation_ok(p: ProcessedView) -> bool {
    &&& p.filename.len() > 0
    &&& p.metadata.name.len() > 0
    &&& p.metadata.version.len() > 0
    &&& p.content.len() > 0
    &&& p.md5 == spec_md5_hex(p.content)
    &&& p.sha256 == spec_sha256_hex(p.content)
}

fn contains_platform(v: &Vec<Platform>, p: Platform) -> (r: bool)
    ensures
        r == v@.contains(p),
{
    let mut i: usize = 0;
    while i < v.len()
        invariant
            i <= v@.len(),
            forall|j: int| 0 <= j < i ==> v@[j] != p,
        decreases v@.len() - i,
    {
        if v[i] == p {
            return true;
        }
        i += 1;
    }
    false
}

/// A JSON number or `null`.
pub open spec fn spec_json_opt_u64(t: Option<u64>) -> Seq<char> {
    match t {
        Some(v) => spec_u64_digits(v as nat),
        None => "null"@,
    }
}

/// The license text written to the index: the license, or empty.
pub open spec fn spec_license_text(l: Option<Seq<char>>) -> Seq<char> {
    match l {
        Some(s) => s,
        None => Seq::<char>::empty(),
    }
}

/// The comma-separated JSON strings of the dependency array.
pub open spec fn spec_deps_items(deps: Seq<Seq<char>>) -> Seq<char>
    decreases deps.len(),
{
    if deps.len() == 0 {
        Seq::<char>::empty()
    } else if deps.len() == 1 {
        spec_json_string(deps[0])
    } else {
        spec_deps_items(deps.drop_last()) + seq![','] + spec_json_string(deps.last())
    }
}

/// One package record of `repodata.json`.
pub open spec fn spec_record(p: ProcessedView, subdir: Seq<char>) -> Seq<char> {
    "{\"build\":"@ + spec_json_string(p.metadata.build) + ",\"build_number\":"@ + spec_u64_digits(
        p.metadata.build_number as nat,
    ) + ",\"depends\":["@ + spec_deps_items(p.metadata.depends) + "],\"license\":"@
        + spec_json_string(spec_license_text(p.metadata.license)) + ",\"md5\":"@ + spec_json_string(
        p.md5,
    ) + ",\"sha256\":"@ + spec_json_string(p.sha256) + ",\"size\":"@ + spec_u64_digits(
        p.size as nat,
    ) + ",\"subdir\":"@ + spec_json_string(subdir) + ",\"name\":"@ + spec_json_string(
        p.metadata.name,
    ) + ",\"version\":"@ + spec_json_string(p.metadata.version) + ",\"timestamp\":"@
        + spec_json_opt_u64(p.metadata.timestamp) + "}"@
}

/// The entries of the `packages` object, keyed by filename, in input
/// order.
pub open spec fn spec_entries_text(packages: Seq<ProcessedView>, subdir: Seq<char>) -> Seq<char>
    decreases packages.len(),
{
    if packages.len() == 0 {
        Seq::<char>::empty()
    } else if packages.len() == 1 {
        spec_json_string(packages[0].filename) + seq![':'] + spec_record(packages[0], subdir)
    } else {
        spec_entries_text(packages.drop_last(), subdir) + seq![','] + spec_json_string(
            packages.last().filename,
        ) + seq![':'] + spec_record(packages.last(), subdir)
    }
}

/// The whole `repodata.json` document for one platform.
pub open spec fn spec_repodata_json(platform: Platform, packages: Seq<ProcessedView>) -> Seq<
    char,
> {
    "{\"info\":{\"subdir\":"@ + spec_json_string(spec_subdir(platform)) + "},\"packages\":{"@
        + spec_entries_text(packages, spec_subdir(platform)) + "}}"@
}

/// Append one package record to `out`.
#[verifier::rlimit(100)]
fn push_record(out: &mut Vec<char>, p: &ProcessedPackage, subdir: &str)
    ensures
        final(out)@ == old(out)@ + spec_record(p@, subdir@),
{
    let ghost pre = out@;
    push_literal(out, "{\"build\":");
    push_json_string(out, p.metadata.build.as_str());
    push_literal(out, ",\"build_number\":");
    push_u64(out, p.metadata.build_number);
    push_literal(out, ",\"depends\":[");
    let ghost deps = p.metadata.depends.deep_view();
    let ghost mid = out@;
    let mut i: usize = 0;
    proof {
        assert(deps.take(0).len() == 0);
        assert(out@ =~= mid + spec_deps_items(deps.take(0)));
    }
    while i < p.metadata.depends.len()
        invariant
            i <= deps.len(),
            deps == p.metadata.depends.deep_view(),
            out@ == mid + spec_deps_items(deps.take(i as int)),
        decreases deps.len() - i,
    {
        if i > 0 {
            out.push(',');
        }
        push_json_string(out, p.metadata.depends[i].as_str());
        i += 1;
        proof {
            assert(deps.take(i as int).drop_last() =~= deps.take(i - 1));
            assert(deps.take(i as int).last() == deps[i - 1]);
            assert(out@ =~= mid + spec_deps_items(deps.take(i as int)));
        }
    }
    proof {
        assert(deps.take(deps.len() as int) =~= deps);
    }
    push_literal(out, "],\"license\":");
    match &p.metadata.license {
        Some(l) => {
            push_json_string(out, l.as_str());
        },
        None => {
            push_json_string(out, "");
            proof {
                reveal_strlit("");
                assert(""@ =~= Seq::<char>::empty());
            }
        },
    }
    push_literal(out, ",\"md5\":");
    push_json_string(out, p.md5.as_str());
    push_literal(out, ",\"sha256\":");
    push_json_string(out, p.sha256.as_str());
    push_literal(out, ",\"size\":");
    push_u64(out, p.size);
    push_literal(out, ",\"subdir\":");
    push_json_string(out, subdir);
    push_literal(out, ",\"name\":");
    push_json_string(out, p.metadata.name.as_str());
    push_literal(out, ",\"version\":");
    push_json_string(out, p.metadata.version.as_str());
    push_literal(out, ",\"timestamp\":");
    match p.metadata.timestamp {
        Some(t) => {
            push_u64(out, t);
        },
        None => {
            push_literal(out, "null");
        },
    }
    push_literal(out, "}");
    proof {
        assert(out@ =~= pre + spec_record(p@, subdir@));
    }
}

/// Look a manifest field up by key.
fn field_lookup<'a>(fields: &'a Vec<(String, JsonVal)>, key: &str) -> (r: Option<&'a JsonVal>)
    ensures
        match r {
            Some(v) => spec_field_lookup(crate::json::spec_entries_view(fields@), key@) == Some(
                v@,
            ),
            None => spec_field_lookup(crate::json::spec_entries_view(fields@), key@) is None,
        },
{
    let ghost evs = crate::json::spec_entries_view(fields@);
    let mut i: usize = 0;
    proof {
        assert(evs.skip(0) =~= evs);
    }
    while i < fields.len()
        invariant
            i <= evs.len(),
            evs == crate::json::spec_entries_view(fields@),
            spec_field_lookup(evs, key@) == spec_field_lookup(evs.skip(i as int), key@),
        decreases evs.len() - i,
    {
        proof {
            assert(evs.skip(i as int)[0] == evs[i as int]);
        }
        let name_chars = chars_of(fields[i].0.as_str());
        if vec_eq_str(&name_chars, key) {
            return Some(&fields[i].1);
        }
        proof {
            assert(evs.skip(i as int).skip(1) =~= evs.skip(i + 1));
        }
        i += 1;
    }
    proof {
        assert(evs.skip(evs.len() as int).len() == 0);
    }
    None
}

/// A string-valued manifest field.
fn str_field(fields: &Vec<(String, JsonVal)>, key: &str) -> (r: Option<String>)
    ensures
        spec_opt_view(r) == spec_str_field(crate::json::spec_entries_view(fields@), key@),
{
    match field_lookup(fields, key) {
        Some(JsonVal::Str(s)) => Some(s.clone()),
        _ => None,
    }
}

/// An unsigned-number manifest field.
fn num_field(fields: &Vec<(String, JsonVal)>, key: &str) -> (r: Option<u64>)
    ensures
        r == spec_num_field(crate::json::spec_entries_view(fields@), key@),
{
    match field_lookup(fields, key) {
        Some(JsonVal::Num(n)) => *n,
        _ => None,
    }
}

/// The present strings of `l`, in order.
fn collect_somes(l: &Vec<Option<String>>) -> (r: Vec<String>)
    ensures
        r.deep_view() == spec_somes(l.deep_view()),
{
    let mut r: Vec<String> = Vec::new();
    let mut i: usize = 0;
    while i < l.len()
        invariant
            i <= l@.len(),
            r.deep_view() == spec_somes(l.deep_view().take(i as int)),
        decreases l@.len() - i,
    {
        match &l[i] {
            Some(s) => {
                r.push(s.clone());
            },
            None => {},
        }
        i += 1;
        proof {
            assert(l.deep_view().take(i as int).drop_last() =~= l.deep_view().take(i - 1));
            assert(l.deep_view().take(i as int).last() == l.deep_view()[i - 1]);
            assert(r.deep_view() =~= spec_somes(l.deep_view().take(i as int)));
        }
    }
    proof {
        assert(l.deep_view().take(l.deep_view().len() as int) =~= l.deep_view());
    }
    r
}

/// The `depends` manifest field.
fn deps_field(fields: &Vec<(String, JsonVal)>) -> (r: Vec<String>)
    ensures
        r.deep_view() == spec_deps_field(crate::json::spec_entries_view(fields@)),
{
    match field_lookup(fields, "depends") {
        Some(JsonVal::StrList(l)) => {
            let r = collect_somes(l);
            proof {
                assert(l.deep_view() =~= l@.map_values(
                    |e: Option<String>|
                        match e {
                            Some(s) => Some(s@),
                            None => None,
                        },
                ));
            }
            r
        },
        _ => Vec::new(),
    }
}

/// Handler for conda package processing; owns the cache of processed
/// packages, keyed by filename.
pub struct CondaPackageHandler {
    cache: Vec<ProcessedPackage>,
}

impl View for CondaPackageHandler {
    type V = Seq<ProcessedView>;

    closed spec fn view(&self) -> Seq<ProcessedView> {
        self.cache@.map_values(|p: ProcessedPackage| p@)
    }
}

impl Default for CondaPackageHandler {
    /// A handler with an empty cache.
    fn default() -> (r: Self)
        ensures
            r@ == Seq::<ProcessedView>::empty(),
            r.wf(),
    {
        let r = CondaPackageHandler::new();
        r
    }
}

impl CondaPackageHandler {
    /// No two cached packages share a filename.
    pub open spec fn wf(&self) -> bool {
        forall|i: int, j: int|
            0 <= i < j < self@.len() ==> #[trigger] self@[i].filename != #[trigger] self@[j].filename
    }

    /// Create a handler with an empty cache.
    pub fn new() -> (r: Self)
        ensures
            r@ == Seq::<ProcessedView>::empty(),
            r.wf(),
    {
        let r = CondaPackageHandler { cache: Vec::new() };
        proof {
            assert(r@ =~= Seq::<ProcessedView>::empty());
        }
        r
    }

    /// Drop every cached package.
    pub fn clear_cache(&mut self)
        ensures
            final(self)@ == Seq::<ProcessedView>::empty(),
            final(self).wf(),
    {
        self.cache.clear();
        proof {
            assert(self@ =~= Seq::<ProcessedView>::empty());
        }
    }

    /// The number of cached packages.
    pub fn cache_len(&self) -> (r: usize)
        ensures
            r == self@.len(),
    {
        self.cache.len()
    }

    /// Look a processed package up by filename.
    pub fn get_package(&self, filename: &str) -> (r: Option<&ProcessedPackage>)
        ensures
            match r {
                Some(p) => spec_cache_find(self@, filename@) == Some(p@),
                None => spec_cache_find(self@, filename@) is None,
            },
    {
        let target = chars_of(filename);
        let mut i: usize = 0;
        proof {
            assert(self@.skip(0) =~= self@);
        }
        while i < self.cache.len()
            invariant
                i <= self@.len(),
                target@ == filename@,
                spec_cache_find(self@, filename@) == spec_cache_find(
                    self@.skip(i as int),
                    filename@,
                ),
            decreases self@.len() - i,
        {
            let name_chars = chars_of(self.cache[i].filename.as_str());
            proof {
                assert(self@.skip(i as int)[0] == self@[i as int]);
            }
            if vec_eq_str(&name_chars, filename) {
                return Some(&self.cache[i]);
            }
            proof {
                assert(self@.skip(i as int).skip(1) =~= self@.skip(i + 1));
            }
            i += 1;
        }
        proof {
            assert(self@.skip(self@.len() as int).len() == 0);
        }
        None
    }

    /// Copies of all cached packages, in cache order.
    pub fn get_all_packages(&self) -> (r: Vec<ProcessedPackage>)
        ensures
            r@.map_values(|p: ProcessedPackage| p@) == self@,
    {
        let mut out: Vec<ProcessedPackage> = Vec::new();
        let mut i: usize = 0;
        while i < self.cache.len()
            invariant
                i <= self@.len(),
                out@.len() == i,
                out@.map_values(|p: ProcessedPackage| p@) == self@.take(i as int),
            decreases self@.len() - i,
        {
            let d = self.cache[i].duplicate();
            proof {
                assert(d@ == self@[i as int]);
            }
            out.push(d);
            i += 1;
            proof {
                assert(out@.map_values(|p: ProcessedPackage| p@) =~= self@.take(i as int));
            }
        }
        proof {
            assert(self@.take(self@.len() as int) =~= self@);
        }
        out
    }

    /// Store `p`, replacing any cached package with the same filename.
    fn cache_insert(&mut self, p: ProcessedPackage)
        requires
            old(self).wf(),
        ensures
            final(self)@ == spec_cache_insert(old(self)@, p@),
            final(self).wf(),
    {
        let name = chars_of(p.filename.as_str());
        let mut i: usize = 0;
        while i < self.cache.len()
            invariant
                i <= self@.len(),
                *self == *old(self),
                self.wf(),
                name@ == p@.filename,
                forall|j: int| 0 <= j < i ==> self@[j].filename != p@.filename,
            decreases self@.len() - i,
        {
            let entry_name = chars_of(self.cache[i].filename.as_str());
            if vec_eq_str(&entry_name, p.filename.as_str()) {
                let ghost pre = self@;
                proof {
                    lemma_cache_insert_update(pre, p@, i as int);
                }
                self.cache.set(i, p);
                proof {
                    assert(self@ =~= pre.update(i as int, p@));
                    assert forall|a: int, b: int|
                        0 <= a < b < self@.len() implies #[trigger] self@[a].filename
                        != #[trigger] self@[b].filename by {
                        if a != i && b != i {
                            assert(self@[a] == pre[a] && self@[b] == pre[b]);
                        } else if a == i {
                            assert(pre[a].filename == p@.filename && self@[b] == pre[b]);
                        } else {
                            assert(pre[b].filename == p@.filename && self@[a] == pre[a]);
                        }
                    }
                }
                return ;
            }
            i += 1;
        }
        let ghost pre = self@;
        proof {
            lemma_cache_insert_push(pre, p@);
        }
        self.cache.push(p);
        proof {
            assert(self@ =~= pre.push(p@));
            assert forall|a: int, b: int|
                0 <= a < b < self@.len() implies #[trigger] self@[a].filename
                != #[trigger] self@[b].filename by {
                if b < pre.len() {
                    assert(self@[a] == pre[a] && self@[b] == pre[b]);
                } else {
                    assert(self@[b] == p@ && self@[a] == pre[a]);
                }
            }
        }
    }

    /// Whether a file is a conda package, judged by its extension.
    pub fn is_conda_package(filename: &str) -> (r: bool)
        ensures
            r == spec_is_conda(filename@),
    {
        let v = chars_of(filename);
        vec_ends_with_str(&v, ".conda") || vec_ends_with_str(&v, ".tar.bz2")
    }

    /// Whether `s` is one of the twelve canonical platform strings.
    pub fn is_platform_string(s: &str) -> (r: bool)
        ensures
            r == (spec_platform_of_subdir(s@) is Some),
    {
        Platform::from_subdir(s).is_some()
    }

    /// Guess the platform of a package from its name alone.
    pub fn guess_platform_from_package_name(package_name: &str) -> (r: Platform)
        ensures
            r == spec_guess_platform(package_name@),
    {
        let v = chars_of(package_name);
        let linux_tool = vec_eq_str(&v, "coreos-installer") || vec_eq_str(&v, "okd-install")
            || vec_eq_str(&v, "openshift-installer") || vec_eq_str(&v, "docker") || vec_eq_str(
            &v,
            "podman",
        ) || vec_eq_str(&v, "containerd") || vec_eq_str(&v, "runc") || vec_eq_str(&v, "skopeo")
            || vec_eq_str(&v, "buildah") || vec_eq_str(&v, "cni-plugins") || vec_eq_str(
            &v,
            "flannel",
        ) || vec_eq_str(&v, "calico") || vec_eq_str(&v, "weave") || vec_eq_str(&v, "kubectl")
            || vec_eq_str(&v, "helm") || vec_eq_str(&v, "oc") || vec_eq_str(&v, "kind")
            || vec_eq_str(&v, "minikube") || vec_eq_str(&v, "k9s") || vec_eq_str(&v, "kubectx")
            || vec_eq_str(&v, "kubens") || vec_eq_str(&v, "systemd") || vec_eq_str(&v, "dbus")
            || vec_eq_str(&v, "udev") || vec_eq_str(&v, "polkit") || vec_eq_str(&v, "rpm")
            || vec_eq_str(&v, "dpkg") || vec_eq_str(&v, "apt") || vec_eq_str(&v, "yum")
            || vec_eq_str(&v, "dnf") || vec_eq_str(&v, "zypper") || vec_eq_str(&v, "qemu")
            || vec_eq_str(&v, "kvm") || vec_eq_str(&v, "libvirt") || vec_eq_str(&v, "virt-manager");
        if linux_tool {
            Platform::Linux64
        } else {
            Platform::NoArch
        }
    }

    /// Resolve the platform of a package through the cascade: subdir field,
    /// platform + arch table, bare platform hint, name table, `noarch`.
    /// Resolution never fails.
    pub fn determine_platform_from_metadata(metadata: &SimpleIndexJson) -> (r: Result<
        Platform,
        MirrorError,
    >)
        ensures
            r == Ok::<Platform, MirrorError>(spec_resolve(metadata@)),
    {
        if let Some(subdir) = &metadata.subdir {
            if let Some(p) = Platform::from_subdir(subdir.as_str()) {
                return Ok(p);
            }
        }
        if let Some(platform_str) = &metadata.platform {
            let pl = chars_of(platform_str.as_str());
            if let Some(arch_str) = &metadata.arch {
                let ar = chars_of(arch_str.as_str());
                if let Some(p) = Platform::from_platform_arch(&pl, &ar) {
                    return Ok(p);
                }
            }
            if let Some(p) = Platform::from_hint_chars(&pl) {
                return Ok(p);
            }
        }
        Ok(Self::guess_platform_from_package_name(metadata.name.as_str()))
    }

    /// Copies of the cached packages of one platform, in cache order.
    pub fn packages_for(&self, p: Platform) -> (r: Vec<ProcessedPackage>)
        ensures
            spec_pkgs_view(r@) == spec_platform_group(self@, p),
    {
        let all = self.get_all_packages();
        let ghost cache = self@;
        let mut out: Vec<ProcessedPackage> = Vec::new();
        let mut i: usize = 0;
        proof {
            reveal_with_fuel(Seq::<ProcessedView>::filter, 2);
            assert(cache.take(0).len() == 0);
            assert(spec_pkgs_view(out@) =~= spec_platform_group(cache.take(0), p));
        }
        while i < all.len()
            invariant
                i <= cache.len(),
                all@.map_values(|q: ProcessedPackage| q@) == cache,
                all@.len() == cache.len(),
                spec_pkgs_view(out@) == spec_platform_group(cache.take(i as int), p),
            decreases cache.len() - i,
        {
            let ghost pre = spec_pkgs_view(out@);
            proof {
                reveal_with_fuel(Seq::<ProcessedView>::filter, 2);
                assert(cache.take(i + 1).drop_last() =~= cache.take(i as int));
                assert(cache.take(i + 1).last() == cache[i as int]);
            }
            if all[i].platform == p {
                out.push(all[i].duplicate());
                proof {
                    reveal_with_fuel(Seq::<ProcessedView>::filter, 2);
                    assert(spec_pkgs_view(out@) =~= pre.push(cache[i as int]));
                    assert(spec_pkgs_view(out@) =~= spec_platform_group(cache.take(i + 1), p));
                }
            } else {
                proof {
                    reveal_with_fuel(Seq::<ProcessedView>::filter, 2);
                    assert(spec_pkgs_view(out@) =~= spec_platform_group(cache.take(i + 1), p));
                }
            }
            i += 1;
        }
        proof {
            assert(cache.take(cache.len() as int) =~= cache);
        }
        out
    }

    /// Group the cached packages by platform, in order of each platform's
    /// first appearance.
    pub fn organize_packages(&self) -> (r: Vec<(Platform, Vec<ProcessedPackage>)>)
        ensures
            r@.len() == spec_platform_list(self@, Seq::<Platform>::empty()).len(),
            forall|k: int|
                0 <= k < r@.len() ==> (#[trigger] r@[k]).0 == spec_platform_list(
                    self@,
                    Seq::<Platform>::empty(),
                )[k] && spec_pkgs_view(r@[k].1@) == spec_platform_group(self@, r@[k].0),
    {
        let ghost cache = self@;
        let mut platforms: Vec<Platform> = Vec::new();
        let mut i: usize = 0;
        proof {
            assert(cache.skip(0) =~= cache);
            assert(platforms@ =~= Seq::<Platform>::empty());
        }
        let all = self.get_all_packages();
        while i < all.len()
            invariant
                i <= cache.len(),
                all@.map_values(|q: ProcessedPackage| q@) == cache,
                all@.len() == cache.len(),
                spec_platform_list(cache, Seq::<Platform>::empty()) == spec_platform_list(
                    cache.skip(i as int),
                    platforms@,
                ),
            decreases cache.len() - i,
        {
            proof {
                assert(cache.skip(i as int)[0] == cache[i as int]);
                assert(cache.skip(i as int).skip(1) =~= cache.skip(i + 1));
            }
            let p = all[i].platform;
            if !contains_platform(&platforms, p) {
                platforms.push(p);
            }
            i += 1;
        }
        proof {
            assert(cache.skip(cache.len() as int).len() == 0);
            assert(spec_platform_list(cache, Seq::<Platform>::empty()) == platforms@);
        }
        let mut r: Vec<(Platform, Vec<ProcessedPackage>)> = Vec::new();
        let mut k: usize = 0;
        while k < platforms.len()
            invariant
                k <= platforms@.len(),
                r@.len() == k,
                spec_platform_list(cache, Seq::<Platform>::empty()) == platforms@,
                cache == self@,
                forall|j: int|
                    0 <= j < k ==> (#[trigger] r@[j]).0 == platforms@[j] && spec_pkgs_view(
                        r@[j].1@,
                    ) == spec_platform_group(cache, r@[j].0),
            decreases platforms@.len() - k,
        {
            let group = self.packages_for(platforms[k]);
            r.push((platforms[k], group));
            k += 1;
        }
        r
    }

    /// Statistics over the cached packages: their count, their total size
    /// (saturating at `u64::MAX`), and a per-platform count in order of
    /// first appearance.
    pub fn get_stats(&self) -> (r: PackageStats)
        ensures
            r.total_packages == self@.len(),
            r.total_size == spec_size_fold(self@),
            r.packages_by_platform@.len() == spec_platform_list(
                self@,
                Seq::<Platform>::empty(),
            ).len(),
            forall|k: int|
                0 <= k < r.packages_by_platform@.len() ==> (#[trigger] r.packages_by_platform@[k]).0
                    == spec_platform_list(self@, Seq::<Platform>::empty())[k]
                    && r.packages_by_platform@[k].1 == spec_count_platform(
                    self@,
                    r.packages_by_platform@[k].0,
                ),
    {
        let ghost cache = self@;
        let all = self.get_all_packages();
        let mut total_size: u64 = 0;
        let mut i: usize = 0;
        proof {
            assert(cache.take(0).len() == 0);
        }
        while i < all.len()
            invariant
                i <= cache.len(),
                all@.map_values(|q: ProcessedPackage| q@) == cache,
                all@.len() == cache.len(),
                total_size == spec_size_fold(cache.take(i as int)),
            decreases cache.len() - i,
        {
            proof {
                assert(cache.take(i + 1).drop_last() =~= cache.take(i as int));
                assert(cache.take(i + 1).last() == cache[i as int]);
            }
            total_size = match total_size.checked_add(all[i].size) {
                Some(v) => v,
                None => u64::MAX,
            };
            i += 1;
        }
        proof {
            assert(cache.take(cache.len() as int) =~= cache);
        }
        let groups = self.organize_packages();
        let mut by_platform: Vec<(Platform, usize)> = Vec::new();
        let mut k: usize = 0;
        while k < groups.len()
            invariant
                k <= groups@.len(),
                by_platform@.len() == k,
                groups@.len() == spec_platform_list(cache, Seq::<Platform>::empty()).len(),
                cache == self@,
                forall|j: int|
                    0 <= j < groups@.len() ==> (#[trigger] groups@[j]).0 == spec_platform_list(
                        cache,
                        Seq::<Platform>::empty(),
                    )[j] && spec_pkgs_view(groups@[j].1@) == spec_platform_group(
                        cache,
                        groups@[j].0,
                    ),
                forall|j: int|
                    0 <= j < k ==> (#[trigger] by_platform@[j]).0 == spec_platform_list(
                        cache,
                        Seq::<Platform>::empty(),
                    )[j] && by_platform@[j].1 == spec_count_platform(cache, by_platform@[j].0),
            decreases groups@.len() - k,
        {
            let count = groups[k].1.len();
            proof {
                assert(spec_pkgs_view(groups@[k as int].1@).len() == groups@[k as int].1@.len());
            }
            by_platform.push((groups[k].0, count));
            k += 1;
        }
        PackageStats {
            total_packages: self.cache_len(),
            total_size,
            packages_by_platform: by_platform,
        }
    }

    /// Plan the `repodata.json` of one platform: the relative path
    /// `<subdir>/repodata.json` and the document text generated from the
    /// given packages.
    #[verifier::rlimit(100)]
    pub fn create_repodata(&self, platform: &Platform, packages: &Vec<ProcessedPackage>) -> (r: (
        String,
        String,
    ))
        ensures
            r.0@ == spec_subdir(*platform) + "/repodata.json"@,
            r.1@ == spec_repodata_json(*platform, spec_pkgs_view(packages@)),
    {
        let subdir = platform.subdir();
        let mut path = chars_of(subdir.as_str());
        push_literal(&mut path, "/repodata.json");
        let mut out: Vec<char> = Vec::new();
        push_literal(&mut out, "{\"info\":{\"subdir\":");
        push_json_string(&mut out, subdir.as_str());
        push_literal(&mut out, "},\"packages\":{");
        let ghost pkgs = spec_pkgs_view(packages@);
        let ghost mid = out@;
        let mut i: usize = 0;
        proof {
            assert(pkgs.take(0).len() == 0);
            assert(out@ =~= mid + spec_entries_text(pkgs.take(0), subdir@));
        }
        while i < packages.len()
            invariant
                i <= pkgs.len(),
                pkgs == spec_pkgs_view(packages@),
                subdir@ == spec_subdir(*platform),
                out@ == mid + spec_entries_text(pkgs.take(i as int), subdir@),
            decreases pkgs.len() - i,
        {
            if i > 0 {
                out.push(',');
            }
            push_json_string(&mut out, packages[i].filename.as_str());
            out.push(':');
            push_record(&mut out, &packages[i], subdir.as_str());
            i += 1;
            proof {
                assert(pkgs.take(i as int).drop_last() =~= pkgs.take(i - 1));
                assert(pkgs.take(i as int).last() == pkgs[i - 1]);
                assert(out@ =~= mid + spec_entries_text(pkgs.take(i as int), subdir@));
            }
        }
        proof {
            assert(pkgs.take(pkgs.len() as int) =~= pkgs);
        }
        push_literal(&mut out, "}}");
        proof {
            assert(out@ =~= spec_repodata_json(*platform, pkgs));
        }
        (string_of(&path), string_of(&out))
    }

    /// Validate a processed package: nonempty filename, name, version and
    /// content, and checksums that match the bytes, exactly as
    /// `spec_validation_ok` states.
    pub fn validate_package(&self, package: &ProcessedPackage) -> (r: Result<(), MirrorError>)
        ensures
            (r is Ok) == spec_validation_ok(package@),
            r matches Err(e) ==> e is ValidationError,
    {
        if package.filename.as_str().is_empty() {
            return Err(MirrorError::ValidationError("Package filename cannot be empty".to_owned()));
        }
        if package.metadata.name.as_str().is_empty() {
            return Err(MirrorError::ValidationError("Package name cannot be empty".to_owned()));
        }
        if package.metadata.version.as_str().is_empty() {
            return Err(MirrorError::ValidationError("Package version cannot be empty".to_owned()));
        }
        if package.content.len() == 0 {
            return Err(MirrorError::ValidationError("Package content cannot be empty".to_owned()));
        }
        let md5 = md5_hex(&package.content);
        if !(md5 == package.md5) {
            return Err(MirrorError::ValidationError("MD5 checksum mismatch".to_owned()));
        }
        let sha256 = sha256_hex(&package.content);
        if !(sha256 == package.sha256) {
            return Err(MirrorError::ValidationError("SHA-256 checksum mismatch".to_owned()));
        }
        Ok(())
    }

    /// Interpret the fields of a manifest object, as `spec_index_of_fields`
    /// describes.  Never fails: absent fields get their defaults.
    pub fn parse_conda_index_json(&self, fields: &Vec<(String, JsonVal)>, now: u64) -> (r: Result<
        SimpleIndexJson,
        MirrorError,
    >)
        ensures
            r matches Ok(m) && m@ == spec_index_of_fields(
                crate::json::spec_entries_view(fields@),
                now,
            ),
    {
        let ghost entries = crate::json::spec_entries_view(fields@);
        let name = match str_field(fields, "name") {
            Some(s) => s,
            None => "unknown".to_owned(),
        };
        let version = match str_field(fields, "version") {
            Some(s) => s,
            None => "0.0.0".to_owned(),
        };
        let build = match str_field(fields, "build") {
            Some(s) => s,
            None => "0".to_owned(),
        };
        let build_number = match num_field(fields, "build_number") {
            Some(n) => n,
            None => 0,
        };
        let depends = deps_field(fields);
        let license = str_field(fields, "license");
        let platform = str_field(fields, "platform");
        let subdir = str_field(fields, "subdir");
        let arch = str_field(fields, "arch");
        let timestamp = match num_field(fields, "timestamp") {
            Some(t) => Some(t),
            None => Some(now),
        };
        let m = SimpleIndexJson {
            name,
            version,
            build,
            build_number,
            depends,
            license,
            platform,
            subdir,
            arch,
            timestamp,
        };
        proof {
            assert(m@ =~= spec_index_of_fields(entries, now));
        }
        Ok(m)
    }

    /// Read the manifest of a legacy `.tar.bz2` package, as
    /// `spec_legacy_index` describes.
    fn extract_from_legacy_format(&self, content: &Vec<u8>, now: u64) -> (r: Result<
        SimpleIndexJson,
        MirrorError,
    >)
        ensures
            (r is Ok) == (spec_legacy_index(content@, now) is Some),
            r matches Ok(m) ==> Some(m@) == spec_legacy_index(content@, now),
            r matches Err(e) ==> e is ParseError,
    {
        let entries = match tar_bz2_entries(content.as_slice()) {
            Some(e) => e,
            None => {
                return Err(MirrorError::ParseError("could not decode tar.bz2 archive".to_owned()));
            },
        };
        let ghost evs = spec_archive_view(entries@);
        let mut i: usize = 0;
        proof {
            assert(evs.skip(0) =~= evs);
        }
        while i < entries.len()
            invariant
                i <= evs.len(),
                evs == spec_archive_view(entries@),
                tar_bz2_entries_of(content@) == Some(evs),
                spec_find_entry(evs, "info/index.json"@) == spec_find_entry(
                    evs.skip(i as int),
                    "info/index.json"@,
                ),
            decreases evs.len() - i,
        {
            proof {
                assert(evs.skip(i as int)[0] == evs[i as int]);
            }
            let name_chars = chars_of(entries[i].0.as_str());
            if vec_eq_str(&name_chars, "info/index.json") {
                proof {
                    assert(evs[i as int].0 == "info/index.json"@);
                    assert(spec_find_entry(evs.skip(i as int), "info/index.json"@) == Some(
                        evs[i as int].1,
                    ));
                    assert(entries@[i as int].1@ == evs[i as int].1);
                }
                let fields = match parse_json_object(entries[i].1.as_slice()) {
                    Some(f) => f,
                    None => {
                        proof {
                            assert(tar_bz2_entries_of(content@) == Some(evs));
                            assert(json_object_of(evs[i as int].1) is None);
                            assert(spec_legacy_index(content@, now) is None);
                        }
                        return Err(
                            MirrorError::ParseError("info/index.json is not a JSON object".to_owned()),
                        );
                    },
                };
                proof {
                    assert(tar_bz2_entries_of(content@) == Some(evs));
                    assert(spec_find_entry(evs, "info/index.json"@) == Some(evs[i as int].1));
                    assert(json_object_of(evs[i as int].1) == Some(
                        crate::json::spec_entries_view(fields@),
                    ));
                    assert(spec_legacy_index(content@, now) == Some(
                        spec_index_of_fields(crate::json::spec_entries_view(fields@), now),
                    ));
                }
                return self.parse_conda_index_json(&fields, now);
            }
            proof {
                assert(evs.skip(i as int).skip(1) =~= evs.skip(i + 1));
            }
            i += 1;
        }
        proof {
            assert(evs.skip(evs.len() as int).len() == 0);
        }
        Err(MirrorError::ParseError("no info/index.json in archive".to_owned()))
    }

    /// Process a package: check the extension, recover metadata from the
    /// archive or the filename, resolve the platform, compute checksums,
    /// and cache the result by filename.  Fails exactly on filenames
    /// without a conda extension.
    pub fn process_package(&mut self, content: Vec<u8>, filename: &str, now: u64) -> (r: Result<
        ProcessedPackage,
        MirrorError,
    >)
        requires
            old(self).wf(),
        ensures
            final(self).wf(),
            (r is Ok) == spec_is_conda(filename@),
            r matches Ok(p) ==> p@ == spec_process(content@, filename@, now) && final(self)@
                == spec_cache_insert(old(self)@, p@),
            r matches Err(e) ==> e is UnsupportedFormat && final(self)@ == old(self)@,
    {
        if !Self::is_conda_package(filename) {
            let mut msg = chars_of("File ");
            push_literal(&mut msg, filename);
            push_literal(&mut msg, " is not a conda package");
            return Err(MirrorError::UnsupportedFormat(string_of(&msg)));
        }
        let fv = chars_of(filename);
        let metadata: SimpleIndexJson = if vec_ends_with_str(&fv, ".tar.bz2") {
            match self.extract_from_legacy_format(&content, now) {
                Ok(m) => m,
                Err(_) => match self.extract_metadata_from_filename_fallback(filename, now) {
                    Ok(m) => m,
                    Err(e) => {
                        proof {
                            assert(false);
                        }
                        return Err(e);
                    },
                },
            }
        } else {
            match self.extract_metadata_from_filename_fallback(filename, now) {
                Ok(m) => m,
                Err(e) => {
                    proof {
                        assert(false);
                    }
                    return Err(e);
                },
            }
        };
        let platform = match Self::determine_platform_from_metadata(&metadata) {
            Ok(p) => p,
            Err(e) => {
                proof {
                    assert(false);
                }
                return Err(e);
            },
        };
        let md5 = md5_hex(&content);
        let sha256 = sha256_hex(&content);
        let size = content.len() as u64;
        let p = ProcessedPackage {
            content,
            metadata,
            filename: filename.to_owned(),
            platform,
            size,
            md5,
            sha256,
        };
        proof {
            assert(p@ == spec_process(p@.content, filename@, now));
        }
        self.cache_insert(p.duplicate());
        Ok(p)
    }

    /// The platform hint in a filename, as `spec_extract_platform` describes.
    pub fn extract_platform_from_filename(filename: &str) -> (r: Option<String>)
        ensures
            match r {
                Some(s) => spec_extract_platform(filename@) == Some(s@),
                None => spec_extract_platform(filename@) is None,
            },
    {
        let v = chars_of(filename);
        let stem = match strip_ext_chars(&v) {
            Some(s) => s,
            None => {
                return None;
            },
        };
        let parts = split_char(&stem, '-');
        if parts.len() >= 2 {
            let last = &parts[parts.len() - 1];
            proof {
                assert(views_of(parts@).last() == parts@[parts@.len() - 1]@);
            }
            if Platform::from_subdir_chars(last).is_some() {
                return Some(string_of(last));
            }
        }
        if vec_ends_with_str(&stem, "linux-64") || vec_ends_with_str(&stem, "linux-32")
            || vec_ends_with_str(&stem, "linux-aarch64") || vec_ends_with_str(&stem, "linux-armv6l")
            || vec_ends_with_str(&stem, "linux-armv7l") || vec_ends_with_str(&stem, "linux-ppc64le")
            || vec_ends_with_str(&stem, "linux-s390x") {
            Some("linux".to_owned())
        } else if vec_ends_with_str(&stem, "osx-64") || vec_ends_with_str(&stem, "osx-arm64") {
            Some("osx".to_owned())
        } else if vec_ends_with_str(&stem, "win-32") || vec_ends_with_str(&stem, "win-64") {
            Some("win".to_owned())
        } else if vec_ends_with_str(&stem, "noarch") {
            Some("noarch".to_owned())
        } else {
            None
        }
    }

    /// Split filename tokens into package name, version and the remaining
    /// tokens, as the token-level functions describe.
    pub fn extract_name_version_from_parts(parts: &Vec<String>) -> (r: (String, String, Vec<String>))
        requires
            parts@.len() >= 1,
        ensures
            r.0@ == spec_nv_name(parts.deep_view()),
            r.1@ == spec_nv_version(parts.deep_view()),
            r.2.deep_view() == spec_nv_rest(parts.deep_view()),
    {
        let mut toks: Vec<Vec<char>> = Vec::new();
        let mut i: usize = 0;
        while i < parts.len()
            invariant
                i <= parts@.len(),
                toks@.len() == i,
                views_of(toks@) == parts.deep_view().take(i as int),
            decreases parts@.len() - i,
        {
            toks.push(chars_of(parts[i].as_str()));
            i += 1;
            proof {
                assert(views_of(toks@) =~= parts.deep_view().take(i as int));
            }
        }
        proof {
            assert(views_of(toks@) =~= parts.deep_view());
        }
        let (name, version, rest) = name_version_split(&toks);
        let mut rest_strings: Vec<String> = Vec::new();
        let mut j: usize = 0;
        while j < rest.len()
            invariant
                j <= rest@.len(),
                rest_strings@.len() == j,
                rest_strings.deep_view() == views_of(rest@).take(j as int),
            decreases rest@.len() - j,
        {
            rest_strings.push(string_of(&rest[j]));
            j += 1;
            proof {
                assert(rest_strings.deep_view() =~= views_of(rest@).take(j as int));
            }
        }
        proof {
            assert(rest_strings.deep_view() =~= views_of(rest@));
        }
        (string_of(&name), string_of(&version), rest_strings)
    }

    /// Recover package metadata from the filename alone, as
    /// `spec_fallback_index` describes.  Fails only on a filename without a
    /// conda extension.
    pub fn extract_metadata_from_filename_fallback(&self, filename: &str, now: u64) -> (r: Result<
        SimpleIndexJson,
        MirrorError,
    >)
        ensures
            (r is Ok) == (spec_fallback_index(filename@, now) is Some),
            r matches Ok(m) ==> Some(m@) == spec_fallback_index(filename@, now),
            r matches Err(e) ==> e is UnsupportedFormat,
    {
        let v = chars_of(filename);
        let stem = match strip_ext_chars(&v) {
            Some(s) => s,
            None => {
                return Err(
                    MirrorError::UnsupportedFormat("Invalid conda package extension".to_owned()),
                );
            },
        };
        let parts = split_char(&stem, '-');
        if parts.len() < 2 {
            let mut m = SimpleIndexJson::default();
            m.timestamp = Some(now);
            proof {
                assert(m@ =~= spec_default_index(now));
            }
            return Ok(m);
        }
        let (name, version, rest) = name_version_split(&parts);
        let ghost rem = views_of(rest@);
        let mut cut: usize = 0;
        while cut < rest.len() && !platform_starts_at(&rest, cut)
            invariant
                cut <= rem.len(),
                rem == views_of(rest@),
                spec_platform_scan(rem, 0) == spec_platform_scan(rem, cut as int),
            decreases rem.len() - cut,
        {
            cut += 1;
        }
        proof {
            if cut < rem.len() {
                assert(spec_platform_scan(rem, cut as int) == cut as int);
            }
            assert(spec_platform_scan(rem, 0) == cut as int);
        }
        let build: Vec<char> = if cut == 0 {
            chars_of("0")
        } else {
            let bp = subparts(&rest, 0, cut);
            proof {
                assert(views_of(bp@) =~= rem.take(cut as int));
            }
            join_char(&bp, '-')
        };
        let ghost sbuild = spec_build_of(rem);
        proof {
            assert(build@ == sbuild);
        }
        let underscore_parts = split_char(&build, '_');
        let last_part = &underscore_parts[underscore_parts.len() - 1];
        proof {
            assert(views_of(underscore_parts@).last() == underscore_parts@[underscore_parts@.len()
                - 1]@);
        }
        let build_number: u64 = match parse_u64_chars(last_part) {
            Some(n) => n,
            None => 0,
        };
        let platform = Self::extract_platform_from_filename(filename);
        let m = SimpleIndexJson {
            name: string_of(&name),
            version: string_of(&version),
            build: string_of(&build),
            build_number,
            depends: Vec::new(),
            license: None,
            platform,
            subdir: None,
            arch: None,
            timestamp: Some(now),
        };
        proof {
            assert(m@.depends =~= Seq::<Seq<char>>::empty());
            assert(Some(m@) == spec_fallback_index(filename@, now));
        }
        Ok(m)
    }
}

} // verus!

