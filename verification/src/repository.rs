//! Target repositories: given a processed package, plan the writes the
//! storage backend must perform.  Executing the writes (file system, object
//! storage, HTTP) is the surrounding application's job.

use vstd::prelude::*;
use crate::conda_package::{
    spec_cache_insert, spec_count_platform, spec_is_conda, spec_pkgs_view, spec_platform_group,
    spec_platform_list, spec_process, spec_repodata_json, spec_size_fold, spec_validation_ok,
    CondaPackageHandler, PackageStats, ProcessedView,
};
use crate::errors::MirrorError;
use crate::platform::{spec_subdir, Platform};
use crate::strutil::{
    chars_of, spec_find, spec_lower, spec_starts_with, spec_strip_trailing_slash, string_of,
    subvec, to_ascii_lower, trim_trailing_slashes, vec_eq_str, vec_starts_with_str,
};
use crate::json::push_literal;
use vstd::utf8::encode_utf8;

verus! {

broadcast use vstd::string::group_string_axioms;

/// Where packages end up.
#[derive(Debug, Clone)]
pub enum RepositoryType {
    /// A prefix.dev channel, written to over HTTP.
    PrefixDev,
    /// An S3-compatible bucket.
    S3,
    /// A local directory laid out as a conda channel.
    Local,
    /// A flat directory of packages kept for reuse; no channel structure.
    Cache,
}

/// The repository type a command-line name denotes, compared after ASCII
/// lower-casing.
pub open spec fn spec_repo_type(s: Seq<char>) -> Option<RepositoryType> {
    let l = spec_lower(s);
    if l == "prefix-dev"@ || l == "prefix"@ {
        Some(RepositoryType::PrefixDev)
    } else if l == "s3"@ || l == "minio"@ {
        Some(RepositoryType::S3)
    } else if l == "local"@ || l == "file"@ {
        Some(RepositoryType::Local)
    } else if l == "cache"@ {
        Some(RepositoryType::Cache)
    } else {
        None
    }
}

impl RepositoryType {
    /// Parse a repository type name; unknown names are invalid input.
    pub fn from_string(s: &str) -> (r: Result<Self, MirrorError>)
        ensures
            (r is Ok) == (spec_repo_type(s@) is Some),
            r matches Ok(t) ==> Some(t) == spec_repo_type(s@),
            r matches Err(e) ==> e is InvalidInput,
    {
        let lowered = to_ascii_lower(s);
        let v = chars_of(lowered.as_str());
        if vec_eq_str(&v, "prefix-dev") || vec_eq_str(&v, "prefix") {
            Ok(RepositoryType::PrefixDev)
        } else if vec_eq_str(&v, "s3") || vec_eq_str(&v, "minio") {
            Ok(RepositoryType::S3)
        } else if vec_eq_str(&v, "local") || vec_eq_str(&v, "file") {
            Ok(RepositoryType::Local)
        } else if vec_eq_str(&v, "cache") {
            Ok(RepositoryType::Cache)
        } else {
            let mut msg = chars_of("Unknown repository type: ");
            push_literal(&mut msg, s);
            Err(MirrorError::InvalidInput(string_of(&msg)))
        }
    }
}

/// One write a backend must perform: a backend-relative location, the bytes
/// to store, and their content type.
#[derive(Debug)]
pub struct StorageWrite {
    pub location: String,
    pub content: Vec<u8>,
    pub content_type: String,
}

/// Specification-level image of `StorageWrite`.
pub ghost struct WriteView {
    pub location: Seq<char>,
    pub content: Seq<u8>,
    pub content_type: Seq<char>,
}

impl View for StorageWrite {
    type V = WriteView;

    open spec fn view(&self) -> WriteView {
        WriteView {
            location: self.location@,
            content: self.content@,
            content_type: self.content_type@,
        }
    }
}

/// View of a list of writes.
pub open spec fn spec_writes_view(w: Seq<StorageWrite>) -> Seq<WriteView> {
    w.map_values(|x: StorageWrite| x@)
}

/// `p` with every leading `s3://` removed, as `trim_start_matches` does.
pub open spec fn spec_strip_s3(p: Seq<char>) -> Seq<char>
    decreases p.len(),
{
    if spec_starts_with(p, "s3://"@) && "s3://"@.len() > 0 {
        spec_strip_s3(p.skip("s3://"@.len() as int))
    } else {
        p
    }
}

/// The bucket of an S3 path: what stands before the first slash.
pub open spec fn spec_s3_bucket(path: Seq<char>) -> Seq<char> {
    let rest = spec_strip_s3(path);
    rest.take(spec_find(rest, '/'))
}

/// The key prefix of an S3 path: what stands after the first slash, empty
/// when there is none.
pub open spec fn spec_s3_prefix(path: Seq<char>) -> Seq<char> {
    let rest = spec_strip_s3(path);
    if spec_find(rest, '/') < rest.len() {
        rest.skip(spec_find(rest, '/') + 1)
    } else {
        Seq::<char>::empty()
    }
}

/// The object key of a package under an optional prefix.
pub open spec fn spec_s3_key(prefix: Seq<char>, tail: Seq<char>) -> Seq<char> {
    if prefix.len() == 0 {
        tail
    } else {
        prefix + seq!['/'] + tail
    }
}

/// The writes one package upload plans, by backend.  Every backend places
/// the package at `<subdir>/<filename>`; `Local` and `S3` also rewrite that
/// platform's `repodata.json` from every package of the platform known
/// after the upload; `PrefixDev` leaves index generation to the service;
/// `Cache` stores the file flat under its own name.
pub open spec fn spec_upload_writes(
    rt: RepositoryType,
    path: Seq<char>,
    p: ProcessedView,
    cache_after: Seq<ProcessedView>,
) -> Seq<WriteView> {
    let subdir = spec_subdir(p.platform);
    let tail = subdir + seq!['/'] + p.filename;
    let repodata = encode_utf8(spec_repodata_json(p.platform, spec_platform_group(cache_after, p.platform)));
    match rt {
        RepositoryType::Local => seq![
            WriteView { location: tail, content: p.content, content_type: "application/x-conda-package"@ },
            WriteView {
                location: subdir + "/repodata.json"@,
                content: repodata,
                content_type: "application/json"@,
            },
        ],
        RepositoryType::S3 => seq![
            WriteView {
                location: spec_s3_key(spec_s3_prefix(path), tail),
                content: p.content,
                content_type: "application/x-conda-package"@,
            },
            WriteView {
                location: spec_s3_key(spec_s3_prefix(path), subdir + "/repodata.json"@),
                content: repodata,
                content_type: "application/json"@,
            },
        ],
        RepositoryType::PrefixDev => seq![
            WriteView {
                location: spec_strip_trailing_slash(path) + seq!['/'] + tail,
                content: p.content,
                content_type: "application/x-conda-package"@,
            },
        ],
        RepositoryType::Cache => seq![
            WriteView {
                location: p.filename,
                content: p.content,
                content_type: "application/x-conda-package"@,
            },
        ],
    }
}

/// The writes finalization plans: for a local repository, one
/// `repodata.json` per known platform, regenerated from every known
/// package of that platform; nothing for the other backends.
pub open spec fn spec_finalize_writes(rt: RepositoryType, cache: Seq<ProcessedView>) -> Seq<
    WriteView,
> {
    match rt {
        RepositoryType::Local => {
            let platforms = spec_platform_list(cache, Seq::<Platform>::empty());
            Seq::new(
                platforms.len(),
                |k: int|
                    WriteView {
                        location: spec_subdir(platforms[k]) + "/repodata.json"@,
                        content: encode_utf8(
                            spec_repodata_json(
                                platforms[k],
                                spec_platform_group(cache, platforms[k]),
                            ),
                        ),
                        content_type: "application/json"@,
                    },
            )
        },
        _ => Seq::<WriteView>::empty(),
    }
}

/// A target repository: its backend type, its path or URL, and the
/// processed packages uploaded so far.
pub struct Repository {
    pub repo_type: RepositoryType,
    pub path: String,
    conda_handler: CondaPackageHandler,
}

impl Repository {
    /// The backend type, at specification level.
    pub closed spec fn kind(&self) -> RepositoryType {
        self.repo_type
    }

    /// The path or URL, at specification level.
    pub closed spec fn spec_path(&self) -> Seq<char> {
        self.path@
    }

    /// The processed packages known to this repository, by view.
    pub closed spec fn cache(&self) -> Seq<ProcessedView> {
        self.conda_handler@
    }

    /// No two known packages share a filename.
    pub closed spec fn wf(&self) -> bool {
        self.conda_handler.wf()
    }

    /// A repository with no packages yet.
    pub fn new(repo_type: RepositoryType, path: String) -> (r: Self)
        ensures
            r.kind() == repo_type,
            r.spec_path() == path@,
            r.cache() == Seq::<ProcessedView>::empty(),
            r.wf(),
    {
        Repository { repo_type, path, conda_handler: CondaPackageHandler::new() }
    }

    /// The bucket and key prefix of this repository's S3 path.
    pub fn s3_bucket_and_prefix(&self) -> (r: (String, String))
        ensures
            r.0@ == spec_s3_bucket(self.spec_path()),
            r.1@ == spec_s3_prefix(self.spec_path()),
    {
        let mut v = chars_of(self.path.as_str());
        proof {
            reveal_strlit("s3://");
        }
        while vec_starts_with_str(&v, "s3://")
            invariant
                "s3://"@.len() == 5,
                spec_strip_s3(self.path@) == spec_strip_s3(v@),
            decreases v@.len(),
        {
            let rest = subvec(&v, 5, v.len());
            proof {
                assert(rest@ =~= v@.skip("s3://"@.len() as int));
            }
            v = rest;
        }
        let ghost stripped = v@;
        proof {
            assert(spec_strip_s3(self.path@) == stripped);
        }
        let sep = crate::strutil::find_char(&v, '/');
        match sep {
            Some(i) => {
                let bucket = subvec(&v, 0, i);
                let prefix = subvec(&v, i + 1, v.len());
                proof {
                    assert(bucket@ =~= stripped.take(spec_find(stripped, '/')));
                    assert(prefix@ =~= stripped.skip(spec_find(stripped, '/') + 1));
                }
                (string_of(&bucket), string_of(&prefix))
            },
            None => {
                let bucket = subvec(&v, 0, v.len());
                proof {
                    assert(bucket@ =~= stripped.take(spec_find(stripped, '/')));
                }
                (string_of(&bucket), String::new())
            },
        }
    }

    /// Process, validate and place one package: the returned writes are
    /// what the backend must store.  Fails on a filename without a conda
    /// extension, on a package that does not validate, and, for S3, on a
    /// path with an empty bucket.  A processed package enters the cache
    /// even when validation then rejects it.
    pub fn upload_package(&mut self, package_name: &str, content: Vec<u8>, now: u64) -> (r: Result<
        Vec<StorageWrite>,
        MirrorError,
    >)
        requires
            old(self).wf(),
        ensures
            final(self).wf(),
            final(self).kind() == old(self).kind(),
            final(self).spec_path() == old(self).spec_path(),
            spec_is_conda(package_name@) ==> final(self).cache() == spec_cache_insert(
                old(self).cache(),
                spec_process(content@, package_name@, now),
            ),
            !spec_is_conda(package_name@) ==> final(self).cache() == old(self).cache() && (
            r matches Err(e) && e is UnsupportedFormat),
            (r is Ok) == (spec_is_conda(package_name@) && spec_validation_ok(
                spec_process(content@, package_name@, now),
            ) && (old(self).kind() is S3 ==> spec_s3_bucket(old(self).spec_path()).len() > 0)),
            spec_is_conda(package_name@) && !spec_validation_ok(
                spec_process(content@, package_name@, now),
            ) ==> (r matches Err(e) && e is ValidationError),
            spec_is_conda(package_name@) && spec_validation_ok(
                spec_process(content@, package_name@, now),
            ) && old(self).kind() is S3 && spec_s3_bucket(old(self).spec_path()).len() == 0 ==> (
            r matches Err(e) && e is StorageError),
            r matches Ok(w) ==> spec_writes_view(w@) == spec_upload_writes(
                old(self).kind(),
                old(self).spec_path(),
                spec_process(content@, package_name@, now),
                final(self).cache(),
            ),
    {
        let processed = match self.conda_handler.process_package(content, package_name, now) {
            Ok(p) => p,
            Err(e) => {
                return Err(e);
            },
        };
        let ghost pv = processed@;
        match self.conda_handler.validate_package(&processed) {
            Ok(()) => {},
            Err(e) => {
                return Err(e);
            },
        }
        let subdir = processed.platform.subdir();
        let mut tail = chars_of(subdir.as_str());
        tail.push('/');
        push_literal(&mut tail, processed.filename.as_str());
        proof {
            assert(tail@ =~= spec_subdir(pv.platform) + seq!['/'] + pv.filename);
        }
        match &self.repo_type {
            RepositoryType::Local => {
                let group = self.conda_handler.packages_for(processed.platform);
                let (rel_path, doc) = self.conda_handler.create_repodata(
                    &processed.platform,
                    &group,
                );
                let mut writes: Vec<StorageWrite> = Vec::new();
                writes.push(
                    StorageWrite {
                        location: string_of(&tail),
                        content: processed.content,
                        content_type: "application/x-conda-package".to_owned(),
                    },
                );
                writes.push(
                    StorageWrite {
                        location: rel_path,
                        content: vstd::slice::slice_to_vec(doc.as_str().as_bytes()),
                        content_type: "application/json".to_owned(),
                    },
                );
                proof {
                    let sw = spec_upload_writes(
                        old(self).kind(),
                        old(self).spec_path(),
                        pv,
                        self.cache(),
                    );
                    assert(spec_writes_view(writes@).len() == sw.len());
                    assert forall|k: int| 0 <= k < sw.len() implies #[trigger] spec_writes_view(
                        writes@,
                    )[k] =~= sw[k] by {
                        assert(spec_writes_view(writes@)[k] == writes@[k]@);
                    }
                    assert(spec_writes_view(writes@) =~= sw);
                }
                Ok(writes)
            },
            RepositoryType::S3 => {
                let (bucket, prefix) = self.s3_bucket_and_prefix();
                if bucket.as_str().is_empty() {
                    return Err(MirrorError::StorageError("Invalid S3 path".to_owned()));
                }
                let group = self.conda_handler.packages_for(processed.platform);
                let (rel_path, doc) = self.conda_handler.create_repodata(
                    &processed.platform,
                    &group,
                );
                let key1 = prefix_key(prefix.as_str(), &tail);
                let rel_chars = chars_of(rel_path.as_str());
                let key2 = prefix_key(prefix.as_str(), &rel_chars);
                let mut writes: Vec<StorageWrite> = Vec::new();
                writes.push(
                    StorageWrite {
                        location: key1,
                        content: processed.content,
                        content_type: "application/x-conda-package".to_owned(),
                    },
                );
                writes.push(
                    StorageWrite {
                        location: key2,
                        content: vstd::slice::slice_to_vec(doc.as_str().as_bytes()),
                        content_type: "application/json".to_owned(),
                    },
                );
                proof {
                    let sw = spec_upload_writes(
                        old(self).kind(),
                        old(self).spec_path(),
                        pv,
                        self.cache(),
                    );
                    assert(spec_writes_view(writes@).len() == sw.len());
                    assert forall|k: int| 0 <= k < sw.len() implies #[trigger] spec_writes_view(
                        writes@,
                    )[k] =~= sw[k] by {
                        assert(spec_writes_view(writes@)[k] == writes@[k]@);
                    }
                    assert(spec_writes_view(writes@) =~= sw);
                }
                Ok(writes)
            },
            RepositoryType::PrefixDev => {
                let base = chars_of(self.path.as_str());
                let mut url = trim_trailing_slashes(&base);
                url.push('/');
                let mut j: usize = 0;
                let ghost pre = url@;
                while j < tail.len()
                    invariant
                        j <= tail@.len(),
                        url@ == pre + tail@.take(j as int),
                    decreases tail@.len() - j,
                {
                    url.push(tail[j]);
                    j += 1;
                    proof {
                        assert(url@ =~= pre + tail@.take(j as int));
                    }
                }
                proof {
                    assert(tail@.take(tail@.len() as int) =~= tail@);
                }
                let mut writes: Vec<StorageWrite> = Vec::new();
                writes.push(
                    StorageWrite {
                        location: string_of(&url),
                        content: processed.content,
                        content_type: "application/x-conda-package".to_owned(),
                    },
                );
                proof {
                    let sw = spec_upload_writes(
                        old(self).kind(),
                        old(self).spec_path(),
                        pv,
                        self.cache(),
                    );
                    assert(spec_writes_view(writes@).len() == sw.len());
                    assert(writes@.len() == 1);
                    assert(sw.len() == 1);
                    assert(writes@[0]@.location =~= sw[0].location);
                    assert(writes@[0]@.content =~= sw[0].content);
                    assert(writes@[0]@.content_type =~= sw[0].content_type);
                    assert(spec_writes_view(writes@)[0] == writes@[0]@);
                    assert(spec_writes_view(writes@) =~= sw);
                }
                Ok(writes)
            },
            RepositoryType::Cache => {
                let mut writes: Vec<StorageWrite> = Vec::new();
                writes.push(
                    StorageWrite {
                        location: processed.filename,
                        content: processed.content,
                        content_type: "application/x-conda-package".to_owned(),
                    },
                );
                proof {
                    let sw = spec_upload_writes(
                        old(self).kind(),
                        old(self).spec_path(),
                        pv,
                        self.cache(),
                    );
                    assert(spec_writes_view(writes@).len() == sw.len());
                    assert forall|k: int| 0 <= k < sw.len() implies #[trigger] spec_writes_view(
                        writes@,
                    )[k] =~= sw[k] by {
                        assert(spec_writes_view(writes@)[k] == writes@[k]@);
                    }
                    assert(spec_writes_view(writes@) =~= sw);
                }
                Ok(writes)
            },
        }
    }

    /// Statistics over the packages this repository has processed.
    pub fn get_package_stats(&self) -> (r: PackageStats)
        ensures
            r.total_packages == self.cache().len(),
            r.total_size == spec_size_fold(self.cache()),
            r.packages_by_platform@.len() == spec_platform_list(
                self.cache(),
                Seq::<Platform>::empty(),
            ).len(),
            forall|k: int|
                0 <= k < r.packages_by_platform@.len() ==> (#[trigger] r.packages_by_platform@[k]).0
                    == spec_platform_list(self.cache(), Seq::<Platform>::empty())[k]
                    && r.packages_by_platform@[k].1 == spec_count_platform(
                    self.cache(),
                    r.packages_by_platform@[k].0,
                ),
    {
        self.conda_handler.get_stats()
    }

    /// Plan the final index writes: for a local repository, every
    /// platform's `repodata.json` regenerated from all known packages of
    /// that platform; the other backends have nothing to finalize.
    pub fn finalize_repository(&mut self) -> (r: Result<Vec<StorageWrite>, MirrorError>)
        requires
            old(self).wf(),
        ensures
            *final(self) == *old(self),
            r is Ok,
            r matches Ok(w) ==> spec_writes_view(w@) == spec_finalize_writes(
                old(self).kind(),
                old(self).cache(),
            ),
    {
        match &self.repo_type {
            RepositoryType::Local => {
                let groups = self.conda_handler.organize_packages();
                let ghost platforms = spec_platform_list(self.cache(), Seq::<Platform>::empty());
                let mut writes: Vec<StorageWrite> = Vec::new();
                let mut k: usize = 0;
                while k < groups.len()
                    invariant
                        k <= groups@.len(),
                        writes@.len() == k,
                        *self == *old(self),
                        self.wf(),
                        platforms == spec_platform_list(self.cache(), Seq::<Platform>::empty()),
                        groups@.len() == platforms.len(),
                        forall|j: int|
                            0 <= j < groups@.len() ==> (#[trigger] groups@[j]).0 == platforms[j]
                                && spec_pkgs_view(groups@[j].1@) == spec_platform_group(
                                self.cache(),
                                groups@[j].0,
                            ),
                        forall|j: int|
                            0 <= j < k ==> (#[trigger] writes@[j])@ == (WriteView {
                                location: spec_subdir(platforms[j]) + "/repodata.json"@,
                                content: encode_utf8(
                                    spec_repodata_json(
                                        platforms[j],
                                        spec_platform_group(self.cache(), platforms[j]),
                                    ),
                                ),
                                content_type: "application/json"@,
                            }),
                    decreases groups@.len() - k,
                {
                    let (rel_path, doc) = self.conda_handler.create_repodata(
                        &groups[k].0,
                        &groups[k].1,
                    );
                    writes.push(
                        StorageWrite {
                            location: rel_path,
                            content: vstd::slice::slice_to_vec(doc.as_str().as_bytes()),
                            content_type: "application/json".to_owned(),
                        },
                    );
                    k += 1;
                }
                proof {
                    assert(spec_writes_view(writes@) =~= spec_finalize_writes(
                        old(self).kind(),
                        old(self).cache(),
                    ));
                }
                Ok(writes)
            },
            _ => {
                let writes: Vec<StorageWrite> = Vec::new();
                proof {
                    assert(spec_writes_view(writes@) =~= spec_finalize_writes(
                        old(self).kind(),
                        old(self).cache(),
                    ));
                }
                Ok(writes)
            },
        }
    }
}

/// Join an optional key prefix and a relative location with a slash.
fn prefix_key(prefix: &str, tail: &Vec<char>) -> (r: String)
    ensures
        r@ == spec_s3_key(prefix@, tail@),
{
    let mut out = chars_of(prefix);
    if out.len() > 0 {
        out.push('/');
    }
    let ghost pre = out@;
    let mut j: usize = 0;
    while j < tail.len()
        invariant
            j <= tail@.len(),
            out@ == pre + tail@.take(j as int),
        decreases tail@.len() - j,
    {
        out.push(tail[j]);
        j += 1;
        proof {
            assert(out@ =~= pre + tail@.take(j as int));
        }
    }
    proof {
        assert(tail@.take(tail@.len() as int) =~= tail@);
        if prefix@.len() == 0 {
            assert(out@ =~= tail@);
        } else {
            assert(out@ =~= prefix@ + seq!['/'] + tail@);
        }
    }
    string_of(&out)
}

} // verus!
