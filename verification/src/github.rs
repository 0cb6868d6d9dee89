//! GitHub Actions artifacts: parsing artifact coordinates and filtering
//! artifact lists.  The HTTP client that talks to the GitHub API lives in
//! the surrounding application and hands artifact records in as plain
//! values.

use vstd::prelude::*;
use crate::errors::MirrorError;
use crate::pattern::{regex_match, regex_ok, Pattern};
use crate::strutil::{
    chars_of, find_char, lex_lt, spec_find, spec_lex_lt, spec_parse_u64, spec_split,
    spec_starts_with, spec_strip_trailing_slash, spec_trim, split_char, string_of, subvec,
    trim_chars, trim_trailing_slashes, parse_u64_str, vec_starts_with_str, views_of,
};
use crate::json::push_literal;

verus! {

broadcast use vstd::string::group_string_axioms;

/// One artifact produced by a workflow run.
#[derive(Clone, Debug)]
pub struct GitHubArtifact {
    pub id: u64,
    pub name: String,
    pub size_in_bytes: u64,
    pub url: String,
    pub archive_download_url: String,
    pub expired: bool,
    pub created_at: String,
    pub updated_at: String,
    pub expires_at: String,
    pub workflow_run: Option<WorkflowRun>,
}

/// The workflow run an artifact came from.
#[derive(Clone, Debug)]
pub struct WorkflowRun {
    pub id: u64,
    pub repository_id: u64,
    pub head_repository_id: Option<u64>,
    pub head_branch: String,
    pub head_sha: String,
}

/// A page of the artifact-listing API.
#[derive(Clone, Debug)]
pub struct GitHubArtifactsResponse {
    pub total_count: u64,
    pub artifacts: Vec<GitHubArtifact>,
}

/// Specification-level image of `WorkflowRun`.
pub ghost struct WorkflowRunV {
    pub id: u64,
    pub repository_id: u64,
    pub head_repository_id: Option<u64>,
    pub head_branch: Seq<char>,
    pub head_sha: Seq<char>,
}

/// Specification-level image of `GitHubArtifact`.
pub ghost struct GitHubArtifactV {
    pub id: u64,
    pub name: Seq<char>,
    pub size_in_bytes: u64,
    pub url: Seq<char>,
    pub archive_download_url: Seq<char>,
    pub expired: bool,
    pub created_at: Seq<char>,
    pub updated_at: Seq<char>,
    pub expires_at: Seq<char>,
    pub workflow_run: Option<WorkflowRunV>,
}

impl View for WorkflowRun {
    type V = WorkflowRunV;

    open spec fn view(&self) -> WorkflowRunV {
        WorkflowRunV {
            id: self.id,
            repository_id: self.repository_id,
            head_repository_id: self.head_repository_id,
            head_branch: self.head_branch@,
            head_sha: self.head_sha@,
        }
    }
}

impl View for GitHubArtifact {
    type V = GitHubArtifactV;

    open spec fn view(&self) -> GitHubArtifactV {
        GitHubArtifactV {
            id: self.id,
            name: self.name@,
            size_in_bytes: self.size_in_bytes,
            url: self.url@,
            archive_download_url: self.archive_download_url@,
            expired: self.expired,
            created_at: self.created_at@,
            updated_at: self.updated_at@,
            expires_at: self.expires_at@,
            workflow_run: match &self.workflow_run {
                Some(w) => Some(w@),
                None => None,
            },
        }
    }
}

impl GitHubArtifact {
    /// A field-by-field copy whose view equals this one's.
    pub fn duplicate(&self) -> (r: Self)
        ensures
            r@ == self@,
    {
        GitHubArtifact {
            id: self.id,
            name: self.name.clone(),
            size_in_bytes: self.size_in_bytes,
            url: self.url.clone(),
            archive_download_url: self.archive_download_url.clone(),
            expired: self.expired,
            created_at: self.created_at.clone(),
            updated_at: self.updated_at.clone(),
            expires_at: self.expires_at.clone(),
            workflow_run: match &self.workflow_run {
                Some(w) => Some(
                    WorkflowRun {
                        id: w.id,
                        repository_id: w.repository_id,
                        head_repository_id: w.head_repository_id,
                        head_branch: w.head_branch.clone(),
                        head_sha: w.head_sha.clone(),
                    },
                ),
                None => None,
            },
        }
    }
}

/// View of a list of artifacts.
pub open spec fn spec_gh_views(s: Seq<GitHubArtifact>) -> Seq<GitHubArtifactV> {
    s.map_values(|a: GitHubArtifact| a@)
}

/// The owner and repository a repository argument denotes: a GitHub URL
/// with at least two path segments, or a plain `owner/repo` pair, both
/// parts trimmed and nonempty.
pub open spec fn spec_github_repo(input: Seq<char>) -> Option<(Seq<char>, Seq<char>)> {
    let path = if spec_starts_with(input, "https://github.com/"@) {
        Some(input.skip("https://github.com/"@.len() as int))
    } else if spec_starts_with(input, "http://github.com/"@) {
        Some(input.skip("http://github.com/"@.len() as int))
    } else {
        None
    };
    let url_result = match path {
        Some(p) => {
            let parts = spec_split(spec_strip_trailing_slash(p), '/');
            if parts.len() >= 2 {
                Some((parts[0], parts[1]))
            } else {
                None
            }
        },
        None => None,
    };
    if url_result is Some {
        url_result
    } else {
        let i = spec_find(input, '/');
        if i < input.len() {
            let owner = spec_trim(input.take(i));
            let repo = spec_trim(input.skip(i + 1));
            if owner.len() > 0 && repo.len() > 0 {
                Some((owner, repo))
            } else {
                None
            }
        } else {
            None
        }
    }
}

/// Parse a repository argument into owner and repository name.
pub fn parse_github_repository(input: &str) -> (r: Result<(String, String), MirrorError>)
    ensures
        (r is Ok) == (spec_github_repo(input@) is Some),
        r matches Ok(t) ==> Some((t.0@, t.1@)) == spec_github_repo(input@),
        r matches Err(e) ==> e is InvalidInput,
{
    let v = chars_of(input);
    proof {
        reveal_strlit("https://github.com/");
        reveal_strlit("http://github.com/");
        assert("https://github.com/"@.len() == 19);
        assert("http://github.com/"@.len() == 18);
    }
    let https = vec_starts_with_str(&v, "https://github.com/");
    let http = vec_starts_with_str(&v, "http://github.com/");
    if https || http {
        let plen: usize = if https {
            19
        } else {
            18
        };
        let path = subvec(&v, plen, v.len());
        proof {
            if https {
                assert(path@ =~= v@.skip("https://github.com/"@.len() as int));
            } else {
                assert(path@ =~= v@.skip("http://github.com/"@.len() as int));
            }
        }
        let trimmed = trim_trailing_slashes(&path);
        let parts = split_char(&trimmed, '/');
        if parts.len() >= 2 {
            proof {
                assert(views_of(parts@)[0] == parts@[0]@);
                assert(views_of(parts@)[1] == parts@[1]@);
            }
            return Ok((string_of(&parts[0]), string_of(&parts[1])));
        }
    }
    match find_char(&v, '/') {
        Some(i) => {
            let before = subvec(&v, 0, i);
            let after = subvec(&v, i + 1, v.len());
            let owner = trim_chars(&before);
            let repo = trim_chars(&after);
            proof {
                assert(before@ =~= v@.take(i as int));
                assert(after@ =~= v@.skip(i + 1));
            }
            if owner.len() > 0 && repo.len() > 0 {
                Ok((string_of(&owner), string_of(&repo)))
            } else {
                Err(
                    MirrorError::InvalidInput(
                        "Invalid GitHub repository format. Expected 'owner/repo' or 'https://github.com/owner/repo'".to_owned(),
                    ),
                )
            }
        },
        None => {
            Err(
                MirrorError::InvalidInput(
                    "Invalid GitHub repository format. Expected 'owner/repo' or 'https://github.com/owner/repo'".to_owned(),
                ),
            )
        },
    }
}

/// Parse a numeric artifact id, as `str::parse::<u64>` does.
pub fn parse_artifact_id(input: &str) -> (r: Result<u64, MirrorError>)
    ensures
        (r is Ok) == (spec_parse_u64(input@) is Some),
        r matches Ok(v) ==> Some(v) == spec_parse_u64(input@),
        r matches Err(e) ==> e is InvalidInput,
{
    match parse_u64_str(input) {
        Some(v) => Ok(v),
        None => {
            let mut msg = chars_of("Invalid artifact ID: '");
            push_literal(&mut msg, input);
            push_literal(&mut msg, "'. Must be a number.");
            Err(MirrorError::InvalidInput(string_of(&msg)))
        },
    }
}

/// What name filtering keeps: with no pattern, or an invalid pattern,
/// everything; else the artifacts whose name the pattern matches.
pub open spec fn spec_filter_by_name(arts: Seq<GitHubArtifactV>, pattern: Option<Seq<char>>) -> Seq<
    GitHubArtifactV,
> {
    match pattern {
        None => arts,
        Some(p) => if !regex_ok(p) {
            arts
        } else {
            arts.filter(|a: GitHubArtifactV| regex_match(p, a.name))
        },
    }
}

/// Copy every artifact of `arts`.
fn duplicate_all(arts: &Vec<GitHubArtifact>) -> (r: Vec<GitHubArtifact>)
    ensures
        spec_gh_views(r@) == spec_gh_views(arts@),
{
    let mut out: Vec<GitHubArtifact> = Vec::new();
    let mut i: usize = 0;
    while i < arts.len()
        invariant
            i <= arts@.len(),
            out@.len() == i,
            spec_gh_views(out@) == spec_gh_views(arts@).take(i as int),
        decreases arts@.len() - i,
    {
        let d = arts[i].duplicate();
        proof {
            assert(d@ == spec_gh_views(arts@)[i as int]);
        }
        out.push(d);
        i += 1;
        proof {
            assert(spec_gh_views(out@) =~= spec_gh_views(arts@).take(i as int));
        }
    }
    proof {
        assert(spec_gh_views(arts@).take(arts@.len() as int) =~= spec_gh_views(arts@));
    }
    out
}

/// Keep the artifacts whose name matches the pattern; an absent or invalid
/// pattern keeps everything.
pub fn filter_artifacts_by_name(arts: &Vec<GitHubArtifact>, pattern: Option<&str>) -> (r: Vec<
    GitHubArtifact,
>)
    ensures
        pattern is None ==> spec_gh_views(r@) == spec_gh_views(arts@),
        pattern matches Some(p) ==> spec_gh_views(r@) == spec_filter_by_name(
            spec_gh_views(arts@),
            Some(p@),
        ),
{
    let pat = match pattern {
        Some(p) => p,
        None => {
            return duplicate_all(arts);
        },
    };
    let re = match Pattern::compile(pat) {
        Some(re) => re,
        None => {
            return duplicate_all(arts);
        },
    };
    let ghost avs = spec_gh_views(arts@);
    let mut out: Vec<GitHubArtifact> = Vec::new();
    let mut i: usize = 0;
    proof {
        reveal_with_fuel(Seq::<GitHubArtifactV>::filter, 2);
        assert(avs.take(0).len() == 0);
        assert(spec_gh_views(out@) =~= avs.take(0).filter(
            |a: GitHubArtifactV| regex_match(pat@, a.name),
        ));
    }
    while i < arts.len()
        invariant
            i <= avs.len(),
            avs == spec_gh_views(arts@),
            re.src() == pat@,
            spec_gh_views(out@) == avs.take(i as int).filter(
                |a: GitHubArtifactV| regex_match(pat@, a.name),
            ),
        decreases avs.len() - i,
    {
        let ghost pre = spec_gh_views(out@);
        proof {
            reveal_with_fuel(Seq::<GitHubArtifactV>::filter, 2);
            assert(avs.take(i + 1).drop_last() =~= avs.take(i as int));
            assert(avs.take(i + 1).last() == avs[i as int]);
        }
        if re.is_match(arts[i].name.as_str()) {
            let d = arts[i].duplicate();
            out.push(d);
            proof {
                assert(spec_gh_views(out@) =~= pre.push(avs[i as int]));
                assert(spec_gh_views(out@) =~= avs.take(i + 1).filter(
                    |a: GitHubArtifactV| regex_match(pat@, a.name),
                ));
            }
        } else {
            proof {
                assert(spec_gh_views(out@) =~= avs.take(i + 1).filter(
                    |a: GitHubArtifactV| regex_match(pat@, a.name),
                ));
            }
        }
        i += 1;
    }
    proof {
        assert(avs.take(avs.len() as int) =~= avs);
    }
    out
}

/// Keep the artifacts that have not expired.
pub fn filter_non_expired_artifacts(arts: &Vec<GitHubArtifact>) -> (r: Vec<GitHubArtifact>)
    ensures
        spec_gh_views(r@) == spec_gh_views(arts@).filter(|a: GitHubArtifactV| !a.expired),
{
    let ghost avs = spec_gh_views(arts@);
    let mut out: Vec<GitHubArtifact> = Vec::new();
    let mut i: usize = 0;
    proof {
        reveal_with_fuel(Seq::<GitHubArtifactV>::filter, 2);
        assert(avs.take(0).len() == 0);
        assert(spec_gh_views(out@) =~= avs.take(0).filter(|a: GitHubArtifactV| !a.expired));
    }
    while i < arts.len()
        invariant
            i <= avs.len(),
            avs == spec_gh_views(arts@),
            spec_gh_views(out@) == avs.take(i as int).filter(|a: GitHubArtifactV| !a.expired),
        decreases avs.len() - i,
    {
        let ghost pre = spec_gh_views(out@);
        proof {
            reveal_with_fuel(Seq::<GitHubArtifactV>::filter, 2);
            assert(avs.take(i + 1).drop_last() =~= avs.take(i as int));
            assert(avs.take(i + 1).last() == avs[i as int]);
        }
        if !arts[i].expired {
            let d = arts[i].duplicate();
            out.push(d);
            proof {
                assert(spec_gh_views(out@) =~= pre.push(avs[i as int]));
                assert(spec_gh_views(out@) =~= avs.take(i + 1).filter(
                    |a: GitHubArtifactV| !a.expired,
                ));
            }
        } else {
            proof {
                assert(spec_gh_views(out@) =~= avs.take(i + 1).filter(
                    |a: GitHubArtifactV| !a.expired,
                ));
            }
        }
        i += 1;
    }
    proof {
        assert(avs.take(avs.len() as int) =~= avs);
    }
    out
}

/// The artifact with the greatest `created_at` timestamp, earliest such
/// artifact first; what processing "the most recent" artifact selects.
pub fn most_recent_artifact(arts: &Vec<GitHubArtifact>) -> (r: Option<GitHubArtifact>)
    ensures
        (r is Some) == (arts@.len() > 0),
        r matches Some(a) ==> exists|j: int|
            0 <= j < arts@.len() && a@ == spec_gh_views(arts@)[j] && (forall|k: int|
                0 <= k < arts@.len() ==> !spec_lex_lt(
                    spec_gh_views(arts@)[j].created_at,
                    #[trigger] spec_gh_views(arts@)[k].created_at,
                )) && (forall|k: int|
                0 <= k < j ==> spec_lex_lt(
                    #[trigger] spec_gh_views(arts@)[k].created_at,
                    spec_gh_views(arts@)[j].created_at,
                )),
{
    if arts.len() == 0 {
        return None;
    }
    let ghost avs = spec_gh_views(arts@);
    let mut best: usize = 0;
    let mut i: usize = 1;
    proof {
        crate::strutil::lemma_lex_irrefl(avs[0].created_at);
    }
    while i < arts.len()
        invariant
            arts@.len() > 0,
            avs == spec_gh_views(arts@),
            best < i <= arts@.len() || (best == 0 && i <= arts@.len()),
            best < arts@.len(),
            forall|k: int|
                0 <= k < i ==> !spec_lex_lt(
                    avs[best as int].created_at,
                    #[trigger] avs[k].created_at,
                ),
            forall|k: int|
                0 <= k < best ==> spec_lex_lt(
                    #[trigger] avs[k].created_at,
                    avs[best as int].created_at,
                ),
        decreases arts@.len() - i,
    {
        let bc = chars_of(arts[best].created_at.as_str());
        let cc = chars_of(arts[i].created_at.as_str());
        if lex_lt(&bc, &cc) {
            proof {
                assert forall|k: int|
                    0 <= k < i implies spec_lex_lt(
                    #[trigger] avs[k].created_at,
                    avs[i as int].created_at,
                ) by {
                    crate::strutil::lemma_lex_le_lt_trans(
                        avs[k].created_at,
                        avs[best as int].created_at,
                        avs[i as int].created_at,
                    );
                }
                assert forall|k: int|
                    0 <= k < i + 1 implies !spec_lex_lt(
                    avs[i as int].created_at,
                    #[trigger] avs[k].created_at,
                ) by {
                    if k < i {
                        crate::strutil::lemma_lex_asym(avs[k].created_at, avs[i as int].created_at);
                    } else {
                        crate::strutil::lemma_lex_irrefl(avs[i as int].created_at);
                    }
                }
            }
            best = i;
        } else {
            proof {
                assert forall|k: int|
                    0 <= k < i + 1 implies !spec_lex_lt(
                    avs[best as int].created_at,
                    #[trigger] avs[k].created_at,
                ) by {}
            }
        }
        i += 1;
    }
    let a = arts[best].duplicate();
    proof {
        assert(a@ == avs[best as int]);
    }
    Some(a)
}

} // verus!
