//! Azure DevOps builds and artifacts: parsing build coordinates and
//! filtering artifact and build lists.  The HTTP client that talks to the
//! Azure DevOps API lives in the surrounding application and hands records
//! in as plain values.

use vstd::prelude::*;
use crate::errors::MirrorError;
use crate::pattern::{regex_match, regex_ok, Pattern};
use crate::strutil::{
    chars_of, find_char, spec_find, spec_lower, spec_parse_u64, spec_split, spec_starts_with,
    spec_strip_trailing_slash, spec_trim, split_char, string_of, subvec, to_ascii_lower,
    trim_chars, trim_trailing_slashes, parse_u64_chars, parse_u64_str, vec_starts_with_str,
    views_of,
};
use crate::json::push_literal;

verus! {

broadcast use vstd::string::group_string_axioms;

/// One artifact of a build.
#[derive(Clone, Debug)]
pub struct AzureDevOpsArtifact {
    pub id: u64,
    pub name: String,
    pub source: String,
    pub resource: ArtifactResource,
}

/// Where and how an artifact can be fetched.
#[derive(Clone, Debug)]
pub struct ArtifactResource {
    pub artifact_type: String,
    pub data: String,
    pub properties: Option<ArtifactProperties>,
    pub url: String,
    pub download_url: Option<String>,
}

/// Optional artifact properties.
#[derive(Clone, Debug)]
pub struct ArtifactProperties {
    pub root_id: Option<String>,
    pub artifactsize: Option<String>,
    pub hash_type: Option<String>,
    pub domain_id: Option<String>,
}

/// A page of the artifact-listing API.
#[derive(Clone, Debug)]
pub struct AzureDevOpsArtifactsResponse {
    pub count: u64,
    pub value: Vec<AzureDevOpsArtifact>,
}

/// One build of a pipeline.
#[derive(Clone, Debug)]
pub struct AzureDevOpsBuild {
    pub id: u64,
    pub build_number: Option<String>,
    pub status: String,
    pub result: Option<String>,
    pub queue_time: Option<String>,
    pub start_time: Option<String>,
    pub finish_time: Option<String>,
    pub url: Option<String>,
    pub definition: BuildDefinition,
    pub project: Project,
    pub source_branch: Option<String>,
    pub source_version: Option<String>,
}

/// The pipeline definition a build ran under.
#[derive(Clone, Debug)]
pub struct BuildDefinition {
    pub id: u64,
    pub name: String,
    pub url: String,
}

/// The project a build belongs to.
#[derive(Clone, Debug)]
pub struct Project {
    pub id: String,
    pub name: String,
    pub url: String,
}

/// A page of the build-listing API.
#[derive(Clone, Debug)]
pub struct AzureDevOpsBuildsResponse {
    pub count: u64,
    pub value: Vec<AzureDevOpsBuild>,
}

/// Specification-level image of `ArtifactProperties`.
pub ghost struct ArtifactPropertiesV {
    pub root_id: Option<Seq<char>>,
    pub artifactsize: Option<Seq<char>>,
    pub hash_type: Option<Seq<char>>,
    pub domain_id: Option<Seq<char>>,
}

/// Specification-level image of `ArtifactResource`.
pub ghost struct ArtifactResourceV {
    pub artifact_type: Seq<char>,
    pub data: Seq<char>,
    pub properties: Option<ArtifactPropertiesV>,
    pub url: Seq<char>,
    pub download_url: Option<Seq<char>>,
}

/// Specification-level image of `AzureDevOpsArtifact`.
pub ghost struct AzureDevOpsArtifactV {
    pub id: u64,
    pub name: Seq<char>,
    pub source: Seq<char>,
    pub resource: ArtifactResourceV,
}

/// Specification-level image of `AzureDevOpsBuild`.
pub ghost struct AzureDevOpsBuildV {
    pub id: u64,
    pub build_number: Option<Seq<char>>,
    pub status: Seq<char>,
    pub result: Option<Seq<char>>,
    pub definition_name: Seq<char>,
}

pub open spec fn spec_opt_str(o: Option<String>) -> Option<Seq<char>> {
    match o {
        Some(s) => Some(s@),
        None => None,
    }
}

impl View for ArtifactProperties {
    type V = ArtifactPropertiesV;

    open spec fn view(&self) -> ArtifactPropertiesV {
        ArtifactPropertiesV {
            root_id: spec_opt_str(self.root_id),
            artifactsize: spec_opt_str(self.artifactsize),
            hash_type: spec_opt_str(self.hash_type),
            domain_id: spec_opt_str(self.domain_id),
        }
    }
}

impl View for ArtifactResource {
    type V = ArtifactResourceV;

    open spec fn view(&self) -> ArtifactResourceV {
        ArtifactResourceV {
            artifact_type: self.artifact_type@,
            data: self.data@,
            properties: match &self.properties {
                Some(p) => Some(p@),
                None => None,
            },
            url: self.url@,
            download_url: spec_opt_str(self.download_url),
        }
    }
}

impl View for AzureDevOpsArtifact {
    type V = AzureDevOpsArtifactV;

    open spec fn view(&self) -> AzureDevOpsArtifactV {
        AzureDevOpsArtifactV {
            id: self.id,
            name: self.name@,
            source: self.source@,
            resource: self.resource@,
        }
    }
}

impl View for AzureDevOpsBuild {
    type V = AzureDevOpsBuildV;

    open spec fn view(&self) -> AzureDevOpsBuildV {
        AzureDevOpsBuildV {
            id: self.id,
            build_number: spec_opt_str(self.build_number),
            status: self.status@,
            result: spec_opt_str(self.result),
            definition_name: self.definition.name@,
        }
    }
}

fn clone_opt(o: &Option<String>) -> (r: Option<String>)
    ensures
        spec_opt_str(r) == spec_opt_str(*o),
{
    match o {
        Some(s) => Some(s.clone()),
        None => None,
    }
}

impl AzureDevOpsArtifact {
    /// A field-by-field copy whose view equals this one's.
    pub fn duplicate(&self) -> (r: Self)
        ensures
            r@ == self@,
    {
        AzureDevOpsArtifact {
            id: self.id,
            name: self.name.clone(),
            source: self.source.clone(),
            resource: ArtifactResource {
                artifact_type: self.resource.artifact_type.clone(),
                data: self.resource.data.clone(),
                properties: match &self.resource.properties {
                    Some(p) => Some(
                        ArtifactProperties {
                            root_id: clone_opt(&p.root_id),
                            artifactsize: clone_opt(&p.artifactsize),
                            hash_type: clone_opt(&p.hash_type),
                            domain_id: clone_opt(&p.domain_id),
                        },
                    ),
                    None => None,
                },
                url: self.resource.url.clone(),
                download_url: clone_opt(&self.resource.download_url),
            },
        }
    }
}

impl AzureDevOpsBuild {
    /// A field-by-field copy whose view equals this one's.
    pub fn duplicate(&self) -> (r: Self)
        ensures
            r@ == self@,
    {
        AzureDevOpsBuild {
            id: self.id,
            build_number: clone_opt(&self.build_number),
            status: self.status.clone(),
            result: clone_opt(&self.result),
            queue_time: clone_opt(&self.queue_time),
            start_time: clone_opt(&self.start_time),
            finish_time: clone_opt(&self.finish_time),
            url: clone_opt(&self.url),
            definition: BuildDefinition {
                id: self.definition.id,
                name: self.definition.name.clone(),
                url: self.definition.url.clone(),
            },
            project: Project {
                id: self.project.id.clone(),
                name: self.project.name.clone(),
                url: self.project.url.clone(),
            },
            source_branch: clone_opt(&self.source_branch),
            source_version: clone_opt(&self.source_version),
        }
    }
}

/// View of a list of artifacts.
pub open spec fn spec_az_views(s: Seq<AzureDevOpsArtifact>) -> Seq<AzureDevOpsArtifactV> {
    s.map_values(|a: AzureDevOpsArtifact| a@)
}

/// View of a list of builds.
pub open spec fn spec_build_views(s: Seq<AzureDevOpsBuild>) -> Seq<AzureDevOpsBuildV> {
    s.map_values(|b: AzureDevOpsBuild| b@)
}

/// The organization and project a source argument denotes: an Azure DevOps
/// URL with at least two path segments, or a plain `organization/project`
/// pair, both parts trimmed and nonempty.
pub open spec fn spec_azure_url(input: Seq<char>) -> Option<(Seq<char>, Seq<char>)> {
    let url_result = if spec_starts_with(input, "https://dev.azure.com/"@) {
        let parts = spec_split(
            spec_strip_trailing_slash(input.skip("https://dev.azure.com/"@.len() as int)),
            '/',
        );
        if parts.len() >= 2 {
            Some((parts[0], parts[1]))
        } else {
            None
        }
    } else {
        None
    };
    if url_result is Some {
        url_result
    } else {
        let i = spec_find(input, '/');
        if i < input.len() {
            let organization = spec_trim(input.take(i));
            let project = spec_trim(input.skip(i + 1));
            if organization.len() > 0 && project.len() > 0 {
                Some((organization, project))
            } else {
                None
            }
        } else {
            None
        }
    }
}

/// Parse an organization/project argument.
pub fn parse_azure_devops_url(input: &str) -> (r: Result<(String, String), MirrorError>)
    ensures
        (r is Ok) == (spec_azure_url(input@) is Some),
        r matches Ok(t) ==> Some((t.0@, t.1@)) == spec_azure_url(input@),
        r matches Err(e) ==> e is InvalidInput,
{
    let v = chars_of(input);
    proof {
        reveal_strlit("https://dev.azure.com/");
        assert("https://dev.azure.com/"@.len() == 22);
    }
    if vec_starts_with_str(&v, "https://dev.azure.com/") {
        let path = subvec(&v, 22, v.len());
        proof {
            assert(path@ =~= v@.skip("https://dev.azure.com/"@.len() as int));
        }
        let trimmed = trim_trailing_slashes(&path);
        let parts = split_char(&trimmed, '/');
        if parts.len() >= 2 {
            proof {
                assert(views_of(parts@)[0] == parts@[0]@);
                assert(views_of(parts@)[1] == parts@[1]@);
            }
            return Ok((string_of(&parts[0]), string_of(&parts[1])));
        }
    }
    match find_char(&v, '/') {
        Some(i) => {
            let before = subvec(&v, 0, i);
            let after = subvec(&v, i + 1, v.len());
            let organization = trim_chars(&before);
            let project = trim_chars(&after);
            proof {
                assert(before@ =~= v@.take(i as int));
                assert(after@ =~= v@.skip(i + 1));
            }
            if organization.len() > 0 && project.len() > 0 {
                Ok((string_of(&organization), string_of(&project)))
            } else {
                Err(
                    MirrorError::InvalidInput(
                        "Invalid Azure DevOps format. Expected 'organization/project' or 'https://dev.azure.com/organization/project'".to_owned(),
                    ),
                )
            }
        },
        None => {
            Err(
                MirrorError::InvalidInput(
                    "Invalid Azure DevOps format. Expected 'organization/project' or 'https://dev.azure.com/organization/project'".to_owned(),
                ),
            )
        },
    }
}

/// Parse a numeric build id, as `str::parse::<u64>` does.
pub fn parse_build_id(input: &str) -> (r: Result<u64, MirrorError>)
    ensures
        (r is Ok) == (spec_parse_u64(input@) is Some),
        r matches Ok(v) ==> Some(v) == spec_parse_u64(input@),
        r matches Err(e) ==> e is InvalidInput,
{
    match parse_u64_str(input) {
        Some(v) => Ok(v),
        None => {
            let mut msg = chars_of("Invalid build ID: '");
            push_literal(&mut msg, input);
            push_literal(&mut msg, "'. Must be a number.");
            Err(MirrorError::InvalidInput(string_of(&msg)))
        },
    }
}

/// The `(organization, project, build id)` a source argument denotes: an
/// optional `#<build id>` suffix after an organization/project argument.
pub open spec fn spec_azure_source(input: Seq<char>) -> Option<
    (Seq<char>, Seq<char>, Option<u64>),
> {
    let i = spec_find(input, '#');
    if i < input.len() {
        match spec_parse_u64(input.skip(i + 1)) {
            None => None,
            Some(b) => match spec_azure_url(input.take(i)) {
                None => None,
                Some(op) => Some((op.0, op.1, Some(b))),
            },
        }
    } else {
        match spec_azure_url(input) {
            None => None,
            Some(op) => Some((op.0, op.1, None)),
        }
    }
}

/// Parse a source argument with an optional build id.
pub fn parse_azure_source(input: &str) -> (r: Result<(String, String, Option<u64>), MirrorError>)
    ensures
        (r is Ok) == (spec_azure_source(input@) is Some),
        r matches Ok(t) ==> Some((t.0@, t.1@, t.2)) == spec_azure_source(input@),
        r matches Err(e) ==> e is InvalidInput,
{
    let v = chars_of(input);
    match find_char(&v, '#') {
        Some(i) => {
            let before = subvec(&v, 0, i);
            let after = subvec(&v, i + 1, v.len());
            proof {
                assert(before@ =~= v@.take(i as int));
                assert(after@ =~= v@.skip(i + 1));
            }
            let build_id = match parse_u64_chars(&after) {
                Some(b) => b,
                None => {
                    let mut msg = chars_of("Invalid build ID: '");
                    let bs = string_of(&after);
                    push_literal(&mut msg, bs.as_str());
                    push_literal(&mut msg, "'. Must be a number.");
                    return Err(MirrorError::InvalidInput(string_of(&msg)));
                },
            };
            let url = string_of(&before);
            match parse_azure_devops_url(url.as_str()) {
                Ok((organization, project)) => Ok((organization, project, Some(build_id))),
                Err(e) => Err(e),
            }
        },
        None => {
            match parse_azure_devops_url(input) {
                Ok((organization, project)) => Ok((organization, project, None)),
                Err(e) => Err(e),
            }
        },
    }
}

/// What name filtering keeps: with no pattern, or an invalid pattern,
/// everything; else the artifacts whose name the pattern matches.
pub open spec fn spec_az_filter_by_name(
    arts: Seq<AzureDevOpsArtifactV>,
    pattern: Option<Seq<char>>,
) -> Seq<AzureDevOpsArtifactV> {
    match pattern {
        None => arts,
        Some(p) => if !regex_ok(p) {
            arts
        } else {
            arts.filter(|a: AzureDevOpsArtifactV| regex_match(p, a.name))
        },
    }
}

/// Copy every artifact of `arts`.
fn duplicate_all(arts: &Vec<AzureDevOpsArtifact>) -> (r: Vec<AzureDevOpsArtifact>)
    ensures
        spec_az_views(r@) == spec_az_views(arts@),
{
    let mut out: Vec<AzureDevOpsArtifact> = Vec::new();
    let mut i: usize = 0;
    while i < arts.len()
        invariant
            i <= arts@.len(),
            out@.len() == i,
            spec_az_views(out@) == spec_az_views(arts@).take(i as int),
        decreases arts@.len() - i,
    {
        let d = arts[i].duplicate();
        proof {
            assert(d@ == spec_az_views(arts@)[i as int]);
        }
        out.push(d);
        i += 1;
        proof {
            assert(spec_az_views(out@) =~= spec_az_views(arts@).take(i as int));
        }
    }
    proof {
        assert(spec_az_views(arts@).take(arts@.len() as int) =~= spec_az_views(arts@));
    }
    out
}

/// Keep the artifacts whose name matches the pattern; an absent or invalid
/// pattern keeps everything.
pub fn filter_artifacts_by_name(arts: &Vec<AzureDevOpsArtifact>, pattern: Option<&str>) -> (r: Vec<
    AzureDevOpsArtifact,
>)
    ensures
        pattern is None ==> spec_az_views(r@) == spec_az_views(arts@),
        pattern matches Some(p) ==> spec_az_views(r@) == spec_az_filter_by_name(
            spec_az_views(arts@),
            Some(p@),
        ),
{
    let pat = match pattern {
        Some(p) => p,
        None => {
            return duplicate_all(arts);
        },
    };
    let re = match Pattern::compile(pat) {
        Some(re) => re,
        None => {
            return duplicate_all(arts);
        },
    };
    let ghost avs = spec_az_views(arts@);
    let mut out: Vec<AzureDevOpsArtifact> = Vec::new();
    let mut i: usize = 0;
    proof {
        reveal_with_fuel(Seq::<AzureDevOpsArtifactV>::filter, 2);
        assert(avs.take(0).len() == 0);
        assert(spec_az_views(out@) =~= avs.take(0).filter(
            |a: AzureDevOpsArtifactV| regex_match(pat@, a.name),
        ));
    }
    while i < arts.len()
        invariant
            i <= avs.len(),
            avs == spec_az_views(arts@),
            re.src() == pat@,
            spec_az_views(out@) == avs.take(i as int).filter(
                |a: AzureDevOpsArtifactV| regex_match(pat@, a.name),
            ),
        decreases avs.len() - i,
    {
        let ghost pre = spec_az_views(out@);
        proof {
            reveal_with_fuel(Seq::<AzureDevOpsArtifactV>::filter, 2);
            assert(avs.take(i + 1).drop_last() =~= avs.take(i as int));
            assert(avs.take(i + 1).last() == avs[i as int]);
        }
        if re.is_match(arts[i].name.as_str()) {
            let d = arts[i].duplicate();
            out.push(d);
            proof {
                assert(spec_az_views(out@) =~= pre.push(avs[i as int]));
                assert(spec_az_views(out@) =~= avs.take(i + 1).filter(
                    |a: AzureDevOpsArtifactV| regex_match(pat@, a.name),
                ));
            }
        } else {
            proof {
                assert(spec_az_views(out@) =~= avs.take(i + 1).filter(
                    |a: AzureDevOpsArtifactV| regex_match(pat@, a.name),
                ));
            }
        }
        i += 1;
    }
    proof {
        assert(avs.take(avs.len() as int) =~= avs);
    }
    out
}

/// What type filtering keeps: artifacts whose type equals the filter,
/// compared after ASCII lower-casing; no filter keeps everything.
pub open spec fn spec_az_filter_by_type(
    arts: Seq<AzureDevOpsArtifactV>,
    artifact_type: Option<Seq<char>>,
) -> Seq<AzureDevOpsArtifactV> {
    match artifact_type {
        None => arts,
        Some(t) => arts.filter(
            |a: AzureDevOpsArtifactV| spec_lower(a.resource.artifact_type) == spec_lower(t),
        ),
    }
}

/// Keep the artifacts of one type, compared case-insensitively; no filter
/// keeps everything.
pub fn filter_artifacts_by_type(
    arts: &Vec<AzureDevOpsArtifact>,
    artifact_type: Option<&str>,
) -> (r: Vec<AzureDevOpsArtifact>)
    ensures
        artifact_type is None ==> spec_az_views(r@) == spec_az_views(arts@),
        artifact_type matches Some(t) ==> spec_az_views(r@) == spec_az_filter_by_type(
            spec_az_views(arts@),
            Some(t@),
        ),
{
    let t = match artifact_type {
        Some(t) => t,
        None => {
            return duplicate_all(arts);
        },
    };
    let want = to_ascii_lower(t);
    let ghost avs = spec_az_views(arts@);
    let mut out: Vec<AzureDevOpsArtifact> = Vec::new();
    let mut i: usize = 0;
    proof {
        reveal_with_fuel(Seq::<AzureDevOpsArtifactV>::filter, 2);
        assert(avs.take(0).len() == 0);
        assert(spec_az_views(out@) =~= avs.take(0).filter(
            |a: AzureDevOpsArtifactV| spec_lower(a.resource.artifact_type) == spec_lower(t@),
        ));
    }
    while i < arts.len()
        invariant
            i <= avs.len(),
            avs == spec_az_views(arts@),
            want@ == spec_lower(t@),
            spec_az_views(out@) == avs.take(i as int).filter(
                |a: AzureDevOpsArtifactV| spec_lower(a.resource.artifact_type) == spec_lower(t@),
            ),
        decreases avs.len() - i,
    {
        let ghost pre = spec_az_views(out@);
        proof {
            reveal_with_fuel(Seq::<AzureDevOpsArtifactV>::filter, 2);
            assert(avs.take(i + 1).drop_last() =~= avs.take(i as int));
            assert(avs.take(i + 1).last() == avs[i as int]);
        }
        let got = to_ascii_lower(arts[i].resource.artifact_type.as_str());
        if got == want {
            let d = arts[i].duplicate();
            out.push(d);
            proof {
                assert(spec_az_views(out@) =~= pre.push(avs[i as int]));
                assert(spec_az_views(out@) =~= avs.take(i + 1).filter(
                    |a: AzureDevOpsArtifactV| spec_lower(a.resource.artifact_type) == spec_lower(
                        t@,
                    ),
                ));
            }
        } else {
            proof {
                assert(spec_az_views(out@) =~= avs.take(i + 1).filter(
                    |a: AzureDevOpsArtifactV| spec_lower(a.resource.artifact_type) == spec_lower(
                        t@,
                    ),
                ));
            }
        }
        i += 1;
    }
    proof {
        assert(avs.take(avs.len() as int) =~= avs);
    }
    out
}

/// Keep the builds whose definition name matches the pattern; an invalid
/// pattern is an error.
pub fn filter_builds_by_description(builds: &Vec<AzureDevOpsBuild>, pattern: &str) -> (r: Result<
    Vec<AzureDevOpsBuild>,
    MirrorError,
>)
    ensures
        (r is Ok) == regex_ok(pattern@),
        r matches Ok(w) ==> spec_build_views(w@) == spec_build_views(builds@).filter(
            |b: AzureDevOpsBuildV| regex_match(pattern@, b.definition_name),
        ),
        r matches Err(e) ==> e is InvalidInput,
{
    let re = match Pattern::compile(pattern) {
        Some(re) => re,
        None => {
            let mut msg = chars_of("Invalid regex pattern: ");
            push_literal(&mut msg, pattern);
            return Err(MirrorError::InvalidInput(string_of(&msg)));
        },
    };
    let ghost bvs = spec_build_views(builds@);
    let mut out: Vec<AzureDevOpsBuild> = Vec::new();
    let mut i: usize = 0;
    proof {
        reveal_with_fuel(Seq::<AzureDevOpsBuildV>::filter, 2);
        assert(bvs.take(0).len() == 0);
        assert(spec_build_views(out@) =~= bvs.take(0).filter(
            |b: AzureDevOpsBuildV| regex_match(pattern@, b.definition_name),
        ));
    }
    while i < builds.len()
        invariant
            i <= bvs.len(),
            bvs == spec_build_views(builds@),
            re.src() == pattern@,
            spec_build_views(out@) == bvs.take(i as int).filter(
                |b: AzureDevOpsBuildV| regex_match(pattern@, b.definition_name),
            ),
        decreases bvs.len() - i,
    {
        let ghost pre = spec_build_views(out@);
        proof {
            reveal_with_fuel(Seq::<AzureDevOpsBuildV>::filter, 2);
            assert(bvs.take(i + 1).drop_last() =~= bvs.take(i as int));
            assert(bvs.take(i + 1).last() == bvs[i as int]);
        }
        if re.is_match(builds[i].definition.name.as_str()) {
            let d = builds[i].duplicate();
            out.push(d);
            proof {
                assert(spec_build_views(out@) =~= pre.push(bvs[i as int]));
                assert(spec_build_views(out@) =~= bvs.take(i + 1).filter(
                    |b: AzureDevOpsBuildV| regex_match(pattern@, b.definition_name),
                ));
            }
        } else {
            proof {
                assert(spec_build_views(out@) =~= bvs.take(i + 1).filter(
                    |b: AzureDevOpsBuildV| regex_match(pattern@, b.definition_name),
                ));
            }
        }
        i += 1;
    }
    proof {
        assert(bvs.take(bvs.len() as int) =~= bvs);
    }
    Ok(out)
}

/// Whether mirroring can download an artifact: a `Container` or `FilePath`
/// artifact (case-insensitively), or one with a download URL.
pub open spec fn spec_downloadable(a: AzureDevOpsArtifactV) -> bool {
    ||| spec_lower(a.resource.artifact_type) == spec_lower("Container"@)
    ||| spec_lower(a.resource.artifact_type) == spec_lower("FilePath"@)
    ||| a.resource.download_url is Some
}

/// Keep the artifacts that can be downloaded.
pub fn filter_downloadable_artifacts(arts: &Vec<AzureDevOpsArtifact>) -> (r: Vec<
    AzureDevOpsArtifact,
>)
    ensures
        spec_az_views(r@) == spec_az_views(arts@).filter(
            |a: AzureDevOpsArtifactV| spec_downloadable(a),
        ),
{
    let container = to_ascii_lower("Container");
    let filepath = to_ascii_lower("FilePath");
    let ghost avs = spec_az_views(arts@);
    let mut out: Vec<AzureDevOpsArtifact> = Vec::new();
    let mut i: usize = 0;
    proof {
        reveal_with_fuel(Seq::<AzureDevOpsArtifactV>::filter, 2);
        assert(avs.take(0).len() == 0);
        assert(spec_az_views(out@) =~= avs.take(0).filter(
            |a: AzureDevOpsArtifactV| spec_downloadable(a),
        ));
    }
    while i < arts.len()
        invariant
            i <= avs.len(),
            avs == spec_az_views(arts@),
            container@ == spec_lower("Container"@),
            filepath@ == spec_lower("FilePath"@),
            spec_az_views(out@) == avs.take(i as int).filter(
                |a: AzureDevOpsArtifactV| spec_downloadable(a),
            ),
        decreases avs.len() - i,
    {
        let ghost pre = spec_az_views(out@);
        proof {
            reveal_with_fuel(Seq::<AzureDevOpsArtifactV>::filter, 2);
            assert(avs.take(i + 1).drop_last() =~= avs.take(i as int));
            assert(avs.take(i + 1).last() == avs[i as int]);
        }
        let got = to_ascii_lower(arts[i].resource.artifact_type.as_str());
        let keep = got == container || got == filepath || arts[i].resource.download_url.is_some();
        if keep {
            let d = arts[i].duplicate();
            out.push(d);
            proof {
                assert(spec_az_views(out@) =~= pre.push(avs[i as int]));
                assert(spec_az_views(out@) =~= avs.take(i + 1).filter(
                    |a: AzureDevOpsArtifactV| spec_downloadable(a),
                ));
            }
        } else {
            proof {
                assert(spec_az_views(out@) =~= avs.take(i + 1).filter(
                    |a: AzureDevOpsArtifactV| spec_downloadable(a),
                ));
            }
        }
        i += 1;
    }
    proof {
        assert(avs.take(avs.len() as int) =~= avs);
    }
    out
}

/// The successful build with the greatest id, what "the most recent
/// successful build" selects: succeeded builds only, maximal id, first such
/// build on ties.
pub fn most_recent_successful_build(builds: &Vec<AzureDevOpsBuild>) -> (r: Option<
    AzureDevOpsBuild,
>)
    ensures
        match r {
            Some(b) => exists|j: int|
                0 <= j < builds@.len() && b@ == spec_build_views(builds@)[j] && b@.result == Some(
                    "succeeded"@,
                ) && forall|k: int|
                    0 <= k < builds@.len() && (#[trigger] spec_build_views(builds@)[k]).result
                        == Some("succeeded"@) ==> spec_build_views(builds@)[k].id <= b@.id,
            None => forall|k: int|
                0 <= k < builds@.len() ==> (#[trigger] spec_build_views(builds@)[k]).result != Some(
                    "succeeded"@,
                ),
        },
{
    let ghost bvs = spec_build_views(builds@);
    let mut best: Option<usize> = None;
    let mut i: usize = 0;
    while i < builds.len()
        invariant
            i <= bvs.len(),
            bvs == spec_build_views(builds@),
            match best {
                Some(bi) => bi < i && bvs[bi as int].result == Some("succeeded"@) && forall|k: int|
                    0 <= k < i && (#[trigger] bvs[k]).result == Some("succeeded"@) ==> bvs[k].id
                        <= bvs[bi as int].id,
                None => forall|k: int|
                    0 <= k < i ==> (#[trigger] bvs[k]).result != Some("succeeded"@),
            },
        decreases bvs.len() - i,
    {
        let succeeded = match &builds[i].result {
            Some(s) => crate::strutil::str_eq(s.as_str(), "succeeded"),
            None => false,
        };
        if succeeded {
            best = match best {
                Some(bi) => {
                    if builds[i].id > builds[bi].id {
                        Some(i)
                    } else {
                        Some(bi)
                    }
                },
                None => Some(i),
            };
        }
        i += 1;
    }
    match best {
        Some(bi) => {
            let d = builds[bi].duplicate();
            proof {
                assert(d@ == bvs[bi as int]);
            }
            Some(d)
        },
        None => None,
    }
}

} // verus!
