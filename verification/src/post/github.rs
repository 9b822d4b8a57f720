//! Links to GitHub items.
use vstd::prelude::*;

verus! {

pub struct GithubV0 {
    pub github_link: String,
    pub name: String,
    pub description: String,
}

pub enum VersionedGithub {
    V0(GithubV0),
}

impl From<GithubV0> for VersionedGithub {
    fn from(v0: GithubV0) -> (r: Self)
        ensures
            r == VersionedGithub::V0(v0),
    {
        VersionedGithub::V0(v0)
    }
}

impl vstd::std_specs::convert::FromSpecImpl<GithubV0> for VersionedGithub {
    open spec fn obeys_from_spec() -> bool {
        true
    }

    open spec fn from_spec(v: GithubV0) -> Self {
        VersionedGithub::V0(v)
    }
}

impl From<VersionedGithub> for GithubV0 {
    fn from(vg: VersionedGithub) -> (r: Self)
        ensures
            vg matches VersionedGithub::V0(v0) && r == v0,
    {
        match vg {
            VersionedGithub::V0(v0) => v0,
        }
    }
}

impl vstd::std_specs::convert::FromSpecImpl<VersionedGithub> for GithubV0 {
    open spec fn obeys_from_spec() -> bool {
        true
    }

    open spec fn from_spec(v: VersionedGithub) -> Self {
        match v {
            VersionedGithub::V0(v0) => v0,
        }
    }
}

} // verus!
