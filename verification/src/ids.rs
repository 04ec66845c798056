//! Identifiers of GitLab projects, pipelines and jobs.
use vstd::prelude::*;

verus! {

/// Identifier of a GitLab project.
#[derive(Clone, Copy, Debug, PartialEq, Eq, Structural, Hash)]
pub struct ProjectId(pub u64);

/// Identifier of a GitLab pipeline.
#[derive(Clone, Copy, Debug, PartialEq, Eq, Structural, Hash)]
pub struct PipelineId(pub u64);

/// Identifier of a GitLab job.
#[derive(Clone, Copy, Debug, PartialEq, Eq, Structural, Hash)]
pub struct JobId(pub u64);

impl ProjectId {
    pub fn new(id: u64) -> (r: ProjectId)
        ensures
            r.0 == id,
    {
        ProjectId(id)
    }

    pub fn value(&self) -> (r: u64)
        ensures
            r == self.0,
    {
        self.0
    }
}

impl PipelineId {
    pub fn new(id: u64) -> (r: PipelineId)
        ensures
            r.0 == id,
    {
        PipelineId(id)
    }

    pub fn value(&self) -> (r: u64)
        ensures
            r == self.0,
    {
        self.0
    }
}

impl JobId {
    pub fn new(id: u64) -> (r: JobId)
        ensures
            r.0 == id,
    {
        JobId(id)
    }

    pub fn value(&self) -> (r: u64)
        ensures
            r == self.0,
    {
        self.0
    }
}

} // verus!
