//! Skills of a Project.

use vstd::prelude::*;

verus! {

#[derive(Debug, PartialEq)]
pub struct ProjectSkill {
    pub slug: String,
    pub name: String,
    pub description: String,
    pub relative_path: String,
    pub sha256: String,
    pub instructions: String,
}

} // verus!
