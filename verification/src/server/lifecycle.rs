//! The steps by which a Project is made and taken away.
//!
//! Each machine says what to do next; what came of it is handed back.

use crate::server::api::{ApiError, INTERNAL_SERVER_ERROR};
use vstd::prelude::*;

verus! {

/// Where the making of a Project stands.
#[derive(Debug, PartialEq, Eq)]
pub enum CreationStage {
    /// The Project is being written to the catalog.
    Cataloguing,
    /// Its runtime is being built.
    Building,
    /// Its runtime could not be built, for a reason; its store is being closed.
    Closing(String),
    /// Its runtime could not be built, for a reason; it is being taken out of the catalog.
    Retiring(String),
    Finished,
}

/// What came of a step in the making of a Project. A missing fault is success.
#[derive(Debug)]
pub enum CreationEvent {
    Catalogued(Option<ApiError>),
    Built(Option<String>),
    Closed(Option<ApiError>),
    /// Where the files of the Project were put, or why they were not.
    Retired(Result<String, ApiError>),
}

/// What is done next in the making of a Project.
#[derive(Debug)]
pub enum CreationStep {
    Build,
    /// The Project is made known, and the request answered.
    Register,
    Close,
    Retire,
    /// The request is refused. What was put aside is removed.
    Refuse { cleanup: Option<String>, error: ApiError },
}

/// The making of a Project.
#[derive(Debug)]
pub struct ProjectCreation {
    pub stage: CreationStage,
}

/// Whether a step is what is done next in the making of a Project, and where the making stands then.
pub open spec fn creation_follows(
    before: CreationStage,
    event: CreationEvent,
    step: CreationStep,
    after: CreationStage,
) -> bool {
    match event {
        CreationEvent::Catalogued(None) => step == CreationStep::Build && after
            == CreationStage::Building,
        CreationEvent::Catalogued(Some(e)) => step == (CreationStep::Refuse {
            cleanup: None,
            error: e,
        }) && after == CreationStage::Finished,
        CreationEvent::Built(None) => step == CreationStep::Register && after
            == CreationStage::Finished,
        CreationEvent::Built(Some(fault)) => step == CreationStep::Close && after
            == CreationStage::Closing(fault),
        CreationEvent::Closed(None) => step == CreationStep::Retire && after
            == CreationStage::Retiring(before->Closing_0),
        CreationEvent::Closed(Some(e)) => step == (CreationStep::Refuse {
            cleanup: None,
            error: e,
        }) && after == CreationStage::Finished,
        CreationEvent::Retired(Ok(place)) => (step matches CreationStep::Refuse {
            cleanup,
            error,
        } && cleanup == Some(place) && error.says(
            INTERNAL_SERVER_ERROR,
            before->Retiring_0@,
        )) && after == CreationStage::Finished,
        CreationEvent::Retired(Err(e)) => step == (CreationStep::Refuse {
            cleanup: None,
            error: e,
        }) && after == CreationStage::Finished,
    }
}

impl ProjectCreation {
    pub fn new() -> (r: ProjectCreation)
        ensures
            r.stage == CreationStage::Cataloguing,
    {
        ProjectCreation { stage: CreationStage::Cataloguing }
    }

    /// Whether something came of the step that was asked for.
    pub open spec fn awaits(&self, event: CreationEvent) -> bool {
        match self.stage {
            CreationStage::Cataloguing => event is Catalogued,
            CreationStage::Building => event is Built,
            CreationStage::Closing(_) => event is Closed,
            CreationStage::Retiring(_) => event is Retired,
            CreationStage::Finished => false,
        }
    }

    /// What follows what came of a step.
    pub fn advance(&mut self, event: CreationEvent) -> (r: CreationStep)
        requires
            old(self).awaits(event),
        ensures
            creation_follows(old(self).stage, event, r, final(self).stage),
    {
        let mut stage = CreationStage::Finished;
        std::mem::swap(&mut stage, &mut self.stage);
        match event {
            CreationEvent::Catalogued(None) => {
                self.stage = CreationStage::Building;
                CreationStep::Build
            },
            CreationEvent::Catalogued(Some(error)) => CreationStep::Refuse { cleanup: None, error },
            CreationEvent::Built(None) => CreationStep::Register,
            CreationEvent::Built(Some(fault)) => {
                self.stage = CreationStage::Closing(fault);
                CreationStep::Close
            },
            CreationEvent::Closed(None) => {
                if let CreationStage::Closing(fault) = stage {
                    self.stage = CreationStage::Retiring(fault);
                }
                CreationStep::Retire
            },
            CreationEvent::Closed(Some(error)) => CreationStep::Refuse { cleanup: None, error },
            CreationEvent::Retired(Ok(place)) => {
                let fault = match stage {
                    CreationStage::Retiring(fault) => fault,
                    _ => String::new(),
                };
                CreationStep::Refuse { cleanup: Some(place), error: ApiError::internal(fault) }
            },
            CreationEvent::Retired(Err(error)) => CreationStep::Refuse { cleanup: None, error },
        }
    }
}

/// Where the removal of a Project stands.
#[derive(Debug, PartialEq, Eq)]
pub enum RemovalStage {
    /// It is looked up whether the Project still works.
    Checking,
    /// The Project is no longer known; its store is being closed.
    Closing,
    /// It is being taken out of the catalog.
    Retiring,
    /// It could not be taken out of the catalog; its store is being opened again.
    Reopening(ApiError),
    Finished,
}

/// What came of a step in the removal of a Project. A missing fault is success.
#[derive(Debug)]
pub enum RemovalEvent {
    Checked(Option<ApiError>),
    Closed(Option<ApiError>),
    Retired(Result<String, ApiError>),
    Reopened(Option<ApiError>),
}

/// What is done next in the removal of a Project.
#[derive(Debug)]
pub enum RemovalStep {
    /// The Project is made unknown, and its store closed.
    ForgetAndClose,
    Retire,
    Reopen,
    /// The Project is made known again, and the request refused.
    RestoreAndRefuse(ApiError),
    Refuse(ApiError),
    /// What was put aside is removed, and the request answered.
    Finish { cleanup: String },
}

/// The removal of a Project.
#[derive(Debug)]
pub struct ProjectRemoval {
    pub stage: RemovalStage,
}

/// What is done next in the removal of a Project, and where the removal stands then.
pub open spec fn after_removal(before: RemovalStage, event: RemovalEvent) -> (
    RemovalStep,
    RemovalStage,
) {
    match event {
        RemovalEvent::Checked(None) => (RemovalStep::ForgetAndClose, RemovalStage::Closing),
        RemovalEvent::Checked(Some(e)) => (RemovalStep::Refuse(e), RemovalStage::Finished),
        RemovalEvent::Closed(None) => (RemovalStep::Retire, RemovalStage::Retiring),
        RemovalEvent::Closed(Some(e)) => (RemovalStep::Refuse(e), RemovalStage::Finished),
        RemovalEvent::Retired(Ok(place)) => (
            RemovalStep::Finish { cleanup: place },
            RemovalStage::Finished,
        ),
        RemovalEvent::Retired(Err(e)) => (RemovalStep::Reopen, RemovalStage::Reopening(e)),
        RemovalEvent::Reopened(None) => (
            RemovalStep::RestoreAndRefuse(before->Reopening_0),
            RemovalStage::Finished,
        ),
        RemovalEvent::Reopened(Some(e)) => (RemovalStep::Refuse(e), RemovalStage::Finished),
    }
}

impl ProjectRemoval {
    pub fn new() -> (r: ProjectRemoval)
        ensures
            r.stage == RemovalStage::Checking,
    {
        ProjectRemoval { stage: RemovalStage::Checking }
    }

    /// Whether something came of the step that was asked for.
    pub open spec fn awaits(&self, event: RemovalEvent) -> bool {
        match self.stage {
            RemovalStage::Checking => event is Checked,
            RemovalStage::Closing => event is Closed,
            RemovalStage::Retiring => event is Retired,
            RemovalStage::Reopening(_) => event is Reopened,
            RemovalStage::Finished => false,
        }
    }

    /// What follows what came of a step.
    pub fn advance(&mut self, event: RemovalEvent) -> (r: RemovalStep)
        requires
            old(self).awaits(event),
        ensures
            (r, final(self).stage) == after_removal(old(self).stage, event),
    {
        let mut stage = RemovalStage::Finished;
        std::mem::swap(&mut stage, &mut self.stage);
        match event {
            RemovalEvent::Checked(None) => {
                self.stage = RemovalStage::Closing;
                RemovalStep::ForgetAndClose
            },
            RemovalEvent::Checked(Some(error)) => RemovalStep::Refuse(error),
            RemovalEvent::Closed(None) => {
                self.stage = RemovalStage::Retiring;
                RemovalStep::Retire
            },
            RemovalEvent::Closed(Some(error)) => RemovalStep::Refuse(error),
            RemovalEvent::Retired(Ok(place)) => RemovalStep::Finish { cleanup: place },
            RemovalEvent::Retired(Err(error)) => {
                self.stage = RemovalStage::Reopening(error);
                RemovalStep::Reopen
            },
            RemovalEvent::Reopened(None) => match stage {
                RemovalStage::Reopening(error) => RemovalStep::RestoreAndRefuse(error),
                _ => RemovalStep::Retire,
            },
            RemovalEvent::Reopened(Some(error)) => RemovalStep::Refuse(error),
        }
    }
}

} // verus!
