//! A model that answers from a script, for runs without a provider.

use crate::model::error::ModelError;
use crate::protocol::model::{HostedTool, ModelEvent, ModelRequest};
use vstd::prelude::*;

verus! {

/// The answers that are still to be given, the next one first, and the requests so far.
#[derive(Debug)]
pub struct ScriptedModelClient {
    pub responses: Vec<Vec<ModelEvent>>,
    pub requests: Vec<ModelRequest>,
}

impl ScriptedModelClient {
    pub fn new(responses: Vec<Vec<ModelEvent>>) -> (r: Self)
        ensures
            r.responses == responses,
            r.requests@ == Seq::<ModelRequest>::empty(),
    {
        ScriptedModelClient { responses, requests: Vec::new() }
    }

    /// Adds an answer behind the others.
    pub fn push_response(&mut self, response: Vec<ModelEvent>)
        ensures
            final(self).responses@ == old(self).responses@.push(response),
            final(self).requests == old(self).requests,
    {
        self.responses.push(response);
    }

    /// The requests so far.
    pub fn requests(&self) -> (r: &Vec<ModelRequest>)
        ensures
            *r == self.requests,
    {
        &self.requests
    }

    /// Notes a request, and gives the next answer.
    pub fn stream(&mut self, request: ModelRequest) -> (r: Result<Vec<ModelEvent>, ModelError>)
        ensures
            final(self).requests@ == old(self).requests@.push(request),
            match r {
                Ok(response) => {
                    &&& old(self).responses@.len() > 0
                    &&& response == old(self).responses@[0]
                    &&& final(self).responses@ == old(self).responses@.drop_first()
                },
                Err(e) => {
                    &&& old(self).responses@.len() == 0
                    &&& e is ScriptExhausted
                    &&& final(self).responses@ == old(self).responses@
                },
            },
    {
        self.requests.push(request);
        if self.responses.len() == 0 {
            return Err(ModelError::ScriptExhausted);
        }
        let response = self.responses.remove(0);
        assert(self.responses@ =~= old(self).responses@.drop_first());
        Ok(response)
    }

    /// A script can use every hosted tool.
    pub fn supports_hosted_tool(&self, _model: &str, _tool: HostedTool) -> (r: bool)
        ensures
            r,
    {
        true
    }
}

} // verus!
