//! How a tool call is carried out.

use crate::json::{json_parsed, Json};
use crate::protocol::model::ModelToolCall;
use vstd::prelude::*;

verus! {

/// What to do with a call.
#[derive(Debug, PartialEq)]
pub enum ToolPlan {
    /// Run the tool with these arguments, alone or beside other tools.
    Run { arguments: Json, exclusive: bool },
    /// Answer that the arguments are no JSON.
    Refuse { tool: String, message: String },
}

/// Decides on a call whose arguments were read.
pub fn plan_read_call(
    name: &str,
    arguments: Result<Json, String>,
    supports_parallel: Option<bool>,
) -> (r: ToolPlan)
    ensures
        match arguments {
            Ok(value) => r == (ToolPlan::Run {
                arguments: value,
                exclusive: supports_parallel != Some(true),
            }),
            Err(message) => r matches ToolPlan::Refuse { tool, message: told } && tool@ == name@
                && told == message,
        },
{
    match arguments {
        Ok(arguments) => {
            let exclusive = match supports_parallel {
                Some(parallel) => !parallel,
                None => true,
            };
            ToolPlan::Run { arguments, exclusive }
        },
        Err(message) => ToolPlan::Refuse { tool: name.to_owned(), message },
    }
}

/// Reads the arguments of a call and decides on it. A tool of which nothing is known runs alone.
pub fn plan_call(call: &ModelToolCall, supports_parallel: Option<bool>) -> (r: ToolPlan)
    ensures
        match json_parsed(call.arguments@) {
            Ok(value) => r matches ToolPlan::Run { arguments, exclusive } && arguments@ == value
                && exclusive == (supports_parallel != Some(true)),
            Err(message) => r matches ToolPlan::Refuse { tool, message: told } && tool@
                == call.name@ && told@ == message,
        },
{
    plan_read_call(call.name.as_str(), Json::parse(call.arguments.as_str()), supports_parallel)
}

} // verus!
