//! Calling tools on behalf of a run.
use vstd::prelude::*;

use crate::protocol::{debug_text, McpError};
use crate::value::{lemma_object_view, Json, JsonView};

verus! {

broadcast use lemma_object_view;

/// Why a tool could not do what it was called for.
#[derive(Debug, PartialEq, Eq)]
pub struct ActionError(pub String);

/// Calls the tools of this program, without going through its server.
#[derive(Debug, Clone, Copy, PartialEq, Eq, Structural)]
pub struct McpActionExecutor;

/// The arguments with the profile among them. What is no object is replaced
/// by one.
pub open spec fn for_profile(args: JsonView, profile_id: Seq<char>) -> JsonView {
    match args {
        JsonView::Object(_) => args.with("profile_id"@, JsonView::Str(profile_id)),
        _ => JsonView::empty().with("profile_id"@, JsonView::Str(profile_id)),
    }
}

impl McpActionExecutor {
    /// The arguments to call a tool with on a profile.
    pub fn arguments(&self, profile_id: &str, args: Json) -> (r: Json)
        ensures
            r@ == for_profile(args@, profile_id@),
    {
        match args {
            Json::Object(o) => Json::Object(o).with("profile_id", Json::text(profile_id)),
            _ => Json::empty().with("profile_id", Json::text(profile_id)),
        }
    }

    /// What the failure of a tool is to a run.
    pub fn failure(&self, e: &McpError) -> (r: ActionError)
        ensures
            r.0@ == e@.debug(),
    {
        ActionError(debug_text(e))
    }
}

/// The profile that a tool is called on is the one of the run, whatever the
/// arguments say.
pub proof fn lemma_profile_is_the_runs(args: JsonView, profile_id: Seq<char>)
    ensures
        for_profile(args, profile_id).field_str("profile_id"@) == Some(profile_id),
{
    let base = match args {
        JsonView::Object(_) => args,
        _ => JsonView::empty(),
    };
    crate::json::lemma_field_with(base, "profile_id"@, JsonView::Str(profile_id), "profile_id"@);
}

} // verus!
