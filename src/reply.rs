use vstd::prelude::*;
use vstd::string::StringExecFns;

use crate::ids::{id_text, uuid_text};
use crate::server_state::{Candidate, DispatchError, ResolveError, SelectError};
use crate::text::{join, lemma_join_step, push_str};

verus! {

/// What a tool call answers: a text, marked as an error or not.
pub struct ToolReply {
    pub is_error: bool,
    pub text: String,
}

/// One line of a listing of candidates.
pub open spec fn candidate_line(c: Candidate) -> Seq<char> {
    "  "@ + uuid_text(c.studio_id) + " - "@ + c.place_name@
}

pub open spec fn candidate_lines(cs: Seq<Candidate>) -> Seq<Seq<char>> {
    cs.map_values(|c: Candidate| candidate_line(c))
}

/// The listing of candidates, one per line.
pub open spec fn listing(cs: Seq<Candidate>) -> Seq<char> {
    join(candidate_lines(cs), "\n"@)
}

pub open spec fn resolve_message(e: ResolveError) -> Seq<char> {
    match e {
        ResolveError::StaleSelection(id) => "Selected studio "@ + uuid_text(id)
            + " is no longer connected. Call `list_studios` to see available studios, then `set_studio` to select one."@,
        ResolveError::NoneConnected => "No Studio instances connected. Open Roblox Studio with the MCP plugin enabled."@,
        ResolveError::Ambiguous(cs) => "Multiple studios connected. Call `set_studio` with one of these studio_ids first:\n"@
            + listing(cs@),
    }
}

pub open spec fn dispatch_message(e: DispatchError) -> Seq<char> {
    match e {
        DispatchError::Resolve(r) => resolve_message(r),
        DispatchError::DuplicateId => "Request identity is already in flight. Try the call again."@,
    }
}

pub open spec fn select_message(e: SelectError) -> Seq<char> {
    match e {
        SelectError::InvalidId(t) => "Invalid studio_id: "@ + t@,
        SelectError::UnknownStudio(id, cs) => "No studio with studio_id "@ + uuid_text(id) + ".\nAvailable:\n"@
            + listing(cs@),
    }
}

/// Appends the listing of `cs`.
fn push_listing(out: &mut String, cs: &Vec<Candidate>)
    ensures
        final(out)@ == old(out)@ + listing(cs@),
{
    let ghost start = out@;
    let ghost parts = candidate_lines(cs@);
    let mut k: usize = 0;
    while k < cs.len()
        invariant
            k <= cs@.len(),
            parts == candidate_lines(cs@),
            out@ == start + join(parts.take(k as int), "\n"@),
        decreases cs.len() - k,
    {
        proof {
            lemma_join_step(parts, k as int, "\n"@);
        }
        if k > 0 {
            push_str(out, "\n");
        }
        let c = &cs[k];
        push_str(out, "  ");
        let id = id_text(c.studio_id);
        push_str(out, id.as_str());
        push_str(out, " - ");
        push_str(out, c.place_name.as_str());
        k = k + 1;
        assert(out@ =~= start + join(parts.take(k as int), "\n"@));
    }
    assert(parts.take(k as int) =~= parts);
}

impl ResolveError {
    /// The text shown to the caller, with guidance on what to do next.
    pub fn message(&self) -> (r: String)
        ensures
            r@ == resolve_message(*self),
    {
        match self {
            ResolveError::StaleSelection(id) => {
                let mut out = String::from_str("Selected studio ");
                let t = id_text(*id);
                push_str(&mut out, t.as_str());
                push_str(
                    &mut out,
                    " is no longer connected. Call `list_studios` to see available studios, then `set_studio` to select one.",
                );
                out
            },
            ResolveError::NoneConnected => String::from_str(
                "No Studio instances connected. Open Roblox Studio with the MCP plugin enabled.",
            ),
            ResolveError::Ambiguous(cs) => {
                let mut out = String::from_str(
                    "Multiple studios connected. Call `set_studio` with one of these studio_ids first:\n",
                );
                push_listing(&mut out, cs);
                out
            },
        }
    }
}

impl DispatchError {
    /// The text shown to the caller, with guidance on what to do next.
    pub fn message(&self) -> (r: String)
        ensures
            r@ == dispatch_message(*self),
    {
        match self {
            DispatchError::Resolve(e) => e.message(),
            DispatchError::DuplicateId => String::from_str("Request identity is already in flight. Try the call again."),
        }
    }
}

impl SelectError {
    /// The text shown to the caller, with the live alternatives where there are any.
    pub fn message(&self) -> (r: String)
        ensures
            r@ == select_message(*self),
    {
        match self {
            SelectError::InvalidId(t) => {
                let mut out = String::from_str("Invalid studio_id: ");
                push_str(&mut out, t.as_str());
                out
            },
            SelectError::UnknownStudio(id, cs) => {
                let mut out = String::from_str("No studio with studio_id ");
                let t = id_text(*id);
                push_str(&mut out, t.as_str());
                push_str(&mut out, ".\nAvailable:\n");
                push_listing(&mut out, cs);
                out
            },
        }
    }
}

/// The failure a pending request receives when its connection goes away.
pub fn disconnect_notice() -> (r: String)
    ensures
        r@ == "Studio disconnected"@,
{
    String::from_str("Studio disconnected")
}

/// The reply of a dispatch that could not start.
pub fn dispatch_error_reply(e: &DispatchError) -> (r: ToolReply)
    ensures
        r.is_error,
        r.text@ == dispatch_message(*e),
{
    ToolReply { is_error: true, text: e.message() }
}

/// The reply of a dispatch once its completion fired: the instance's text, marked as an
/// error when it reported failure; `None` (the completion was dropped unfired) reads as
/// a disconnection.
pub fn completion_reply(outcome: Option<Result<String, String>>) -> (r: ToolReply)
    ensures
        match outcome {
            Some(Ok(t)) => !r.is_error && r.text@ == t@,
            Some(Err(t)) => r.is_error && r.text@ == t@,
            None => r.is_error && r.text@
                == "Studio disconnected while waiting for response. Call `list_studios` to see available studios."@,
        },
{
    match outcome {
        Some(Ok(t)) => ToolReply { is_error: false, text: t },
        Some(Err(t)) => ToolReply { is_error: true, text: t },
        None => ToolReply {
            is_error: true,
            text: String::from_str(
                "Studio disconnected while waiting for response. Call `list_studios` to see available studios.",
            ),
        },
    }
}

} // verus!
