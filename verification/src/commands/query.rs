//! `fsy query`: build the query request, and render the answer's guidance and summary.

use vstd::prelude::*;
use crate::commands::QueryInputArgs;
use crate::models::{
    QueryGuidance, QueryRequest, QueryResponse, spec_default_budget, spec_default_intent,
    spec_default_response_format,
};
use crate::numbers::{parse_u32, parsed_u32};
use crate::text::{is_blank, join, join_strings, text_is_blank, views};

verus! {

/// Options of the `query` command.
#[derive(Debug, Clone, PartialEq, Eq)]
pub struct QueryCmd {
    /// External repository identifier.
    pub repo_id: String,
    pub input: QueryInputArgs,
    /// Print the server's JSON answer instead of a summary.
    pub json: bool,
}

/// Why a query request cannot be built.
#[derive(Debug, Clone, PartialEq, Eq)]
pub enum QueryError {
    /// A task id without a task revision, or a revision without an id.
    TaskAssociationIncomplete,
}

impl QueryError {
    /// The message that the command prints for this error.
    pub fn message(&self) -> (r: String)
        ensures
            r@ == "task association requires both task id and task revision"@,
    {
        String::from_str("task association requires both task id and task revision")
    }
}

/// The task a query is associated with: the option, or else a non-blank `FORMSY_TASK_ID`.
pub open spec fn resolved_task_id(input: QueryInputArgs, env_task_id: Option<String>) -> Option<Seq<char>> {
    match input.task_id {
        Some(t) => Some(t@),
        None => match env_task_id {
            Some(e) => if is_blank(e@) {
                None
            } else {
                Some(e@)
            },
            None => None,
        },
    }
}

/// The task revision of a query: the option, or else `FORMSY_TASK_REVISION` where it parses
/// as a `u32`.
pub open spec fn resolved_task_revision(input: QueryInputArgs, env_task_revision: Option<String>) -> Option<u32> {
    match input.task_revision {
        Some(r) => Some(r),
        None => match env_task_revision {
            Some(s) => parsed_u32(s@),
            None => None,
        },
    }
}

/// The task options win over the environment: a given `--task-id` or `--task-revision` is used
/// whatever `FORMSY_TASK_ID` and `FORMSY_TASK_REVISION` hold; without the option, a non-blank
/// `FORMSY_TASK_ID` and a `FORMSY_TASK_REVISION` that reads as a number stand in; nothing else
/// associates a task.
pub proof fn lemma_task_options_win(
    input: QueryInputArgs,
    env_task_id: Option<String>,
    env_task_revision: Option<String>,
)
    ensures
        forall|t: String| input.task_id == Some(t) ==> resolved_task_id(input, env_task_id) == Some(t@),
        forall|r: u32| input.task_revision == Some(r) ==> resolved_task_revision(input, env_task_revision) == Some(r),
        forall|e: String|
            input.task_id is None && env_task_id == Some(e) && !is_blank(e@) ==> resolved_task_id(input, env_task_id)
                == Some(e@),
        forall|e: String|
            input.task_revision is None && env_task_revision == Some(e) ==> resolved_task_revision(input, env_task_revision)
                == parsed_u32(e@),
        resolved_task_id(input, env_task_id) is Some ==> input.task_id is Some || (env_task_id is Some
            && !is_blank(env_task_id->0@)),
        resolved_task_revision(input, env_task_revision) is Some ==> input.task_revision is Some
            || env_task_revision is Some,
{
}

fn clone_opt(s: &Option<String>) -> (r: Option<String>)
    ensures
        r == *s,
{
    match s {
        Some(t) => Some(t.clone()),
        None => None,
    }
}

/// Builds the query request of the options (shared by `search`). `env_task_id` and
/// `env_task_revision` are the values of `FORMSY_TASK_ID` and `FORMSY_TASK_REVISION`, which
/// stand in for the task options that are not given. The task id and revision are sent as a
/// pair: one without the other is an error.
pub fn build_request(
    repo_id: &str,
    input: &QueryInputArgs,
    env_task_id: Option<String>,
    env_task_revision: Option<String>,
) -> (r: Result<QueryRequest, QueryError>)
    ensures
        r is Err <==> (resolved_task_id(*input, env_task_id) is Some) != (resolved_task_revision(
            *input,
            env_task_revision,
        ) is Some),
        r is Err ==> r == Err::<QueryRequest, QueryError>(QueryError::TaskAssociationIncomplete),
        r matches Ok(req) ==> {
            &&& req.repo_id@ == repo_id@
            &&& req.query == input.query
            &&& req.revision == input.revision
            &&& req.intent@ == match input.intent {
                Some(i) => i@,
                None => spec_default_intent(),
            }
            &&& req.budget == match input.budget {
                Some(b) => b,
                None => spec_default_budget(),
            }
            &&& req.response_format@ == match input.response_format {
                Some(f) => f@,
                None => spec_default_response_format(),
            }
            &&& req.owner_id is None
            &&& match req.task_id {
                Some(t) => Some(t@),
                None => None,
            } == resolved_task_id(*input, env_task_id)
            &&& req.task_revision == resolved_task_revision(*input, env_task_revision)
            &&& (req.task_id is Some) == (req.task_revision is Some)
        },
{
    let mut request = QueryRequest::new(String::from_str(repo_id), input.query.clone());
    request.revision = clone_opt(&input.revision);
    match &input.intent {
        Some(intent) => request.intent = intent.clone(),
        None => {},
    }
    match input.budget {
        Some(budget) => request.budget = budget,
        None => {},
    }
    match &input.response_format {
        Some(f) => request.response_format = f.clone(),
        None => {},
    }
    let task_id: Option<String> = match &input.task_id {
        Some(t) => Some(t.clone()),
        None => match env_task_id {
            Some(e) => if text_is_blank(e.as_str()) {
                None
            } else {
                Some(e)
            },
            None => None,
        },
    };
    let task_revision: Option<u32> = match input.task_revision {
        Some(r) => Some(r),
        None => match &env_task_revision {
            Some(s) => parse_u32(s.as_str()),
            None => None,
        },
    };
    if task_id.is_some() != task_revision.is_some() {
        return Err(QueryError::TaskAssociationIncomplete);
    }
    request.task_id = task_id;
    request.task_revision = task_revision;
    Ok(request)
}

// ---------------------------------------------------------------------------
// Guidance
// ---------------------------------------------------------------------------

/// `label` followed by `value`, as a one-line list, or no line when `value` is empty.
pub open spec fn labelled(label: Seq<char>, value: Seq<char>) -> Seq<Seq<char>> {
    if value.len() > 0 {
        seq![label + value]
    } else {
        Seq::empty()
    }
}

/// The identity parts of the guidance, in the order decision, mode, code.
pub open spec fn guidance_identity(g: QueryGuidance) -> Seq<Seq<char>> {
    labelled("decision="@, g.decision@) + labelled("mode="@, g.mode@) + labelled("code="@, g.code@)
}

/// One `- <action>` line per required action that is not blank.
pub open spec fn action_lines(actions: Seq<Seq<char>>) -> Seq<Seq<char>>
    decreases actions.len(),
{
    if actions.len() == 0 {
        Seq::empty()
    } else {
        action_lines(actions.drop_last()) + if is_blank(actions.last()) {
            Seq::<Seq<char>>::empty()
        } else {
            seq!["- "@ + actions.last()]
        }
    }
}

/// The lines of the rendered guidance: the identity parts joined by spaces, the summary, the
/// fallback path, the preferred next step, then the required actions.
pub open spec fn guidance_lines(g: QueryGuidance) -> Seq<Seq<char>> {
    let identity = guidance_identity(g);
    (if identity.len() > 0 {
        seq![join(identity, " "@)]
    } else {
        Seq::<Seq<char>>::empty()
    }) + (if g.summary@.len() > 0 {
        seq![g.summary@]
    } else {
        Seq::<Seq<char>>::empty()
    }) + labelled("fallback="@, g.fallback_path@) + labelled("next="@, g.preferred_next_step@)
        + action_lines(views(g.required_next_actions@))
}

/// The rendered guidance: its lines joined by newlines, or nothing when it has no line.
pub open spec fn rendered_guidance(g: QueryGuidance) -> Option<Seq<char>> {
    let lines = guidance_lines(g);
    if lines.len() > 0 {
        Some(join(lines, "\n"@))
    } else {
        None
    }
}

/// Every required action that is not blank gets its `- <action>` line, in order, and nothing
/// else does: the lines are as many as the non-blank actions.
proof fn lemma_action_lines(actions: Seq<Seq<char>>)
    ensures
        action_lines(actions).len() == 0 <==> forall|i: int| 0 <= i < actions.len() ==> is_blank(#[trigger] actions[i]),
        forall|i: int| 0 <= i < actions.len() && !is_blank(#[trigger] actions[i]) ==> action_lines(actions).contains(
            "- "@ + actions[i],
        ),
    decreases actions.len(),
{
    if actions.len() > 0 {
        let init = actions.drop_last();
        lemma_action_lines(init);
        let tail: Seq<Seq<char>> = if is_blank(actions.last()) {
            Seq::<Seq<char>>::empty()
        } else {
            seq!["- "@ + actions.last()]
        };
        assert(action_lines(actions) == action_lines(init) + tail);
        assert forall|i: int| 0 <= i < actions.len() && !is_blank(#[trigger] actions[i]) implies action_lines(
            actions,
        ).contains("- "@ + actions[i]) by {
            if i < actions.len() - 1 {
                assert(init[i] == actions[i]);
                let k = choose|k: int| 0 <= k < action_lines(init).len() && action_lines(init)[k] == "- "@ + init[i];
                assert(action_lines(actions)[k] == "- "@ + actions[i]);
            } else {
                assert(action_lines(actions)[action_lines(init).len() as int] == "- "@ + actions[i]);
            }
        }
        if forall|i: int| 0 <= i < actions.len() ==> is_blank(#[trigger] actions[i]) {
            assert forall|i: int| 0 <= i < init.len() implies is_blank(#[trigger] init[i]) by {
                assert(init[i] == actions[i]);
            }
            assert(is_blank(actions[actions.len() - 1]));
        }
        if action_lines(actions).len() == 0 {
            assert forall|i: int| 0 <= i < actions.len() implies is_blank(#[trigger] actions[i]) by {
                if i < actions.len() - 1 {
                    assert(init[i] == actions[i]);
                }
            }
        }
    }
}

/// The guidance renders to nothing exactly when it has nothing to show: no decision, mode, code,
/// summary, fallback path or next step, and only blank required actions. Whatever it has shows:
/// the summary as a line of its own and each non-blank required action as a `- <action>` line.
pub proof fn lemma_guidance_shows_what_it_has(g: QueryGuidance)
    ensures
        rendered_guidance(g) is None <==> (g.decision@.len() == 0 && g.mode@.len() == 0 && g.code@.len() == 0
            && g.summary@.len() == 0 && g.fallback_path@.len() == 0 && g.preferred_next_step@.len() == 0
            && forall|i: int| 0 <= i < g.required_next_actions@.len() ==> is_blank(
            #[trigger] g.required_next_actions@[i]@,
        )),
        g.summary@.len() > 0 ==> guidance_lines(g).contains(g.summary@),
        g.fallback_path@.len() > 0 ==> guidance_lines(g).contains("fallback="@ + g.fallback_path@),
        g.preferred_next_step@.len() > 0 ==> guidance_lines(g).contains("next="@ + g.preferred_next_step@),
        forall|i: int|
            0 <= i < g.required_next_actions@.len() && !is_blank(#[trigger] g.required_next_actions@[i]@)
                ==> guidance_lines(g).contains("- "@ + g.required_next_actions@[i]@),
{
    let acts = views(g.required_next_actions@);
    lemma_action_lines(acts);
    let identity = guidance_identity(g);
    let head: Seq<Seq<char>> = if identity.len() > 0 {
        seq![join(identity, " "@)]
    } else {
        Seq::<Seq<char>>::empty()
    };
    let summary: Seq<Seq<char>> = if g.summary@.len() > 0 {
        seq![g.summary@]
    } else {
        Seq::<Seq<char>>::empty()
    };
    let fb = labelled("fallback="@, g.fallback_path@);
    let nx = labelled("next="@, g.preferred_next_step@);
    let al = action_lines(acts);
    let lines = guidance_lines(g);
    assert(lines == head + summary + fb + nx + al);
    assert forall|i: int| 0 <= i < acts.len() implies (#[trigger] acts[i]) == g.required_next_actions@[i]@ by {}
    if g.summary@.len() > 0 {
        assert(lines[head.len() as int] == g.summary@);
    }
    if g.fallback_path@.len() > 0 {
        assert(lines[(head.len() + summary.len()) as int] == "fallback="@ + g.fallback_path@);
    }
    if g.preferred_next_step@.len() > 0 {
        assert(lines[(head.len() + summary.len() + fb.len()) as int] == "next="@ + g.preferred_next_step@);
    }
    let off: int = (head.len() + summary.len() + fb.len() + nx.len()) as int;
    assert forall|i: int|
        0 <= i < g.required_next_actions@.len() && !is_blank(#[trigger] g.required_next_actions@[i]@) implies lines.contains(
        "- "@ + g.required_next_actions@[i]@,
    ) by {
        assert(acts[i] == g.required_next_actions@[i]@);
        assert(!is_blank(acts[i]));
        let k = choose|k: int| 0 <= k < al.len() && al[k] == "- "@ + acts[i];
        assert(lines[off + k] == al[k]);
    }
    if identity.len() == 0 {
        assert(g.decision@.len() == 0 && g.mode@.len() == 0 && g.code@.len() == 0);
    }
    if g.decision@.len() > 0 || g.mode@.len() > 0 || g.code@.len() > 0 {
        assert(identity.len() > 0);
    }
    if lines.len() == 0 {
        assert forall|i: int| 0 <= i < g.required_next_actions@.len() implies is_blank(
            #[trigger] g.required_next_actions@[i]@,
        ) by {
            assert(acts[i] == g.required_next_actions@[i]@);
        }
    }
    if forall|i: int| 0 <= i < g.required_next_actions@.len() ==> is_blank(#[trigger] g.required_next_actions@[i]@) {
        assert forall|i: int| 0 <= i < acts.len() implies is_blank(#[trigger] acts[i]) by {
            assert(acts[i] == g.required_next_actions@[i]@);
        }
    }
}

fn push_labelled(lines: &mut Vec<String>, label: &str, value: &str)
    ensures
        views(final(lines)@) == views(old(lines)@) + labelled(label@, value@),
{
    if value.unicode_len() > 0 {
        let mut line = String::from_str(label);
        line.append(value);
        let ghost before = views(lines@);
        lines.push(line);
        assert(views(lines@) =~= before + labelled(label@, value@));
    } else {
        assert(views(lines@) =~= views(lines@) + labelled(label@, value@));
    }
}

/// Renders the part of the agent guidance that concerns this query; what the server repeats
/// of the compile-time task contract is not part of it. `None` when there is nothing to show.
pub fn render_agent_guidance(guidance: &QueryGuidance) -> (r: Option<String>)
    ensures
        match r {
            Some(t) => rendered_guidance(*guidance) == Some(t@),
            None => rendered_guidance(*guidance) is None,
        },
{
    let mut identity: Vec<String> = Vec::new();
    assert(views(identity@) =~= Seq::<Seq<char>>::empty());
    push_labelled(&mut identity, "decision=", guidance.decision.as_str());
    push_labelled(&mut identity, "mode=", guidance.mode.as_str());
    push_labelled(&mut identity, "code=", guidance.code.as_str());
    assert(views(identity@) =~= guidance_identity(*guidance));
    let mut lines: Vec<String> = Vec::new();
    assert(views(lines@) =~= Seq::<Seq<char>>::empty());
    if identity.len() > 0 {
        let joined = join_strings(&identity, " ");
        lines.push(joined);
        assert(views(lines@) =~= seq![join(guidance_identity(*guidance), " "@)]);
    }
    let ghost with_identity = views(lines@);
    if guidance.summary.as_str().unicode_len() > 0 {
        lines.push(guidance.summary.clone());
        assert(views(lines@) =~= with_identity.push(guidance.summary@));
    }
    push_labelled(&mut lines, "fallback=", guidance.fallback_path.as_str());
    push_labelled(&mut lines, "next=", guidance.preferred_next_step.as_str());
    let ghost head = views(lines@);
    let actions = &guidance.required_next_actions;
    let mut i: usize = 0;
    assert(views(actions@).subrange(0, 0) =~= Seq::<Seq<char>>::empty());
    assert(head =~= head + action_lines(views(actions@).subrange(0, 0)));
    while i < actions.len()
        invariant
            i <= actions.len(),
            views(lines@) == head + action_lines(views(actions@).subrange(0, i as int)),
        decreases actions.len() - i,
    {
        let ghost prev = views(actions@).subrange(0, i as int);
        let ghost next = views(actions@).subrange(0, i + 1);
        assert(next.drop_last() =~= prev);
        assert(next.last() == actions@[i as int]@);
        let ghost before = views(lines@);
        if !text_is_blank(actions[i].as_str()) {
            let mut line = String::from_str("- ");
            line.append(actions[i].as_str());
            lines.push(line);
            assert(views(lines@) =~= before.push(line@));
            assert(!is_blank(next.last()));
            assert(action_lines(next) == action_lines(prev) + seq!["- "@ + next.last()]);
            assert(views(lines@) =~= head + action_lines(next));
        } else {
            assert(views(lines@) =~= head + action_lines(next));
        }
        i = i + 1;
    }
    assert(views(actions@).subrange(0, actions.len() as int) =~= views(actions@));
    assert(views(lines@) =~= guidance_lines(*guidance));
    if lines.len() > 0 {
        Some(join_strings(&lines, "\n"))
    } else {
        None
    }
}

/// The lines that `fsy query` prints for an answer: a warning when the server reports an error
/// code, the guidance, the retrieved context (or a note that it is empty), then the status.
pub open spec fn query_report(resp: QueryResponse) -> Seq<Seq<char>> {
    (if resp.error_code@.len() > 0 {
        seq!["[warn] error_code="@ + resp.error_code@ + " retrieval_state="@ + resp.retrieval_state@]
    } else {
        Seq::<Seq<char>>::empty()
    }) + (match rendered_guidance(resp.guidance) {
        Some(t) => seq!["[guidance]\n"@ + t],
        None => Seq::<Seq<char>>::empty(),
    }) + seq![
        if is_blank(resp.extra_context@) {
            "[ok] query returned empty extra_context"@
        } else {
            resp.extra_context@
        },
        "[status] coverage="@ + resp.coverage@ + " next="@ + resp.preferred_next_step@,
    ]
}

/// What `fsy query` prints, line by line: the warning first when the answer carries an error
/// code; then the rendered guidance, whenever the guidance renders to some text, whatever the
/// error code; then the context (or the note that it is empty) and the status line.
pub proof fn lemma_query_report_lines(resp: QueryResponse)
    ensures
        ({
            let r = query_report(resp);
            let w: int = if resp.error_code@.len() > 0 { 1int } else { 0int };
            let g: int = if rendered_guidance(resp.guidance) is Some { 1int } else { 0int };
            &&& r.len() == w + g + 2
            &&& resp.error_code@.len() > 0 ==> r[0] == "[warn] error_code="@ + resp.error_code@
                + " retrieval_state="@ + resp.retrieval_state@
            &&& forall|t: Seq<char>| rendered_guidance(resp.guidance) == Some(t) ==> r[w] == "[guidance]\n"@ + t
            &&& forall|t: Seq<char>| rendered_guidance(resp.guidance) == Some(t) ==> r.contains("[guidance]\n"@ + t)
            &&& r[w + g] == if is_blank(resp.extra_context@) {
                "[ok] query returned empty extra_context"@
            } else {
                resp.extra_context@
            }
            &&& r[w + g + 1] == "[status] coverage="@ + resp.coverage@ + " next="@ + resp.preferred_next_step@
        }),
{
    let r = query_report(resp);
    let w: int = if resp.error_code@.len() > 0 { 1int } else { 0int };
    if let Some(t) = rendered_guidance(resp.guidance) {
        assert(r[w] == "[guidance]\n"@ + t);
    }
}

/// The lines that `fsy query` prints for an answer.
pub fn query_report_lines(resp: &QueryResponse) -> (r: Vec<String>)
    ensures
        views(r@) == query_report(*resp),
{
    let mut lines: Vec<String> = Vec::new();
    let ghost empty = views(lines@);
    assert(empty =~= Seq::<Seq<char>>::empty());
    if resp.error_code.as_str().unicode_len() > 0 {
        let mut w = String::from_str("[warn] error_code=");
        w.append(resp.error_code.as_str());
        w.append(" retrieval_state=");
        w.append(resp.retrieval_state.as_str());
        lines.push(w);
    }
    let ghost after_warn = views(lines@);
    match render_agent_guidance(&resp.guidance) {
        Some(g) => {
            let mut t = String::from_str("[guidance]\n");
            t.append(g.as_str());
            lines.push(t);
            assert(views(lines@) =~= after_warn.push(t@));
        },
        None => {},
    }
    let ghost after_guidance = views(lines@);
    let body = if text_is_blank(resp.extra_context.as_str()) {
        String::from_str("[ok] query returned empty extra_context")
    } else {
        resp.extra_context.clone()
    };
    lines.push(body);
    let mut status = String::from_str("[status] coverage=");
    status.append(resp.coverage.as_str());
    status.append(" next=");
    status.append(resp.preferred_next_step.as_str());
    lines.push(status);
    assert(views(lines@) =~= after_guidance.push(body@).push(status@));
    assert(views(lines@) =~= query_report(*resp));
    lines
}

} // verus!
