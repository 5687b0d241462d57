//! Requirement clarification and development planning: the conversations
//! sent to the model, the extraction of the JSON object from its reply, and
//! the responses built from the parsed results.
use vstd::prelude::*;
use crate::agent::types::{conversation, AgentContext, AgentResponse, DevelopmentPlan, PlanView, ResponseView};
use crate::llm::{chat, messages_view, ChatMessage, ChatMessageView};
use crate::models::ProjectType;
use crate::text::{chars_of, concat2, concat3, string_from_chars, strings_view, to_owned_string};

verus! {

/// The system prompt of the requirement analyst.
pub const CLARIFY_PROMPT: &'static str = "你是 DeepSeek Code Agent 的需求分析师。你的任务是判断用户的需求是否足够清晰，能否直接制定开发计划。\n\n如果信息足够，请回复 JSON: {\"sufficient\": true, \"questions\": []}\n如果信息不足，请回复 JSON: {\"sufficient\": false, \"questions\": [\"问题1\", \"问题2\", ...]}\n\n需要澄清的典型情况：\n- 用户想要的功能边界不清楚\n- 目标用户或使用场景不明确\n- 技术偏好未说明（但你可以主动建议）\n- 样式、布局、交互细节缺失\n- 数据来源或持久化需求不明确\n\n请只输出 JSON，不要输出其他内容。";

/// The planning prompt up to the technology stack.
pub const PLANNING_PROMPT_HEAD: &'static str = "你是 DeepSeek Code Agent 的开发规划师。请根据用户需求，为以下技术栈制定详细的开发计划：\n\n技术栈：";

/// The planning prompt after the technology stack.
pub const PLANNING_PROMPT_TAIL: &'static str = "\n\n请输出以下 JSON 格式：\n{\n  \"summary\": \"项目一句话描述\",\n  \"project_type\": \"desktop 或 website\",\n  \"stages\": [\n    {\n      \"name\": \"阶段名称\",\n      \"description\": \"阶段说明\",\n      \"tasks\": [\"具体任务1\", \"具体任务2\"]\n    }\n  ],\n  \"estimated_files\": [\"src/main.rs\", \"src/App.tsx\", ...],\n  \"dependencies\": [\"依赖1\", \"依赖2\"],\n  \"run_commands\": [\"cargo tauri dev\", ...]\n}\n\n要求：\n1. 计划要具体、可执行，每个阶段包含明确的任务。\n2. estimated_files 列出预计创建或修改的关键文件。\n3. dependencies 列出需要安装的依赖或 crate。\n4. run_commands 列出开发阶段需要运行的命令。\n5. 只输出 JSON，不要输出其他内容。";

/// The technology stack of desktop projects.
pub const DESKTOP_STACK: &'static str = "Rust + Tauri v2 + React + TypeScript + Tailwind CSS + SQLite";

/// The technology stack of website projects.
pub const WEBSITE_STACK: &'static str = "Rust + Tauri v2（桌面管理端）+ Axum（Web 后端）+ Vue3 + Vite（前端）+ SQLite";

// ---------------------------------------------------------------------------
// JSON extraction
// ---------------------------------------------------------------------------

/// Position of the first `c` in `s`, or -1.
pub open spec fn first_index_of(s: Seq<char>, c: char) -> int
    decreases s.len(),
{
    if s.len() == 0 {
        -1
    } else if s[0] == c {
        0
    } else {
        let r = first_index_of(s.drop_first(), c);
        if r < 0 {
            -1
        } else {
            r + 1
        }
    }
}

/// Position of the last `c` in `s`, or -1.
pub open spec fn last_index_of(s: Seq<char>, c: char) -> int
    decreases s.len(),
{
    if s.len() == 0 {
        -1
    } else if s.last() == c {
        s.len() - 1
    } else {
        last_index_of(s.drop_last(), c)
    }
}

/// The text cannot be cut: its last `}` stands more than one place before
/// its first `{` (slicing it would panic).
pub open spec fn json_cut_impossible(s: Seq<char>) -> bool {
    let a = first_index_of(s, '{');
    let b = last_index_of(s, '}');
    a >= 0 && b >= 0 && b + 1 < a
}

/// The text from the first `{` to the last `}`, both included, when both
/// occur; otherwise the whole text.
pub open spec fn json_span(s: Seq<char>) -> Seq<char> {
    let a = first_index_of(s, '{');
    let b = last_index_of(s, '}');
    if a >= 0 && b >= 0 {
        s.subrange(a, b + 1)
    } else {
        s
    }
}

proof fn lemma_first_index_of(s: Seq<char>, c: char)
    ensures
        -1 <= first_index_of(s, c) < s.len(),
        first_index_of(s, c) >= 0 ==> s[first_index_of(s, c)] == c,
        first_index_of(s, c) >= 0 ==> forall|k: int| 0 <= k < first_index_of(s, c) ==> s[k] != c,
        first_index_of(s, c) < 0 ==> forall|k: int| 0 <= k < s.len() ==> s[k] != c,
    decreases s.len(),
{
    if s.len() > 0 && s[0] != c {
        lemma_first_index_of(s.drop_first(), c);
        assert forall|k: int| 1 <= k < s.len() implies s[k] == s.drop_first()[k - 1] by {}
    }
}

proof fn lemma_last_index_of(s: Seq<char>, c: char)
    ensures
        -1 <= last_index_of(s, c) < s.len(),
        last_index_of(s, c) >= 0 ==> s[last_index_of(s, c)] == c,
        forall|k: int| last_index_of(s, c) < k < s.len() ==> s[k] != c,
    decreases s.len(),
{
    if s.len() > 0 && s.last() != c {
        lemma_last_index_of(s.drop_last(), c);
        assert forall|k: int| last_index_of(s, c) < k < s.len() implies s[k] != c by {
            if k < s.len() - 1 {
                assert(s[k] == s.drop_last()[k]);
            }
        }
    }
}

/// When a reply holds both braces, the extracted text opens with `{` and
/// closes with `}`.
pub proof fn lemma_json_span_braced(s: Seq<char>)
    requires
        first_index_of(s, '{') >= 0,
        last_index_of(s, '}') >= 0,
        !json_cut_impossible(s),
        first_index_of(s, '{') <= last_index_of(s, '}'),
    ensures
        json_span(s).len() >= 1,
        json_span(s)[0] == '{',
        json_span(s).last() == '}',
{
    lemma_first_index_of(s, '{');
    lemma_last_index_of(s, '}');
}

/// What is extracted from a reply: when `{` first occurs at `a` and `}`
/// last occurs at `b`, the text from `a` to `b` (both included) when
/// `a <= b`, the empty text when `b + 1 == a`, and an impossible cut when
/// `b + 1 < a`.
pub proof fn lemma_json_span_exact(s: Seq<char>, a: int, b: int)
    requires
        0 <= a < s.len(),
        0 <= b < s.len(),
        s[a] == '{',
        s[b] == '}',
        forall|k: int| 0 <= k < a ==> s[k] != '{',
        forall|k: int| b < k < s.len() ==> s[k] != '}',
    ensures
        json_cut_impossible(s) <==> b + 1 < a,
        b + 1 >= a ==> json_span(s) == s.subrange(a, b + 1),
{
    lemma_first_index_of(s, '{');
    lemma_last_index_of(s, '}');
    assert(first_index_of(s, '{') == a);
    assert(last_index_of(s, '}') == b);
}

/// A reply without `{`, or without `}`, is taken whole.
pub proof fn lemma_json_span_whole(s: Seq<char>)
    requires
        (forall|k: int| 0 <= k < s.len() ==> s[k] != '{') || (forall|k: int|
            0 <= k < s.len() ==> s[k] != '}'),
    ensures
        !json_cut_impossible(s),
        json_span(s) == s,
{
    lemma_first_index_of(s, '{');
    lemma_last_index_of(s, '}');
}

fn find_first(s: &Vec<char>, c: char) -> (r: Option<usize>)
    ensures
        match r {
            Some(i) => i < s@.len() && i as int == first_index_of(s@, c),
            None => first_index_of(s@, c) < 0,
        },
{
    proof {
        lemma_first_index_of(s@, c);
    }
    let mut i: usize = 0;
    while i < s.len()
        invariant
            i <= s.len(),
            forall|k: int| 0 <= k < i ==> s@[k] != c,
        decreases s.len() - i,
    {
        if s[i] == c {
            proof {
                lemma_first_index_of(s@, c);
            }
            return Some(i);
        }
        i = i + 1;
    }
    None
}

fn find_last(s: &Vec<char>, c: char) -> (r: Option<usize>)
    ensures
        match r {
            Some(i) => i < s@.len() && i as int == last_index_of(s@, c),
            None => last_index_of(s@, c) < 0,
        },
{
    proof {
        lemma_last_index_of(s@, c);
    }
    let mut i: usize = s.len();
    while i > 0
        invariant
            i <= s.len(),
            forall|k: int| i <= k < s.len() ==> s@[k] != c,
        decreases i,
    {
        if s[i - 1] == c {
            proof {
                lemma_last_index_of(s@, c);
            }
            return Some(i - 1);
        }
        i = i - 1;
    }
    None
}

/// The JSON object in a model reply: from its first `{` to its last `}`,
/// or the whole reply when either is missing.
pub fn extract_json(text: &str) -> (res: String)
    requires
        !json_cut_impossible(text@),
    ensures
        res@ == json_span(text@),
{
    let s = chars_of(text);
    match find_first(&s, '{') {
        Some(start) => match find_last(&s, '}') {
            Some(end) => {
                let mut out: Vec<char> = Vec::new();
                let mut k: usize = start;
                while k <= end
                    invariant
                        start <= k <= end + 1,
                        end < s.len(),
                        out@ =~= s@.subrange(start as int, k as int),
                    decreases end + 1 - k,
                {
                    out.push(s[k]);
                    k = k + 1;
                }
                string_from_chars(&out)
            },
            None => to_owned_string(text),
        },
        None => to_owned_string(text),
    }
}

/// The JSON object in a model reply, or `None` when its last `}` stands
/// before its first `{` so that no span can be cut.
pub fn try_extract_json(text: &str) -> (res: Option<String>)
    ensures
        match res {
            Some(s) => !json_cut_impossible(text@) && s@ == json_span(text@),
            None => json_cut_impossible(text@),
        },
{
    let s = chars_of(text);
    match (find_first(&s, '{'), find_last(&s, '}')) {
        (Some(start), Some(end)) => {
            if end + 1 < start {
                return None;
            }
        },
        _ => {},
    }
    Some(extract_json(text))
}

// ---------------------------------------------------------------------------
// Clarification
// ---------------------------------------------------------------------------

/// The request asking whether the latest input is clear enough.
pub open spec fn clarify_request(user_input: Seq<char>) -> Seq<char> {
    "用户最新输入："@ + user_input + "\n\n请判断需求是否清晰，并按要求输出 JSON。"@
}

/// The conversation asking the model whether the requirements are clear.
pub fn clarify_messages(ctx: &AgentContext, user_input: &str) -> (res: Vec<ChatMessage>)
    ensures
        messages_view(res@) == conversation(CLARIFY_PROMPT@, ctx.messages@).push(
            chat("user"@, clarify_request(user_input@)),
        ),
{
    let mut messages = ctx.to_chat_messages(CLARIFY_PROMPT);
    let req = concat3("用户最新输入：", user_input, "\n\n请判断需求是否清晰，并按要求输出 JSON。");
    let ghost before = messages@;
    messages.push(ChatMessage::user(req));
    assert(messages_view(messages@) =~= messages_view(before).push(
        chat("user"@, clarify_request(user_input@)),
    ));
    messages
}

/// The response to the clarification answer: the questions when the
/// requirements are unclear and some were asked, otherwise a message that
/// planning follows.
pub open spec fn clarify_response(sufficient: bool, questions: Seq<Seq<char>>) -> ResponseView {
    if sufficient || questions.len() == 0 {
        ResponseView::Message { content: "需求已明确，接下来为你制定开发计划。"@ }
    } else {
        ResponseView::Clarification { questions }
    }
}

/// Turns the clarification answer into the agent's response.
pub fn clarify_outcome(sufficient: bool, questions: Vec<String>) -> (res: AgentResponse)
    ensures
        res@ == clarify_response(sufficient, strings_view(questions@)),
{
    if sufficient || questions.len() == 0 {
        AgentResponse::Message { content: to_owned_string("需求已明确，接下来为你制定开发计划。") }
    } else {
        AgentResponse::Clarification { questions }
    }
}

// ---------------------------------------------------------------------------
// Planning
// ---------------------------------------------------------------------------

/// The technology stack of a project type.
pub open spec fn tech_stack(t: ProjectType) -> Seq<char> {
    match t {
        ProjectType::Desktop => DESKTOP_STACK@,
        ProjectType::Website => WEBSITE_STACK@,
    }
}

/// The planning prompt for a project type.
pub open spec fn planning_prompt_text(t: ProjectType) -> Seq<char> {
    PLANNING_PROMPT_HEAD@ + tech_stack(t) + PLANNING_PROMPT_TAIL@
}

/// The planning prompt for a project type, naming its technology stack.
pub fn planning_prompt(project_type: ProjectType) -> (s: String)
    ensures
        s@ == planning_prompt_text(project_type),
{
    let stack = match project_type {
        ProjectType::Desktop => DESKTOP_STACK,
        ProjectType::Website => WEBSITE_STACK,
    };
    concat3(PLANNING_PROMPT_HEAD, stack, PLANNING_PROMPT_TAIL)
}

/// The conversation asking the model for a plan.
pub fn plan_messages(ctx: &AgentContext) -> (res: Vec<ChatMessage>)
    ensures
        messages_view(res@) == conversation(planning_prompt_text(ctx.project_type), ctx.messages@),
{
    let prompt = planning_prompt(ctx.project_type);
    ctx.to_chat_messages(prompt.as_str())
}

/// The planning prompt extended with the user's feedback.
pub open spec fn replan_prompt(t: ProjectType, feedback: Seq<char>) -> Seq<char> {
    planning_prompt_text(t) + "\n\n用户对上次的计划有如下反馈，请根据反馈重新制定开发计划，输出相同 JSON 格式。\n反馈："@
        + feedback
}

/// The request carrying the previous plan and the feedback.
pub open spec fn replan_request(previous_plan_json: Seq<char>, feedback: Seq<char>) -> Seq<char> {
    "之前的计划："@ + previous_plan_json + "\n\n用户反馈："@ + feedback + "\n\n请重新制定计划。"@
}

/// The conversation asking the model for a revised plan, given the previous
/// plan's JSON text and the user's feedback.
pub fn replan_messages(ctx: &AgentContext, feedback: &str, previous_plan_json: &str) -> (res: Vec<
    ChatMessage,
>)
    ensures
        messages_view(res@) == conversation(replan_prompt(ctx.project_type, feedback@), ctx.messages@).push(
            chat("user"@, replan_request(previous_plan_json@, feedback@)),
        ),
{
    let mut prompt = planning_prompt(ctx.project_type);
    prompt.append("\n\n用户对上次的计划有如下反馈，请根据反馈重新制定开发计划，输出相同 JSON 格式。\n反馈：");
    prompt.append(feedback);
    let mut messages = ctx.to_chat_messages(prompt.as_str());
    let mut req = concat3("之前的计划：", previous_plan_json, "\n\n用户反馈：");
    req.append(feedback);
    req.append("\n\n请重新制定计划。");
    let ghost before = messages@;
    messages.push(ChatMessage::user(req));
    assert(messages_view(messages@) =~= messages_view(before).push(
        chat("user"@, replan_request(previous_plan_json@, feedback@)),
    ));
    messages
}

/// A parsed plan presented to the user, with its project type set to the
/// project's own, whatever the model wrote.
pub fn finish_plan(plan: DevelopmentPlan, project_type: ProjectType) -> (res: AgentResponse)
    ensures
        res@ == (ResponseView::Plan { plan: PlanView { project_type, ..plan@ } }),
{
    let mut plan = plan;
    plan.project_type = project_type;
    AgentResponse::Plan { plan }
}

} // verus!
