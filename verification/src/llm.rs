//! Chat messages exchanged with the language model, and the aggregation of
//! a streamed completion: content is concatenated and tool-call fragments
//! are merged by their index.
use vstd::prelude::*;
use crate::text::{copy_string, opt_str_view, strings_view, to_owned_string};

verus! {

// ---------------------------------------------------------------------------
// Chat messages
// ---------------------------------------------------------------------------

/// One message of a chat completion request.
#[derive(Debug)]
pub struct ChatMessage {
    pub role: String,
    pub content: String,
}

/// A chat message as a pair of texts: role and content.
pub struct ChatMessageView {
    pub role: Seq<char>,
    pub content: Seq<char>,
}

impl View for ChatMessage {
    type V = ChatMessageView;

    open spec fn view(&self) -> ChatMessageView {
        ChatMessageView { role: self.role@, content: self.content@ }
    }
}

/// The views of a sequence of chat messages.
pub open spec fn messages_view(ms: Seq<ChatMessage>) -> Seq<ChatMessageView> {
    ms.map_values(|m: ChatMessage| m@)
}

/// A message with the given role and content.
pub open spec fn chat(role: Seq<char>, content: Seq<char>) -> ChatMessageView {
    ChatMessageView { role, content }
}

impl ChatMessage {
    /// A system message.
    pub fn system(content: String) -> (m: ChatMessage)
        ensures
            m@ == chat("system"@, content@),
    {
        ChatMessage { role: to_owned_string("system"), content }
    }

    /// A user message.
    pub fn user(content: String) -> (m: ChatMessage)
        ensures
            m@ == chat("user"@, content@),
    {
        ChatMessage { role: to_owned_string("user"), content }
    }

    /// A copy of this message.
    pub fn duplicate(&self) -> (m: ChatMessage)
        ensures
            m@ == self@,
    {
        ChatMessage { role: self.role.clone(), content: self.content.clone() }
    }
}

// ---------------------------------------------------------------------------
// Tool calls
// ---------------------------------------------------------------------------

/// The function a tool call invokes: its name and JSON arguments.
#[derive(Debug)]
pub struct FunctionCall {
    pub name: String,
    pub arguments: String,
}

/// A tool call requested by the model.
#[derive(Debug)]
pub struct ToolCall {
    pub id: String,
    pub function: FunctionCall,
}

/// The text of the field `key` of the JSON object in `text`, when `text`
/// parses as JSON and that field holds a string.
pub uninterp spec fn json_text_field(text: Seq<char>, key: Seq<char>) -> Option<Seq<char>>;

/// Reads a string field of a JSON text with `serde_json::from_str` into a
/// `serde_json::Value`, then `Value::get` and `Value::as_str`. The result is
/// named `json_text_field` of the text and key; JSON parsing itself is not
/// restated here.
#[verifier::external_body]
pub(crate) fn json_string_field(text: &str, key: &str) -> (res: Option<String>)
    ensures
        opt_str_view(res) == json_text_field(text@, key@),
{
    match serde_json::from_str::<serde_json::Value>(text) {
        Ok(v) => v.get(key).and_then(|f| f.as_str()).map(|s| s.to_string()),
        Err(_) => None,
    }
}

// ---------------------------------------------------------------------------
// Streaming
// ---------------------------------------------------------------------------

/// A fragment of a tool call in a streamed completion.
#[derive(Debug)]
pub struct ToolCallDelta {
    pub index: u32,
    pub id: String,
    pub name: String,
    pub arguments: String,
}

/// A tool-call fragment as plain values.
pub struct CallView {
    pub index: u32,
    pub id: Seq<char>,
    pub name: Seq<char>,
    pub arguments: Seq<char>,
}

impl View for ToolCallDelta {
    type V = CallView;

    open spec fn view(&self) -> CallView {
        CallView { index: self.index, id: self.id@, name: self.name@, arguments: self.arguments@ }
    }
}

/// One increment of a streamed completion, or the running aggregate of all
/// increments so far.
#[derive(Debug)]
pub struct StreamDelta {
    pub content: String,
    pub tool_calls: Vec<ToolCallDelta>,
    pub finish_reason: Option<String>,
}

/// A stream increment as plain values.
pub struct DeltaView {
    pub content: Seq<char>,
    pub tool_calls: Seq<CallView>,
    pub finish_reason: Option<Seq<char>>,
}

/// The views of a sequence of tool-call fragments.
pub open spec fn calls_view(cs: Seq<ToolCallDelta>) -> Seq<CallView> {
    cs.map_values(|c: ToolCallDelta| c@)
}

impl View for StreamDelta {
    type V = DeltaView;

    open spec fn view(&self) -> DeltaView {
        DeltaView {
            content: self.content@,
            tool_calls: calls_view(self.tool_calls@),
            finish_reason: opt_str_view(self.finish_reason),
        }
    }
}

/// Position of the first call carrying `index`, or -1 when there is none.
pub open spec fn first_with_index(calls: Seq<CallView>, index: u32) -> int
    decreases calls.len(),
{
    if calls.len() == 0 {
        -1
    } else if calls[0].index == index {
        0
    } else {
        let r = first_with_index(calls.drop_first(), index);
        if r < 0 {
            -1
        } else {
            r + 1
        }
    }
}

/// A fragment merged into the calls gathered so far: appended to the call
/// with the same index, or added as a new call.
pub open spec fn merge_call(calls: Seq<CallView>, c: CallView) -> Seq<CallView> {
    let j = first_with_index(calls, c.index);
    if j < 0 {
        calls.push(c)
    } else {
        calls.update(
            j,
            CallView {
                index: calls[j].index,
                id: calls[j].id + c.id,
                name: calls[j].name + c.name,
                arguments: calls[j].arguments + c.arguments,
            },
        )
    }
}

/// All fragments of `new_calls` merged, in order, into `calls`.
pub open spec fn merge_calls(calls: Seq<CallView>, new_calls: Seq<CallView>) -> Seq<CallView>
    decreases new_calls.len(),
{
    if new_calls.len() == 0 {
        calls
    } else {
        merge_call(merge_calls(calls, new_calls.drop_last()), new_calls.last())
    }
}

/// The aggregate after absorbing one increment.
pub open spec fn absorb(agg: DeltaView, d: DeltaView) -> DeltaView {
    DeltaView {
        content: agg.content + d.content,
        tool_calls: merge_calls(agg.tool_calls, d.tool_calls),
        finish_reason: if d.finish_reason is Some {
            d.finish_reason
        } else {
            agg.finish_reason
        },
    }
}

/// No two calls carry the same index.
pub open spec fn distinct_indices(calls: Seq<CallView>) -> bool {
    forall|a: int, b: int|
        0 <= a < calls.len() && 0 <= b < calls.len() && a != b ==> calls[a].index
            != calls[b].index
}

proof fn lemma_first_with_index(calls: Seq<CallView>, index: u32)
    ensures
        -1 <= first_with_index(calls, index) < calls.len(),
        first_with_index(calls, index) >= 0 ==> calls[first_with_index(calls, index)].index
            == index,
        first_with_index(calls, index) >= 0 ==> forall|k: int|
            0 <= k < first_with_index(calls, index) ==> calls[k].index != index,
        first_with_index(calls, index) < 0 ==> forall|k: int|
            0 <= k < calls.len() ==> calls[k].index != index,
    decreases calls.len(),
{
    if calls.len() > 0 && calls[0].index != index {
        lemma_first_with_index(calls.drop_first(), index);
        assert forall|k: int| 1 <= k < calls.len() implies calls[k] == calls.drop_first()[k
            - 1] by {}
    }
}

/// Merging a fragment keeps call indices distinct.
pub proof fn lemma_merge_call_distinct(calls: Seq<CallView>, c: CallView)
    requires
        distinct_indices(calls),
    ensures
        distinct_indices(merge_call(calls, c)),
        merge_call(calls, c).len() >= calls.len(),
{
    lemma_first_with_index(calls, c.index);
}

/// Merging a fragment into calls with distinct indices: when the call at
/// `k` has the fragment's index, the fragment's id, name and arguments are
/// appended to that call's and every other call stays as it is; when no
/// call has its index, the fragment is added as a new last call.
pub proof fn lemma_merge_call_appends(calls: Seq<CallView>, c: CallView, k: int)
    requires
        distinct_indices(calls),
    ensures
        0 <= k < calls.len() && calls[k].index == c.index ==> ({
            let m = merge_call(calls, c);
            &&& m.len() == calls.len()
            &&& m[k] == (CallView {
                index: c.index,
                id: calls[k].id + c.id,
                name: calls[k].name + c.name,
                arguments: calls[k].arguments + c.arguments,
            })
            &&& forall|i: int| 0 <= i < calls.len() && i != k ==> m[i] == calls[i]
        }),
        (forall|i: int| 0 <= i < calls.len() ==> calls[i].index != c.index) ==> merge_call(calls, c)
            == calls.push(c),
{
    lemma_first_with_index(calls, c.index);
}

/// Merging any fragments keeps call indices distinct.
pub proof fn lemma_merge_calls_distinct(calls: Seq<CallView>, new_calls: Seq<CallView>)
    requires
        distinct_indices(calls),
    ensures
        distinct_indices(merge_calls(calls, new_calls)),
    decreases new_calls.len(),
{
    if new_calls.len() > 0 {
        lemma_merge_calls_distinct(calls, new_calls.drop_last());
        lemma_merge_call_distinct(merge_calls(calls, new_calls.drop_last()), new_calls.last());
    }
}

/// Absorbing increments never yields two aggregated tool calls with the
/// same index, whatever the stream sends.
pub proof fn lemma_absorb_keeps_indices_distinct(agg: DeltaView, d: DeltaView)
    requires
        distinct_indices(agg.tool_calls),
    ensures
        distinct_indices(absorb(agg, d).tool_calls),
{
    lemma_merge_calls_distinct(agg.tool_calls, d.tool_calls);
}

fn copy_call(c: &ToolCallDelta) -> (r: ToolCallDelta)
    ensures
        r@ == c@,
{
    ToolCallDelta {
        index: c.index,
        id: copy_string(&c.id),
        name: copy_string(&c.name),
        arguments: copy_string(&c.arguments),
    }
}

fn find_index(calls: &Vec<ToolCallDelta>, index: u32) -> (res: Option<usize>)
    ensures
        match res {
            Some(j) => j < calls@.len() && j as int == first_with_index(calls_view(calls@), index),
            None => first_with_index(calls_view(calls@), index) < 0,
        },
{
    proof {
        lemma_first_with_index(calls_view(calls@), index);
    }
    let mut j: usize = 0;
    while j < calls.len()
        invariant
            j <= calls.len(),
            forall|k: int| 0 <= k < j ==> calls@[k].index != index,
        decreases calls.len() - j,
    {
        if calls[j].index == index {
            proof {
                lemma_first_with_index(calls_view(calls@), index);
                if first_with_index(calls_view(calls@), index) != j {
                    assert(calls_view(calls@)[j as int].index == index);
                }
            }
            return Some(j);
        }
        j = j + 1;
    }
    proof {
        if first_with_index(calls_view(calls@), index) >= 0 {
            let f = first_with_index(calls_view(calls@), index);
            assert(calls_view(calls@)[f].index == index);
        }
    }
    None
}

impl StreamDelta {
    /// An empty aggregate.
    pub fn empty() -> (d: StreamDelta)
        ensures
            d@ == (DeltaView { content: Seq::empty(), tool_calls: Seq::empty(), finish_reason: None }),
    {
        let d = StreamDelta { content: String::new(), tool_calls: Vec::new(), finish_reason: None };
        assert(calls_view(d.tool_calls@) =~= Seq::empty());
        d
    }

    fn merge_one(&mut self, c: &ToolCallDelta)
        ensures
            final(self)@ == (DeltaView {
                content: old(self)@.content,
                tool_calls: merge_call(old(self)@.tool_calls, c@),
                finish_reason: old(self)@.finish_reason,
            }),
    {
        match find_index(&self.tool_calls, c.index) {
            Some(j) => {
                let mut cur = copy_call(&self.tool_calls[j]);
                cur.id.append(c.id.as_str());
                cur.name.append(c.name.as_str());
                cur.arguments.append(c.arguments.as_str());
                let ghost before = self.tool_calls@;
                self.tool_calls.set(j, cur);
                assert(calls_view(self.tool_calls@) =~= merge_call(calls_view(before), c@));
            },
            None => {
                let ghost before = self.tool_calls@;
                self.tool_calls.push(copy_call(c));
                assert(calls_view(self.tool_calls@) =~= merge_call(calls_view(before), c@));
            },
        }
    }

    /// Absorbs one streamed increment into this aggregate: its content is
    /// appended, each tool-call fragment is appended to the call with the
    /// same index (or added), and a finish reason, when given, replaces the
    /// previous one.
    pub fn accumulate(&mut self, delta: &StreamDelta)
        ensures
            final(self)@ == absorb(old(self)@, delta@),
    {
        self.content.append(delta.content.as_str());
        let ghost start = self@;
        let mut i: usize = 0;
        while i < delta.tool_calls.len()
            invariant
                i <= delta.tool_calls.len(),
                self@.content == start.content,
                self@.finish_reason == start.finish_reason,
                self@.tool_calls == merge_calls(
                    start.tool_calls,
                    calls_view(delta.tool_calls@).take(i as int),
                ),
            decreases delta.tool_calls.len() - i,
        {
            self.merge_one(&delta.tool_calls[i]);
            proof {
                let t = calls_view(delta.tool_calls@).take(i + 1);
                assert(t.drop_last() =~= calls_view(delta.tool_calls@).take(i as int));
            }
            i = i + 1;
        }
        assert(calls_view(delta.tool_calls@).take(i as int) =~= calls_view(delta.tool_calls@));
        match &delta.finish_reason {
            Some(f) => {
                self.finish_reason = Some(copy_string(f));
            },
            None => {},
        }
    }
}

/// Whether a server-sent event's data marks the end of the stream.
pub fn is_stream_end(data: &str) -> (res: bool)
    ensures
        res == (data@ == "[DONE]"@),
{
    let end = to_owned_string("[DONE]");
    let d = to_owned_string(data);
    d == end
}

} // verus!

verus! {

// ---------------------------------------------------------------------------
// Tool definitions offered to the model
// ---------------------------------------------------------------------------

/// One parameter of a tool: its name, JSON type, optional description and,
/// for arrays, the JSON type of the items.
#[derive(Debug)]
pub struct ToolParam {
    pub name: String,
    pub kind: String,
    pub description: Option<String>,
    pub item_kind: Option<String>,
}

/// The parameters of a tool: a JSON object schema with these properties,
/// of which those named in `required` must be given.
#[derive(Debug)]
pub struct ToolSchema {
    pub properties: Vec<ToolParam>,
    pub required: Vec<String>,
}

/// A function the model may call.
#[derive(Debug)]
pub struct ToolFunction {
    pub name: String,
    pub description: String,
    pub parameters: ToolSchema,
}

/// A tool offered to the model.
#[derive(Debug)]
pub struct ToolDefinition {
    pub tool_type: String,
    pub function: ToolFunction,
}

/// A parameter as plain values.
pub struct ParamView {
    pub name: Seq<char>,
    pub kind: Seq<char>,
    pub description: Option<Seq<char>>,
    pub item_kind: Option<Seq<char>>,
}

/// A tool definition as plain values.
pub struct ToolDefView {
    pub tool_type: Seq<char>,
    pub name: Seq<char>,
    pub description: Seq<char>,
    pub properties: Seq<ParamView>,
    pub required: Seq<Seq<char>>,
}

impl View for ToolParam {
    type V = ParamView;

    open spec fn view(&self) -> ParamView {
        ParamView {
            name: self.name@,
            kind: self.kind@,
            description: opt_str_view(self.description),
            item_kind: opt_str_view(self.item_kind),
        }
    }
}

impl View for ToolDefinition {
    type V = ToolDefView;

    open spec fn view(&self) -> ToolDefView {
        ToolDefView {
            tool_type: self.tool_type@,
            name: self.function.name@,
            description: self.function.description@,
            properties: self.function.parameters.properties@.map_values(|p: ToolParam| p@),
            required: strings_view(self.function.parameters.required@),
        }
    }
}

/// A string parameter.
pub open spec fn string_param(name: Seq<char>, description: Option<Seq<char>>) -> ParamView {
    ParamView { name, kind: "string"@, description, item_kind: None }
}

/// A function tool.
pub open spec fn function_tool(
    name: Seq<char>,
    description: Seq<char>,
    properties: Seq<ParamView>,
    required: Seq<Seq<char>>,
) -> ToolDefView {
    ToolDefView { tool_type: "function"@, name, description, properties, required }
}

/// The tools offered to the model, in order.
pub open spec fn tool_catalog() -> Seq<ToolDefView> {
    seq![
        function_tool(
            "read_file"@,
            "读取指定路径的文件内容"@,
            seq![string_param("path"@, Some("相对于项目根目录的文件路径"@))],
            seq!["path"@],
        ),
        function_tool(
            "write_file"@,
            "写入或创建文件"@,
            seq![string_param("path"@, None), string_param("content"@, None)],
            seq!["path"@, "content"@],
        ),
        function_tool(
            "edit_file"@,
            "修改文件中的部分内容"@,
            seq![
                string_param("path"@, None),
                string_param("old_string"@, None),
                string_param("new_string"@, None),
            ],
            seq!["path"@, "old_string"@, "new_string"@],
        ),
        function_tool(
            "list_directory"@,
            "列出目录内容"@,
            seq![string_param("path"@, Some("相对于项目根目录的目录路径"@))],
            seq!["path"@],
        ),
        function_tool(
            "execute_command"@,
            "在项目目录下执行 shell 命令"@,
            seq![
                string_param("command"@, Some("要执行的命令"@)),
                string_param("description"@, Some("命令用途说明"@)),
            ],
            seq!["command"@],
        ),
        function_tool(
            "ask_user"@,
            "当信息不足或需要用户确认时提出问题"@,
            seq![
                string_param("question"@, None),
                ParamView {
                    name: "options"@,
                    kind: "array"@,
                    description: None,
                    item_kind: Some("string"@),
                },
            ],
            seq!["question"@],
        ),
    ]
}

fn param(name: &str, kind: &str, description: Option<&str>, item_kind: Option<&str>) -> (p: ToolParam)
    ensures
        p@ == (ParamView {
            name: name@,
            kind: kind@,
            description: match description {
                Some(d) => Some(d@),
                None => None,
            },
            item_kind: match item_kind {
                Some(d) => Some(d@),
                None => None,
            },
        }),
{
    ToolParam {
        name: to_owned_string(name),
        kind: to_owned_string(kind),
        description: match description {
            Some(d) => Some(to_owned_string(d)),
            None => None,
        },
        item_kind: match item_kind {
            Some(d) => Some(to_owned_string(d)),
            None => None,
        },
    }
}

fn tool(name: &str, description: &str, properties: Vec<ToolParam>, required: Vec<String>) -> (t: ToolDefinition)
    ensures
        t@ == function_tool(
            name@,
            description@,
            properties@.map_values(|p: ToolParam| p@),
            strings_view(required@),
        ),
{
    ToolDefinition {
        tool_type: to_owned_string("function"),
        function: ToolFunction {
            name: to_owned_string(name),
            description: to_owned_string(description),
            parameters: ToolSchema { properties, required },
        },
    }
}

fn names1(a: &str) -> (v: Vec<String>)
    ensures
        strings_view(v@) == seq![a@],
{
    let mut v: Vec<String> = Vec::new();
    v.push(to_owned_string(a));
    assert(strings_view(v@) =~= seq![a@]);
    v
}

fn names2(a: &str, b: &str) -> (v: Vec<String>)
    ensures
        strings_view(v@) == seq![a@, b@],
{
    let mut v: Vec<String> = Vec::new();
    v.push(to_owned_string(a));
    v.push(to_owned_string(b));
    assert(strings_view(v@) =~= seq![a@, b@]);
    v
}

fn names3(a: &str, b: &str, c: &str) -> (v: Vec<String>)
    ensures
        strings_view(v@) == seq![a@, b@, c@],
{
    let mut v: Vec<String> = Vec::new();
    v.push(to_owned_string(a));
    v.push(to_owned_string(b));
    v.push(to_owned_string(c));
    assert(strings_view(v@) =~= seq![a@, b@, c@]);
    v
}

/// The tools offered to the model: reading, writing, editing and listing
/// files, running commands, and asking the user.
pub fn build_tools() -> (tools: Vec<ToolDefinition>)
    ensures
        tools@.map_values(|t: ToolDefinition| t@) == tool_catalog(),
{
    let mut tools: Vec<ToolDefinition> = Vec::new();

    let mut p: Vec<ToolParam> = Vec::new();
    p.push(param("path", "string", Some("相对于项目根目录的文件路径"), None));
    assert(p@.map_values(|x: ToolParam| x@) =~= seq![string_param("path"@, Some("相对于项目根目录的文件路径"@))]);
    tools.push(tool("read_file", "读取指定路径的文件内容", p, names1("path")));

    let mut p: Vec<ToolParam> = Vec::new();
    p.push(param("path", "string", None, None));
    p.push(param("content", "string", None, None));
    assert(p@.map_values(|x: ToolParam| x@) =~= seq![string_param("path"@, None), string_param("content"@, None)]);
    tools.push(tool("write_file", "写入或创建文件", p, names2("path", "content")));

    let mut p: Vec<ToolParam> = Vec::new();
    p.push(param("path", "string", None, None));
    p.push(param("old_string", "string", None, None));
    p.push(param("new_string", "string", None, None));
    assert(p@.map_values(|x: ToolParam| x@) =~= seq![
        string_param("path"@, None),
        string_param("old_string"@, None),
        string_param("new_string"@, None),
    ]);
    tools.push(tool("edit_file", "修改文件中的部分内容", p, names3("path", "old_string", "new_string")));

    let mut p: Vec<ToolParam> = Vec::new();
    p.push(param("path", "string", Some("相对于项目根目录的目录路径"), None));
    assert(p@.map_values(|x: ToolParam| x@) =~= seq![string_param("path"@, Some("相对于项目根目录的目录路径"@))]);
    tools.push(tool("list_directory", "列出目录内容", p, names1("path")));

    let mut p: Vec<ToolParam> = Vec::new();
    p.push(param("command", "string", Some("要执行的命令"), None));
    p.push(param("description", "string", Some("命令用途说明"), None));
    assert(p@.map_values(|x: ToolParam| x@) =~= seq![
        string_param("command"@, Some("要执行的命令"@)),
        string_param("description"@, Some("命令用途说明"@)),
    ]);
    tools.push(tool("execute_command", "在项目目录下执行 shell 命令", p, names1("command")));

    let mut p: Vec<ToolParam> = Vec::new();
    p.push(param("question", "string", None, None));
    p.push(param("options", "array", None, Some("string")));
    assert(p@.map_values(|x: ToolParam| x@) =~= seq![
        string_param("question"@, None),
        ParamView { name: "options"@, kind: "array"@, description: None, item_kind: Some("string"@) },
    ]);
    tools.push(tool("ask_user", "当信息不足或需要用户确认时提出问题", p, names1("question")));

    assert(tools@.map_values(|t: ToolDefinition| t@) =~= tool_catalog());
    tools
}

/// The tool declares a parameter with this name.
pub open spec fn declares(t: ToolDefView, name: Seq<char>) -> bool {
    exists|k: int| 0 <= k < t.properties.len() && #[trigger] t.properties[k].name == name
}

/// Every parameter a tool requires is one of its declared parameters.
pub proof fn lemma_required_params_declared()
    ensures
        forall|t: int, r: int|
            0 <= t < tool_catalog().len() && 0 <= r < tool_catalog()[t].required.len() ==> declares(
                tool_catalog()[t],
                #[trigger] tool_catalog()[t].required[r],
            ),
{
    assert forall|t: int, r: int|
        0 <= t < tool_catalog().len() && 0 <= r < tool_catalog()[t].required.len() implies declares(
        tool_catalog()[t],
        #[trigger] tool_catalog()[t].required[r],
    ) by {
        let d = tool_catalog()[t];
        assert(r < d.properties.len() && d.properties[r].name == d.required[r]);
    }
}

} // verus!
