//! The agent's tools: the result type they report, the file tool's path
//! confinement and text edits, and the command tool's risk check and
//! outcome reporting. The file system and process I/O themselves happen
//! around these functions.
use vstd::prelude::*;
use crate::security::{assess_risk, command_risk, RiskLevel};
use crate::text::{
    chars_of, concat2, contains_chars, copy_opt_string, copy_string, join, join_strings, occurs_at, occurs_at_exec,
    opt_str_view, seq_contains, sort_strings, string_from_chars, strings_view, text_order,
    to_owned_string,
};

verus! {

// ---------------------------------------------------------------------------
// Tool results
// ---------------------------------------------------------------------------

/// What a tool reports back: success flag, its output, and an error text.
#[derive(Debug)]
pub struct ToolResult {
    pub success: bool,
    pub output: String,
    pub error: Option<String>,
}

/// A tool result as plain values: success flag, output and error text.
pub type ToolView = (bool, Seq<char>, Option<Seq<char>>);

impl View for ToolResult {
    type V = ToolView;

    open spec fn view(&self) -> ToolView {
        (self.success, self.output@, opt_str_view(self.error))
    }
}

/// A successful result carrying `output`.
pub open spec fn success_view(output: Seq<char>) -> ToolView {
    (true, output, None)
}

/// A failed result carrying the error text `msg` and no output.
pub open spec fn error_view(msg: Seq<char>) -> ToolView {
    (false, Seq::empty(), Some(msg))
}

impl ToolResult {
    /// A successful result with the given output.
    pub fn success(output: String) -> (r: ToolResult)
        ensures
            r@ == success_view(output@),
    {
        ToolResult { success: true, output, error: None }
    }

    /// A failed result with the given error text.
    pub fn error(msg: String) -> (r: ToolResult)
        ensures
            r@ == error_view(msg@),
    {
        ToolResult { success: false, output: String::new(), error: Some(msg) }
    }

    /// A copy of this result.
    pub fn duplicate(&self) -> (r: ToolResult)
        ensures
            r@ == self@,
    {
        ToolResult {
            success: self.success,
            output: copy_string(&self.output),
            error: copy_opt_string(&self.error),
        }
    }
}

// ---------------------------------------------------------------------------
// Text replacement (`str::replace`)
// ---------------------------------------------------------------------------

/// Every occurrence of `p` in `s` replaced by `r`, scanning from the left
/// and never overlapping; an empty `p` matches before every character and
/// at the end.
pub open spec fn replace_all(s: Seq<char>, p: Seq<char>, r: Seq<char>) -> Seq<char>
    decreases s.len(),
{
    if p.len() == 0 {
        if s.len() == 0 {
            r
        } else {
            r + seq![s[0]] + replace_all(s.drop_first(), p, r)
        }
    } else if s.len() < p.len() {
        s
    } else if s.subrange(0, p.len() as int) == p {
        r + replace_all(s.subrange(p.len() as int, s.len() as int), p, r)
    } else {
        seq![s[0]] + replace_all(s.drop_first(), p, r)
    }
}

/// Replacing a text by itself leaves any content unchanged.
pub proof fn lemma_replace_by_itself(s: Seq<char>, p: Seq<char>)
    ensures
        replace_all(s, p, p) == s,
    decreases s.len(),
{
    if p.len() == 0 {
        if s.len() > 0 {
            lemma_replace_by_itself(s.drop_first(), p);
            assert(p + seq![s[0]] + s.drop_first() =~= s);
        }
    } else if s.len() >= p.len() {
        if s.subrange(0, p.len() as int) == p {
            lemma_replace_by_itself(s.subrange(p.len() as int, s.len() as int), p);
            assert(p + s.subrange(p.len() as int, s.len() as int) =~= s);
        } else {
            lemma_replace_by_itself(s.drop_first(), p);
            assert(seq![s[0]] + s.drop_first() =~= s);
        }
    }
}

/// Replacing a non-empty text: an occurrence at the start is replaced and
/// the scan goes on right after it, so adjacent occurrences are each
/// replaced; a text without any occurrence is left as it is.
pub proof fn lemma_replace_all_steps(p: Seq<char>, t: Seq<char>, r: Seq<char>)
    requires
        p.len() > 0,
    ensures
        replace_all(p + t, p, r) == r + replace_all(t, p, r),
        !seq_contains(t, p) ==> replace_all(t, p, r) == t,
{
    let s = p + t;
    assert(s.subrange(0, p.len() as int) =~= p);
    assert(s.subrange(p.len() as int, s.len() as int) =~= t);
    if !seq_contains(t, p) {
        lemma_replace_absent(t, p, r);
    }
}

/// Replacing a non-empty text finds its leftmost occurrence: when `p`
/// occurs in `a + p + b` nowhere before the end of `a`, the text `a` before
/// it is kept, the occurrence becomes `r`, and the scan goes on in `b`.
/// With the case of a text without any occurrence, this says what
/// `replace_all` gives on every text.
pub proof fn lemma_replace_leftmost(a: Seq<char>, p: Seq<char>, b: Seq<char>, r: Seq<char>)
    requires
        p.len() > 0,
        forall|i: int| 0 <= i < a.len() ==> !occurs_at(a + p + b, p, i),
    ensures
        replace_all(a + p + b, p, r) == a + r + replace_all(b, p, r),
    decreases a.len(),
{
    let s = a + p + b;
    if a.len() == 0 {
        assert(s =~= p + b);
        lemma_replace_all_steps(p, b, r);
        assert(a + r + replace_all(b, p, r) =~= r + replace_all(b, p, r));
    } else {
        assert(!occurs_at(s, p, 0));
        let a1 = a.drop_first();
        assert(s.drop_first() =~= a1 + p + b);
        assert forall|i: int| 0 <= i < a1.len() implies !occurs_at(a1 + p + b, p, i) by {
            assert(!occurs_at(s, p, i + 1));
            if occurs_at(a1 + p + b, p, i) {
                assert(s.subrange(i + 1, i + 1 + p.len()) =~= (a1 + p + b).subrange(i, i + p.len()));
            }
        }
        lemma_replace_leftmost(a1, p, b, r);
        assert(seq![a[0]] + (a1 + r + replace_all(b, p, r)) =~= a + r + replace_all(b, p, r));
    }
}

/// Replacing the empty text puts `r` before every character and at the
/// end: the result has `r` once more than the text has characters.
pub proof fn lemma_replace_empty_pattern(c: char, t: Seq<char>, r: Seq<char>)
    ensures
        replace_all(Seq::<char>::empty(), Seq::<char>::empty(), r) == r,
        replace_all(seq![c] + t, Seq::<char>::empty(), r) == r + seq![c] + replace_all(
            t,
            Seq::<char>::empty(),
            r,
        ),
{
    assert((seq![c] + t)[0] == c);
    assert((seq![c] + t).drop_first() =~= t);
}

proof fn lemma_replace_absent(t: Seq<char>, p: Seq<char>, r: Seq<char>)
    requires
        p.len() > 0,
        !seq_contains(t, p),
    ensures
        replace_all(t, p, r) == t,
    decreases t.len(),
{
    if t.len() >= p.len() {
        assert(!occurs_at(t, p, 0));
        assert(!seq_contains(t.drop_first(), p)) by {
            if seq_contains(t.drop_first(), p) {
                let i = choose|i: int| occurs_at(t.drop_first(), p, i);
                assert(t.subrange(i + 1, i + 1 + p.len()) =~= t.drop_first().subrange(i, i + p.len()));
                assert(occurs_at(t, p, i + 1));
            }
        }
        lemma_replace_absent(t.drop_first(), p, r);
        assert(seq![t[0]] + t.drop_first() =~= t);
    }
}

fn append_chars(out: &mut Vec<char>, r: &Vec<char>)
    ensures
        final(out)@ == old(out)@ + r@,
{
    let mut k: usize = 0;
    let ghost start = out@;
    while k < r.len()
        invariant
            k <= r.len(),
            out@ =~= start + r@.subrange(0, k as int),
        decreases r.len() - k,
    {
        out.push(r[k]);
        k = k + 1;
    }
    assert(r@.subrange(0, r@.len() as int) =~= r@);
}

/// `s` with every occurrence of `p` replaced by `r`.
pub fn replace_chars(s: &Vec<char>, p: &Vec<char>, r: &Vec<char>) -> (res: Vec<char>)
    ensures
        res@ == replace_all(s@, p@, r@),
{
    let n = s.len();
    let m = p.len();
    let mut out: Vec<char> = Vec::new();
    let mut i: usize = 0;
    assert(s@.subrange(0, n as int) =~= s@);
    assert(out@ + replace_all(s@, p@, r@) =~= replace_all(s@, p@, r@));
    while i < n
        invariant
            n == s.len(),
            m == p.len(),
            i <= n,
            out@ + replace_all(s@.subrange(i as int, n as int), p@, r@) == replace_all(s@, p@, r@),
        decreases n - i,
    {
        let ghost rest = s@.subrange(i as int, n as int);
        let ghost before = out@;
        assert(rest.drop_first() =~= s@.subrange(i + 1, n as int));
        if m == 0 {
            append_chars(&mut out, r);
            out.push(s[i]);
            assert(rest[0] == s@[i as int]);
            assert(before + (r@ + seq![rest[0]] + replace_all(rest.drop_first(), p@, r@)) =~= out@
                + replace_all(rest.drop_first(), p@, r@));
            i = i + 1;
        } else if m > n - i {
            append_chars(&mut out, &s_tail(s, i));
            assert(out@ + replace_all(s@.subrange(n as int, n as int), p@, r@) =~= before + rest);
            i = n;
        } else if occurs_at_exec(s, p, i) {
            append_chars(&mut out, r);
            assert(rest.subrange(0, m as int) =~= s@.subrange(i as int, i + m));
            assert(rest.subrange(m as int, rest.len() as int) =~= s@.subrange(i + m, n as int));
            assert(before + (r@ + replace_all(rest.subrange(m as int, rest.len() as int), p@, r@))
                =~= out@ + replace_all(s@.subrange(i + m, n as int), p@, r@));
            i = i + m;
        } else {
            out.push(s[i]);
            assert(rest.subrange(0, m as int) =~= s@.subrange(i as int, i + m));
            assert(rest[0] == s@[i as int]);
            assert(before + (seq![rest[0]] + replace_all(rest.drop_first(), p@, r@)) =~= out@
                + replace_all(rest.drop_first(), p@, r@));
            i = i + 1;
        }
    }
    let ghost empty = s@.subrange(n as int, n as int);
    assert(empty =~= Seq::<char>::empty());
    if m == 0 {
        append_chars(&mut out, r);
    } else {
        assert(out@ + replace_all(empty, p@, r@) =~= out@);
    }
    out
}

fn s_tail(s: &Vec<char>, i: usize) -> (res: Vec<char>)
    requires
        i <= s.len(),
    ensures
        res@ == s@.subrange(i as int, s.len() as int),
{
    let mut res: Vec<char> = Vec::new();
    let mut k: usize = i;
    while k < s.len()
        invariant
            i <= k <= s.len(),
            res@ =~= s@.subrange(i as int, k as int),
        decreases s.len() - k,
    {
        res.push(s[k]);
        k = k + 1;
    }
    res
}

/// What an edit of `content` gives: the error text when `old` does not
/// occur in it, otherwise the content with every occurrence replaced.
pub open spec fn edit_result(content: Seq<char>, old: Seq<char>, new: Seq<char>) -> Result<
    Seq<char>,
    Seq<char>,
> {
    if !seq_contains(content, old) {
        Err("未找到要替换的内容"@)
    } else {
        Ok(replace_all(content, old, new))
    }
}

/// The new text of a file after replacing `old_string` by `new_string`
/// everywhere, or the failed tool result when `old_string` does not occur.
pub fn edit_content(content: &str, old_string: &str, new_string: &str) -> (res: Result<
    String,
    ToolResult,
>)
    ensures
        match res {
            Ok(s) => edit_result(content@, old_string@, new_string@) == Ok::<Seq<char>, Seq<char>>(s@),
            Err(e) => edit_result(content@, old_string@, new_string@) is Err && e@
                == error_view(edit_result(content@, old_string@, new_string@)->Err_0),
        },
{
    let c = chars_of(content);
    let o = chars_of(old_string);
    if !contains_chars(&c, &o) {
        return Err(ToolResult::error(to_owned_string("未找到要替换的内容")));
    }
    let n = chars_of(new_string);
    let replaced = replace_chars(&c, &o, &n);
    Ok(string_from_chars(&replaced))
}

} // verus!

verus! {

// ---------------------------------------------------------------------------
// Decimal numbers
// ---------------------------------------------------------------------------

/// The digit character of `d` (0 to 9).
pub open spec fn digit_char(d: int) -> char {
    if d == 0 { '0' } else if d == 1 { '1' } else if d == 2 { '2' } else if d == 3 { '3' } else if d
        == 4 { '4' } else if d == 5 { '5' } else if d == 6 { '6' } else if d == 7 { '7' } else if d
        == 8 { '8' } else { '9' }
}

/// Decimal digits of a natural number, without leading zeros.
pub open spec fn digits(n: nat) -> Seq<char>
    decreases n,
{
    if n < 10 {
        seq![digit_char(n as int)]
    } else {
        digits(n / 10).push(digit_char((n % 10) as int))
    }
}

/// The number a text of decimal digits reads as.
pub open spec fn decimal_value(s: Seq<char>) -> int
    decreases s.len(),
{
    if s.len() == 0 {
        0
    } else {
        decimal_value(s.drop_last()) * 10 + (s.last() as int - '0' as int)
    }
}

proof fn lemma_digit_char_value(k: int)
    requires
        0 <= k < 10,
    ensures
        digit_char(k) as int - '0' as int == k,
        '0' <= digit_char(k) && digit_char(k) <= '9',
{
    assert('0' as int == 48);
    assert('9' as int == 57);
    assert('1' as int == 49);
    assert('2' as int == 50);
    assert('3' as int == 51);
    assert('4' as int == 52);
    assert('5' as int == 53);
    assert('6' as int == 54);
    assert('7' as int == 55);
    assert('8' as int == 56);
}

/// The digits of a natural number are decimal digits, the first of them
/// is `0` only for zero, and they read back as the number.
pub proof fn lemma_digits_read_back(n: nat)
    ensures
        digits(n).len() > 0,
        forall|i: int| 0 <= i < digits(n).len() ==> '0' <= #[trigger] digits(n)[i] && digits(n)[i]
            <= '9',
        digits(n)[0] == '0' ==> n == 0,
        decimal_value(digits(n)) == n,
    decreases n,
{
    if n < 10 {
        lemma_digit_char_value(n as int);
        let s = digits(n);
        assert(s == seq![digit_char(n as int)]);
        assert(s.drop_last() =~= Seq::<char>::empty());
        assert(decimal_value(s.drop_last()) == 0);
        assert(decimal_value(s) == decimal_value(s.drop_last()) * 10 + (s.last() as int - '0' as int));
    } else {
        lemma_digit_char_value((n % 10) as int);
        lemma_digits_read_back(n / 10);
        let d = digits(n / 10);
        let s = d.push(digit_char((n % 10) as int));
        assert(digits(n) == s);
        assert(s.drop_last() =~= d);
        assert(s[0] == d[0]);
        assert(decimal_value(s) == decimal_value(d) * 10 + (s.last() as int - '0' as int));
        assert(s.last() == digit_char((n % 10) as int));
        assert(n == (n / 10) * 10 + n % 10);
        assert forall|i: int| 0 <= i < s.len() implies '0' <= #[trigger] s[i] && s[i] <= '9' by {
            if i < d.len() {
                assert(s[i] == d[i]);
            }
        }
    }
}

/// Decimal text of an integer, with a `-` sign when negative.
pub open spec fn decimal(n: int) -> Seq<char> {
    if n < 0 {
        seq!['-'] + digits((-n) as nat)
    } else {
        digits(n as nat)
    }
}

fn digit_exec(d: u64) -> (c: char)
    requires
        d < 10,
    ensures
        c == digit_char(d as int),
{
    if d == 0 { '0' } else if d == 1 { '1' } else if d == 2 { '2' } else if d == 3 { '3' } else if d
        == 4 { '4' } else if d == 5 { '5' } else if d == 6 { '6' } else if d == 7 { '7' } else if d
        == 8 { '8' } else { '9' }
}

fn digits_exec(n: u64) -> (v: Vec<char>)
    ensures
        v@ == digits(n as nat),
    decreases n,
{
    if n < 10 {
        let mut v: Vec<char> = Vec::new();
        v.push(digit_exec(n));
        assert(v@ =~= seq![digit_char(n as int)]);
        v
    } else {
        let mut v = digits_exec(n / 10);
        v.push(digit_exec(n % 10));
        v
    }
}

/// The decimal text of an integer (as `Display` writes it).
pub fn decimal_string(n: i32) -> (s: String)
    ensures
        s@ == decimal(n as int),
{
    if n < 0 {
        let m: i64 = n as i64;
        let abs: u64 = (-m) as u64;
        let mut v: Vec<char> = Vec::new();
        v.push('-');
        let d = digits_exec(abs);
        let mut k: usize = 0;
        let ghost start = v@;
        while k < d.len()
            invariant
                k <= d.len(),
                v@ =~= start + d@.subrange(0, k as int),
            decreases d.len() - k,
        {
            v.push(d[k]);
            k = k + 1;
        }
        assert(d@.subrange(0, d@.len() as int) =~= d@);
        assert(start =~= seq!['-']);
        string_from_chars(&v)
    } else {
        let d = digits_exec(n as u64);
        string_from_chars(&d)
    }
}

// ---------------------------------------------------------------------------
// Command tool
// ---------------------------------------------------------------------------

/// What `String::from_utf8_lossy` makes of a byte sequence: its UTF-8
/// decoding, each invalid sequence replaced by U+FFFD.
pub uninterp spec fn utf8_lossy(bytes: Seq<u8>) -> Seq<char>;

/// `String::from_utf8_lossy`, as an owned string. Its result is named
/// `utf8_lossy` of the bytes; the decoding rules are not restated here.
#[verifier::external_body]
pub(crate) fn lossy_string(bytes: &Vec<u8>) -> (s: String)
    ensures
        s@ == utf8_lossy(bytes@),
{
    String::from_utf8_lossy(bytes.as_slice()).into_owned()
}

/// What running a command in the project directory came to.
#[derive(Debug)]
pub enum CommandRun {
    /// The project directory does not exist; nothing ran.
    DirMissing,
    /// The shell could not be started; the reason as text.
    SpawnFailed { reason: String },
    /// The command ran: whether it exited successfully, its exit code if it
    /// has one, and its captured output streams.
    Finished { success: bool, code: Option<i32>, stdout: Vec<u8>, stderr: Vec<u8> },
}

/// The error text of a command that exited unsuccessfully.
pub open spec fn failure_report(code: Option<i32>, stdout: Seq<char>, stderr: Seq<char>) -> Seq<char> {
    "命令退出码: "@ + decimal(
        match code {
            Some(c) => c as int,
            None => -1,
        },
    ) + "\nstdout:\n"@ + stdout + "\nstderr:\n"@ + stderr
}

/// The tool result of a command run.
pub open spec fn run_result(run: CommandRun) -> ToolView {
    match run {
        CommandRun::DirMissing => error_view("项目目录不存在"@),
        CommandRun::SpawnFailed { reason } => error_view("执行命令失败: "@ + reason@),
        CommandRun::Finished { success, code, stdout, stderr } => {
            let out = utf8_lossy(stdout@);
            let err = utf8_lossy(stderr@);
            if success {
                success_view(
                    if out.len() == 0 {
                        err
                    } else {
                        out
                    },
                )
            } else {
                error_view(failure_report(code, out, err))
            }
        },
    }
}

/// Runs commands in a project directory.
#[derive(Debug)]
pub struct CommandTool<'a> {
    project_dir: &'a str,
}

impl<'a> View for CommandTool<'a> {
    type V = Seq<char>;

    /// The project directory.
    closed spec fn view(&self) -> Seq<char> {
        self.project_dir@
    }
}

impl<'a> CommandTool<'a> {
    /// A command tool working in `project_dir`.
    pub fn new(project_dir: &'a str) -> (t: CommandTool<'a>)
        ensures
            t@ == project_dir@,
    {
        CommandTool { project_dir }
    }

    /// The project directory commands run in.
    pub fn project_dir(&self) -> (d: &'a str)
        ensures
            d@ == self@,
    {
        self.project_dir
    }

    /// The risk level of a command.
    pub fn risk_level(&self, command: &str) -> (r: RiskLevel)
        ensures
            r == command_risk(command@),
    {
        assess_risk(command)
    }

    /// The tool result of a command run: success with the standard output
    /// (or the error output when the standard output is empty), or an
    /// error naming the exit code and both outputs, or the reason nothing
    /// ran.
    pub fn outcome(&self, run: CommandRun) -> (r: ToolResult)
        ensures
            r@ == run_result(run),
    {
        match run {
            CommandRun::DirMissing => ToolResult::error(to_owned_string("项目目录不存在")),
            CommandRun::SpawnFailed { reason } => ToolResult::error(
                concat2("执行命令失败: ", reason.as_str()),
            ),
            CommandRun::Finished { success, code, stdout, stderr } => {
                let out = lossy_string(&stdout);
                let err = lossy_string(&stderr);
                if success {
                    if out.as_str().is_empty() {
                        ToolResult::success(err)
                    } else {
                        ToolResult::success(out)
                    }
                } else {
                    let c = match code {
                        Some(c) => c,
                        None => -1,
                    };
                    let mut msg = concat2("命令退出码: ", decimal_string(c).as_str());
                    msg.append("\nstdout:\n");
                    msg.append(out.as_str());
                    msg.append("\nstderr:\n");
                    msg.append(err.as_str());
                    ToolResult::error(msg)
                }
            },
        }
    }
}

// ---------------------------------------------------------------------------
// File tool
// ---------------------------------------------------------------------------

/// The text of `Path::join(base, relative)`: `relative` appended to `base`
/// after a separator, or `relative` alone when it is absolute.
pub uninterp spec fn joined_path(base: Seq<char>, relative: Seq<char>) -> Seq<char>;

/// `Path::join` of two path texts, read back as text. The result is named
/// `joined_path`; the path syntax of the platform the library is built for
/// is not restated here.
#[verifier::external_body]
pub(crate) fn join_path(base: &str, relative: &str) -> (res: String)
    ensures
        res@ == joined_path(base@, relative@),
{
    std::path::Path::new(base).join(relative).to_string_lossy().into_owned()
}

/// The error text for a path outside the project directory.
pub open spec fn outside_error() -> Seq<char> {
    "禁止访问项目目录外的路径"@
}

/// Keeps a path that lies inside the project directory, refuses any other.
pub fn confine_path(path: String, inside: bool) -> (res: Result<String, ToolResult>)
    ensures
        match res {
            Ok(p) => inside && p@ == path@,
            Err(e) => !inside && e@ == error_view(outside_error()),
        },
{
    if !inside {
        return Err(ToolResult::error(to_owned_string("禁止访问项目目录外的路径")));
    }
    Ok(path)
}

/// A file operation that can fail.
#[derive(Debug, Clone, Copy, PartialEq, Eq, Structural)]
pub enum FileOp {
    Read,
    CreateDir,
    Write,
    List,
}

/// The error text of a failed file operation.
pub open spec fn io_failure_text(op: FileOp, reason: Seq<char>) -> Seq<char> {
    match op {
        FileOp::Read => "读取文件失败: "@ + reason,
        FileOp::CreateDir => "创建目录失败: "@ + reason,
        FileOp::Write => "写入文件失败: "@ + reason,
        FileOp::List => "列出目录失败: "@ + reason,
    }
}

/// The path a relative path resolves to: the canonical path when there is
/// one, else the joined path; kept only when it lies within the project
/// directory.
pub open spec fn resolved_candidate(dir: Seq<char>, relative: Seq<char>, canonical: Option<Seq<char>>) -> Seq<char> {
    match canonical {
        Some(c) => c,
        None => joined_path(dir, relative),
    }
}

/// A path separator: `/`, or `\\` as on Windows.
pub open spec fn is_sep(c: char) -> bool {
    c == '/' || c == '\\'
}

/// The components of a path: the texts between its separators, empty ones
/// included.
pub open spec fn path_parts(p: Seq<char>) -> Seq<Seq<char>>
    decreases p.len(),
{
    if p.len() == 0 {
        seq![Seq::<char>::empty()]
    } else {
        let r = path_parts(p.drop_last());
        if is_sep(p.last()) {
            r.push(Seq::<char>::empty())
        } else {
            r.update(r.len() - 1, r.last().push(p.last()))
        }
    }
}

/// A path starts at the root: its first character is a separator.
pub open spec fn is_rooted(p: Seq<char>) -> bool {
    p.len() > 0 && is_sep(p[0])
}

/// One component taken into the components resolved so far: an empty
/// component and `.` change nothing; `..` drops the last component (at
/// the root there is nothing to drop; a relative path keeps leading
/// `..`); any other is added.
pub open spec fn resolve_step(st: Seq<Seq<char>>, c: Seq<char>, rooted: bool) -> Seq<Seq<char>> {
    if c.len() == 0 || c == "."@ {
        st
    } else if c == ".."@ {
        if st.len() > 0 && st.last() != ".."@ {
            st.drop_last()
        } else if rooted {
            st
        } else {
            st.push(c)
        }
    } else {
        st.push(c)
    }
}

/// Components resolved one after the other.
pub open spec fn resolve_parts(parts: Seq<Seq<char>>, rooted: bool) -> Seq<Seq<char>>
    decreases parts.len(),
{
    if parts.len() == 0 {
        Seq::empty()
    } else {
        resolve_step(resolve_parts(parts.drop_last(), rooted), parts.last(), rooted)
    }
}

/// The components of a path once `.`, `..` and empty components are
/// resolved lexically.
pub open spec fn normal_parts(p: Seq<char>) -> Seq<Seq<char>> {
    resolve_parts(path_parts(p), is_rooted(p))
}

/// `path` lies within `dir` lexically: both start at the root or neither
/// does, and once `.` and `..` are resolved the components of `dir` begin
/// those of `path`.
pub open spec fn lexically_within(path: Seq<char>, dir: Seq<char>) -> bool {
    let a = normal_parts(path);
    let d = normal_parts(dir);
    &&& is_rooted(path) == is_rooted(dir)
    &&& d.len() <= a.len()
    &&& a.take(d.len() as int) == d
}

/// Texts of a vector of character vectors.
pub open spec fn texts_of(v: Seq<Vec<char>>) -> Seq<Seq<char>> {
    v.map_values(|x: Vec<char>| x@)
}

fn is_sep_exec(c: char) -> (r: bool)
    ensures
        r == is_sep(c),
{
    c == '/' || c == '\\'
}

fn split_path(p: &Vec<char>) -> (parts: Vec<Vec<char>>)
    ensures
        texts_of(parts@) == path_parts(p@),
{
    let mut done: Vec<Vec<char>> = Vec::new();
    let mut cur: Vec<char> = Vec::new();
    let mut k: usize = 0;
    assert(p@.take(0) =~= Seq::<char>::empty());
    assert(texts_of(done@).push(cur@) =~= path_parts(p@.take(0)));
    while k < p.len()
        invariant
            k <= p.len(),
            texts_of(done@).push(cur@) == path_parts(p@.take(k as int)),
        decreases p.len() - k,
    {
        let c = p[k];
        assert(p@.take(k + 1).drop_last() =~= p@.take(k as int));
        assert(p@.take(k + 1).last() == c);
        let ghost r = path_parts(p@.take(k as int));
        if is_sep_exec(c) {
            let ghost before = done@;
            done.push(cur);
            cur = Vec::new();
            assert(texts_of(done@) =~= texts_of(before).push(r.last()));
            assert(texts_of(done@).push(cur@) =~= r.push(Seq::<char>::empty()));
        } else {
            let ghost old_cur = cur@;
            cur.push(c);
            assert(texts_of(done@).push(cur@) =~= r.update(r.len() - 1, r.last().push(c)));
        }
        k = k + 1;
    }
    assert(p@.take(k as int) =~= p@);
    let ghost before = done@;
    done.push(cur);
    assert(texts_of(done@) =~= texts_of(before).push(cur@));
    done
}

fn is_dot(c: &Vec<char>) -> (r: bool)
    ensures
        r == (c@ == "."@),
{
    proof {
        reveal_strlit(".");
    }
    let r = c.len() == 1 && c[0] == '.';
    if r {
        assert(c@ =~= "."@);
    }
    r
}

fn is_dot_dot(c: &Vec<char>) -> (r: bool)
    ensures
        r == (c@ == ".."@),
{
    proof {
        reveal_strlit("..");
    }
    let r = c.len() == 2 && c[0] == '.' && c[1] == '.';
    if r {
        assert(c@ =~= ".."@);
    }
    r
}

fn chars_eq(a: &Vec<char>, b: &Vec<char>) -> (r: bool)
    ensures
        r == (a@ == b@),
{
    if a.len() != b.len() {
        return false;
    }
    let mut i: usize = 0;
    while i < a.len()
        invariant
            a.len() == b.len(),
            i <= a.len(),
            forall|j: int| 0 <= j < i ==> a@[j] == b@[j],
        decreases a.len() - i,
    {
        if a[i] != b[i] {
            return false;
        }
        i = i + 1;
    }
    assert(a@ =~= b@);
    true
}

/// The lexically resolved components of a path.
fn normal_parts_exec(p: &Vec<char>) -> (st: Vec<Vec<char>>)
    ensures
        texts_of(st@) == normal_parts(p@),
{
    let parts = split_path(p);
    let rooted = p.len() > 0 && is_sep_exec(p[0]);
    let ghost ps = texts_of(parts@);
    let mut st: Vec<Vec<char>> = Vec::new();
    let mut k: usize = 0;
    assert(ps.take(0) =~= Seq::<Seq<char>>::empty());
    assert(texts_of(st@) =~= Seq::<Seq<char>>::empty());
    while k < parts.len()
        invariant
            ps == texts_of(parts@),
            rooted == is_rooted(p@),
            k <= parts.len(),
            texts_of(st@) == resolve_parts(ps.take(k as int), rooted),
        decreases parts.len() - k,
    {
        assert(ps.take(k + 1).drop_last() =~= ps.take(k as int));
        assert(ps.take(k + 1).last() == parts[k as int]@);
        let ghost before = texts_of(st@);
        let c = &parts[k];
        if c.len() == 0 || is_dot(c) {
        } else if is_dot_dot(c) {
            let top_is_parent = st.len() > 0 && is_dot_dot(&st[st.len() - 1]);
            if st.len() > 0 && !top_is_parent {
                st.pop();
                assert(texts_of(st@) =~= before.drop_last());
            } else if !rooted {
                st.push(c.clone());
                assert(texts_of(st@) =~= before.push(c@));
            }
        } else {
            st.push(c.clone());
            assert(texts_of(st@) =~= before.push(c@));
        }
        k = k + 1;
    }
    assert(ps.take(k as int) =~= ps);
    st
}

/// Whether `path` lies within `dir` lexically.
pub fn lexically_within_exec(path: &str, dir: &str) -> (r: bool)
    ensures
        r == lexically_within(path@, dir@),
{
    let pc = chars_of(path);
    let dc = chars_of(dir);
    let rp = pc.len() > 0 && is_sep_exec(pc[0]);
    let rd = dc.len() > 0 && is_sep_exec(dc[0]);
    assert(rp == is_rooted(path@) && rd == is_rooted(dir@));
    if rp != rd {
        return false;
    }
    let a = normal_parts_exec(&pc);
    let d = normal_parts_exec(&dc);
    assert(texts_of(a@).len() == a@.len() && texts_of(d@).len() == d@.len());
    if d.len() > a.len() {
        return false;
    }
    let mut i: usize = 0;
    while i < d.len()
        invariant
            d.len() <= a.len(),
            i <= d.len(),
            texts_of(a@) == normal_parts(path@),
            texts_of(d@) == normal_parts(dir@),
            is_rooted(path@) == is_rooted(dir@),
            forall|j: int| 0 <= j < i ==> texts_of(a@)[j] == texts_of(d@)[j],
        decreases d.len() - i,
    {
        if !chars_eq(&a[i], &d[i]) {
            assert(texts_of(a@).take(d@.len() as int)[i as int] != texts_of(d@)[i as int]);
            assert(texts_of(a@).take(d@.len() as int) != texts_of(d@));
            return false;
        }
        i = i + 1;
    }
    assert(texts_of(a@).take(d@.len() as int) =~= texts_of(d@));
    true
}

/// Lexical resolution of a rooted path leaves no empty, `.` or `..`
/// component.
pub proof fn lemma_normal_parts_clean(p: Seq<char>)
    requires
        is_rooted(p),
    ensures
        forall|i: int| 0 <= i < normal_parts(p).len() ==> {
            let c = #[trigger] normal_parts(p)[i];
            c.len() > 0 && c != "."@ && c != ".."@
        },
{
    lemma_resolve_clean(path_parts(p));
}

proof fn lemma_resolve_clean(parts: Seq<Seq<char>>)
    ensures
        forall|i: int| 0 <= i < resolve_parts(parts, true).len() ==> {
            let c = #[trigger] resolve_parts(parts, true)[i];
            c.len() > 0 && c != "."@ && c != ".."@
        },
    decreases parts.len(),
{
    if parts.len() > 0 {
        lemma_resolve_clean(parts.drop_last());
        let st = resolve_parts(parts.drop_last(), true);
        let c = parts.last();
        let r = resolve_parts(parts, true);
        assert(r == resolve_step(st, c, true));
        assert forall|i: int| 0 <= i < r.len() implies {
            let x = #[trigger] r[i];
            x.len() > 0 && x != "."@ && x != ".."@
        } by {
            if i < st.len() {
                assert(r[i] == st[i]);
            }
        }
    }
}

/// Whether a relative path resolves inside the project directory: the
/// resolved path lies within the directory once `.` and `..` are resolved.
pub open spec fn resolves_inside(dir: Seq<char>, relative: Seq<char>, canonical: Option<Seq<char>>) -> bool {
    lexically_within(resolved_candidate(dir, relative, canonical), dir)
}

/// One entry of a directory listing: its file name and whether it is a
/// directory.
#[derive(Debug)]
pub struct DirEntryInfo {
    pub name: String,
    pub is_dir: bool,
}

/// The line of a listing entry: its name, with `/` after a directory's.
pub open spec fn entry_line(e: DirEntryInfo) -> Seq<char> {
    if e.is_dir {
        e.name@ + "/"@
    } else {
        e.name@
    }
}

/// Reads and edits files inside a project directory.
#[derive(Debug)]
pub struct FileTool<'a> {
    project_dir: &'a str,
}

impl<'a> View for FileTool<'a> {
    type V = Seq<char>;

    /// The project directory.
    closed spec fn view(&self) -> Seq<char> {
        self.project_dir@
    }
}

impl<'a> FileTool<'a> {
    /// A file tool confined to `project_dir`.
    pub fn new(project_dir: &'a str) -> (t: FileTool<'a>)
        ensures
            t@ == project_dir@,
    {
        FileTool { project_dir }
    }

    /// The project directory.
    pub fn project_dir(&self) -> (d: &'a str)
        ensures
            d@ == self@,
    {
        self.project_dir
    }

    /// The project directory joined with a relative path.
    pub fn join(&self, relative: &str) -> (p: String)
        ensures
            p@ == joined_path(self@, relative@),
    {
        join_path(self.project_dir, relative)
    }

    /// Resolves a path given relative to the project directory. `canonical`
    /// is what canonicalizing the joined path gave (`None` when it failed,
    /// for instance because the file does not exist yet). The canonical
    /// path, or else the joined path, is kept only when, with `.` and `..`
    /// resolved, it lies inside the project directory: a path handed out
    /// never leaves the directory through `..`.
    pub fn resolve_path(&self, relative: &str, canonical: Option<String>) -> (res: Result<
        String,
        ToolResult,
    >)
        ensures
            match res {
                Ok(p) => resolves_inside(self@, relative@, opt_str_view(canonical)) && p@
                    == resolved_candidate(self@, relative@, opt_str_view(canonical))
                    && lexically_within(p@, self@),
                Err(e) => !resolves_inside(self@, relative@, opt_str_view(canonical)) && e@
                    == error_view(outside_error()),
            },
    {
        let candidate = match canonical {
            Some(c) => c,
            None => self.join(relative),
        };
        let inside = lexically_within_exec(candidate.as_str(), self.project_dir);
        confine_path(candidate, inside)
    }

    /// The result of listing a directory: one line per entry, a directory's
    /// name followed by `/`, in `String` order, separated by newlines.
    pub fn format_listing(&self, entries: &Vec<DirEntryInfo>) -> (r: ToolResult)
        ensures
            r@ == success_view(
                join(entries@.map_values(|e: DirEntryInfo| entry_line(e)).sort_by(text_order()), "\n"@),
            ),
    {
        let mut lines: Vec<String> = Vec::new();
        let mut i: usize = 0;
        while i < entries.len()
            invariant
                i <= entries.len(),
                lines@.len() == i,
                forall|k: int| 0 <= k < i ==> (#[trigger] lines@[k])@ == entry_line(entries@[k]),
            decreases entries.len() - i,
        {
            let e = &entries[i];
            let line = if e.is_dir {
                concat2(e.name.as_str(), "/")
            } else {
                copy_string(&e.name)
            };
            lines.push(line);
            i = i + 1;
        }
        assert(strings_view(lines@) =~= entries@.map_values(|e: DirEntryInfo| entry_line(e)));
        let sorted = sort_strings(lines);
        ToolResult::success(join_strings(&sorted, "\n"))
    }

    /// The result of reading a file: its content, or the reason reading
    /// failed.
    pub fn read_result(&self, read: Result<String, String>) -> (r: ToolResult)
        ensures
            r@ == match read {
                Ok(c) => success_view(c@),
                Err(e) => error_view(io_failure_text(FileOp::Read, e@)),
            },
    {
        match read {
            Ok(c) => ToolResult::success(c),
            Err(e) => FileTool::failure(FileOp::Read, e),
        }
    }

    /// The result of a file operation that failed for the given reason.
    pub fn failure(op: FileOp, reason: String) -> (r: ToolResult)
        ensures
            r@ == error_view(io_failure_text(op, reason@)),
    {
        let prefix = match op {
            FileOp::Read => "读取文件失败: ",
            FileOp::CreateDir => "创建目录失败: ",
            FileOp::Write => "写入文件失败: ",
            FileOp::List => "列出目录失败: ",
        };
        ToolResult::error(concat2(prefix, reason.as_str()))
    }

    /// The result of writing a file successfully.
    pub fn written() -> (r: ToolResult)
        ensures
            r@ == success_view("文件写入成功"@),
    {
        ToolResult::success(to_owned_string("文件写入成功"))
    }

    /// The result of editing a file successfully.
    pub fn edited() -> (r: ToolResult)
        ensures
            r@ == success_view("文件修改成功"@),
    {
        ToolResult::success(to_owned_string("文件修改成功"))
    }

    /// The new content of a file edited by replacing `old_string` with
    /// `new_string` everywhere, or the failed result when it does not occur.
    pub fn edit(&self, content: &str, old_string: &str, new_string: &str) -> (res: Result<
        String,
        ToolResult,
    >)
        ensures
            match res {
                Ok(s) => edit_result(content@, old_string@, new_string@) == Ok::<Seq<char>, Seq<char>>(s@),
                Err(e) => edit_result(content@, old_string@, new_string@) is Err && e@
                    == error_view(edit_result(content@, old_string@, new_string@)->Err_0),
            },
    {
        edit_content(content, old_string, new_string)
    }
}

} // verus!
