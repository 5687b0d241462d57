//! Risk assessment of shell commands proposed by the agent.
//!
//! A command is lower-cased, trimmed, and then matched: any blocked pattern,
//! or a download piped into a shell, makes it `Blocked`; otherwise any
//! high-risk pattern (recursive deletion, moving, dropping data, opening
//! permissions) or a run of the `rm` command makes it `High`; otherwise it
//! is `Low` and may run without asking.
use vstd::prelude::*;
use crate::text::{
    all_ws, ascii_lower, ascii_text, ascii_upper, chars_of, contains_chars, is_ws, is_ws_exec,
    lemma_ascii_lower_concat, lemma_ascii_lower_keeps_ws, lemma_ascii_upper_lower,
    lemma_contains_transitive, lemma_occurs_in_middle, lemma_occurs_shift, lemma_trim_all_ws,
    lemma_trim_around,
    lemma_trim_inner, lowercase, occurs_at, occurs_at_exec, seq_contains, to_lowercase_string,
    trim, trim_chars,
};

verus! {

/// Risk level of a command.
#[derive(Debug, Clone, Copy, PartialEq, Eq, Structural)]
pub enum RiskLevel {
    /// May run directly.
    Low,
    /// Needs the user's confirmation.
    High,
    /// Refused outright.
    Blocked,
}

/// Patterns whose presence refuses a command.
pub open spec fn blocked_patterns() -> Seq<Seq<char>> {
    seq![
        "rm -rf /"@,
        "rm -rf ~"@,
        "rm -rf $home"@,
        "sudo "@,
        "curl | sh"@,
        "curl | bash"@,
        "wget | sh"@,
        "wget | bash"@,
        ":(){ :|:& };:"@,
        "mkfs"@,
        "dd if=/dev/zero"@,
        "> /dev/sda"@,
    ]
}

/// Patterns whose presence requires confirmation: recursive deletion,
/// `rmdir`, SQL `drop` and `delete from`, opening permissions, moving.
pub open spec fn high_patterns() -> Seq<Seq<char>> {
    seq!["rm -rf"@, "rm -r"@, "rmdir "@, "drop "@, "delete from"@, "chmod -r 777"@, "mv "@]
}

/// A character that separates the words and commands of a command line:
/// whitespace, or one of `;`, `&`, `|`, `(`, `)`.
pub open spec fn is_boundary(c: char) -> bool {
    is_ws(c) || c == ';' || c == '&' || c == '|' || c == '(' || c == ')'
}

/// The `rm` command is run at `i`: the word `rm` at the start, after a
/// separator, or after `/` (as in `/bin/rm`), followed by whitespace.
pub open spec fn rm_command_at(t: Seq<char>, i: int) -> bool {
    &&& occurs_at(t, "rm"@, i)
    &&& (i == 0 || is_boundary(t[i - 1]) || t[i - 1] == '/')
    &&& i + 2 < t.len()
    &&& is_ws(t[i + 2])
}

/// The text runs the `rm` command somewhere.
pub open spec fn runs_rm(t: Seq<char>) -> bool {
    exists|i: int| rm_command_at(t, i)
}

/// A download program (`curl` or `wget`) is named at `i`.
pub open spec fn downloader_at(t: Seq<char>, i: int) -> bool {
    occurs_at(t, "curl"@, i) || occurs_at(t, "wget"@, i)
}

/// The first position at or after `m` that holds no whitespace (or the
/// end of the text).
pub open spec fn skip_ws(t: Seq<char>, m: int) -> int
    decreases t.len() - m,
{
    if 0 <= m < t.len() && is_ws(t[m]) {
        skip_ws(t, m + 1)
    } else {
        m
    }
}

/// A word ends at `m`: the text ends there or a separator follows.
pub open spec fn word_ends(t: Seq<char>, m: int) -> bool {
    m == t.len() || (0 <= m < t.len() && is_boundary(t[m]))
}

/// A shell (`sh`, `bash` or `zsh`) is named as a whole word at `k`.
pub open spec fn shell_at(t: Seq<char>, k: int) -> bool {
    ||| occurs_at(t, "sh"@, k) && word_ends(t, k + 2)
    ||| occurs_at(t, "bash"@, k) && word_ends(t, k + 4)
    ||| occurs_at(t, "zsh"@, k) && word_ends(t, k + 3)
}

/// A download named at `i` is piped at `j` into a shell: the pipe `|`
/// comes after the download program, and the first word after the pipe
/// is a shell.
pub open spec fn pipe_to_shell_at(t: Seq<char>, i: int, j: int) -> bool {
    &&& downloader_at(t, i)
    &&& i + 4 <= j
    &&& occurs_at(t, "|"@, j)
    &&& shell_at(t, skip_ws(t, j + 1))
}

/// A download piped into a shell.
pub open spec fn pipes_download_to_shell(t: Seq<char>) -> bool {
    exists|i: int, j: int| pipe_to_shell_at(t, i, j)
}

/// Some pattern of `pats` occurs in `t`.
pub open spec fn contains_any(t: Seq<char>, pats: Seq<Seq<char>>) -> bool {
    exists|k: int| 0 <= k < pats.len() && seq_contains(t, #[trigger] pats[k])
}

/// Risk of an already lower-cased and trimmed command text.
pub open spec fn classify(t: Seq<char>) -> RiskLevel {
    if contains_any(t, blocked_patterns()) || pipes_download_to_shell(t) {
        RiskLevel::Blocked
    } else if contains_any(t, high_patterns()) || runs_rm(t) {
        RiskLevel::High
    } else {
        RiskLevel::Low
    }
}

/// The text a command is matched on: lower-cased, then trimmed.
pub open spec fn normalized(command: Seq<char>) -> Seq<char> {
    trim(lowercase(command))
}

/// Risk of a raw command.
pub open spec fn command_risk(command: Seq<char>) -> RiskLevel {
    classify(normalized(command))
}

/// Order of the risk levels: `Low` < `High` < `Blocked`.
pub open spec fn risk_rank(r: RiskLevel) -> int {
    match r {
        RiskLevel::Low => 0,
        RiskLevel::High => 1,
        RiskLevel::Blocked => 2,
    }
}

fn pattern_list_blocked() -> (v: Vec<Vec<char>>)
    ensures
        v@.len() == blocked_patterns().len(),
        forall|k: int| 0 <= k < v@.len() ==> (#[trigger] v@[k])@ == blocked_patterns()[k],
{
    let mut v: Vec<Vec<char>> = Vec::new();
    v.push(chars_of("rm -rf /"));
    v.push(chars_of("rm -rf ~"));
    v.push(chars_of("rm -rf $home"));
    v.push(chars_of("sudo "));
    v.push(chars_of("curl | sh"));
    v.push(chars_of("curl | bash"));
    v.push(chars_of("wget | sh"));
    v.push(chars_of("wget | bash"));
    v.push(chars_of(":(){ :|:& };:"));
    v.push(chars_of("mkfs"));
    v.push(chars_of("dd if=/dev/zero"));
    v.push(chars_of("> /dev/sda"));
    v
}

fn pattern_list_high() -> (v: Vec<Vec<char>>)
    ensures
        v@.len() == high_patterns().len(),
        forall|k: int| 0 <= k < v@.len() ==> (#[trigger] v@[k])@ == high_patterns()[k],
{
    let mut v: Vec<Vec<char>> = Vec::new();
    v.push(chars_of("rm -rf"));
    v.push(chars_of("rm -r"));
    v.push(chars_of("rmdir "));
    v.push(chars_of("drop "));
    v.push(chars_of("delete from"));
    v.push(chars_of("chmod -r 777"));
    v.push(chars_of("mv "));
    v
}

fn contains_any_exec(t: &Vec<char>, pats: &Vec<Vec<char>>, Ghost(spec_pats): Ghost<Seq<Seq<char>>>) -> (res: bool)
    requires
        pats@.len() == spec_pats.len(),
        forall|k: int| 0 <= k < pats@.len() ==> (#[trigger] pats@[k])@ == spec_pats[k],
    ensures
        res == contains_any(t@, spec_pats),
{
    let mut k: usize = 0;
    while k < pats.len()
        invariant
            pats@.len() == spec_pats.len(),
            forall|j: int| 0 <= j < pats@.len() ==> (#[trigger] pats@[j])@ == spec_pats[j],
            k <= pats.len(),
            forall|j: int| 0 <= j < k ==> !seq_contains(t@, #[trigger] spec_pats[j]),
        decreases pats.len() - k,
    {
        if contains_chars(t, &pats[k]) {
            assert(seq_contains(t@, spec_pats[k as int]));
            return true;
        }
        k = k + 1;
    }
    false
}

/// Whether `c` separates words and commands.
fn is_boundary_exec(c: char) -> (res: bool)
    ensures
        res == is_boundary(c),
{
    is_ws_exec(c) || c == ';' || c == '&' || c == '|' || c == '(' || c == ')'
}

/// Whether the text runs the `rm` command.
fn runs_rm_exec(t: &Vec<char>) -> (res: bool)
    ensures
        res == runs_rm(t@),
{
    let rm = chars_of("rm");
    proof {
        reveal_strlit("rm");
    }
    let mut i: usize = 0;
    while i < t.len()
        invariant
            rm@ == "rm"@,
            rm@.len() == 2,
            forall|j: int| 0 <= j < i ==> !rm_command_at(t@, j),
        decreases t.len() - i,
    {
        if occurs_at_exec(t, &rm, i) && i + 2 < t.len() && is_ws_exec(t[i + 2]) {
            if i == 0 || is_boundary_exec(t[i - 1]) || t[i - 1] == '/' {
                assert(rm_command_at(t@, i as int));
                return true;
            }
        }
        i = i + 1;
    }
    assert forall|j: int| !rm_command_at(t@, j) by {
        if 0 <= j < i {
        }
    }
    false
}

/// The first position at or after `m` that holds no whitespace.
fn skip_ws_exec(t: &Vec<char>, m: usize) -> (r: usize)
    requires
        m <= t.len(),
    ensures
        r == skip_ws(t@, m as int),
        m <= r <= t.len(),
{
    let mut k: usize = m;
    while k < t.len() && is_ws_exec(t[k])
        invariant
            m <= k <= t.len(),
            skip_ws(t@, m as int) == skip_ws(t@, k as int),
        decreases t.len() - k,
    {
        k = k + 1;
    }
    k
}

/// Whether a word ends at `m`.
fn word_ends_exec(t: &Vec<char>, m: usize) -> (res: bool)
    ensures
        res == word_ends(t@, m as int),
{
    if m == t.len() {
        true
    } else if m < t.len() {
        is_boundary_exec(t[m])
    } else {
        false
    }
}

/// Whether a shell is named as a whole word at `k`.
fn shell_at_exec(t: &Vec<char>, k: usize) -> (res: bool)
    ensures
        res == shell_at(t@, k as int),
{
    let sh = chars_of("sh");
    let bash = chars_of("bash");
    let zsh = chars_of("zsh");
    proof {
        reveal_strlit("sh");
        reveal_strlit("bash");
        reveal_strlit("zsh");
        assert(sh@ =~= seq!['s', 'h']);
        assert(bash@ =~= seq!['b', 'a', 's', 'h']);
        assert(zsh@ =~= seq!['z', 's', 'h']);
    }
    let n = t.len();
    let mut found = false;
    if occurs_at_exec(t, &sh, k) {
        found = word_ends_exec(t, k + 2);
    }
    if !found && occurs_at_exec(t, &bash, k) {
        found = word_ends_exec(t, k + 4);
    }
    if !found && occurs_at_exec(t, &zsh, k) {
        found = word_ends_exec(t, k + 3);
    }
    found
}

/// The first position where a download program is named.
fn first_downloader(t: &Vec<char>) -> (r: Option<usize>)
    ensures
        match r {
            Some(i) => downloader_at(t@, i as int) && forall|j: int|
                0 <= j < i ==> !downloader_at(t@, j),
            None => forall|j: int| !downloader_at(t@, j),
        },
{
    let curl = chars_of("curl");
    let wget = chars_of("wget");
    let mut i: usize = 0;
    while i < t.len()
        invariant
            curl@ == "curl"@,
            wget@ == "wget"@,
            forall|j: int| 0 <= j < i ==> !downloader_at(t@, j),
        decreases t.len() - i,
    {
        if occurs_at_exec(t, &curl, i) || occurs_at_exec(t, &wget, i) {
            return Some(i);
        }
        i = i + 1;
    }
    proof {
        reveal_strlit("curl");
        reveal_strlit("wget");
    }
    None
}

/// Whether a normalized command text pipes a download into a shell.
fn pipes_download_to_shell_exec(t: &Vec<char>) -> (res: bool)
    ensures
        res == pipes_download_to_shell(t@),
{
    let pipe = chars_of("|");
    proof {
        reveal_strlit("|");
        reveal_strlit("curl");
        reveal_strlit("wget");
    }
    match first_downloader(t) {
        None => {
            assert(!pipes_download_to_shell(t@));
            false
        },
        Some(i) => {
            assert("curl"@.len() == 4 && "wget"@.len() == 4);
            assert(i + 4 <= t.len());
            let mut j: usize = i + 4;
            while j < t.len()
                invariant
                    pipe@ == "|"@,
                    pipe@.len() == 1,
                    downloader_at(t@, i as int),
                    forall|a: int| 0 <= a < i ==> !downloader_at(t@, a),
                    i + 4 <= j,
                    forall|b: int| i + 4 <= b < j ==> !pipe_to_shell_at(t@, i as int, b),
                decreases t.len() - j,
            {
                if occurs_at_exec(t, &pipe, j) {
                    let k = skip_ws_exec(t, j + 1);
                    if shell_at_exec(t, k) {
                        assert(pipe_to_shell_at(t@, i as int, j as int));
                        return true;
                    }
                }
                j = j + 1;
            }
            assert(!pipes_download_to_shell(t@)) by {
                if pipes_download_to_shell(t@) {
                    let (a, b) = choose|a: int, b: int| pipe_to_shell_at(t@, a, b);
                    assert(a >= i);
                    assert(pipe_to_shell_at(t@, i as int, b));
                }
            }
            false
        },
    }
}

/// Risk of a command text that is already lower-cased and trimmed.
pub fn classify_normalized(t: &Vec<char>) -> (res: RiskLevel)
    ensures
        res == classify(t@),
{
    let blocked = pattern_list_blocked();
    if contains_any_exec(t, &blocked, Ghost(blocked_patterns())) || pipes_download_to_shell_exec(t) {
        return RiskLevel::Blocked;
    }
    let high = pattern_list_high();
    if contains_any_exec(t, &high, Ghost(high_patterns())) || runs_rm_exec(t) {
        return RiskLevel::High;
    }
    RiskLevel::Low
}

/// Assesses the risk level of a shell command.
pub fn assess_risk(command: &str) -> (res: RiskLevel)
    ensures
        res == command_risk(command@),
{
    let lower = to_lowercase_string(command);
    let chars = chars_of(lower.as_str());
    let trimmed = trim_chars(&chars);
    classify_normalized(&trimmed)
}

/// Whether a command may run without asking.
pub fn is_auto_executable(command: &str) -> (res: bool)
    ensures
        res == (command_risk(command@) == RiskLevel::Low),
{
    match assess_risk(command) {
        RiskLevel::Low => true,
        _ => false,
    }
}

/// Whether a command is refused.
pub fn is_blocked(command: &str) -> (res: bool)
    ensures
        res == (command_risk(command@) == RiskLevel::Blocked),
{
    match assess_risk(command) {
        RiskLevel::Blocked => true,
        _ => false,
    }
}

proof fn lemma_char_shift(inner: Seq<char>, outer: Seq<char>, o: int, m: int)
    requires
        occurs_at(outer, inner, o),
        0 <= m < inner.len(),
    ensures
        outer[o + m] == inner[m],
{
    assert(outer.subrange(o, o + inner.len())[m] == outer[o + m]);
}

proof fn lemma_skip_ws_shift(inner: Seq<char>, outer: Seq<char>, o: int, m: int)
    requires
        occurs_at(outer, inner, o),
        0 <= m <= inner.len(),
        skip_ws(inner, m) < inner.len(),
    ensures
        skip_ws(outer, m + o) == skip_ws(inner, m) + o,
    decreases inner.len() - m,
{
    lemma_char_shift(inner, outer, o, m);
    if is_ws(inner[m]) {
        lemma_skip_ws_shift(inner, outer, o, m + 1);
        assert(m + 1 + o == (m + o) + 1);
    }
}

proof fn lemma_word_ends_shift(inner: Seq<char>, outer: Seq<char>, o: int, m: int)
    requires
        occurs_at(outer, inner, o),
        o + inner.len() == outer.len() || is_boundary(outer[o + inner.len()]),
        0 <= m <= inner.len(),
        word_ends(inner, m),
    ensures
        word_ends(outer, m + o),
{
    if m < inner.len() {
        lemma_char_shift(inner, outer, o, m);
    }
}

proof fn lemma_shell_shift(inner: Seq<char>, outer: Seq<char>, o: int, k: int)
    requires
        occurs_at(outer, inner, o),
        o + inner.len() == outer.len() || is_boundary(outer[o + inner.len()]),
        shell_at(inner, k),
    ensures
        shell_at(outer, k + o),
{
    if occurs_at(inner, "sh"@, k) && word_ends(inner, k + 2) {
        lemma_occurs_shift(outer, inner, "sh"@, k, o);
        lemma_word_ends_shift(inner, outer, o, k + 2);
    } else if occurs_at(inner, "bash"@, k) && word_ends(inner, k + 4) {
        lemma_occurs_shift(outer, inner, "bash"@, k, o);
        lemma_word_ends_shift(inner, outer, o, k + 4);
    } else {
        lemma_occurs_shift(outer, inner, "zsh"@, k, o);
        lemma_word_ends_shift(inner, outer, o, k + 3);
    }
}

/// A normalized text that holds another as a whole command (at the start
/// or after a separator, and at the end or before a separator) is at least
/// as risky: every pattern, every run of `rm` and every piped download of
/// the inner text stays found in the longer one.
pub proof fn lemma_classify_monotone(inner: Seq<char>, outer: Seq<char>, o: int)
    requires
        occurs_at(outer, inner, o),
        o == 0 || is_boundary(outer[o - 1]),
        o + inner.len() == outer.len() || is_boundary(outer[o + inner.len()]),
    ensures
        risk_rank(classify(outer)) >= risk_rank(classify(inner)),
{
    assert(seq_contains(outer, inner));
    if contains_any(inner, blocked_patterns()) {
        let k = choose|k: int|
            0 <= k < blocked_patterns().len() && seq_contains(inner, #[trigger] blocked_patterns()[k]);
        lemma_contains_transitive(outer, inner, blocked_patterns()[k]);
        assert(contains_any(outer, blocked_patterns()));
    } else if pipes_download_to_shell(inner) {
        reveal_strlit("|");
        reveal_strlit("sh");
        reveal_strlit("bash");
        reveal_strlit("zsh");
        let (a, b) = choose|a: int, b: int| pipe_to_shell_at(inner, a, b);
        let k = skip_ws(inner, b + 1);
        if occurs_at(inner, "curl"@, a) {
            lemma_occurs_shift(outer, inner, "curl"@, a, o);
        } else {
            lemma_occurs_shift(outer, inner, "wget"@, a, o);
        }
        lemma_occurs_shift(outer, inner, "|"@, b, o);
        lemma_skip_ws_shift(inner, outer, o, b + 1);
        lemma_shell_shift(inner, outer, o, k);
        assert(b + o + 1 == (b + 1) + o);
        assert(pipe_to_shell_at(outer, a + o, b + o));
    } else if contains_any(inner, high_patterns()) {
        let k = choose|k: int|
            0 <= k < high_patterns().len() && seq_contains(inner, #[trigger] high_patterns()[k]);
        lemma_contains_transitive(outer, inner, high_patterns()[k]);
        assert(contains_any(outer, high_patterns()));
    } else if runs_rm(inner) {
        let i = choose|i: int| rm_command_at(inner, i);
        lemma_occurs_shift(outer, inner, "rm"@, i, o);
        if i > 0 {
            lemma_char_shift(inner, outer, o, i - 1);
        }
        lemma_char_shift(inner, outer, o, i + 2);
        assert(rm_command_at(outer, i + o));
    }
}

/// The empty text is `Low`: every pattern has at least one character.
proof fn lemma_classify_empty()
    ensures
        classify(Seq::<char>::empty()) == RiskLevel::Low,
{
    reveal_strlit("rm -rf /");
    reveal_strlit("rm -rf ~");
    reveal_strlit("rm -rf $home");
    reveal_strlit("sudo ");
    reveal_strlit("curl | sh");
    reveal_strlit("curl | bash");
    reveal_strlit("wget | sh");
    reveal_strlit("wget | bash");
    reveal_strlit(":(){ :|:& };:");
    reveal_strlit("mkfs");
    reveal_strlit("dd if=/dev/zero");
    reveal_strlit("> /dev/sda");
    reveal_strlit("rm -rf");
    reveal_strlit("rm -r");
    reveal_strlit("rmdir ");
    reveal_strlit("drop ");
    reveal_strlit("delete from");
    reveal_strlit("chmod -r 777");
    reveal_strlit("mv ");
    let e = Seq::<char>::empty();
    assert forall|k: int| 0 <= k < blocked_patterns().len() implies !seq_contains(e, #[trigger] blocked_patterns()[k]) by {
        assert(blocked_patterns()[k].len() > 0);
    }
    assert forall|k: int| 0 <= k < high_patterns().len() implies !seq_contains(e, #[trigger] high_patterns()[k]) by {
        assert(high_patterns()[k].len() > 0);
    }
}

/// Adding commands around an ASCII command never lowers its risk: when the
/// added text is separated from the command (it is empty, or ends, and
/// begins, with whitespace or one of `;`, `&`, `|`, `(`, `)`), the risk of
/// `a + command + b` is at least that of `command`.
pub proof fn lemma_risk_monotone(a: Seq<char>, command: Seq<char>, b: Seq<char>)
    requires
        ascii_text(a),
        ascii_text(command),
        ascii_text(b),
        a.len() == 0 || is_boundary(a.last()),
        b.len() == 0 || is_boundary(b[0]),
    ensures
        risk_rank(command_risk(a + command + b)) >= risk_rank(command_risk(command)),
{
    lemma_ascii_lower_concat(a, command);
    lemma_ascii_lower_concat(a + command, b);
    let la = ascii_lower(a);
    let lc = ascii_lower(command);
    let lb = ascii_lower(b);
    if all_ws(lc) {
        lemma_trim_all_ws(lc);
        lemma_classify_empty();
    } else {
        let (pp, qq) = lemma_trim_around(la, lc, lb);
        let t = trim(lc);
        let outer = pp + t + qq;
        lemma_occurs_in_middle(pp, t, qq);
        if pp.len() > 0 {
            assert(outer[pp.len() - 1] == pp.last());
            if !is_ws(pp.last()) {
                assert(la.last() == a.last());
            }
        }
        if qq.len() > 0 {
            assert(outer[(pp.len() + t.len()) as int] == qq[0]);
            if !is_ws(qq[0]) {
                assert(lb[0] == b[0]);
            }
        }
        lemma_classify_monotone(t, outer, pp.len() as int);
    }
}

/// A command whose lower-cased, trimmed text contains any of the refused
/// texts (`rm -rf /`, `rm -rf ~`, `rm -rf $home`, `sudo `, `curl | sh`,
/// `curl | bash`, `wget | sh`, `wget | bash`, the fork bomb, `mkfs`,
/// `dd if=/dev/zero`, `> /dev/sda`) is refused.
pub proof fn lemma_refused_texts_are_blocked(command: Seq<char>, p: Seq<char>)
    requires
        seq_contains(normalized(command), p),
        p == "rm -rf /"@ ||
        p == "rm -rf ~"@ ||
        p == "rm -rf $home"@ ||
        p == "sudo "@ ||
        p == "curl | sh"@ ||
        p == "curl | bash"@ ||
        p == "wget | sh"@ ||
        p == "wget | bash"@ ||
        p == ":(){ :|:& };:"@ ||
        p == "mkfs"@ ||
        p == "dd if=/dev/zero"@ ||
        p == "> /dev/sda"@,
    ensures
        command_risk(command) == RiskLevel::Blocked,
{
        let k: int = if p == "rm -rf /"@ {
            0
        } else if p == "rm -rf ~"@ {
            1
        } else if p == "rm -rf $home"@ {
            2
        } else if p == "sudo "@ {
            3
        } else if p == "curl | sh"@ {
            4
        } else if p == "curl | bash"@ {
            5
        } else if p == "wget | sh"@ {
            6
        } else if p == "wget | bash"@ {
            7
        } else if p == ":(){ :|:& };:"@ {
            8
        } else if p == "mkfs"@ {
            9
        } else if p == "dd if=/dev/zero"@ {
            10
        } else {
            11
        };
        assert(blocked_patterns()[k] == p);
        assert(contains_any(normalized(command), blocked_patterns()));
}

/// A command whose lower-cased, trimmed text contains any of the texts of
/// deletion, moving, dropping data or opening permissions (`rm -rf`,
/// `rm -r`, `rmdir `, `drop `, `delete from`, `chmod -r 777`, `mv `), or
/// that starts by running `rm`, is never run without asking.
pub proof fn lemma_risky_texts_need_confirmation(command: Seq<char>, p: Seq<char>)
    requires
        seq_contains(normalized(command), p) && (p == "rm -rf"@ ||
        p == "rm -r"@ ||
        p == "rmdir "@ ||
        p == "drop "@ ||
        p == "delete from"@ ||
        p == "chmod -r 777"@ ||
        p == "mv "@)
            || (p == "rm"@ && normalized(command).len() > 2 && occurs_at(normalized(command), "rm"@, 0)
            && is_ws(normalized(command)[2])),
    ensures
        command_risk(command) != RiskLevel::Low,
{
    let t = normalized(command);
    if p == "rm"@ && t.len() > 2 && occurs_at(t, "rm"@, 0) && is_ws(t[2]) {
        assert(rm_command_at(t, 0));
    } else {
            let k: int = if p == "rm -rf"@ {
                0
            } else if p == "rm -r"@ {
                1
            } else if p == "rmdir "@ {
                2
            } else if p == "drop "@ {
                3
            } else if p == "delete from"@ {
                4
            } else if p == "chmod -r 777"@ {
                5
            } else {
                6
            };
            assert(high_patterns()[k] == p);
            assert(contains_any(t, high_patterns()));
    }
}

/// A command whose lower-cased, trimmed text contains none of the refused
/// or risky texts, runs no `rm` and pipes no download into a shell may run
/// without asking.
pub proof fn lemma_other_commands_run(command: Seq<char>)
    requires
        !seq_contains(normalized(command), "rm -rf /"@),
        !seq_contains(normalized(command), "rm -rf ~"@),
        !seq_contains(normalized(command), "rm -rf $home"@),
        !seq_contains(normalized(command), "sudo "@),
        !seq_contains(normalized(command), "curl | sh"@),
        !seq_contains(normalized(command), "curl | bash"@),
        !seq_contains(normalized(command), "wget | sh"@),
        !seq_contains(normalized(command), "wget | bash"@),
        !seq_contains(normalized(command), ":(){ :|:& };:"@),
        !seq_contains(normalized(command), "mkfs"@),
        !seq_contains(normalized(command), "dd if=/dev/zero"@),
        !seq_contains(normalized(command), "> /dev/sda"@),
        !seq_contains(normalized(command), "rm -rf"@),
        !seq_contains(normalized(command), "rm -r"@),
        !seq_contains(normalized(command), "rmdir "@),
        !seq_contains(normalized(command), "drop "@),
        !seq_contains(normalized(command), "delete from"@),
        !seq_contains(normalized(command), "chmod -r 777"@),
        !seq_contains(normalized(command), "mv "@),
        !runs_rm(normalized(command)),
        !pipes_download_to_shell(normalized(command)),
    ensures
        command_risk(command) == RiskLevel::Low,
{
    let t = normalized(command);
    assert forall|k: int| 0 <= k < blocked_patterns().len() implies !seq_contains(
        t,
        #[trigger] blocked_patterns()[k],
    ) by {
        if k == 0 {
            assert(blocked_patterns()[k] == "rm -rf /"@);
        }
        if k == 1 {
            assert(blocked_patterns()[k] == "rm -rf ~"@);
        }
        if k == 2 {
            assert(blocked_patterns()[k] == "rm -rf $home"@);
        }
        if k == 3 {
            assert(blocked_patterns()[k] == "sudo "@);
        }
        if k == 4 {
            assert(blocked_patterns()[k] == "curl | sh"@);
        }
        if k == 5 {
            assert(blocked_patterns()[k] == "curl | bash"@);
        }
        if k == 6 {
            assert(blocked_patterns()[k] == "wget | sh"@);
        }
        if k == 7 {
            assert(blocked_patterns()[k] == "wget | bash"@);
        }
        if k == 8 {
            assert(blocked_patterns()[k] == ":(){ :|:& };:"@);
        }
        if k == 9 {
            assert(blocked_patterns()[k] == "mkfs"@);
        }
        if k == 10 {
            assert(blocked_patterns()[k] == "dd if=/dev/zero"@);
        }
        if k == 11 {
            assert(blocked_patterns()[k] == "> /dev/sda"@);
        }
    }
    assert forall|k: int| 0 <= k < high_patterns().len() implies !seq_contains(
        t,
        #[trigger] high_patterns()[k],
    ) by {
        if k == 0 {
            assert(high_patterns()[k] == "rm -rf"@);
        }
        if k == 1 {
            assert(high_patterns()[k] == "rm -r"@);
        }
        if k == 2 {
            assert(high_patterns()[k] == "rmdir "@);
        }
        if k == 3 {
            assert(high_patterns()[k] == "drop "@);
        }
        if k == 4 {
            assert(high_patterns()[k] == "delete from"@);
        }
        if k == 5 {
            assert(high_patterns()[k] == "chmod -r 777"@);
        }
        if k == 6 {
            assert(high_patterns()[k] == "mv "@);
        }
    }
}

/// Letter case never changes the risk of an ASCII command: two commands
/// that differ only in the case of their letters get the same level, and
/// in particular a command written in capitals gets the level of the
/// command itself.
pub proof fn lemma_risk_ignores_case(a: Seq<char>, b: Seq<char>)
    requires
        ascii_text(a),
        ascii_text(b),
        ascii_lower(a) == ascii_lower(b),
    ensures
        command_risk(a) == command_risk(b),
        command_risk(ascii_upper(a)) == command_risk(a),
{
    lemma_ascii_upper_lower(a);
}

/// Whitespace around an ASCII command never changes its risk.
pub proof fn lemma_risk_ignores_padding(a: Seq<char>, command: Seq<char>, b: Seq<char>)
    requires
        ascii_text(a),
        ascii_text(command),
        ascii_text(b),
        all_ws(a),
        all_ws(b),
    ensures
        command_risk(a + command + b) == command_risk(command),
{
    lemma_ascii_lower_concat(a, command);
    lemma_ascii_lower_concat(a + command, b);
    lemma_ascii_lower_keeps_ws(a);
    lemma_ascii_lower_keeps_ws(b);
    lemma_trim_inner(a, ascii_lower(command), b);
}

} // verus!
