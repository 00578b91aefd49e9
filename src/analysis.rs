//! Line-based static analysis of source files and the advice drawn from it.

use vstd::prelude::*;
use crate::launch::{decimal, decimal_string};
use crate::projects::strs;
use crate::text::{lower_of, lowercase, contains_seq, contains_str, chars_of, string_of, same_str};

verus! {

/// How a specialty is set up.
pub struct SpecialtyConfig {
    pub allowed_tools: Vec<String>,
    pub trigger_conditions: Option<Vec<TriggerCondition>>,
    pub context_window_size: Option<usize>,
    pub max_concurrent_tasks: Option<usize>,
}

/// When a specialty is called in on its own.
pub struct TriggerCondition {
    /// `file_change`, `test_failure` or `security_alert`.
    pub event_type: String,
    pub pattern: String,
    pub enabled: bool,
}

/// A stored specialty.
pub struct SubagentSpecialty {
    pub id: Option<i64>,
    pub specialty_type: String,
    pub display_name: String,
    pub description: Option<String>,
    pub default_system_prompt: String,
    /// JSON array.
    pub default_tools: String,
    /// JSON array.
    pub routing_patterns: String,
    pub icon_suggestion: Option<String>,
    pub created_at: String,
}

/// A finding of the static analysis.
pub struct CodeIssue {
    /// `critical`, `major`, `minor` or `info`.
    pub severity: String,
    /// `security`, `performance`, `maintainability` or `style`.
    pub category: String,
    pub file_path: String,
    pub line: Option<u32>,
    pub message: String,
    pub suggestion: Option<String>,
}

/// What the analysis found on a line.
#[derive(PartialEq, Eq, Structural, Clone, Copy, Debug)]
pub enum IssueKind {
    SqlInjection,
    Xss,
    HardcodedSecret,
    NPlusOneQuery,
    LargeFileRead,
    /// A function of this many lines.
    LongFunction { lines: u64 },
    /// A line of this many characters.
    LongLine { chars: u64 },
    TodoComment,
}

pub open spec fn kind_severity(k: IssueKind) -> Seq<char> {
    match k {
        IssueKind::SqlInjection | IssueKind::HardcodedSecret => "critical"@,
        IssueKind::Xss | IssueKind::NPlusOneQuery => "major"@,
        IssueKind::LargeFileRead | IssueKind::LongFunction { .. } => "minor"@,
        IssueKind::LongLine { .. } | IssueKind::TodoComment => "info"@,
    }
}

pub open spec fn kind_category(k: IssueKind) -> Seq<char> {
    match k {
        IssueKind::SqlInjection | IssueKind::Xss | IssueKind::HardcodedSecret => "security"@,
        IssueKind::NPlusOneQuery | IssueKind::LargeFileRead => "performance"@,
        IssueKind::LongFunction { .. } => "maintainability"@,
        IssueKind::LongLine { .. } | IssueKind::TodoComment => "style"@,
    }
}

pub open spec fn kind_message(k: IssueKind) -> Seq<char> {
    match k {
        IssueKind::SqlInjection => "可能存在SQL注入风险：动态拼接SQL语句"@,
        IssueKind::Xss => "可能存在XSS风险：直接设置innerHTML"@,
        IssueKind::HardcodedSecret => "可能存在硬编码敏感信息"@,
        IssueKind::NPlusOneQuery => "可能存在N+1查询问题：循环中执行数据库查询"@,
        IssueKind::LargeFileRead => "大文件读取可能影响性能"@,
        IssueKind::LongFunction { lines } => "函数过长："@ + decimal(lines as nat) + "行"@,
        IssueKind::LongLine { chars } => "行过长："@ + decimal(chars as nat) + "字符"@,
        IssueKind::TodoComment => "存在TODO或FIXME注释"@,
    }
}

pub open spec fn kind_suggestion(k: IssueKind) -> Seq<char> {
    match k {
        IssueKind::SqlInjection => "使用参数化查询或prepared statements"@,
        IssueKind::Xss => "使用textContent或对内容进行sanitize"@,
        IssueKind::HardcodedSecret => "使用环境变量或配置文件存储敏感信息"@,
        IssueKind::NPlusOneQuery => "考虑使用批量查询或JOIN操作"@,
        IssueKind::LargeFileRead => "对于大文件考虑使用流式读取"@,
        IssueKind::LongFunction { .. } => "考虑将长函数拆分为更小的函数"@,
        IssueKind::LongLine { .. } => "考虑将长行拆分为多行"@,
        IssueKind::TodoComment => "及时处理或转换为正式的issue"@,
    }
}

/// Whether `issue` reports `k` in `file` at line `line` (counted from 1).
pub open spec fn reports(issue: CodeIssue, k: IssueKind, file: Seq<char>, line: nat) -> bool {
    &&& issue.severity@ == kind_severity(k)
    &&& issue.category@ == kind_category(k)
    &&& issue.file_path@ == file
    &&& issue.line == Some(line as u32)
    &&& issue.message@ == kind_message(k)
    &&& issue.suggestion matches Some(s) && s@ == kind_suggestion(k)
}

/// Whether the issues `v` report the findings `f`, one for one, in order.
pub open spec fn reports_all(v: Seq<CodeIssue>, f: Seq<(IssueKind, nat)>, file: Seq<char>) -> bool {
    &&& v.len() == f.len()
    &&& forall|i: int| 0 <= i < v.len() ==> reports(#[trigger] v[i], f[i].0, file, f[i].1)
}

/// The issue reporting `k` in `file` at `line`.
pub fn make_issue(k: IssueKind, file: &str, line: u32) -> (r: CodeIssue)
    ensures
        reports(r, k, file@, line as nat),
{
    let (sev, cat, sug) = match k {
        IssueKind::SqlInjection => ("critical", "security", "使用参数化查询或prepared statements"),
        IssueKind::Xss => ("major", "security", "使用textContent或对内容进行sanitize"),
        IssueKind::HardcodedSecret => ("critical", "security", "使用环境变量或配置文件存储敏感信息"),
        IssueKind::NPlusOneQuery => ("major", "performance", "考虑使用批量查询或JOIN操作"),
        IssueKind::LargeFileRead => ("minor", "performance", "对于大文件考虑使用流式读取"),
        IssueKind::LongFunction { .. } => ("minor", "maintainability", "考虑将长函数拆分为更小的函数"),
        IssueKind::LongLine { .. } => ("info", "style", "考虑将长行拆分为多行"),
        IssueKind::TodoComment => ("info", "style", "及时处理或转换为正式的issue"),
    };
    let message = match k {
        IssueKind::SqlInjection => "可能存在SQL注入风险：动态拼接SQL语句".to_owned(),
        IssueKind::Xss => "可能存在XSS风险：直接设置innerHTML".to_owned(),
        IssueKind::HardcodedSecret => "可能存在硬编码敏感信息".to_owned(),
        IssueKind::NPlusOneQuery => "可能存在N+1查询问题：循环中执行数据库查询".to_owned(),
        IssueKind::LargeFileRead => "大文件读取可能影响性能".to_owned(),
        IssueKind::LongFunction { lines } => {
            let mut m = "函数过长：".to_owned();
            m.append(decimal_string(lines).as_str());
            m.append("行");
            m
        },
        IssueKind::LongLine { chars } => {
            let mut m = "行过长：".to_owned();
            m.append(decimal_string(chars).as_str());
            m.append("字符");
            m
        },
        IssueKind::TodoComment => "存在TODO或FIXME注释".to_owned(),
    };
    CodeIssue {
        severity: sev.to_owned(),
        category: cat.to_owned(),
        file_path: file.to_owned(),
        line: Some(line),
        message,
        suggestion: Some(sug.to_owned()),
    }
}

/// A line without the `\r` of a `\r\n` ending.
pub open spec fn strip_cr(l: Seq<char>) -> Seq<char> {
    if l.len() > 0 && l.last() == '\r' { l.drop_last() } else { l }
}

/// The lines ended so far, and the line being read.
pub open spec fn split_state(s: Seq<char>) -> (Seq<Seq<char>>, Seq<char>)
    decreases s.len(),
{
    if s.len() == 0 {
        (Seq::empty(), Seq::empty())
    } else {
        let (done, cur) = split_state(s.drop_last());
        if s.last() == '\n' {
            (done.push(strip_cr(cur)), Seq::empty())
        } else {
            (done, cur.push(s.last()))
        }
    }
}

/// The lines of a text as `str::lines` gives them.
pub open spec fn text_lines(s: Seq<char>) -> Seq<Seq<char>> {
    let (done, cur) = split_state(s);
    if cur.len() > 0 { done.push(cur) } else { done }
}

proof fn lemma_split_len(s: Seq<char>)
    ensures
        split_state(s).0.len() + split_state(s).1.len() <= s.len(),
        text_lines(s).len() <= s.len(),
    decreases s.len(),
{
    if s.len() > 0 {
        lemma_split_len(s.drop_last());
    }
}

/// The lines of a text, as `str::lines` gives them.
pub fn split_lines(text: &str) -> (r: Vec<String>)
    ensures
        strs(r@) == text_lines(text@),
{
    let v = chars_of(text);
    let mut done: Vec<String> = Vec::new();
    let mut cur: Vec<char> = Vec::new();
    let mut i: usize = 0;
    assert(strs(done@) =~= Seq::<Seq<char>>::empty());
    while i < v.len()
        invariant
            i <= v.len(),
            v@ == text@,
            (strs(done@), cur@) == split_state(v@.subrange(0, i as int)),
        decreases v.len() - i,
    {
        assert(v@.subrange(0, i + 1).drop_last() =~= v@.subrange(0, i as int));
        if v[i] == '\n' {
            if cur.len() > 0 && cur[cur.len() - 1] == '\r' {
                cur.pop();
            }
            let ghost o = strs(done@);
            let line = string_of(&cur);
            done.push(line);
            assert(strs(done@) =~= o.push(cur@));
            cur = Vec::new();
            assert(cur@ =~= Seq::<char>::empty());
        } else {
            cur.push(v[i]);
        }
        i = i + 1;
    }
    assert(v@.subrange(0, v.len() as int) =~= v@);
    if cur.len() > 0 {
        let ghost o = strs(done@);
        done.push(string_of(&cur));
        assert(strs(done@) =~= o.push(cur@));
    }
    done
}

/// Whether a lower-cased line builds a query by concatenation.
pub open spec fn sql_risk(low: Seq<char>) -> bool {
    contains_seq(low, "query"@) && (contains_seq(low, "${"@) || contains_seq(low, "+ "@))
}

/// Whether a lower-cased line sets `innerHTML` unsanitized.
pub open spec fn xss_risk(low: Seq<char>) -> bool {
    contains_seq(low, "innerhtml"@) && !contains_seq(low, "sanitize"@)
}

/// Whether a line assigns a quoted secret.
pub open spec fn secret_risk(low: Seq<char>, line: Seq<char>) -> bool {
    &&& (contains_seq(low, "password"@) || contains_seq(low, "secret"@) || contains_seq(low, "token"@))
    &&& contains_seq(line, "="@)
    &&& (contains_seq(line, "\""@) || contains_seq(line, "'"@))
}

pub open spec fn finding_if(c: bool, k: IssueKind, n: nat) -> Seq<(IssueKind, nat)> {
    if c { seq![(k, n)] } else { Seq::empty() }
}

/// The security findings of line `line`, number `n`.
pub open spec fn line_security(line: Seq<char>, n: nat) -> Seq<(IssueKind, nat)> {
    let low = lower_of(line);
    finding_if(sql_risk(low), IssueKind::SqlInjection, n) + finding_if(xss_risk(low), IssueKind::Xss, n)
        + finding_if(secret_risk(low, line), IssueKind::HardcodedSecret, n)
}

/// The performance findings of line `line`, number `n`.
pub open spec fn line_performance(line: Seq<char>, n: nat) -> Seq<(IssueKind, nat)> {
    let low = lower_of(line);
    finding_if(
        contains_seq(low, "for"@) && (contains_seq(low, "query"@) || contains_seq(low, "find"@)),
        IssueKind::NPlusOneQuery,
        n,
    ) + finding_if(contains_seq(low, "readfile"@) && !contains_seq(low, "stream"@), IssueKind::LargeFileRead, n)
}

/// The style findings of line `line`, number `n`.
pub open spec fn line_style(line: Seq<char>, n: nat) -> Seq<(IssueKind, nat)> {
    let low = lower_of(line);
    finding_if(line.len() > 120, IssueKind::LongLine { chars: line.len() as u64 }, n) + finding_if(
        contains_seq(low, "todo"@) || contains_seq(low, "fixme"@),
        IssueKind::TodoComment,
        n,
    )
}

/// Which per-line check.
#[derive(PartialEq, Eq, Structural, Clone, Copy, Debug)]
pub enum LineCheck {
    Security,
    Performance,
    Style,
}

pub open spec fn line_findings(c: LineCheck, line: Seq<char>, n: nat) -> Seq<(IssueKind, nat)> {
    match c {
        LineCheck::Security => line_security(line, n),
        LineCheck::Performance => line_performance(line, n),
        LineCheck::Style => line_style(line, n),
    }
}

/// The findings of check `c` over `ls`, line by line, lines counted from 1.
pub open spec fn findings(c: LineCheck, ls: Seq<Seq<char>>) -> Seq<(IssueKind, nat)>
    decreases ls.len(),
{
    if ls.len() == 0 {
        Seq::empty()
    } else {
        findings(c, ls.drop_last()) + line_findings(c, ls.last(), ls.len())
    }
}

fn push_report(out: &mut Vec<CodeIssue>, k: IssueKind, file: &str, n: u32, Ghost(f): Ghost<Seq<(IssueKind, nat)>>)
    requires
        reports_all(old(out)@, f, file@),
    ensures
        reports_all(final(out)@, f.push((k, n as nat)), file@),
{
    let ghost o = out@;
    out.push(make_issue(k, file, n));
    assert forall|i: int| 0 <= i < out@.len() implies reports(#[trigger] out@[i], f.push((k, n as nat))[i].0, file@, f.push((k, n as nat))[i].1) by {
        if i < o.len() {
            assert(out@[i] == o[i]);
        }
    }
}

/// The findings of check `c` on one line.
fn check_line(c: LineCheck, line: &str, n: u32, file: &str, out: &mut Vec<CodeIssue>, Ghost(f): Ghost<Seq<(IssueKind, nat)>>)
    requires
        reports_all(old(out)@, f, file@),
    ensures
        reports_all(final(out)@, f + line_findings(c, line@, n as nat), file@),
{
    let low = lowercase(line);
    let l = low.as_str();
    let ghost f0 = f;
    match c {
        LineCheck::Security => {
            let mut g = Ghost(f);
            if contains_str(l, "query") && (contains_str(l, "${") || contains_str(l, "+ ")) {
                push_report(out, IssueKind::SqlInjection, file, n, g);
                g = Ghost(g@.push((IssueKind::SqlInjection, n as nat)));
            }
            assert(g@ =~= f + finding_if(sql_risk(lower_of(line@)), IssueKind::SqlInjection, n as nat));
            let ghost g1 = g@;
            if contains_str(l, "innerhtml") && !contains_str(l, "sanitize") {
                push_report(out, IssueKind::Xss, file, n, g);
                g = Ghost(g@.push((IssueKind::Xss, n as nat)));
            }
            assert(g@ =~= g1 + finding_if(xss_risk(lower_of(line@)), IssueKind::Xss, n as nat));
            let ghost g2 = g@;
            if (contains_str(l, "password") || contains_str(l, "secret") || contains_str(l, "token")) && contains_str(
                line,
                "=",
            ) && (contains_str(line, "\"") || contains_str(line, "'")) {
                push_report(out, IssueKind::HardcodedSecret, file, n, g);
                g = Ghost(g@.push((IssueKind::HardcodedSecret, n as nat)));
            }
            assert(g@ =~= g2 + finding_if(secret_risk(lower_of(line@), line@), IssueKind::HardcodedSecret, n as nat));
            assert(g@ =~= f + line_findings(c, line@, n as nat));
        },
        LineCheck::Performance => {
            let mut g = Ghost(f);
            if contains_str(l, "for") && (contains_str(l, "query") || contains_str(l, "find")) {
                push_report(out, IssueKind::NPlusOneQuery, file, n, g);
                g = Ghost(g@.push((IssueKind::NPlusOneQuery, n as nat)));
            }
            let ghost g1 = g@;
            if contains_str(l, "readfile") && !contains_str(l, "stream") {
                push_report(out, IssueKind::LargeFileRead, file, n, g);
                g = Ghost(g@.push((IssueKind::LargeFileRead, n as nat)));
            }
            assert(g@ =~= f + line_findings(c, line@, n as nat));
        },
        LineCheck::Style => {
            let mut g = Ghost(f);
            let width = chars_of(line).len();
            if width > 120 {
                push_report(out, IssueKind::LongLine { chars: width as u64 }, file, n, g);
                g = Ghost(g@.push((IssueKind::LongLine { chars: width as u64 }, n as nat)));
            }
            if contains_str(l, "todo") || contains_str(l, "fixme") {
                push_report(out, IssueKind::TodoComment, file, n, g);
                g = Ghost(g@.push((IssueKind::TodoComment, n as nat)));
            }
            assert(g@ =~= f + line_findings(c, line@, n as nat));
        },
    }
}

/// Runs check `c` over every line.
pub fn check_lines(c: LineCheck, lines: &Vec<String>, file_path: &str) -> (r: Vec<CodeIssue>)
    requires
        lines@.len() < u32::MAX,
    ensures
        reports_all(r@, findings(c, strs(lines@)), file_path@),
{
    let ghost ls = strs(lines@);
    let mut out: Vec<CodeIssue> = Vec::new();
    let mut i: usize = 0;
    assert(findings(c, ls.subrange(0, 0)) =~= Seq::<(IssueKind, nat)>::empty());
    while i < lines.len()
        invariant
            i <= lines.len(),
            lines@.len() < u32::MAX,
            ls == strs(lines@),
            reports_all(out@, findings(c, ls.subrange(0, i as int)), file_path@),
        decreases lines.len() - i,
    {
        check_line(c, lines[i].as_str(), (i + 1) as u32, file_path, &mut out, Ghost(findings(c, ls.subrange(0, i as int))));
        assert(ls.subrange(0, i + 1).drop_last() =~= ls.subrange(0, i as int));
        assert(ls.subrange(0, i + 1).last() == lines@[i as int]@);
        i = i + 1;
    }
    assert(ls.subrange(0, lines.len() as int) =~= ls);
    out
}

/// Security check: queries built by concatenation, unsanitized `innerHTML`,
/// quoted secrets.
pub fn check_security_issues(lines: &Vec<String>, file_path: &str) -> (r: Vec<CodeIssue>)
    requires
        lines@.len() < u32::MAX,
    ensures
        reports_all(r@, findings(LineCheck::Security, strs(lines@)), file_path@),
{
    check_lines(LineCheck::Security, lines, file_path)
}

/// Performance check: queries in loops, whole-file reads.
pub fn check_performance_issues(lines: &Vec<String>, file_path: &str) -> (r: Vec<CodeIssue>)
    requires
        lines@.len() < u32::MAX,
    ensures
        reports_all(r@, findings(LineCheck::Performance, strs(lines@)), file_path@),
{
    check_lines(LineCheck::Performance, lines, file_path)
}

/// Style check: lines over 120 characters, TODO and FIXME notes.
pub fn check_style_issues(lines: &Vec<String>, file_path: &str) -> (r: Vec<CodeIssue>)
    requires
        lines@.len() < u32::MAX,
    ensures
        reports_all(r@, findings(LineCheck::Style, strs(lines@)), file_path@),
{
    check_lines(LineCheck::Style, lines, file_path)
}

/// Number of `c` in `s`.
pub open spec fn count_of(s: Seq<char>, c: char) -> nat
    decreases s.len(),
{
    if s.len() == 0 {
        0
    } else {
        count_of(s.drop_last(), c) + if s.last() == c { 1nat } else { 0nat }
    }
}

fn count_char(line: &str, c: char) -> (r: usize)
    ensures
        r == count_of(line@, c),
        r <= line@.len(),
{
    let v = chars_of(line);
    let mut k: usize = 0;
    let mut i: usize = 0;
    while i < v.len()
        invariant
            i <= v.len(),
            v@ == line@,
            k == count_of(v@.subrange(0, i as int), c),
            k <= i,
        decreases v.len() - i,
    {
        assert(v@.subrange(0, i + 1).drop_last() =~= v@.subrange(0, i as int));
        if v[i] == c {
            k = k + 1;
        }
        i = i + 1;
    }
    assert(v@.subrange(0, v.len() as int) =~= v@);
    k
}

/// Whether a line starts a function (`function `, `fn ` or `def `).
pub open spec fn opens_function(line: Seq<char>) -> bool {
    contains_seq(line, "function "@) || contains_seq(line, "fn "@) || contains_seq(line, "def "@)
}

/// Where the scan for long functions stands.
pub struct FnScan {
    pub in_function: bool,
    /// Index of the line that opened the function.
    pub start: int,
    /// Open braces minus closed ones since then.
    pub braces: int,
}

/// The scan for long functions over `ls`: a function runs from a line that
/// opens one to the line where its braces balance again; one over 50 lines is
/// reported at its first line.
pub open spec fn fn_scan(ls: Seq<Seq<char>>) -> (FnScan, Seq<(IssueKind, nat)>)
    decreases ls.len(),
{
    if ls.len() == 0 {
        (FnScan { in_function: false, start: 0, braces: 0 }, Seq::empty())
    } else {
        let (st, f) = fn_scan(ls.drop_last());
        let i = ls.len() - 1;
        let line = ls.last();
        let st1 = if opens_function(line) { FnScan { in_function: true, start: i, braces: 0 } } else { st };
        if st1.in_function {
            let b = st1.braces + count_of(line, '{') - count_of(line, '}');
            if b == 0 && i > st1.start {
                let len = i - st1.start + 1;
                (
                    FnScan { in_function: false, start: st1.start, braces: b },
                    if len > 50 { f.push((IssueKind::LongFunction { lines: len as u64 }, (st1.start + 1) as nat)) } else { f },
                )
            } else {
                (FnScan { in_function: true, start: st1.start, braces: b }, f)
            }
        } else {
            (st1, f)
        }
    }
}

/// Maintainability check: functions longer than 50 lines.
pub fn check_maintainability_issues(lines: &Vec<String>, file_path: &str) -> (r: Vec<CodeIssue>)
    requires
        lines@.len() < u32::MAX,
    ensures
        reports_all(r@, fn_scan(strs(lines@)).1, file_path@),
{
    let ghost ls = strs(lines@);
    let mut out: Vec<CodeIssue> = Vec::new();
    let mut in_function = false;
    let mut start: usize = 0;
    let mut braces: i128 = 0;
    let mut i: usize = 0;
    assert(fn_scan(ls.subrange(0, 0)).1 =~= Seq::<(IssueKind, nat)>::empty());
    while i < lines.len()
        invariant
            i <= lines.len(),
            lines@.len() < u32::MAX,
            ls == strs(lines@),
            start <= i,
            -(i as int) * 0x1_0000_0000_0000_0000 <= braces <= (i as int) * 0x1_0000_0000_0000_0000,
            fn_scan(ls.subrange(0, i as int)).0 == (FnScan { in_function, start: start as int, braces: braces as int }),
            reports_all(out@, fn_scan(ls.subrange(0, i as int)).1, file_path@),
        decreases lines.len() - i,
    {
        let ghost pre = ls.subrange(0, i as int);
        assert(ls.subrange(0, i + 1).drop_last() =~= pre);
        assert(ls.subrange(0, i + 1).last() == lines@[i as int]@);
        let line = lines[i].as_str();
        if contains_str(line, "function ") || contains_str(line, "fn ") || contains_str(line, "def ") {
            in_function = true;
            start = i;
            braces = 0;
        }
        if in_function {
            let opened = count_char(line, '{');
            let closed = count_char(line, '}');
            braces = braces + opened as i128 - closed as i128;
            if braces == 0 && i > start {
                let len = i - start + 1;
                if len > 50 {
                    push_report(
                        &mut out,
                        IssueKind::LongFunction { lines: len as u64 },
                        file_path,
                        (start + 1) as u32,
                        Ghost(fn_scan(pre).1),
                    );
                }
                in_function = false;
            }
        }
        i = i + 1;
    }
    assert(ls.subrange(0, lines.len() as int) =~= ls);
    out
}

/// Reads the scope's checks: `all`, or one of `security`, `performance`,
/// `maintainability`, `style`.
pub open spec fn scope_has(scope: Seq<char>, name: Seq<char>) -> bool {
    scope == "all"@ || scope == name
}

/// The findings of a static analysis of `content` within `scope`: security,
/// then performance, maintainability and style, each over all lines.
pub open spec fn analysis_findings(content: Seq<char>, scope: Seq<char>) -> Seq<(IssueKind, nat)> {
    let ls = text_lines(content);
    (if scope_has(scope, "security"@) { findings(LineCheck::Security, ls) } else { Seq::empty() })
        + (if scope_has(scope, "performance"@) { findings(LineCheck::Performance, ls) } else { Seq::empty() })
        + (if scope_has(scope, "maintainability"@) { fn_scan(ls).1 } else { Seq::empty() })
        + (if scope_has(scope, "style"@) { findings(LineCheck::Style, ls) } else { Seq::empty() })
}

fn append_reports(
    out: &mut Vec<CodeIssue>,
    more: Vec<CodeIssue>,
    file: &str,
    Ghost(f): Ghost<Seq<(IssueKind, nat)>>,
    Ghost(g): Ghost<Seq<(IssueKind, nat)>>,
)
    requires
        reports_all(old(out)@, f, file@),
        reports_all(more@, g, file@),
    ensures
        reports_all(final(out)@, f + g, file@),
{
    let mut src = more;
    let ghost all = src@;
    let n = src.len();
    let mut i: usize = 0;
    assert(f + g.subrange(0, 0) =~= f);
    while src.len() > 0
        invariant
            n == all.len(),
            i + src@.len() == n,
            src@ == all.subrange(i as int, n as int),
            reports_all(all, g, file@),
            reports_all(out@, f + g.subrange(0, i as int), file@),
        decreases src.len(),
    {
        let x = src.remove(0);
        assert(x == all[i as int]);
        let ghost o = out@;
        out.push(x);
        let ghost h = f + g.subrange(0, i + 1);
        assert(h =~= (f + g.subrange(0, i as int)).push(g[i as int]));
        assert forall|j: int| 0 <= j < out@.len() implies reports(#[trigger] out@[j], h[j].0, file@, h[j].1) by {
            if j < o.len() {
                assert(out@[j] == o[j]);
            } else {
                assert(reports(all[i as int], g[i as int].0, file@, g[i as int].1));
            }
        }
        assert(src@ =~= all.subrange(i + 1, n as int));
        i = i + 1;
    }
    assert(g.subrange(0, n as int) =~= g);
}

/// Analyses one file's content within `scope` (`all`, `security`,
/// `performance`, `maintainability` or `style`).
pub fn perform_static_analysis(content: &str, file_path: &str, scope: &str) -> (r: Result<Vec<CodeIssue>, String>)
    requires
        content@.len() < u32::MAX,
    ensures
        r matches Ok(v) && reports_all(v@, analysis_findings(content@, scope@), file_path@),
{
    let lines = split_lines(content);
    proof {
        lemma_split_len(content@);
    }
    let all = same_str(scope, "all");
    let ghost ls = strs(lines@);
    let mut out: Vec<CodeIssue> = Vec::new();
    let ghost e = Seq::<(IssueKind, nat)>::empty();
    assert(e + e =~= e);
    let sec = if all || same_str(scope, "security") {
        check_security_issues(&lines, file_path)
    } else {
        Vec::new()
    };
    let ghost fs = if scope_has(scope@, "security"@) { findings(LineCheck::Security, ls) } else { e };
    append_reports(&mut out, sec, file_path, Ghost(e), Ghost(fs));
    assert(e + fs =~= fs);
    let perf = if all || same_str(scope, "performance") {
        check_performance_issues(&lines, file_path)
    } else {
        Vec::new()
    };
    let ghost fp = if scope_has(scope@, "performance"@) { findings(LineCheck::Performance, ls) } else { e };
    append_reports(&mut out, perf, file_path, Ghost(fs), Ghost(fp));
    let maint = if all || same_str(scope, "maintainability") {
        check_maintainability_issues(&lines, file_path)
    } else {
        Vec::new()
    };
    let ghost fm = if scope_has(scope@, "maintainability"@) { fn_scan(ls).1 } else { e };
    append_reports(&mut out, maint, file_path, Ghost(fs + fp), Ghost(fm));
    let style = if all || same_str(scope, "style") {
        check_style_issues(&lines, file_path)
    } else {
        Vec::new()
    };
    let ghost fy = if scope_has(scope@, "style"@) { findings(LineCheck::Style, ls) } else { e };
    append_reports(&mut out, style, file_path, Ghost(fs + fp + fm), Ghost(fy));
    Ok(out)
}

/// Number of issues of `v` with severity `sev`.
pub open spec fn with_severity(v: Seq<CodeIssue>, sev: Seq<char>) -> nat
    decreases v.len(),
{
    if v.len() == 0 { 0 } else { with_severity(v.drop_last(), sev) + if v.last().severity@ == sev { 1nat } else { 0nat } }
}

/// Number of issues of `v` in category `cat`.
pub open spec fn in_category(v: Seq<CodeIssue>, cat: Seq<char>) -> nat
    decreases v.len(),
{
    if v.len() == 0 { 0 } else { in_category(v.drop_last(), cat) + if v.last().category@ == cat { 1nat } else { 0nat } }
}

fn count_severity(v: &Vec<CodeIssue>, sev: &str) -> (r: usize)
    ensures
        r == with_severity(v@, sev@),
{
    let mut k: usize = 0;
    let mut i: usize = 0;
    while i < v.len()
        invariant
            i <= v.len(),
            k <= i,
            k == with_severity(v@.subrange(0, i as int), sev@),
        decreases v.len() - i,
    {
        assert(v@.subrange(0, i + 1).drop_last() =~= v@.subrange(0, i as int));
        if same_str(v[i].severity.as_str(), sev) {
            k = k + 1;
        }
        i = i + 1;
    }
    assert(v@.subrange(0, v.len() as int) =~= v@);
    k
}

fn count_category(v: &Vec<CodeIssue>, cat: &str) -> (r: usize)
    ensures
        r == in_category(v@, cat@),
{
    let mut k: usize = 0;
    let mut i: usize = 0;
    while i < v.len()
        invariant
            i <= v.len(),
            k <= i,
            k == in_category(v@.subrange(0, i as int), cat@),
        decreases v.len() - i,
    {
        assert(v@.subrange(0, i + 1).drop_last() =~= v@.subrange(0, i as int));
        if same_str(v[i].category.as_str(), cat) {
            k = k + 1;
        }
        i = i + 1;
    }
    assert(v@.subrange(0, v.len() as int) =~= v@);
    k
}

/// The advice an analysis ends with.
pub open spec fn recommendations_spec(v: Seq<CodeIssue>) -> Seq<Seq<char>> {
    let crit = with_severity(v, "critical"@);
    let major = with_severity(v, "major"@);
    let r = (if crit > 0 { seq!["🚨 立即修复"@ + decimal(crit) + "个严重安全问题"@] } else { Seq::empty() })
        + (if major > 0 { seq!["⚠️ 优先处理"@ + decimal(major) + "个重要问题"@] } else { Seq::empty() })
        + (if in_category(v, "security"@) > 0 { seq!["🔒 建议进行安全培训和代码安全审查流程"@] } else { Seq::empty() })
        + (if in_category(v, "performance"@) > 0 { seq!["⚡ 建议进行性能测试和优化"@] } else { Seq::empty() });
    if r.len() == 0 { seq!["✅ 代码质量良好，继续保持"@] } else { r }
}

/// Advice from an analysis's issues: the counts of critical and major issues,
/// then training for security issues and testing for performance ones.
pub fn generate_recommendations(issues: &Vec<CodeIssue>, scope: &str) -> (r: Vec<String>)
    ensures
        strs(r@) == recommendations_spec(issues@),
{
    let crit = count_severity(issues, "critical");
    let major = count_severity(issues, "major");
    let mut out: Vec<String> = Vec::new();
    assert(strs(out@) =~= Seq::<Seq<char>>::empty());
    let ghost e = Seq::<Seq<char>>::empty();
    if crit > 0 {
        let mut m = "🚨 立即修复".to_owned();
        m.append(decimal_string(crit as u64).as_str());
        m.append("个严重安全问题");
        out.push(m);
    }
    let ghost o1 = strs(out@);
    if major > 0 {
        let mut m = "⚠️ 优先处理".to_owned();
        m.append(decimal_string(major as u64).as_str());
        m.append("个重要问题");
        out.push(m);
    }
    let ghost o2 = strs(out@);
    if count_category(issues, "security") > 0 {
        out.push("🔒 建议进行安全培训和代码安全审查流程".to_owned());
    }
    let ghost o3 = strs(out@);
    if count_category(issues, "performance") > 0 {
        out.push("⚡ 建议进行性能测试和优化".to_owned());
    }
    let ghost o4 = strs(out@);
    assert(o4 =~= (if crit > 0 { seq!["🚨 立即修复"@ + decimal(crit as nat) + "个严重安全问题"@] } else { e })
        + (if major > 0 { seq!["⚠️ 优先处理"@ + decimal(major as nat) + "个重要问题"@] } else { e })
        + (if in_category(issues@, "security"@) > 0 { seq!["🔒 建议进行安全培训和代码安全审查流程"@] } else { e })
        + (if in_category(issues@, "performance"@) > 0 { seq!["⚡ 建议进行性能测试和优化"@] } else { e }));
    if out.len() == 0 {
        out.push("✅ 代码质量良好，继续保持".to_owned());
        assert(strs(out@) =~= seq!["✅ 代码质量良好，继续保持"@]);
    }
    out
}

} // verus!