use vstd::prelude::*;
use crate::text::{
    chars_of, contains, equals_literal, has_infix, lines_of, lowercase, push_chars,
    push_signed_decimal, push_str, signed_decimal, split_lines, string_from_chars, to_lowercase,
    trim, trimmed,
};

verus! {

/// A file produced by a stem separation run.
#[derive(Debug)]
pub struct StemFile {
    pub name: String,
    pub path: String,
    pub role: String,
    pub file_type: String,
}

/// What the separation worker reports on one line of its output.
#[derive(Debug)]
pub enum SeparationEvent {
    /// Progress, shown to the user as it comes.
    Progress { percent: u32, stage: String },
    /// The run finished, with its files and whether it succeeded.
    Complete { files: Vec<StemFile>, success: bool },
    /// The run failed with a message.
    Error { message: String },
}

/// The outcome of a separation run, built up from the worker's reports.
#[derive(Debug)]
pub struct SeparationResult {
    pub success: bool,
    pub files: Vec<StemFile>,
    pub error: Option<String>,
}

pub open spec fn opt_view(o: Option<String>) -> Option<Seq<char>> {
    match o {
        Some(s) => Some(s@),
        None => None,
    }
}

impl SeparationResult {
    /// Nothing reported yet: not successful, no files, no error.
    pub fn new() -> (r: Self)
        ensures
            !r.success,
            r.files@.len() == 0,
            r.error is None,
    {
        SeparationResult { success: false, files: Vec::new(), error: None }
    }

    /// Takes in one report of the worker: completion adds its files and
    /// sets the success flag, an error sets the message, progress changes
    /// nothing.
    pub fn record(&mut self, event: SeparationEvent)
        ensures
            match event {
                SeparationEvent::Progress { .. } => {
                    &&& final(self).success == old(self).success
                    &&& final(self).files@ == old(self).files@
                    &&& opt_view(final(self).error) == opt_view(old(self).error)
                },
                SeparationEvent::Complete { files, success } => {
                    &&& final(self).success == success
                    &&& final(self).files@ == old(self).files@ + files@
                    &&& opt_view(final(self).error) == opt_view(old(self).error)
                },
                SeparationEvent::Error { message } => {
                    &&& final(self).success == old(self).success
                    &&& final(self).files@ == old(self).files@
                    &&& opt_view(final(self).error) == Some(message@)
                },
            },
    {
        match event {
            SeparationEvent::Progress { .. } => {},
            SeparationEvent::Complete { files, success } => {
                let mut files = files;
                self.files.append(&mut files);
                self.success = success;
            },
            SeparationEvent::Error { message } => {
                self.error = Some(message);
            },
        }
    }
}

/// One entry of the file list of a worker report, as far as it could be
/// read: a field is `None` where the entry lacks it or it is not a string.
#[derive(Debug)]
pub struct ReportFile {
    pub name: Option<String>,
    pub path: Option<String>,
    pub role: Option<String>,
    pub file_type: Option<String>,
}

/// One line of the worker's output read as a JSON object: a field is
/// `None` where the object lacks it or it holds another kind of value.
#[derive(Debug)]
pub struct WorkerReport {
    /// The `type` field.
    pub kind: Option<String>,
    pub percent: Option<u64>,
    pub stage: Option<String>,
    pub files: Option<Vec<ReportFile>>,
    pub success: Option<bool>,
    pub message: Option<String>,
}

/// The text of a field, or `default` where it is missing.
pub open spec fn text_or(o: Option<String>, default: Seq<char>) -> Seq<char> {
    match o {
        Some(s) => s@,
        None => default,
    }
}

/// A stem file seen abstractly: name, path, role and file type.
pub open spec fn stem_view(f: StemFile) -> (Seq<char>, Seq<char>, Seq<char>, Seq<char>) {
    (f.name@, f.path@, f.role@, f.file_type@)
}

/// The stem file a report entry describes: missing texts are empty, and a
/// missing file type is `audio`.
pub open spec fn report_file_view(f: ReportFile) -> (Seq<char>, Seq<char>, Seq<char>, Seq<char>) {
    (text_or(f.name, Seq::empty()), text_or(f.path, Seq::empty()), text_or(f.role, Seq::empty()), text_or(f.file_type, "audio"@))
}

/// The entries of a report's file list; none where it has no list.
pub open spec fn report_files(r: &WorkerReport) -> Seq<ReportFile> {
    match r.files {
        Some(v) => v@,
        None => Seq::empty(),
    }
}

fn text_or_default(o: Option<String>, default: &str) -> (s: String)
    ensures
        s@ == text_or(o, default@),
{
    match o {
        Some(s) => s,
        None => String::from_str(default),
    }
}

fn stem_file_of(f: ReportFile) -> (r: StemFile)
    ensures
        stem_view(r) == report_file_view(f),
{
    proof {
        reveal_strlit("");
    }
    StemFile {
        name: text_or_default(f.name, ""),
        path: text_or_default(f.path, ""),
        role: text_or_default(f.role, ""),
        file_type: text_or_default(f.file_type, "audio"),
    }
}

/// Whether `e` is the report that `r` makes: a line whose `type` is
/// `progress`, `complete` or `error` is a report, with `0`, an empty
/// stage, success and `Unknown error` where fields are missing and a
/// percentage kept modulo 2^32; any other line is no report.
pub open spec fn is_report_event(r: WorkerReport, e: Option<SeparationEvent>) -> bool {
    match r.kind {
        None => e is None,
        Some(k) => if k@ == "progress"@ {
            &&& e matches Some(SeparationEvent::Progress { percent, stage })
            &&& percent == match r.percent { Some(p) => p as u32, None => 0u32 }
            &&& stage@ == text_or(r.stage, Seq::empty())
        } else if k@ == "complete"@ {
            &&& e matches Some(SeparationEvent::Complete { files, success })
            &&& success == match r.success { Some(b) => b, None => true }
            &&& files@.len() == report_files(&r).len()
            &&& forall|i: int| 0 <= i < files@.len() ==> stem_view(#[trigger] files@[i]) == report_file_view(report_files(&r)[i])
        } else if k@ == "error"@ {
            &&& e matches Some(SeparationEvent::Error { message })
            &&& message@ == text_or(r.message, "Unknown error"@)
        } else {
            e is None
        },
    }
}

/// The report a line of the worker's output makes, if any.
pub fn report_event(r: WorkerReport) -> (e: Option<SeparationEvent>)
    ensures
        is_report_event(r, e),
{
    proof {
        reveal_strlit("");
    }
    let ghost listed = report_files(&r);
    let kind = match r.kind {
        Some(k) => chars_of(k.as_str()),
        None => return None,
    };
    if equals_literal(kind.as_slice(), "progress") {
        let percent: u32 = match r.percent {
            Some(p) => p as u32,
            None => 0,
        };
        let e = Some(SeparationEvent::Progress { percent, stage: text_or_default(r.stage, "") });
        assert(text_or(r.stage, Seq::empty()) == e->Some_0->stage@);
        e
    } else if equals_literal(kind.as_slice(), "complete") {
        let mut files: Vec<StemFile> = Vec::new();
        match r.files {
            Some(entries) => {
                let mut entries = entries;
                assert(entries@.skip(0) =~= listed);
                while entries.len() > 0
                    invariant
                        files@.len() + entries@.len() == listed.len(),
                        entries@ == listed.skip(files@.len() as int),
                        forall|i: int| 0 <= i < files@.len() ==> stem_view(#[trigger] files@[i]) == report_file_view(listed[i]),
                    decreases entries@.len(),
                {
                    let ghost n = files@.len();
                    let f = entries.remove(0);
                    proof {
                        assert(listed[n as int] == f);
                        assert(entries@ =~= listed.skip(n as int + 1));
                    }
                    files.push(stem_file_of(f));
                }
            },
            None => {},
        }
        let success = match r.success {
            Some(b) => b,
            None => true,
        };
        Some(SeparationEvent::Complete { files, success })
    } else if equals_literal(kind.as_slice(), "error") {
        Some(SeparationEvent::Error { message: text_or_default(r.message, "Unknown error") })
    } else {
        None
    }
}

#[verifier::external_type_specification]
#[verifier::external_body]
pub struct ExJsonValue(serde_json::Value);

/// The report `serde_json` reads from one line of the worker's output, or
/// `None` where the line is not JSON.
pub uninterp spec fn worker_report_of(line: Seq<char>) -> Option<WorkerReport>;

/// The string at `key` of a JSON object, or `None` where the value is not
/// an object, lacks `key` or holds another kind of value there.  Only the
/// conversions in `read_worker_report` call it.
#[verifier::external_body]
fn json_text(v: &serde_json::Value, key: &str) -> Option<String> {
    v.get(key).and_then(|x| x.as_str()).map(|x| x.to_string())
}

/// A file entry of a report, field by field.  Only `read_worker_report`
/// calls it.
#[verifier::external_body]
fn json_report_file(f: &serde_json::Value) -> ReportFile {
    ReportFile {
        name: json_text(f, "name"),
        path: json_text(f, "path"),
        role: json_text(f, "role"),
        file_type: json_text(f, "fileType"),
    }
}

/// Parses a line with `serde_json::from_str` into a JSON value, which
/// depends on the text alone, and copies out the fields a report has; the
/// contract names the result.
#[verifier::external_body]
fn read_worker_report(line: &str) -> (r: Option<WorkerReport>)
    ensures
        r == worker_report_of(line@),
{
    let v: serde_json::Value = serde_json::from_str(line).ok()?;
    Some(WorkerReport {
        kind: json_text(&v, "type"),
        percent: v.get("percent").and_then(|x| x.as_u64()),
        stage: json_text(&v, "stage"),
        files: v.get("files").and_then(|x| x.as_array()).map(|a| a.iter().map(json_report_file).collect()),
        success: v.get("success").and_then(|x| x.as_bool()),
        message: json_text(&v, "message"),
    })
}

/// The report one line of the worker's output makes, if any: none where
/// the line is not JSON, else the report its fields make.
pub fn separation_event(line: &str) -> (e: Option<SeparationEvent>)
    ensures
        match worker_report_of(line@) {
            Some(r) => is_report_event(r, e),
            None => e is None,
        },
{
    match read_worker_report(line) {
        Some(r) => report_event(r),
        None => None,
    }
}

/// The lines `str::lines` yields: the pieces between line feeds, without
/// the carriage return of a piece that ends in CR LF, and without the
/// empty piece after a final line feed.
pub open spec fn text_lines(s: Seq<char>) -> Seq<Seq<char>> {
    let pieces = split_lines(s);
    let stripped = Seq::new(pieces.len(), |i: int|
        if i < pieces.len() - 1 && pieces[i].len() > 0 && pieces[i].last() == '\r' {
            pieces[i].drop_last()
        } else {
            pieces[i]
        });
    if pieces.last().len() == 0 { stripped.drop_last() } else { stripped }
}

/// Lines joined with line feeds between them.
pub open spec fn joined(lines: Seq<Seq<char>>) -> Seq<char>
    decreases lines.len(),
{
    if lines.len() == 0 {
        Seq::empty()
    } else if lines.len() == 1 {
        lines[0]
    } else {
        joined(lines.drop_last()) + seq!['\n'] + lines.last()
    }
}

/// The line that starts a Python stack trace.
pub open spec fn traceback_marker() -> Seq<char> {
    "Traceback (most recent call last):"@
}

/// Index of the first line holding a stack trace marker.
pub open spec fn first_traceback(lines: Seq<Seq<char>>) -> Option<int>
    decreases lines.len(),
{
    if lines.len() == 0 {
        None
    } else if has_infix(lines[0], traceback_marker()) {
        Some(0)
    } else {
        match first_traceback(lines.drop_first()) {
            Some(i) => Some(i + 1),
            None => None,
        }
    }
}

/// Whether a line of the worker's error output is noise: blank, a log
/// line of level info or warning, a progress bar, a download notice, or a
/// GPU runtime notice.
pub open spec fn is_noise(line: Seq<char>) -> bool {
    let t = trimmed(line);
    let l = lowercase(t);
    has_infix(l, "- info -"@) || has_infix(l, "- warning -"@) || has_infix(t, "%|"@)
        || has_infix(l, "downloading"@) || has_infix(l, "cuda-executionprovider"@)
        || has_infix(l, "failed to load cublas"@) || has_infix(l, "failed to load cufft"@)
        || has_infix(l, "failed to load cudart"@)
        || has_infix(l, "please follow https://onnxruntime.ai"@) || t.len() == 0
}

/// The lines that are not noise, in order.
pub open spec fn meaningful(lines: Seq<Seq<char>>) -> Seq<Seq<char>>
    decreases lines.len(),
{
    if lines.len() == 0 {
        Seq::empty()
    } else if is_noise(lines.last()) {
        meaningful(lines.drop_last())
    } else {
        meaningful(lines.drop_last()).push(lines.last())
    }
}

/// How an exit code prints with `{:?}`.
pub open spec fn exit_code_text(code: Option<i32>) -> Seq<char> {
    match code {
        Some(c) => "Some("@ + signed_decimal(c as int) + ")"@,
        None => "None"@,
    }
}

/// The message for a failed run that reported no error itself: its stack
/// trace when its error output has one, otherwise its meaningful error
/// lines, otherwise its exit code.
pub open spec fn failure_detail(stderr: Seq<char>, code: Option<i32>) -> Seq<char> {
    let lines = text_lines(stderr);
    match first_traceback(lines) {
        Some(i) => trimmed(joined(lines.skip(i))),
        None => {
            let m = meaningful(lines);
            if m.len() > 0 {
                joined(m)
            } else {
                "Separation process exited with code "@ + exit_code_text(code)
            }
        },
    }
}

pub open spec fn views(v: Seq<Vec<char>>) -> Seq<Seq<char>> {
    v.map_values(|x: Vec<char>| x@)
}

/// The lines of `s`, as `str::lines` gives them.
pub fn text_lines_of(s: &str) -> (r: Vec<Vec<char>>)
    ensures
        views(r@) == text_lines(s@),
{
    let c = chars_of(s);
    let pieces = lines_of(c.as_slice());
    let ghost ps = split_lines(s@);
    let n = pieces.len();
    let mut r: Vec<Vec<char>> = Vec::new();
    let mut i: usize = 0;
    while i < n
        invariant
            n == pieces@.len(),
            n == ps.len(),
            ps == split_lines(s@),
            forall|j: int| 0 <= j < n ==> #[trigger] pieces@[j]@ == ps[j],
            i <= n,
            r@.len() == i,
            forall|j: int| 0 <= j < i ==> #[trigger] r@[j]@ == (if j < ps.len() - 1 && ps[j].len() > 0 && ps[j].last() == '\r' {
                ps[j].drop_last()
            } else {
                ps[j]
            }),
        decreases n - i,
    {
        let p = &pieces[i];
        if i + 1 < n && p.len() > 0 && p[p.len() - 1] == '\r' {
            let mut q: Vec<char> = Vec::new();
            let mut k: usize = 0;
            while k < p.len() - 1
                invariant
                    p@.len() > 0,
                    k + 1 <= p@.len(),
                    q@ == p@.take(k as int),
                decreases p@.len() - k,
            {
                q.push(p[k]);
                assert(p@.take(k + 1) =~= p@.take(k as int).push(p@[k as int]));
                k = k + 1;
            }
            assert(q@ =~= p@.drop_last());
            r.push(q);
        } else {
            let mut q: Vec<char> = Vec::new();
            push_chars(&mut q, p.as_slice());
            assert(q@ =~= p@);
            r.push(q);
        }
        i = i + 1;
    }
    let ghost stripped = Seq::new(ps.len(), |i: int|
        if i < ps.len() - 1 && ps[i].len() > 0 && ps[i].last() == '\r' { ps[i].drop_last() } else { ps[i] });
    assert(views(r@) =~= stripped);
    if n > 0 && pieces[n - 1].len() == 0 {
        r.pop();
        assert(views(r@) =~= stripped.drop_last());
    }
    proof {
        if n == 0 {
            lemma_pieces_nonempty(s@);
        }
    }
    r
}

proof fn lemma_pieces_nonempty(s: Seq<char>)
    ensures
        split_lines(s).len() > 0,
    decreases s.len(),
{
    if s.len() > 0 {
        lemma_pieces_nonempty(s.drop_last());
    }
}

/// The lines from `from` on, joined with line feeds.
pub fn join_from(lines: &[Vec<char>], from: usize) -> (r: Vec<char>)
    requires
        from <= lines@.len(),
    ensures
        r@ == joined(views(lines@).skip(from as int)),
{
    let mut r: Vec<char> = Vec::new();
    let mut i: usize = from;
    let ghost all = views(lines@);
    while i < lines.len()
        invariant
            from <= i <= lines@.len(),
            all == views(lines@),
            r@ == joined(all.subrange(from as int, i as int)),
        decreases lines@.len() - i,
    {
        let ghost before = r@;
        if i > from {
            r.push('\n');
        }
        push_chars(&mut r, lines[i].as_slice());
        proof {
            let sub = all.subrange(from as int, i + 1);
            assert(sub.drop_last() =~= all.subrange(from as int, i as int));
            assert(sub.last() == lines@[i as int]@);
            if i > from {
                assert(r@ =~= before + seq!['\n'] + lines@[i as int]@);
            } else {
                assert(sub.len() == 1);
                assert(r@ =~= lines@[i as int]@);
            }
        }
        i = i + 1;
    }
    assert(all.subrange(from as int, lines@.len() as int) =~= all.skip(from as int));
    r
}

fn has_lit(s: &[char], lit: &str) -> (b: bool)
    ensures
        b == has_infix(s@, lit@),
{
    let l = chars_of(lit);
    contains(s, l.as_slice())
}

proof fn lemma_first_traceback(lines: Seq<Seq<char>>, i: int)
    requires
        0 <= i <= lines.len(),
        forall|j: int| 0 <= j < i ==> !has_infix(#[trigger] lines[j], traceback_marker()),
        i < lines.len() ==> has_infix(lines[i], traceback_marker()),
    ensures
        first_traceback(lines) == if i < lines.len() { Some(i) } else { None::<int> },
    decreases lines.len(),
{
    if lines.len() > 0 && i > 0 {
        assert forall|j: int| 0 <= j < i - 1 implies !has_infix(#[trigger] lines.drop_first()[j], traceback_marker()) by {
            assert(lines.drop_first()[j] == lines[j + 1]);
        }
        if i < lines.len() {
            assert(lines.drop_first()[i - 1] == lines[i]);
        }
        lemma_first_traceback(lines.drop_first(), i - 1);
    }
}

/// Whether a line of error output is noise.
pub fn noise(line: &[char]) -> (b: bool)
    ensures
        b == is_noise(line@),
{
    let t = trim(line);
    let low = to_lowercase(string_from_chars(t.as_slice()).as_str());
    let l = chars_of(low.as_str());
    has_lit(l.as_slice(), "- info -") || has_lit(l.as_slice(), "- warning -") || has_lit(t.as_slice(), "%|")
        || has_lit(l.as_slice(), "downloading") || has_lit(l.as_slice(), "cuda-executionprovider")
        || has_lit(l.as_slice(), "failed to load cublas") || has_lit(l.as_slice(), "failed to load cufft")
        || has_lit(l.as_slice(), "failed to load cudart")
        || has_lit(l.as_slice(), "please follow https://onnxruntime.ai") || t.len() == 0
}

/// Writes the message for a failed run that reported no error itself.
pub fn failure_detail_text(stderr: &str, code: Option<i32>) -> (r: String)
    ensures
        r@ == failure_detail(stderr@, code),
{
    let lines = text_lines_of(stderr);
    let ghost ls = views(lines@);
    let mut i: usize = 0;
    while i < lines.len()
        invariant
            ls == views(lines@),
            ls == text_lines(stderr@),
            i <= lines@.len(),
            forall|j: int| 0 <= j < i ==> !has_infix(#[trigger] ls[j], traceback_marker()),
        decreases lines@.len() - i,
    {
        if has_lit(lines[i].as_slice(), "Traceback (most recent call last):") {
            proof {
                lemma_first_traceback(ls, i as int);
            }
            let j = join_from(lines.as_slice(), i);
            let t = trim(j.as_slice());
            return string_from_chars(t.as_slice());
        }
        i = i + 1;
    }
    proof {
        lemma_first_traceback(ls, i as int);
    }
    let mut kept: Vec<Vec<char>> = Vec::new();
    let mut k: usize = 0;
    while k < lines.len()
        invariant
            ls == views(lines@),
            ls == text_lines(stderr@),
            first_traceback(ls) is None,
            k <= lines@.len(),
            views(kept@) == meaningful(ls.take(k as int)),
        decreases lines@.len() - k,
    {
        assert(ls.take(k + 1).drop_last() =~= ls.take(k as int));
        if !noise(lines[k].as_slice()) {
            let mut q: Vec<char> = Vec::new();
            push_chars(&mut q, lines[k].as_slice());
            let ghost before = views(kept@);
            kept.push(q);
            assert(views(kept@) =~= before.push(lines@[k as int]@));
        }
        k = k + 1;
    }
    assert(ls.take(lines@.len() as int) =~= ls);
    if kept.len() > 0 {
        let j = join_from(kept.as_slice(), 0);
        assert(views(kept@).skip(0) =~= views(kept@));
        string_from_chars(j.as_slice())
    } else {
        let mut v: Vec<char> = Vec::new();
        push_str(&mut v, "Separation process exited with code ");
        let ghost head = v@;
        match code {
            Some(c) => {
                push_str(&mut v, "Some(");
                push_signed_decimal(&mut v, c as i64);
                push_str(&mut v, ")");
                assert(v@ =~= head + exit_code_text(code));
            },
            None => {
                push_str(&mut v, "None");
            },
        }
        string_from_chars(v.as_slice())
    }
}

/// The outcome of a finished run: a run whose worker exited with failure
/// and reported no error gets the failure detail as its error; a
/// successful run gives its result, any other its error message.
pub open spec fn run_outcome_error(success: bool, error: Option<Seq<char>>, exit_ok: bool, stderr: Seq<char>, code: Option<i32>) -> Option<Seq<char>> {
    if !exit_ok && error is None { Some(failure_detail(stderr, code)) } else { error }
}

/// Concludes a separation run once the worker has exited.
pub fn finish_separation(result: SeparationResult, exit_ok: bool, stderr: &str, code: Option<i32>) -> (r: Result<SeparationResult, String>)
    ensures
        result.success ==> (r matches Ok(res) && res.success && res.files@ == result.files@
            && opt_view(res.error) == run_outcome_error(result.success, opt_view(result.error), exit_ok, stderr@, code)),
        !result.success ==> (r matches Err(e) && e@ == match run_outcome_error(result.success, opt_view(result.error), exit_ok, stderr@, code) {
            Some(m) => m,
            None => "Separation failed"@,
        }),
{
    let mut result = result;
    if !exit_ok && result.error.is_none() {
        result.error = Some(failure_detail_text(stderr, code));
    }
    if result.success {
        Ok(result)
    } else {
        match result.error {
            Some(e) => Err(e),
            None => Err(String::from_str("Separation failed")),
        }
    }
}

} // verus!
