//! The decisions taken while yt-dlp runs: which lines carry progress, which
//! reach the log, when to stop, and what to say at the end.
use vstd::prelude::*;
use vstd::string::StringExecFns;

use crate::text::{
    contains_char, contains_str, has_substring, is_blank, push_string,
    split_white_space, split_white_space_of, string_of, string_views, strip_trailing,
    strip_trailing_chars, trim, views_of,
};

verus! {

broadcast use vstd::string::group_string_axioms;

// ─── Progress ───────────────────────────────────────────────────────────────

/// The words of `words` that end in `%`, each without its trailing `%` signs,
/// in order.
pub open spec fn percent_words(words: Seq<Seq<char>>) -> Seq<Seq<char>>
    decreases words.len(),
{
    if words.len() == 0 {
        seq![]
    } else {
        let rest = percent_words(words.drop_last());
        let w = words.last();
        if w.len() > 0 && w.last() == '%' {
            rest.push(strip_trailing(w, '%'))
        } else {
            rest
        }
    }
}

/// Whether `line` is a yt-dlp progress line: it mentions `[download]` and a `%`.
pub open spec fn is_progress_line(line: Seq<char>) -> bool {
    has_substring(line, "[download]"@) && line.contains('%')
}

/// The texts that may hold the completed percentage of a progress line such as
/// `[download]  47.0% of 10.52MiB at  1.35MiB/s ETA 00:04`, in the order they
/// appear; none for any other line.
pub open spec fn progress_candidates_of(line: Seq<char>) -> Seq<Seq<char>> {
    if is_progress_line(line) {
        percent_words(split_white_space(line))
    } else {
        seq![]
    }
}

/// The candidate percentages of a yt-dlp output line: for a progress line,
/// every word ending in `%`, stripped of its `%` signs, in order. The first
/// that reads as a number, divided by 100 and clamped to `[0, 1]`, is the
/// progress of the download.
pub fn progress_candidates(line: &str) -> (c: Vec<String>)
    ensures
        string_views(c@) == progress_candidates_of(line@),
{
    let mut c: Vec<String> = Vec::new();
    assert(string_views(c@) =~= seq![]);
    if !(contains_str(line, "[download]") && contains_char(line, '%')) {
        return c;
    }
    let words = split_white_space_of(line);
    let n = words.len();
    for i in 0..n
        invariant
            n == words@.len(),
            views_of(words@) == split_white_space(line@),
            string_views(c@) == percent_words(views_of(words@).take(i as int)),
    {
        let w = &words[i];
        let ghost ws = views_of(words@);
        assert(ws.take(i + 1).drop_last() =~= ws.take(i as int));
        assert(ws.take(i + 1).last() == w@);
        if w.len() > 0 && w[w.len() - 1] == '%' {
            let stripped = strip_trailing_chars(w, '%');
            push_string(&mut c, string_of(&stripped));
        }
    }
    assert(views_of(words@).take(n as int) =~= views_of(words@));
    c
}

// ─── Reading the output of a download ───────────────────────────────────────

/// What to do with a line yt-dlp printed on its standard output.
pub enum LineAction {
    /// The user asked to cancel: stop yt-dlp and read no further.
    Stop,
    /// Keep reading; show the progress found in the line, if any, and the
    /// line itself in the log unless it is blank.
    Show {
        /// The candidate percentages of the line (see `progress_candidates`).
        progress: Vec<String>,
        /// The line to put at the top of the log.
        log: Option<String>,
    },
}

/// A non-blank line, to be shown in the log; nothing for a blank one.
pub fn log_line(line: &str) -> (l: Option<String>)
    ensures
        match l {
            Some(s) => !is_blank(line@) && s@ == line@,
            None => is_blank(line@),
        },
{
    let t = trim(line);
    if t.as_str().is_empty() {
        None
    } else {
        Some(line.to_owned())
    }
}

/// What to do with `line`, read from yt-dlp's standard output while
/// `cancel_requested` tells whether the user asked to cancel.
pub fn download_line_action(cancel_requested: bool, line: &str) -> (act: LineAction)
    ensures
        cancel_requested ==> act is Stop,
        !cancel_requested ==> match act {
            LineAction::Stop => false,
            LineAction::Show { progress, log } => {
                &&& string_views(progress@) == progress_candidates_of(line@)
                &&& match log {
                    Some(s) => !is_blank(line@) && s@ == line@,
                    None => is_blank(line@),
                }
            },
        },
{
    if cancel_requested {
        LineAction::Stop
    } else {
        LineAction::Show { progress: progress_candidates(line), log: log_line(line) }
    }
}

/// How a download ended, as shown in the window.
pub struct DownloadEnd {
    /// Whether the progress bar is shown full (it is reset to empty otherwise).
    pub progress_full: bool,
    /// The message put at the top of the log.
    pub message: String,
}

/// How a download ended, given whether it was cancelled.
pub fn download_end(cancelled: bool) -> (e: DownloadEnd)
    ensures
        e.progress_full == !cancelled,
        e.message@ == (if cancelled {
            "⛔ Download cancelado pelo usuário."@
        } else {
            "✅ Download concluído com sucesso!"@
        }),
{
    if cancelled {
        DownloadEnd { progress_full: false, message: "⛔ Download cancelado pelo usuário.".to_owned() }
    } else {
        DownloadEnd { progress_full: true, message: "✅ Download concluído com sucesso!".to_owned() }
    }
}

/// The first message of the log when a download starts.
pub fn download_start_message(url: &str) -> (m: String)
    ensures
        m@ == "🚀 Iniciando: "@ + url@ + "\n"@,
{
    let mut m = "🚀 Iniciando: ".to_owned();
    m.append(url);
    m.append("\n");
    m
}

/// The message shown when yt-dlp could not be started, given the error's text.
pub fn launch_error_message(error: &str) -> (m: String)
    ensures
        m@ == "❌ Erro ao iniciar yt-dlp: "@ + error@,
{
    let mut m = "❌ Erro ao iniciar yt-dlp: ".to_owned();
    m.append(error);
    m
}

// ─── Listing the formats of a video ─────────────────────────────────────────

/// The yt-dlp arguments that list the formats of `url`.
pub fn fetch_formats_args(url: &str) -> (a: Vec<String>)
    ensures
        string_views(a@) == seq!["-F"@, "--no-playlist"@, "--no-colors"@, url@],
{
    let mut a: Vec<String> = Vec::new();
    let ghost empty = string_views(a@);
    push_string(&mut a, "-F".to_owned());
    push_string(&mut a, "--no-playlist".to_owned());
    push_string(&mut a, "--no-colors".to_owned());
    push_string(&mut a, url.to_owned());
    assert(string_views(a@) =~= empty.push("-F"@).push("--no-playlist"@).push("--no-colors"@).push(url@));
    assert(empty =~= seq![]);
    assert(string_views(a@) =~= seq!["-F"@, "--no-playlist"@, "--no-colors"@, url@]);
    a
}

/// Where line `i` starts among the lines of `lines`, each followed by a line
/// break: the lengths of the lines before it, one more each.
pub open spec fn line_offset(lines: Seq<Seq<char>>, i: int) -> int
    decreases i,
{
    if i <= 0 {
        0
    } else {
        line_offset(lines, i - 1) + lines[i - 1].len() + 1
    }
}

proof fn lemma_line_offset_prefix(lines: Seq<Seq<char>>, k: int, i: int)
    requires
        0 <= i <= k <= lines.len(),
    ensures
        line_offset(lines.take(k), i) == line_offset(lines, i),
    decreases i,
{
    if i > 0 {
        lemma_line_offset_prefix(lines, k, i - 1);
        assert(lines.take(k)[i - 1] == lines[i - 1]);
    }
}

proof fn lemma_joined_lines_len(lines: Seq<Seq<char>>)
    ensures
        joined_lines(lines).len() == line_offset(lines, lines.len() as int),
    decreases lines.len(),
{
    reveal_strlit("\n");
    if lines.len() > 0 {
        let n = lines.len() as int;
        let p = lines.drop_last();
        lemma_joined_lines_len(p);
        assert(p =~= lines.take(n - 1));
        lemma_line_offset_prefix(lines, n - 1, n - 1);
    }
}

proof fn lemma_joined_line_at(lines: Seq<Seq<char>>, i: int)
    requires
        0 <= i < lines.len(),
    ensures
        joined_lines(lines).subrange(line_offset(lines, i), line_offset(lines, i) + lines[i].len())
            == lines[i],
        joined_lines(lines)[line_offset(lines, i) + lines[i].len()] == '\n',
    decreases lines.len(),
{
    reveal_strlit("\n");
    let n = lines.len() as int;
    let p = lines.drop_last();
    let j = joined_lines(lines);
    let jp = joined_lines(p);
    assert(p =~= lines.take(n - 1));
    lemma_joined_lines_len(p);
    lemma_line_offset_prefix(lines, n - 1, n - 1);
    assert(j == jp + lines.last() + "\n"@);
    if i == n - 1 {
        assert(j.subrange(line_offset(lines, i), line_offset(lines, i) + lines[i].len())
            =~= lines.last());
    } else {
        lemma_joined_line_at(p, i);
        lemma_line_offset_prefix(lines, n - 1, i);
        lemma_line_offset_grows(lines, i + 1, n - 1);
        lemma_line_offset_grows(lines, 0, i);
        assert(p[i] == lines[i]);
        let a = line_offset(lines, i);
        let b = a + lines[i].len();
        assert(b < jp.len());
        assert(j.subrange(a, b) =~= jp.subrange(a, b));
        assert(j[b] == jp[b]);
    }
}

proof fn lemma_line_offset_grows(lines: Seq<Seq<char>>, i: int, k: int)
    requires
        0 <= i <= k <= lines.len(),
    ensures
        line_offset(lines, i) <= line_offset(lines, k),
    decreases k - i,
{
    if i < k {
        lemma_line_offset_grows(lines, i, k - 1);
    }
}

/// The formats report holds every line yt-dlp printed, in order: after the
/// heading, line `i` starts right after lines `0..i` and their line breaks,
/// is followed by a line break, and nothing else is added.
pub proof fn law_report_holds_every_line(lines: Seq<Seq<char>>)
    ensures
        ({
            let heading = "=== Formatos disponíveis ===\n\n"@;
            let r = formats_report_of(lines);
            &&& r.take(heading.len() as int) == heading
            &&& r.len() == heading.len() + line_offset(lines, lines.len() as int)
            &&& forall|i: int|
                #![trigger line_offset(lines, i)]
                0 <= i < lines.len() ==> {
                    let at = heading.len() + line_offset(lines, i);
                    &&& r.subrange(at, at + lines[i].len()) == lines[i]
                    &&& r[at + lines[i].len()] == '\n'
                }
        }),
{
    let heading = "=== Formatos disponíveis ===\n\n"@;
    let r = formats_report_of(lines);
    let j = joined_lines(lines);
    lemma_joined_lines_len(lines);
    assert(r.take(heading.len() as int) =~= heading);
    assert forall|i: int|
        #![trigger line_offset(lines, i)]
        0 <= i < lines.len() implies {
        let at = heading.len() + line_offset(lines, i);
        &&& r.subrange(at, at + lines[i].len()) == lines[i]
        &&& r[at + lines[i].len()] == '\n'
    } by {
        let at = heading.len() + line_offset(lines, i);
        lemma_joined_line_at(lines, i);
        lemma_line_offset_grows(lines, 0, i);
        lemma_line_offset_grows(lines, i + 1, lines.len() as int);
        assert(r.subrange(at, at + lines[i].len()) =~= j.subrange(
            line_offset(lines, i),
            line_offset(lines, i) + lines[i].len(),
        ));
    }
}

/// The lines of `lines`, each followed by a line break.
pub open spec fn joined_lines(lines: Seq<Seq<char>>) -> Seq<char>
    decreases lines.len(),
{
    if lines.len() == 0 {
        seq![]
    } else {
        joined_lines(lines.drop_last()) + lines.last() + "\n"@
    }
}

/// The text of the log after listing the formats: a heading, then every line
/// yt-dlp printed.
pub open spec fn formats_report_of(lines: Seq<Seq<char>>) -> Seq<char> {
    "=== Formatos disponíveis ===\n\n"@ + joined_lines(lines)
}

/// The log text that shows the formats listed by yt-dlp, one per line.
pub fn formats_report(lines: &Vec<String>) -> (r: String)
    ensures
        r@ == formats_report_of(string_views(lines@)),
{
    let mut r = "=== Formatos disponíveis ===\n\n".to_owned();
    let n = lines.len();
    for i in 0..n
        invariant
            n == lines@.len(),
            r@ == "=== Formatos disponíveis ===\n\n"@ + joined_lines(string_views(lines@).take(i as int)),
    {
        let ghost before = r@;
        r.append(lines[i].as_str());
        r.append("\n");
        let ghost ls = string_views(lines@);
        assert(ls.take(i + 1).drop_last() =~= ls.take(i as int));
        assert(ls.take(i + 1).last() == lines@[i as int]@);
        assert(r@ =~= before + lines@[i as int]@ + "\n"@);
    }
    assert(string_views(lines@).take(n as int) =~= string_views(lines@));
    r
}

} // verus!
