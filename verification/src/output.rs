//! How records are rendered as text for a terminal, with or without colour.

use vstd::prelude::*;
use vstd::string::StringExecFns;
use vstd::utf8::{decode_utf8, encode_utf8, valid_utf8};
use std::io::Write;
use termcolor::{Buffer, ColorSpec, WriteColor};
use crate::config::{ArtifactSpec, SourceConfig, SourceSpec};
use crate::fetch::{GetArtifactAnswer, Outcome};
use crate::text::{lemma_encode_utf8_concat, pad_right, padded, str_eq};

verus! {

/// Describes how output should be formatted.
#[derive(Debug, Clone, Copy, PartialEq, Eq, Structural)]
pub struct OutputOptions {
    /// Whether to use coloured output.
    pub color: bool,
    /// Whether to provide a shortened output.
    pub short: bool,
}

/// The colours in use.
#[derive(Debug, Clone, Copy, PartialEq, Eq, Structural)]
pub enum Color {
    Green,
    Yellow,
    Red,
    Magenta,
}

/// The colour of commit hashes.
pub open spec fn commit_hash_color() -> Color {
    Color::Yellow
}

/// The colour of source ids.
pub open spec fn source_id_color() -> Color {
    Color::Magenta
}

/// The colour of artifact ids.
pub open spec fn artifact_id_color() -> Color {
    Color::Green
}

/// The colour of branch names.
pub open spec fn branch_color() -> Color {
    commit_hash_color()
}

/// `termcolor::Buffer`, taken as a whole: of a buffer only its bytes and
/// whether it holds colour are spoken of.
#[verifier::external_type_specification]
#[verifier::external_body]
pub struct ExBuffer(Buffer);

/// The bytes that were written to a buffer, in order.
pub uninterp spec fn buffer_bytes(buf: Buffer) -> Seq<u8>;

/// Whether a buffer was made to hold colour, as ANSI escape sequences,
/// rather than to drop it.
pub uninterp spec fn buffer_colored(buf: Buffer) -> bool;

/// The escape sequence that ends all colouring.
pub open spec fn reset_code() -> Seq<char> {
    "\x1B[0m"@
}

/// The escape sequence that sets the foreground to `color`.
pub open spec fn fg_code(color: Color) -> Seq<char> {
    match color {
        Color::Red => "\x1B[31m"@,
        Color::Green => "\x1B[32m"@,
        Color::Yellow => "\x1B[33m"@,
        Color::Magenta => "\x1B[35m"@,
    }
}

/// What switching to `color` writes: on a coloured buffer a reset and the
/// code of the colour, else nothing.
pub open spec fn paint(colored: bool, color: Color) -> Seq<char> {
    if colored {
        reset_code() + fg_code(color)
    } else {
        Seq::empty()
    }
}

/// What switching colour off writes: on a coloured buffer a reset, else
/// nothing.
pub open spec fn unpaint(colored: bool) -> Seq<char> {
    if colored {
        reset_code()
    } else {
        Seq::empty()
    }
}

/// `Buffer::ansi`: an empty buffer that holds colour as ANSI escape
/// sequences.
#[verifier::external_body]
fn buffer_ansi() -> (buf: Buffer)
    ensures
        buffer_bytes(buf) == Seq::<u8>::empty(),
        buffer_colored(buf),
{
    Buffer::ansi()
}

/// `Buffer::no_color`: an empty buffer that drops all colour.
#[verifier::external_body]
fn buffer_no_color() -> (buf: Buffer)
    ensures
        buffer_bytes(buf) == Seq::<u8>::empty(),
        !buffer_colored(buf),
{
    Buffer::no_color()
}

/// `WriteColor::set_color` with a fresh `ColorSpec` whose foreground is
/// `color`: a coloured buffer gets a reset and then the code of the colour,
/// another buffer stays as it is. Writing to the buffer, which holds its
/// bytes in memory, does not fail.
#[verifier::external_body]
fn buffer_set_fg(buf: &mut Buffer, color: Color)
    ensures
        buffer_colored(*final(buf)) == buffer_colored(*old(buf)),
        buffer_bytes(*final(buf)) == buffer_bytes(*old(buf)) + encode_utf8(
            paint(buffer_colored(*old(buf)), color),
        ),
{
    let fg = match color {
        Color::Green => termcolor::Color::Green,
        Color::Yellow => termcolor::Color::Yellow,
        Color::Red => termcolor::Color::Red,
        Color::Magenta => termcolor::Color::Magenta,
    };
    let _ = buf.set_color(ColorSpec::new().set_fg(Some(fg)));
}

/// `WriteColor::reset`: a coloured buffer gets a reset, another buffer stays
/// as it is. Writing to the buffer does not fail.
#[verifier::external_body]
fn buffer_reset(buf: &mut Buffer)
    ensures
        buffer_colored(*final(buf)) == buffer_colored(*old(buf)),
        buffer_bytes(*final(buf)) == buffer_bytes(*old(buf)) + encode_utf8(
            unpaint(buffer_colored(*old(buf))),
        ),
{
    let _ = buf.reset();
}

/// `Write::write_all` with the bytes of `text`: they are added at the end.
/// Writing to the buffer does not fail.
#[verifier::external_body]
fn buffer_write(buf: &mut Buffer, text: &str)
    ensures
        buffer_colored(*final(buf)) == buffer_colored(*old(buf)),
        buffer_bytes(*final(buf)) == buffer_bytes(*old(buf)) + encode_utf8(text@),
{
    let _ = buf.write_all(text.as_bytes());
}

/// `Buffer::into_inner`: the bytes that were written.
#[verifier::external_body]
fn buffer_into_inner(buf: Buffer) -> (bytes: Vec<u8>)
    ensures
        bytes@ == buffer_bytes(buf),
{
    buf.into_inner()
}

/// `String::from_utf8`: the text that `bytes` encode, where they are valid
/// UTF-8, else nothing.
#[verifier::external_body]
fn string_from_utf8(bytes: Vec<u8>) -> (r: Option<String>)
    ensures
        match r {
            Some(text) => valid_utf8(bytes@) && text@ == decode_utf8(bytes@),
            None => !valid_utf8(bytes@),
        },
{
    String::from_utf8(bytes).ok()
}

/// An empty buffer, coloured or not as `options` ask.
pub fn create_buf(options: &OutputOptions) -> (buf: Buffer)
    ensures
        buffer_bytes(buf) == Seq::<u8>::empty(),
        buffer_colored(buf) == options.color,
{
    if options.color {
        buffer_ansi()
    } else {
        buffer_no_color()
    }
}

/// The text that was written to `buf`, where its bytes are valid UTF-8.
pub fn buf_to_str(buf: Buffer) -> (r: Option<String>)
    ensures
        match r {
            Some(text) => valid_utf8(buffer_bytes(buf)) && text@ == decode_utf8(buffer_bytes(buf)),
            None => !valid_utf8(buffer_bytes(buf)),
        },
{
    string_from_utf8(buffer_into_inner(buf))
}

/// A buffer together with the text that was written to it.
pub struct Pen {
    buf: Buffer,
    text: Ghost<Seq<char>>,
}

impl Pen {
    /// The text written so far.
    pub closed spec fn text(&self) -> Seq<char> {
        self.text@
    }

    /// Whether colour is written.
    pub closed spec fn colored(&self) -> bool {
        buffer_colored(self.buf)
    }

    /// The buffer holds the text, encoded.
    pub closed spec fn wf(&self) -> bool {
        buffer_bytes(self.buf) == encode_utf8(self.text@)
    }

    /// A pen that has written nothing.
    pub fn new(options: &OutputOptions) -> (pen: Pen)
        ensures
            pen.wf(),
            pen.text() == Seq::<char>::empty(),
            pen.colored() == options.color,
    {
        let pen = Pen { buf: create_buf(options), text: Ghost(Seq::empty()) };
        assert(encode_utf8(Seq::<char>::empty()) =~= Seq::<u8>::empty());
        pen
    }

    /// Writes `text`.
    pub fn put(&mut self, text: &str)
        requires
            old(self).wf(),
        ensures
            final(self).wf(),
            final(self).colored() == old(self).colored(),
            final(self).text() == old(self).text() + text@,
    {
        proof {
            lemma_encode_utf8_concat(self.text@, text@);
        }
        buffer_write(&mut self.buf, text);
        self.text = Ghost(self.text@ + text@);
    }

    /// Switches to `color`.
    pub fn paint(&mut self, color: Color)
        requires
            old(self).wf(),
        ensures
            final(self).wf(),
            final(self).colored() == old(self).colored(),
            final(self).text() == old(self).text() + paint(old(self).colored(), color),
    {
        proof {
            lemma_encode_utf8_concat(self.text@, paint(self.colored(), color));
        }
        buffer_set_fg(&mut self.buf, color);
        self.text = Ghost(self.text@ + paint(self.colored(), color));
    }

    /// Switches colour off.
    pub fn unpaint(&mut self)
        requires
            old(self).wf(),
        ensures
            final(self).wf(),
            final(self).colored() == old(self).colored(),
            final(self).text() == old(self).text() + unpaint(old(self).colored()),
    {
        proof {
            lemma_encode_utf8_concat(self.text@, unpaint(self.colored()));
        }
        buffer_reset(&mut self.buf);
        self.text = Ghost(self.text@ + unpaint(self.colored()));
    }

    /// The text that was written.
    pub fn finish(self) -> (r: String)
        requires
            self.wf(),
        ensures
            r@ == self.text(),
    {
        proof {
            vstd::utf8::encode_utf8_valid_utf8(self.text@);
            vstd::utf8::encode_utf8_decode_utf8(self.text@);
        }
        match buf_to_str(self.buf) {
            Some(text) => text,
            None => vstd::pervasive::unreached(),
        }
    }
}

/// An error message as it is shown: `message` in red.
pub open spec fn error_text(message: Seq<char>) -> Seq<char> {
    paint(true, Color::Red) + message + unpaint(true)
}

/// The text that shows `message` as an error, in red.
pub fn create_error_string(message: &str) -> (r: String)
    ensures
        r@ == error_text(message@),
{
    let mut pen = Pen::new(&OutputOptions { color: true, short: false });
    pen.paint(Color::Red);
    pen.put(message);
    pen.unpaint();
    assert(pen.text() =~= error_text(message@));
    pen.finish()
}

/// Something that can be formatted for the terminal, given certain options.
pub trait FormatOutput<T> {
    fn format_output(self, options: &OutputOptions) -> T;
}

/// How much a line matters.
#[derive(Debug, Clone, Copy, PartialEq, Eq, Structural)]
pub enum Level {
    Error,
    Warn,
    Info,
}

/// A line to show, with how much it matters.
#[derive(Debug)]
pub struct LogLine {
    pub level: Level,
    pub text: String,
}

/// A job of the history, ready to be rendered.
#[derive(Debug)]
pub struct JobHistoryOutput {
    pub id: String,
    pub job_ref: String,
    pub timestamp: String,
    pub status: String,
    pub has_artifacts: bool,
    pub web_url: String,
    pub commit_short_id: String,
    pub commit_title: String,
    pub commit_author: String,
    pub options: OutputOptions,
}

/// What a `JobHistoryOutput` holds, as plain values.
pub struct JobLine {
    pub id: Seq<char>,
    pub job_ref: Seq<char>,
    pub timestamp: Seq<char>,
    pub status: Seq<char>,
    pub has_artifacts: bool,
    pub web_url: Seq<char>,
    pub commit_short_id: Seq<char>,
    pub commit_title: Seq<char>,
    pub commit_author: Seq<char>,
    pub options: OutputOptions,
}

impl View for JobHistoryOutput {
    type V = JobLine;

    open spec fn view(&self) -> JobLine {
        JobLine {
            id: self.id@,
            job_ref: self.job_ref@,
            timestamp: self.timestamp@,
            status: self.status@,
            has_artifacts: self.has_artifacts,
            web_url: self.web_url@,
            commit_short_id: self.commit_short_id@,
            commit_title: self.commit_title@,
            commit_author: self.commit_author@,
            options: self.options,
        }
    }
}

/// The colour for a job's status: green for a success that left its
/// archive, red for a failure that left none, yellow for the rest.
pub open spec fn status_color(status: Seq<char>, has_artifacts: bool) -> Color {
    if status == "success"@ && has_artifacts {
        Color::Green
    } else if status == "failed"@ && !has_artifacts {
        Color::Red
    } else {
        Color::Yellow
    }
}

/// What is added to the status of a job that left no archive.
pub open spec fn artifacts_note(has_artifacts: bool) -> Seq<char> {
    if has_artifacts {
        Seq::empty()
    } else {
        " (no artifacts)"@
    }
}

/// The start of a job on one line: id, time, and the commit in brackets.
pub open spec fn job_short_commit(job: JobLine, colored: bool) -> Seq<char> {
    job.id + " - "@ + job.timestamp + " - "@ + "("@ + paint(colored, commit_hash_color())
        + job.commit_short_id + unpaint(colored) + ") "@
}

/// The end of a job on one line: its status, in the status's colour.
pub open spec fn job_short_status(job: JobLine, colored: bool) -> Seq<char> {
    paint(colored, status_color(job.status, job.has_artifacts)) + job.status + artifacts_note(
        job.has_artifacts,
    ) + unpaint(colored)
}

/// A job on one line: id, time, commit and status.
pub open spec fn job_short_text(job: JobLine, colored: bool) -> Seq<char> {
    job_short_commit(job, colored) + job_short_status(job, colored)
}

/// The first line of a job in full: the commit with its ref and title.
pub open spec fn job_commit_line(job: JobLine, colored: bool) -> Seq<char> {
    paint(colored, commit_hash_color()) + job.commit_short_id + unpaint(colored) + " ("@ + paint(
        colored,
        commit_hash_color(),
    ) + job.job_ref + unpaint(colored) + ")"@ + " - "@ + job.commit_title + "\n"@
}

/// The lines of a job in full that give its build id and its time.
pub open spec fn job_build_lines(job: JobLine) -> Seq<char> {
    "\tBuild id: "@ + job.id + "\n"@ + "\tTimestamp: "@ + job.timestamp + "\n"@
}

/// The line of a job in full that gives its status.
pub open spec fn job_status_line(job: JobLine, colored: bool) -> Seq<char> {
    paint(colored, status_color(job.status, job.has_artifacts)) + "\tStatus: "@ + job.status
        + artifacts_note(job.has_artifacts) + "\n"@ + unpaint(colored)
}

/// The lines of a job in full that give its URL and the commit's author.
pub open spec fn job_origin_lines(job: JobLine) -> Seq<char> {
    "\tURL: "@ + job.web_url + "\n"@ + "\tAuthor: "@ + job.commit_author + "\n"@
}

/// A job in full: the commit with its ref and title, then build id, time,
/// status, URL and author, one to a line.
pub open spec fn job_long_text(job: JobLine, colored: bool) -> Seq<char> {
    job_commit_line(job, colored) + job_build_lines(job) + job_status_line(job, colored)
        + job_origin_lines(job)
}

/// A job as its options ask: on one line, or in full.
pub open spec fn job_text(job: JobLine) -> Seq<char> {
    if job.options.short {
        job_short_text(job, job.options.color)
    } else {
        job_long_text(job, job.options.color)
    }
}

impl JobHistoryOutput {
    fn get_status_color(&self) -> (c: Color)
        ensures
            c == status_color(self.status@, self.has_artifacts),
    {
        if str_eq(self.status.as_str(), "success") && self.has_artifacts {
            Color::Green
        } else if str_eq(self.status.as_str(), "failed") && !self.has_artifacts {
            Color::Red
        } else {
            Color::Yellow
        }
    }

    fn artifacts_note(&self) -> (r: &'static str)
        ensures
            r@ == artifacts_note(self.has_artifacts),
    {
        if self.has_artifacts {
            proof {
                reveal_strlit("");
            }
            assert(""@ =~= Seq::<char>::empty());
            ""
        } else {
            " (no artifacts)"
        }
    }

    fn fmt_short_commit(&self, pen: &mut Pen)
        requires
            old(pen).wf(),
        ensures
            final(pen).wf(),
            final(pen).colored() == old(pen).colored(),
            final(pen).text() == old(pen).text() + job_short_commit(self@, old(pen).colored()),
    {
        pen.put(self.id.as_str());
        pen.put(" - ");
        pen.put(self.timestamp.as_str());
        pen.put(" - ");
        pen.put("(");
        pen.paint(Color::Yellow);
        pen.put(self.commit_short_id.as_str());
        pen.unpaint();
        pen.put(") ");
        assert(pen.text() =~= old(pen).text() + job_short_commit(self@, old(pen).colored()));
    }

    fn fmt_short_status(&self, pen: &mut Pen)
        requires
            old(pen).wf(),
        ensures
            final(pen).wf(),
            final(pen).colored() == old(pen).colored(),
            final(pen).text() == old(pen).text() + job_short_status(self@, old(pen).colored()),
    {
        pen.paint(self.get_status_color());
        pen.put(self.status.as_str());
        pen.put(self.artifacts_note());
        pen.unpaint();
        assert(pen.text() =~= old(pen).text() + job_short_status(self@, old(pen).colored()));
    }

    fn fmt_short(&self, pen: &mut Pen)
        requires
            old(pen).wf(),
        ensures
            final(pen).wf(),
            final(pen).colored() == old(pen).colored(),
            final(pen).text() == old(pen).text() + job_short_text(self@, old(pen).colored()),
    {
        self.fmt_short_commit(pen);
        self.fmt_short_status(pen);
        assert(pen.text() =~= old(pen).text() + job_short_text(self@, old(pen).colored()));
    }

    fn fmt_commit_line(&self, pen: &mut Pen)
        requires
            old(pen).wf(),
        ensures
            final(pen).wf(),
            final(pen).colored() == old(pen).colored(),
            final(pen).text() == old(pen).text() + job_commit_line(self@, old(pen).colored()),
    {
        pen.paint(Color::Yellow);
        pen.put(self.commit_short_id.as_str());
        pen.unpaint();
        pen.put(" (");
        pen.paint(Color::Yellow);
        pen.put(self.job_ref.as_str());
        pen.unpaint();
        pen.put(")");
        pen.put(" - ");
        pen.put(self.commit_title.as_str());
        pen.put("\n");
        assert(pen.text() =~= old(pen).text() + job_commit_line(self@, old(pen).colored()));
    }

    fn fmt_build_lines(&self, pen: &mut Pen)
        requires
            old(pen).wf(),
        ensures
            final(pen).wf(),
            final(pen).colored() == old(pen).colored(),
            final(pen).text() == old(pen).text() + job_build_lines(self@),
    {
        pen.put("\tBuild id: ");
        pen.put(self.id.as_str());
        pen.put("\n");
        pen.put("\tTimestamp: ");
        pen.put(self.timestamp.as_str());
        pen.put("\n");
        assert(pen.text() =~= old(pen).text() + job_build_lines(self@));
    }

    fn fmt_status_line(&self, pen: &mut Pen)
        requires
            old(pen).wf(),
        ensures
            final(pen).wf(),
            final(pen).colored() == old(pen).colored(),
            final(pen).text() == old(pen).text() + job_status_line(self@, old(pen).colored()),
    {
        pen.paint(self.get_status_color());
        pen.put("\tStatus: ");
        pen.put(self.status.as_str());
        pen.put(self.artifacts_note());
        pen.put("\n");
        pen.unpaint();
        assert(pen.text() =~= old(pen).text() + job_status_line(self@, old(pen).colored()));
    }

    fn fmt_origin_lines(&self, pen: &mut Pen)
        requires
            old(pen).wf(),
        ensures
            final(pen).wf(),
            final(pen).colored() == old(pen).colored(),
            final(pen).text() == old(pen).text() + job_origin_lines(self@),
    {
        pen.put("\tURL: ");
        pen.put(self.web_url.as_str());
        pen.put("\n");
        pen.put("\tAuthor: ");
        pen.put(self.commit_author.as_str());
        pen.put("\n");
        assert(pen.text() =~= old(pen).text() + job_origin_lines(self@));
    }

    fn fmt_long(&self, pen: &mut Pen)
        requires
            old(pen).wf(),
        ensures
            final(pen).wf(),
            final(pen).colored() == old(pen).colored(),
            final(pen).text() == old(pen).text() + job_long_text(self@, old(pen).colored()),
    {
        self.fmt_commit_line(pen);
        self.fmt_build_lines(pen);
        self.fmt_status_line(pen);
        self.fmt_origin_lines(pen);
        assert(pen.text() =~= old(pen).text() + job_long_text(self@, old(pen).colored()));
    }

    /// The job as text: on one line or in full, coloured or not, as its
    /// options ask.
    pub fn render(&self) -> (r: String)
        ensures
            r@ == job_text(self@),
    {
        let mut pen = Pen::new(&self.options);
        if self.options.short {
            self.fmt_short(&mut pen);
        } else {
            self.fmt_long(&mut pen);
        }
        assert(pen.text() =~= job_text(self@));
        pen.finish()
    }
}

/// The artifacts of a source, ready to be rendered.
pub struct ArtifactListOutput<'a> {
    pub source: &'a SourceConfig,
    pub options: OutputOptions,
}

impl<'a> FormatOutput<ArtifactListOutput<'a>> for &'a SourceConfig {
    fn format_output(self, options: &OutputOptions) -> (r: ArtifactListOutput<'a>)
        ensures
            r.source == self,
            r.options == *options,
    {
        ArtifactListOutput { source: self, options: *options }
    }
}

/// One artifact of a list: its id and, in brackets, its branch.
pub open spec fn artifact_row(artifact: ArtifactSpec, colored: bool) -> Seq<char> {
    "- "@ + paint(colored, artifact_id_color()) + artifact.id + unpaint(colored) + " ("@ + paint(
        colored,
        branch_color(),
    ) + artifact.branch + unpaint(colored) + ")\n"@
}

/// The rows for `artifacts`, in order.
pub open spec fn artifact_rows(artifacts: Seq<ArtifactSpec>, colored: bool) -> Seq<char>
    decreases artifacts.len(),
{
    if artifacts.len() == 0 {
        Seq::empty()
    } else {
        artifact_rows(artifacts.drop_last(), colored) + artifact_row(artifacts.last(), colored)
    }
}

/// The list of a source's artifacts: a heading with the source's id, then a
/// row for each artifact.
pub open spec fn artifact_list_text(source: SourceSpec, colored: bool) -> Seq<char> {
    "== Artifacts from "@ + paint(colored, source_id_color()) + source.id + unpaint(colored)
        + " ==\n"@ + artifact_rows(source.artifacts, colored)
}

impl<'a> ArtifactListOutput<'a> {
    fn fmt_default(&self, pen: &mut Pen)
        requires
            old(pen).wf(),
        ensures
            final(pen).wf(),
            final(pen).colored() == old(pen).colored(),
            final(pen).text() == old(pen).text() + artifact_list_text(
                self.source@,
                old(pen).colored(),
            ),
    {
        let ghost colored = pen.colored();
        pen.put("== Artifacts from ");
        pen.paint(Color::Magenta);
        pen.put(self.source.id.as_str());
        pen.unpaint();
        pen.put(" ==\n");
        let ghost head = pen.text();
        let mut k: usize = 0;
        assert(self.source@.artifacts.take(0) =~= Seq::<ArtifactSpec>::empty());
        assert(pen.text() =~= head + artifact_rows(self.source@.artifacts.take(0), colored));
        while k < self.source.artifacts.len()
            invariant
                k <= self.source.artifacts.len(),
                self.source@.artifacts.len() == self.source.artifacts.len(),
                pen.wf(),
                pen.colored() == colored,
                pen.text() == head + artifact_rows(self.source@.artifacts.take(k as int), colored),
            decreases self.source.artifacts.len() - k,
        {
            let artifact = &self.source.artifacts[k];
            let ghost before = pen.text();
            assert(self.source@.artifacts[k as int] == artifact@);
            assert(self.source@.artifacts.take(k + 1).drop_last() =~= self.source@.artifacts.take(
                k as int,
            ));
            assert(self.source@.artifacts.take(k + 1).last() == artifact@);
            pen.put("- ");
            pen.paint(Color::Green);
            pen.put(artifact.id.as_str());
            pen.unpaint();
            pen.put(" (");
            pen.paint(Color::Yellow);
            pen.put(artifact.branch.as_str());
            pen.unpaint();
            pen.put(")\n");
            assert(pen.text() =~= before + artifact_row(artifact@, colored));
            assert(pen.text() =~= head + artifact_rows(
                self.source@.artifacts.take(k + 1),
                colored,
            ));
            k += 1;
        }
        assert(self.source@.artifacts.take(k as int) =~= self.source@.artifacts);
        assert(pen.text() =~= old(pen).text() + artifact_list_text(self.source@, colored));
    }

    /// The list as text, coloured or not as its options ask.
    pub fn render(&self) -> (r: String)
        ensures
            r@ == artifact_list_text(self.source@, self.options.color),
    {
        let mut pen = Pen::new(&self.options);
        self.fmt_default(&mut pen);
        assert(pen.text() =~= artifact_list_text(self.source@, self.options.color));
        pen.finish()
    }
}

/// A project that a scan found.
#[derive(Debug)]
pub struct ScannedProject {
    pub path: String,
    pub id: String,
    pub url: String,
}

/// What a `ScannedProject` holds, as plain text.
pub struct ProjectRow {
    pub path: Seq<char>,
    pub id: Seq<char>,
    pub url: Seq<char>,
}

impl View for ScannedProject {
    type V = ProjectRow;

    open spec fn view(&self) -> ProjectRow {
        ProjectRow { path: self.path@, id: self.id@, url: self.url@ }
    }
}

/// The plain text of `projects`.
pub open spec fn rows_view(projects: Seq<ScannedProject>) -> Seq<ProjectRow> {
    projects.map_values(|p: ScannedProject| p@)
}

/// The projects that a scan found, ready to be rendered.
#[derive(Debug)]
pub struct ScanProjectsOutput {
    pub projects: Vec<ScannedProject>,
    pub options: OutputOptions,
}

/// The greatest length, in bytes, of a path among `projects`; 0 for none.
pub open spec fn longest_path(projects: Seq<ProjectRow>) -> nat
    decreases projects.len(),
{
    if projects.len() == 0 {
        0
    } else {
        let rest = longest_path(projects.drop_last());
        let last = encode_utf8(projects.last().path).len();
        if last > rest {
            last
        } else {
            rest
        }
    }
}

/// One project of a scan: its path, padded to `width` characters, then its
/// id in brackets and its URL.
pub open spec fn project_row(project: ProjectRow, width: nat, colored: bool) -> Seq<char> {
    paint(colored, Color::Green) + padded(project.path, width) + unpaint(colored) + " ("@
        + project.id + ") - "@ + project.url + "\n"@
}

/// The rows for `projects`, in order.
pub open spec fn project_rows(projects: Seq<ProjectRow>, width: nat, colored: bool) -> Seq<
    char,
>
    decreases projects.len(),
{
    if projects.len() == 0 {
        Seq::empty()
    } else {
        project_rows(projects.drop_last(), width, colored) + project_row(
            projects.last(),
            width,
            colored,
        )
    }
}

/// The result of a scan: a heading, then a row for each project, with the
/// paths padded to the byte length of the longest.
pub open spec fn scan_text(projects: Seq<ProjectRow>, colored: bool) -> Seq<char> {
    paint(colored, Color::Green) + "Path"@ + unpaint(colored) + " (ID) - URL\n"@ + project_rows(
        projects,
        longest_path(projects),
        colored,
    )
}

impl ScanProjectsOutput {
    fn longest_name(&self) -> (n: usize)
        ensures
            n == longest_path(rows_view(self.projects@)),
    {
        let mut longest: usize = 0;
        let mut k: usize = 0;
        assert(rows_view(self.projects@).take(0) =~= Seq::<ProjectRow>::empty());
        while k < self.projects.len()
            invariant
                k <= self.projects.len(),
                longest == longest_path(rows_view(self.projects@).take(k as int)),
            decreases self.projects.len() - k,
        {
            assert(rows_view(self.projects@).take(k + 1).drop_last() =~= rows_view(self.projects@).take(k as int));
            assert(rows_view(self.projects@).take(k + 1).last() == self.projects@[k as int]@);
            let n: usize = self.projects[k].path.as_str().as_bytes().len();
            if n > longest {
                longest = n;
            }
            k += 1;
        }
        assert(rows_view(self.projects@).take(k as int) =~= rows_view(self.projects@));
        longest
    }

    fn fmt_default(&self, pen: &mut Pen)
        requires
            old(pen).wf(),
        ensures
            final(pen).wf(),
            final(pen).colored() == old(pen).colored(),
            final(pen).text() == old(pen).text() + scan_text(rows_view(self.projects@), old(pen).colored()),
    {
        let ghost colored = pen.colored();
        pen.paint(Color::Green);
        pen.put("Path");
        pen.unpaint();
        pen.put(" (ID) - URL\n");
        let longest_name: usize = self.longest_name();
        let ghost head = pen.text();
        let mut k: usize = 0;
        assert(rows_view(self.projects@).take(0) =~= Seq::<ProjectRow>::empty());
        assert(pen.text() =~= head + project_rows(
            rows_view(self.projects@).take(0),
            longest_name as nat,
            colored,
        ));
        while k < self.projects.len()
            invariant
                k <= self.projects.len(),
                pen.wf(),
                pen.colored() == colored,
                pen.text() == head + project_rows(
                    rows_view(self.projects@).take(k as int),
                    longest_name as nat,
                    colored,
                ),
            decreases self.projects.len() - k,
        {
            let project = &self.projects[k];
            let ghost before = pen.text();
            assert(rows_view(self.projects@).take(k + 1).drop_last() =~= rows_view(self.projects@).take(k as int));
            assert(rows_view(self.projects@).take(k + 1).last() == project@);
            pen.paint(Color::Green);
            let cell = pad_right(project.path.as_str(), longest_name);
            pen.put(cell.as_str());
            pen.unpaint();
            pen.put(" (");
            pen.put(project.id.as_str());
            pen.put(") - ");
            pen.put(project.url.as_str());
            pen.put("\n");
            assert(pen.text() =~= before + project_row(project@, longest_name as nat, colored));
            assert(pen.text() =~= head + project_rows(
                rows_view(self.projects@).take(k + 1),
                longest_name as nat,
                colored,
            ));
            k += 1;
        }
        assert(rows_view(self.projects@).take(k as int) =~= rows_view(self.projects@));
        assert(pen.text() =~= old(pen).text() + scan_text(rows_view(self.projects@), colored));
    }

    /// The result of the scan as text, coloured or not as its options ask.
    pub fn render(&self) -> (r: String)
        ensures
            r@ == scan_text(rows_view(self.projects@), self.options.color),
    {
        let mut pen = Pen::new(&self.options);
        self.fmt_default(&mut pen);
        assert(pen.text() =~= scan_text(rows_view(self.projects@), self.options.color));
        pen.finish()
    }
}

/// The outcome of a retrieval, ready to be rendered.
#[derive(Debug)]
pub struct GetArtifactAnswerOutput {
    pub answer: GetArtifactAnswer,
    pub options: OutputOptions,
}

impl FormatOutput<GetArtifactAnswerOutput> for GetArtifactAnswer {
    fn format_output(self, options: &OutputOptions) -> (r: GetArtifactAnswerOutput)
        ensures
            r.answer == self,
            r.options == *options,
    {
        GetArtifactAnswerOutput { answer: self, options: *options }
    }
}

/// The colour for an outcome.
pub open spec fn outcome_color(outcome: Outcome) -> Color {
    match outcome {
        Outcome::NotFound => Color::Red,
        Outcome::NewArtifact(_) => Color::Green,
        Outcome::UpToDate(_) => Color::Yellow,
    }
}

/// An outcome in words, with the file's name in brackets where there is one.
pub open spec fn outcome_text(outcome: Outcome, colored: bool) -> Seq<char> {
    paint(colored, outcome_color(outcome)) + match outcome {
        Outcome::NotFound => "Not Found!"@,
        Outcome::NewArtifact(file) => "New "@ + unpaint(colored) + "("@ + file + ")"@,
        Outcome::UpToDate(file) => "Up to date "@ + unpaint(colored) + "("@ + file + ")"@,
    } + unpaint(colored)
}

fn fmt_answer(answer: &GetArtifactAnswer, pen: &mut Pen)
    requires
        old(pen).wf(),
    ensures
        final(pen).wf(),
        final(pen).colored() == old(pen).colored(),
        final(pen).text() == old(pen).text() + outcome_text(answer@, old(pen).colored()),
{
    match answer {
        GetArtifactAnswer::NotFound => {
            pen.paint(Color::Red);
            pen.put("Not Found!");
        },
        GetArtifactAnswer::NewArtifact(file) => {
            pen.paint(Color::Green);
            pen.put("New ");
            pen.unpaint();
            pen.put("(");
            pen.put(file.as_str());
            pen.put(")");
        },
        GetArtifactAnswer::UpToDate(file) => {
            pen.paint(Color::Yellow);
            pen.put("Up to date ");
            pen.unpaint();
            pen.put("(");
            pen.put(file.as_str());
            pen.put(")");
        },
    }
    pen.unpaint();
    assert(pen.text() =~= old(pen).text() + outcome_text(answer@, old(pen).colored()));
}

impl GetArtifactAnswerOutput {
    fn fmt_default(&self, pen: &mut Pen)
        requires
            old(pen).wf(),
        ensures
            final(pen).wf(),
            final(pen).colored() == old(pen).colored(),
            final(pen).text() == old(pen).text() + outcome_text(self.answer@, old(pen).colored()),
    {
        fmt_answer(&self.answer, pen)
    }

    /// The outcome as text, coloured or not as its options ask.
    pub fn render(&self) -> (r: String)
        ensures
            r@ == outcome_text(self.answer@, self.options.color),
    {
        let mut pen = Pen::new(&self.options);
        self.fmt_default(&mut pen);
        assert(pen.text() =~= outcome_text(self.answer@, self.options.color));
        pen.finish()
    }
}

/// The line that reports one outcome: the artifact's id, padded to
/// `padding` characters, then the outcome. A `NotFound` is an error.
pub open spec fn answer_line_text(
    outcome: Outcome,
    artifact_id: Seq<char>,
    padding: nat,
    colored: bool,
) -> Seq<char> {
    padded(artifact_id, padding) + " "@ + outcome_text(outcome, colored)
}

/// How much the report of an outcome matters.
pub open spec fn answer_level(outcome: Outcome) -> Level {
    if outcome is NotFound {
        Level::Error
    } else {
        Level::Info
    }
}

/// The line that reports the outcome for `artifact_id`.
pub fn print_fetch_answer(
    answer: &GetArtifactAnswer,
    artifact_id: &str,
    padding: usize,
    options: &OutputOptions,
) -> (line: LogLine)
    ensures
        line.level == answer_level(answer@),
        line.text@ == answer_line_text(answer@, artifact_id@, padding as nat, options.color),
{
    let error = match answer {
        GetArtifactAnswer::NotFound => true,
        _ => false,
    };
    let mut pen = Pen::new(options);
    fmt_answer(answer, &mut pen);
    assert(pen.text() =~= outcome_text(answer@, options.color));
    let outcome = pen.finish();
    let mut text = pad_right(artifact_id, padding);
    text.append(" ");
    text.append(outcome.as_str());
    LogLine {
        level: if error {
            Level::Error
        } else {
            Level::Info
        },
        text,
    }
}

} // verus!
