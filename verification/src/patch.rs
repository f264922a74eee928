//! The state of a patch run and what applying a hunk does to it.

use crate::common::{chars_of, normal, normalize};
use crate::header::{
    header_name, is_hunk_header, is_new_header, is_old_header, parse_header_name,
    parse_hunk_header, span_of,
};
use crate::hunk::{
    body_row, consumed, is_insertion, rows, texts, tune, tuning, HunkLine, LineKind, Row, Tuning,
};
use crate::matching::{locate, replacement, search, Located, Outcome};
use crate::target::{aim, resolve_target, Aim, Target};
use vstd::prelude::*;

verus! {

/// Where the reading of the patch stands.
#[derive(Clone, Copy, Debug, PartialEq, Eq, Structural)]
pub enum ParserState {
    /// No file header is in force.
    Preamble,
    /// The header of the old file has been read.
    OldHeaderSeen,
    /// The header of the new file has been read: a hunk may start.
    NewHeaderSeen,
    /// A hunk header has been read and the body is being collected.
    AssemblingHunk,
}

/// The settings of a patch run.
#[derive(Clone, Debug, PartialEq, Eq)]
pub struct PatchToy {
    /// Ignore blank space when comparing lines.
    pub loose: bool,
    /// The number of leading path segments to take off the names in the
    /// patch; `None` takes off all but the last.
    pub strip: Option<usize>,
    /// Apply the patch backwards.
    pub reverse: bool,
    /// The number of context lines that may differ; `None` leaves it to
    /// the hunk.
    pub fuzz: Option<usize>,
    /// Say nothing but errors.
    pub silent: bool,
    /// Change no file, only find out whether the patch applies.
    pub dry_run: bool,
    /// The file to patch, whatever the patch names.
    pub file: Option<String>,
}

/// The mathematical content of the settings.
pub ghost struct Config {
    pub loose: bool,
    pub strip: Option<usize>,
    pub reverse: bool,
    pub fuzz: Option<usize>,
    pub silent: bool,
    pub dry_run: bool,
    pub file: Option<Seq<char>>,
}

impl View for PatchToy {
    type V = Config;

    open spec fn view(&self) -> Config {
        Config {
            loose: self.loose,
            strip: self.strip,
            reverse: self.reverse,
            fuzz: self.fuzz,
            silent: self.silent,
            dry_run: self.dry_run,
            file: match self.file {
                Some(f) => Some(f@),
                None => None,
            },
        }
    }
}

/// Something the run has to tell the user.
#[derive(Clone, Copy, Debug, PartialEq, Eq, Structural)]
pub enum Report {
    /// Hunk number `hunk`, declared at line `oldline` of the old file and
    /// `newline` of the new one, found no place.
    HunkFailed { hunk: usize, oldline: usize, newline: usize },
    /// Hunk number `hunk` found no place in an input of `line` lines that
    /// already holds a line the hunk would add.
    PossiblyReversed { hunk: usize, line: usize },
    /// The header of hunk number `hunk` could not be read.
    BadHeader { hunk: usize },
}

/// Why a hunk could not be tried.
#[derive(Clone, Copy, Debug, PartialEq, Eq, Structural)]
pub enum PatchError {
    /// No input is attached to the run.
    NoInput,
}

/// The finished content of a file, to be put in its place.
#[derive(Clone, Debug, PartialEq, Eq)]
pub struct Commit {
    pub name: String,
    pub lines: Vec<String>,
}

/// The mathematical content of a commit.
pub ghost struct Change {
    pub name: Seq<char>,
    pub lines: Seq<Seq<char>>,
}

impl View for Commit {
    type V = Change;

    open spec fn view(&self) -> Change {
        Change { name: self.name@, lines: texts(self.lines@) }
    }
}

/// The state of a patch run: the reading of the patch, the hunk being
/// collected, and the file being patched.
#[derive(Clone, Debug, PartialEq, Eq)]
pub struct Globals {
    /// The body lines of the hunk read so far.
    pub current_hunk: Vec<HunkLine>,
    /// The line of the old file at which the hunk is declared.
    pub oldline: usize,
    /// The number of old-side lines the hunk still lacks.
    pub oldlen: usize,
    /// The line of the new file at which the hunk is declared.
    pub newline: usize,
    /// The number of new-side lines the hunk still lacks.
    pub newlen: usize,
    /// The number of input lines consumed.
    pub linenum: usize,
    /// The number of lines written to the output.
    pub outnum: usize,
    /// Where the reading of the patch stands.
    pub state: ParserState,
    /// The lines of the file being patched, while one is.
    pub filein: Option<Vec<String>>,
    /// The lines written so far.
    pub fileout: Vec<String>,
    /// The number of the hunk within its file.
    pub hunknum: usize,
    /// The output is owed to the destination.
    pub pending: bool,
    /// The name of the file that the output is for.
    pub destname: Option<String>,
    /// The exit status, once a hunk has failed.
    pub exitval: Option<i32>,
    /// The name from the header of the old file.
    pub oldname: String,
    /// The name from the header of the new file.
    pub newname: String,
    /// What there is to tell the user, oldest first.
    pub reports: Vec<Report>,
}

/// The mathematical content of a run's state.
pub ghost struct Engine {
    pub hunk: Seq<Row>,
    pub oldline: nat,
    pub oldlen: nat,
    pub newline: nat,
    pub newlen: nat,
    pub linenum: nat,
    pub outnum: nat,
    pub state: ParserState,
    pub input: Option<Seq<Seq<char>>>,
    pub output: Seq<Seq<char>>,
    pub hunknum: nat,
    pub pending: bool,
    pub destname: Option<Seq<char>>,
    pub exitval: Option<i32>,
    pub oldname: Seq<char>,
    pub newname: Seq<char>,
    pub reports: Seq<Report>,
}

impl View for Globals {
    type V = Engine;

    open spec fn view(&self) -> Engine {
        Engine {
            hunk: rows(self.current_hunk@),
            oldline: self.oldline as nat,
            oldlen: self.oldlen as nat,
            newline: self.newline as nat,
            newlen: self.newlen as nat,
            linenum: self.linenum as nat,
            outnum: self.outnum as nat,
            state: self.state,
            input: match self.filein {
                Some(v) => Some(texts(v@)),
                None => None,
            },
            output: texts(self.fileout@),
            hunknum: self.hunknum as nat,
            pending: self.pending,
            destname: match self.destname {
                Some(n) => Some(n@),
                None => None,
            },
            exitval: self.exitval,
            oldname: self.oldname@,
            newname: self.newname@,
            reports: self.reports@,
        }
    }
}

impl Engine {
    /// The state is sound: no more input is consumed than there is, every
    /// line written is counted, and output is owed only while a file is
    /// being patched and its destination is known.
    pub open spec fn wf(self) -> bool {
        &&& (self.input is Some ==> self.linenum <= self.input->0.len())
        &&& self.outnum == self.output.len()
        &&& (self.pending ==> self.input is Some && self.destname is Some)
    }
}

/// The state after the current hunk has been given up. With no hunk there
/// is nothing to give up. Otherwise the failure is reported, the exit
/// status becomes 1, the hunk is dropped and the reading goes back to the
/// preamble; unless this is a dry run, the file being patched is let go
/// and its output thrown away.
pub open spec fn failed(e: Engine, c: Config) -> Engine {
    if e.hunk.len() == 0 {
        e
    } else {
        let gone = Engine {
            hunk: Seq::empty(),
            state: ParserState::Preamble,
            exitval: Some(1i32),
            reports: e.reports.push(
                Report::HunkFailed {
                    hunk: e.hunknum as usize,
                    oldline: e.oldline as usize,
                    newline: e.newline as usize,
                },
            ),
            ..e
        };
        if c.dry_run {
            gone
        } else {
            Engine { input: None, output: Seq::empty(), outnum: 0, pending: false, ..gone }
        }
    }
}

/// The state after the file being patched has been finished, and the
/// content to put in its place, if any is owed: the output followed by the
/// input not yet consumed.
pub open spec fn finished(e: Engine) -> (Engine, Option<Change>) {
    (
        Engine { input: None, output: Seq::empty(), outnum: 0, pending: false, ..e },
        if e.pending && e.input is Some && e.destname is Some {
            Some(
                Change {
                    name: e.destname->0,
                    lines: e.output + e.input->0.skip(e.linenum as int),
                },
            )
        } else {
            None
        },
    )
}

/// The state after the current hunk has been tried on the input from the
/// line where reading stands. Where the hunk is found, the lines before
/// its place are copied to the output, its replacement follows, reading
/// goes on after the lines it matched, and the next hunk may start. Where
/// it is lost, the lines read are copied to the output and the hunk is
/// given up, after a warning if the input ran out, an insertion of the
/// hunk was seen in it and the run is not silent.
pub open spec fn applied(e: Engine, c: Config) -> Engine
    recommends
        e.input is Some,
{
    let t = tuning(e.hunk, c.reverse, c.loose, c.fuzz);
    let input = e.input->0;
    match search(e.hunk, t, input, e.linenum as int) {
        Outcome::Found { at } => {
            let out = e.output + input.subrange(e.linenum as int, at) + replacement(
                e.hunk,
                t,
                input,
                at,
            );
            Engine {
                hunk: Seq::empty(),
                linenum: (at + consumed(e.hunk, c.reverse)) as nat,
                output: out,
                outnum: out.len(),
                state: ParserState::NewHeaderSeen,
                ..e
            }
        },
        Outcome::Lost { read, at_end, warned } => {
            let out = e.output + input.subrange(e.linenum as int, read);
            failed(
                Engine {
                    linenum: read as nat,
                    output: out,
                    outnum: out.len(),
                    reports: if warned && at_end && !c.silent {
                        e.reports.push(
                            Report::PossiblyReversed {
                                hunk: e.hunknum as usize,
                                line: read as usize,
                            },
                        )
                    } else {
                        e.reports
                    },
                    ..e
                },
                c,
            )
        },
    }
}

/// What the caller has to do after a line of the patch has been read.
#[derive(Clone, Debug, PartialEq, Eq)]
pub enum Step {
    /// Nothing.
    Idle,
    /// Put this content in place of the file it names.
    Commit(Commit),
    /// Delete the file named, or read it (creating it first where that is
    /// allowed and it does not exist) and attach its lines to the run.
    Aim(Target),
    /// A hunk is complete but no input is attached: the run cannot go on.
    NoInput,
}

/// The mathematical content of a step.
pub ghost enum Deed {
    Idle,
    Commit(Change),
    Aim(Aim),
    NoInput,
}

impl View for Step {
    type V = Deed;

    open spec fn view(&self) -> Deed {
        match *self {
            Step::Idle => Deed::Idle,
            Step::Commit(c) => Deed::Commit(c@),
            Step::Aim(t) => Deed::Aim(t@),
            Step::NoInput => Deed::NoInput,
        }
    }
}

/// The hunk being collected still lacks a line of this kind.
pub open spec fn room(e: Engine, kind: LineKind) -> bool {
    &&& (kind != LineKind::Add ==> e.oldlen > 0)
    &&& (kind != LineKind::Remove ==> e.newlen > 0)
}

/// The state with one more row in the hunk being collected.
pub open spec fn grown(e: Engine, row: Row) -> Engine {
    Engine {
        hunk: e.hunk.push(row),
        oldlen: if row.kind != LineKind::Add {
            (e.oldlen - 1) as nat
        } else {
            e.oldlen
        },
        newlen: if row.kind != LineKind::Remove {
            (e.newlen - 1) as nat
        } else {
            e.newlen
        },
        ..e
    }
}

/// The state after the file being patched has been let go without its
/// output, unless this is a dry run.
pub open spec fn dropped(e: Engine, c: Config) -> Engine {
    if c.dry_run {
        e
    } else {
        Engine { input: None, output: Seq::empty(), outnum: 0, pending: false, ..e }
    }
}

/// The state after the lines of the file to patch have been attached:
/// nothing of it is consumed yet, nothing written, and the output is owed
/// to the destination unless this is a dry run.
pub open spec fn attached(e: Engine, c: Config, lines: Seq<Seq<char>>) -> Engine {
    Engine {
        input: Some(lines),
        output: Seq::empty(),
        linenum: 0,
        outnum: 0,
        pending: !c.dry_run && e.destname is Some,
        ..e
    }
}

/// The state after a line of the patch, and what the caller has to do.
///
/// While a hunk is being collected, a body line that the hunk still lacks
/// is added to it, and the hunk is applied once it lacks nothing more; any
/// other line gives the hunk up and sends the reading back to the
/// preamble. Otherwise, the header of an old file finishes the file being
/// patched and names the old side; after it, the header of a new file
/// names the new side; after that, a hunk header starts a hunk, and for
/// the first hunk of a file settles what becomes of which file. A hunk
/// header that cannot be read counts as a failed hunk. Any other line is
/// passed over.
pub open spec fn fed(e: Engine, c: Config, raw: Seq<char>) -> (Engine, Deed) {
    let line = normal(raw);
    if e.state == ParserState::AssemblingHunk {
        match body_row(line) {
            Some(row) if room(e, row.kind) => {
                let more = grown(e, row);
                if more.oldlen == 0 && more.newlen == 0 {
                    if more.input is Some {
                        (applied(more, c), Deed::Idle)
                    } else {
                        (more, Deed::NoInput)
                    }
                } else {
                    (more, Deed::Idle)
                }
            },
            _ => (Engine { state: ParserState::Preamble, ..failed(e, c) }, Deed::Idle),
        }
    } else if is_old_header(line) {
        (
            Engine {
                oldname: header_name(line),
                state: ParserState::OldHeaderSeen,
                ..finished(e).0
            },
            match finished(e).1 {
                Some(change) => Deed::Commit(change),
                None => Deed::Idle,
            },
        )
    } else if e.state == ParserState::OldHeaderSeen && is_new_header(line) {
        (
            Engine { newname: header_name(line), state: ParserState::NewHeaderSeen, ..e },
            Deed::Idle,
        )
    } else if e.state == ParserState::NewHeaderSeen && is_hunk_header(line) {
        match span_of(line) {
            Some(span) => {
                let started = Engine {
                    hunk: Seq::empty(),
                    oldline: span.oldline as nat,
                    oldlen: span.oldlen as nat,
                    newline: span.newline as nat,
                    newlen: span.newlen as nat,
                    state: ParserState::AssemblingHunk,
                    hunknum: e.hunknum + 1,
                    ..e
                };
                if e.input is Some {
                    (started, Deed::Idle)
                } else {
                    let a = aim(e.oldname, e.newname, span, c);
                    if a.delete {
                        (Engine { state: ParserState::Preamble, ..started }, Deed::Aim(a))
                    } else {
                        (Engine { hunknum: 1, destname: Some(a.name), ..started }, Deed::Aim(a))
                    }
                }
            },
            None => (
                dropped(
                    Engine {
                        state: ParserState::Preamble,
                        exitval: Some(1i32),
                        reports: e.reports.push(
                            Report::BadHeader { hunk: (e.hunknum + 1) as usize },
                        ),
                        ..e
                    },
                    c,
                ),
                Deed::Idle,
            ),
        }
    } else {
        (e, Deed::Idle)
    }
}

/// The state after the patch has ended, and the content to put in place
/// of the file being patched, if any is owed. A hunk still being collected
/// is given up first.
pub open spec fn ended(e: Engine, c: Config) -> (Engine, Option<Change>) {
    if e.state == ParserState::AssemblingHunk {
        finished(Engine { state: ParserState::Preamble, ..failed(e, c) })
    } else {
        finished(e)
    }
}

/// Disposes of a line according to `state`. Below 2 the line is dropped;
/// at 2 it is handed back for the error stream; at 3 it is written to the
/// output whole, and above 3 without its first character. Lines written
/// are counted in `outnum`.
pub fn do_line(outnum: &mut usize, state: u32, fileout: &mut Vec<String>, data: &str) -> (err:
    Option<String>)
    requires
        *old(outnum) <= old(fileout)@.len(),
        state > 3 ==> data@.len() > 0,
    ensures
        state < 2 ==> err is None && *final(fileout) == *old(fileout) && *final(outnum) == *old(
            outnum,
        ),
        state == 2 ==> err is Some && err->0@ == data@ && *final(fileout) == *old(fileout)
            && *final(outnum) == *old(outnum),
        state == 3 ==> err is None && final(fileout)@.len() == old(fileout)@.len() + 1 && texts(
            final(fileout)@,
        ) == texts(old(fileout)@).push(data@) && *final(outnum) == *old(outnum) + 1,
        state > 3 ==> err is None && final(fileout)@.len() == old(fileout)@.len() + 1 && texts(
            final(fileout)@,
        ) == texts(old(fileout)@).push(data@.skip(1)) && *final(outnum) == *old(outnum) + 1,
{
    if state < 2 {
        None
    } else if state == 2 {
        Some(data.to_owned())
    } else {
        let line = if state > 3 {
            let n = data.unicode_len();
            proof {
                assert(data@.subrange(1, data@.len() as int) =~= data@.skip(1));
            }
            data.substring_char(1, n).to_owned()
        } else {
            data.to_owned()
        };
        let ghost before = fileout@;
        fileout.push(line);
        let written = fileout.len();
        proof {
            assert(texts(fileout@) =~= texts(before).push(line@));
        }
        *outnum = *outnum + 1;
        None
    }
}

/// Copies the input lines from `from` up to `to` to the output.
fn pass_through(
    outnum: &mut usize,
    fileout: &mut Vec<String>,
    input: &Vec<String>,
    from: usize,
    to: usize,
)
    requires
        *old(outnum) == old(fileout)@.len(),
        from <= to <= input.len(),
    ensures
        texts(final(fileout)@) == texts(old(fileout)@) + texts(input@).subrange(
            from as int,
            to as int,
        ),
        *final(outnum) == final(fileout)@.len(),
{
    let mut i: usize = from;
    let ghost start = texts(fileout@);
    proof {
        assert(start + texts(input@).subrange(from as int, from as int) =~= start);
    }
    while i < to
        invariant
            from <= i <= to <= input.len(),
            *outnum == fileout@.len(),
            texts(fileout@) == start + texts(input@).subrange(from as int, i as int),
        decreases to - i,
    {
        let ghost before = texts(fileout@);
        let _ = do_line(outnum, 3, fileout, input[i].as_str());
        proof {
            assert(texts(input@)[i as int] == input@[i as int]@);
            assert(texts(input@).subrange(from as int, i + 1) =~= texts(input@).subrange(
                from as int,
                i as int,
            ).push(input@[i as int]@));
            assert(texts(fileout@) =~= start + texts(input@).subrange(from as int, i + 1));
        }
        i += 1;
    }
}

/// Writes to the output what takes the place of the lines that the hunk
/// matched at `at`.
fn emit(
    outnum: &mut usize,
    fileout: &mut Vec<String>,
    h: &Vec<HunkLine>,
    t: Tuning,
    input: &Vec<String>,
    at: usize,
)
    requires
        *old(outnum) == old(fileout)@.len(),
        at + consumed(rows(h@), t.reverse) <= input.len(),
    ensures
        texts(final(fileout)@) == texts(old(fileout)@) + replacement(
            rows(h@),
            t,
            texts(input@),
            at as int,
        ),
        *final(outnum) == final(fileout)@.len(),
{
    let ghost hr = rows(h@);
    let ghost inp = texts(input@);
    let ghost start = texts(fileout@);
    let mut k: usize = 0;
    let mut j: usize = 0;
    proof {
        assert(hr.take(0) =~= Seq::<Row>::empty());
        assert(start + replacement(hr.take(0), t, inp, at as int) =~= start);
        lemma_consumed_grows(hr, t.reverse, 0);
    }
    while k < h.len()
        invariant
            hr == rows(h@),
            inp == texts(input@),
            k <= h.len(),
            j == consumed(hr.take(k as int), t.reverse),
            at + consumed(hr, t.reverse) <= input.len(),
            consumed(hr.take(k as int), t.reverse) <= consumed(hr, t.reverse),
            *outnum == fileout@.len(),
            texts(fileout@) == start + replacement(hr.take(k as int), t, inp, at as int),
        decreases h.len() - k,
    {
        proof {
            assert(hr.take(k + 1).drop_last() =~= hr.take(k as int));
            assert(hr.take(k + 1).last() == hr[k as int]);
            assert(hr[k as int] == h@[k as int]@);
            lemma_consumed_grows(hr, t.reverse, k + 1);
        }
        let row = &h[k];
        if is_insertion(row.kind, t.reverse) {
            let _ = do_line(outnum, 3, fileout, row.text.as_str());
        } else {
            proof {
                assert(inp[at + j] == input@[at + j]@);
            }
            if row.kind == LineKind::Context {
                let _ = do_line(outnum, 3, fileout, input[at + j].as_str());
            }
            j += 1;
        }
        proof {
            assert(texts(fileout@) =~= start + replacement(hr.take(k + 1), t, inp, at as int));
        }
        k += 1;
    }
    proof {
        assert(hr.take(k as int) =~= hr);
    }
}

/// A prefix of the rows consumes no more input than all of them.
pub proof fn lemma_consumed_grows(h: Seq<Row>, reverse: bool, k: int)
    requires
        0 <= k <= h.len(),
    ensures
        consumed(h.take(k), reverse) <= consumed(h, reverse),
    decreases h.len(),
{
    if k == h.len() {
        assert(h.take(k) =~= h);
    } else {
        assert(h.drop_last().take(k) =~= h.take(k));
        lemma_consumed_grows(h.drop_last(), reverse, k);
    }
}

impl Globals {
    /// The state is sound.
    pub open spec fn wf(&self) -> bool {
        self@.wf()
    }

    /// A run that has read nothing yet.
    pub fn new() -> (g: Globals)
        ensures
            g.wf(),
            g@.hunk.len() == 0,
            g@.state == ParserState::Preamble,
            g@.input is None,
            g@.output.len() == 0,
            g@.reports.len() == 0,
            g@.exitval is None,
            !g@.pending,
            g@.destname is None,
            g@.oldname.len() == 0,
            g@.newname.len() == 0,
            g@.oldline == 0 && g@.oldlen == 0 && g@.newline == 0 && g@.newlen == 0,
            g@.linenum == 0 && g@.outnum == 0 && g@.hunknum == 0,
    {
        Globals {
            current_hunk: Vec::new(),
            oldline: 0,
            oldlen: 0,
            newline: 0,
            newlen: 0,
            linenum: 0,
            outnum: 0,
            state: ParserState::Preamble,
            filein: None,
            fileout: Vec::new(),
            hunknum: 0,
            pending: false,
            destname: None,
            exitval: None,
            oldname: String::new(),
            newname: String::new(),
            reports: Vec::new(),
        }
    }

    /// Attaches the lines of the file to patch. Nothing of it is consumed
    /// yet and nothing written; the output is owed to the destination
    /// unless this is a dry run.
    pub fn attach(&mut self, toy: &PatchToy, lines: Vec<String>)
        ensures
            final(self)@ == attached(old(self)@, toy@, texts(lines@)),
            old(self).wf() ==> final(self).wf(),
    {
        self.filein = Some(lines);
        self.fileout = Vec::new();
        self.linenum = 0;
        self.outnum = 0;
        self.pending = !toy.dry_run && self.destname.is_some();
        proof {
            assert(texts(self.fileout@) =~= Seq::<Seq<char>>::empty());
        }
    }

    /// Takes the reports gathered so far, oldest first, and leaves none.
    pub fn take_reports(&mut self) -> (r: Vec<Report>)
        ensures
            r@ == old(self)@.reports,
            final(self)@ == (Engine { reports: Seq::empty(), ..old(self)@ }),
    {
        let mut r: Vec<Report> = Vec::new();
        std::mem::swap(&mut r, &mut self.reports);
        proof {
            assert(self.reports@ =~= Seq::<Report>::empty());
        }
        r
    }

    /// The exit status of the run so far: 0 while every hunk has found its
    /// place, 1 once one has not.
    pub fn status(&self) -> (code: i32)
        ensures
            code == match self@.exitval {
                Some(v) => v,
                None => 0i32,
            },
    {
        match self.exitval {
            Some(v) => v,
            None => 0,
        }
    }

    /// Reads one line of the patch and says what the caller has to do.
    pub fn feed_line(&mut self, toy: &PatchToy, raw: &str) -> (step: Step)
        requires
            old(self).wf(),
            old(self).hunknum < usize::MAX,
        ensures
            final(self).wf(),
            final(self)@ == fed(old(self)@, toy@, raw@).0,
            step@ == fed(old(self)@, toy@, raw@).1,
    {
        let line = normalize(raw);
        let v = chars_of(line.as_str());
        match self.state {
            ParserState::AssemblingHunk => {
                match HunkLine::parse(line.as_str()) {
                    Some(row) => {
                        let old_ok = row.kind == LineKind::Add || self.oldlen > 0;
                        let new_ok = row.kind == LineKind::Remove || self.newlen > 0;
                        if old_ok && new_ok {
                            if row.kind != LineKind::Add {
                                self.oldlen = self.oldlen - 1;
                            }
                            if row.kind != LineKind::Remove {
                                self.newlen = self.newlen - 1;
                            }
                            let ghost before = rows(self.current_hunk@);
                            self.current_hunk.push(row);
                            proof {
                                assert(rows(self.current_hunk@) =~= before.push(row@));
                                assert(self@ == grown(old(self)@, row@));
                            }
                            if self.oldlen == 0 && self.newlen == 0 {
                                return match self.apply_one_hunk(toy) {
                                    Ok(_) => Step::Idle,
                                    Err(_) => Step::NoInput,
                                };
                            }
                            return Step::Idle;
                        }
                    },
                    None => {},
                }
                self.fail_hunk(toy);
                self.state = ParserState::Preamble;
                return Step::Idle;
            },
            _ => {},
        }
        if v.len() >= 4 && v[0] == '-' && v[1] == '-' && v[2] == '-' && v[3] == ' ' {
            let commit = self.finish_oldfile();
            self.oldname = parse_header_name(line.as_str());
            self.state = ParserState::OldHeaderSeen;
            return match commit {
                Some(c) => Step::Commit(c),
                None => Step::Idle,
            };
        }
        let new_header = v.len() >= 4 && v[0] == '+' && v[1] == '+' && v[2] == '+' && v[3] == ' ';
        let hunk_header = v.len() >= 4 && v[0] == '@' && v[1] == '@' && v[2] == ' ' && v[3] == '-';
        match self.state {
            ParserState::OldHeaderSeen => {
                if new_header {
                    self.newname = parse_header_name(line.as_str());
                    self.state = ParserState::NewHeaderSeen;
                }
                Step::Idle
            },
            ParserState::NewHeaderSeen => {
                if !hunk_header {
                    return Step::Idle;
                }
                match parse_hunk_header(line.as_str()) {
                    Some(span) => {
                        self.current_hunk = Vec::new();
                        self.oldline = span.oldline;
                        self.oldlen = span.oldlen;
                        self.newline = span.newline;
                        self.newlen = span.newlen;
                        self.state = ParserState::AssemblingHunk;
                        self.hunknum = self.hunknum + 1;
                        proof {
                            assert(rows(self.current_hunk@) =~= Seq::<Row>::empty());
                        }
                        if self.filein.is_some() {
                            return Step::Idle;
                        }
                        let target = resolve_target(
                            self.oldname.as_str(),
                            self.newname.as_str(),
                            span,
                            toy,
                        );
                        if target.delete {
                            self.state = ParserState::Preamble;
                        } else {
                            self.hunknum = 1;
                            self.destname = Some(target.name.clone());
                        }
                        Step::Aim(target)
                    },
                    None => {
                        self.reports.push(Report::BadHeader { hunk: self.hunknum + 1 });
                        self.exitval = Some(1);
                        self.state = ParserState::Preamble;
                        if !toy.dry_run {
                            self.filein = None;
                            self.fileout = Vec::new();
                            self.outnum = 0;
                            self.pending = false;
                            proof {
                                assert(texts(self.fileout@) =~= Seq::<Seq<char>>::empty());
                            }
                        }
                        Step::Idle
                    },
                }
            },
            _ => Step::Idle,
        }
    }

    /// Ends the run: a hunk still being collected is given up, and the
    /// file being patched is finished.
    pub fn end_of_patch(&mut self, toy: &PatchToy) -> (commit: Option<Commit>)
        requires
            old(self).wf(),
        ensures
            final(self).wf(),
            final(self)@ == ended(old(self)@, toy@).0,
            match commit {
                Some(c) => ended(old(self)@, toy@).1 == Some(c@),
                None => ended(old(self)@, toy@).1 is None,
            },
    {
        match self.state {
            ParserState::AssemblingHunk => {
                self.fail_hunk(toy);
                self.state = ParserState::Preamble;
            },
            _ => {},
        }
        self.finish_oldfile()
    }

    /// Finishes the file being patched. If its output is owed, the rest of
    /// the input is copied after it and the whole is handed back, to be
    /// put in place of the file.
    pub fn finish_oldfile(&mut self) -> (commit: Option<Commit>)
        requires
            old(self).wf(),
        ensures
            final(self).wf(),
            final(self)@ == finished(old(self)@).0,
            match commit {
                Some(c) => finished(old(self)@).1 == Some(c@),
                None => finished(old(self)@).1 is None,
            },
    {
        let input = self.filein.take();
        let mut out: Vec<String> = Vec::new();
        std::mem::swap(&mut out, &mut self.fileout);
        let pending = self.pending;
        self.pending = false;
        self.outnum = 0;
        proof {
            assert(texts(self.fileout@) =~= Seq::<Seq<char>>::empty());
        }
        if !pending {
            return None;
        }
        match (input, &self.destname) {
            (Some(lines), Some(name)) => {
                let mut count: usize = out.len();
                pass_through(&mut count, &mut out, &lines, self.linenum, lines.len());
                proof {
                    assert(texts(lines@).subrange(self.linenum as int, lines.len() as int)
                        =~= texts(lines@).skip(self.linenum as int));
                }
                Some(Commit { name: name.clone(), lines: out })
            },
            _ => None,
        }
    }

    /// Gives the current hunk up. With no hunk there is nothing to do.
    /// Otherwise the failure is reported, the exit status becomes 1, the
    /// hunk is dropped and the reading goes back to the preamble; unless
    /// this is a dry run, the file being patched is let go and its output
    /// thrown away, so that the file on disk stays as it was.
    pub fn fail_hunk(&mut self, toy: &PatchToy)
        requires
            old(self).wf(),
        ensures
            final(self).wf(),
            final(self)@ == failed(old(self)@, toy@),
    {
        if self.current_hunk.len() == 0 {
            return ;
        }
        self.reports.push(
            Report::HunkFailed { hunk: self.hunknum, oldline: self.oldline, newline: self.newline },
        );
        self.exitval = Some(1);
        self.current_hunk = Vec::new();
        if !toy.dry_run {
            self.filein = None;
            self.fileout = Vec::new();
            self.outnum = 0;
            self.pending = false;
        }
        self.state = ParserState::Preamble;
        proof {
            assert(final(self)@.hunk =~= Seq::<Row>::empty());
            assert(final(self)@.output =~= failed(old(self)@, toy@).output);
        }
    }

    /// Applies the current hunk to the file being patched. The hunk's own
    /// line numbers are not used: the input is read on from where reading
    /// stands until the hunk's context and removed lines are found, the
    /// lines passed on the way are copied out, and the hunk's change is
    /// written in their place. Where the hunk finds no place it is given
    /// up. The answer is where the reading of the patch goes on.
    pub fn apply_one_hunk(&mut self, toy: &PatchToy) -> (r: Result<ParserState, PatchError>)
        requires
            old(self).wf(),
        ensures
            final(self).wf(),
            match r {
                Ok(state) => old(self)@.input is Some && final(self)@ == applied(
                    old(self)@,
                    toy@,
                ) && state == final(self)@.state,
                Err(e) => old(self)@.input is None && e == PatchError::NoInput && final(self)@
                    == old(self)@,
            },
    {
        let t = tune(&self.current_hunk, toy.reverse, toy.loose, toy.fuzz);
        let input = match self.filein.take() {
            Some(lines) => lines,
            None => {
                return Err(PatchError::NoInput);
            },
        };
        let ghost e = old(self)@;
        let found = locate(&self.current_hunk, t, &input, self.linenum);
        match found {
            Located::Found { at } => {
                pass_through(&mut self.outnum, &mut self.fileout, &input, self.linenum, at);
                emit(&mut self.outnum, &mut self.fileout, &self.current_hunk, t, &input, at);
                self.linenum = at + count_consumed(&self.current_hunk, toy.reverse);
                self.current_hunk = Vec::new();
                self.state = ParserState::NewHeaderSeen;
                self.filein = Some(input);
                proof {
                    assert(final(self)@.hunk =~= Seq::<Row>::empty());
                    assert(final(self)@ == applied(e, toy@));
                }
            },
            Located::Lost { read, at_end, warned } => {
                pass_through(&mut self.outnum, &mut self.fileout, &input, self.linenum, read);
                self.linenum = read;
                if warned && at_end && !toy.silent {
                    self.reports.push(Report::PossiblyReversed { hunk: self.hunknum, line: read });
                }
                self.filein = Some(input);
                self.fail_hunk(toy);
            },
        }
        Ok(self.state)
    }
}

/// Counts the input lines that the hunk stands for.
pub fn count_consumed(h: &Vec<HunkLine>, reverse: bool) -> (n: usize)
    ensures
        n == consumed(rows(h@), reverse),
{
    let ghost hr = rows(h@);
    let mut n: usize = 0;
    let mut k: usize = 0;
    proof {
        assert(hr.take(0) =~= Seq::<Row>::empty());
    }
    while k < h.len()
        invariant
            hr == rows(h@),
            k <= h.len(),
            n <= k,
            n == consumed(hr.take(k as int), reverse),
        decreases h.len() - k,
    {
        proof {
            assert(hr.take(k + 1).drop_last() =~= hr.take(k as int));
            assert(hr.take(k + 1).last() == hr[k as int]);
        }
        if !is_insertion(h[k].kind, reverse) {
            n += 1;
        }
        k += 1;
    }
    proof {
        assert(hr.take(k as int) =~= hr);
    }
    n
}

} // verus!
