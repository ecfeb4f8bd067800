//! The style checking engine: the error model, the per-file check context,
//! the line splitter, file selection and the check pipeline.

pub mod forbidden_content;
pub mod indentation_style;
pub mod max_line_length;

use vstd::prelude::*;
use vstd::string::StrSliceExecFns;
use vstd::string::StringExecFns;

use crate::check::forbidden_content::forbidden_errors;
use crate::check::indentation_style::indent_errors;
use crate::check::indentation_style::IndentationStyle;
use crate::check::max_line_length::max_len_errors;
use crate::config::pattern_sources;
use crate::config::Config;
use crate::globs::pattern_match;
use crate::globs::pattern_matches;
use crate::text::dec_seq;
use crate::text::str_to_chars;
use crate::text::u128_to_dec;

verus! {

/// Mathematical image of a [`CheckError`]: path, position and message as
/// plain sequences and integers.
#[verifier::ext_equal]
pub ghost struct CheckErrorView {
    pub path: Seq<char>,
    pub line: int,
    pub column: int,
    pub msg: Seq<char>,
}

/// Information about a check failure.
///
/// Each enabled check can produce any number of failures per file.
#[derive(Debug)]
pub struct CheckError {
    /// Path to the file that failed a check.
    path: String,
    /// Line inside the file where the failure occurred (0-based!).
    line: usize,
    /// Column in the line where the failure occurred.  This might not make
    /// sense; in that case it is set to 0.
    column: usize,
    /// Message describing what went wrong.
    msg: String,
}

impl View for CheckError {
    type V = CheckErrorView;

    closed spec fn view(&self) -> CheckErrorView {
        CheckErrorView {
            path: self.path@,
            line: self.line as int,
            column: self.column as int,
            msg: self.msg@,
        }
    }
}

/// The views of a sequence of check errors, in order.
pub open spec fn errors_view(v: Seq<CheckError>) -> Seq<CheckErrorView> {
    v.map_values(|e: CheckError| e@)
}

/// How a check error is rendered for the user: positions are shown 1-based.
pub open spec fn spec_render(e: CheckErrorView) -> Seq<char> {
    "error at "@ + e.path + ":"@ + dec_seq((e.line + 1) as nat) + ":"@ + dec_seq(
        (e.column + 1) as nat,
    ) + ": "@ + e.msg
}

impl CheckError {
    /// Path to the file that failed a check.
    pub fn path(&self) -> (r: &String)
        ensures
            r@ == self@.path,
    {
        &self.path
    }

    /// Line inside the file where the failure occurred (0-based).
    pub fn line(&self) -> (r: usize)
        ensures
            r as int == self@.line,
    {
        self.line
    }

    /// Column where the failure occurred (0-based; 0 also stands for "not
    /// applicable").
    pub fn column(&self) -> (r: usize)
        ensures
            r as int == self@.column,
    {
        self.column
    }

    /// Message describing what went wrong.
    pub fn msg(&self) -> (r: &String)
        ensures
            r@ == self@.msg,
    {
        &self.msg
    }

    /// Renders the error as `error at path:line:column: message`, with the
    /// line and the column shown 1-based.
    pub fn render(&self) -> (r: String)
        ensures
            r@ == spec_render(self@),
    {
        let mut s = String::from_str("error at ");
        s.append(self.path.as_str());
        s.append(":");
        s.append(u128_to_dec(self.line as u128 + 1).as_str());
        s.append(":");
        s.append(u128_to_dec(self.column as u128 + 1).as_str());
        s.append(": ");
        s.append(self.msg.as_str());
        proof {
            assert(s@ =~= spec_render(self@));
        }
        s
    }
}

/// Splits `s` into lines.  Every `'\n'` ends a line and stays part of it; a
/// last line without a terminator is kept as it is; the empty sequence has
/// no lines.  `cur` is the part of the current line read so far.
pub open spec fn split_acc(s: Seq<char>, cur: Seq<char>) -> Seq<Seq<char>>
    decreases s.len(),
{
    if s.len() == 0 {
        if cur.len() == 0 {
            Seq::empty()
        } else {
            seq![cur]
        }
    } else if s.first() == '\n' {
        seq![cur.push('\n')] + split_acc(s.drop_first(), Seq::empty())
    } else {
        split_acc(s.drop_first(), cur.push(s.first()))
    }
}

/// The lines of `content` with their line endings preserved.
pub open spec fn lines_keep(content: Seq<char>) -> Seq<Seq<char>> {
    split_acc(content, Seq::empty())
}

/// Removes the line terminator from one line: a trailing `'\n'` is dropped,
/// and a `'\r'` directly before that `'\n'` is dropped with it.
pub open spec fn strip_ending(l: Seq<char>) -> Seq<char> {
    if l.len() > 0 && l.last() == '\n' {
        let t = l.drop_last();
        if t.len() > 0 && t.last() == '\r' {
            t.drop_last()
        } else {
            t
        }
    } else {
        l
    }
}

/// The lines of `content` with their line endings removed.
pub open spec fn lines_bare(content: Seq<char>) -> Seq<Seq<char>> {
    lines_keep(content).map_values(|l: Seq<char>| strip_ending(l))
}

/// Splits file content into the two aligned line views: lines with their
/// endings preserved, and the same lines with the endings removed.
pub fn split_lines(content: &str) -> (r: (Vec<String>, Vec<String>))
    ensures
        r.0.deep_view() == lines_keep(content@),
        r.1.deep_view() == lines_bare(content@),
        r.0.len() == r.1.len(),
{
    let ghost s = content@;
    let chars = str_to_chars(content);
    let n = chars.len();
    let mut keep: Vec<String> = Vec::new();
    let mut bare: Vec<String> = Vec::new();
    let mut start: usize = 0;
    let mut i: usize = 0;
    proof {
        assert(s.skip(0) =~= s);
        assert(s.subrange(0, 0) =~= Seq::<char>::empty());
        assert(keep.deep_view() =~= Seq::<Seq<char>>::empty());
        assert(bare.deep_view() =~= Seq::<Seq<char>>::empty());
        assert(keep.deep_view() + split_acc(s, Seq::<char>::empty()) =~= lines_keep(s));
        assert(bare.deep_view() =~= keep.deep_view().map_values(|l: Seq<char>| strip_ending(l)));
    }
    while i < n
        invariant
            start <= i <= n,
            n == s.len(),
            chars@ == s,
            s == content@,
            keep.len() == bare.len(),
            lines_keep(s) == keep.deep_view() + split_acc(
                s.skip(i as int),
                s.subrange(start as int, i as int),
            ),
            bare.deep_view() == keep.deep_view().map_values(|l: Seq<char>| strip_ending(l)),
            forall|k: int| start <= k < i ==> s[k] != '\n',
        decreases n - i,
    {
        let ghost cur = s.subrange(start as int, i as int);
        let ghost keep_dv = keep.deep_view();
        let ghost bare_dv = bare.deep_view();
        proof {
            assert(s.skip(i as int).first() == s[i as int]);
            assert(s.skip(i as int).drop_first() =~= s.skip(i + 1));
        }
        if chars[i] == '\n' {
            let line = content.substring_char(start, i + 1);
            let line_string = String::from_str(line);
            let bare_end = if i > start && chars[i - 1] == '\r' {
                i - 1
            } else {
                i
            };
            let bare_line = content.substring_char(start, bare_end);
            let bare_string = String::from_str(bare_line);
            proof {
                assert(cur.push('\n') =~= s.subrange(start as int, i + 1));
                assert(strip_ending(s.subrange(start as int, i + 1)) == s.subrange(
                    start as int,
                    bare_end as int,
                )) by {
                    assert(s.subrange(start as int, i + 1).last() == '\n');
                    assert(s.subrange(start as int, i + 1).drop_last() =~= cur);
                    if i > start && s[i - 1] == '\r' {
                        assert(cur.last() == '\r');
                        assert(cur.drop_last() =~= s.subrange(start as int, i - 1));
                    } else {
                        if cur.len() > 0 {
                            assert(cur.last() == s[i - 1]);
                        }
                    }
                }
            }
            keep.push(line_string);
            bare.push(bare_string);
            start = i + 1;
            proof {
                assert(keep.deep_view() =~= keep_dv.push(cur.push('\n')));
                assert(bare.deep_view() =~= bare_dv.push(bare_string@));
                // One unfolding of split_acc at the newline.
                assert(split_acc(s.skip(i as int), cur) == seq![cur.push('\n')] + split_acc(
                    s.skip(i + 1),
                    Seq::<char>::empty(),
                ));
                assert(keep_dv + split_acc(s.skip(i as int), cur) =~= keep.deep_view()
                    + split_acc(s.skip(i + 1), Seq::<char>::empty()));
                assert(s.subrange(i + 1, i + 1) =~= Seq::<char>::empty());
                assert(bare.deep_view() =~= keep.deep_view().map_values(
                    |l: Seq<char>| strip_ending(l),
                ));
            }
        } else {
            proof {
                assert(cur.push(s[i as int]) =~= s.subrange(start as int, i + 1));
                assert(split_acc(s.skip(i as int), cur) == split_acc(
                    s.skip(i + 1),
                    s.subrange(start as int, i + 1),
                ));
            }
        }
        i += 1;
    }
    proof {
        assert(s.skip(n as int) =~= Seq::<char>::empty());
    }
    let ghost keep_dv = keep.deep_view();
    let ghost bare_dv = bare.deep_view();
    if start < n {
        let line = content.substring_char(start, n);
        let line_string = String::from_str(line);
        let ghost cur = s.subrange(start as int, n as int);
        proof {
            assert(cur.len() > 0);
            assert(split_acc(s.skip(n as int), cur) =~= seq![cur]);
            assert(strip_ending(cur) == cur) by {
                assert(cur.last() == s[n - 1]);
            }
        }
        keep.push(line_string.clone());
        bare.push(line_string);
        proof {
            assert(keep.deep_view() =~= keep_dv.push(cur));
            assert(bare.deep_view() =~= bare_dv.push(cur));
            assert(keep_dv + seq![cur] =~= keep.deep_view());
            assert(bare.deep_view() =~= keep.deep_view().map_values(
                |l: Seq<char>| strip_ending(l),
            ));
        }
    } else {
        proof {
            assert(s.subrange(start as int, n as int) =~= Seq::<char>::empty());
            assert(split_acc(s.skip(n as int), Seq::<char>::empty())
                =~= Seq::<Seq<char>>::empty());
        }
    }
    proof {
        assert(lines_keep(s) =~= keep.deep_view());
        assert(lines_bare(s) =~= bare.deep_view());
    }
    (keep, bare)
}

/// The `TidyContext` holds information about a check performed on a file.
/// It is handed to all checks and simplifies error construction.
pub struct TidyContext {
    /// Relative path to the file being checked.
    pub path: String,
    /// The complete content of the file to-be-checked.
    pub content: String,
    /// The file's contents split into lines.  Note that, unlike the bare
    /// view, this preserves the line ending found at the end of all lines
    /// (except possibly the last).
    pub lines_with_endings: Vec<String>,
    /// The same lines with their line endings removed, used by the
    /// character-counting checks.
    pub lines_without_endings: Vec<String>,
    /// The errors recorded so far.  Filled through [`TidyContext::error`];
    /// drained by the engine once the file's checks are done.
    pub errors: Vec<CheckError>,
}

impl TidyContext {
    /// The line views belong to the content.
    pub open spec fn wf(self) -> bool {
        &&& self.lines_with_endings.deep_view() == lines_keep(self.content@)
        &&& self.lines_without_endings.deep_view() == lines_bare(self.content@)
    }

    /// The errors recorded so far, in order.
    pub open spec fn spec_errors(self) -> Seq<CheckErrorView> {
        errors_view(self.errors@)
    }

    /// Builds the context for one file: both line views and an empty error
    /// buffer.
    pub fn new(path: String, content: String) -> (cx: TidyContext)
        ensures
            cx.path == path,
            cx.content == content,
            cx.wf(),
            cx.spec_errors() == Seq::<CheckErrorView>::empty(),
    {
        let (keep, bare) = split_lines(content.as_str());
        let cx = TidyContext {
            path,
            content,
            lines_with_endings: keep,
            lines_without_endings: bare,
            errors: Vec::new(),
        };
        proof {
            assert(cx.spec_errors() =~= Seq::<CheckErrorView>::empty());
        }
        cx
    }

    /// Pushes a new error into the error buffer of this context.
    pub fn error(&mut self, pos: (usize, usize), msg: String)
        ensures
            final(self).path == old(self).path,
            final(self).content == old(self).content,
            final(self).lines_with_endings == old(self).lines_with_endings,
            final(self).lines_without_endings == old(self).lines_without_endings,
            final(self).spec_errors() == old(self).spec_errors().push(
                CheckErrorView {
                    path: old(self).path@,
                    line: pos.0 as int,
                    column: pos.1 as int,
                    msg: msg@,
                },
            ),
    {
        let e = CheckError { path: self.path.clone(), line: pos.0, column: pos.1, msg };
        self.errors.push(e);
        proof {
            assert(final(self).spec_errors() =~= old(self).spec_errors().push(e@));
        }
    }
}

/// Mathematical image of a [`SourceFile`].
#[verifier::ext_equal]
pub ghost struct SourceFileView {
    pub path: Seq<char>,
    pub content: Seq<char>,
}

/// One file handed to the engine: its path and its full content.
pub struct SourceFile {
    /// Relative path of the file, used in reported errors.
    pub path: String,
    /// The file's complete content.
    pub content: String,
}

impl View for SourceFile {
    type V = SourceFileView;

    open spec fn view(&self) -> SourceFileView {
        SourceFileView { path: self.path@, content: self.content@ }
    }
}

/// The views of a sequence of source files, in order.
pub open spec fn files_view(fs: Seq<SourceFile>) -> Seq<SourceFileView> {
    fs.map_values(|f: SourceFile| f@)
}

/// All errors the three checks report for one file, in check order:
/// maximum line length first, then forbidden content, then indentation.
pub open spec fn file_errors(
    path: Seq<char>,
    content: Seq<char>,
    max: u64,
    patterns: Seq<Seq<char>>,
    style: Option<IndentationStyle>,
) -> Seq<CheckErrorView> {
    max_len_errors(path, lines_bare(content), max) + forbidden_errors(
        path,
        patterns,
        lines_keep(content),
    ) + indent_errors(path, lines_bare(content), style)
}

/// All errors of a run, in file order.
pub open spec fn run_errors(
    max: u64,
    patterns: Seq<Seq<char>>,
    style: Option<IndentationStyle>,
    files: Seq<SourceFileView>,
) -> Seq<CheckErrorView>
    decreases files.len(),
{
    if files.len() == 0 {
        Seq::empty()
    } else {
        run_errors(max, patterns, style, files.drop_last()) + file_errors(
            files.last().path,
            files.last().content,
            max,
            patterns,
            style,
        )
    }
}

/// Runs the three checks, in their fixed order, over one file's content.
/// Returns `Ok` exactly when no check reported an error, and otherwise the
/// full error list in emission order.
pub fn run_all_checks_on(config: &Config, path: String, content: String) -> (r: Result<
    (),
    Vec<CheckError>,
>)
    requires
        config.wf(),
    ensures
        ({
            let errs = file_errors(
                path@,
                content@,
                config.max_line_length,
                config.forbidden_sources.deep_view(),
                config.indentation_style,
            );
            match r {
                Ok(_) => errs.len() == 0,
                Err(v) => errors_view(v@) == errs && errs.len() > 0,
            }
        }),
{
    let mut cx = TidyContext::new(path, content);
    max_line_length::check(config, &mut cx);
    forbidden_content::check(config, &mut cx);
    indentation_style::check(config, &mut cx);
    proof {
        assert(cx.spec_errors() =~= file_errors(
            cx.path@,
            cx.content@,
            config.max_line_length,
            config.forbidden_sources.deep_view(),
            config.indentation_style,
        ));
    }
    if cx.errors.is_empty() {
        Ok(())
    } else {
        Err(cx.errors)
    }
}

/// Runs the checks over every given file, in order.  The result is `Ok`
/// exactly when no file produced an error; otherwise all errors are
/// returned, ordered by file, then by check, then by emission.
pub fn run_checks(config: &Config, files: &Vec<SourceFile>) -> (r: Result<(), Vec<CheckError>>)
    requires
        config.wf(),
    ensures
        ({
            let errs = run_errors(
                config.max_line_length,
                config.forbidden_sources.deep_view(),
                config.indentation_style,
                files_view(files@),
            );
            match r {
                Ok(_) => errs.len() == 0,
                Err(v) => errors_view(v@) == errs && errs.len() > 0,
            }
        }),
{
    let ghost fv = files_view(files@);
    let mut all: Vec<CheckError> = Vec::new();
    let n = files.len();
    let mut i: usize = 0;
    proof {
        assert(fv.take(0) =~= Seq::<SourceFileView>::empty());
        assert(errors_view(all@) =~= Seq::<CheckErrorView>::empty());
    }
    while i < n
        invariant
            0 <= i <= n,
            config.wf(),
            n == files.len(),
            fv == files_view(files@),
            errors_view(all@) == run_errors(
                config.max_line_length,
                config.forbidden_sources.deep_view(),
                config.indentation_style,
                fv.take(i as int),
            ),
        decreases n - i,
    {
        let ghost pre = errors_view(all@);
        proof {
            assert(fv[i as int] == files@[i as int]@);
            assert(fv.take(i + 1).drop_last() =~= fv.take(i as int));
            assert(fv.take(i + 1).last() == fv[i as int]);
        }
        let path = files[i].path.clone();
        let content = files[i].content.clone();
        match run_all_checks_on(config, path, content) {
            Ok(_) => {
                proof {
                    assert(errors_view(all@) =~= pre + file_errors(
                        fv[i as int].path,
                        fv[i as int].content,
                        config.max_line_length,
                        config.forbidden_sources.deep_view(),
                        config.indentation_style,
                    ));
                }
            },
            Err(mut errs) => {
                let ghost got = errors_view(errs@);
                all.append(&mut errs);
                proof {
                    assert(errors_view(all@) =~= pre + got);
                }
            },
        }
        i += 1;
    }
    proof {
        assert(fv.take(n as int) =~= fv);
    }
    if all.is_empty() {
        Ok(())
    } else {
        Err(all)
    }
}

/// Whether `path` matches at least one of the exclusion patterns with the
/// given sources.
pub open spec fn spec_excluded(path: Seq<char>, excl: Seq<Seq<char>>) -> bool {
    exists|j: int| 0 <= j < excl.len() && pattern_matches(excl[j], path)
}

/// The candidate lists of every selection pattern, joined in pattern
/// order.
pub open spec fn flat_cands(c: Seq<Seq<Seq<char>>>) -> Seq<Seq<char>>
    decreases c.len(),
{
    if c.len() == 0 {
        Seq::empty()
    } else {
        flat_cands(c.drop_last()) + c.last()
    }
}

/// Walks the joined candidate list in order, keeping each path that is not
/// excluded and not already kept.  `acc` is the list kept so far.
pub open spec fn select_from(cands: Seq<Seq<char>>, excl: Seq<Seq<char>>, acc: Seq<Seq<char>>) -> Seq<
    Seq<char>,
>
    decreases cands.len(),
{
    if cands.len() == 0 {
        acc
    } else {
        let p = cands.first();
        let acc2 = if !spec_excluded(p, excl) && !acc.contains(p) {
            acc.push(p)
        } else {
            acc
        };
        select_from(cands.drop_first(), excl, acc2)
    }
}

/// The files a run checks: the candidates of every selection pattern in
/// order, each path kept once, and every path matching an exclusion
/// pattern dropped.
pub open spec fn spec_select(excl: Seq<Seq<char>>, cands: Seq<Seq<Seq<char>>>) -> Seq<Seq<char>> {
    select_from(flat_cands(cands), excl, Seq::empty())
}

fn is_excluded(config: &Config, path: &String) -> (r: bool)
    ensures
        r == spec_excluded(path@, pattern_sources(config.exclusions@)),
{
    let ghost excl = pattern_sources(config.exclusions@);
    let n = config.exclusions.len();
    let mut j: usize = 0;
    while j < n
        invariant
            0 <= j <= n,
            n == config.exclusions.len(),
            excl == pattern_sources(config.exclusions@),
            forall|t: int| 0 <= t < j ==> !pattern_matches(excl[t], path@),
        decreases n - j,
    {
        proof {
            assert(excl[j as int] == crate::globs::pattern_source(config.exclusions@[j as int]));
        }
        if pattern_match(&config.exclusions[j], path.as_str()) {
            return true;
        }
        j += 1;
    }
    false
}

fn contains_string(v: &Vec<String>, s: &String) -> (r: bool)
    ensures
        r == v.deep_view().contains(s@),
{
    let n = v.len();
    let mut j: usize = 0;
    while j < n
        invariant
            0 <= j <= n,
            n == v.len(),
            forall|t: int| 0 <= t < j ==> v.deep_view()[t] != s@,
        decreases n - j,
    {
        proof {
            assert(v.deep_view()[j as int] == v@[j as int]@);
        }
        if v[j] == *s {
            proof {
                assert(v.deep_view().contains(s@));
            }
            return true;
        }
        j += 1;
    }
    proof {
        assert(!v.deep_view().contains(s@)) by {
            if v.deep_view().contains(s@) {
                let t = choose|t: int| 0 <= t < v.deep_view().len() && v.deep_view()[t] == s@;
                assert(v.deep_view()[t] != s@);
            }
        }
    }
    false
}

/// Selects the files to check.  `candidates` holds, for each selection
/// pattern in order, the paths that pattern matched during the walk.  The
/// result keeps walk order, drops every path matching an exclusion
/// pattern, and keeps each path only once.
pub fn select_files(config: &Config, candidates: &Vec<Vec<String>>) -> (r: Vec<String>)
    ensures
        r.deep_view() == spec_select(pattern_sources(config.exclusions@), candidates.deep_view()),
{
    let ghost excl = pattern_sources(config.exclusions@);
    let ghost cdv = candidates.deep_view();
    let mut flat: Vec<String> = Vec::new();
    let no = candidates.len();
    let mut io: usize = 0;
    proof {
        assert(cdv.take(0) =~= Seq::<Seq<Seq<char>>>::empty());
        assert(flat.deep_view() =~= flat_cands(cdv.take(0)));
    }
    while io < no
        invariant
            0 <= io <= no,
            no == candidates.len(),
            cdv == candidates.deep_view(),
            flat.deep_view() == flat_cands(cdv.take(io as int)),
        decreases no - io,
    {
        let ghost base = flat.deep_view();
        proof {
            assert(cdv[io as int] == candidates@[io as int].deep_view());
        }
        let ni = candidates[io].len();
        let mut ii: usize = 0;
        proof {
            assert(cdv[io as int].take(0) =~= Seq::<Seq<char>>::empty());
            assert(flat.deep_view() =~= base + cdv[io as int].take(0));
        }
        while ii < ni
            invariant
                0 <= ii <= ni,
                0 <= io < no,
                no == candidates.len(),
                cdv == candidates.deep_view(),
                ni == candidates@[io as int].len(),
                base == flat_cands(cdv.take(io as int)),
                flat.deep_view() == base + cdv[io as int].take(ii as int),
            decreases ni - ii,
        {
            let ghost fdv = flat.deep_view();
            proof {
                assert(cdv[io as int][ii as int] == candidates@[io as int]@[ii as int]@);
            }
            flat.push(candidates[io][ii].clone());
            proof {
                assert(flat.deep_view() =~= fdv.push(cdv[io as int][ii as int]));
                assert(cdv[io as int].take(ii + 1) =~= cdv[io as int].take(ii as int).push(
                    cdv[io as int][ii as int],
                ));
                assert(flat.deep_view() =~= base + cdv[io as int].take(ii + 1));
            }
            ii += 1;
        }
        proof {
            assert(cdv[io as int].take(ni as int) =~= cdv[io as int]);
            assert(cdv.take(io + 1).drop_last() =~= cdv.take(io as int));
            assert(cdv.take(io + 1).last() == cdv[io as int]);
            assert(flat.deep_view() =~= flat_cands(cdv.take(io + 1)));
        }
        io += 1;
    }
    proof {
        assert(cdv.take(no as int) =~= cdv);
    }
    let ghost fdv = flat.deep_view();
    let mut out: Vec<String> = Vec::new();
    let nf = flat.len();
    let mut k: usize = 0;
    proof {
        assert(fdv.skip(0) =~= fdv);
        assert(out.deep_view() =~= Seq::<Seq<char>>::empty());
    }
    while k < nf
        invariant
            0 <= k <= nf,
            nf == flat.len(),
            fdv == flat.deep_view(),
            excl == pattern_sources(config.exclusions@),
            select_from(fdv.skip(k as int), excl, out.deep_view()) == spec_select(excl, cdv),
        decreases nf - k,
    {
        let ghost odv = out.deep_view();
        proof {
            assert(fdv[k as int] == flat@[k as int]@);
            assert(fdv.skip(k as int).first() == fdv[k as int]);
            assert(fdv.skip(k as int).drop_first() =~= fdv.skip(k + 1));
        }
        let p = &flat[k];
        let excluded = is_excluded(config, p);
        let seen = contains_string(&out, p);
        if !excluded && !seen {
            out.push(p.clone());
            proof {
                assert(out.deep_view() =~= odv.push(fdv[k as int]));
            }
        }
        k += 1;
    }
    proof {
        assert(fdv.skip(nf as int) =~= Seq::<Seq<char>>::empty());
    }
    out
}

/// How many of the errors name line `lineno`.
pub open spec fn count_errors_at(errs: Seq<CheckErrorView>, lineno: int) -> int
    decreases errs.len(),
{
    if errs.len() == 0 {
        0
    } else {
        count_errors_at(errs.drop_last(), lineno) + if errs.last().line == lineno {
            1int
        } else {
            0int
        }
    }
}

/// Counting errors on a line distributes over concatenation.
pub proof fn lemma_count_errors_at_add(a: Seq<CheckErrorView>, b: Seq<CheckErrorView>, lineno: int)
    ensures
        count_errors_at(a + b, lineno) == count_errors_at(a, lineno) + count_errors_at(b, lineno),
    decreases b.len(),
{
    if b.len() == 0 {
        assert(a + b =~= a);
    } else {
        assert((a + b).drop_last() =~= a + b.drop_last());
        assert((a + b).last() == b.last());
        lemma_count_errors_at_add(a, b.drop_last(), lineno);
    }
}

/// A list of errors that never names `lineno` counts zero errors there.
pub proof fn lemma_count_errors_at_none(errs: Seq<CheckErrorView>, lineno: int)
    requires
        forall|k: int| 0 <= k < errs.len() ==> (#[trigger] errs[k]).line != lineno,
    ensures
        count_errors_at(errs, lineno) == 0,
    decreases errs.len(),
{
    if errs.len() > 0 {
        assert(errs.last().line != lineno);
        assert forall|k: int| 0 <= k < errs.drop_last().len() implies (#[trigger] errs.drop_last()[k]).line
            != lineno by {
            assert(errs.drop_last()[k] == errs[k]);
        }
        lemma_count_errors_at_none(errs.drop_last(), lineno);
    }
}

/// Running the engine twice over an unchanged configuration and file set
/// produces identical error lists, and identical rendered lines: the
/// outcome is a function of the inputs alone.
pub proof fn lemma_runs_identical(
    max: u64,
    patterns: Seq<Seq<char>>,
    style: Option<IndentationStyle>,
    files_a: Seq<SourceFileView>,
    files_b: Seq<SourceFileView>,
)
    requires
        files_a == files_b,
    ensures
        run_errors(max, patterns, style, files_a) == run_errors(max, patterns, style, files_b),
        forall|k: int|
            0 <= k < run_errors(max, patterns, style, files_a).len() ==> spec_render(
                #[trigger] run_errors(max, patterns, style, files_a)[k],
            ) == spec_render(run_errors(max, patterns, style, files_b)[k]),
{
}

proof fn lemma_select_from_excluded(
    cands: Seq<Seq<char>>,
    excl: Seq<Seq<char>>,
    acc: Seq<Seq<char>>,
    p: Seq<char>,
)
    requires
        spec_excluded(p, excl),
        !acc.contains(p),
    ensures
        !select_from(cands, excl, acc).contains(p),
    decreases cands.len(),
{
    if cands.len() == 0 {
    } else {
        let q = cands.first();
        let acc2 = if !spec_excluded(q, excl) && !acc.contains(q) {
            acc.push(q)
        } else {
            acc
        };
        assert(!acc2.contains(p)) by {
            if !spec_excluded(q, excl) && !acc.contains(q) {
                assert(q != p);
                if acc.push(q).contains(p) {
                    let t = choose|t: int|
                        0 <= t < acc.push(q).len() && acc.push(q)[t] == p;
                    if t < acc.len() {
                        assert(acc[t] == p);
                        assert(acc.contains(p));
                    }
                }
            }
        }
        lemma_select_from_excluded(cands.drop_first(), excl, acc2, p);
    }
}

/// A path matching an exclusion pattern is never selected, whatever
/// selection patterns also match it.
pub proof fn lemma_exclusion_wins(excl: Seq<Seq<char>>, cands: Seq<Seq<Seq<char>>>, p: Seq<char>)
    requires
        spec_excluded(p, excl),
    ensures
        !spec_select(excl, cands).contains(p),
{
    assert(!Seq::<Seq<char>>::empty().contains(p)) by {
        if Seq::<Seq<char>>::empty().contains(p) {
            let t = choose|t: int|
                0 <= t < Seq::<Seq<char>>::empty().len() && Seq::<Seq<char>>::empty()[t] == p;
        }
    }
    lemma_select_from_excluded(flat_cands(cands), excl, Seq::empty(), p);
}

/// A file with no content has no lines in either view, and none of the
/// three checks reports an error for it.
pub proof fn lemma_empty_file_no_errors(
    path: Seq<char>,
    max: u64,
    patterns: Seq<Seq<char>>,
    style: Option<IndentationStyle>,
)
    ensures
        lines_keep(Seq::<char>::empty()).len() == 0,
        lines_bare(Seq::<char>::empty()).len() == 0,
        file_errors(path, Seq::<char>::empty(), max, patterns, style) == Seq::<
            CheckErrorView,
        >::empty(),
{
    assert(lines_keep(Seq::<char>::empty()) =~= Seq::<Seq<char>>::empty());
    assert(lines_bare(Seq::<char>::empty()) =~= Seq::<Seq<char>>::empty());
    assert(file_errors(path, Seq::<char>::empty(), max, patterns, style) =~= Seq::<
        CheckErrorView,
    >::empty());
}

} // verus!
