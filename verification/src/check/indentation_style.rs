//! The indentation-style check and the `IndentationStyle` configuration
//! value with its small parser.

use vstd::prelude::*;
use vstd::string::StrSliceExecFns;
use vstd::string::StringExecFns;

use crate::check::CheckErrorView;
use crate::check::TidyContext;
use crate::config::Config;
use crate::text::dec_seq;
use crate::text::is_ws;
use crate::text::is_whitespace_char;
use crate::text::str_to_chars;
use crate::text::u128_to_dec;

verus! {

/// Kind of character used for indentation.
#[derive(Clone, Copy, Debug, PartialEq, Eq, Structural)]
pub enum IndentKind {
    Tabs,
    Spaces,
}

impl IndentKind {
    /// The character this indentation kind consists of.
    pub open spec fn spec_char(self) -> char {
        match self {
            IndentKind::Tabs => '\t',
            IndentKind::Spaces => ' ',
        }
    }

    /// The other indentation kind.
    pub open spec fn spec_other(self) -> IndentKind {
        match self {
            IndentKind::Tabs => IndentKind::Spaces,
            IndentKind::Spaces => IndentKind::Tabs,
        }
    }

    /// The name of this kind as shown in messages.
    pub open spec fn spec_name(self) -> Seq<char> {
        match self {
            IndentKind::Tabs => "Tabs"@,
            IndentKind::Spaces => "Spaces"@,
        }
    }

    /// The character this indentation kind consists of.
    pub fn as_char(&self) -> (c: char)
        ensures
            c == self.spec_char(),
    {
        match *self {
            IndentKind::Tabs => '\t',
            IndentKind::Spaces => ' ',
        }
    }

    /// The other indentation kind.
    pub fn other(&self) -> (r: IndentKind)
        ensures
            r == self.spec_other(),
    {
        match *self {
            IndentKind::Tabs => IndentKind::Spaces,
            IndentKind::Spaces => IndentKind::Tabs,
        }
    }

    /// The name of this kind as shown in messages.
    pub fn name(&self) -> (r: &'static str)
        ensures
            r@ == self.spec_name(),
    {
        match *self {
            IndentKind::Tabs => "Tabs",
            IndentKind::Spaces => "Spaces",
        }
    }
}

/// Describes an indentation style.
///
/// Indentation is done with `indent_amount` repetitions of an
/// [`IndentKind`].  To allow any number of indentation characters,
/// `indent_amount` can be set to 1.  A valid style always has
/// `indent_amount >= 1`.
#[derive(Clone, Copy, Debug, PartialEq, Eq, Structural)]
pub struct IndentationStyle {
    pub indent_kind: IndentKind,
    pub indent_amount: u64,
}

/// Splits `s` into its maximal runs of non-whitespace characters, in order.
/// `cur` is the part of the current word read so far.
pub open spec fn ws_tokens_acc(s: Seq<char>, cur: Seq<char>) -> Seq<Seq<char>>
    decreases s.len(),
{
    if s.len() == 0 {
        if cur.len() == 0 {
            Seq::empty()
        } else {
            seq![cur]
        }
    } else if is_ws(s.first()) {
        (if cur.len() == 0 {
            Seq::empty()
        } else {
            seq![cur]
        }) + ws_tokens_acc(s.drop_first(), Seq::empty())
    } else {
        ws_tokens_acc(s.drop_first(), cur.push(s.first()))
    }
}

/// The whitespace-separated words of `s`, in order.
pub open spec fn ws_tokens(s: Seq<char>) -> Seq<Seq<char>> {
    ws_tokens_acc(s, Seq::empty())
}

/// Splits `s` into its whitespace-separated words.
pub fn split_ws_tokens(s: &str) -> (r: Vec<String>)
    ensures
        r.deep_view() == ws_tokens(s@),
{
    let ghost sq = s@;
    let chars = str_to_chars(s);
    let n = chars.len();
    let mut toks: Vec<String> = Vec::new();
    let mut start: usize = 0;
    let mut i: usize = 0;
    proof {
        assert(sq.skip(0) =~= sq);
        assert(sq.subrange(0, 0) =~= Seq::<char>::empty());
        assert(toks.deep_view() =~= Seq::<Seq<char>>::empty());
        assert(toks.deep_view() + ws_tokens_acc(sq, Seq::<char>::empty()) =~= ws_tokens(sq));
    }
    while i < n
        invariant
            start <= i <= n,
            n == sq.len(),
            chars@ == sq,
            sq == s@,
            ws_tokens(sq) == toks.deep_view() + ws_tokens_acc(
                sq.skip(i as int),
                sq.subrange(start as int, i as int),
            ),
        decreases n - i,
    {
        let ghost cur = sq.subrange(start as int, i as int);
        let ghost toks_dv = toks.deep_view();
        proof {
            assert(sq.skip(i as int).first() == sq[i as int]);
            assert(sq.skip(i as int).drop_first() =~= sq.skip(i + 1));
        }
        if is_whitespace_char(chars[i]) {
            if i > start {
                let tok = s.substring_char(start, i);
                toks.push(String::from_str(tok));
                proof {
                    assert(toks.deep_view() =~= toks_dv.push(cur));
                    assert(toks_dv + (seq![cur] + ws_tokens_acc(
                        sq.skip(i + 1),
                        Seq::<char>::empty(),
                    )) =~= toks.deep_view() + ws_tokens_acc(sq.skip(i + 1), Seq::<char>::empty()));
                }
            } else {
                proof {
                    assert(cur.len() == 0);
                    assert(toks_dv + (Seq::<Seq<char>>::empty() + ws_tokens_acc(
                        sq.skip(i + 1),
                        Seq::<char>::empty(),
                    )) =~= toks.deep_view() + ws_tokens_acc(sq.skip(i + 1), Seq::<char>::empty()));
                }
            }
            start = i + 1;
            proof {
                assert(sq.subrange(i + 1, i + 1) =~= Seq::<char>::empty());
            }
        } else {
            proof {
                assert(cur.push(sq[i as int]) =~= sq.subrange(start as int, i + 1));
            }
        }
        i += 1;
    }
    proof {
        assert(sq.skip(n as int) =~= Seq::<char>::empty());
    }
    if start < n {
        let tok = s.substring_char(start, n);
        let ghost cur = sq.subrange(start as int, n as int);
        let ghost toks_dv = toks.deep_view();
        toks.push(String::from_str(tok));
        proof {
            assert(cur.len() > 0);
            assert(toks.deep_view() =~= toks_dv.push(cur));
            assert(toks_dv + ws_tokens_acc(sq.skip(n as int), cur) =~= toks.deep_view());
        }
    } else {
        proof {
            assert(sq.subrange(start as int, n as int) =~= Seq::<char>::empty());
            assert(ws_tokens_acc(sq.skip(n as int), Seq::<char>::empty())
                =~= Seq::<Seq<char>>::empty());
            assert(toks.deep_view() + Seq::<Seq<char>>::empty() =~= toks.deep_view());
        }
    }
    toks
}

/// Whether `c` is a decimal digit.
pub open spec fn is_digit(c: char) -> bool {
    0x30 <= (c as u32) && (c as u32) <= 0x39
}

/// The numeric value of a digit character.
pub open spec fn digit_val(c: char) -> int {
    (c as u32) - 0x30
}

/// Whether every character of `s` is a decimal digit.
pub open spec fn all_digits(s: Seq<char>) -> bool {
    forall|k: int| 0 <= k < s.len() ==> is_digit(s[k])
}

/// The numeric value of a digit sequence, most significant digit first.
pub open spec fn dec_val(s: Seq<char>) -> int
    decreases s.len(),
{
    if s.len() == 0 {
        0
    } else {
        dec_val(s.drop_last()) * 10 + digit_val(s.last())
    }
}

/// What parsing an unsigned decimal number accepts: a non-empty digit
/// string whose value fits in a `u64`.
pub open spec fn parse_u64(s: Seq<char>) -> Option<u64> {
    if s.len() > 0 && all_digits(s) && dec_val(s) <= u64::MAX {
        Some(dec_val(s) as u64)
    } else {
        None
    }
}

proof fn lemma_dec_val_nonneg(s: Seq<char>)
    requires
        all_digits(s),
    ensures
        dec_val(s) >= 0,
    decreases s.len(),
{
    if s.len() > 0 {
        assert(forall|k: int| 0 <= k < s.drop_last().len() ==> is_digit(#[trigger] s.drop_last()[k]));
        lemma_dec_val_nonneg(s.drop_last());
    }
}

proof fn lemma_dec_val_prefix(s: Seq<char>, j: int)
    requires
        all_digits(s),
        0 <= j <= s.len(),
    ensures
        dec_val(s.take(j)) <= dec_val(s),
    decreases s.len() - j,
{
    if j == s.len() {
        assert(s.take(j) =~= s);
    } else {
        assert(forall|k: int| 0 <= k < s.drop_last().len() ==> is_digit(#[trigger] s.drop_last()[k]));
        assert(s.drop_last().take(j) =~= s.take(j));
        lemma_dec_val_prefix(s.drop_last(), j);
        lemma_dec_val_nonneg(s.drop_last());
        assert(dec_val(s) == dec_val(s.drop_last()) * 10 + digit_val(s.last()));
    }
}

/// Parses a non-empty string of decimal digits as a `u64`.  Returns `None`
/// for an empty string, a non-digit character, or a value that does not fit.
pub fn parse_u64_digits(s: &str) -> (r: Option<u64>)
    ensures
        r == parse_u64(s@),
{
    let chars = str_to_chars(s);
    let n = chars.len();
    if n == 0 {
        return None;
    }
    let mut acc: u64 = 0;
    let mut i: usize = 0;
    while i < n
        invariant
            0 <= i <= n,
            n == s@.len(),
            chars@ == s@,
            forall|k: int| 0 <= k < i ==> is_digit(s@[k]),
            acc as int == dec_val(s@.take(i as int)),
        decreases n - i,
    {
        let c = chars[i];
        let u = c as u32;
        if !(0x30 <= u && u <= 0x39) {
            proof {
                assert(!is_digit(s@[i as int]));
            }
            return None;
        }
        let d = (u - 0x30) as u64;
        proof {
            assert(s@.take(i + 1).drop_last() =~= s@.take(i as int));
            assert(s@.take(i + 1).last() == s@[i as int]);
        }
        if acc > (u64::MAX - d) / 10 {
            proof {
                let m = (u64::MAX - d) as int;
                assert(m == (m / 10) * 10 + m % 10);
                assert(acc as int * 10 + d as int > u64::MAX) by {
                    assert(acc as int >= m / 10 + 1);
                    assert(acc as int * 10 >= (m / 10 + 1) * 10);
                    assert((m / 10 + 1) * 10 == (m / 10) * 10 + 10);
                }
                assert(dec_val(s@.take(i + 1)) > u64::MAX);
                if all_digits(s@) {
                    lemma_dec_val_prefix(s@, i + 1);
                }
            }
            return None;
        }
        proof {
            let m = (u64::MAX - d) as int;
            assert(m == (m / 10) * 10 + m % 10);
            assert(acc as int * 10 + d as int <= u64::MAX) by {
                assert(acc as int <= m / 10);
                assert(acc as int * 10 <= (m / 10) * 10);
            }
        }
        acc = acc * 10 + d;
        i += 1;
    }
    proof {
        assert(s@.take(n as int) =~= s@);
    }
    Some(acc)
}

/// What kind a word of the style grammar names, accepting the singular and
/// the plural form.
pub open spec fn spec_kind_of(tok: Seq<char>) -> Option<IndentKind> {
    if tok == "tab"@ || tok == "tabs"@ {
        Some(IndentKind::Tabs)
    } else if tok == "space"@ || tok == "spaces"@ {
        Some(IndentKind::Spaces)
    } else {
        None
    }
}

/// The style grammar: `"N tab"`, `"N tabs"`, `"N space"`, `"N spaces"` with
/// `N >= 1`, or the bare words `"tabs"` / `"spaces"`, which set the amount
/// to 1.  Words may be separated by any whitespace.  Anything else is
/// rejected.
pub open spec fn spec_parse_style(s: Seq<char>) -> Option<IndentationStyle> {
    let ts = ws_tokens(s);
    if ts.len() == 2 {
        match (parse_u64(ts[0]), spec_kind_of(ts[1])) {
            (Some(n), Some(k)) => if n >= 1 {
                Some(IndentationStyle { indent_kind: k, indent_amount: n })
            } else {
                None
            },
            _ => None,
        }
    } else if ts.len() == 1 {
        if ts[0] == "tabs"@ {
            Some(IndentationStyle { indent_kind: IndentKind::Tabs, indent_amount: 1 })
        } else if ts[0] == "spaces"@ {
            Some(IndentationStyle { indent_kind: IndentKind::Spaces, indent_amount: 1 })
        } else {
            None
        }
    } else {
        None
    }
}

fn token_is(t: &String, lit: &str) -> (r: bool)
    ensures
        r == (t@ == lit@),
{
    let l = String::from_str(lit);
    *t == l
}

impl IndentationStyle {
    /// Parses an indentation style from its textual form, following
    /// [`spec_parse_style`].  A valid result always has
    /// `indent_amount >= 1`.
    pub fn from_str(s: &str) -> (r: Result<IndentationStyle, &'static str>)
        ensures
            match spec_parse_style(s@) {
                Some(st) => r == Ok::<IndentationStyle, &'static str>(st),
                None => r matches Err(m) && m@
                    == "invalid indentation style, expected a string like 'N tabs', 'N spaces', 'tabs' or 'spaces'"@,
            },
            r matches Ok(st) ==> st.indent_amount >= 1,
    {
        let toks = split_ws_tokens(s);
        let err: &'static str =
            "invalid indentation style, expected a string like 'N tabs', 'N spaces', 'tabs' or 'spaces'";
        if toks.len() == 2 {
            let number = match parse_u64_digits(toks[0].as_str()) {
                Some(num) => num,
                None => {
                    return Err(err);
                },
            };
            let kind = if token_is(&toks[1], "tab") || token_is(&toks[1], "tabs") {
                IndentKind::Tabs
            } else if token_is(&toks[1], "space") || token_is(&toks[1], "spaces") {
                IndentKind::Spaces
            } else {
                return Err(err);
            };
            if number >= 1 {
                Ok(IndentationStyle { indent_kind: kind, indent_amount: number })
            } else {
                Err(err)
            }
        } else if toks.len() == 1 {
            if token_is(&toks[0], "tabs") {
                Ok(IndentationStyle { indent_kind: IndentKind::Tabs, indent_amount: 1 })
            } else if token_is(&toks[0], "spaces") {
                Ok(IndentationStyle { indent_kind: IndentKind::Spaces, indent_amount: 1 })
            } else {
                Err(err)
            }
        } else {
            Err(err)
        }
    }
}

/// The position where the run of leading whitespace starting at `i` ends:
/// the first position at or after `i` whose character is not whitespace, or
/// the end of the line.
pub open spec fn ws_scan(line: Seq<char>, i: int) -> int
    decreases line.len() - i,
{
    if i < 0 || i >= line.len() || !is_ws(line[i]) {
        i
    } else {
        ws_scan(line, i + 1)
    }
}

/// The position where the run of characters equal to `c` starting at `i`
/// ends.
pub open spec fn run_scan(line: Seq<char>, c: char, i: int) -> int
    decreases line.len() - i,
{
    if i < 0 || i >= line.len() || line[i] != c {
        i
    } else {
        run_scan(line, c, i + 1)
    }
}

proof fn lemma_ws_scan_bounds(line: Seq<char>, i: int)
    requires
        0 <= i <= line.len(),
    ensures
        i <= ws_scan(line, i) <= line.len(),
    decreases line.len() - i,
{
    if i < line.len() && is_ws(line[i]) {
        lemma_ws_scan_bounds(line, i + 1);
    }
}

/// Whether the leading whitespace of `line` holds a character of the other,
/// non-configured indentation kind.
pub open spec fn has_wrong_kind(line: Seq<char>, kind: IndentKind) -> bool {
    exists|t: int| 0 <= t < ws_scan(line, 0) && line[t] == kind.spec_other().spec_char()
}

/// The length of the leading run of the configured kind's character.
pub open spec fn indent_run(line: Seq<char>, kind: IndentKind) -> int {
    run_scan(line, kind.spec_char(), 0)
}

/// The message reported when a line is indented with the wrong kind of
/// character.
pub open spec fn wrong_kind_msg(kind: IndentKind) -> Seq<char> {
    "line is indented with "@ + kind.spec_other().spec_name() + ", expected "@ + kind.spec_name()
}

/// The message reported when a line's indentation is not a multiple of the
/// configured amount.
pub open spec fn wrong_amount_msg(count: int, kind: IndentKind, amount: u64) -> Seq<char> {
    "line is indented with "@ + dec_seq(count as nat) + " "@ + kind.spec_name()
        + ", expected a multiple of "@ + dec_seq(amount as nat)
}

/// The errors of this check for a single line: at most one wrong-kind error
/// (column 0), then at most one wrong-amount error whose column is the run
/// length.
pub open spec fn indent_line_errors(
    path: Seq<char>,
    lineno: int,
    line: Seq<char>,
    st: IndentationStyle,
) -> Seq<CheckErrorView> {
    (if has_wrong_kind(line, st.indent_kind) {
        seq![
            CheckErrorView { path, line: lineno, column: 0, msg: wrong_kind_msg(st.indent_kind) },
        ]
    } else {
        Seq::empty()
    }) + (if indent_run(line, st.indent_kind) % (st.indent_amount as int) != 0 {
        seq![
            CheckErrorView {
                path,
                line: lineno,
                column: indent_run(line, st.indent_kind),
                msg: wrong_amount_msg(
                    indent_run(line, st.indent_kind),
                    st.indent_kind,
                    st.indent_amount,
                ),
            },
        ]
    } else {
        Seq::empty()
    })
}

/// The errors of this check for a whole file, in line order; empty when no
/// style is configured.  `lines` is the view without line endings.
pub open spec fn indent_errors(
    path: Seq<char>,
    lines: Seq<Seq<char>>,
    style: Option<IndentationStyle>,
) -> Seq<CheckErrorView>
    decreases lines.len(),
{
    match style {
        None => Seq::empty(),
        Some(st) => if lines.len() == 0 {
            Seq::empty()
        } else {
            indent_errors(path, lines.drop_last(), style) + indent_line_errors(
                path,
                lines.len() - 1,
                lines.last(),
                st,
            )
        },
    }
}

/// Checks every line's leading whitespace against the configured
/// indentation style.  Disabled entirely when no style is configured.
pub fn check(config: &Config, cx: &mut TidyContext)
    requires
        config.wf(),
    ensures
        final(cx).path == old(cx).path,
        final(cx).content == old(cx).content,
        final(cx).lines_with_endings == old(cx).lines_with_endings,
        final(cx).lines_without_endings == old(cx).lines_without_endings,
        final(cx).spec_errors() == old(cx).spec_errors() + indent_errors(
            old(cx).path@,
            old(cx).lines_without_endings.deep_view(),
            config.indentation_style,
        ),
{
    let style = match config.indentation_style {
        Some(st) => st,
        None => {
            proof {
                assert(old(cx).spec_errors() + indent_errors(
                    old(cx).path@,
                    old(cx).lines_without_endings.deep_view(),
                    config.indentation_style,
                ) =~= old(cx).spec_errors());
            }
            return ;
        },
    };
    let ghost path = cx.path@;
    let ghost dv = cx.lines_without_endings.deep_view();
    let kind_ch = style.indent_kind.as_char();
    let other_ch = style.indent_kind.other().as_char();
    let n = cx.lines_without_endings.len();
    let mut i: usize = 0;
    proof {
        assert(dv.take(0) =~= Seq::<Seq<char>>::empty());
        assert(old(cx).spec_errors() + indent_errors(path, dv.take(0), Some(style)) =~= old(
            cx,
        ).spec_errors());
    }
    while i < n
        invariant
            0 <= i <= n,
            config.wf(),
            config.indentation_style == Some(style),
            style.indent_amount >= 1,
            kind_ch == style.indent_kind.spec_char(),
            other_ch == style.indent_kind.spec_other().spec_char(),
            cx.path == old(cx).path,
            cx.content == old(cx).content,
            cx.lines_with_endings == old(cx).lines_with_endings,
            cx.lines_without_endings == old(cx).lines_without_endings,
            n == cx.lines_without_endings.len(),
            path == cx.path@,
            dv == cx.lines_without_endings.deep_view(),
            cx.spec_errors() == old(cx).spec_errors() + indent_errors(
                path,
                dv.take(i as int),
                Some(style),
            ),
        decreases n - i,
    {
        let ghost base = cx.spec_errors();
        let ghost line = dv[i as int];
        proof {
            assert(dv[i as int] == cx.lines_without_endings@[i as int]@);
        }
        let chars = str_to_chars(cx.lines_without_endings[i].as_str());
        let nl = chars.len();
        // Wrong-kind scan: walk the leading whitespace, stopping at the
        // first character of the other indentation kind.
        let mut j: usize = 0;
        while j < nl && is_whitespace_char(chars[j]) && chars[j] != other_ch
            invariant
                0 <= j <= nl,
                nl == line.len(),
                chars@ == line,
                other_ch == style.indent_kind.spec_other().spec_char(),
                ws_scan(line, 0) == ws_scan(line, j as int),
                forall|t: int| 0 <= t < j ==> line[t] != other_ch,
            decreases nl - j,
        {
            proof {
                assert(ws_scan(line, j as int) == ws_scan(line, j + 1));
            }
            j += 1;
        }
        let wrong = j < nl && chars[j] == other_ch;
        if wrong {
            proof {
                assert(is_ws(other_ch));
                lemma_ws_scan_bounds(line, j + 1);
                assert(ws_scan(line, j as int) == ws_scan(line, j + 1));
                assert(0 <= j < ws_scan(line, 0) && line[j as int] == other_ch);
                assert(has_wrong_kind(line, style.indent_kind));
            }
            let mut msg = String::from_str("line is indented with ");
            msg.append(style.indent_kind.other().name());
            msg.append(", expected ");
            msg.append(style.indent_kind.name());
            proof {
                assert(msg@ =~= wrong_kind_msg(style.indent_kind));
            }
            cx.error((i, 0), msg);
        } else {
            proof {
                assert(ws_scan(line, j as int) == j);
                assert(!has_wrong_kind(line, style.indent_kind));
            }
        }
        let ghost after_kind = cx.spec_errors();
        // Wrong-amount scan: count the leading run of the configured
        // kind's character.
        let mut cnt: usize = 0;
        while cnt < nl && chars[cnt] == kind_ch
            invariant
                0 <= cnt <= nl,
                nl == line.len(),
                chars@ == line,
                kind_ch == style.indent_kind.spec_char(),
                run_scan(line, kind_ch, 0) == run_scan(line, kind_ch, cnt as int),
            decreases nl - cnt,
        {
            proof {
                assert(run_scan(line, kind_ch, cnt as int) == run_scan(line, kind_ch, cnt + 1));
            }
            cnt += 1;
        }
        proof {
            assert(run_scan(line, kind_ch, cnt as int) == cnt);
            assert(indent_run(line, style.indent_kind) == cnt);
        }
        if (cnt as u64) % style.indent_amount != 0 {
            let mut msg = String::from_str("line is indented with ");
            msg.append(u128_to_dec(cnt as u128).as_str());
            msg.append(" ");
            msg.append(style.indent_kind.name());
            msg.append(", expected a multiple of ");
            msg.append(u128_to_dec(style.indent_amount as u128).as_str());
            proof {
                assert(msg@ =~= wrong_amount_msg(cnt as int, style.indent_kind,
                    style.indent_amount));
            }
            cx.error((i, cnt), msg);
        }
        proof {
            assert(cx.spec_errors() =~= base + indent_line_errors(path, i as int, line, style));
            assert(dv.take(i + 1).drop_last() =~= dv.take(i as int));
            assert(dv.take(i + 1).last() == dv[i as int]);
            assert(cx.spec_errors() =~= old(cx).spec_errors() + indent_errors(
                path,
                dv.take(i + 1),
                Some(style),
            ));
        }
        i += 1;
    }
    proof {
        assert(dv.take(n as int) =~= dv);
    }
}

} // verus!
