//! The forbidden-content check: every line, with its line ending preserved,
//! is tested against the configured set of regular expressions.

use vstd::prelude::*;
use vstd::string::StrSliceExecFns;
use vstd::string::StringExecFns;

use crate::check::CheckErrorView;
use crate::check::TidyContext;
use crate::config::Config;
use crate::regexes::lemma_match_indices_bounds;
use crate::regexes::lemma_match_indices_iff;
use crate::regexes::match_indices;
use crate::regexes::regex_matches;
use crate::regexes::regex_set_matches;
use crate::regexes::regex_set_patterns;

verus! {

/// The message reported when a line matches the forbidden pattern with
/// source text `src`.
pub open spec fn forbidden_msg(src: Seq<char>) -> Seq<char> {
    "line matches forbidden string '"@ + src + "'"@
}

/// The errors of this check for a single line: one per matching pattern, in
/// ascending pattern order, at column 0.
pub open spec fn forbidden_line_errors(
    path: Seq<char>,
    patterns: Seq<Seq<char>>,
    lineno: int,
    line: Seq<char>,
) -> Seq<CheckErrorView> {
    match_indices(patterns, line).map_values(
        |j: int|
            CheckErrorView { path, line: lineno, column: 0, msg: forbidden_msg(patterns[j]) },
    )
}

/// The errors of this check for a whole file, in line order.  `lines` is
/// the view with line endings preserved.
pub open spec fn forbidden_errors(
    path: Seq<char>,
    patterns: Seq<Seq<char>>,
    lines: Seq<Seq<char>>,
) -> Seq<CheckErrorView>
    decreases lines.len(),
{
    if lines.len() == 0 {
        Seq::empty()
    } else {
        forbidden_errors(path, patterns, lines.drop_last()) + forbidden_line_errors(
            path,
            patterns,
            lines.len() - 1,
            lines.last(),
        )
    }
}

/// A line matching `k` patterns yields exactly `k` errors.
pub proof fn lemma_forbidden_line_error_count(
    path: Seq<char>,
    patterns: Seq<Seq<char>>,
    lineno: int,
    line: Seq<char>,
)
    ensures
        forbidden_line_errors(path, patterns, lineno, line).len() == match_indices(
            patterns,
            line,
        ).len(),
{
}

/// An error is reported on a line for pattern `j` exactly when that
/// pattern matches somewhere in the line's ending-preserving form; the
/// error then carries the pattern's source text in its message.
pub proof fn lemma_forbidden_line_error_iff(
    path: Seq<char>,
    patterns: Seq<Seq<char>>,
    lineno: int,
    line: Seq<char>,
    j: int,
)
    ensures
        (exists|k: int|
            0 <= k < match_indices(patterns, line).len() && match_indices(patterns, line)[k] == j)
            <==> (0 <= j < patterns.len() && regex_matches(patterns[j], line)),
        forall|k: int|
            0 <= k < match_indices(patterns, line).len() ==> (#[trigger] forbidden_line_errors(
                path,
                patterns,
                lineno,
                line,
            )[k]) == (CheckErrorView {
                path,
                line: lineno,
                column: 0,
                msg: forbidden_msg(patterns[match_indices(patterns, line)[k]]),
            }),
{
    lemma_match_indices_iff(patterns, line, j);
}

/// Checks every line of the file, with its ending preserved, against the
/// forbidden-content patterns.
pub fn check(config: &Config, cx: &mut TidyContext)
    requires
        config.wf(),
    ensures
        final(cx).path == old(cx).path,
        final(cx).content == old(cx).content,
        final(cx).lines_with_endings == old(cx).lines_with_endings,
        final(cx).lines_without_endings == old(cx).lines_without_endings,
        final(cx).spec_errors() == old(cx).spec_errors() + forbidden_errors(
            old(cx).path@,
            config.forbidden_sources.deep_view(),
            old(cx).lines_with_endings.deep_view(),
        ),
{
    let ghost path = cx.path@;
    let ghost patterns = config.forbidden_sources.deep_view();
    let ghost dv = cx.lines_with_endings.deep_view();
    let n = cx.lines_with_endings.len();
    let mut i: usize = 0;
    proof {
        assert(dv.take(0) =~= Seq::<Seq<char>>::empty());
        assert(old(cx).spec_errors() + forbidden_errors(path, patterns, dv.take(0)) =~= old(
            cx,
        ).spec_errors());
    }
    while i < n
        invariant
            0 <= i <= n,
            config.wf(),
            cx.path == old(cx).path,
            cx.content == old(cx).content,
            cx.lines_with_endings == old(cx).lines_with_endings,
            cx.lines_without_endings == old(cx).lines_without_endings,
            n == cx.lines_with_endings.len(),
            path == cx.path@,
            patterns == config.forbidden_sources.deep_view(),
            patterns == regex_set_patterns(config.forbidden_set),
            dv == cx.lines_with_endings.deep_view(),
            cx.spec_errors() == old(cx).spec_errors() + forbidden_errors(
                path,
                patterns,
                dv.take(i as int),
            ),
        decreases n - i,
    {
        let ghost base = cx.spec_errors();
        let ghost line = dv[i as int];
        proof {
            assert(dv[i as int] == cx.lines_with_endings@[i as int]@);
        }
        let idxs = regex_set_matches(&config.forbidden_set, cx.lines_with_endings[i].as_str());
        let ghost mi = match_indices(patterns, line);
        let ghost fl = forbidden_line_errors(path, patterns, i as int, line);
        proof {
            lemma_match_indices_bounds(patterns, line);
            assert(patterns.len() == config.forbidden_sources@.len());
        }
        let m = idxs.len();
        let mut k: usize = 0;
        proof {
            assert(fl.take(0) =~= Seq::<CheckErrorView>::empty());
            assert(base + fl.take(0) =~= base);
        }
        while k < m
            invariant
                0 <= k <= m,
                config.wf(),
                cx.path == old(cx).path,
                cx.content == old(cx).content,
                cx.lines_with_endings == old(cx).lines_with_endings,
                cx.lines_without_endings == old(cx).lines_without_endings,
                path == cx.path@,
                patterns == config.forbidden_sources.deep_view(),
                m == idxs.len(),
                idxs@.map_values(|u: usize| u as int) == mi,
                mi == match_indices(patterns, line),
                fl == forbidden_line_errors(path, patterns, i as int, line),
                forall|t: int|
                    0 <= t < mi.len() ==> {
                        let j = #[trigger] mi[t];
                        0 <= j < patterns.len()
                    },
                patterns.len() == config.forbidden_sources@.len(),
                cx.spec_errors() == base + fl.take(k as int),
            decreases m - k,
        {
            let j = idxs[k];
            proof {
                assert(mi[k as int] == idxs@.map_values(|u: usize| u as int)[k as int]);
                assert(mi[k as int] == j as int);
                assert((j as int) < patterns.len());
                assert(patterns[j as int] == config.forbidden_sources@[j as int]@);
            }
            let mut msg = String::from_str("line matches forbidden string '");
            msg.append(config.forbidden_sources[j].as_str());
            msg.append("'");
            proof {
                assert(msg@ =~= forbidden_msg(patterns[j as int]));
            }
            cx.error((i, 0), msg);
            proof {
                assert(fl[k as int] == CheckErrorView {
                    path,
                    line: i as int,
                    column: 0,
                    msg: forbidden_msg(patterns[mi[k as int]]),
                });
                assert(fl.take(k + 1) =~= fl.take(k as int).push(fl[k as int]));
                assert(cx.spec_errors() =~= base + fl.take(k + 1));
            }
            k += 1;
        }
        proof {
            assert(fl.take(m as int) =~= fl);
            assert(dv.take(i + 1).drop_last() =~= dv.take(i as int));
            assert(dv.take(i + 1).last() == dv[i as int]);
            assert(cx.spec_errors() =~= old(cx).spec_errors() + forbidden_errors(
                path,
                patterns,
                dv.take(i + 1),
            ));
        }
        i += 1;
    }
    proof {
        assert(dv.take(n as int) =~= dv);
    }
}

} // verus!
