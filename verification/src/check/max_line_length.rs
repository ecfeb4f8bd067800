//! The maximum-line-length check: lines are measured in Unicode scalar
//! values (characters), not in bytes.

use vstd::prelude::*;
use vstd::string::StrSliceExecFns;
use vstd::string::StringExecFns;

use crate::check::count_errors_at;
use crate::check::lemma_count_errors_at_add;
use crate::check::lemma_count_errors_at_none;
use crate::check::CheckErrorView;
use crate::check::TidyContext;
use crate::config::Config;
use crate::text::dec_seq;
use crate::text::u128_to_dec;

verus! {

/// The message reported for a line of `len` characters over the limit
/// `max`.
pub open spec fn max_len_msg(len: nat, max: u64) -> Seq<char> {
    "line too long (has "@ + dec_seq(len) + " characters, the limit is "@ + dec_seq(max as nat)
        + ")"@
}

/// The errors of this check: exactly one per line longer than `max`
/// characters, in line order, at column 0.  `lines` is the view without
/// line endings.
pub open spec fn max_len_errors(path: Seq<char>, lines: Seq<Seq<char>>, max: u64) -> Seq<
    CheckErrorView,
>
    decreases lines.len(),
{
    if lines.len() == 0 {
        Seq::empty()
    } else {
        max_len_errors(path, lines.drop_last(), max) + if lines.last().len() > max {
            seq![
                CheckErrorView {
                    path,
                    line: lines.len() - 1,
                    column: 0,
                    msg: max_len_msg(lines.last().len(), max),
                },
            ]
        } else {
            Seq::empty()
        }
    }
}

proof fn lemma_max_len_errors_range(path: Seq<char>, lines: Seq<Seq<char>>, max: u64)
    ensures
        forall|k: int|
            0 <= k < max_len_errors(path, lines, max).len() ==> 0 <= (#[trigger] max_len_errors(
                path,
                lines,
                max,
            )[k]).line < lines.len(),
    decreases lines.len(),
{
    if lines.len() > 0 {
        lemma_max_len_errors_range(path, lines.drop_last(), max);
        let pre = max_len_errors(path, lines.drop_last(), max);
        assert forall|k: int| 0 <= k < max_len_errors(path, lines, max).len() implies 0 <= (
        #[trigger] max_len_errors(path, lines, max)[k]).line < lines.len() by {
            if k < pre.len() {
                assert(max_len_errors(path, lines, max)[k] == pre[k]);
            }
        }
    }
}

/// Exactly one maximum-line-length error is reported for each line longer
/// than the limit, and none for any line within it.
pub proof fn lemma_max_len_one_error_per_line(
    path: Seq<char>,
    lines: Seq<Seq<char>>,
    max: u64,
    lineno: int,
)
    requires
        0 <= lineno < lines.len(),
    ensures
        count_errors_at(max_len_errors(path, lines, max), lineno) == if lines[lineno].len() > max {
            1int
        } else {
            0int
        },
    decreases lines.len(),
{
    let pre = max_len_errors(path, lines.drop_last(), max);
    let tail: Seq<CheckErrorView> = if lines.last().len() > max {
        seq![
            CheckErrorView {
                path,
                line: lines.len() - 1,
                column: 0,
                msg: max_len_msg(lines.last().len(), max),
            },
        ]
    } else {
        Seq::empty()
    };
    assert(max_len_errors(path, lines, max) == pre + tail);
    lemma_count_errors_at_add(pre, tail, lineno);
    assert(count_errors_at(Seq::<CheckErrorView>::empty(), lineno) == 0);
    if tail.len() > 0 {
        assert(tail.drop_last() =~= Seq::<CheckErrorView>::empty());
        assert(count_errors_at(tail, lineno) == if tail.last().line == lineno {
            1int
        } else {
            0int
        });
    } else {
        assert(tail =~= Seq::<CheckErrorView>::empty());
    }
    if lineno == lines.len() - 1 {
        lemma_max_len_errors_range(path, lines.drop_last(), max);
        assert forall|k: int| 0 <= k < pre.len() implies (#[trigger] pre[k]).line != lineno by {}
        lemma_count_errors_at_none(pre, lineno);
        assert(lines.last() == lines[lineno]);
    } else {
        lemma_max_len_one_error_per_line(path, lines.drop_last(), max, lineno);
        assert(lines.drop_last()[lineno] == lines[lineno]);
        if tail.len() > 0 {
            lemma_count_errors_at_none(tail, lineno);
        }
    }
}

/// Checks every line of the file against the configured maximum length,
/// counting Unicode scalar values.
pub fn check(config: &Config, cx: &mut TidyContext)
    ensures
        final(cx).path == old(cx).path,
        final(cx).content == old(cx).content,
        final(cx).lines_with_endings == old(cx).lines_with_endings,
        final(cx).lines_without_endings == old(cx).lines_without_endings,
        final(cx).spec_errors() == old(cx).spec_errors() + max_len_errors(
            old(cx).path@,
            old(cx).lines_without_endings.deep_view(),
            config.max_line_length,
        ),
{
    let max = config.max_line_length;
    let ghost path = cx.path@;
    let ghost dv = cx.lines_without_endings.deep_view();
    let n = cx.lines_without_endings.len();
    let mut i: usize = 0;
    proof {
        assert(dv.take(0) =~= Seq::<Seq<char>>::empty());
        assert(old(cx).spec_errors() + max_len_errors(path, dv.take(0), max) =~= old(
            cx,
        ).spec_errors());
    }
    while i < n
        invariant
            0 <= i <= n,
            cx.path == old(cx).path,
            cx.content == old(cx).content,
            cx.lines_with_endings == old(cx).lines_with_endings,
            cx.lines_without_endings == old(cx).lines_without_endings,
            n == cx.lines_without_endings.len(),
            path == cx.path@,
            dv == cx.lines_without_endings.deep_view(),
            cx.spec_errors() == old(cx).spec_errors() + max_len_errors(path, dv.take(i as int), max),
        decreases n - i,
    {
        let ghost pre = cx.spec_errors();
        let length = cx.lines_without_endings[i].as_str().unicode_len();
        proof {
            assert(dv.take(i + 1).drop_last() =~= dv.take(i as int));
            assert(dv.take(i + 1).last() == dv[i as int]);
            assert(dv[i as int] == cx.lines_without_endings@[i as int]@);
        }
        if length as u64 > max {
            let mut msg = String::from_str("line too long (has ");
            msg.append(u128_to_dec(length as u128).as_str());
            msg.append(" characters, the limit is ");
            msg.append(u128_to_dec(max as u128).as_str());
            msg.append(")");
            proof {
                assert(msg@ =~= max_len_msg(length as nat, max));
            }
            cx.error((i, 0), msg);
            proof {
                assert(cx.spec_errors() =~= old(cx).spec_errors() + max_len_errors(
                    path,
                    dv.take(i + 1),
                    max,
                ));
            }
        } else {
            proof {
                assert(cx.spec_errors() =~= old(cx).spec_errors() + max_len_errors(
                    path,
                    dv.take(i + 1),
                    max,
                ));
            }
        }
        i += 1;
    }
    proof {
        assert(dv.take(n as int) =~= dv);
    }
}

} // verus!
