//! The validated configuration a checking run works with.
//!
//! Reading a configuration file and the command line belongs to the caller;
//! the engine only consumes a fully validated [`Config`] value built with
//! [`Config::new`].

use vstd::prelude::*;
use vstd::string::StringExecFns;

use crate::check::indentation_style::spec_parse_style;
use crate::check::indentation_style::IndentationStyle;
use crate::globs::pattern_new;
use crate::globs::pattern_ok;
use crate::globs::pattern_source;
use crate::regexes::regex_set_new;
use crate::regexes::regex_set_ok;
use crate::regexes::regex_set_patterns;

verus! {

/// Why a [`Config`] could not be built.
#[derive(Debug)]
pub enum ConfigError {
    /// A file-selection pattern is not valid glob syntax.
    InvalidGlob(glob::PatternError),
    /// A forbidden-content pattern is not a valid regular expression.
    InvalidRegex(regex::Error),
    /// The indentation-style text does not follow the style grammar.
    InvalidIndentationStyle(&'static str),
}

/// The parameter set of one checking run, fully validated: every pattern
/// compiled, and the indentation style (if any) parsed with a positive
/// amount.
pub struct Config {
    /// File-selection patterns: every matched file is checked.
    pub inclusions: Vec<glob::Pattern>,
    /// File-exclusion patterns: a file matching any of them is skipped.
    pub exclusions: Vec<glob::Pattern>,
    /// Maximum number of characters (Unicode scalar values) in a line.
    pub max_line_length: u64,
    /// The forbidden-content patterns, compiled as one set.
    pub forbidden_set: regex::RegexSet,
    /// The source text of each forbidden-content pattern, in set order.
    pub forbidden_sources: Vec<String>,
    /// The indentation style to enforce, if any.
    pub indentation_style: Option<IndentationStyle>,
}

/// The pattern sources of a compiled pattern list, in order.
pub open spec fn pattern_sources(v: Seq<glob::Pattern>) -> Seq<Seq<char>> {
    v.map_values(|p: glob::Pattern| pattern_source(p))
}

/// Whether every text in `ss` is valid glob syntax.
pub open spec fn all_patterns_ok(ss: Seq<Seq<char>>) -> bool {
    forall|k: int| 0 <= k < ss.len() ==> pattern_ok(#[trigger] ss[k])
}

/// The file-selection patterns to use: the given ones, or the default of
/// checking every `.rs` file under the current directory.
pub open spec fn effective_inclusions(raw: Option<Seq<Seq<char>>>) -> Seq<Seq<char>> {
    match raw {
        Some(v) => v,
        None => seq!["**/*.rs"@],
    }
}

impl Config {
    /// A built configuration is internally consistent: the compiled
    /// forbidden-content set consists exactly of the stored sources, and a
    /// configured indentation style has a positive amount.
    pub open spec fn wf(self) -> bool {
        &&& regex_set_patterns(self.forbidden_set) == self.forbidden_sources.deep_view()
        &&& match self.indentation_style {
            Some(st) => st.indent_amount >= 1,
            None => true,
        }
    }

    /// Builds and validates a configuration from plain values.
    ///
    /// Fails when a selection or exclusion pattern is not valid glob
    /// syntax, when a forbidden-content pattern is not a valid regular
    /// expression, or when the indentation-style text does not follow the
    /// style grammar (`"N tabs"`, `"N spaces"` with `N >= 1`, or bare
    /// `"tabs"` / `"spaces"`).  When `inclusions` is absent, the single
    /// default pattern `**/*.rs` is used.
    pub fn new(
        inclusions: Option<Vec<String>>,
        exclusions: Vec<String>,
        max_line_length: u64,
        forbidden_content: Vec<String>,
        indentation_style: Option<String>,
    ) -> (r: Result<Config, ConfigError>)
        ensures
            r is Ok <==> ({
                &&& all_patterns_ok(effective_inclusions(inclusions.deep_view()))
                &&& all_patterns_ok(exclusions.deep_view())
                &&& regex_set_ok(forbidden_content.deep_view())
                &&& match indentation_style {
                    Some(st) => spec_parse_style(st@) is Some,
                    None => true,
                }
            }),
            r matches Ok(c) ==> {
                &&& c.wf()
                &&& pattern_sources(c.inclusions@) == effective_inclusions(inclusions.deep_view())
                &&& pattern_sources(c.exclusions@) == exclusions.deep_view()
                &&& c.max_line_length == max_line_length
                &&& c.forbidden_sources.deep_view() == forbidden_content.deep_view()
                &&& c.indentation_style == match indentation_style {
                    Some(st) => spec_parse_style(st@),
                    None => None::<IndentationStyle>,
                }
            },
            ({
                let glob_bad = !all_patterns_ok(effective_inclusions(inclusions.deep_view()))
                    || !all_patterns_ok(exclusions.deep_view());
                let regex_bad = !regex_set_ok(forbidden_content.deep_view());
                let style_bad = match indentation_style {
                    Some(st) => spec_parse_style(st@) is None,
                    None => false,
                };
                &&& (r matches Err(e) && e matches ConfigError::InvalidGlob(_) <==> glob_bad)
                &&& (r matches Err(e) && e matches ConfigError::InvalidRegex(_) <==> !glob_bad
                    && regex_bad)
                &&& (r matches Err(e) && e matches ConfigError::InvalidIndentationStyle(_)
                    <==> !glob_bad && !regex_bad && style_bad)
            }),
    {
        let sources: Vec<String> = match inclusions {
            Some(v) => v,
            None => {
                let mut d: Vec<String> = Vec::new();
                d.push(String::from_str("**/*.rs"));
                proof {
                    assert(d.deep_view() =~= seq!["**/*.rs"@]);
                }
                d
            },
        };
        let ghost eff = effective_inclusions(inclusions.deep_view());
        proof {
            assert(sources.deep_view() == eff);
        }
        let compiled_inclusions = match compile_patterns(&sources) {
            Ok(v) => v,
            Err(e) => {
                return Err(ConfigError::InvalidGlob(e));
            },
        };
        let compiled_exclusions = match compile_patterns(&exclusions) {
            Ok(v) => v,
            Err(e) => {
                return Err(ConfigError::InvalidGlob(e));
            },
        };
        let forbidden_set = match regex_set_new(&forbidden_content) {
            Ok(s) => s,
            Err(e) => {
                return Err(ConfigError::InvalidRegex(e));
            },
        };
        let style = match indentation_style {
            Some(st) => match IndentationStyle::from_str(st.as_str()) {
                Ok(parsed) => Some(parsed),
                Err(e) => {
                    return Err(ConfigError::InvalidIndentationStyle(e));
                },
            },
            None => None,
        };
        Ok(
            Config {
                inclusions: compiled_inclusions,
                exclusions: compiled_exclusions,
                max_line_length,
                forbidden_set,
                forbidden_sources: forbidden_content,
                indentation_style: style,
            },
        )
    }
}

/// Compiles each pattern text, failing on the first invalid one.
fn compile_patterns(sources: &Vec<String>) -> (r: Result<Vec<glob::Pattern>, glob::PatternError>)
    ensures
        r is Ok <==> all_patterns_ok(sources.deep_view()),
        r matches Ok(v) ==> pattern_sources(v@) == sources.deep_view(),
{
    let mut out: Vec<glob::Pattern> = Vec::new();
    let n = sources.len();
    let mut i: usize = 0;
    while i < n
        invariant
            0 <= i <= n,
            n == sources.len(),
            out.len() == i,
            forall|k: int| 0 <= k < i ==> pattern_ok(#[trigger] sources.deep_view()[k]),
            pattern_sources(out@) == sources.deep_view().take(i as int),
        decreases n - i,
    {
        let ghost out_ps = pattern_sources(out@);
        match pattern_new(sources[i].as_str()) {
            Ok(p) => {
                out.push(p);
                proof {
                    assert(pattern_sources(out@) =~= out_ps.push(pattern_source(p)));
                    assert(sources.deep_view().take(i + 1) =~= sources.deep_view().take(
                        i as int,
                    ).push(sources.deep_view()[i as int]));
                }
            },
            Err(e) => {
                proof {
                    assert(!pattern_ok(sources.deep_view()[i as int]));
                }
                return Err(e);
            },
        }
        i += 1;
    }
    proof {
        assert(sources.deep_view().take(n as int) =~= sources.deep_view());
    }
    Ok(out)
}

} // verus!
