//! Pure helpers for a command-line front end: option handling, version
//! text, and caret diagnostics for parse errors.
use vstd::prelude::*;
use crate::ast::ParseError;

verus! {

/// Command-line options: the words of an expression to evaluate, or a
/// request for version information.
#[derive(Debug, PartialEq, Eq)]
pub struct Opt {
    /// Expression to evaluate.
    pub expression: Vec<String>,
    /// Emit version and build information.
    pub version: bool,
}

/// The words of the expression joined with single spaces.
pub open spec fn joined(words: Seq<Seq<char>>) -> Seq<char>
    decreases words.len(),
{
    if words.len() == 0 {
        Seq::empty()
    } else if words.len() == 1 {
        words[0]
    } else {
        joined(words.drop_last()) + seq![' '] + words.last()
    }
}

impl Opt {
    /// The expression words joined into one line.
    pub fn expr(&self) -> (r: String)
        ensures
            r@ == joined(self.expression@.map_values(|w: String| w@)),
    {
        let mut out: Vec<char> = Vec::new();
        let mut i: usize = 0;
        while i < self.expression.len()
            invariant
                i <= self.expression@.len(),
                out@ == joined(
                    self.expression@.map_values(|w: String| w@).subrange(0, i as int),
                ),
            decreases self.expression@.len() - i,
        {
            if i > 0 {
                out.push(' ');
            }
            let w = crate::value::parsing::str_chars(self.expression[i].as_str());
            let mut k: usize = 0;
            while k < w.len()
                invariant
                    k <= w@.len(),
                    i < self.expression@.len(),
                    w@ == self.expression@.map_values(|w2: String| w2@)[i as int],
                    out@ == joined(
                        self.expression@.map_values(|w2: String| w2@).subrange(0, i as int),
                    ) + (if i > 0 {
                        seq![' ']
                    } else {
                        Seq::<char>::empty()
                    }) + w@.subrange(0, k as int),
                decreases w@.len() - k,
            {
                out.push(w[k]);
                proof {
                    assert(w@.subrange(0, (k + 1) as int) =~= w@.subrange(0, k as int).push(
                        w@[k as int],
                    ));
                }
                k = k + 1;
            }
            proof {
                let ws = self.expression@.map_values(|w2: String| w2@);
                assert(w@.subrange(0, w@.len() as int) =~= w@);
                let pre = ws.subrange(0, i as int);
                let cur = ws.subrange(0, (i + 1) as int);
                assert(cur.drop_last() =~= pre);
                assert(cur.last() == ws[i as int]);
                if i == 0 {
                    assert(out@ =~= joined(cur));
                } else {
                    assert(out@ =~= joined(cur));
                }
            }
            i = i + 1;
        }
        proof {
            let ws = self.expression@.map_values(|w2: String| w2@);
            assert(ws.subrange(0, ws.len() as int) =~= ws);
        }
        crate::value::parsing::chars_to_string(&out)
    }
}

/// Version and build information, assembled from the front end's build
/// metadata: package name and version, branch, revision, a dirty marker,
/// and the build timestamp.
pub fn formatted_version_data(
    bin_name: &str,
    pkg_version: &str,
    git_branch: &str,
    git_sha: &str,
    git_dirty: bool,
    build_timestamp: &str,
) -> (r: String)
{
    let mut out = String::new();
    out.append(bin_name);
    out.append(" v");
    out.append(pkg_version);
    out.append("\n\n");
    out.append("git branch:      ");
    out.append(git_branch);
    out.append(" @ ");
    out.append(git_sha);
    if git_dirty {
        out.append(" (dirty)");
    }
    out.append("\n");
    out.append("build timestamp: ");
    out.append(build_timestamp);
    out.append("\n");
    out
}

/// A line of `count` copies of a character after `indent` spaces, for caret
/// diagnostics.
fn caret_line(indent: usize, count: usize) -> (r: String)
{
    let mut out: Vec<char> = Vec::new();
    let mut i: usize = 0;
    while i < indent
        invariant
            i <= indent,
        decreases indent - i,
    {
        out.push(' ');
        i = i + 1;
    }
    let mut k: usize = 0;
    while k < count
        invariant
            k <= count,
        decreases count - k,
    {
        out.push('^');
        k = k + 1;
    }
    crate::value::parsing::chars_to_string(&out)
}

/// Render a parse error as a two-line caret diagnostic pointing at the
/// offending span of the source line.
pub fn describe_parse_error(err: &ParseError, line: &str) -> (r: String)
{
    let mut out = String::new();
    match err {
        ParseError::InvalidToken { location } => {
            out.append("invalid token\n");
            out.append(line);
            out.append("\n");
            let caret = caret_line(*location, 1);
            out.append(caret.as_str());
        },
        ParseError::UnrecognizedEof { location } => {
            out.append("unexpected EOF\n");
            out.append(line);
            out.append("\n");
            let caret = caret_line(*location, 1);
            out.append(caret.as_str());
        },
        ParseError::UnrecognizedToken { start, end } => {
            out.append("unexpected token\n");
            out.append(line);
            out.append("\n");
            let width: usize = if *end > *start {
                *end - *start
            } else {
                1
            };
            let caret = caret_line(*start, width);
            out.append(caret.as_str());
        },
        ParseError::ExtraToken { start, end } => {
            out.append("extra token\n");
            out.append(line);
            out.append("\n");
            let width: usize = if *end > *start {
                *end - *start
            } else {
                1
            };
            let caret = caret_line(*start, width);
            out.append(caret.as_str());
        },
        ParseError::Index { start, end } => {
            out.append("index must fit into usize\n");
            out.append(line);
            out.append("\n");
            let width: usize = if *end > *start {
                *end - *start
            } else {
                1
            };
            let caret = caret_line(*start, width);
            out.append(caret.as_str());
        },
        ParseError::Format { start, end } => {
            out.append("failed to parse format string\n");
            out.append(line);
            out.append("\n");
            let width: usize = if *end > *start {
                *end - *start
            } else {
                1
            };
            let caret = caret_line(*start, width);
            out.append(caret.as_str());
        },
    }
    out
}

} // verus!
