//! The line renderer: one parsed record plus a trust verdict becomes one
//! colorized, newline-terminated output line, appended to a caller-supplied
//! sink.  Graph-only lines pass through verbatim.

use vstd::prelude::*;

use crate::logline::{
    age_mag, age_unit, fields_of, graph_of, graph_only, time_wf, LogLine, Parsed, parse_line,
};
use crate::text::{find_char, has_member};
use crate::vlist::{vstep, VList};
use crate::PipeError;

verus! {

/// Light gray, for the age magnitude.
pub const LIGHT: &'static str = "\x1b[38;5;246m";

/// Dark gray, for refs braces and the age parentheses and unit.
pub const DIM: &'static str = "\x1b[38;5;240m";

/// Green, for a trusted identifier.
pub const GREEN: &'static str = "\x1b[32m";

/// Yellow, for an untrusted identifier.
pub const YELLOW: &'static str = "\x1b[33m";

/// Reset to the terminal's default color.
pub const RESET: &'static str = "\x1b[m";

/// The color the identifier is written in.
pub open spec fn id_color(trusted: bool) -> Seq<char> {
    if trusted {
        GREEN@
    } else {
        YELLOW@
    }
}

/// The refs segment: present exactly when the refs field is longer than
/// the three-character empty sentinel.
pub open spec fn refs_part(refs: Seq<char>) -> Seq<char> {
    if refs.len() > 3 {
        seq![' '] + DIM@ + seq!['{'] + refs + DIM@ + seq!['}']
    } else {
        Seq::empty()
    }
}

/// The complete rendering of one structured record: the graph prefix
/// verbatim, the colored identifier, the optional refs segment, the
/// subject, and the dimmed age abbreviation, newline-terminated.
pub open spec fn render_record_spec(
    graph: Seq<char>,
    sha: Seq<char>,
    time: Seq<char>,
    subj: Seq<char>,
    refs: Seq<char>,
    trusted: bool,
) -> Seq<char> {
    graph + id_color(trusted) + sha + refs_part(refs) + seq![' '] + RESET@ + subj + seq![' ']
        + DIM@ + seq!['('] + LIGHT@ + age_mag(time) + DIM@ + seq![age_unit(time)] + seq![')']
        + RESET@ + seq!['\n']
}

/// The rendering of one raw line: a graph-only line verbatim with a
/// newline, a structured line as `render_record_spec` says.
pub open spec fn rendered_line(l: Seq<char>, trusted: bool) -> Seq<char> {
    if graph_only(l) {
        l + seq!['\n']
    } else {
        render_record_spec(
            graph_of(l),
            fields_of(l)[0],
            fields_of(l)[1],
            fields_of(l)[2],
            fields_of(l)[3],
            trusted,
        )
    }
}

/// Appends a graph-only line verbatim, newline-terminated.
pub fn render_graph_only(line: &str, out: &mut String)
    ensures
        final(out)@ == old(out)@ + line@ + seq!['\n'],
{
    out.append(line);
    out.append("\n");
    proof {
        reveal_strlit("\n");
        assert(final(out)@ =~= old(out)@ + line@ + seq!['\n']);
    }
}

/// True iff the age phrase is a magnitude, a space, and a nonempty unit
/// word.
pub fn time_ok(t: &str) -> (r: bool)
    ensures
        r == time_wf(t@),
{
    let n = t.unicode_len();
    match find_char(t, ' ') {
        None => false,
        Some(i) => n - i > 1,
    }
}

/// Appends the rendering of one structured record to `out`.
#[verifier::rlimit(50)]
pub fn render_record(graph: &str, ll: &LogLine, trusted: bool, out: &mut String)
    requires
        time_wf(ll.time@),
    ensures
        final(out)@ == old(out)@ + render_record_spec(
            graph@,
            ll.sha@,
            ll.time@,
            ll.subj@,
            ll.refs@,
            trusted,
        ),
{
    proof {
        reveal_strlit(" ");
        reveal_strlit("{");
        reveal_strlit("}");
        reveal_strlit("(");
        reveal_strlit(")");
        reveal_strlit("M");
        reveal_strlit("\n");
    }
    out.append(graph);
    if trusted {
        out.append(GREEN);
    } else {
        out.append(YELLOW);
    }
    out.append(ll.sha.as_str());
    if ll.has_refs() {
        out.append(" ");
        out.append(DIM);
        out.append("{");
        out.append(ll.refs.as_str());
        out.append(DIM);
        out.append("}");
    }
    proof {
        assert(out@ =~= old(out)@ + graph@ + id_color(trusted) + ll.sha@ + refs_part(ll.refs@));
    }
    out.append(" ");
    out.append(RESET);
    out.append(ll.subj.as_str());
    out.append(" ");
    out.append(DIM);
    out.append("(");
    out.append(LIGHT);
    let (mag, unit) = ll.get_time();
    out.append(mag.as_str());
    out.append(DIM);
    if unit == 'M' {
        out.append("M");
        proof {
            assert("M"@ =~= seq![age_unit(ll.time@)]);
        }
    } else {
        let t = ll.time.as_str();
        let sp = match find_char(t, ' ') {
            Some(i) => i,
            None => {
                proof {
                    assert(false);
                }
                vstd::pervasive::unreached()
            },
        };
        let n = t.unicode_len();
        proof {
            assert(sp + 2 <= n);
        }
        let u = t.substring_char(sp + 1, sp + 2);
        proof {
            assert(u@ =~= seq![age_unit(ll.time@)]);
        }
        out.append(u);
    }
    out.append(")");
    out.append(RESET);
    out.append("\n");
    proof {
        assert(final(out)@ =~= old(out)@ + render_record_spec(
            graph@,
            ll.sha@,
            ll.time@,
            ll.subj@,
            ll.refs@,
            trusted,
        ));
    }
}

/// What processing one raw line does, as a function of the line and the
/// trusted set's model: either the text to append to the sink together
/// with the set's next model, or the unrecoverable defect — a structured
/// line without exactly four fields, a malformed age phrase, or an
/// identifier longer than the trusted members.
pub open spec fn line_step(l: Seq<char>, m0: Option<(Seq<Seq<char>>, nat)>) -> Result<
    (Seq<char>, Option<(Seq<Seq<char>>, nat)>),
    PipeError,
> {
    if graph_only(l) {
        Ok((rendered_line(l, false), m0))
    } else if fields_of(l).len() != 4 {
        Err(PipeError::MalformedRecord)
    } else if !time_wf(fields_of(l)[1]) {
        Err(PipeError::MalformedAge)
    } else {
        match m0 {
            Option::None => Ok((rendered_line(l, false), m0)),
            Option::Some(m) => match vstep(m, fields_of(l)[0].len()) {
                Option::None => Err(PipeError::TrustedLengthViolation),
                Option::Some(m2) => Ok(
                    (rendered_line(l, has_member(m2.0, fields_of(l)[0])), Some(m2)),
                ),
            },
        }
    }
}

/// Processes one raw line of producer output: parses it, asks the trusted
/// set about the identifier, and appends the rendered line to `out`, all
/// exactly as `line_step` says of the line and the set's model.  A defect
/// is reported and leaves both the sink and the trusted set unchanged.
pub fn print_git_log_line(line: &str, out: &mut String, vlist: &mut VList) -> (r: Result<
    (),
    PipeError,
>)
    ensures
        match line_step(line@, old(vlist).model()) {
            Ok(step) => r == Result::<(), PipeError>::Ok(()) && final(out)@ == old(out)@ + step.0
                && final(vlist).model() == step.1,
            Err(e) => r == Result::<(), PipeError>::Err(e) && final(out)@ == old(out)@
                && final(vlist).model() == old(vlist).model(),
        },
{
    let p = match parse_line(line) {
        Ok(p) => p,
        Err(e) => {
            return Err(e);
        },
    };
    match p {
        Parsed::GraphOnly(g) => {
            render_graph_only(g.as_str(), out);
            Ok(())
        },
        Parsed::Record { graph, line: ll } => {
            if !time_ok(ll.time.as_str()) {
                return Err(PipeError::MalformedAge);
            }
            let trusted = match vlist.contains(ll.sha.as_str()) {
                Ok(b) => b,
                Err(e) => {
                    return Err(e);
                },
            };
            render_record(graph.as_str(), &ll, trusted, out);
            Ok(())
        },
    }
}

} // verus!
