//! The record parser: one raw line of producer output is either a
//! graph-only continuation line (no record separator anywhere) or a graph
//! prefix followed by exactly four separator-delimited fields.

use vstd::prelude::*;

use crate::text::{
    find_char, find_idx, join_with, lemma_find_idx_prefix, lemma_join_split, lemma_split_join,
    seq_views, split_on, split_str,
};
use crate::{PipeError, DELIM};

verus! {

/// One structured log record.
pub struct LogLine {
    /// Abbreviated commit identifier.
    pub sha: String,
    /// Relative-age phrase: a numeric magnitude, one space, a unit word.
    pub time: String,
    /// Free-form single-line description.
    pub subj: String,
    /// Pre-formatted symbolic names; a value of length at most three is the
    /// empty sentinel meaning "no refs".
    pub refs: String,
}

/// The outcome of parsing one raw line.
pub enum Parsed {
    /// The whole line is graph visualization, passed through verbatim.
    GraphOnly(String),
    /// A graph prefix followed by a structured record.
    Record { graph: String, line: LogLine },
}

/// True iff the raw line holds no record separator at all.
pub open spec fn graph_only(l: Seq<char>) -> bool {
    find_idx(l, DELIM) < 0
}

/// The graph prefix: everything before the first separator.
pub open spec fn graph_of(l: Seq<char>) -> Seq<char> {
    l.subrange(0, find_idx(l, DELIM))
}

/// Everything after the first separator.
pub open spec fn rest_of(l: Seq<char>) -> Seq<char> {
    l.subrange(find_idx(l, DELIM) + 1, l.len() as int)
}

/// The fields the rest of the line splits into.
pub open spec fn fields_of(l: Seq<char>) -> Seq<Seq<char>> {
    split_on(rest_of(l), DELIM)
}

/// A structured line is well formed when the rest splits into exactly the
/// four fields identifier, age, subject, refs.
pub open spec fn well_formed_record(l: Seq<char>) -> bool {
    &&& !graph_only(l)
    &&& fields_of(l).len() == 4
}

/// Joining the four parsed fields with the separator recovers exactly the
/// text that followed the graph prefix: parsing loses nothing.
pub proof fn lemma_record_round_trip(l: Seq<char>)
    requires
        !graph_only(l),
    ensures
        join_with(fields_of(l), DELIM) == rest_of(l),
{
    lemma_split_join(rest_of(l), DELIM);
}

/// The parser loses nothing in the other direction either: a line built
/// from a separator-free graph prefix and four separator-free field
/// values parses back to exactly that prefix and those values.
pub proof fn lemma_parse_recovers_fields(graph: Seq<char>, fields: Seq<Seq<char>>)
    requires
        find_idx(graph, DELIM) < 0,
        fields.len() == 4,
        forall|i: int| 0 <= i < fields.len() ==> find_idx(#[trigger] fields[i], DELIM) < 0,
    ensures
        ({
            let l = graph + seq![DELIM] + join_with(fields, DELIM);
            &&& well_formed_record(l)
            &&& graph_of(l) == graph
            &&& fields_of(l) == fields
        }),
{
    let jf = join_with(fields, DELIM);
    let l = graph + seq![DELIM] + jf;
    lemma_find_idx_prefix(graph, jf, DELIM);
    assert(graph_of(l) =~= graph);
    assert(rest_of(l) =~= jf);
    lemma_join_split(fields, DELIM);
}

/// Parses one raw line, already stripped of its trailing newline.  A line
/// without the separator is graph-only and is returned verbatim; otherwise
/// exactly four fields must follow the graph prefix.
pub fn parse_line(raw: &str) -> (r: Result<Parsed, PipeError>)
    ensures
        graph_only(raw@) ==> (r matches Ok(p) && p matches Parsed::GraphOnly(g) && g@ == raw@),
        well_formed_record(raw@) ==> (r matches Ok(p) && p matches Parsed::Record {
            graph: g,
            line: ll,
        } && g@ == graph_of(raw@) && ll.sha@ == fields_of(raw@)[0] && ll.time@ == fields_of(
            raw@,
        )[1] && ll.subj@ == fields_of(raw@)[2] && ll.refs@ == fields_of(raw@)[3]),
        !graph_only(raw@) && fields_of(raw@).len() != 4 ==> r == Result::<
            Parsed,
            PipeError,
        >::Err(PipeError::MalformedRecord),
{
    match find_char(raw, DELIM) {
        None => Ok(Parsed::GraphOnly(raw.to_owned())),
        Some(i) => {
            let n = raw.unicode_len();
            let graph: String = raw.substring_char(0, i).to_owned();
            let rest = raw.substring_char(i + 1, n);
            let mut fields = split_str(rest, DELIM);
            proof {
                assert(seq_views(fields@) == fields_of(raw@));
            }
            if fields.len() != 4 {
                return Err(PipeError::MalformedRecord);
            }
            let ghost fseq = fields@;
            let refs = fields.pop().unwrap();
            let subj = fields.pop().unwrap();
            let time = fields.pop().unwrap();
            let sha = fields.pop().unwrap();
            proof {
                assert(sha == fseq[0] && time == fseq[1] && subj == fseq[2] && refs == fseq[3]);
                assert(sha@ == seq_views(fseq)[0]);
                assert(time@ == seq_views(fseq)[1]);
                assert(subj@ == seq_views(fseq)[2]);
                assert(refs@ == seq_views(fseq)[3]);
            }
            Ok(Parsed::Record { graph, line: LogLine { sha, time, subj, refs } })
        },
    }
}

/// True iff the age phrase splits into a magnitude, one space, and a
/// nonempty unit word.
pub open spec fn time_wf(t: Seq<char>) -> bool {
    &&& find_idx(t, ' ') >= 0
    &&& find_idx(t, ' ') + 1 < t.len()
}

/// The magnitude: the characters before the first space.
pub open spec fn age_mag(t: Seq<char>) -> Seq<char> {
    t.subrange(0, find_idx(t, ' '))
}

/// The unit word: the characters after the first space.
pub open spec fn age_unit_word(t: Seq<char>) -> Seq<char> {
    t.subrange(find_idx(t, ' ') + 1, t.len() as int)
}

/// The one-character abbreviation of the unit word: a word beginning with
/// "mo" abbreviates to 'M' (telling months from minutes); every other word
/// abbreviates to its first character.
pub open spec fn age_unit(t: Seq<char>) -> char {
    let u = age_unit_word(t);
    if u.len() >= 2 && u[0] == 'm' && u[1] == 'o' {
        'M'
    } else {
        u[0]
    }
}

impl LogLine {
    /// Splits the age phrase into `(magnitude, unit abbreviation)`.
    pub fn get_time(&self) -> (r: (String, char))
        requires
            time_wf(self.time@),
        ensures
            r.0@ == age_mag(self.time@),
            r.1 == age_unit(self.time@),
    {
        let t = self.time.as_str();
        let sp = match find_char(t, ' ') {
            Some(i) => i,
            None => {
                proof {
                    assert(false);
                }
                vstd::pervasive::unreached()
            },
        };
        let n = t.unicode_len();
        let mag: String = t.substring_char(0, sp).to_owned();
        proof {
            assert(age_unit_word(t@)[0] == t@[sp + 1]);
            assert(age_unit_word(t@).len() >= 2 ==> age_unit_word(t@)[1] == t@[sp + 2]);
            assert((age_unit_word(t@).len() >= 2) == (sp + 2 < n));
        }
        let unit: char = if sp + 2 < n && t.get_char(sp + 1) == 'm' && t.get_char(sp + 2) == 'o' {
            'M'
        } else {
            t.get_char(sp + 1)
        };
        (mag, unit)
    }

    /// Whether this record carries any refs: the refs field is longer than
    /// the three-character empty sentinel.
    pub fn has_refs(&self) -> (r: bool)
        ensures
            r == (self.refs@.len() > 3),
    {
        self.refs.as_str().unicode_len() > 3
    }
}

} // verus!
