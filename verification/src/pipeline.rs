//! The pipeline orchestrator's decisions: the bounded-output line cap, the
//! viewer-or-direct-output fallback, and the per-line streaming step with
//! its budget.  The blocking reads, writes and process spawns themselves
//! stay outside the library; they hand lines in and take rendered text
//! back.

use vstd::prelude::*;

use vstd::arithmetic::div_mod::{lemma_div_by_multiple, lemma_div_is_ordered};

use crate::render::{line_step, print_git_log_line};
use crate::text::{has_member, lines_of, seq_views, str_eq};
use crate::vlist::{load_len, VList};
use crate::PipeError;

verus! {

/// Numerator of the fraction of the terminal height used in bounded mode.
pub const HEIGHT_RATIO_NUM: u32 = 7;

/// Denominator of the fraction of the terminal height used in bounded
/// mode.
pub const HEIGHT_RATIO_DEN: u32 = 10;

/// Relies on crossterm::terminal::size for the current terminal's
/// (columns, rows) pair; yields the row count, or nothing when the size
/// cannot be queried.  The result depends on the environment, so nothing
/// further is promised of it.
#[verifier::external_body]
fn terminal_rows() -> (r: Option<u16>) {
    match crossterm::terminal::size() {
        Ok((_cols, rows)) => Some(rows),
        Err(_) => None,
    }
}

/// The bounded-mode cap for a terminal of `rows` rows: the floor of
/// `rows` times the configured fraction.
pub open spec fn bounded_cap(rows: u16, ratio_num: u32, ratio_den: u32) -> int {
    (rows as int * ratio_num as int) / ratio_den as int
}

/// Computes the cap on output lines for one screen of `rows` rows, with
/// the fraction `ratio_num / ratio_den`.
pub fn line_cap(rows: u16, ratio_num: u32, ratio_den: u32) -> (r: u32)
    requires
        0 < ratio_den,
        ratio_num <= ratio_den,
    ensures
        r == bounded_cap(rows, ratio_num, ratio_den),
{
    proof {
        assert((rows as int) * (ratio_num as int) <= u64::MAX as int) by (nonlinear_arith)
            requires
                rows as int <= 0xFFFF,
                ratio_num as int <= 0xFFFF_FFFF,
        ;
    }
    let prod: u64 = (rows as u64) * (ratio_num as u64);
    let q: u64 = prod / (ratio_den as u64);
    proof {
        assert(rows as int * ratio_num as int <= rows as int * ratio_den as int) by (nonlinear_arith)
            requires
                ratio_num as int <= ratio_den as int,
                0 <= rows as int,
        ;
        lemma_div_is_ordered(
            rows as int * ratio_num as int,
            rows as int * ratio_den as int,
            ratio_den as int,
        );
        lemma_div_by_multiple(rows as int, ratio_den as int);
        assert(q <= rows as int);
    }
    q as u32
}

/// The cap on output lines for one run: effectively unbounded when no
/// bounding was asked for, else the configured fraction of the current
/// terminal height, or nothing when the terminal cannot be queried.
pub fn get_line_limit(is_bounded: bool) -> (r: Option<u32>)
    ensures
        !is_bounded ==> r == Some(u32::MAX),
        is_bounded ==> match r {
            Some(c) => exists|rows: u16|
                c == #[trigger] bounded_cap(rows, HEIGHT_RATIO_NUM, HEIGHT_RATIO_DEN),
            None => true,
        },
{
    if !is_bounded {
        return Some(u32::MAX);
    }
    match terminal_rows() {
        None => None,
        Some(rows) => {
            let c = line_cap(rows, HEIGHT_RATIO_NUM, HEIGHT_RATIO_DEN);
            proof {
                assert(c == bounded_cap(rows, HEIGHT_RATIO_NUM, HEIGHT_RATIO_DEN));
            }
            Some(c)
        },
    }
}

/// Where rendered lines go: the interactive viewer's input stream, or the
/// program's own standard output when the viewer could not be spawned.
pub enum Sink {
    Viewer,
    DirectOut,
}

/// The orchestrator's streaming state: the chosen sink, the remaining
/// line budget, and the trusted set.
pub struct Pipeline {
    pub sink: Sink,
    pub remaining: u32,
    pub vlist: VList,
}

impl Pipeline {
    /// Sets up one run: `cap` lines may still be written, rendered lines
    /// go to the viewer exactly when its spawn succeeded, and the trusted
    /// set is loaded from the optional blob.
    pub fn new(cap: u32, viewer_ok: bool, trusted_text: Option<&str>) -> (r: Self)
        ensures
            r.remaining == cap,
            r.sink == (if viewer_ok {
                Sink::Viewer
            } else {
                Sink::DirectOut
            }),
            match trusted_text {
                None => r.vlist.model() is None,
                Some(t) => r.vlist.model() == Some((lines_of(t@), load_len(lines_of(t@)))),
            },
    {
        Pipeline {
            sink: if viewer_ok {
                Sink::Viewer
            } else {
                Sink::DirectOut
            },
            remaining: cap,
            vlist: VList::new(trusted_text),
        }
    }

    /// True while the line budget allows reading and rendering another
    /// producer line; once false, no further line may be consumed.
    pub fn wants_more(&self) -> (r: bool)
        ensures
            r == (self.remaining > 0),
    {
        self.remaining > 0
    }

    /// True iff the run must block on the viewer's exit once the stream
    /// is drained; with the direct-output fallback there is no process to
    /// wait for.
    pub fn must_wait_for_viewer(&self) -> (r: bool)
        ensures
            r == (self.sink == Sink::Viewer),
    {
        match self.sink {
            Sink::Viewer => true,
            Sink::DirectOut => false,
        }
    }

    /// Consumes one producer line: renders it onto `out` as `line_step`
    /// says and spends one unit of the budget.  Every physical line
    /// counts, graph-only or record.  A defect spends nothing and leaves
    /// the sink text, the trusted set and the budget unchanged.
    pub fn feed_line(&mut self, line: &str, out: &mut String) -> (r: Result<(), PipeError>)
        requires
            old(self).remaining > 0,
        ensures
            final(self).sink == old(self).sink,
            match line_step(line@, old(self).vlist.model()) {
                Ok(step) => r == Result::<(), PipeError>::Ok(()) && final(out)@ == old(out)@
                    + step.0 && final(self).vlist.model() == step.1
                    && final(self).remaining == old(self).remaining - 1,
                Err(e) => r == Result::<(), PipeError>::Err(e) && final(out)@ == old(out)@
                    && final(self).vlist.model() == old(self).vlist.model()
                    && final(self).remaining == old(self).remaining,
            },
    {
        match print_git_log_line(line, out, &mut self.vlist) {
            Ok(u) => {
                self.remaining = self.remaining - 1;
                Ok(u)
            },
            Err(e) => Err(e),
        }
    }

    /// Streams a whole batch of producer lines, exactly as `stream_step`
    /// says: the rendered lines land on `out` in strict production order,
    /// none dropped or reordered, each consumed line spends one budget
    /// unit, lines past the spent budget are never consumed, and the
    /// first defect stops the stream and is returned.
    pub fn feed_lines(&mut self, lines: &Vec<String>, out: &mut String) -> (r: Result<
        (),
        PipeError,
    >)
        ensures
            ({
                let res = stream_step(
                    seq_views(lines@),
                    old(self).vlist.model(),
                    old(self).remaining as nat,
                );
                &&& final(self).sink == old(self).sink
                &&& final(out)@ == old(out)@ + res.0
                &&& final(self).vlist.model() == res.1
                &&& final(self).remaining == old(self).remaining - res.2
                &&& r == (match res.3 {
                    None => Result::<(), PipeError>::Ok(()),
                    Some(e) => Result::<(), PipeError>::Err(e),
                })
            }),
    {
        let ghost av = seq_views(lines@);
        let ghost b0 = old(self).remaining as nat;
        let ghost full = stream_step(av, old(self).vlist.model(), b0);
        let ghost mut acc = Seq::<char>::empty();
        let n = lines.len();
        let mut i: usize = 0;
        proof {
            assert(av.skip(0) =~= av);
            assert(out@ =~= old(out)@ + acc);
            assert(acc + full.0 =~= full.0);
        }
        while i < n && self.remaining > 0
            invariant
                0 <= i <= n,
                n == lines@.len(),
                av == seq_views(lines@),
                b0 == old(self).remaining as nat,
                full == stream_step(av, old(self).vlist.model(), b0),
                out@ == old(out)@ + acc,
                self.sink == old(self).sink,
                self.remaining as nat <= b0,
                ({
                    let rest = stream_step(
                        av.skip(i as int),
                        self.vlist.model(),
                        self.remaining as nat,
                    );
                    &&& full.0 == acc + rest.0
                    &&& full.1 == rest.1
                    &&& full.2 == (b0 - self.remaining as nat) + rest.2
                    &&& full.3 == rest.3
                }),
            decreases n - i,
        {
            let ghost m_i = self.vlist.model();
            let ghost rem_i = self.remaining as nat;
            let ghost rest_i = stream_step(av.skip(i as int), m_i, rem_i);
            let ghost old_acc = acc;
            proof {
                assert(av.skip(i as int)[0] == av[i as int]);
                assert(av.skip(i as int).drop_first() =~= av.skip(i + 1));
                assert(av[i as int] == lines@[i as int]@);
            }
            match self.feed_line(lines[i].as_str(), out) {
                Ok(_) => {
                    proof {
                        match line_step(av[i as int], m_i) {
                            Ok(step) => {
                                let rest_next = stream_step(
                                    av.skip(i + 1),
                                    step.1,
                                    (rem_i - 1) as nat,
                                );
                                assert(rest_i.0 == step.0 + rest_next.0);
                                acc = acc + step.0;
                                assert(out@ =~= old(out)@ + acc);
                                assert(full.0 =~= acc + rest_next.0);
                            },
                            Err(_) => {
                                assert(false);
                            },
                        }
                    }
                    i = i + 1;
                },
                Err(e) => {
                    proof {
                        assert(rest_i.0 == Seq::<char>::empty());
                        assert(full.0 =~= acc);
                        assert(out@ =~= old(out)@ + full.0);
                    }
                    return Err(e);
                },
            }
        }
        proof {
            if self.remaining > 0 {
                assert(av.skip(i as int).len() == 0);
            }
            assert(full.0 =~= acc);
            assert(out@ =~= old(out)@ + full.0);
        }
        Ok(())
    }
}

/// Streaming a whole sequence of producer lines under a budget, as a
/// fold of `line_step`: the rendered text in strict production order,
/// the trusted set's final model, the number of lines consumed, and the
/// first defect if one stops the stream.  Each consumed line spends
/// exactly one budget unit; lines beyond the budget are not consumed.
pub open spec fn stream_step(
    lines: Seq<Seq<char>>,
    m0: Option<(Seq<Seq<char>>, nat)>,
    budget: nat,
) -> (Seq<char>, Option<(Seq<Seq<char>>, nat)>, nat, Option<PipeError>)
    decreases lines.len(),
{
    if budget == 0 || lines.len() == 0 {
        (Seq::<char>::empty(), m0, 0nat, None)
    } else {
        match line_step(lines[0], m0) {
            Err(e) => (Seq::<char>::empty(), m0, 0nat, Some(e)),
            Ok(step) => {
                let rest = stream_step(lines.drop_first(), step.1, (budget - 1) as nat);
                (step.0 + rest.0, rest.1, rest.2 + 1, rest.3)
            },
        }
    }
}

/// The whole-stream cap law: with no defect, streaming consumes exactly
/// the budget when at least that many lines exist — the line after the
/// budget is never consumed — and otherwise every line, none dropped.
pub proof fn lemma_stream_budget(
    lines: Seq<Seq<char>>,
    m0: Option<(Seq<Seq<char>>, nat)>,
    budget: nat,
)
    requires
        stream_step(lines, m0, budget).3 is None,
    ensures
        budget <= lines.len() ==> stream_step(lines, m0, budget).2 == budget,
        budget >= lines.len() ==> stream_step(lines, m0, budget).2 == lines.len(),
    decreases lines.len(),
{
    if budget == 0 || lines.len() == 0 {
    } else {
        match line_step(lines[0], m0) {
            Err(_) => {
                assert(false);
            },
            Ok(step) => {
                lemma_stream_budget(lines.drop_first(), step.1, (budget - 1) as nat);
            },
        }
    }
}

/// `s` with every occurrence of `flag` removed, order kept.
pub open spec fn without_flag(s: Seq<Seq<char>>, flag: Seq<char>) -> Seq<Seq<char>>
    decreases s.len(),
{
    if s.len() == 0 {
        s
    } else if s[0] == flag {
        without_flag(s.drop_first(), flag)
    } else {
        seq![s[0]] + without_flag(s.drop_first(), flag)
    }
}

/// Splits the command-line arguments: recognizes the one bounding flag
/// and forwards every other argument, in order, to the producer.
pub fn parse_cli(args: Vec<String>) -> (r: (Vec<String>, bool))
    ensures
        seq_views(r.0@) == without_flag(seq_views(args@), "--bound"@),
        r.1 == has_member(seq_views(args@), "--bound"@),
{
    let ghost av = seq_views(args@);
    let ghost flag = "--bound"@;
    let n = args.len();
    let mut fwd: Vec<String> = Vec::new();
    let mut bounded = false;
    let mut i: usize = 0;
    proof {
        assert(seq_views(fwd@) =~= Seq::<Seq<char>>::empty());
        assert(av.skip(0) =~= av);
        assert(Seq::<Seq<char>>::empty() + without_flag(av, flag) =~= without_flag(av, flag));
    }
    while i < n
        invariant
            0 <= i <= n,
            n == args@.len(),
            av == seq_views(args@),
            flag == "--bound"@,
            seq_views(fwd@) + without_flag(av.skip(i as int), flag) == without_flag(av, flag),
            bounded == has_member(av.take(i as int), flag),
        decreases n - i,
    {
        let ghost suffix = av.skip(i as int);
        proof {
            assert(suffix[0] == av[i as int]);
            assert(suffix.drop_first() =~= av.skip(i + 1));
        }
        if str_eq(args[i].as_str(), "--bound") {
            bounded = true;
            proof {
                assert(without_flag(suffix, flag) == without_flag(av.skip(i + 1), flag));
                assert(av.take(i + 1)[i as int] == flag);
                assert(has_member(av.take(i + 1), flag));
            }
        } else {
            let ghost old_fwd = fwd@;
            fwd.push(args[i].clone());
            proof {
                assert(without_flag(suffix, flag) == seq![av[i as int]] + without_flag(
                    av.skip(i + 1),
                    flag,
                ));
                assert(seq_views(fwd@) =~= seq_views(old_fwd).push(av[i as int]));
                assert(seq_views(fwd@) + without_flag(av.skip(i + 1), flag) =~= seq_views(old_fwd)
                    + without_flag(suffix, flag));
                assert forall|j: int|
                    0 <= j < i + 1 && #[trigger] av.take(i + 1)[j] == flag implies has_member(
                    av.take(i as int),
                    flag,
                ) by {
                    assert(j < i);
                    assert(av.take(i as int)[j] == flag);
                }
                if has_member(av.take(i as int), flag) {
                    let j = choose|j: int|
                        0 <= j < i && #[trigger] av.take(i as int)[j] == flag;
                    assert(av.take(i + 1)[j] == flag);
                }
                assert(has_member(av.take(i + 1), flag) == has_member(av.take(i as int), flag));
            }
        }
        i = i + 1;
    }
    proof {
        assert(av.take(n as int) =~= av);
        assert(av.skip(n as int) =~= Seq::<Seq<char>>::empty());
        assert(seq_views(fwd@) + Seq::<Seq<char>>::empty() =~= seq_views(fwd@));
    }
    (fwd, bounded)
}

} // verus!
