//! The output stage: which outcomes are reported under the verbosity
//! switch, how each line is rendered, and the sorted mode's ordering of
//! success lines by hash string.

use vstd::prelude::*;
use vstd::string::StrSliceExecFns;
use vstd::string::StringExecFns;

use crate::job::Outcome;

verus! {

broadcast use
    vstd::seq_lib::group_to_multiset_ensures,
    vstd::multiset::group_multiset_axioms,
;

/// Lexicographic order on character sequences by code point; for the
/// hash strings compared here (ASCII hex) this is byte-wise order.
pub open spec fn chars_le(a: Seq<char>, b: Seq<char>) -> bool
    decreases a.len(),
{
    if a.len() == 0 {
        true
    } else if b.len() == 0 {
        false
    } else if a[0] as u32 != b[0] as u32 {
        (a[0] as u32) < (b[0] as u32)
    } else {
        chars_le(a.drop_first(), b.drop_first())
    }
}

pub proof fn lemma_chars_le_total(a: Seq<char>, b: Seq<char>)
    ensures
        chars_le(a, b) || chars_le(b, a),
    decreases a.len(),
{
    if a.len() == 0 || b.len() == 0 {
    } else if a[0] as u32 != b[0] as u32 {
    } else {
        lemma_chars_le_total(a.drop_first(), b.drop_first());
    }
}

pub proof fn lemma_chars_le_trans(a: Seq<char>, b: Seq<char>, c: Seq<char>)
    requires
        chars_le(a, b),
        chars_le(b, c),
    ensures
        chars_le(a, c),
    decreases a.len(),
{
    if a.len() == 0 {
    } else if a[0] as u32 == b[0] as u32 && b[0] as u32 == c[0] as u32 {
        lemma_chars_le_trans(a.drop_first(), b.drop_first(), c.drop_first());
    }
}

/// Compare two strings in the order `chars_le`.
pub fn str_le(a: &str, b: &str) -> (r: bool)
    ensures
        r == chars_le(a@, b@),
{
    let alen = a.unicode_len();
    let blen = b.unicode_len();
    let mut i: usize = 0;
    proof {
        assert(a@.skip(0) =~= a@);
        assert(b@.skip(0) =~= b@);
    }
    loop
        invariant
            i <= alen,
            i <= blen,
            alen == a@.len(),
            blen == b@.len(),
            chars_le(a@, b@) == chars_le(a@.skip(i as int), b@.skip(i as int)),
        decreases alen - i,
    {
        if i >= alen {
            proof {
                assert(a@.skip(i as int).len() == 0);
            }
            return true;
        }
        if i >= blen {
            proof {
                assert(b@.skip(i as int).len() == 0);
                assert(a@.skip(i as int).len() > 0);
            }
            return false;
        }
        let ca = a.get_char(i) as u32;
        let cb = b.get_char(i) as u32;
        proof {
            assert(a@.skip(i as int)[0] == a@[i as int]);
            assert(b@.skip(i as int)[0] == b@[i as int]);
        }
        if ca != cb {
            return ca < cb;
        }
        proof {
            assert(a@.skip(i as int).drop_first() =~= a@.skip(i as int + 1));
            assert(b@.skip(i as int).drop_first() =~= b@.skip(i as int + 1));
        }
        i = i + 1;
    }
}

/// One successful result: a file's path and the hex digest of its bytes.
pub struct Success {
    pub path: String,
    pub hash: String,
}

/// Non-decreasing by hash string.
pub open spec fn sorted_by_hash(s: Seq<Success>) -> bool {
    forall|i: int, j: int|
        0 <= i < j < s.len() ==> chars_le(#[trigger] s[i].hash@, #[trigger] s[j].hash@)
}

/// The index of a minimal hash among the remaining successes.
fn min_hash_index(v: &Vec<Success>) -> (m: usize)
    requires
        v@.len() > 0,
    ensures
        m < v@.len(),
        forall|j: int| 0 <= j < v@.len() ==> chars_le(v@[m as int].hash@, #[trigger] v@[j].hash@),
{
    let mut m: usize = 0;
    let mut i: usize = 1;
    proof {
        lemma_chars_le_total(v@[0].hash@, v@[0].hash@);
    }
    while i < v.len()
        invariant
            m < i <= v@.len(),
            forall|j: int| 0 <= j < i ==> chars_le(v@[m as int].hash@, #[trigger] v@[j].hash@),
        decreases v@.len() - i,
    {
        if str_le(v[i].hash.as_str(), v[m].hash.as_str()) {
            proof {
                assert forall|j: int| 0 <= j < i + 1 implies chars_le(
                    v@[i as int].hash@,
                    v@[j].hash@,
                ) by {
                    if j < i as int {
                        lemma_chars_le_trans(v@[i as int].hash@, v@[m as int].hash@, v@[j].hash@);
                    } else {
                        lemma_chars_le_total(v@[i as int].hash@, v@[i as int].hash@);
                    }
                }
            }
            m = i;
        } else {
            proof {
                lemma_chars_le_total(v@[m as int].hash@, v@[i as int].hash@);
            }
        }
        i = i + 1;
    }
    m
}

/// Sort successes by hash string, keeping exactly the same collection
/// of results: the output is non-decreasing by hash and is a
/// permutation (equal multiset) of the input.
pub fn sort_successes(v: Vec<Success>) -> (r: Vec<Success>)
    ensures
        sorted_by_hash(r@),
        r@.to_multiset() == v@.to_multiset(),
{
    let ghost orig = v@;
    let mut v = v;
    let mut out: Vec<Success> = Vec::new();
    proof {
        assert(out@.to_multiset().add(v@.to_multiset()) =~= orig.to_multiset());
    }
    while v.len() > 0
        invariant
            out@.to_multiset().add(v@.to_multiset()) == orig.to_multiset(),
            sorted_by_hash(out@),
            forall|p: int, q: int|
                0 <= p < out@.len() && 0 <= q < v@.len() ==> chars_le(
                    #[trigger] out@[p].hash@,
                    #[trigger] v@[q].hash@,
                ),
        decreases v@.len(),
    {
        let ghost ov = v@;
        let ghost oo = out@;
        let m = min_hash_index(&v);
        let x = v.remove(m);
        out.push(x);
        proof {
            ov.to_multiset_ensures();
            oo.to_multiset_ensures();
            assert(out@.to_multiset().add(v@.to_multiset()) =~= orig.to_multiset());
            assert forall|p: int, q: int|
                0 <= p < out@.len() && 0 <= q < v@.len() implies chars_le(
                #[trigger] out@[p].hash@,
                #[trigger] v@[q].hash@,
            ) by {
                assert(v@[q] == if q < m as int {
                    ov[q]
                } else {
                    ov[q + 1]
                });
                if p < oo.len() {
                    assert(out@[p] == oo[p]);
                } else {
                    assert(out@[p] == ov[m as int]);
                }
            }
            assert(sorted_by_hash(out@));
        }
    }
    out
}

/// A success line: the hash, a tab, then the path.
pub open spec fn success_line(hash: Seq<char>, path: Seq<char>) -> Seq<char> {
    hash + seq!['\t'] + path
}

/// Render one success as its output line.
pub fn render_success(path: &str, hash: &str) -> (line: String)
    ensures
        line@ == success_line(hash@, path@),
{
    let mut s: String = hash.to_owned();
    s.append("\t");
    s.append(path);
    proof {
        reveal_strlit("\t");
        assert(("\t")@ =~= seq!['\t']);
        assert(s@ =~= success_line(hash@, path@));
    }
    s
}

/// The status line of a non-success outcome: the tagged message that is
/// reported on the status stream.
pub open spec fn status_text(o: Outcome) -> Seq<char> {
    match o {
        Outcome::Hashed { .. } => Seq::<char>::empty(),
        Outcome::Ignored { path } => ("Ignored(")@ + path@ + (")")@,
        Outcome::ReadError { path: _, message } => ("Io(")@ + message@ + (")")@,
        Outcome::TraversalFailed { message } => ("WalkDir(")@ + message@ + (")")@,
    }
}

/// Whether an outcome produces a line under the given verbosity:
/// successes and hard errors always, ignored entries only when verbose.
pub open spec fn emitted(o: Outcome, verbose: bool) -> bool {
    match o {
        Outcome::Hashed { .. } => true,
        Outcome::Ignored { .. } => verbose,
        Outcome::ReadError { .. } => true,
        Outcome::TraversalFailed { .. } => true,
    }
}

/// What the output stage does with one outcome.
pub enum Emit {
    /// Print (or, in sorted mode, buffer) this success.
    Success(Success),
    /// Print this status line at once.
    Status(String),
    /// Print nothing.
    Quiet,
}

/// The one emission each outcome maps to under the given verbosity.
pub open spec fn emit_matches(o: Outcome, verbose: bool, r: Emit) -> bool {
    match o {
        Outcome::Hashed { path, hash } => r matches Emit::Success(s) && s.path == path && s.hash
            == hash,
        _ => if emitted(o, verbose) {
            r matches Emit::Status(t) && t@ == status_text(o)
        } else {
            r is Quiet
        },
    }
}

fn tagged_line(tag: &str, body: &str, close: &str) -> (r: String)
    ensures
        r@ == tag@ + body@ + close@,
{
    let mut t: String = tag.to_owned();
    t.append(body);
    t.append(close);
    proof {
        assert(t@ =~= tag@ + body@ + close@);
    }
    t
}

/// Decide what the output stage does with one outcome: hand successes
/// on, render the status line of every reportable failure, and stay
/// quiet on ignored entries unless verbose.
pub fn triage(o: Outcome, verbose: bool) -> (r: Emit)
    ensures
        emit_matches(o, verbose, r),
{
    match o {
        Outcome::Hashed { path, hash } => Emit::Success(Success { path, hash }),
        Outcome::Ignored { path } => {
            if verbose {
                Emit::Status(tagged_line("Ignored(", path.as_str(), ")"))
            } else {
                Emit::Quiet
            }
        },
        Outcome::ReadError { path: _, message } => Emit::Status(
            tagged_line("Io(", message.as_str(), ")"),
        ),
        Outcome::TraversalFailed { message } => Emit::Status(
            tagged_line("WalkDir(", message.as_str(), ")"),
        ),
    }
}

/// The views of a sequence of strings.
pub open spec fn views_of(v: Seq<String>) -> Seq<Seq<char>> {
    v.map_values(|s: String| s@)
}

/// The successes of a batch, in arrival order.
pub open spec fn successes_of(s: Seq<Outcome>) -> Seq<Success>
    decreases s.len(),
{
    if s.len() == 0 {
        Seq::<Success>::empty()
    } else {
        successes_of(s.drop_last()) + (match s.last() {
            Outcome::Hashed { path, hash } => seq![Success { path, hash }],
            _ => Seq::<Success>::empty(),
        })
    }
}

/// The status lines of a batch under the given verbosity, in arrival
/// order: one per reportable non-success outcome.
pub open spec fn status_lines(s: Seq<Outcome>, verbose: bool) -> Seq<Seq<char>>
    decreases s.len(),
{
    if s.len() == 0 {
        Seq::<Seq<char>>::empty()
    } else {
        status_lines(s.drop_last(), verbose) + (if s.last() is Hashed {
            Seq::<Seq<char>>::empty()
        } else if emitted(s.last(), verbose) {
            seq![status_text(s.last())]
        } else {
            Seq::<Seq<char>>::empty()
        })
    }
}

/// The success lines of a sequence of successes, in the same order.
pub open spec fn rendered_lines(v: Seq<Success>) -> Seq<Seq<char>>
    decreases v.len(),
{
    if v.len() == 0 {
        Seq::<Seq<char>>::empty()
    } else {
        rendered_lines(v.drop_last()).push(success_line(v.last().hash@, v.last().path@))
    }
}

/// Split a batch of outcomes into its successes and its status lines,
/// both in arrival order.
pub fn split_outcomes(outcomes: Vec<Outcome>, verbose: bool) -> (r: (Vec<Success>, Vec<String>))
    ensures
        r.0@ == successes_of(outcomes@),
        views_of(r.1@) == status_lines(outcomes@, verbose),
{
    let ghost all = outcomes@;
    let mut stack: Vec<Outcome> = Vec::new();
    let mut outcomes = outcomes;
    while outcomes.len() > 0
        invariant
            outcomes@ == all.take(outcomes@.len() as int),
            stack@.len() + outcomes@.len() == all.len(),
            forall|k: int| 0 <= k < stack@.len() ==> #[trigger] stack@[k] == all[all.len() - 1 - k],
        decreases outcomes@.len(),
    {
        let o = outcomes.pop().unwrap();
        proof {
            assert(o == all[outcomes@.len() as int]);
            assert(all.take((outcomes@.len() + 1) as int).take(outcomes@.len() as int) =~= all.take(
                outcomes@.len() as int,
            ));
        }
        stack.push(o);
    }
    let mut succ: Vec<Success> = Vec::new();
    let mut stat: Vec<String> = Vec::new();
    proof {
        assert(all.take(0) =~= Seq::<Outcome>::empty());
        assert(views_of(stat@) =~= status_lines(all.take(0), verbose));
    }
    while stack.len() > 0
        invariant
            stack@.len() <= all.len(),
            forall|k: int| 0 <= k < stack@.len() ==> #[trigger] stack@[k] == all[all.len() - 1 - k],
            succ@ == successes_of(all.take(all.len() - stack@.len())),
            views_of(stat@) == status_lines(all.take(all.len() - stack@.len()), verbose),
        decreases stack@.len(),
    {
        let ghost i: int = all.len() - stack@.len();
        let o = stack.pop().unwrap();
        proof {
            assert(o == all[i as int]);
            assert(all.take(i as int + 1).drop_last() =~= all.take(i as int));
            assert(all.take(i as int + 1).last() == all[i as int]);
        }
        let ghost old_stat = stat@;
        match triage(o, verbose) {
            Emit::Success(s) => {
                succ.push(s);
            },
            Emit::Status(t) => {
                stat.push(t);
                proof {
                    assert(views_of(old_stat.push(t)) =~= views_of(old_stat).push(t@));
                }
            },
            Emit::Quiet => {},
        }
        proof {
            assert(succ@ =~= successes_of(all.take(i as int + 1)));
            assert(views_of(stat@) =~= status_lines(all.take(i as int + 1), verbose));
        }
    }
    proof {
        assert(all.take(all.len() as int) =~= all);
    }
    (succ, stat)
}

/// Render every success as its output line, in order.
pub fn render_successes(v: Vec<Success>) -> (lines: Vec<String>)
    ensures
        views_of(lines@) == rendered_lines(v@),
{
    let mut lines: Vec<String> = Vec::new();
    let mut i: usize = 0;
    proof {
        assert(v@.take(0) =~= Seq::<Success>::empty());
        assert(views_of(lines@) =~= rendered_lines(v@.take(0)));
    }
    while i < v.len()
        invariant
            i <= v@.len(),
            views_of(lines@) == rendered_lines(v@.take(i as int)),
        decreases v@.len() - i,
    {
        let ghost old_lines = lines@;
        let line = render_success(v[i].path.as_str(), v[i].hash.as_str());
        lines.push(line);
        proof {
            assert(v@.take(i as int + 1).drop_last() =~= v@.take(i as int));
            assert(v@.take(i as int + 1).last() == v@[i as int]);
            assert(views_of(old_lines.push(line)) =~= views_of(old_lines).push(line@));
        }
        i = i + 1;
    }
    proof {
        assert(v@.take(v@.len() as int) =~= v@);
    }
    lines
}

/// Unsorted (streaming) mode over a full batch: the success lines and
/// the status lines, each in arrival order — every success and every
/// reportable failure exactly once.
pub fn unsorted_output(outcomes: Vec<Outcome>, verbose: bool) -> (r: (Vec<String>, Vec<String>))
    ensures
        views_of(r.0@) == rendered_lines(successes_of(outcomes@)),
        views_of(r.1@) == status_lines(outcomes@, verbose),
{
    let (succ, stat) = split_outcomes(outcomes, verbose);
    let lines = render_successes(succ);
    (lines, stat)
}

/// Sorted mode over a full batch: the status lines in arrival order,
/// and the success lines printed non-decreasing by hash string — a
/// permutation of the batch's successes and nothing else.
pub fn sorted_output(outcomes: Vec<Outcome>, verbose: bool) -> (r: (Vec<String>, Vec<String>))
    ensures
        views_of(r.1@) == status_lines(outcomes@, verbose),
        r.0@.len() == successes_of(outcomes@).len(),
        exists|ss: Seq<Success>|
            sorted_by_hash(ss) && ss.to_multiset() == successes_of(outcomes@).to_multiset()
                && views_of(r.0@) == rendered_lines(ss),
{
    let ghost all = outcomes@;
    let (succ, stat) = split_outcomes(outcomes, verbose);
    let sorted = sort_successes(succ);
    let ghost witness = sorted@;
    let lines = render_successes(sorted);
    proof {
        witness.to_multiset_ensures();
        successes_of(all).to_multiset_ensures();
        assert(rendered_lines(witness).len() == witness.len()) by {
            lemma_rendered_lines_len(witness);
        }
        assert(views_of(lines@).len() == lines@.len());
        assert(sorted_by_hash(witness) && witness.to_multiset() == successes_of(
            all,
        ).to_multiset() && views_of(lines@) == rendered_lines(witness));
    }
    (lines, stat)
}

/// A batch renders to exactly one line per success.
pub proof fn lemma_rendered_lines_len(v: Seq<Success>)
    ensures
        rendered_lines(v).len() == v.len(),
    decreases v.len(),
{
    if v.len() > 0 {
        lemma_rendered_lines_len(v.drop_last());
    }
}

/// The number of hard errors (read failures and traversal failures) in
/// a batch.
pub open spec fn error_count(s: Seq<Outcome>) -> nat
    decreases s.len(),
{
    if s.len() == 0 {
        0
    } else {
        error_count(s.drop_last()) + (match s.last() {
            Outcome::ReadError { .. } => 1nat,
            Outcome::TraversalFailed { .. } => 1nat,
            _ => 0nat,
        })
    }
}

/// The number of ignored entries in a batch.
pub open spec fn ignored_count(s: Seq<Outcome>) -> nat
    decreases s.len(),
{
    if s.len() == 0 {
        0
    } else {
        ignored_count(s.drop_last()) + (if s.last() is Ignored {
            1nat
        } else {
            0nat
        })
    }
}

/// Law: verbosity only governs ignored entries. With verbose off, no
/// ignored entry appears in the output — the status lines are exactly
/// one per hard error; with verbose on, every ignored entry produces
/// exactly one status line beside those.
pub proof fn lemma_verbosity(s: Seq<Outcome>)
    ensures
        status_lines(s, false).len() == error_count(s),
        status_lines(s, true).len() == error_count(s) + ignored_count(s),
    decreases s.len(),
{
    if s.len() > 0 {
        lemma_verbosity(s.drop_last());
    }
}

} // verus!
