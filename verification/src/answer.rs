//! Finished billing records and the aggregation step that merges duplicate
//! assignments before submission.
//!
//! Two answers share a billing identity when service, project, note and
//! date all match; minutes are never part of the identity — they are the
//! accumulator. Aggregation is a genuine group-by-and-sum: one output
//! record per distinct identity, carrying the sum of all contributing
//! minutes, in first-appearance order; the total of minutes is preserved
//! exactly.

use vstd::prelude::*;

use crate::datetime::Date;

verus! {

/// A fully resolved billing record derived from one interval.
#[derive(Debug, Clone)]
pub struct Answer {
    pub service_id: i64,
    pub project_id: i64,
    pub note: String,
    pub minutes: i64,
    pub date_at: Date,
}

/// Billing identity: everything but the minutes.
pub open spec fn same_identity(a: Answer, b: Answer) -> bool {
    &&& a.service_id == b.service_id
    &&& a.project_id == b.project_id
    &&& a.note@ == b.note@
    &&& a.date_at == b.date_at
}

impl PartialEq for Answer {
    /// Answers compare by billing identity; minutes never take part.
    fn eq(&self, other: &Answer) -> (r: bool) {
        self.service_id == other.service_id && self.project_id == other.project_id && self.note
            == other.note && self.date_at == other.date_at
    }
}

impl vstd::std_specs::cmp::PartialEqSpecImpl for Answer {
    open spec fn obeys_eq_spec() -> bool {
        true
    }

    open spec fn eq_spec(&self, other: &Answer) -> bool {
        same_identity(*self, *other)
    }
}

pub open spec fn abs_of(m: int) -> int {
    if m >= 0 {
        m
    } else {
        -m
    }
}

/// The total of all minutes in a list of answers.
pub open spec fn sum_minutes(s: Seq<Answer>) -> int
    decreases s.len(),
{
    if s.len() == 0 {
        0
    } else {
        sum_minutes(s.drop_last()) + s.last().minutes
    }
}

/// The total of the absolute minute values: the bound within which every
/// partial group sum stays.
pub open spec fn sum_abs_minutes(s: Seq<Answer>) -> int
    decreases s.len(),
{
    if s.len() == 0 {
        0
    } else {
        sum_abs_minutes(s.drop_last()) + abs_of(s.last().minutes as int)
    }
}

/// The minutes a given identity contributes over a whole list.
pub open spec fn group_sum(s: Seq<Answer>, a: Answer) -> int
    decreases s.len(),
{
    if s.len() == 0 {
        0
    } else {
        group_sum(s.drop_last(), a) + if same_identity(s.last(), a) {
            s.last().minutes as int
        } else {
            0
        }
    }
}

/// Some answer in the list shares the given identity.
pub open spec fn has_identity(s: Seq<Answer>, a: Answer) -> bool {
    exists|i: int| 0 <= i < s.len() && same_identity(s[i], a)
}

/// No two answers in the list share an identity.
pub open spec fn distinct_identities(s: Seq<Answer>) -> bool {
    forall|i: int, j: int| 0 <= i < j < s.len() ==> !same_identity(s[i], s[j])
}

/// The index of the first answer sharing the given identity, `-1` when
/// none does.
pub open spec fn find_identity(s: Seq<Answer>, a: Answer) -> int
    decreases s.len(),
{
    if s.len() == 0 {
        -1
    } else if same_identity(s[0], a) {
        0
    } else if find_identity(s.drop_first(), a) == -1 {
        -1
    } else {
        1 + find_identity(s.drop_first(), a)
    }
}

/// The same answer with its accumulator replaced.
pub open spec fn with_minutes(a: Answer, m: int) -> Answer {
    Answer {
        service_id: a.service_id,
        project_id: a.project_id,
        note: a.note,
        minutes: m as i64,
        date_at: a.date_at,
    }
}

/// Fold one answer into an accumulator: add its minutes onto the entry
/// sharing its identity, or append it when its identity is new.
pub open spec fn agg_step(acc: Seq<Answer>, a: Answer) -> Seq<Answer> {
    let i = find_identity(acc, a);
    if i == -1 {
        acc.push(a)
    } else {
        acc.update(i, with_minutes(acc[i], acc[i].minutes + a.minutes))
    }
}

/// The aggregated list: one answer per distinct identity, in order of each
/// identity's first appearance, minutes summed.
pub open spec fn aggregate_spec(s: Seq<Answer>) -> Seq<Answer>
    decreases s.len(),
{
    if s.len() == 0 {
        Seq::empty()
    } else {
        agg_step(aggregate_spec(s.drop_last()), s.last())
    }
}

proof fn lemma_find_identity_props(s: Seq<Answer>, a: Answer)
    ensures
        find_identity(s, a) == -1 ==> !has_identity(s, a),
        find_identity(s, a) != -1 ==> 0 <= find_identity(s, a) < s.len() && same_identity(
            s[find_identity(s, a)],
            a,
        ),
    decreases s.len(),
{
    if s.len() > 0 {
        if !same_identity(s[0], a) {
            lemma_find_identity_props(s.drop_first(), a);
            if find_identity(s.drop_first(), a) == -1 {
                assert forall|i: int| 0 <= i < s.len() implies !same_identity(s[i], a) by {
                    if i > 0 {
                        assert(s.drop_first()[i - 1] == s[i]);
                    }
                }
            } else {
                assert(s.drop_first()[find_identity(s.drop_first(), a)] == s[1 + find_identity(
                    s.drop_first(),
                    a,
                )]);
            }
        }
    }
}

proof fn lemma_find_identity_idx(s: Seq<Answer>, a: Answer, k: int)
    requires
        0 <= k <= s.len(),
        forall|j: int| 0 <= j < k ==> !same_identity(#[trigger] s[j], a),
        k == s.len() || same_identity(s[k], a),
    ensures
        find_identity(s, a) == if k == s.len() {
            -1int
        } else {
            k
        },
    decreases s.len(),
{
    if s.len() > 0 && k > 0 {
        assert forall|j: int| 0 <= j < k - 1 implies !same_identity(
            #[trigger] s.drop_first()[j],
            a,
        ) by {
            assert(s.drop_first()[j] == s[j + 1]);
        }
        if k < s.len() {
            assert(s.drop_first()[k - 1] == s[k]);
        }
        lemma_find_identity_idx(s.drop_first(), a, k - 1);
    }
}

proof fn lemma_sum_push(s: Seq<Answer>, a: Answer)
    ensures
        sum_minutes(s.push(a)) == sum_minutes(s) + a.minutes,
        sum_abs_minutes(s.push(a)) == sum_abs_minutes(s) + abs_of(a.minutes as int),
{
    assert(s.push(a).drop_last() =~= s);
}

proof fn lemma_sum_update(s: Seq<Answer>, i: int, x: Answer)
    requires
        0 <= i < s.len(),
    ensures
        sum_minutes(s.update(i, x)) == sum_minutes(s) - s[i].minutes + x.minutes,
    decreases s.len(),
{
    if i == s.len() - 1 {
        assert(s.update(i, x).drop_last() =~= s.drop_last());
        assert(s.update(i, x).last() == x);
    } else {
        assert(s.update(i, x).drop_last() =~= s.drop_last().update(i, x));
        assert(s.update(i, x).last() == s.last());
        lemma_sum_update(s.drop_last(), i, x);
    }
}

proof fn lemma_group_sum_bound(s: Seq<Answer>, a: Answer)
    ensures
        -sum_abs_minutes(s) <= group_sum(s, a) <= sum_abs_minutes(s),
        sum_abs_minutes(s) >= 0,
    decreases s.len(),
{
    if s.len() > 0 {
        lemma_group_sum_bound(s.drop_last(), a);
    }
}

proof fn lemma_group_sum_congruent(s: Seq<Answer>, a: Answer, b: Answer)
    requires
        same_identity(a, b),
    ensures
        group_sum(s, a) == group_sum(s, b),
    decreases s.len(),
{
    if s.len() > 0 {
        lemma_group_sum_congruent(s.drop_last(), a, b);
    }
}

proof fn lemma_group_sum_absent(s: Seq<Answer>, a: Answer)
    requires
        !has_identity(s, a),
    ensures
        group_sum(s, a) == 0,
    decreases s.len(),
{
    if s.len() > 0 {
        assert(!same_identity(s.last(), a));
        assert forall|i: int| 0 <= i < s.drop_last().len() implies !same_identity(
            #[trigger] s.drop_last()[i],
            a,
        ) by {
            assert(s.drop_last()[i] == s[i]);
        }
        lemma_group_sum_absent(s.drop_last(), a);
    }
}

/// The laws of aggregation, together: the result has pairwise distinct
/// identities, every result identity appears in the input and every input
/// identity in the result, each result entry carries exactly its identity's
/// minute total, and the overall minute total is preserved.
pub proof fn lemma_aggregate_props(s: Seq<Answer>)
    requires
        sum_abs_minutes(s) <= i64::MAX,
    ensures
        distinct_identities(aggregate_spec(s)),
        forall|k: int|
            0 <= k < aggregate_spec(s).len() ==> has_identity(s, #[trigger] aggregate_spec(s)[k]),
        forall|j: int| 0 <= j < s.len() ==> has_identity(aggregate_spec(s), #[trigger] s[j]),
        forall|k: int|
            0 <= k < aggregate_spec(s).len() ==> (#[trigger] aggregate_spec(s)[k]).minutes
                == group_sum(s, aggregate_spec(s)[k]),
        sum_minutes(aggregate_spec(s)) == sum_minutes(s),
        aggregate_spec(s).len() <= s.len(),
    decreases s.len(),
{
    if s.len() > 0 {
        let p = s.drop_last();
        let a = s.last();
        let acc = aggregate_spec(p);
        assert(sum_abs_minutes(p) + abs_of(a.minutes as int) == sum_abs_minutes(s));
        lemma_group_sum_bound(p, a);
        lemma_aggregate_props(p);
        lemma_find_identity_props(acc, a);
        let f = find_identity(acc, a);
        if f == -1 {
            // a's identity is new: it is appended with its own minutes.
            assert(!has_identity(p, a)) by {
                if has_identity(p, a) {
                    let j = choose|j: int| 0 <= j < p.len() && same_identity(p[j], a);
                    assert(has_identity(acc, p[j]));
                    let k = choose|k: int| 0 <= k < acc.len() && same_identity(acc[k], p[j]);
                    assert(same_identity(acc[k], a));
                    assert(has_identity(acc, a));
                }
            }
            lemma_group_sum_absent(p, a);
            lemma_sum_push(acc, a);
            let out = acc.push(a);
            assert forall|k: int| 0 <= k < out.len() implies (#[trigger] out[k]).minutes
                == group_sum(s, out[k]) by {
                if k < acc.len() {
                    assert(out[k] == acc[k]);
                    assert(!same_identity(a, acc[k]));
                    assert(group_sum(s, acc[k]) == group_sum(p, acc[k]));
                } else {
                    assert(out[k] == a);
                    assert(group_sum(s, a) == group_sum(p, a) + a.minutes);
                }
            }
            assert forall|j: int| 0 <= j < s.len() implies has_identity(
                out,
                #[trigger] s[j],
            ) by {
                if j < p.len() {
                    assert(p[j] == s[j]);
                    let k = choose|k: int| 0 <= k < acc.len() && same_identity(acc[k], s[j]);
                    assert(out[k] == acc[k]);
                } else {
                    assert(same_identity(out[acc.len() as int], s[j]));
                }
            }
            assert forall|k: int| 0 <= k < out.len() implies has_identity(
                s,
                #[trigger] out[k],
            ) by {
                if k < acc.len() {
                    assert(out[k] == acc[k]);
                    let j = choose|j: int| 0 <= j < p.len() && same_identity(p[j], acc[k]);
                    assert(s[j] == p[j]);
                } else {
                    assert(same_identity(s[s.len() - 1], out[k]));
                }
            }
        } else {
            // a's identity is already present at f: its minutes are added on.
            let bumped = with_minutes(acc[f], acc[f].minutes + a.minutes);
            let out = acc.update(f, bumped);
            assert(group_sum(p, acc[f]) == acc[f].minutes);
            lemma_group_sum_congruent(p, a, acc[f]);
            assert(-sum_abs_minutes(p) <= group_sum(p, acc[f]) <= sum_abs_minutes(p));
            assert(i64::MIN <= acc[f].minutes + a.minutes <= i64::MAX);
            assert(bumped.minutes == acc[f].minutes + a.minutes);
            assert(same_identity(bumped, acc[f]));
            lemma_sum_update(acc, f, bumped);
            assert(aggregate_spec(s) == out);
            assert forall|k: int| 0 <= k < out.len() implies (#[trigger] out[k]).minutes
                == group_sum(s, out[k]) by {
                if k == f {
                    lemma_group_sum_congruent(p, acc[f], bumped);
                    lemma_group_sum_congruent(p, a, bumped);
                    assert(group_sum(s, bumped) == group_sum(p, bumped) + a.minutes);
                } else {
                    assert(out[k] == acc[k]);
                    assert(!same_identity(a, acc[k])) by {
                        if same_identity(a, acc[k]) {
                            assert(same_identity(acc[f], acc[k]));
                            assert(same_identity(acc[k], acc[f]));
                            assert(false);
                        }
                    }
                    assert(group_sum(s, acc[k]) == group_sum(p, acc[k]));
                }
            }
            assert(distinct_identities(out)) by {
                assert forall|i: int, j: int| 0 <= i < j < out.len() implies !same_identity(
                    out[i],
                    out[j],
                ) by {
                    assert(same_identity(out[i], acc[i]) || out[i] == acc[i]);
                    assert(same_identity(out[j], acc[j]) || out[j] == acc[j]);
                    if same_identity(out[i], out[j]) {
                        assert(same_identity(acc[i], acc[j]));
                    }
                }
            }
            assert forall|j: int| 0 <= j < s.len() implies has_identity(
                out,
                #[trigger] s[j],
            ) by {
                if j < p.len() {
                    assert(p[j] == s[j]);
                    let k = choose|k: int| 0 <= k < acc.len() && same_identity(acc[k], s[j]);
                    if k == f {
                        assert(same_identity(out[f], s[j]));
                    } else {
                        assert(out[k] == acc[k]);
                    }
                } else {
                    assert(same_identity(out[f], a));
                    assert(same_identity(out[f], s[j]));
                }
            }
            assert forall|k: int| 0 <= k < out.len() implies has_identity(
                s,
                #[trigger] out[k],
            ) by {
                let probe = if k == f {
                    acc[f]
                } else {
                    acc[k]
                };
                assert(same_identity(out[k], probe));
                let j = choose|j: int| 0 <= j < p.len() && same_identity(p[j], probe);
                assert(s[j] == p[j]);
                assert(same_identity(s[j], out[k]));
            }
        }
    }
}

proof fn lemma_sum_abs_prefix(s: Seq<Answer>, k: int)
    requires
        0 <= k <= s.len(),
    ensures
        sum_abs_minutes(s.take(k)) <= sum_abs_minutes(s),
    decreases s.len(),
{
    if k == s.len() {
        assert(s.take(k) =~= s);
    } else if s.len() > 0 {
        lemma_sum_abs_prefix(s.drop_last(), k);
        assert(s.drop_last().take(k) =~= s.take(k));
    }
}

fn find_pos(acc: &Vec<Answer>, a: &Answer) -> (r: Option<usize>)
    ensures
        match r {
            Some(k) => 0 <= k < acc@.len() && find_identity(acc@, *a) == k,
            None => find_identity(acc@, *a) == -1,
        },
{
    let mut k: usize = 0;
    while k < acc.len()
        invariant
            k <= acc@.len(),
            forall|j: int| 0 <= j < k ==> !same_identity(#[trigger] acc@[j], *a),
        decreases acc@.len() - k,
    {
        if acc[k].eq(a) {
            proof {
                lemma_find_identity_idx(acc@, *a, k as int);
            }
            return Some(k);
        }
        k += 1;
    }
    proof {
        lemma_find_identity_idx(acc@, *a, acc@.len() as int);
    }
    None
}

/// Merge all answers sharing a billing identity into one, summing their
/// minutes; the result holds one answer per distinct identity, in order of
/// first appearance, and the total of minutes is unchanged.
pub fn aggregate_answers(input: Vec<Answer>) -> (out: Vec<Answer>)
    requires
        sum_abs_minutes(input@) <= i64::MAX,
    ensures
        out@ == aggregate_spec(input@),
        sum_minutes(out@) == sum_minutes(input@),
        distinct_identities(out@),
        forall|k: int|
            0 <= k < out@.len() ==> (#[trigger] out@[k]).minutes == group_sum(input@, out@[k]),
        forall|k: int| 0 <= k < out@.len() ==> has_identity(input@, #[trigger] out@[k]),
        forall|j: int| 0 <= j < input@.len() ==> has_identity(out@, #[trigger] input@[j]),
{
    let ghost orig = input@;
    let mut input = input;
    let mut out: Vec<Answer> = Vec::new();
    let ghost mut i: int = 0;
    while input.len() > 0
        invariant
            0 <= i <= orig.len(),
            input@ == orig.skip(i),
            out@ == aggregate_spec(orig.take(i)),
            sum_abs_minutes(orig) <= i64::MAX,
        decreases input@.len(),
    {
        let a = input.remove(0);
        proof {
            assert(a == orig[i]);
            assert(input@ =~= orig.skip(i + 1));
            assert(orig.take(i + 1).drop_last() =~= orig.take(i));
            assert(orig.take(i + 1).last() == orig[i]);
            lemma_sum_abs_prefix(orig, i + 1);
            lemma_aggregate_props(orig.take(i));
        }
        match find_pos(&out, &a) {
            None => {
                out.push(a);
            },
            Some(k) => {
                proof {
                    lemma_group_sum_bound(orig.take(i), out@[k as int]);
                }
                let ghost before = out@;
                let mut elem = out.remove(k);
                elem.minutes = elem.minutes + a.minutes;
                out.insert(k, elem);
                proof {
                    assert(out@ =~= before.update(
                        k as int,
                        with_minutes(before[k as int], before[k as int].minutes + a.minutes),
                    ));
                }
            },
        }
        proof {
            i = i + 1;
        }
    }
    proof {
        assert(orig.take(orig.len() as int) =~= orig);
        lemma_aggregate_props(orig);
    }
    out
}

/// Law: aggregating a list whose identities are pairwise distinct returns
/// the list unchanged — nothing is merged and nothing is dropped.
pub proof fn lemma_aggregate_distinct_input(s: Seq<Answer>)
    requires
        distinct_identities(s),
    ensures
        aggregate_spec(s) == s,
    decreases s.len(),
{
    if s.len() > 0 {
        let p = s.drop_last();
        let a = s.last();
        assert forall|i: int, j: int| 0 <= i < j < p.len() implies !same_identity(
            #[trigger] p[i],
            #[trigger] p[j],
        ) by {
            assert(p[i] == s[i] && p[j] == s[j]);
        }
        lemma_aggregate_distinct_input(p);
        assert forall|j: int| 0 <= j < p.len() implies !same_identity(#[trigger] p[j], a) by {
            assert(p[j] == s[j] && a == s[s.len() - 1]);
        }
        lemma_find_identity_idx(p, a, p.len() as int);
        assert(p.push(a) =~= s);
    }
}

/// Law: aggregation preserves the total of minutes exactly.
pub proof fn lemma_aggregate_preserves_sum(s: Seq<Answer>)
    requires
        sum_abs_minutes(s) <= i64::MAX,
    ensures
        sum_minutes(aggregate_spec(s)) == sum_minutes(s),
{
    lemma_aggregate_props(s);
}

} // verus!
