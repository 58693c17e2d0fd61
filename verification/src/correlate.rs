//! The correlator: at most one finding for each rule name, the most severe
//! first.

use crate::rules::{views, Finding, FindingModel};
use vstd::prelude::*;
use vstd::seq_lib::{to_multiset_build, to_multiset_remove};

verus! {

/// A ranked list with one more finding put in: after every finding that is
/// at least as severe, before the first that is less severe.
pub open spec fn insert_ranked(s: Seq<FindingModel>, f: FindingModel) -> Seq<FindingModel>
    decreases s.len(),
{
    if s.len() == 0 {
        seq![f]
    } else if s.last().severity_value >= f.severity_value {
        s.push(f)
    } else {
        insert_ranked(s.drop_last(), f).push(s.last())
    }
}

/// The findings by falling severity; findings of equal severity stay in the
/// order in which they came.
pub open spec fn rank(s: Seq<FindingModel>) -> Seq<FindingModel>
    decreases s.len(),
{
    if s.len() == 0 {
        s
    } else {
        insert_ranked(rank(s.drop_last()), s.last())
    }
}

/// Whether some finding of the list has the given rule name.
pub open spec fn has_name(s: Seq<FindingModel>, name: Seq<char>) -> bool {
    exists|j: int| 0 <= j < s.len() && (#[trigger] s[j]).rule_name == name
}

/// Whether the finding at place `i` is the first of its rule name.
pub open spec fn is_first_of_name(s: Seq<FindingModel>, i: int) -> bool {
    0 <= i < s.len() && !has_name(s.take(i), s[i].rule_name)
}

/// The findings that are the first of their rule name, in order.
pub open spec fn first_of_each_name(s: Seq<FindingModel>) -> Seq<FindingModel>
    decreases s.len(),
{
    if s.len() == 0 {
        s
    } else if has_name(s.drop_last(), s.last().rule_name) {
        first_of_each_name(s.drop_last())
    } else {
        first_of_each_name(s.drop_last()).push(s.last())
    }
}

/// What correlation makes of a list of findings: the first finding of each
/// rule name, by falling severity.
pub open spec fn spec_correlate(s: Seq<FindingModel>) -> Seq<FindingModel> {
    rank(first_of_each_name(s))
}

/// Whether no finding is more severe than one before it.
pub open spec fn is_ranked(s: Seq<FindingModel>) -> bool {
    forall|i: int, j: int|
        0 <= i < j < s.len() ==> (#[trigger] s[i]).severity_value >= (
        #[trigger] s[j]).severity_value
}

/// Whether no two findings have the same rule name.
pub open spec fn distinct_names(s: Seq<FindingModel>) -> bool {
    forall|i: int, j: int|
        0 <= i < j < s.len() ==> (#[trigger] s[i]).rule_name != (#[trigger] s[j]).rule_name
}

/// Putting a finding into a list puts it at one place and leaves the others
/// in their order.
pub proof fn lemma_insert_ranked_place(s: Seq<FindingModel>, f: FindingModel) -> (at: int)
    ensures
        0 <= at <= s.len(),
        insert_ranked(s, f) == s.insert(at, f),
        forall|k: int| at <= k < s.len() ==> (#[trigger] s[k]).severity_value < f.severity_value,
        at > 0 ==> s[at - 1].severity_value >= f.severity_value,
    decreases s.len(),
{
    if s.len() == 0 {
        assert(seq![f] =~= s.insert(0, f));
        0
    } else if s.last().severity_value >= f.severity_value {
        assert(s.push(f) =~= s.insert(s.len() as int, f));
        s.len() as int
    } else {
        let init = s.drop_last();
        let at = lemma_insert_ranked_place(init, f);
        assert(init.insert(at, f).push(s.last()) =~= s.insert(at, f));
        assert forall|k: int| at <= k < s.len() implies (#[trigger] s[k]).severity_value
            < f.severity_value by {
            if k < init.len() {
                assert(init[k] == s[k]);
            }
        }
        if at > 0 {
            assert(init[at - 1] == s[at - 1]);
        }
        at
    }
}

/// A finding put at the place where the less severe ones begin is put where
/// ranking puts it.
pub proof fn lemma_insert_ranked_at(s: Seq<FindingModel>, f: FindingModel, at: int)
    requires
        0 <= at <= s.len(),
        forall|k: int| at <= k < s.len() ==> (#[trigger] s[k]).severity_value < f.severity_value,
        at > 0 ==> s[at - 1].severity_value >= f.severity_value,
    ensures
        insert_ranked(s, f) == s.insert(at, f),
    decreases s.len(),
{
    if s.len() == 0 {
        assert(seq![f] =~= s.insert(0, f));
    } else if at == s.len() {
        assert(s.push(f) =~= s.insert(at, f));
    } else {
        assert(s.last().severity_value < f.severity_value);
        lemma_insert_ranked_at(s.drop_last(), f, at);
        assert(s.drop_last().insert(at, f).push(s.last()) =~= s.insert(at, f));
    }
}

/// Ranking gives a list in which no finding is more severe than one before
/// it.
pub proof fn lemma_rank_is_ranked(s: Seq<FindingModel>)
    ensures
        is_ranked(rank(s)),
        rank(s).len() == s.len(),
    decreases s.len(),
{
    if s.len() > 0 {
        let before = rank(s.drop_last());
        lemma_rank_is_ranked(s.drop_last());
        let at = lemma_insert_ranked_place(before, s.last());
        let after = before.insert(at, s.last());
        assert forall|i: int, j: int| 0 <= i < j < after.len() implies (
        #[trigger] after[i]).severity_value >= (#[trigger] after[j]).severity_value by {
            if j < at {
                assert(after[i] == before[i] && after[j] == before[j]);
            } else if j == at {
                assert(after[i] == before[i]);
                if i < at - 1 {
                    assert(before[i].severity_value >= before[at - 1].severity_value);
                }
            } else if i < at {
                assert(after[i] == before[i] && after[j] == before[j - 1]);
            } else if i == at {
                assert(after[j] == before[j - 1]);
            } else {
                assert(after[i] == before[i - 1] && after[j] == before[j - 1]);
            }
        }
    }
}

/// Ranking a list that is ranked already changes nothing.
pub proof fn lemma_rank_of_ranked(s: Seq<FindingModel>)
    requires
        is_ranked(s),
    ensures
        rank(s) == s,
    decreases s.len(),
{
    if s.len() > 0 {
        let init = s.drop_last();
        assert(is_ranked(init)) by {
            assert forall|i: int, j: int| 0 <= i < j < init.len() implies (
            #[trigger] init[i]).severity_value >= (#[trigger] init[j]).severity_value by {
                assert(init[i] == s[i] && init[j] == s[j]);
            }
        }
        lemma_rank_of_ranked(init);
        if init.len() > 0 {
            assert(init.last() == s[s.len() - 2]);
            assert(s[s.len() - 2].severity_value >= s[s.len() - 1].severity_value);
        }
        assert(init.push(s.last()) =~= s);
    }
}

/// Ranking twice is ranking once.
pub proof fn lemma_rank_idempotent(s: Seq<FindingModel>)
    ensures
        rank(rank(s)) == rank(s),
{
    lemma_rank_is_ranked(s);
    lemma_rank_of_ranked(rank(s));
}

/// Ranking neither adds nor loses a finding: each is in the ranked list as
/// many times as in the list.
pub proof fn lemma_rank_is_permutation(s: Seq<FindingModel>)
    ensures
        rank(s).to_multiset() == s.to_multiset(),
    decreases s.len(),
{
    if s.len() > 0 {
        let init = s.drop_last();
        let last = s.last();
        let before = rank(init);
        lemma_rank_is_permutation(init);
        let at = lemma_insert_ranked_place(before, last);
        let after = before.insert(at, last);
        assert(after.remove(at) =~= before);
        assert(after[at] == last);
        to_multiset_remove(after, at);
        to_multiset_build(init, last);
        assert(init.push(last) =~= s);
        after.to_multiset_ensures();
        assert(after.contains(last));
        assert(after.to_multiset() =~= before.to_multiset().insert(last));
    }
}

/// The findings of one severity, in order.
pub open spec fn of_severity(s: Seq<FindingModel>, severity: u8) -> Seq<FindingModel> {
    s.filter(|f: FindingModel| f.severity_value == severity)
}

/// A list in which no finding is of the given severity has none to show of it.
proof fn lemma_none_of_severity(s: Seq<FindingModel>, severity: u8)
    requires
        forall|k: int| 0 <= k < s.len() ==> (#[trigger] s[k]).severity_value != severity,
    ensures
        of_severity(s, severity) == Seq::<FindingModel>::empty(),
    decreases s.len(),
{
    reveal(Seq::filter);
    if s.len() > 0 {
        let init = s.drop_last();
        assert forall|k: int| 0 <= k < init.len() implies (#[trigger] init[k]).severity_value
            != severity by {
            assert(init[k] == s[k]);
        }
        lemma_none_of_severity(init, severity);
        assert(s.last() == s[s.len() - 1]);
    }
}

/// Ranking is stable: the findings of any one severity come out in the order
/// in which they went in.
pub proof fn lemma_rank_is_stable(s: Seq<FindingModel>, severity: u8)
    ensures
        of_severity(rank(s), severity) == of_severity(s, severity),
    decreases s.len(),
{
    reveal(Seq::filter);
    if s.len() > 0 {
        let pred = |f: FindingModel| f.severity_value == severity;
        let init = s.drop_last();
        let last = s.last();
        let before = rank(init);
        lemma_rank_is_stable(init, severity);
        let at = lemma_insert_ranked_place(before, last);
        let head = before.take(at);
        let tail = before.skip(at);
        assert(before =~= head + tail);
        assert(before.insert(at, last) =~= head + seq![last] + tail);
        Seq::filter_distributes_over_add(head, tail, pred);
        Seq::filter_distributes_over_add(head + seq![last], tail, pred);
        Seq::filter_distributes_over_add(head, seq![last], pred);
        let single = seq![last];
        assert(single.drop_last() =~= Seq::<FindingModel>::empty());
        assert(Seq::<FindingModel>::empty().filter(pred) =~= Seq::<FindingModel>::empty());
        assert(single.drop_last().filter(pred) =~= Seq::<FindingModel>::empty());
        assert(single.last() == last);
        if last.severity_value == severity {
            assert forall|k: int| 0 <= k < tail.len() implies (#[trigger] tail[k]).severity_value
                != severity by {
                assert(tail[k] == before[at + k]);
            }
            lemma_none_of_severity(tail, severity);
            assert(seq![last].filter(pred) =~= seq![last]);
            assert(of_severity(rank(s), severity) =~= of_severity(before, severity).push(last));
        } else {
            assert(seq![last].filter(pred) =~= Seq::<FindingModel>::empty());
            assert(of_severity(rank(s), severity) =~= of_severity(before, severity));
        }
    }
}

/// Ranking keeps the findings: each finding of the ranked list is one of the
/// list, and each of the list is one of the ranked list.
pub proof fn lemma_rank_keeps_findings(s: Seq<FindingModel>)
    ensures
        forall|k: int| 0 <= k < rank(s).len() ==> s.contains(#[trigger] rank(s)[k]),
        forall|i: int| 0 <= i < s.len() ==> rank(s).contains(#[trigger] s[i]),
    decreases s.len(),
{
    if s.len() > 0 {
        let init = s.drop_last();
        let before = rank(init);
        lemma_rank_keeps_findings(init);
        let at = lemma_insert_ranked_place(before, s.last());
        let after = before.insert(at, s.last());
        assert forall|k: int| 0 <= k < after.len() implies s.contains(#[trigger] after[k]) by {
            if k == at {
                assert(s[s.len() - 1] == after[k]);
            } else {
                let b = if k < at {
                    k
                } else {
                    k - 1
                };
                assert(after[k] == before[b]);
                assert(init.contains(before[b]));
                let w = choose|w: int| 0 <= w < init.len() && init[w] == before[b];
                assert(s[w] == after[k]);
            }
        }
        assert forall|i: int| 0 <= i < s.len() implies after.contains(#[trigger] s[i]) by {
            if i == s.len() - 1 {
                assert(after[at] == s[i]);
            } else {
                assert(init[i] == s[i]);
                assert(before.contains(init[i]));
                let w = choose|w: int| 0 <= w < before.len() && before[w] == init[i];
                let a = if w < at {
                    w
                } else {
                    w + 1
                };
                assert(after[a] == s[i]);
            }
        }
    }
}

/// Ranking a list without two findings of one rule name gives such a list.
pub proof fn lemma_rank_keeps_distinct(s: Seq<FindingModel>)
    requires
        distinct_names(s),
    ensures
        distinct_names(rank(s)),
    decreases s.len(),
{
    if s.len() > 0 {
        let init = s.drop_last();
        let before = rank(init);
        assert(distinct_names(init)) by {
            assert forall|i: int, j: int| 0 <= i < j < init.len() implies (
            #[trigger] init[i]).rule_name != (#[trigger] init[j]).rule_name by {
                assert(init[i] == s[i] && init[j] == s[j]);
            }
        }
        lemma_rank_keeps_distinct(init);
        lemma_rank_keeps_findings(init);
        let at = lemma_insert_ranked_place(before, s.last());
        let after = before.insert(at, s.last());
        assert forall|b: int| 0 <= b < before.len() implies (
        #[trigger] before[b]).rule_name != s.last().rule_name by {
            assert(init.contains(before[b]));
            let w = choose|w: int| 0 <= w < init.len() && init[w] == before[b];
            assert(s[w] == before[b]);
            assert(s[w].rule_name != s[s.len() - 1].rule_name);
        }
        assert forall|i: int, j: int| 0 <= i < j < after.len() implies (
        #[trigger] after[i]).rule_name != (#[trigger] after[j]).rule_name by {
            let bi = if i < at {
                i
            } else {
                i - 1
            };
            let bj = if j < at {
                j
            } else {
                j - 1
            };
            if i == at {
                assert(after[j] == before[bj]);
            } else if j == at {
                assert(after[i] == before[bi]);
            } else {
                assert(after[i] == before[bi] && after[j] == before[bj]);
            }
        }
    }
}

/// Of each rule name in a list, the first findings hold one, and they hold
/// no other names; each of them is the first finding of its name in the list.
pub proof fn lemma_first_of_each_name(s: Seq<FindingModel>)
    ensures
        distinct_names(first_of_each_name(s)),
        first_of_each_name(s).len() <= s.len(),
        forall|name: Seq<char>|
            has_name(first_of_each_name(s), name) == #[trigger] has_name(s, name),
        forall|k: int|
            0 <= k < first_of_each_name(s).len() ==> exists|i: int|
                is_first_of_name(s, i) && s[i] == #[trigger] first_of_each_name(s)[k],
    decreases s.len(),
{
    let out = first_of_each_name(s);
    if s.len() > 0 {
        let init = s.drop_last();
        let last = s.last();
        let before = first_of_each_name(init);
        lemma_first_of_each_name(init);
        assert forall|name: Seq<char>| has_name(out, name) == #[trigger] has_name(s, name) by {
            assert(has_name(before, name) == has_name(init, name));
            if has_name(out, name) {
                let j = choose|j: int| 0 <= j < out.len() && (#[trigger] out[j]).rule_name == name;
                if j < before.len() {
                    assert(before[j].rule_name == name);
                    let w = choose|w: int|
                        0 <= w < init.len() && (#[trigger] init[w]).rule_name == name;
                    assert(s[w].rule_name == name);
                } else {
                    assert(s[s.len() - 1].rule_name == name);
                }
            }
            if has_name(s, name) {
                let j = choose|j: int| 0 <= j < s.len() && (#[trigger] s[j]).rule_name == name;
                if j < init.len() {
                    assert(init[j].rule_name == name);
                }
                if has_name(init, name) {
                    let w = choose|w: int|
                        0 <= w < before.len() && (#[trigger] before[w]).rule_name == name;
                    assert(out[w].rule_name == name);
                } else {
                    assert(j == s.len() - 1);
                    assert(out[out.len() - 1].rule_name == name);
                }
            }
        }
        assert forall|i: int, j: int| 0 <= i < j < out.len() implies (
        #[trigger] out[i]).rule_name != (#[trigger] out[j]).rule_name by {
            if j < before.len() {
                assert(out[i] == before[i] && out[j] == before[j]);
            } else {
                assert(out[i] == before[i]);
                if before[i].rule_name == last.rule_name {
                    assert(has_name(before, last.rule_name));
                    assert(has_name(init, last.rule_name));
                }
            }
        }
        assert forall|k: int| 0 <= k < out.len() implies exists|i: int|
            is_first_of_name(s, i) && s[i] == #[trigger] out[k] by {
            if k < before.len() {
                assert(out[k] == before[k]);
                let i = choose|i: int| is_first_of_name(init, i) && init[i] == before[k];
                assert(s[i] == init[i]);
                assert(s.take(i) =~= init.take(i));
                assert(is_first_of_name(s, i));
            } else {
                assert(s.take(s.len() - 1) =~= init);
                assert(is_first_of_name(s, s.len() - 1));
                assert(s[s.len() - 1] == out[k]);
            }
        }
    }
}

/// A list without two findings of one rule name is its own list of first
/// findings.
pub proof fn lemma_first_of_distinct(s: Seq<FindingModel>)
    requires
        distinct_names(s),
    ensures
        first_of_each_name(s) == s,
    decreases s.len(),
{
    if s.len() > 0 {
        let init = s.drop_last();
        assert(distinct_names(init)) by {
            assert forall|i: int, j: int| 0 <= i < j < init.len() implies (
            #[trigger] init[i]).rule_name != (#[trigger] init[j]).rule_name by {
                assert(init[i] == s[i] && init[j] == s[j]);
            }
        }
        lemma_first_of_distinct(init);
        if has_name(init, s.last().rule_name) {
            let j = choose|j: int|
                0 <= j < init.len() && (#[trigger] init[j]).rule_name == s.last().rule_name;
            assert(s[j].rule_name != s[s.len() - 1].rule_name);
        }
        assert(init.push(s.last()) =~= s);
    }
}

/// Correlation leaves one finding for each rule name of the list, the first
/// that the list holds of that name, and orders what it leaves by falling
/// severity.
pub proof fn lemma_correlate_keeps_first(s: Seq<FindingModel>)
    ensures
        distinct_names(spec_correlate(s)),
        is_ranked(spec_correlate(s)),
        forall|name: Seq<char>| has_name(spec_correlate(s), name) == #[trigger] has_name(s, name),
        forall|k: int|
            0 <= k < spec_correlate(s).len() ==> exists|i: int|
                is_first_of_name(s, i) && s[i] == #[trigger] spec_correlate(s)[k],
{
    let firsts = first_of_each_name(s);
    let out = spec_correlate(s);
    lemma_first_of_each_name(s);
    lemma_rank_keeps_distinct(firsts);
    lemma_rank_is_ranked(firsts);
    lemma_rank_keeps_findings(firsts);
    assert forall|k: int| 0 <= k < out.len() implies exists|i: int|
        is_first_of_name(s, i) && s[i] == #[trigger] out[k] by {
        assert(firsts.contains(out[k]));
        let w = choose|w: int| 0 <= w < firsts.len() && firsts[w] == out[k];
        let i = choose|i: int| is_first_of_name(s, i) && s[i] == firsts[w];
        assert(is_first_of_name(s, i) && s[i] == out[k]);
    }
    assert forall|name: Seq<char>| has_name(out, name) == #[trigger] has_name(s, name) by {
        assert(has_name(firsts, name) == has_name(s, name));
        if has_name(out, name) {
            let j = choose|j: int| 0 <= j < out.len() && (#[trigger] out[j]).rule_name == name;
            assert(firsts.contains(out[j]));
            let w = choose|w: int| 0 <= w < firsts.len() && firsts[w] == out[j];
            assert(firsts[w].rule_name == name);
        }
        if has_name(firsts, name) {
            let j = choose|j: int|
                0 <= j < firsts.len() && (#[trigger] firsts[j]).rule_name == name;
            assert(out.contains(firsts[j]));
            let w = choose|w: int| 0 <= w < out.len() && out[w] == firsts[j];
            assert(out[w].rule_name == name);
        }
    }
}

/// Of two findings with the same rule name, correlation leaves the first
/// alone.
pub proof fn lemma_correlate_pair(a: FindingModel, b: FindingModel)
    requires
        a.rule_name == b.rule_name,
    ensures
        spec_correlate(seq![a, b]) == seq![a],
{
    reveal_with_fuel(first_of_each_name, 3);
    reveal_with_fuel(rank, 3);
    let both = seq![a, b];
    let one = both.drop_last();
    assert(one =~= seq![a]);
    assert(one.drop_last() =~= Seq::<FindingModel>::empty());
    assert(!has_name(one.drop_last(), a.rule_name));
    assert(first_of_each_name(one) =~= seq![a]);
    assert(one[0].rule_name == both.last().rule_name);
    assert(has_name(one, both.last().rule_name));
    assert(first_of_each_name(both) =~= seq![a]);
    assert(rank(one) =~= one);
}

/// Correlating twice is correlating once.
pub proof fn lemma_correlate_idempotent(s: Seq<FindingModel>)
    ensures
        spec_correlate(spec_correlate(s)) == spec_correlate(s),
{
    let firsts = first_of_each_name(s);
    lemma_first_of_each_name(s);
    lemma_rank_keeps_distinct(firsts);
    lemma_first_of_distinct(rank(firsts));
    lemma_rank_idempotent(firsts);
}

/// Two lists with the same rest from some place on have the same element at
/// that place and the same rest after it.
proof fn lemma_same_rest<T>(a: Seq<T>, i: int, b: Seq<T>, j: int)
    requires
        0 <= i < a.len(),
        0 <= j <= b.len(),
        a.skip(i) == b.skip(j),
    ensures
        j < b.len(),
        a[i] == b[j],
        a.skip(i + 1) == b.skip(j + 1),
{
    assert(a.skip(i).len() == a.len() - i);
    assert(b.skip(j).len() == b.len() - j);
    assert(a.skip(i)[0] == a[i]);
    assert(b.skip(j)[0] == b[j]);
    assert(a.skip(i + 1) =~= a.skip(i).drop_first());
    assert(b.skip(j + 1) =~= b.skip(j).drop_first());
}

/// Orders findings by falling severity. Findings of equal severity stay in
/// the order in which they came.
pub fn sort_by_severity(findings: &mut Vec<Finding>)
    ensures
        views(final(findings)@) == rank(views(old(findings)@)),
{
    let ghost orig = findings@;
    let n = findings.len();
    let mut i: usize = 0;
    proof {
        assert(views(findings@.take(0)) =~= rank(views(orig.take(0))));
        assert(findings@.skip(0) =~= orig.skip(0));
    }
    while i < n
        invariant
            i <= n,
            n == orig.len(),
            findings@.len() == n,
            views(findings@.take(i as int)) == rank(views(orig.take(i as int))),
            findings@.skip(i as int) == orig.skip(i as int),
        decreases n - i,
    {
        let ghost before = findings@;
        let ghost ranked = views(before.take(i as int));
        proof {
            lemma_same_rest(before, i as int, orig, i as int);
        }
        let x = findings.remove(i);
        let mut j: usize = i;
        while j > 0 && findings[j - 1].severity_value < x.severity_value
            invariant
                j <= i,
                i < n,
                findings@ == before.remove(i as int),
                before.len() == n,
                forall|k: int|
                    j <= k < i ==> (#[trigger] findings@[k]).severity_value < x.severity_value,
            decreases j,
        {
            j -= 1;
        }
        findings.insert(j, x);
        proof {
            let held = before.remove(i as int);
            assert(views(held.take(i as int)) =~= ranked);
            assert forall|k: int| j <= k < ranked.len() implies (
            #[trigger] ranked[k]).severity_value < x@.severity_value by {
                assert(ranked[k] == held[k]@);
            }
            if j > 0 {
                assert(ranked[j - 1] == held[j - 1]@);
            }
            lemma_insert_ranked_at(ranked, x@, j as int);
            let grown = views(orig.take(i + 1));
            assert(grown.drop_last() =~= views(orig.take(i as int)));
            assert(grown.last() == x@);
            assert(rank(grown) == insert_ranked(ranked, x@));
            assert(views(findings@.take(i + 1)) =~= ranked.insert(j as int, x@));
            assert(findings@.skip(i + 1) =~= before.skip(i + 1));
        }
        i += 1;
    }
    proof {
        assert(findings@.take(n as int) =~= findings@);
        assert(orig.take(n as int) =~= orig);
    }
}

/// Whether one of the first `upto` findings has the given rule name.
pub(crate) fn named_among(findings: &Vec<Finding>, upto: usize, name: &String) -> (r: bool)
    requires
        upto <= findings.len(),
    ensures
        r == has_name(views(findings@.take(upto as int)), name@),
{
    let ghost held = views(findings@.take(upto as int));
    let mut k: usize = 0;
    while k < upto
        invariant
            k <= upto <= findings.len(),
            held == views(findings@.take(upto as int)),
            forall|w: int| 0 <= w < k ==> (#[trigger] held[w]).rule_name != name@,
        decreases upto - k,
    {
        proof {
            assert(held[k as int] == findings@[k as int]@);
        }
        if findings[k].rule_name == *name {
            return true;
        }
        k += 1;
    }
    false
}

/// Leaves of each rule name the first finding only, in the order in which
/// the findings came.
pub fn keep_first_of_each_name(findings: &mut Vec<Finding>)
    ensures
        views(final(findings)@) == first_of_each_name(views(old(findings)@)),
{
    let ghost orig = findings@;
    let ghost mut done: int = 0;
    let mut kept: usize = 0;
    proof {
        assert(views(findings@.take(0)) =~= first_of_each_name(views(orig.take(0))));
        assert(findings@.skip(0) =~= orig.skip(0));
    }
    while kept < findings.len()
        invariant
            kept <= findings.len(),
            0 <= done <= orig.len(),
            findings.len() - kept == orig.len() - done,
            findings@.skip(kept as int) == orig.skip(done),
            views(findings@.take(kept as int)) == first_of_each_name(views(orig.take(done))),
        decreases findings.len() - kept,
    {
        let ghost before = findings@;
        let ghost firsts = views(before.take(kept as int));
        let ghost seen_all = views(orig.take(done));
        let ghost grown = views(orig.take(done + 1));
        proof {
            lemma_same_rest(before, kept as int, orig, done);
            lemma_first_of_each_name(seen_all);
            assert(grown.drop_last() =~= seen_all);
            assert(grown.last() == orig[done]@);
        }
        let seen = named_among(findings, kept, &findings[kept].rule_name);
        if seen {
            findings.remove(kept);
            proof {
                assert(findings@.take(kept as int) =~= before.take(kept as int));
                assert(findings@.skip(kept as int) =~= before.skip(kept + 1));
            }
        } else {
            kept += 1;
            proof {
                assert(views(findings@.take(kept as int)) =~= firsts.push(orig[done]@));
            }
        }
        proof {
            done = done + 1;
        }
    }
    proof {
        assert(findings@.take(kept as int) =~= findings@);
        assert(orig.take(done) =~= orig);
    }
}

/// Correlates findings: leaves of each rule name the first finding, then
/// orders what is left by falling severity.
pub fn correlate_findings(findings: &mut Vec<Finding>)
    ensures
        views(final(findings)@) == spec_correlate(views(old(findings)@)),
{
    keep_first_of_each_name(findings);
    sort_by_severity(findings);
}

} // verus!
