//! Ranking of match candidates by confidence and greedy non-maximum
//! suppression of overlapping detections.

use crate::match_result::MatchResult;
use vstd::prelude::*;

verus! {

/// Fixed overlap threshold of the suppression stage: detections whose
/// intersection-over-union with a better one reaches 0.5 are discarded.
pub const NMS_IOU_THRESHOLD: u32 = 500_000;

/// A sequence is ranked when confidences never increase along it.
pub open spec fn sorted_desc(s: Seq<MatchResult>) -> bool {
    forall|i: int, j: int| 0 <= i <= j < s.len() ==> s[i].confidence >= s[j].confidence
}

/// Insert `m` behind every element whose confidence is at least `m`'s
/// (the stable insertion step of a descending sort).
pub open spec fn spec_insert_desc(m: MatchResult, s: Seq<MatchResult>) -> Seq<MatchResult>
    decreases s.len(),
{
    if s.len() == 0 {
        seq![m]
    } else if m.confidence > s[0].confidence {
        seq![m] + s
    } else {
        seq![s[0]] + spec_insert_desc(m, s.drop_first())
    }
}

/// Stable sort by descending confidence, as an insertion sort.
pub open spec fn spec_sort_desc(s: Seq<MatchResult>) -> Seq<MatchResult>
    decreases s.len(),
{
    if s.len() == 0 {
        Seq::empty()
    } else {
        spec_insert_desc(s.last(), spec_sort_desc(s.drop_last()))
    }
}

proof fn lemma_insert_desc_props(m: MatchResult, s: Seq<MatchResult>)
    requires
        sorted_desc(s),
    ensures
        sorted_desc(spec_insert_desc(m, s)),
        spec_insert_desc(m, s).len() == s.len() + 1,
        forall|i: int|
            0 <= i < spec_insert_desc(m, s).len() ==> (spec_insert_desc(m, s)[i] == m || s.contains(
                #[trigger] spec_insert_desc(m, s)[i],
            )),
    decreases s.len(),
{
    if s.len() == 0 {
    } else if m.confidence > s[0].confidence {
    } else {
        lemma_insert_desc_props(m, s.drop_first());
        let out = spec_insert_desc(m, s);
        let tail = spec_insert_desc(m, s.drop_first());
        assert forall|i: int| 0 <= i < out.len() implies (out[i] == m || s.contains(
            #[trigger] out[i],
        )) by {
            if i > 0 {
                assert(out[i] == tail[i - 1]);
                if tail[i - 1] != m {
                    let k = choose|k: int|
                        0 <= k < s.drop_first().len() && s.drop_first()[k] == tail[i - 1];
                    assert(s[k + 1] == tail[i - 1]);
                }
            }
        }
        assert forall|i: int, j: int|
            0 <= i <= j < out.len() implies out[i].confidence >= out[j].confidence by {
            if i == 0 && j > 0 {
                if tail[j - 1] != m {
                    let k = choose|k: int|
                        0 <= k < s.drop_first().len() && s.drop_first()[k] == tail[j - 1];
                    assert(s[k + 1] == tail[j - 1]);
                }
            }
        }
    }
}

proof fn lemma_sort_desc_props(s: Seq<MatchResult>)
    ensures
        sorted_desc(spec_sort_desc(s)),
        spec_sort_desc(s).len() == s.len(),
        forall|i: int|
            0 <= i < spec_sort_desc(s).len() ==> s.contains(#[trigger] spec_sort_desc(s)[i]),
    decreases s.len(),
{
    if s.len() == 0 {
    } else {
        lemma_sort_desc_props(s.drop_last());
        lemma_insert_desc_props(s.last(), spec_sort_desc(s.drop_last()));
        let out = spec_sort_desc(s);
        assert forall|i: int| 0 <= i < out.len() implies s.contains(#[trigger] out[i]) by {
            if out[i] == s.last() {
                assert(s[s.len() - 1] == s.last());
            } else {
                let k = choose|k: int|
                    0 <= k < spec_sort_desc(s.drop_last()).len() && spec_sort_desc(s.drop_last())[k]
                        == out[i];
                let k2 = choose|k2: int|
                    0 <= k2 < s.drop_last().len() && s.drop_last()[k2] == out[i];
                assert(s[k2] == out[i]);
            }
        }
    }
}

proof fn lemma_insert_desc_at_end(m: MatchResult, s: Seq<MatchResult>)
    requires
        forall|k: int| 0 <= k < s.len() ==> s[k].confidence >= m.confidence,
    ensures
        spec_insert_desc(m, s) == s.push(m),
    decreases s.len(),
{
    if s.len() == 0 {
        assert(spec_insert_desc(m, s) =~= s.push(m));
    } else {
        lemma_insert_desc_at_end(m, s.drop_first());
        assert(spec_insert_desc(m, s) =~= s.push(m));
    }
}

/// A sequence that is already ranked is its own sort.
proof fn lemma_sorted_sort_identity(s: Seq<MatchResult>)
    requires
        sorted_desc(s),
    ensures
        spec_sort_desc(s) == s,
    decreases s.len(),
{
    if s.len() > 0 {
        lemma_sorted_sort_identity(s.drop_last());
        lemma_insert_desc_at_end(s.last(), s.drop_last());
        assert(s.drop_last().push(s.last()) =~= s);
    }
}

proof fn lemma_insert_desc_at(m: MatchResult, s: Seq<MatchResult>, j: int)
    requires
        sorted_desc(s),
        0 <= j <= s.len(),
        forall|k: int| 0 <= k < j ==> s[k].confidence >= m.confidence,
        j == s.len() || s[j].confidence < m.confidence,
    ensures
        spec_insert_desc(m, s) == s.take(j) + seq![m] + s.skip(j),
    decreases j,
{
    if j == 0 {
        if s.len() == 0 {
            assert(spec_insert_desc(m, s) =~= s.take(0) + seq![m] + s.skip(0));
        } else {
            assert(spec_insert_desc(m, s) =~= s.take(0) + seq![m] + s.skip(0));
        }
    } else {
        assert(s[0].confidence >= m.confidence);
        lemma_insert_desc_at(m, s.drop_first(), j - 1);
        assert(spec_insert_desc(m, s) =~= s.take(j) + seq![m] + s.skip(j));
    }
}

proof fn lemma_sort_desc_push(s: Seq<MatchResult>, m: MatchResult)
    ensures
        spec_sort_desc(s.push(m)) == spec_insert_desc(m, spec_sort_desc(s)),
{
    assert(s.push(m).drop_last() =~= s);
    assert(s.push(m).last() == m);
}

/// Sort matches by descending confidence with a stable insertion sort.
pub fn sort_by_confidence(v: Vec<MatchResult>) -> (r: Vec<MatchResult>)
    ensures
        r@ == spec_sort_desc(v@),
        sorted_desc(r@),
        r@.len() == v@.len(),
        forall|i: int| 0 <= i < r@.len() ==> v@.contains(#[trigger] r@[i]),
{
    let mut r: Vec<MatchResult> = Vec::new();
    let n = v.len();
    assert(v@.take(0) =~= Seq::<MatchResult>::empty());
    for i in 0..n
        invariant
            n == v@.len(),
            r@ == spec_sort_desc(v@.take(i as int)),
    {
        let m = v[i];
        proof {
            lemma_sort_desc_props(v@.take(i as int));
        }
        let mut j: usize = 0;
        while j < r.len() && r[j].confidence >= m.confidence
            invariant
                j <= r@.len(),
                forall|k: int| 0 <= k < j ==> r@[k].confidence >= m.confidence,
                r@ == spec_sort_desc(v@.take(i as int)),
                m == v@[i as int],
                i < v@.len(),
            decreases r@.len() - j,
        {
            j = j + 1;
        }
        proof {
            lemma_insert_desc_at(m, r@, j as int);
            lemma_sort_desc_push(v@.take(i as int), m);
            assert(v@.take(i as int).push(m) =~= v@.take(i + 1 as int));
        }
        r.insert(j, m);
        assert(r@ =~= spec_sort_desc(v@.take(i as int)).take(j as int) + seq![m] + spec_sort_desc(
            v@.take(i as int),
        ).skip(j as int));
    }
    proof {
        assert(v@.take(n as int) =~= v@);
        lemma_sort_desc_props(v@);
    }
    r
}

/// The elements of `s` whose intersection-over-union with `best` stays
/// below the threshold `t`, in order.
pub open spec fn spec_nms_filter(s: Seq<MatchResult>, best: MatchResult, t: int) -> Seq<MatchResult>
    decreases s.len(),
{
    if s.len() == 0 {
        Seq::empty()
    } else if MatchResult::spec_iou(best, s[0]) < t {
        seq![s[0]] + spec_nms_filter(s.drop_first(), best, t)
    } else {
        spec_nms_filter(s.drop_first(), best, t)
    }
}

proof fn lemma_nms_filter_props(s: Seq<MatchResult>, best: MatchResult, t: int)
    ensures
        spec_nms_filter(s, best, t).len() <= s.len(),
        forall|i: int|
            0 <= i < spec_nms_filter(s, best, t).len() ==> s.contains(
                #[trigger] spec_nms_filter(s, best, t)[i],
            ) && MatchResult::spec_iou(best, spec_nms_filter(s, best, t)[i]) < t,
    decreases s.len(),
{
    if s.len() == 0 {
    } else {
        lemma_nms_filter_props(s.drop_first(), best, t);
        let out = spec_nms_filter(s, best, t);
        let tail = spec_nms_filter(s.drop_first(), best, t);
        assert forall|i: int| 0 <= i < out.len() implies s.contains(#[trigger] out[i])
            && MatchResult::spec_iou(best, out[i]) < t by {
            let shift: int = if MatchResult::spec_iou(best, s[0]) < t {
                1
            } else {
                0
            };
            if shift == 1 && i == 0 {
                assert(s[0] == out[0]);
            } else {
                assert(out[i] == tail[i - shift]);
                let k = choose|k: int|
                    0 <= k < s.drop_first().len() && s.drop_first()[k] == tail[i - shift];
                assert(s[k + 1] == tail[i - shift]);
            }
        }
    }
}

proof fn lemma_nms_filter_sorted(s: Seq<MatchResult>, best: MatchResult, t: int)
    requires
        sorted_desc(s),
    ensures
        sorted_desc(spec_nms_filter(s, best, t)),
    decreases s.len(),
{
    if s.len() > 0 {
        lemma_nms_filter_sorted(s.drop_first(), best, t);
        lemma_nms_filter_props(s.drop_first(), best, t);
        let out = spec_nms_filter(s, best, t);
        let tail = spec_nms_filter(s.drop_first(), best, t);
        if MatchResult::spec_iou(best, s[0]) < t {
            assert forall|i: int, j: int|
                0 <= i <= j < out.len() implies out[i].confidence >= out[j].confidence by {
                if i == 0 && j > 0 {
                    let k = choose|k: int|
                        0 <= k < s.drop_first().len() && s.drop_first()[k] == tail[j - 1];
                    assert(s[k + 1] == tail[j - 1]);
                }
            }
        }
    }
}

/// Greedy non-maximum suppression over an already-ranked sequence: keep
/// the first element, drop every later one that overlaps it with
/// intersection-over-union at least `t`, and repeat on what is left.
pub open spec fn spec_nms(s: Seq<MatchResult>, t: int) -> Seq<MatchResult>
    decreases s.len(),
        via spec_nms_decreases
{
    if s.len() == 0 {
        Seq::empty()
    } else {
        seq![s[0]] + spec_nms(spec_nms_filter(s.drop_first(), s[0], t), t)
    }
}

#[via_fn]
proof fn spec_nms_decreases(s: Seq<MatchResult>, t: int) {
    if s.len() != 0 {
        lemma_nms_filter_props(s.drop_first(), s[0], t);
    }
}

/// What greedy suppression guarantees of its output: it is a ranked
/// subsequence of the input, and no kept match overlaps an earlier kept
/// match with intersection-over-union at or above the threshold.
proof fn lemma_nms_props(s: Seq<MatchResult>, t: int)
    requires
        sorted_desc(s),
    ensures
        sorted_desc(spec_nms(s, t)),
        forall|i: int| 0 <= i < spec_nms(s, t).len() ==> s.contains(#[trigger] spec_nms(s, t)[i]),
        forall|i: int, j: int|
            0 <= i < j < spec_nms(s, t).len() ==> MatchResult::spec_iou(
                spec_nms(s, t)[i],
                spec_nms(s, t)[j],
            ) < t,
    decreases s.len(),
{
    if s.len() > 0 {
        let best = s[0];
        let f = spec_nms_filter(s.drop_first(), best, t);
        lemma_nms_filter_props(s.drop_first(), best, t);
        lemma_nms_filter_sorted(s.drop_first(), best, t);
        lemma_nms_props(f, t);
        let out = spec_nms(s, t);
        let tail = spec_nms(f, t);
        assert forall|i: int| 0 <= i < out.len() implies s.contains(#[trigger] out[i]) by {
            if i == 0 {
                assert(s[0] == out[0]);
            } else {
                let k = choose|k: int| 0 <= k < f.len() && f[k] == tail[i - 1];
                let k2 = choose|k2: int|
                    0 <= k2 < s.drop_first().len() && s.drop_first()[k2] == f[k];
                assert(s[k2 + 1] == out[i]);
            }
        }
        assert forall|i: int, j: int|
            0 <= i < j < out.len() implies MatchResult::spec_iou(out[i], out[j]) < t by {
            if i == 0 {
                let k = choose|k: int| 0 <= k < f.len() && f[k] == tail[j - 1];
            }
        }
        assert forall|i: int, j: int|
            0 <= i <= j < out.len() implies out[i].confidence >= out[j].confidence by {
            if i == 0 && j > 0 {
                let k = choose|k: int| 0 <= k < f.len() && f[k] == tail[j - 1];
                let k2 = choose|k2: int|
                    0 <= k2 < s.drop_first().len() && s.drop_first()[k2] == f[k];
                assert(s[k2 + 1] == out[j]);
            }
        }
    }
}

proof fn lemma_nms_filter_all_kept(s: Seq<MatchResult>, best: MatchResult, t: int)
    requires
        forall|i: int| 0 <= i < s.len() ==> MatchResult::spec_iou(best, s[i]) < t,
    ensures
        spec_nms_filter(s, best, t) == s,
    decreases s.len(),
{
    if s.len() > 0 {
        lemma_nms_filter_all_kept(s.drop_first(), best, t);
        assert(seq![s[0]] + s.drop_first() =~= s);
    }
}

proof fn lemma_nms_fixpoint(s: Seq<MatchResult>, t: int)
    requires
        forall|i: int, j: int| 0 <= i < j < s.len() ==> MatchResult::spec_iou(s[i], s[j]) < t,
    ensures
        spec_nms(s, t) == s,
    decreases s.len(),
{
    if s.len() > 0 {
        assert forall|i: int|
            0 <= i < s.drop_first().len() implies MatchResult::spec_iou(
            s[0],
            s.drop_first()[i],
        ) < t by {
            assert(s.drop_first()[i] == s[i + 1]);
        }
        lemma_nms_filter_all_kept(s.drop_first(), s[0], t);
        assert forall|i: int, j: int|
            0 <= i < j < s.drop_first().len() implies MatchResult::spec_iou(
            s.drop_first()[i],
            s.drop_first()[j],
        ) < t by {
            assert(s.drop_first()[i] == s[i + 1]);
            assert(s.drop_first()[j] == s[j + 1]);
        }
        lemma_nms_fixpoint(s.drop_first(), t);
        assert(seq![s[0]] + s.drop_first() =~= s);
    }
}

/// Law: non-maximum suppression is idempotent. Running the ranked greedy
/// suppression a second time on its own output returns that output
/// unchanged, because no two kept matches overlap at or above the
/// threshold.
pub proof fn lemma_nms_idempotent(s: Seq<MatchResult>, t: int)
    ensures
        spec_nms(spec_sort_desc(spec_nms(spec_sort_desc(s), t)), t) == spec_nms(
            spec_sort_desc(s),
            t,
        ),
{
    let out = spec_nms(spec_sort_desc(s), t);
    lemma_sort_desc_props(s);
    lemma_nms_props(spec_sort_desc(s), t);
    lemma_sorted_sort_identity(out);
    lemma_nms_fixpoint(out, t);
}

fn filter_below_iou(v: &Vec<MatchResult>, best: &MatchResult, t: u32) -> (r: Vec<MatchResult>)
    requires
        best.wf(),
        forall|i: int| 0 <= i < v@.len() ==> (#[trigger] v@[i]).wf(),
    ensures
        r@ == spec_nms_filter(v@, *best, t as int),
        forall|i: int| 0 <= i < r@.len() ==> (#[trigger] r@[i]).wf(),
{
    let mut r: Vec<MatchResult> = Vec::new();
    let n = v.len();
    assert(v@.take(0) =~= Seq::<MatchResult>::empty());
    for i in 0..n
        invariant
            n == v@.len(),
            forall|k: int| 0 <= k < v@.len() ==> (#[trigger] v@[k]).wf(),
            best.wf(),
            r@ == spec_nms_filter(v@.take(i as int), *best, t as int),
    {
        let m = v[i];
        if best.iou(&m) < t {
            r.push(m);
        }
        proof {
            lemma_nms_filter_push(v@.take(i as int), *best, t as int, m);
            assert(v@.take(i as int).push(m) =~= v@.take(i + 1 as int));
        }
    }
    proof {
        assert(v@.take(n as int) =~= v@);
        lemma_nms_filter_props(v@, *best, t as int);
        assert forall|i: int| 0 <= i < r@.len() implies (#[trigger] r@[i]).wf() by {
            let k = choose|k: int| 0 <= k < v@.len() && v@[k] == r@[i];
        }
    }
    r
}

proof fn lemma_nms_filter_push(s: Seq<MatchResult>, best: MatchResult, t: int, m: MatchResult)
    ensures
        spec_nms_filter(s.push(m), best, t) == if MatchResult::spec_iou(best, m) < t {
            spec_nms_filter(s, best, t).push(m)
        } else {
            spec_nms_filter(s, best, t)
        },
    decreases s.len(),
{
    if s.len() == 0 {
        reveal_with_fuel(spec_nms_filter, 3);
        assert(s.push(m)[0] == m);
        assert(s =~= Seq::<MatchResult>::empty());
        assert(s.push(m).drop_first() =~= Seq::<MatchResult>::empty());
        if MatchResult::spec_iou(best, m) < t {
            assert(spec_nms_filter(s.push(m), best, t) =~= spec_nms_filter(s, best, t).push(m));
        } else {
            assert(spec_nms_filter(s.push(m), best, t) =~= spec_nms_filter(s, best, t));
        }
    } else {
        assert(s.push(m).drop_first() =~= s.drop_first().push(m));
        lemma_nms_filter_push(s.drop_first(), best, t, m);
        assert(s.push(m)[0] == s[0]);
        if MatchResult::spec_iou(best, m) < t {
            if MatchResult::spec_iou(best, s[0]) < t {
                assert(spec_nms_filter(s.push(m), best, t) =~= spec_nms_filter(
                    s,
                    best,
                    t,
                ).push(m));
            }
        }
    }
}

/// Apply non-maximum suppression: rank the matches by descending
/// confidence, then repeatedly keep the best remaining match and discard
/// every other remaining match whose intersection-over-union with it is
/// at least `iou_threshold` (in parts per million).
pub fn non_max_suppression(matches: Vec<MatchResult>, iou_threshold: u32) -> (r: Vec<MatchResult>)
    requires
        forall|i: int| 0 <= i < matches@.len() ==> (#[trigger] matches@[i]).wf(),
    ensures
        r@ == spec_nms(spec_sort_desc(matches@), iou_threshold as int),
        sorted_desc(r@),
        forall|i: int|
            0 <= i < r@.len() ==> (#[trigger] r@[i]).wf() && matches@.contains(r@[i]),
        forall|i: int, j: int|
            0 <= i < j < r@.len() ==> MatchResult::spec_iou(r@[i], r@[j]) < iou_threshold,
{
    let ghost t = iou_threshold as int;
    let mut remaining = sort_by_confidence(matches);
    proof {
        assert forall|i: int| 0 <= i < remaining@.len() implies (#[trigger] remaining@[i]).wf() by {
            let k = choose|k: int| 0 <= k < matches@.len() && matches@[k] == remaining@[i];
        }
    }
    let ghost sorted_all = remaining@;
    let mut keep: Vec<MatchResult> = Vec::new();
    assert(keep@ + spec_nms(remaining@, t) =~= spec_nms(sorted_all, t));
    while remaining.len() > 0
        invariant
            keep@ + spec_nms(remaining@, t) == spec_nms(sorted_all, t),
            forall|i: int| 0 <= i < remaining@.len() ==> (#[trigger] remaining@[i]).wf(),
            forall|i: int| 0 <= i < keep@.len() ==> (#[trigger] keep@[i]).wf(),
            t == iou_threshold as int,
        decreases remaining@.len(),
    {
        let ghost before = remaining@;
        let best = remaining.remove(0);
        assert(before.drop_first() =~= remaining@);
        let filtered = filter_below_iou(&remaining, &best, iou_threshold);
        proof {
            lemma_nms_filter_props(remaining@, best, t);
        }
        keep.push(best);
        remaining = filtered;
        proof {
            assert(spec_nms(before, t) == seq![best] + spec_nms(remaining@, t));
            assert(keep@ + spec_nms(remaining@, t) =~= spec_nms(sorted_all, t));
        }
    }
    proof {
        assert(spec_nms(remaining@, t) =~= Seq::<MatchResult>::empty());
        assert(keep@ =~= spec_nms(sorted_all, t));
        lemma_sort_desc_props(matches@);
        lemma_nms_props(sorted_all, t);
        assert forall|i: int|
            0 <= i < keep@.len() implies (#[trigger] keep@[i]).wf() && matches@.contains(
            keep@[i],
        ) by {
            let k = choose|k: int| 0 <= k < sorted_all.len() && sorted_all[k] == keep@[i];
        }
    }
    keep
}

} // verus!
