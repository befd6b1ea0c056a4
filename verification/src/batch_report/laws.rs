//! What the report keeps of the points it is given.
use vstd::prelude::*;
use vstd::seq_lib::*;

use crate::batch_report::{
    all_curves, chart_before, chart_curves, chart_key, charts_ascend, curve_before, curves_ascend,
    curves_of, has_curve, key_of, measured, unranked, Curve, CurveKey, ScorePoint, SeriesGroup,
};
use crate::order::{in_order, law_in_order_sorts};
use crate::table::precedes;

verus! {

/// A point goes to the curve of its axis, metric and model, and to no other, with its own x value,
/// label and measured value.
pub proof fn law_point_goes_to_its_curve<V>(
    before: Seq<ScorePoint<V>>,
    p: ScorePoint<V>,
    key: CurveKey,
)
    ensures
        measured(Seq::<ScorePoint<V>>::empty(), key).len() == 0,
        p.axis@ == key.axis && p.metric@ == key.metric && p.model_id@ == key.model ==> measured(
            before.push(p),
            key,
        ) == measured(before, key).push((p.x_rank, (p.x_value, p.x_label, p.value))),
        !(p.axis@ == key.axis && p.metric@ == key.metric && p.model_id@ == key.model) ==> measured(
            before.push(p),
            key,
        ) == measured(before, key),
{
    assert(before.push(p).drop_last() =~= before);
    assert(before.push(p).last() == p);
}

proof fn lemma_measured_has<V>(points: Seq<ScorePoint<V>>, key: CurveKey, i: int)
    requires
        0 <= i < points.len(),
        key_of(points[i]) == key,
    ensures
        measured(points, key).contains(
            (points[i].x_rank, (points[i].x_value, points[i].x_label, points[i].value)),
        ),
    decreases points.len(),
{
    let head = points.drop_last();
    let p = points.last();
    assert(points =~= head.push(p));
    law_point_goes_to_its_curve(head, p, key);
    let item = (points[i].x_rank, (points[i].x_value, points[i].x_label, points[i].value));
    let rest = measured(head, key);
    let all = measured(points, key);
    if i == points.len() - 1 {
        assert(all[rest.len() as int] == item);
    } else {
        lemma_measured_has(head, key, i);
        let k = choose|k: int| 0 <= k < rest.len() && rest[k] == item;
        assert(all[k] == item);
    }
}

proof fn lemma_measured_is_given<V>(points: Seq<ScorePoint<V>>, key: CurveKey, k: int)
    requires
        0 <= k < measured(points, key).len(),
    ensures
        exists|i: int|
            0 <= i < points.len() && key_of(#[trigger] points[i]) == key && measured(points, key)[k]
                == (points[i].x_rank, (points[i].x_value, points[i].x_label, points[i].value)),
    decreases points.len(),
{
    if points.len() > 0 {
        let head = points.drop_last();
        let p = points.last();
        assert(points =~= head.push(p));
        law_point_goes_to_its_curve(head, p, key);
        let rest = measured(head, key);
        if k < rest.len() {
            lemma_measured_is_given(head, key, k);
            let i = choose|i: int|
                0 <= i < head.len() && key_of(#[trigger] head[i]) == key && rest[k] == (
                    head[i].x_rank,
                    (head[i].x_value, head[i].x_label, head[i].value),
                );
            assert(points[i] == head[i]);
        } else {
            assert(points[points.len() - 1] == p);
            assert(key_of(p) == key);
        }
    }
}

proof fn lemma_in_order_has<T>(items: Seq<(u64, T)>, item: (u64, T))
    ensures
        in_order(items).contains(item) <==> items.contains(item),
{
    law_in_order_sorts(items);
    broadcast use group_to_multiset_ensures;

    assert(in_order(items).to_multiset().count(item) == items.to_multiset().count(item));
    assert(in_order(items).contains(item) <==> in_order(items).to_multiset().count(item) > 0);
    assert(items.contains(item) <==> items.to_multiset().count(item) > 0);
}

/// Every given point is found again: on the curve of its axis, metric and model some position holds
/// its x value, its label and its measured value.
pub proof fn law_every_point_is_plotted<V>(
    curves: Seq<Curve<V>>,
    points: Seq<ScorePoint<V>>,
    i: int,
)
    requires
        curves_of(curves, points),
        0 <= i < points.len(),
    ensures
        exists|c: int, k: int|
            0 <= c < curves.len() && curves[c].key.axis == points[i].axis@ && curves[c].key.metric
                == points[i].metric@ && curves[c].key.model == points[i].model_id@ && 0 <= k
                < curves[c].points.len() && #[trigger] curves[c].points[k] == (
                points[i].x_value,
                points[i].x_label,
                points[i].value,
            ),
{
    let p = points[i];
    let key = key_of(p);
    assert(has_curve(curves, key_of(points[i])));
    let c = choose|c: int| 0 <= c < curves.len() && (#[trigger] curves[c]).key == key;
    let item = (p.x_rank, (p.x_value, p.x_label, p.value));
    lemma_measured_has(points, key, i);
    let sorted = in_order(measured(points, key));
    lemma_in_order_has(measured(points, key), item);
    let k = choose|k: int| 0 <= k < sorted.len() && sorted[k] == item;
    assert(curves[c].points == unranked(sorted));
    assert(curves[c].points[k] == item.1);
}

/// Nothing else is plotted: every position of a curve holds the x value, the label and the measured
/// value of a given point of that axis, metric and model.
pub proof fn law_only_given_points_are_plotted<V>(
    curves: Seq<Curve<V>>,
    points: Seq<ScorePoint<V>>,
    c: int,
    k: int,
)
    requires
        curves_of(curves, points),
        0 <= c < curves.len(),
        0 <= k < curves[c].points.len(),
    ensures
        exists|i: int|
            0 <= i < points.len() && (#[trigger] points[i]).axis@ == curves[c].key.axis
                && points[i].metric@ == curves[c].key.metric && points[i].model_id@
                == curves[c].key.model && curves[c].points[k] == (
                points[i].x_value,
                points[i].x_label,
                points[i].value,
            ),
{
    let key = curves[c].key;
    let given = measured(points, key);
    let sorted = in_order(given);
    assert(curves[c].points == unranked(sorted));
    let item = sorted[k];
    assert(curves[c].points[k] == item.1);
    lemma_in_order_has(given, item);
    assert(sorted.contains(item));
    let m = choose|m: int| 0 <= m < given.len() && given[m] == item;
    lemma_measured_is_given(points, key, m);
    let i = choose|i: int|
        0 <= i < points.len() && key_of(#[trigger] points[i]) == key && given[m] == (
            points[i].x_rank,
            (points[i].x_value, points[i].x_label, points[i].value),
        );
    assert(points[i].axis@ == key.axis);
}

/// No point is lost or doubled: a curve has as many positions as there are points of its axis, metric
/// and model.
pub proof fn law_curves_have_all_their_points<V>(points: Seq<ScorePoint<V>>, key: CurveKey)
    ensures
        unranked(in_order(measured(points, key))).len() == points.filter(
            |p: ScorePoint<V>|
                p.axis@ == key.axis && p.metric@ == key.metric && p.model_id@ == key.model,
        ).len(),
    decreases points.len(),
{
    reveal(Seq::filter);
    law_in_order_sorts(measured(points, key));
    if points.len() > 0 {
        law_curves_have_all_their_points(points.drop_last(), key);
        law_in_order_sorts(measured(points.drop_last(), key));
    }
}

/// A curve runs along its axis: of two positions the earlier holds a given point whose place on the
/// axis is no later than that of a given point at the other.
pub proof fn law_curve_runs_along_its_axis<V>(
    curves: Seq<Curve<V>>,
    points: Seq<ScorePoint<V>>,
    c: int,
    a: int,
    b: int,
)
    requires
        curves_of(curves, points),
        0 <= c < curves.len(),
        0 <= a < b < curves[c].points.len(),
    ensures
        exists|i: int, j: int|
            {
                &&& 0 <= i < points.len()
                &&& 0 <= j < points.len()
                &&& points[i].x_rank <= points[j].x_rank
                &&& plotted(#[trigger] points[i], curves[c], a)
                &&& plotted(#[trigger] points[j], curves[c], b)
            },
{
    let key = curves[c].key;
    let given = measured(points, key);
    let sorted = in_order(given);
    law_in_order_sorts(given);
    assert(curves[c].points == unranked(sorted));
    assert(sorted[a].0 <= sorted[b].0);
    lemma_in_order_has(given, sorted[a]);
    lemma_in_order_has(given, sorted[b]);
    assert(sorted.contains(sorted[a]) && sorted.contains(sorted[b]));
    let m = choose|m: int| 0 <= m < given.len() && given[m] == sorted[a];
    let n = choose|n: int| 0 <= n < given.len() && given[n] == sorted[b];
    lemma_measured_is_given(points, key, m);
    lemma_measured_is_given(points, key, n);
    let i = choose|i: int|
        0 <= i < points.len() && key_of(#[trigger] points[i]) == key && given[m] == (
            points[i].x_rank,
            (points[i].x_value, points[i].x_label, points[i].value),
        );
    let j = choose|j: int|
        0 <= j < points.len() && key_of(#[trigger] points[j]) == key && given[n] == (
            points[j].x_rank,
            (points[j].x_value, points[j].x_label, points[j].value),
        );
    assert(curves[c].points[a] == sorted[a].1);
    assert(curves[c].points[b] == sorted[b].1);
    assert(plotted(points[i], curves[c], a) && plotted(points[j], curves[c], b));
}

/// The point is of the curve's axis, metric and model, and is what the curve holds at `k`.
pub open spec fn plotted<V>(p: ScorePoint<V>, curve: Curve<V>, k: int) -> bool {
    &&& p.axis@ == curve.key.axis
    &&& p.metric@ == curve.key.metric
    &&& p.model_id@ == curve.key.model
    &&& curve.points[k] == (p.x_value, p.x_label, p.value)
}

/// The curves are those of the charts: chart by chart, each curve with its chart's axis and metric,
/// its own model and its own points.
pub proof fn law_curves_are_those_of_the_charts<V>(
    before: Seq<SeriesGroup<V>>,
    group: SeriesGroup<V>,
    s: int,
)
    ensures
        all_curves(Seq::<SeriesGroup<V>>::empty()).len() == 0,
        all_curves(before.push(group)).len() == all_curves(before).len() + group.series@.len(),
        all_curves(before.push(group)).take(all_curves(before).len() as int) == all_curves(before),
        0 <= s < group.series@.len() ==> {
            let curve = all_curves(before.push(group))[all_curves(before).len() + s];
            &&& curve.key.axis == group.axis@
            &&& curve.key.metric == group.metric@
            &&& curve.key.model == group.series@[s].model_id@
            &&& curve.points == group.series@[s].points@
        },
{
    assert(before.push(group).drop_last() =~= before);
    assert(before.push(group).last() == group);
    assert(all_curves(before.push(group)) == all_curves(before) + chart_curves(group));
    assert(all_curves(before.push(group)).take(all_curves(before).len() as int) =~= all_curves(
        before,
    ));
}

/// Charts come by their axis first and by their metric among those of one axis; curves by their
/// model among those of one chart.
pub proof fn law_order_of_charts_and_curves(a: CurveKey, b: CurveKey)
    ensures
        precedes(a.axis, b.axis) ==> chart_before(a, b) && curve_before(a, b),
        a.axis == b.axis && precedes(a.metric, b.metric) ==> chart_before(a, b) && curve_before(
            a,
            b,
        ),
        a.axis == b.axis && a.metric == b.metric && precedes(a.model, b.model) ==> curve_before(
            a,
            b,
        ),
        a.axis == b.axis && a.metric == b.metric ==> !chart_before(a, b),
        a == b ==> !curve_before(a, b),
        a.axis != b.axis && chart_before(a, b) ==> precedes(a.axis, b.axis),
        a.axis != b.axis && curve_before(a, b) ==> precedes(a.axis, b.axis),
{
    crate::table::lemma_precedes_irreflexive(a.axis);
    crate::table::lemma_precedes_irreflexive(a.metric);
    crate::table::lemma_precedes_irreflexive(a.model);
}

/// No two charts share axis and metric, none is without a curve, and the earlier comes first.
pub proof fn law_one_chart_for_axis_and_metric<V>(groups: Seq<SeriesGroup<V>>, i: int, j: int)
    requires
        charts_ascend(groups),
        0 <= i < j < groups.len(),
    ensures
        precedes(groups[i].axis@, groups[j].axis@) || (groups[i].axis@ == groups[j].axis@
            && precedes(groups[i].metric@, groups[j].metric@)),
        groups[i].series@.len() > 0,
        groups[j].series@.len() > 0,
{
    assert(chart_before(chart_key(groups[i]), chart_key(groups[j])));
}

/// No two curves share axis, metric and model, none is without a point, and every point has one.
pub proof fn law_one_curve_for_each_model<V>(
    curves: Seq<Curve<V>>,
    points: Seq<ScorePoint<V>>,
    i: int,
    j: int,
)
    requires
        curves_of(curves, points),
        0 <= i < j < curves.len(),
    ensures
        curves[i].key != curves[j].key,
        curves[i].points.len() > 0,
        curves[j].points.len() > 0,
        precedes(curves[i].key.axis, curves[j].key.axis) || (curves[i].key.axis
            == curves[j].key.axis && (precedes(curves[i].key.metric, curves[j].key.metric) || (
        curves[i].key.metric == curves[j].key.metric && precedes(
            curves[i].key.model,
            curves[j].key.model,
        )))),
{
    assert(curves_ascend(curves));
    assert(curve_before(curves[i].key, curves[j].key));
    law_order_of_charts_and_curves(curves[i].key, curves[j].key);
}

} // verus!
