//! The performance-curve report: measured points are grouped into charts, one curve per model, and
//! written as a page.
use vstd::prelude::*;

use crate::order::{in_order, insert_in_order, law_in_order_sorts};
use crate::table::{
    lemma_precedes_irreflexive, lemma_precedes_transitive, precedes, standing, Standing,
};
use crate::text::owned;

pub mod chart;
pub mod laws;

verus! {

/// One measured point. `V` is the type of a measured value; `x_rank` stands where `x_value` stands
/// among the values of the axis.
#[derive(Debug, Clone, PartialEq)]
pub struct ScorePoint<V> {
    pub model_id: String,
    pub profile_id: String,
    pub axis: String,
    pub x_value: V,
    pub x_rank: u64,
    /// The label of the tick; empty where there is none.
    pub x_label: String,
    pub metric: String,
    pub value: V,
}

/// The curve of one model: where, the label there, and the value, in the order of the axis.
#[derive(Debug, Clone, PartialEq)]
pub struct Series<V> {
    pub model_id: String,
    pub points: Vec<(V, String, V)>,
}

/// The curves of one chart.
#[derive(Debug, Clone, PartialEq)]
pub struct SeriesGroup<V> {
    pub axis: String,
    pub metric: String,
    pub series: Vec<Series<V>>,
}

/// Which curve a point lies on.
pub ghost struct CurveKey {
    pub axis: Seq<char>,
    pub metric: Seq<char>,
    pub model: Seq<char>,
}

/// The curve of a point.
pub open spec fn key_of<V>(p: ScorePoint<V>) -> CurveKey {
    CurveKey { axis: p.axis@, metric: p.metric@, model: p.model_id@ }
}

/// Charts come by axis and then by metric.
pub open spec fn chart_before(a: CurveKey, b: CurveKey) -> bool {
    precedes(a.axis, b.axis) || (a.axis == b.axis && precedes(a.metric, b.metric))
}

/// Curves come by chart and then by model.
pub open spec fn curve_before(a: CurveKey, b: CurveKey) -> bool {
    chart_before(a, b) || (a.axis == b.axis && a.metric == b.metric && precedes(a.model, b.model))
}

/// The points of one curve as they were given, each with its rank.
pub open spec fn measured<V>(points: Seq<ScorePoint<V>>, key: CurveKey) -> Seq<
    (u64, (V, String, V)),
>
    decreases points.len(),
{
    if points.len() == 0 {
        Seq::empty()
    } else {
        let rest = measured(points.drop_last(), key);
        let p = points.last();
        if key_of(p) == key {
            rest.push((p.x_rank, (p.x_value, p.x_label, p.value)))
        } else {
            rest
        }
    }
}

/// Ranked items without their ranks.
pub open spec fn unranked<T>(items: Seq<(u64, T)>) -> Seq<T> {
    items.map_values(|p: (u64, T)| p.1)
}

/// A curve: its key and its points.
pub ghost struct Curve<V> {
    pub key: CurveKey,
    pub points: Seq<(V, String, V)>,
}

/// The curves stand in strictly ascending order.
pub open spec fn curves_ascend<V>(curves: Seq<Curve<V>>) -> bool {
    forall|i: int, j: int|
        0 <= i < j < curves.len() ==> curve_before(
            (#[trigger] curves[i]).key,
            (#[trigger] curves[j]).key,
        )
}

/// Some curve has the key.
pub open spec fn has_curve<V>(curves: Seq<Curve<V>>, key: CurveKey) -> bool {
    exists|i: int| 0 <= i < curves.len() && (#[trigger] curves[i]).key == key
}

/// The curves of the points: in ascending order, each with the points that lie on it in the order
/// of the axis, points of one rank in the order in which they were given; none is empty and none is
/// missing.
pub open spec fn curves_of<V>(curves: Seq<Curve<V>>, points: Seq<ScorePoint<V>>) -> bool {
    &&& curves_ascend(curves)
    &&& forall|i: int|
        0 <= i < curves.len() ==> (#[trigger] curves[i]).points == unranked(
            in_order(measured(points, curves[i].key)),
        ) && curves[i].points.len() > 0
    &&& forall|i: int| 0 <= i < points.len() ==> has_curve(curves, key_of(#[trigger] points[i]))
}

/// The curves of one chart.
pub open spec fn chart_curves<V>(group: SeriesGroup<V>) -> Seq<Curve<V>> {
    Seq::new(
        group.series@.len(),
        |i: int|
            Curve {
                key: CurveKey {
                    axis: group.axis@,
                    metric: group.metric@,
                    model: group.series@[i].model_id@,
                },
                points: group.series@[i].points@,
            },
    )
}

/// The curves of all charts, in order.
pub open spec fn all_curves<V>(groups: Seq<SeriesGroup<V>>) -> Seq<Curve<V>>
    decreases groups.len(),
{
    if groups.len() == 0 {
        Seq::empty()
    } else {
        all_curves(groups.drop_last()) + chart_curves(groups.last())
    }
}

/// The key of a chart, without a model.
pub open spec fn chart_key<V>(group: SeriesGroup<V>) -> CurveKey {
    CurveKey { axis: group.axis@, metric: group.metric@, model: Seq::empty() }
}

/// There is one chart for each axis and metric, in ascending order, and none is empty.
pub open spec fn charts_ascend<V>(groups: Seq<SeriesGroup<V>>) -> bool {
    &&& forall|i: int, j: int|
        0 <= i < j < groups.len() ==> chart_before(
            chart_key(#[trigger] groups[i]),
            chart_key(#[trigger] groups[j]),
        )
    &&& forall|i: int| 0 <= i < groups.len() ==> (#[trigger] groups[i]).series@.len() > 0
}

/// A curve under construction.
struct Draft<V> {
    axis: String,
    metric: String,
    model: String,
    points: Vec<(u64, (V, String, V))>,
}

impl<V> Draft<V> {
    spec fn key(self) -> CurveKey {
        CurveKey { axis: self.axis@, metric: self.metric@, model: self.model@ }
    }
}

spec fn drafts_ascend<V>(drafts: Seq<Draft<V>>) -> bool {
    forall|i: int, j: int|
        0 <= i < j < drafts.len() ==> curve_before(
            (#[trigger] drafts[i]).key(),
            (#[trigger] drafts[j]).key(),
        )
}

spec fn drafted<V>(drafts: Seq<Draft<V>>, points: Seq<ScorePoint<V>>) -> bool {
    &&& drafts_ascend(drafts)
    &&& forall|i: int|
        0 <= i < drafts.len() ==> (#[trigger] drafts[i]).points@ == in_order(
            measured(points, drafts[i].key()),
        ) && drafts[i].points@.len() > 0
    &&& forall|i: int|
        0 <= i < points.len() ==> exists|j: int|
            0 <= j < drafts.len() && (#[trigger] drafts[j]).key() == key_of(#[trigger] points[i])
}

proof fn lemma_curve_before_transitive(a: CurveKey, b: CurveKey, c: CurveKey)
    requires
        curve_before(a, b),
        curve_before(b, c),
    ensures
        curve_before(a, c),
{
    if precedes(a.axis, b.axis) && precedes(b.axis, c.axis) {
        lemma_precedes_transitive(a.axis, b.axis, c.axis);
    }
    if precedes(a.metric, b.metric) && precedes(b.metric, c.metric) {
        lemma_precedes_transitive(a.metric, b.metric, c.metric);
    }
    if precedes(a.model, b.model) && precedes(b.model, c.model) {
        lemma_precedes_transitive(a.model, b.model, c.model);
    }
}

proof fn lemma_curve_before_irreflexive(a: CurveKey)
    ensures
        !curve_before(a, a),
{
    lemma_precedes_irreflexive(a.axis);
    lemma_precedes_irreflexive(a.metric);
    lemma_precedes_irreflexive(a.model);
}

proof fn lemma_measured_none<V>(points: Seq<ScorePoint<V>>, key: CurveKey)
    requires
        forall|i: int| 0 <= i < points.len() ==> key_of(#[trigger] points[i]) != key,
    ensures
        measured(points, key).len() == 0,
    decreases points.len(),
{
    if points.len() > 0 {
        assert(points.last() == points[points.len() - 1]);
        assert forall|i: int| 0 <= i < points.drop_last().len() implies key_of(
            #[trigger] points.drop_last()[i],
        ) != key by {
            assert(points.drop_last()[i] == points[i]);
        }
        lemma_measured_none(points.drop_last(), key);
    }
}

fn key_standing<V>(draft: &Draft<V>, point: &ScorePoint<V>) -> (r: Standing)
    ensures
        match r {
            Standing::Before => curve_before(draft.key(), key_of(*point)),
            Standing::Same => draft.key() == key_of(*point),
            Standing::After => curve_before(key_of(*point), draft.key()),
        },
{
    match standing(draft.axis.as_str(), point.axis.as_str()) {
        Standing::Same => match standing(draft.metric.as_str(), point.metric.as_str()) {
            Standing::Same => standing(draft.model.as_str(), point.model_id.as_str()),
            s => s,
        },
        s => s,
    }
}

/// Puts one more point on its curve.
fn add_point<V: Copy>(
    drafts: &mut Vec<Draft<V>>,
    point: &ScorePoint<V>,
    Ghost(before): Ghost<Seq<ScorePoint<V>>>,
)
    requires
        drafted(old(drafts)@, before),
    ensures
        drafted(final(drafts)@, before.push(*point)),
{
    let ghost key = key_of(*point);
    let ghost now = before.push(*point);
    let item = (point.x_value, point.x_label.clone(), point.value);
    let mut at: usize = 0;
    let mut found = false;
    while at < drafts.len() && !found
        invariant
            drafts@ == old(drafts)@,
            at <= drafts.len(),
            key == key_of(*point),
            drafts_ascend(drafts@),
            forall|j: int| 0 <= j < at ==> curve_before((#[trigger] drafts@[j]).key(), key),
            found ==> at < drafts.len() && !curve_before(drafts@[at as int].key(), key) && (
            drafts@[at as int].key() == key || curve_before(key, drafts@[at as int].key())),
        decreases
            drafts.len() - at,
            if found {
                0int
            } else {
                1int
            },
    {
        match key_standing(&drafts[at], point) {
            Standing::Before => {
                at = at + 1;
            },
            Standing::Same => {
                proof {
                    lemma_curve_before_irreflexive(key);
                }
                found = true;
            },
            Standing::After => {
                proof {
                    if curve_before(drafts@[at as int].key(), key) {
                        lemma_curve_before_transitive(key, drafts@[at as int].key(), key);
                        lemma_curve_before_irreflexive(key);
                    }
                }
                found = true;
            },
        }
    }
    proof {
        assert(now.drop_last() =~= before);
        assert forall|k: CurveKey| k != key implies #[trigger] measured(now, k) == measured(
            before,
            k,
        ) by {}
        assert(measured(now, key) == measured(before, key).push((point.x_rank, item)));
        assert(measured(now, key).drop_last() =~= measured(before, key));
        law_in_order_sorts(measured(before, key));
    }
    let ghost held = drafts@;
    let present = found && matches!(key_standing(&drafts[at], point), Standing::Same);
    proof {
        lemma_curve_before_irreflexive(key);
    }
    if present {
        assert(held[at as int].key() == key);
        let mut draft = drafts.remove(at);
        insert_in_order(&mut draft.points, point.x_rank, item);
        drafts.insert(at, draft);
        proof {
            assert(drafts@ =~= held.update(at as int, draft));
            assert forall|j: int| 0 <= j < held.len() implies (#[trigger] drafts@[j]).key()
                == held[j].key() by {}
            assert forall|j: int| 0 <= j < held.len() && j != at implies (
            #[trigger] held[j]).key() != key by {
                if j < at {
                    assert(curve_before(held[j].key(), held[at as int].key()));
                } else {
                    assert(curve_before(held[at as int].key(), held[j].key()));
                }
            }
            assert forall|i: int| 0 <= i < now.len() implies exists|j: int|
                0 <= j < drafts@.len() && (#[trigger] drafts@[j]).key() == key_of(
                    #[trigger] now[i],
                ) by {
                if i < before.len() {
                    assert(now[i] == before[i]);
                    let j = choose|j: int|
                        0 <= j < held.len() && (#[trigger] held[j]).key() == key_of(before[i]);
                    assert(drafts@[j].key() == key_of(now[i]));
                } else {
                    assert(drafts@[at as int].key() == key_of(now[i]));
                }
            }
        }
    } else {
        let ghost fresh_at = at as int;
        proof {
            assert forall|j: int| at <= j < held.len() implies curve_before(
                key,
                (#[trigger] held[j]).key(),
            ) by {
                if j > at {
                    assert(curve_before(held[at as int].key(), held[j].key()));
                    lemma_curve_before_transitive(key, held[at as int].key(), held[j].key());
                }
            }
            assert forall|i: int| 0 <= i < before.len() implies key_of(#[trigger] before[i])
                != key by {
                let j = choose|j: int|
                    0 <= j < held.len() && (#[trigger] held[j]).key() == key_of(before[i]);
                if j < at {
                    assert(curve_before(held[j].key(), key));
                } else {
                    assert(curve_before(key, held[j].key()));
                }
            }
            lemma_measured_none(before, key);
        }
        let mut points: Vec<(u64, (V, String, V))> = Vec::new();
        proof {
            assert(measured(before, key) =~= Seq::empty());
            assert(points@ =~= in_order(measured(before, key)));
        }
        insert_in_order(&mut points, point.x_rank, item);
        let draft = Draft {
            axis: point.axis.clone(),
            metric: point.metric.clone(),
            model: point.model_id.clone(),
            points,
        };
        drafts.insert(at, draft);
        proof {
            assert(drafts@ =~= held.insert(fresh_at, draft));
            assert(draft.key() == key);
            assert forall|i: int, j: int| 0 <= i < j < drafts@.len() implies curve_before(
                (#[trigger] drafts@[i]).key(),
                (#[trigger] drafts@[j]).key(),
            ) by {
                let a = if i < fresh_at {
                    i
                } else {
                    i - 1
                };
                let b = if j < fresh_at {
                    j
                } else {
                    j - 1
                };
                if i == fresh_at {
                    assert(drafts@[j] == held[b]);
                } else if j == fresh_at {
                    assert(drafts@[i] == held[a]);
                } else {
                    assert(drafts@[i] == held[a]);
                    assert(drafts@[j] == held[b]);
                }
            }
            assert forall|j: int| 0 <= j < drafts@.len() implies (#[trigger] drafts@[j]).points@
                == in_order(measured(now, drafts@[j].key())) && drafts@[j].points@.len() > 0 by {
                if j != fresh_at {
                    let a = if j < fresh_at {
                        j
                    } else {
                        j - 1
                    };
                    assert(drafts@[j] == held[a]);
                    assert(held[a].key() != key);
                }
            }
            assert forall|i: int| 0 <= i < now.len() implies exists|j: int|
                0 <= j < drafts@.len() && (#[trigger] drafts@[j]).key() == key_of(
                    #[trigger] now[i],
                ) by {
                if i < before.len() {
                    assert(now[i] == before[i]);
                    let j = choose|j: int|
                        0 <= j < held.len() && (#[trigger] held[j]).key() == key_of(before[i]);
                    let b = if j < fresh_at {
                        j
                    } else {
                        j + 1
                    };
                    assert(drafts@[b] == held[j]);
                } else {
                    assert(drafts@[fresh_at].key() == key_of(now[i]));
                }
            }
        }
    }
}

fn without_ranks<V: Copy>(items: &Vec<(u64, (V, String, V))>) -> (r: Vec<(V, String, V)>)
    ensures
        r@ == unranked(items@),
{
    let mut r: Vec<(V, String, V)> = Vec::new();
    let mut i: usize = 0;
    while i < items.len()
        invariant
            i <= items.len(),
            r@ == unranked(items@.take(i as int)),
        decreases items.len() - i,
    {
        let p = &items[i].1;
        r.push((p.0, p.1.clone(), p.2));
        i = i + 1;
        assert(r@ =~= unranked(items@.take(i as int)));
    }
    assert(items@.take(items@.len() as int) =~= items@);
    r
}

spec fn draft_curves<V>(drafts: Seq<Draft<V>>) -> Seq<Curve<V>> {
    Seq::new(
        drafts.len(),
        |i: int| Curve { key: drafts[i].key(), points: unranked(drafts[i].points@) },
    )
}

/// Puts the curves of one chart side by side.
fn into_charts<V: Copy>(drafts: &Vec<Draft<V>>) -> (r: Vec<SeriesGroup<V>>)
    requires
        drafts_ascend(drafts@),
    ensures
        all_curves(r@) == draft_curves(drafts@),
        charts_ascend(r@),
{
    let mut groups: Vec<SeriesGroup<V>> = Vec::new();
    let mut i: usize = 0;
    assert(draft_curves(drafts@.take(0)) =~= Seq::empty());
    while i < drafts.len()
        invariant
            i <= drafts.len(),
            drafts_ascend(drafts@),
            all_curves(groups@) == draft_curves(drafts@.take(i as int)),
            charts_ascend(groups@),
            groups@.len() == 0 <==> i == 0,
            i > 0 ==> groups@.last().axis@ == drafts@[i - 1].axis@ && groups@.last().metric@
                == drafts@[i - 1].metric@,
        decreases drafts.len() - i,
    {
        let ghost held = groups@;
        let ghost next = Curve {
            key: drafts@[i as int].key(),
            points: unranked(drafts@[i as int].points@),
        };
        let series = Series {
            model_id: drafts[i].model.clone(),
            points: without_ranks(&drafts[i].points),
        };
        proof {
            assert(draft_curves(drafts@.take(i + 1)) =~= draft_curves(drafts@.take(i as int)).push(
                next,
            ));
            if i > 0 {
                assert(curve_before(drafts@[i - 1].key(), drafts@[i as int].key()));
            }
        }
        let together = i > 0 && matches!(
            standing(drafts[i - 1].axis.as_str(), drafts[i].axis.as_str()),
            Standing::Same
        ) && matches!(
            standing(drafts[i - 1].metric.as_str(), drafts[i].metric.as_str()),
            Standing::Same
        );
        if together {
            let last: usize = groups.len() - 1;
            let mut group = groups.remove(last);
            let ghost was = group;
            group.series.push(series);
            groups.push(group);
            proof {
                assert(groups@.drop_last() =~= held.drop_last());
                assert(chart_curves(group) =~= chart_curves(was).push(next));
                assert(all_curves(groups@) =~= all_curves(held).push(next));
                assert forall|a: int| 0 <= a < groups@.len() implies chart_key(#[trigger] groups@[a])
                    == chart_key(held[a]) by {}
            }
        } else {
            let mut list: Vec<Series<V>> = Vec::new();
            list.push(series);
            let group = SeriesGroup {
                axis: drafts[i].axis.clone(),
                metric: drafts[i].metric.clone(),
                series: list,
            };
            groups.push(group);
            proof {
                assert(groups@.drop_last() =~= held);
                assert(chart_curves(group) =~= seq![next]);
                assert(all_curves(groups@) =~= all_curves(held).push(next));
                if i > 0 {
                    assert(chart_before(chart_key(held.last()), chart_key(group)));
                }
                assert forall|a: int, b: int| 0 <= a < b < groups@.len() implies chart_before(
                    chart_key(#[trigger] groups@[a]),
                    chart_key(#[trigger] groups@[b]),
                ) by {
                    if b == held.len() {
                        let z = held.len() - 1;
                        if a < z {
                            lemma_chart_before_transitive(
                                chart_key(held[a]),
                                chart_key(held[z]),
                                chart_key(group),
                            );
                        }
                    }
                }
            }
        }
        i = i + 1;
    }
    assert(drafts@.take(drafts@.len() as int) =~= drafts@);
    groups
}

proof fn lemma_chart_before_transitive(a: CurveKey, b: CurveKey, c: CurveKey)
    requires
        chart_before(a, b),
        chart_before(b, c),
    ensures
        chart_before(a, c),
{
    if precedes(a.axis, b.axis) && precedes(b.axis, c.axis) {
        lemma_precedes_transitive(a.axis, b.axis, c.axis);
    }
    if precedes(a.metric, b.metric) && precedes(b.metric, c.metric) {
        lemma_precedes_transitive(a.metric, b.metric, c.metric);
    }
}

/// Groups points into charts by axis and metric, each with one curve per model.
pub fn group_points<V: Copy>(points: &[ScorePoint<V>]) -> (r: Vec<SeriesGroup<V>>)
    ensures
        curves_of(all_curves(r@), points@),
        charts_ascend(r@),
{
    let mut drafts: Vec<Draft<V>> = Vec::new();
    let mut i: usize = 0;
    assert(drafted(drafts@, points@.take(0)));
    while i < points.len()
        invariant
            i <= points.len(),
            drafted(drafts@, points@.take(i as int)),
        decreases points.len() - i,
    {
        add_point(&mut drafts, &points[i], Ghost(points@.take(i as int)));
        assert(points@.take(i as int).push(points@[i as int]) =~= points@.take(i + 1));
        i = i + 1;
    }
    assert(points@.take(points@.len() as int) =~= points@);
    let r = into_charts(&drafts);
    proof {
        let curves = all_curves(r@);
        assert forall|k: int| 0 <= k < points@.len() implies has_curve(
            curves,
            key_of(#[trigger] points@[k]),
        ) by {
            let j = choose|j: int|
                0 <= j < drafts@.len() && (#[trigger] drafts@[j]).key() == key_of(points@[k]);
            assert(curves[j].key == key_of(points@[k]));
        }
    }
    r
}

/// The points alone decide which curves there are and what is on them.
pub proof fn law_grouping_is_determined<V>(
    a: Seq<Curve<V>>,
    b: Seq<Curve<V>>,
    points: Seq<ScorePoint<V>>,
)
    requires
        curves_of(a, points),
        curves_of(b, points),
    ensures
        a == b,
{
    assert forall|k: CurveKey| has_curve(a, k) implies has_curve(b, k) by {
        lemma_curve_has_point(a, points, k);
    }
    assert forall|k: CurveKey| has_curve(b, k) implies has_curve(a, k) by {
        lemma_curve_has_point(b, points, k);
    }
    lemma_same_keys(a, b);
    assert forall|i: int| 0 <= i < a.len() implies a[i] == b[i] by {
        assert(a[i].key == b[i].key);
    }
    assert(a =~= b);
}

proof fn lemma_curve_has_point<V>(curves: Seq<Curve<V>>, points: Seq<ScorePoint<V>>, key: CurveKey)
    requires
        curves_of(curves, points),
        has_curve(curves, key),
    ensures
        exists|i: int| 0 <= i < points.len() && key_of(#[trigger] points[i]) == key,
{
    let j = choose|j: int| 0 <= j < curves.len() && (#[trigger] curves[j]).key == key;
    if forall|i: int| 0 <= i < points.len() ==> key_of(#[trigger] points[i]) != key {
        lemma_measured_none(points, key);
        law_in_order_sorts(measured(points, key));
        assert(curves[j].points.len() == 0);
    }
}

proof fn lemma_same_keys<V>(a: Seq<Curve<V>>, b: Seq<Curve<V>>)
    requires
        curves_ascend(a),
        curves_ascend(b),
        forall|k: CurveKey| has_curve(a, k) <==> has_curve(b, k),
    ensures
        a.len() == b.len(),
        forall|i: int| 0 <= i < a.len() ==> (#[trigger] a[i]).key == (#[trigger] b[i]).key,
    decreases a.len(),
{
    if a.len() == 0 {
        if b.len() > 0 {
            assert(has_curve(b, b[0].key));
        }
    } else {
        let x = a.last().key;
        assert(a[a.len() - 1].key == x);
        assert(has_curve(a, x));
        let i = choose|i: int| 0 <= i < b.len() && (#[trigger] b[i]).key == x;
        let y = b.last().key;
        assert(b[b.len() - 1].key == y);
        assert(has_curve(b, y));
        let j = choose|j: int| 0 <= j < a.len() && (#[trigger] a[j]).key == y;
        if i < b.len() - 1 {
            assert(curve_before(b[i].key, b[b.len() - 1].key));
            if j < a.len() - 1 {
                assert(curve_before(a[j].key, a[a.len() - 1].key));
                lemma_curve_before_transitive(x, y, x);
            }
            lemma_curve_before_irreflexive(x);
        }
        assert(x == y);
        let p = a.drop_last();
        let q = b.drop_last();
        assert forall|k: CurveKey| has_curve(p, k) <==> has_curve(q, k) by {
            lemma_curve_before_irreflexive(k);
            if has_curve(p, k) {
                let m = choose|m: int| 0 <= m < p.len() && (#[trigger] p[m]).key == k;
                assert(a[m].key == k);
                assert(has_curve(a, k));
                assert(curve_before(a[m].key, a[a.len() - 1].key));
                let n = choose|n: int| 0 <= n < b.len() && (#[trigger] b[n]).key == k;
                assert(n < b.len() - 1);
                assert(q[n].key == k);
            }
            if has_curve(q, k) {
                let m = choose|m: int| 0 <= m < q.len() && (#[trigger] q[m]).key == k;
                assert(b[m].key == k);
                assert(has_curve(b, k));
                assert(curve_before(b[m].key, b[b.len() - 1].key));
                let n = choose|n: int| 0 <= n < a.len() && (#[trigger] a[n]).key == k;
                assert(n < a.len() - 1);
                assert(p[n].key == k);
            }
        }
        lemma_same_keys(p, q);
        assert forall|m: int| 0 <= m < a.len() implies (#[trigger] a[m]).key == (
        #[trigger] b[m]).key by {
            if m < a.len() - 1 {
                assert(p[m].key == q[m].key);
            }
        }
    }
}

/// Why the points cannot be had.
#[derive(Debug, Clone, Copy, PartialEq, Eq, Structural)]
pub enum ScorePointError {
    StoreUnavailable,
}

impl ScorePointError {
    /// The message of the error.
    pub fn message(&self) -> (r: String)
        ensures
            r@ == "score-point store is temporarily unavailable"@,
    {
        owned("score-point store is temporarily unavailable")
    }
}

/// Points that are at hand.
#[derive(Debug, Clone)]
pub struct StaticScorePointSource<V> {
    pub points: Vec<ScorePoint<V>>,
}

impl<V: Copy> StaticScorePointSource<V> {
    /// The points.
    pub fn load_points(&self) -> (r: Result<Vec<ScorePoint<V>>, ScorePointError>)
        ensures
            r matches Ok(v) && v@ == self.points@,
    {
        let mut out: Vec<ScorePoint<V>> = Vec::new();
        let mut i: usize = 0;
        while i < self.points.len()
            invariant
                i <= self.points.len(),
                out@ == self.points@.take(i as int),
            decreases self.points.len() - i,
        {
            let p = &self.points[i];
            out.push(
                ScorePoint {
                    model_id: p.model_id.clone(),
                    profile_id: p.profile_id.clone(),
                    axis: p.axis.clone(),
                    x_value: p.x_value,
                    x_rank: p.x_rank,
                    x_label: p.x_label.clone(),
                    metric: p.metric.clone(),
                    value: p.value,
                },
            );
            i = i + 1;
            assert(out@ =~= self.points@.take(i as int));
        }
        assert(self.points@.take(self.points@.len() as int) =~= self.points@);
        Ok(out)
    }
}

} // verus!
