use chord_proxy::batch_report::chart::{
    esc, render_report, render_svg_chart, series_stroke_style, Axes, GridLine, Mark, CSS_LINK,
};
use chord_proxy::batch_report::{
    group_points, ScorePoint, ScorePointError, Series, SeriesGroup, StaticScorePointSource,
};

fn pt(model: &str, axis: &str, x: f64, label: &str, metric: &str, v: f64) -> ScorePoint<f64> {
    ScorePoint {
        model_id: model.to_string(),
        profile_id: format!("id-{model}"),
        axis: axis.to_string(),
        x_value: x,
        x_rank: x as u64,
        x_label: label.to_string(),
        metric: metric.to_string(),
        value: v,
    }
}

/// Places the values of a group on the drawing.
fn placed(group: &SeriesGroup<f64>) -> (SeriesGroup<Mark>, Axes) {
    let xs: Vec<f64> = group.series.iter().flat_map(|s| s.points.iter().map(|p| p.0)).collect();
    let ys: Vec<f64> = group.series.iter().flat_map(|s| s.points.iter().map(|p| p.2)).collect();
    let least = |v: &[f64]| v.iter().copied().fold(f64::INFINITY, f64::min);
    let greatest = |v: &[f64]| v.iter().copied().fold(f64::NEG_INFINITY, f64::max);
    let (x_min, x_max) = (least(&xs), greatest(&xs));
    let y_min = least(&ys).min(0.0);
    let mut y_max = greatest(&ys);
    if (y_max - y_min).abs() < f64::EPSILON {
        y_max = y_min + 1.0;
    }
    let sx = |x: f64| {
        if x_max <= x_min {
            298.0
        } else {
            56.0 + (x - x_min) / (x_max - x_min) * 484.0
        }
    };
    let sy = |y: f64| 316.0 - (y - y_min) / (y_max - y_min) * 276.0;
    let series = group
        .series
        .iter()
        .map(|s| Series {
            model_id: s.model_id.clone(),
            points: s
                .points
                .iter()
                .map(|(x, label, y)| {
                    (
                        Mark {
                            text: format!("{:.1}", sx(*x)),
                            least: (*x - x_min).abs() < f64::EPSILON,
                            greatest: (*x - x_max).abs() < f64::EPSILON,
                        },
                        label.clone(),
                        Mark { text: format!("{:.1}", sy(*y)), least: false, greatest: false },
                    )
                })
                .collect(),
        })
        .collect();
    let grid = (0..=4)
        .map(|i| {
            let value = y_min + i as f64 / 4.0 * (y_max - y_min);
            GridLine {
                y: format!("{:.1}", sy(value)),
                label_y: format!("{:.1}", sy(value) + 3.0),
                label: format!("{value:.2}"),
            }
        })
        .collect();
    (
        SeriesGroup { axis: group.axis.clone(), metric: group.metric.clone(), series },
        Axes { grid, x_least: format!("{x_min:.0}"), x_greatest: format!("{x_max:.0}") },
    )
}

#[test]
fn group_points_splits_by_axis_metric_and_model_and_sorts_x() {
    let points = vec![
        pt("m1", "context_tokens", 32000.0, "32k", "score", 4.0),
        pt("m1", "context_tokens", 8000.0, "8k", "score", 4.5),
        pt("m2", "context_tokens", 8000.0, "8k", "score", 3.0),
        pt("m1", "context_tokens", 8000.0, "8k", "throughput", 55.0),
        pt("m1", "tool_count", 4.0, "4", "score", 3.8),
    ];
    let groups = group_points(&points);
    // (context_tokens,score), (context_tokens,throughput), (tool_count,score)
    assert_eq!(groups.len(), 3);
    let cs = groups
        .iter()
        .find(|g| g.axis == "context_tokens" && g.metric == "score")
        .unwrap();
    assert_eq!(cs.series.len(), 2, "two models in that chart");
    let m1 = cs.series.iter().find(|s| s.model_id == "m1").unwrap();
    // Sorted ascending by x_value: 8k then 32k.
    assert_eq!(m1.points[0].0, 8000.0);
    assert_eq!(m1.points[1].0, 32000.0);
}

#[test]
fn render_report_empty_is_honest_no_fabricated_data() {
    let html = render_report(&[], "2026-07-04T00:00:00Z");
    assert!(html.contains(CSS_LINK), "must link constellation.css");
    assert!(html.contains("No data yet"));
    assert!(html.contains("run_score_points"));
    // No svg/polyline invented when there's nothing to plot.
    assert!(!html.contains("<polyline"));
    assert!(!html.contains("<svg"));
}

#[test]
fn render_report_with_points_emits_svg_polyline_and_links_css() {
    let groups = group_points(&[
        pt("qwen3-coder:30b", "context_tokens", 8000.0, "8k", "score", 4.5),
        pt("qwen3-coder:30b", "context_tokens", 32000.0, "32k", "score", 3.9),
        pt("qwen3-coder:30b", "context_tokens", 128000.0, "128k", "score", 2.1),
        pt("gemma3:12b", "context_tokens", 8000.0, "8k", "score", 3.2),
        pt("gemma3:12b", "context_tokens", 32000.0, "32k", "score", 2.0),
    ]);
    let charts: Vec<(SeriesGroup<Mark>, Axes)> = groups.iter().map(placed).collect();
    let html = render_report(&charts, "2026-07-04T00:00:00Z");
    assert!(html.contains(CSS_LINK));
    assert!(html.contains("<svg"));
    // One polyline per model (2 series in the single chart).
    assert_eq!(html.matches("<polyline").count(), 2);
    // Uses CSS variables, never a hardcoded hex color.
    assert!(html.contains("var(--accent)"));
    assert!(!html.contains('#'), "no hardcoded hex colors allowed");
    // Model names are present (escaped) in the legend.
    assert!(html.contains("qwen3-coder:30b"));
    // The ends of the axis carry their labels.
    assert!(html.contains(">8k</text>"));
    assert!(html.contains(">128k</text>"));
}

#[test]
fn render_svg_chart_handles_single_flat_series_without_div_by_zero() {
    // All-equal y values (flat curve) must not NaN or divide by zero.
    let g = SeriesGroup {
        axis: "tool_count".to_string(),
        metric: "score".to_string(),
        series: vec![Series {
            model_id: "flat".to_string(),
            points: vec![(1.0, "1".into(), 3.0), (2.0, "2".into(), 3.0)],
        }],
    };
    let (group, axes) = placed(&g);
    let svg = render_svg_chart(&group, &axes);
    assert!(svg.contains("<polyline"));
    assert!(!svg.contains("NaN"));
}

#[test]
fn esc_escapes_markup() {
    assert_eq!(esc("a<b>&\"'"), "a&lt;b&gt;&amp;&quot;&#39;");
}

#[test]
fn empty_source_produces_empty_state_page() {
    let source: StaticScorePointSource<f64> = StaticScorePointSource { points: Vec::new() };
    let points = source.load_points().unwrap();
    let groups = group_points(&points);
    let charts: Vec<(SeriesGroup<Mark>, Axes)> = groups.iter().map(placed).collect();
    let html = render_report(&charts, "t");
    assert!(html.contains("No data yet"));
}

#[test]
fn groups_come_in_order_and_equal_ranks_keep_theirs() {
    let points = vec![
        pt("b", "z", 1.0, "first", "m", 1.0),
        pt("b", "a", 1.0, "", "n", 2.0),
        pt("a", "z", 1.0, "", "m", 3.0),
        pt("b", "z", 1.0, "second", "m", 4.0),
        pt("b", "a", 1.0, "", "m", 5.0),
        pt("b", "z", 0.0, "zero", "m", 6.0),
    ];
    let groups = group_points(&points);
    let keys: Vec<(&str, &str)> =
        groups.iter().map(|g| (g.axis.as_str(), g.metric.as_str())).collect();
    assert_eq!(keys, vec![("a", "m"), ("a", "n"), ("z", "m")]);
    let models: Vec<&str> = groups[2].series.iter().map(|s| s.model_id.as_str()).collect();
    assert_eq!(models, vec!["a", "b"]);
    let labels: Vec<&str> = groups[2].series[1].points.iter().map(|p| p.1.as_str()).collect();
    assert_eq!(labels, vec!["zero", "first", "second"]);
}

fn mark(text: &str) -> Mark {
    Mark { text: text.to_string(), least: false, greatest: false }
}

#[test]
fn chart_text_is_exact() {
    let group = SeriesGroup {
        axis: "x".to_string(),
        metric: "y<".to_string(),
        series: vec![
            Series {
                model_id: "a&b".to_string(),
                points: vec![(mark("1.0"), String::new(), mark("2.0"))],
            },
            Series { model_id: "c".to_string(), points: Vec::new() },
        ],
    };
    let axes = Axes {
        grid: vec![GridLine {
            y: "316.0".to_string(),
            label_y: "319.0".to_string(),
            label: "0.00".to_string(),
        }],
        x_least: "1".to_string(),
        x_greatest: "2".to_string(),
    };
    let expected = [
        "<svg xmlns=\"http://www.w3.org/2000/svg\" width=\"720\" height=\"360\" viewBox=\"0 0 720 360\" role=\"img\" aria-label=\"y&lt; vs x\">",
        "<line x1=\"56\" y1=\"316\" x2=\"540\" y2=\"316\" stroke=\"var(--border-color)\" stroke-width=\"1\"/>",
        "<line x1=\"56\" y1=\"40\" x2=\"56\" y2=\"316\" stroke=\"var(--border-color)\" stroke-width=\"1\"/>",
        "<line x1=\"56\" y1=\"316.0\" x2=\"540\" y2=\"316.0\" stroke=\"var(--border-color)\" stroke-width=\"1\" opacity=\"0.4\"/>",
        "<text x=\"48\" y=\"319.0\" fill=\"var(--text-secondary)\" font-size=\"11\" text-anchor=\"end\">0.00</text>",
        "<text x=\"56\" y=\"344\" fill=\"var(--text-secondary)\" font-size=\"11\" text-anchor=\"start\">1</text>",
        "<text x=\"540\" y=\"344\" fill=\"var(--text-secondary)\" font-size=\"11\" text-anchor=\"end\">2</text>",
        "<text x=\"298\" y=\"358\" fill=\"var(--text-secondary)\" font-size=\"12\" text-anchor=\"middle\">x</text>",
        "<polyline points=\"1.0,2.0\" fill=\"none\" stroke=\"var(--accent)\" stroke-width=\"2\"/>",
        "<circle cx=\"1.0\" cy=\"2.0\" r=\"2.5\" fill=\"var(--accent)\"/>",
        "<line x1=\"556\" y1=\"46.0\" x2=\"578\" y2=\"46.0\" stroke=\"var(--accent)\" stroke-width=\"2\"/>",
        "<text x=\"584\" y=\"50.0\" fill=\"var(--text-secondary)\" font-size=\"11\">a&amp;b</text>",
        "<polyline points=\"\" fill=\"none\" stroke=\"var(--accent)\" stroke-width=\"2\" stroke-dasharray=\"6 3\"/>",
        "<line x1=\"556\" y1=\"66.0\" x2=\"578\" y2=\"66.0\" stroke=\"var(--accent)\" stroke-width=\"2\" stroke-dasharray=\"6 3\"/>",
        "<text x=\"584\" y=\"70.0\" fill=\"var(--text-secondary)\" font-size=\"11\">c</text>",
        "</svg>",
    ]
    .concat();
    assert_eq!(render_svg_chart(&group, &axes), expected);
}

#[test]
fn chart_without_points_is_a_note() {
    let group = SeriesGroup {
        axis: "a>".to_string(),
        metric: "m".to_string(),
        series: vec![Series { model_id: "x".to_string(), points: Vec::new() }],
    };
    let axes = Axes { grid: Vec::new(), x_least: String::new(), x_greatest: String::new() };
    assert_eq!(
        render_svg_chart(&group, &axes),
        "<p class=\"muted\">No points for a&gt; · m.</p>"
    );
}

#[test]
fn dashes_cycle() {
    assert_eq!(series_stroke_style(0), ("var(--accent)", "none"));
    assert_eq!(series_stroke_style(3).1, "8 3 2 3");
    assert_eq!(series_stroke_style(5).1, "10 4");
    assert_eq!(series_stroke_style(7).1, "6 3");
}

#[test]
fn plain_text_is_kept_and_errors_are_worded() {
    assert_eq!(esc("plain ünïcode text"), "plain ünïcode text");
    assert_eq!(
        ScorePointError::StoreUnavailable.message(),
        "score-point store is temporarily unavailable"
    );
}
