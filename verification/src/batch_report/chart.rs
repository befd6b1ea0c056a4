//! A chart as an SVG drawing, and the page that holds the charts.
use vstd::prelude::*;

use crate::batch_report::{Series, SeriesGroup};
use crate::decimal::{decimal, decimal_of};
use crate::text::{
    chars_of, contains, join_all, joined, law_words_in_a_text, lemma_regrouped, owned, starts_with, views,
};

verus! {

/// The link to the shared stylesheet.
pub const CSS_LINK: &'static str = "<link rel=\"stylesheet\" href=\"/shared/constellation.css\">";

/// A coordinate on the drawing: its text, and whether it is the least or the greatest of the
/// chart's x values.
#[derive(Debug, PartialEq, Eq)]
pub struct Mark {
    pub text: String,
    pub least: bool,
    pub greatest: bool,
}

/// A line of the grid: where it runs, where its label stands, and the label.
#[derive(Debug, PartialEq, Eq)]
pub struct GridLine {
    pub y: String,
    pub label_y: String,
    pub label: String,
}

/// What a chart shows besides its curves: the grid, and the least and the greatest x value as text.
#[derive(Debug, PartialEq, Eq)]
pub struct Axes {
    pub grid: Vec<GridLine>,
    pub x_least: String,
    pub x_greatest: String,
}

/// A character as it stands in markup.
pub open spec fn escaped_char(c: char) -> Seq<char> {
    if c == '&' {
        "&amp;"@
    } else if c == '<' {
        "&lt;"@
    } else if c == '>' {
        "&gt;"@
    } else if c == '"' {
        "&quot;"@
    } else if c == '\'' {
        "&#39;"@
    } else {
        seq![c]
    }
}

/// A text as it stands in markup.
pub open spec fn escaped(s: Seq<char>) -> Seq<char>
    decreases s.len(),
{
    if s.len() == 0 {
        Seq::empty()
    } else {
        escaped(s.drop_last()) + escaped_char(s.last())
    }
}

/// A text as it stands in markup.
pub fn esc(s: &str) -> (r: String)
    ensures
        r@ == escaped(s@),
{
    let v = chars_of(s);
    let mut r: String = String::new();
    let mut i: usize = 0;
    assert(s@.take(0) =~= Seq::empty());
    while i < v.len()
        invariant
            i <= v.len(),
            v@ == s@,
            r@ == escaped(s@.take(i as int)),
        decreases v.len() - i,
    {
        let c: char = v[i];
        assert(s@.take(i + 1).drop_last() =~= s@.take(i as int));
        assert(s@.take(i + 1).last() == c);
        if c == '&' {
            r.append("&amp;");
        } else if c == '<' {
            r.append("&lt;");
        } else if c == '>' {
            r.append("&gt;");
        } else if c == '"' {
            r.append("&quot;");
        } else if c == '\'' {
            r.append("&#39;");
        } else {
            r.push(c);
            assert(r@ =~= escaped(s@.take(i as int)) + seq![c]);
        }
        i = i + 1;
    }
    assert(s@.take(s@.len() as int) =~= s@);
    r
}

/// A character that opens or closes markup.
pub open spec fn is_markup(c: char) -> bool {
    c == '<' || c == '>' || c == '"' || c == '\''
}

/// Text that was escaped holds nothing that opens or closes markup.
pub proof fn law_escaped_text_is_inert(s: Seq<char>)
    ensures
        forall|i: int| 0 <= i < escaped(s).len() ==> !is_markup(#[trigger] escaped(s)[i]),
    decreases s.len(),
{
    if s.len() > 0 {
        law_escaped_text_is_inert(s.drop_last());
        reveal_strlit("&amp;");
        reveal_strlit("&lt;");
        reveal_strlit("&gt;");
        reveal_strlit("&quot;");
        reveal_strlit("&#39;");
        let head = escaped(s.drop_last());
        let tail = escaped_char(s.last());
        assert(forall|i: int| 0 <= i < tail.len() ==> !is_markup(#[trigger] tail[i]));
        assert forall|i: int| 0 <= i < escaped(s).len() implies !is_markup(
            #[trigger] escaped(s)[i],
        ) by {
            if i < head.len() {
                assert(escaped(s)[i] == head[i]);
            } else {
                assert(escaped(s)[i] == tail[i - head.len()]);
            }
        }
    }
}

/// Text without special characters stays as it is.
pub proof fn law_plain_text_is_kept(s: Seq<char>)
    requires
        forall|i: int| 0 <= i < s.len() ==> !is_markup(#[trigger] s[i]) && s[i] != '&',
    ensures
        escaped(s) == s,
    decreases s.len(),
{
    if s.len() > 0 {
        assert forall|i: int| 0 <= i < s.drop_last().len() implies !is_markup(
            #[trigger] s.drop_last()[i],
        ) && s.drop_last()[i] != '&' by {
            assert(s.drop_last()[i] == s[i]);
        }
        law_plain_text_is_kept(s.drop_last());
        assert(!is_markup(s[s.len() - 1]));
        assert(s =~= s.drop_last() + seq![s.last()]);
    }
}

/// The dash pattern of a curve; `None` is a solid line.
pub open spec fn dash_of(index: nat) -> Option<Seq<char>> {
    if index % 6 == 0 {
        None
    } else if index % 6 == 1 {
        Some("6 3"@)
    } else if index % 6 == 2 {
        Some("2 3"@)
    } else if index % 6 == 3 {
        Some("8 3 2 3"@)
    } else if index % 6 == 4 {
        Some("1 4"@)
    } else {
        Some("10 4"@)
    }
}

/// The colour and the dash pattern of a curve; "none" is a solid line.
pub fn series_stroke_style(series_index: usize) -> (r: (&'static str, &'static str))
    ensures
        r.0@ == "var(--accent)"@,
        r.1@ == (match dash_of(series_index as nat) {
            Some(d) => d,
            None => "none"@,
        }),
{
    let dash: &'static str = match series_index % 6 {
        0 => "none",
        1 => "6 3",
        2 => "2 3",
        3 => "8 3 2 3",
        4 => "1 4",
        _ => "10 4",
    };
    ("var(--accent)", dash)
}

/// The attribute that dashes a curve.
pub open spec fn dash_attribute(index: nat) -> Seq<char> {
    match dash_of(index) {
        Some(d) => " stroke-dasharray=\""@ + d + "\""@,
        None => Seq::empty(),
    }
}

fn dash_attr(index: usize) -> (r: String)
    ensures
        r@ == dash_attribute(index as nat),
{
    if index % 6 == 0 {
        String::new()
    } else {
        let mut r: String = owned(" stroke-dasharray=\"");
        r.append(series_stroke_style(index).1);
        r.append("\"");
        r
    }
}

/// The drawing's opening and its two axes.
pub open spec fn chart_head(metric: Seq<char>, axis: Seq<char>) -> Seq<char> {
    "<svg xmlns=\"http://www.w3.org/2000/svg\" width=\"720\" height=\"360\" viewBox=\"0 0 720 360\" role=\"img\" aria-label=\""@
        + escaped(metric) + " vs "@ + escaped(axis) + "\">"@
        + "<line x1=\"56\" y1=\"316\" x2=\"540\" y2=\"316\" stroke=\"var(--border-color)\" stroke-width=\"1\"/>"@
        + "<line x1=\"56\" y1=\"40\" x2=\"56\" y2=\"316\" stroke=\"var(--border-color)\" stroke-width=\"1\"/>"@
}

fn head_text(metric: &str, axis: &str) -> (r: String)
    ensures
        r@ == chart_head(metric@, axis@),
{
    let mut r: String = owned(
        "<svg xmlns=\"http://www.w3.org/2000/svg\" width=\"720\" height=\"360\" viewBox=\"0 0 720 360\" role=\"img\" aria-label=\"",
    );
    r.append(esc(metric).as_str());
    r.append(" vs ");
    r.append(esc(axis).as_str());
    r.append("\">");
    r.append(
        "<line x1=\"56\" y1=\"316\" x2=\"540\" y2=\"316\" stroke=\"var(--border-color)\" stroke-width=\"1\"/>",
    );
    r.append(
        "<line x1=\"56\" y1=\"40\" x2=\"56\" y2=\"316\" stroke=\"var(--border-color)\" stroke-width=\"1\"/>",
    );
    r
}

/// One line of the grid and its label.
pub open spec fn grid_line(g: GridLine) -> Seq<char> {
    "<line x1=\"56\" y1=\""@ + g.y@ + "\" x2=\"540\" y2=\""@ + g.y@
        + "\" stroke=\"var(--border-color)\" stroke-width=\"1\" opacity=\"0.4\"/>"@
        + "<text x=\"48\" y=\""@ + g.label_y@
        + "\" fill=\"var(--text-secondary)\" font-size=\"11\" text-anchor=\"end\">"@ + g.label@
        + "</text>"@
}

fn grid_line_text(g: &GridLine) -> (r: String)
    ensures
        r@ == grid_line(*g),
{
    let mut r: String = owned("<line x1=\"56\" y1=\"");
    r.append(g.y.as_str());
    r.append("\" x2=\"540\" y2=\"");
    r.append(g.y.as_str());
    r.append("\" stroke=\"var(--border-color)\" stroke-width=\"1\" opacity=\"0.4\"/>");
    r.append("<text x=\"48\" y=\"");
    r.append(g.label_y.as_str());
    r.append("\" fill=\"var(--text-secondary)\" font-size=\"11\" text-anchor=\"end\">");
    r.append(g.label.as_str());
    r.append("</text>");
    r
}

/// The grid.
pub open spec fn grid_lines(grid: Seq<GridLine>) -> Seq<char>
    decreases grid.len(),
{
    if grid.len() == 0 {
        Seq::empty()
    } else {
        grid_lines(grid.drop_last()) + grid_line(grid.last())
    }
}

fn grid_text(grid: &Vec<GridLine>) -> (r: String)
    ensures
        r@ == grid_lines(grid@),
{
    let mut r: String = String::new();
    let mut i: usize = 0;
    assert(grid@.take(0) =~= Seq::empty());
    while i < grid.len()
        invariant
            i <= grid.len(),
            r@ == grid_lines(grid@.take(i as int)),
        decreases grid.len() - i,
    {
        r.append(grid_line_text(&grid[i]).as_str());
        assert(grid@.take(i + 1).drop_last() =~= grid@.take(i as int));
        i = i + 1;
    }
    assert(grid@.take(grid@.len() as int) =~= grid@);
    r
}

/// The end of the x axis that a label is for.
#[derive(Debug, Clone, Copy, PartialEq, Eq, Structural)]
pub enum End {
    Least,
    Greatest,
}

/// The point stands at that end of the axis and has a label.
pub open spec fn labels_end(p: (Mark, String, Mark), end: End) -> bool {
    p.1@.len() > 0 && match end {
        End::Least => p.0.least,
        End::Greatest => p.0.greatest,
    }
}

/// The first label that points give an end of the axis.
pub open spec fn first_label(points: Seq<(Mark, String, Mark)>, end: End) -> Option<Seq<char>>
    decreases points.len(),
{
    if points.len() == 0 {
        None
    } else if labels_end(points[0], end) {
        Some(points[0].1@)
    } else {
        first_label(points.skip(1), end)
    }
}

/// The first label that curves give an end of the axis.
pub open spec fn series_label(series: Seq<Series<Mark>>, end: End) -> Option<Seq<char>>
    decreases series.len(),
{
    if series.len() == 0 {
        None
    } else {
        match first_label(series[0].points@, end) {
            Some(label) => Some(label),
            None => series_label(series.skip(1), end),
        }
    }
}

/// The text at an end of the axis: a label where there is one, else the value.
pub open spec fn end_text(series: Seq<Series<Mark>>, end: End, value: Seq<char>) -> Seq<char> {
    match series_label(series, end) {
        Some(label) => label,
        None => value,
    }
}

fn label_in(points: &Vec<(Mark, String, Mark)>, end: End) -> (r: Option<String>)
    ensures
        match r {
            Some(label) => first_label(points@, end) == Some(label@),
            None => first_label(points@, end) is None,
        },
{
    let mut i: usize = 0;
    assert(points@.skip(0) =~= points@);
    while i < points.len()
        invariant
            i <= points.len(),
            first_label(points@, end) == first_label(points@.skip(i as int), end),
        decreases points.len() - i,
    {
        assert(points@.skip(i as int)[0] == points@[i as int]);
        assert(points@.skip(i as int).skip(1) =~= points@.skip(i + 1));
        let stands = match end {
            End::Least => points[i].0.least,
            End::Greatest => points[i].0.greatest,
        };
        if stands && points[i].1.as_str().unicode_len() > 0 {
            return Some(points[i].1.clone());
        }
        i = i + 1;
    }
    None
}

/// The text at an end of the axis.
fn x_label_for(series: &Vec<Series<Mark>>, end: End, value: &str) -> (r: String)
    ensures
        r@ == end_text(series@, end, value@),
{
    let mut i: usize = 0;
    assert(series@.skip(0) =~= series@);
    while i < series.len()
        invariant
            i <= series.len(),
            series_label(series@, end) == series_label(series@.skip(i as int), end),
        decreases series.len() - i,
    {
        assert(series@.skip(i as int)[0] == series@[i as int]);
        assert(series@.skip(i as int).skip(1) =~= series@.skip(i + 1));
        if let Some(label) = label_in(&series[i].points, end) {
            return label;
        }
        i = i + 1;
    }
    owned(value)
}

/// The texts along the x axis.
pub open spec fn x_axis(group: SeriesGroup<Mark>, axes: Axes) -> Seq<char> {
    "<text x=\"56\" y=\"344\" fill=\"var(--text-secondary)\" font-size=\"11\" text-anchor=\"start\">"@
        + escaped(end_text(group.series@, End::Least, axes.x_least@)) + "</text>"@
        + "<text x=\"540\" y=\"344\" fill=\"var(--text-secondary)\" font-size=\"11\" text-anchor=\"end\">"@
        + escaped(end_text(group.series@, End::Greatest, axes.x_greatest@)) + "</text>"@
        + "<text x=\"298\" y=\"358\" fill=\"var(--text-secondary)\" font-size=\"12\" text-anchor=\"middle\">"@
        + escaped(group.axis@) + "</text>"@
}

fn x_axis_text(group: &SeriesGroup<Mark>, axes: &Axes) -> (r: String)
    ensures
        r@ == x_axis(*group, *axes),
{
    let mut r: String = owned(
        "<text x=\"56\" y=\"344\" fill=\"var(--text-secondary)\" font-size=\"11\" text-anchor=\"start\">",
    );
    r.append(
        esc(x_label_for(&group.series, End::Least, axes.x_least.as_str()).as_str()).as_str(),
    );
    r.append("</text>");
    r.append(
        "<text x=\"540\" y=\"344\" fill=\"var(--text-secondary)\" font-size=\"11\" text-anchor=\"end\">",
    );
    r.append(
        esc(x_label_for(&group.series, End::Greatest, axes.x_greatest.as_str()).as_str()).as_str(),
    );
    r.append("</text>");
    r.append(
        "<text x=\"298\" y=\"358\" fill=\"var(--text-secondary)\" font-size=\"12\" text-anchor=\"middle\">",
    );
    r.append(esc(group.axis.as_str()).as_str());
    r.append("</text>");
    r
}

/// A point as a pair of coordinates.
pub open spec fn coordinates(p: (Mark, String, Mark)) -> Seq<char> {
    p.0.text@ + ","@ + p.2.text@
}

/// The line through the points of a curve.
pub open spec fn curve_line(points: Seq<(Mark, String, Mark)>, index: nat) -> Seq<char> {
    "<polyline points=\""@ + joined(
        points.map_values(|p: (Mark, String, Mark)| coordinates(p)),
        " "@,
    ) + "\" fill=\"none\" stroke=\"var(--accent)\" stroke-width=\"2\""@ + dash_attribute(index)
        + "/>"@
}

fn curve_line_text(points: &Vec<(Mark, String, Mark)>, index: usize) -> (r: String)
    ensures
        r@ == curve_line(points@, index as nat),
{
    let mut pairs: Vec<String> = Vec::new();
    let mut i: usize = 0;
    let ghost f = |p: (Mark, String, Mark)| coordinates(p);
    while i < points.len()
        invariant
            i <= points.len(),
            f == (|p: (Mark, String, Mark)| coordinates(p)),
            views(pairs@) == points@.map_values(f).take(i as int),
        decreases points.len() - i,
    {
        let ghost had = views(pairs@);
        let mut pair: String = points[i].0.text.clone();
        pair.append(",");
        pair.append(points[i].2.text.as_str());
        let ghost made = pair@;
        pairs.push(pair);
        proof {
            assert(made == points@.map_values(f)[i as int]);
            assert(views(pairs@) =~= had.push(made));
            assert(views(pairs@) =~= points@.map_values(f).take(i + 1));
        }
        i = i + 1;
    }
    assert(points@.map_values(f).take(points@.len() as int) =~= points@.map_values(f));
    let mut r: String = owned("<polyline points=\"");
    r.append(join_all(pairs.as_slice(), " ").as_str());
    r.append("\" fill=\"none\" stroke=\"var(--accent)\" stroke-width=\"2\"");
    r.append(dash_attr(index).as_str());
    r.append("/>");
    r
}

/// The dots on the points of a curve.
pub open spec fn dots(points: Seq<(Mark, String, Mark)>) -> Seq<char>
    decreases points.len(),
{
    if points.len() == 0 {
        Seq::empty()
    } else {
        dots(points.drop_last()) + "<circle cx=\""@ + points.last().0.text@ + "\" cy=\""@
            + points.last().2.text@ + "\" r=\"2.5\" fill=\"var(--accent)\"/>"@
    }
}

fn dots_text(points: &Vec<(Mark, String, Mark)>) -> (r: String)
    ensures
        r@ == dots(points@),
{
    let mut r: String = String::new();
    let mut i: usize = 0;
    assert(points@.take(0) =~= Seq::empty());
    while i < points.len()
        invariant
            i <= points.len(),
            r@ == dots(points@.take(i as int)),
        decreases points.len() - i,
    {
        assert(points@.take(i + 1).drop_last() =~= points@.take(i as int));
        r.append("<circle cx=\"");
        r.append(points[i].0.text.as_str());
        r.append("\" cy=\"");
        r.append(points[i].2.text.as_str());
        r.append("\" r=\"2.5\" fill=\"var(--accent)\"/>");
        i = i + 1;
    }
    assert(points@.take(points@.len() as int) =~= points@);
    r
}

/// The entry of a curve in the legend; entries are twenty apart.
pub open spec fn legend(model: Seq<char>, index: nat) -> Seq<char> {
    "<line x1=\"556\" y1=\""@ + decimal(46 + 20 * index) + ".0\" x2=\"578\" y2=\""@ + decimal(
        46 + 20 * index,
    ) + ".0\" stroke=\"var(--accent)\" stroke-width=\"2\""@ + dash_attribute(index) + "/>"@
        + "<text x=\"584\" y=\""@ + decimal(50 + 20 * index)
        + ".0\" fill=\"var(--text-secondary)\" font-size=\"11\">"@ + escaped(model) + "</text>"@
}

fn legend_text(model: &str, index: usize) -> (r: String)
    requires
        50 + 20 * index <= u64::MAX,
    ensures
        r@ == legend(model@, index as nat),
{
    let y = decimal_of(46 + 20 * (index as u64));
    let mut r: String = owned("<line x1=\"556\" y1=\"");
    r.append(y.as_str());
    r.append(".0\" x2=\"578\" y2=\"");
    r.append(y.as_str());
    r.append(".0\" stroke=\"var(--accent)\" stroke-width=\"2\"");
    r.append(dash_attr(index).as_str());
    r.append("/>");
    r.append("<text x=\"584\" y=\"");
    r.append(decimal_of(50 + 20 * (index as u64)).as_str());
    r.append(".0\" fill=\"var(--text-secondary)\" font-size=\"11\">");
    r.append(esc(model).as_str());
    r.append("</text>");
    r
}

/// The curves with their dots and their entries in the legend.
pub open spec fn curves(series: Seq<Series<Mark>>) -> Seq<char>
    decreases series.len(),
{
    if series.len() == 0 {
        Seq::empty()
    } else {
        let index = (series.len() - 1) as nat;
        curves(series.drop_last()) + curve_line(series.last().points@, index) + dots(
            series.last().points@,
        ) + legend(series.last().model_id@, index)
    }
}

/// No curve has a point.
pub open spec fn pointless(series: Seq<Series<Mark>>) -> bool {
    forall|i: int| 0 <= i < series.len() ==> (#[trigger] series[i]).points@.len() == 0
}

/// The chart of a group: the curves on their axes, or a note where there is no point.
pub open spec fn chart(group: SeriesGroup<Mark>, axes: Axes) -> Seq<char> {
    if pointless(group.series@) {
        "<p class=\"muted\">No points for "@ + escaped(group.axis@) + " · "@ + escaped(
            group.metric@,
        ) + ".</p>"@
    } else {
        chart_head(group.metric@, group.axis@) + grid_lines(axes.grid@) + x_axis(group, axes)
            + curves(group.series@) + "</svg>"@
    }
}

/// Draws the chart of a group whose values have been placed on the drawing.
pub fn render_svg_chart(group: &SeriesGroup<Mark>, axes: &Axes) -> (r: String)
    requires
        30 + 20 * group.series@.len() <= u64::MAX,
    ensures
        r@ == chart(*group, *axes),
{
    let mut some_point = false;
    let mut i: usize = 0;
    while i < group.series.len()
        invariant
            i <= group.series.len(),
            some_point == !pointless(group.series@.take(i as int)),
        decreases group.series.len() - i,
    {
        let ghost head = group.series@.take(i as int);
        let ghost more = group.series@.take(i + 1);
        proof {
            assert forall|k: int| 0 <= k < i implies #[trigger] more[k] == head[k] by {}
            assert(more[i as int] == group.series@[i as int]);
            if !pointless(head) {
                let k = choose|k: int|
                    0 <= k < head.len() && (#[trigger] head[k]).points@.len() != 0;
                assert(more[k].points@.len() != 0);
            } else {
                assert forall|k: int| 0 <= k < i implies (#[trigger] more[k]).points@.len()
                    == 0 by {
                    assert(more[k] == head[k]);
                }
            }
        }
        if group.series[i].points.len() > 0 {
            some_point = true;
        }
        i = i + 1;
    }
    assert(group.series@.take(group.series@.len() as int) =~= group.series@);
    if !some_point {
        let mut note: String = owned("<p class=\"muted\">No points for ");
        note.append(esc(group.axis.as_str()).as_str());
        note.append(" · ");
        note.append(esc(group.metric.as_str()).as_str());
        note.append(".</p>");
        return note;
    }
    let mut svg: String = head_text(group.metric.as_str(), group.axis.as_str());
    svg.append(grid_text(&axes.grid).as_str());
    svg.append(x_axis_text(group, axes).as_str());
    let mut drawn: String = String::new();
    let mut k: usize = 0;
    assert(group.series@.take(0) =~= Seq::empty());
    while k < group.series.len()
        invariant
            k <= group.series.len(),
            30 + 20 * group.series@.len() <= u64::MAX,
            drawn@ == curves(group.series@.take(k as int)),
        decreases group.series.len() - k,
    {
        assert(group.series@.take(k + 1).drop_last() =~= group.series@.take(k as int));
        drawn.append(curve_line_text(&group.series[k].points, k).as_str());
        drawn.append(dots_text(&group.series[k].points).as_str());
        drawn.append(legend_text(group.series[k].model_id.as_str(), k).as_str());
        k = k + 1;
    }
    svg.append(drawn.as_str());
    svg.append("</svg>");
    svg
}

/// The card of a chart.
pub open spec fn card(group: SeriesGroup<Mark>, axes: Axes) -> Seq<char> {
    "<div class=\"card\">"@ + "<h2>"@ + escaped(group.metric@) + " <span class=\"muted\">vs "@
        + escaped(group.axis@) + "</span></h2>"@ + "<div class=\"chart-wrap\">"@ + chart(
        group,
        axes,
    ) + "</div></div>"@
}

fn card_text(group: &SeriesGroup<Mark>, axes: &Axes) -> (r: String)
    requires
        30 + 20 * group.series@.len() <= u64::MAX,
    ensures
        r@ == card(*group, *axes),
{
    let mut r: String = owned("<div class=\"card\">");
    r.append("<h2>");
    r.append(esc(group.metric.as_str()).as_str());
    r.append(" <span class=\"muted\">vs ");
    r.append(esc(group.axis.as_str()).as_str());
    r.append("</span></h2>");
    r.append("<div class=\"chart-wrap\">");
    r.append(render_svg_chart(group, axes).as_str());
    r.append("</div></div>");
    r
}

/// The cards of the charts, in order.
pub open spec fn cards(charts: Seq<(SeriesGroup<Mark>, Axes)>) -> Seq<char>
    decreases charts.len(),
{
    if charts.len() == 0 {
        Seq::empty()
    } else {
        cards(charts.drop_last()) + card(charts.last().0, charts.last().1)
    }
}

/// The page up to its stylesheet.
pub const PAGE_HEAD: &'static str =
    "<!DOCTYPE html>\n<html lang=\"en\">\n<head>\n<meta charset=\"UTF-8\">\n<meta name=\"viewport\" content=\"width=device-width, initial-scale=1.0\">\n<title>Model performance curves</title>\n";

/// The page from its stylesheet to its body.
pub const PAGE_STYLE: &'static str =
    "\n<!-- constellation.css was unreachable at authoring time; classes (page/card/lumina-footer/muted) and vars (--accent/--text-secondary/--border-color) are the documented ones. chart-wrap scrolls wide SVGs. -->\n<style>.chart-wrap{overflow-x:auto}</style>\n</head>\n<body>\n";

/// The heading of the page.
pub const PAGE_HEADING: &'static str =
    "<header class=\"page-header\"><h1>Model performance curves</h1><p class=\"muted\">Per-model score/throughput along measured axes (source: intake <code>run_score_points</code>).</p></header>";

/// What the page says where nothing has been measured.
pub const NO_DATA_CARD: &'static str =
    "<div class=\"card\"><h2>No data yet</h2><p class=\"muted\">No measurement points have been recorded in <code>run_score_points</code> yet. This page renders one line chart per <code>(axis, metric)</code> group the moment the context/agent sweeps that populate that table run against the intake database — no regeneration code change needed.</p></div>";

/// The page: one card per chart, or a note where there is none.
pub open spec fn page(charts: Seq<(SeriesGroup<Mark>, Axes)>, generated_at: Seq<char>) -> Seq<
    char,
> {
    PAGE_HEAD@ + CSS_LINK@ + PAGE_STYLE@ + "<div class=\"page\">"@ + PAGE_HEADING@ + (if charts.len() == 0 {
        NO_DATA_CARD@
    } else {
        cards(charts)
    })
        + "<footer class=\"lumina-footer\">Lumina Constellation · Chord batch-report · generated "@
        + escaped(generated_at) + "</footer>"@ + "</div>"@ + "\n</body>\n</html>\n"@
}

/// Writes the page.
pub fn render_report(charts: &[(SeriesGroup<Mark>, Axes)], generated_at: &str) -> (r: String)
    requires
        forall|i: int|
            0 <= i < charts@.len() ==> 30 + 20 * (#[trigger] charts@[i]).0.series@.len()
                <= u64::MAX,
    ensures
        r@ == page(charts@, generated_at@),
{
    let mut r: String = owned(PAGE_HEAD);
    r.append(CSS_LINK);
    r.append(PAGE_STYLE);
    r.append("<div class=\"page\">");
    r.append(PAGE_HEADING);
    if charts.len() == 0 {
        r.append(NO_DATA_CARD);
    } else {
        let mut all: String = String::new();
        let mut i: usize = 0;
        assert(charts@.take(0) =~= Seq::empty());
        while i < charts.len()
            invariant
                i <= charts.len(),
                forall|k: int|
                    0 <= k < charts@.len() ==> 30 + 20 * (#[trigger] charts@[k]).0.series@.len()
                        <= u64::MAX,
                all@ == cards(charts@.take(i as int)),
            decreases charts.len() - i,
        {
            assert(charts@.take(i + 1).drop_last() =~= charts@.take(i as int));
            all.append(card_text(&charts[i].0, &charts[i].1).as_str());
            i = i + 1;
        }
        assert(charts@.take(charts@.len() as int) =~= charts@);
        r.append(all.as_str());
    }
    r.append(
        "<footer class=\"lumina-footer\">Lumina Constellation · Chord batch-report · generated ",
    );
    r.append(esc(generated_at).as_str());
    r.append("</footer>");
    r.append("</div>");
    r.append("\n</body>\n</html>\n");
    r
}

/// A text is escaped letter by letter: the five characters of markup become entities, every other
/// character stays, and nothing is lost.
pub proof fn law_text_is_escaped_letter_by_letter(before: Seq<char>, c: char)
    ensures
        escaped(Seq::empty()) == Seq::<char>::empty(),
        escaped(before.push(c)) == escaped(before) + escaped_char(c),
        escaped_char('&') == "&amp;"@,
        escaped_char('<') == "&lt;"@,
        escaped_char('>') == "&gt;"@,
        escaped_char('"') == "&quot;"@,
        escaped_char('\'') == "&#39;"@,
        !seq!['&', '<', '>', '"', '\''].contains(c) ==> escaped_char(c) == seq![c],
{
    assert(before.push(c).drop_last() =~= before);
    let marks = seq!['&', '<', '>', '"', '\''];
    assert(marks[0] == '&' && marks[1] == '<' && marks[2] == '>' && marks[3] == '"' && marks[4]
        == '\'');
}

/// Curves are told apart by their dashes: six patterns in turn, the first of them a solid line.
pub proof fn law_dashes_come_in_turn(index: nat)
    ensures
        dash_of(index + 6) == dash_of(index),
        dash_of(index) is None <==> index % 6 == 0,
        index % 6 == 1 ==> dash_of(index) == Some("6 3"@),
        index % 6 == 2 ==> dash_of(index) == Some("2 3"@),
        index % 6 == 3 ==> dash_of(index) == Some("8 3 2 3"@),
        index % 6 == 4 ==> dash_of(index) == Some("1 4"@),
        index % 6 == 5 ==> dash_of(index) == Some("10 4"@),
        index % 6 == 0 ==> dash_attribute(index) == Seq::<char>::empty(),
        index % 6 != 0 ==> dash_attribute(index) == " stroke-dasharray=\""@ + dash_of(index)->0
            + "\""@,
{
}

/// Every line of the grid is drawn, in order: from the left to the right at its own height, with its
/// own label at the left.
pub proof fn law_grid_has_every_line(before: Seq<GridLine>, g: GridLine)
    ensures
        grid_lines(Seq::empty()) == Seq::<char>::empty(),
        grid_lines(before.push(g)) == grid_lines(before) + grid_line(g),
        starts_with(
            grid_line(g),
            "<line x1=\"56\" y1=\""@ + g.y@ + "\" x2=\"540\" y2=\""@ + g.y@,
        ),
        contains(grid_line(g), "<text x=\"48\" y=\""@ + g.label_y@),
        contains(grid_line(g), g.label@ + "</text>"@),
{
    assert(before.push(g).drop_last() =~= before);
    let start = "<line x1=\"56\" y1=\""@ + g.y@ + "\" x2=\"540\" y2=\""@ + g.y@;
    let stroke = "\" stroke=\"var(--border-color)\" stroke-width=\"1\" opacity=\"0.4\"/>"@;
    let text = "<text x=\"48\" y=\""@ + g.label_y@;
    let fill = "\" fill=\"var(--text-secondary)\" font-size=\"11\" text-anchor=\"end\">"@;
    let label = g.label@ + "</text>"@;
    let none = Seq::<char>::empty();
    assert(grid_line(g) =~= start + (stroke + text + fill + label));
    law_words_in_a_text(none, start, stroke + text + fill + label, none);
    assert(grid_line(g) =~= (start + stroke) + text + (fill + label));
    law_words_in_a_text(start + stroke, text, fill + label, none);
    assert(grid_line(g) =~= (start + stroke + text + fill) + label + none);
    law_words_in_a_text(start + stroke + text + fill, label, none, none);
}

/// A curve passes through every one of its points, in order: a further point adds its own x and y.
pub proof fn law_curve_passes_through_every_point(
    before: Seq<(Mark, String, Mark)>,
    p: (Mark, String, Mark),
    index: nat,
)
    ensures
        ({
            let pair = p.0.text@ + ","@ + p.2.text@;
            let rest = "\" fill=\"none\" stroke=\"var(--accent)\" stroke-width=\"2\""@
                + dash_attribute(index) + "/>"@;
            let path = joined(
                before.map_values(|q: (Mark, String, Mark)| q.0.text@ + ","@ + q.2.text@),
                " "@,
            );
            &&& before.len() == 0 ==> curve_line(before.push(p), index) =~= "<polyline points=\""@
                + pair + rest
            &&& before.len() > 0 ==> curve_line(before.push(p), index) =~= "<polyline points=\""@
                + path + " "@ + pair + rest
        }),
{
    let f = |q: (Mark, String, Mark)| coordinates(q);
    let g = |q: (Mark, String, Mark)| q.0.text@ + ","@ + q.2.text@;
    assert(before.map_values(f) =~= before.map_values(g));
    assert(before.push(p).map_values(f) =~= before.map_values(f).push(coordinates(p)));
    crate::text::law_join_puts_the_separator_between(before.map_values(f), coordinates(p), " "@);
}

/// Every point has a dot of its own, at its own x and y.
pub proof fn law_every_point_has_a_dot(
    before: Seq<(Mark, String, Mark)>,
    p: (Mark, String, Mark),
)
    ensures
        dots(Seq::empty()) == Seq::<char>::empty(),
        dots(before.push(p)) == dots(before) + ("<circle cx=\""@ + p.0.text@ + "\" cy=\""@
            + p.2.text@ + "\" r=\"2.5\" fill=\"var(--accent)\"/>"@),
{
    assert(before.push(p).drop_last() =~= before);
    assert(before.push(p).last() == p);
    assert(dots(before.push(p)) =~= dots(before) + ("<circle cx=\""@ + p.0.text@ + "\" cy=\""@
        + p.2.text@ + "\" r=\"2.5\" fill=\"var(--accent)\"/>"@));
}

/// Every curve is drawn, in order: its line, its dots and its entry in the legend under its own
/// model, all by its own place among the curves.
pub proof fn law_every_curve_is_drawn(before: Seq<Series<Mark>>, s: Series<Mark>)
    ensures
        curves(Seq::empty()) == Seq::<char>::empty(),
        curves(before.push(s)) =~= curves(before) + (curve_line(s.points@, before.len()) + dots(
            s.points@,
        ) + legend(s.model_id@, before.len())),
{
    assert(before.push(s).drop_last() =~= before);
    assert(before.push(s).last() == s);
}

/// An entry of the legend names its model, escaped, and stands twenty below the one before it, with
/// the dashes of its curve.
pub proof fn law_legend_names_the_model(model: Seq<char>, index: nat)
    ensures
        starts_with(
            legend(model, index),
            "<line x1=\"556\" y1=\""@ + decimal(46 + 20 * index) + ".0\" x2=\"578\" y2=\""@
                + decimal(46 + 20 * index) + ".0\""@,
        ),
        contains(legend(model, index), "stroke-width=\"2\""@ + dash_attribute(index) + "/>"@),
        contains(
            legend(model, index),
            "<text x=\"584\" y=\""@ + decimal(50 + 20 * index) + ".0\""@,
        ),
        contains(legend(model, index), ">"@ + escaped(model) + "</text>"@),
{
    reveal_strlit(".0\"");
    reveal_strlit(" stroke=\"var(--accent)\" ");
    reveal_strlit("stroke-width=\"2\"");
    reveal_strlit(".0\" stroke=\"var(--accent)\" stroke-width=\"2\"");
    reveal_strlit(" fill=\"var(--text-secondary)\" font-size=\"11\"");
    reveal_strlit(">");
    reveal_strlit(".0\" fill=\"var(--text-secondary)\" font-size=\"11\">");
    let none = Seq::<char>::empty();
    let start = "<line x1=\"556\" y1=\""@ + decimal(46 + 20 * index)
        + ".0\" x2=\"578\" y2=\""@ + decimal(46 + 20 * index) + ".0\""@;
    let stroke = " stroke=\"var(--accent)\" "@;
    let dash = "stroke-width=\"2\""@ + dash_attribute(index) + "/>"@;
    let text = "<text x=\"584\" y=\""@ + decimal(50 + 20 * index) + ".0\""@;
    let fill = " fill=\"var(--text-secondary)\" font-size=\"11\""@;
    let name = ">"@ + escaped(model) + "</text>"@;
    assert(".0\""@ + stroke + "stroke-width=\"2\""@
        =~= ".0\" stroke=\"var(--accent)\" stroke-width=\"2\""@);
    assert(".0\""@ + fill + ">"@
        =~= ".0\" fill=\"var(--text-secondary)\" font-size=\"11\">"@);
    assert(legend(model, index) =~= start + (stroke + dash + text + fill + name));
    law_words_in_a_text(none, start, stroke + dash + text + fill + name, none);
    assert(legend(model, index) =~= (start + stroke) + dash + (text + fill + name));
    law_words_in_a_text(start + stroke, dash, text + fill + name, none);
    assert(legend(model, index) =~= (start + stroke + dash) + text + (fill + name));
    law_words_in_a_text(start + stroke + dash, text, fill + name, none);
    assert(legend(model, index) =~= (start + stroke + dash + text + fill) + name + none);
    law_words_in_a_text(start + stroke + dash + text + fill, name, none, none);
}

/// The label of an end of the axis is that of the first point which stands there and has one.
pub proof fn law_first_point_at_the_end_labels_it(
    points: Seq<(Mark, String, Mark)>,
    k: int,
    end: End,
)
    requires
        0 <= k < points.len(),
        points[k].1@.len() > 0,
        end == End::Least ==> points[k].0.least,
        end == End::Greatest ==> points[k].0.greatest,
        forall|i: int|
            0 <= i < k ==> (#[trigger] points[i]).1@.len() == 0 || (end == End::Least
                && !points[i].0.least) || (end == End::Greatest && !points[i].0.greatest),
    ensures
        first_label(points, end) == Some(points[k].1@),
    decreases points.len(),
{
    if k > 0 {
        assert(points[0].1@.len() == 0 || (end == End::Least && !points[0].0.least) || (end
            == End::Greatest && !points[0].0.greatest));
        let rest = points.skip(1);
        assert forall|i: int| 0 <= i < k - 1 implies (#[trigger] rest[i]).1@.len() == 0 || (end
            == End::Least && !rest[i].0.least) || (end == End::Greatest
            && !rest[i].0.greatest) by {
            assert(rest[i] == points[i + 1]);
        }
        law_first_point_at_the_end_labels_it(rest, k - 1, end);
    }
}

/// Where no point at an end of the axis has a label, the value stands there; else the first curve
/// that has one gives it.
pub proof fn law_end_of_the_axis_is_labelled(
    series: Seq<Series<Mark>>,
    end: End,
    value: Seq<char>,
    k: int,
)
    ensures
        (forall|i: int| 0 <= i < series.len() ==> first_label((#[trigger] series[i]).points@, end)
            is None) ==> end_text(series, end, value) == value,
        0 <= k < series.len() && first_label(series[k].points@, end) is Some && (forall|i: int|
            0 <= i < k ==> first_label((#[trigger] series[i]).points@, end) is None) ==> end_text(
            series,
            end,
            value,
        ) == first_label(series[k].points@, end)->0,
    decreases series.len(),
{
    if series.len() > 0 {
        let rest = series.skip(1);
        assert(forall|i: int| 0 <= i < rest.len() ==> #[trigger] rest[i] == series[i + 1]);
        law_end_of_the_axis_is_labelled(rest, end, value, k - 1);
        if forall|i: int|
            0 <= i < series.len() ==> first_label((#[trigger] series[i]).points@, end) is None {
            assert(first_label(series[0].points@, end) is None);
            assert forall|i: int| 0 <= i < rest.len() implies first_label(
                (#[trigger] rest[i]).points@,
                end,
            ) is None by {
                assert(first_label(series[i + 1].points@, end) is None);
            }
        }
        if 0 < k < series.len() && (forall|i: int|
            0 <= i < k ==> first_label((#[trigger] series[i]).points@, end) is None) {
            assert(first_label(series[0].points@, end) is None);
            assert forall|i: int| 0 <= i < k - 1 implies first_label(
                (#[trigger] rest[i]).points@,
                end,
            ) is None by {
                assert(first_label(series[i + 1].points@, end) is None);
            }
            assert(rest[k - 1] == series[k]);
        }
    }
}

/// The least x value is told at the left end of the axis, the greatest at the right, and the axis by
/// its name between them, all escaped.
pub proof fn law_axis_tells_its_ends(group: SeriesGroup<Mark>, axes: Axes)
    ensures
        x_axis(group, axes) =~= "<text x=\"56\" y=\"344\" fill=\"var(--text-secondary)\" font-size=\"11\" text-anchor=\"start\">"@
            + escaped(end_text(group.series@, End::Least, axes.x_least@)) + (
        "</text><text x=\"540\" y=\"344\" fill=\"var(--text-secondary)\" font-size=\"11\" text-anchor=\"end\">"@
            + escaped(end_text(group.series@, End::Greatest, axes.x_greatest@)) + (
        "</text><text x=\"298\" y=\"358\" fill=\"var(--text-secondary)\" font-size=\"12\" text-anchor=\"middle\">"@
            + escaped(group.axis@) + "</text>"@)),
{
    reveal_strlit("</text>");
    reveal_strlit(
        "</text><text x=\"540\" y=\"344\" fill=\"var(--text-secondary)\" font-size=\"11\" text-anchor=\"end\">",
    );
    reveal_strlit(
        "<text x=\"540\" y=\"344\" fill=\"var(--text-secondary)\" font-size=\"11\" text-anchor=\"end\">",
    );
    reveal_strlit(
        "</text><text x=\"298\" y=\"358\" fill=\"var(--text-secondary)\" font-size=\"12\" text-anchor=\"middle\">",
    );
    reveal_strlit(
        "<text x=\"298\" y=\"358\" fill=\"var(--text-secondary)\" font-size=\"12\" text-anchor=\"middle\">",
    );
    assert("</text>"@
        + "<text x=\"540\" y=\"344\" fill=\"var(--text-secondary)\" font-size=\"11\" text-anchor=\"end\">"@
        =~= "</text><text x=\"540\" y=\"344\" fill=\"var(--text-secondary)\" font-size=\"11\" text-anchor=\"end\">"@);
    assert("</text>"@
        + "<text x=\"298\" y=\"358\" fill=\"var(--text-secondary)\" font-size=\"12\" text-anchor=\"middle\">"@
        =~= "</text><text x=\"298\" y=\"358\" fill=\"var(--text-secondary)\" font-size=\"12\" text-anchor=\"middle\">"@);
}

/// A chart draws its grid, its axis and all its curves where any curve has a point; else it is a note
/// that names the axis and the metric.
pub proof fn law_chart_draws_its_curves(group: SeriesGroup<Mark>, axes: Axes, i: int)
    ensures
        0 <= i < group.series@.len() && group.series@[i].points@.len() > 0 ==> chart(group, axes)
            =~= chart_head(group.metric@, group.axis@) + grid_lines(axes.grid@) + x_axis(
            group,
            axes,
        ) + curves(group.series@) + "</svg>"@,
        (forall|k: int| 0 <= k < group.series@.len() ==> (#[trigger] group.series@[k]).points@.len()
            == 0) ==> chart(group, axes) =~= "<p class=\"muted\">No points for "@ + escaped(
            group.axis@,
        ) + " · "@ + escaped(group.metric@) + ".</p>"@,
{
    assert(pointless(group.series@) && 0 <= i < group.series@.len()
        ==> group.series@[i].points@.len() == 0);
}

/// The page has a card for every chart, in order.
pub proof fn law_page_has_every_chart(
    before: Seq<(SeriesGroup<Mark>, Axes)>,
    group: SeriesGroup<Mark>,
    axes: Axes,
    at: Seq<char>,
)
    ensures
        cards(before.push((group, axes))) =~= cards(before) + card(group, axes),
        contains(page(before.push((group, axes)), at), cards(before.push((group, axes)))),
{
    let all = before.push((group, axes));
    assert(all.drop_last() =~= before);
    assert(all.last() == (group, axes));
    let lead = PAGE_HEAD@ + CSS_LINK@ + PAGE_STYLE@ + "<div class=\"page\">"@ + PAGE_HEADING@;
    let tail = "<footer class=\"lumina-footer\">Lumina Constellation · Chord batch-report · generated "@
        + escaped(at) + "</footer>"@ + "</div>"@ + "\n</body>\n</html>\n"@;
    assert(page(all, at) =~= lead + cards(all) + tail);
    law_words_in_a_text(lead, cards(all), tail, Seq::empty());
}

/// With no chart the page says that there is no data.
pub proof fn law_page_invents_nothing(at: Seq<char>)
    ensures
        contains(page(Seq::empty(), at), NO_DATA_CARD@),
{
    let lead = PAGE_HEAD@ + CSS_LINK@ + PAGE_STYLE@ + "<div class=\"page\">"@ + PAGE_HEADING@;
    let tail = "<footer class=\"lumina-footer\">Lumina Constellation · Chord batch-report · generated "@
        + escaped(at) + "</footer>"@ + "</div>"@ + "\n</body>\n</html>\n"@;
    assert(page(Seq::empty(), at) =~= lead + NO_DATA_CARD@ + tail);
    law_words_in_a_text(lead, NO_DATA_CARD@, tail, Seq::empty());
}

/// Every page links the shared stylesheet and says when it was written.
pub proof fn law_page_links_the_stylesheet(
    charts: Seq<(SeriesGroup<Mark>, Axes)>,
    at: Seq<char>,
)
    ensures
        starts_with(page(charts, at), PAGE_HEAD@ + CSS_LINK@),
        contains(page(charts, at), escaped(at) + "</footer>"@),
{
    let shown = if charts.len() == 0 {
        NO_DATA_CARD@
    } else {
        cards(charts)
    };
    let none = Seq::<char>::empty();
    let start = PAGE_HEAD@ + CSS_LINK@;
    let body = PAGE_STYLE@ + "<div class=\"page\">"@ + PAGE_HEADING@ + shown
        + "<footer class=\"lumina-footer\">Lumina Constellation · Chord batch-report · generated "@;
    let end = "</div>"@ + "\n</body>\n</html>\n"@;
    let written = escaped(at) + "</footer>"@;
    assert(page(charts, at) =~= start + (body + written + end));
    law_words_in_a_text(none, start, body + written + end, none);
    assert(page(charts, at) =~= (start + body) + written + end);
    law_words_in_a_text(start + body, written, end, none);
}

/// A card holds the drawing of its chart, under a heading that names the metric and the axis.
pub proof fn law_card_names_its_chart(group: SeriesGroup<Mark>, axes: Axes)
    ensures
        starts_with(card(group, axes), "<div class=\"card\">"@ + "<h2>"@ + escaped(group.metric@)),
        contains(card(group, axes), escaped(group.axis@) + "</span></h2>"@),
        contains(card(group, axes), chart(group, axes)),
{
    let none = Seq::<char>::empty();
    let start = "<div class=\"card\">"@ + "<h2>"@ + escaped(group.metric@);
    let span = " <span class=\"muted\">vs "@;
    let named = escaped(group.axis@);
    let close = "</span></h2>"@;
    let axis = named + close;
    let wrap = "<div class=\"chart-wrap\">"@;
    let drawing = chart(group, axes);
    let end = "</div></div>"@;
    let whole = card(group, axes);
    assert(whole == start + span + named + close + wrap + drawing + end);
    lemma_regrouped(start + span, named, close);
    assert(whole == start + span + axis + wrap + drawing + end);
    law_words_in_a_text(start + span + axis + wrap, drawing, end, none);
    lemma_regrouped(start + span + axis, wrap, drawing);
    lemma_regrouped(start + span + axis, wrap + drawing, end);
    let rest = wrap + drawing + end;
    assert(whole == start + span + axis + rest);
    law_words_in_a_text(start + span, axis, rest, none);
    lemma_regrouped(start, span, axis);
    lemma_regrouped(start, span + axis, rest);
    law_words_in_a_text(none, start, span + axis + rest, none);
}

/// A drawing opens with its size and its title, and draws the two axes from their common corner.
pub proof fn law_drawing_has_its_axes(metric: Seq<char>, axis: Seq<char>)
    ensures
        starts_with(
            chart_head(metric, axis),
            "<svg xmlns=\"http://www.w3.org/2000/svg\" width=\"720\" height=\"360\" viewBox=\"0 0 720 360\" role=\"img\" aria-label=\""@
                + escaped(metric) + " vs "@ + escaped(axis) + "\">"@,
        ),
        contains(
            chart_head(metric, axis),
            "<line x1=\"56\" y1=\"316\" x2=\"540\" y2=\"316\" stroke=\"var(--border-color)\" stroke-width=\"1\"/>"@,
        ),
        contains(
            chart_head(metric, axis),
            "<line x1=\"56\" y1=\"40\" x2=\"56\" y2=\"316\" stroke=\"var(--border-color)\" stroke-width=\"1\"/>"@,
        ),
{
    let none = Seq::<char>::empty();
    let open = "<svg xmlns=\"http://www.w3.org/2000/svg\" width=\"720\" height=\"360\" viewBox=\"0 0 720 360\" role=\"img\" aria-label=\""@
        + escaped(metric) + " vs "@ + escaped(axis) + "\">"@;
    let across = "<line x1=\"56\" y1=\"316\" x2=\"540\" y2=\"316\" stroke=\"var(--border-color)\" stroke-width=\"1\"/>"@;
    let up = "<line x1=\"56\" y1=\"40\" x2=\"56\" y2=\"316\" stroke=\"var(--border-color)\" stroke-width=\"1\"/>"@;
    let all = chart_head(metric, axis);
    assert(all == open + across + up);
    assert(none + open + (across + up) =~= all);
    law_words_in_a_text(none, open, across + up, none);
    assert(open + across + up =~= all);
    law_words_in_a_text(open, across, up, none);
    assert(open + across + up + none =~= all);
    law_words_in_a_text(open + across, up, none, none);
}

} // verus!
