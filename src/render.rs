//! The static, time-independent description of the scene for the renderer:
//! traps, zone outlines and the legend, derived from the machine and the style.

use vstd::prelude::*;
use crate::color::Color;
use crate::config::{
    DashStyle, FontStyle, GridStyle, HorizontalSide, MachineConfig, VerticalSide, VisualConfig,
    ZoneConfig, ZoneStyle,
};
use crate::pattern::{pattern_matches, regex_match};
use crate::position::Position;

verus! {

/// A dashed line.
#[derive(Debug, Clone, Copy, PartialEq, Eq)]
pub struct LineStyle {
    /// The width of the line
    pub width: i64,
    /// The length of one dash
    pub segment_length: i64,
    /// The share of a dash that is drawn, in percent
    pub duty: i64,
    /// The color of the line
    pub color: Color,
}

/// The outline of a zone.
#[derive(Debug, Clone, Copy, PartialEq, Eq)]
pub struct ZoneShape {
    /// The lower corner
    pub start: Position,
    /// The extent in x and y
    pub size: (i64, i64),
    /// The outline's line
    pub line: LineStyle,
}

/// An entry of the legend.
#[derive(Debug, Clone, PartialEq)]
pub struct LegendEntry {
    /// The text
    pub text: String,
    /// The color shown beside the text
    pub color: Option<Color>,
}

impl View for LegendEntry {
    type V = (Seq<char>, Option<Color>);

    open spec fn view(&self) -> (Seq<char>, Option<Color>) {
        (self.text@, self.color)
    }
}

/// A section of the legend.
#[derive(Debug, Clone, PartialEq)]
pub struct LegendSection {
    /// The title
    pub name: String,
    /// The entries
    pub entries: Vec<LegendEntry>,
}

impl View for LegendSection {
    type V = (Seq<char>, Seq<(Seq<char>, Option<Color>)>);

    open spec fn view(&self) -> (Seq<char>, Seq<(Seq<char>, Option<Color>)>) {
        (self.name@, self.entries@.map_values(|e: LegendEntry| e@))
    }
}

/// The font of a text.
#[derive(Debug, Clone, PartialEq)]
pub struct FontConfig {
    /// The size
    pub size: u32,
    /// The color
    pub color: Color,
    /// The font family
    pub family: String,
}

/// The coordinate grid.
#[derive(Debug, PartialEq)]
pub struct GridConfig {
    /// The distance of the grid lines in x and y
    pub step: (i64, i64),
    /// The grid lines
    pub line: LineStyle,
    /// The distance of the numbers in x and y
    pub number_step: (i64, i64),
    /// The font of the numbers
    pub number_font: FontConfig,
    /// The labels of the x- and the y-axis
    pub labels: (String, String),
    /// The sides of the x- and the y-axis numbers
    pub number_sides: (VerticalSide, HorizontalSide),
}

/// The legend's text layout.
#[derive(Debug, PartialEq)]
pub struct LegendLayout {
    /// The font
    pub font: FontConfig,
    /// The space before a heading: 1.6 font sizes, rounded down
    pub heading_skip: u64,
    /// The space before an entry: 1.4 font sizes, rounded down
    pub entry_skip: u64,
    /// The radius of an entry's color circle: half a font size, rounded down
    pub color_circle_radius: u64,
    /// The space beside a color circle: half a font size, rounded down
    pub color_padding: u64,
}

/// The static description of the scene.
#[derive(Debug, PartialEq)]
pub struct Config {
    /// The coordinate grid
    pub grid: GridConfig,
    /// The font of the atom labels
    pub atom_label_font: FontConfig,
    /// The line drawn for shuttling atoms
    pub shuttle_line: LineStyle,
    /// The legend's text layout
    pub legend_layout: LegendLayout,
    /// The font of the time label
    pub time_font: FontConfig,
    /// The positions of the traps
    pub traps: Vec<Position>,
    /// The radius of a trap
    pub trap_radius: i64,
    /// The color of a trap
    pub trap_color: Color,
    /// The outlines of the zones, in the machine's order
    pub zones: Vec<ZoneShape>,
    /// The sections of the legend
    pub legend: Vec<LegendSection>,
    /// The extent of the animated content
    pub content_size: (i32, i32),
}

/// The style of the first `(pattern, style)`-pair whose pattern matches `id`.
pub open spec fn style_for(styles: Seq<(String, ZoneStyle)>, id: Seq<char>) -> Option<ZoneStyle>
    decreases styles.len(),
{
    if styles.len() == 0 {
        None
    } else if regex_match(styles[0].0@, id) == Some(true) {
        Some(styles[0].1)
    } else {
        style_for(styles.skip(1), id)
    }
}

/// Finds the style of the first `(pattern, style)`-pair whose pattern matches `id`.
pub fn get_first_match<'a>(styles: &'a Vec<(String, ZoneStyle)>, id: &String) -> (r: Option<&'a ZoneStyle>)
    ensures
        match r {
            Some(s) => style_for(styles@, id@) == Some(*s),
            None => style_for(styles@, id@) is None,
        },
{
    let mut i: usize = 0;
    assert(styles@.skip(0) =~= styles@);
    while i < styles.len()
        invariant
            0 <= i <= styles@.len(),
            style_for(styles@, id@) == style_for(styles@.skip(i as int), id@),
        decreases styles.len() - i,
    {
        proof {
            let rest = styles@.skip(i as int);
            assert(rest[0] == styles@[i as int]);
            assert(rest.skip(1) =~= styles@.skip(i + 1));
        }
        if pattern_matches(styles[i].0.as_str(), id.as_str()) == Some(true) {
            return Some(&styles[i].1);
        }
        i = i + 1;
    }
    assert(styles@.skip(i as int).len() == 0);
    None
}

/// The legend entries of the zones: for each zone whose style has a name, that
/// name with the style's color.
pub open spec fn zone_entries(
    zones: Seq<(String, ZoneConfig)>,
    styles: Seq<(String, ZoneStyle)>,
) -> Seq<(Seq<char>, Option<Color>)>
    decreases zones.len(),
{
    if zones.len() == 0 {
        Seq::empty()
    } else {
        let rest = zone_entries(zones.drop_last(), styles);
        match style_for(styles, zones.last().0@) {
            Some(s) => if s.name@.len() > 0 {
                rest.push((s.name@, Some(s.color)))
            } else {
                rest
            },
            None => rest,
        }
    }
}

/// The entries of `pairs` with a non-empty name, each with its color.
pub open spec fn named_entries(pairs: Seq<(Seq<char>, Color)>) -> Seq<(Seq<char>, Option<Color>)>
    decreases pairs.len(),
{
    if pairs.len() == 0 {
        Seq::empty()
    } else {
        let rest = named_entries(pairs.drop_last());
        if pairs.last().0.len() > 0 {
            rest.push((pairs.last().0, Some(pairs.last().1)))
        } else {
            rest
        }
    }
}

/// The views of `entries`.
pub open spec fn entry_views(entries: Seq<LegendEntry>) -> Seq<(Seq<char>, Option<Color>)> {
    entries.map_values(|e: LegendEntry| e@)
}

/// The legend entries of the zones.
fn legend_zone_entries(
    zones: &Vec<(String, ZoneConfig)>,
    styles: &Vec<(String, ZoneStyle)>,
) -> (r: Vec<LegendEntry>)
    ensures
        entry_views(r@) == zone_entries(zones@, styles@),
{
    let mut r: Vec<LegendEntry> = Vec::new();
    let mut i: usize = 0;
    while i < zones.len()
        invariant
            0 <= i <= zones@.len(),
            entry_views(r@) == zone_entries(zones@.subrange(0, i as int), styles@),
        decreases zones.len() - i,
    {
        proof {
            let next = zones@.subrange(0, i + 1);
            assert(next.drop_last() =~= zones@.subrange(0, i as int));
            assert(next.last() == zones@[i as int]);
        }
        let ghost before = r@;
        match get_first_match(styles, &zones[i].0) {
            Some(style) => {
                if !style.name.as_str().is_empty() {
                    r.push(LegendEntry { text: style.name.clone(), color: Some(style.color) });
                    assert(entry_views(r@) =~= entry_views(before).push(r@.last()@));
                }
            },
            None => {},
        }
        i = i + 1;
    }
    assert(zones@.subrange(0, zones@.len() as int) =~= zones@);
    r
}

/// The entries of `pairs` with a non-empty name.
fn legend_named_entries(pairs: &Vec<(&String, Color)>) -> (r: Vec<LegendEntry>)
    ensures
        entry_views(r@) == named_entries(
            pairs@.map_values(|p: (&String, Color)| (p.0@, p.1)),
        ),
{
    let ghost views = pairs@.map_values(|p: (&String, Color)| (p.0@, p.1));
    let mut r: Vec<LegendEntry> = Vec::new();
    let mut i: usize = 0;
    while i < pairs.len()
        invariant
            0 <= i <= pairs@.len(),
            views == pairs@.map_values(|p: (&String, Color)| (p.0@, p.1)),
            entry_views(r@) == named_entries(views.subrange(0, i as int)),
        decreases pairs.len() - i,
    {
        proof {
            let next = views.subrange(0, i + 1);
            assert(next.drop_last() =~= views.subrange(0, i as int));
            assert(next.last() == views[i as int]);
        }
        let ghost before = r@;
        let (name, color) = pairs[i];
        if !name.as_str().is_empty() {
            r.push(LegendEntry { text: name.clone(), color: Some(color) });
            assert(entry_views(r@) =~= entry_views(before).push(r@.last()@));
        }
        i = i + 1;
    }
    assert(views.subrange(0, views.len() as int) =~= views);
    r
}

/// The outline of a zone: its corner, its extent, and the line of its style
/// (a transparent black line of width `0` without a style).
pub open spec fn zone_shape(zone: ZoneConfig, style: Option<ZoneStyle>) -> ZoneShape {
    ZoneShape {
        start: zone.from,
        size: ((zone.to.x - zone.from.x) as i64, (zone.to.y - zone.from.y) as i64),
        line: match style {
            Some(s) => LineStyle {
                width: s.thickness,
                segment_length: s.dash_length,
                duty: s.dash_duty,
                color: s.color,
            },
            None => LineStyle { width: 0, segment_length: 0, duty: 0, color: Color([0u8, 0u8, 0u8, 0u8]) },
        },
    }
}

/// The outlines of the zones.
fn zone_shapes(zones: &Vec<(String, ZoneConfig)>, styles: &Vec<(String, ZoneStyle)>) -> (r: Vec<
    ZoneShape,
>)
    ensures
        r@.len() == zones@.len(),
        forall|i: int|
            0 <= i < zones@.len() ==> #[trigger] r@[i] == zone_shape(
                zones@[i].1,
                style_for(styles@, zones@[i].0@),
            ),
{
    let mut r: Vec<ZoneShape> = Vec::new();
    let mut i: usize = 0;
    while i < zones.len()
        invariant
            0 <= i <= zones@.len(),
            r@.len() == i,
            forall|k: int|
                0 <= k < i ==> #[trigger] r@[k] == zone_shape(
                    zones@[k].1,
                    style_for(styles@, zones@[k].0@),
                ),
        decreases zones.len() - i,
    {
        let zone = zones[i].1;
        let line = match get_first_match(styles, &zones[i].0) {
            Some(s) => LineStyle {
                width: s.thickness,
                segment_length: s.dash_length,
                duty: s.dash_duty,
                color: s.color,
            },
            None => LineStyle { width: 0, segment_length: 0, duty: 0, color: Color([0, 0, 0, 0]) },
        };
        r.push(
            ZoneShape {
                start: zone.from,
                size: (zone.to.x as i64 - zone.from.x as i64, zone.to.y as i64 - zone.from.y as i64),
                line,
            },
        );
        i = i + 1;
    }
    r
}

/// The line of a dash style.
pub open spec fn line_of(d: DashStyle) -> LineStyle {
    LineStyle {
        width: d.thickness,
        segment_length: d.dash_length,
        duty: d.dash_duty,
        color: d.color,
    }
}

/// Draws a dash style as a line.
fn line_from(d: &DashStyle) -> (r: LineStyle)
    ensures
        r == line_of(*d),
{
    LineStyle {
        width: d.thickness,
        segment_length: d.dash_length,
        duty: d.dash_duty,
        color: d.color,
    }
}

/// The font has the style's size, color and family.
pub open spec fn font_of(r: FontConfig, f: FontStyle) -> bool {
    r.size == f.size && r.color == f.color && r.family@ == f.family@
}

/// The font of a font style.
fn font_from(f: &FontStyle) -> (r: FontConfig)
    ensures
        font_of(r, *f),
{
    FontConfig { size: f.size, color: f.color, family: f.family.clone() }
}

/// The grid holds the style's steps, line, number font, labels and sides.
pub open spec fn grid_of(r: GridConfig, g: GridStyle) -> bool {
    &&& r.step == (g.step_x, g.step_y)
    &&& r.line == line_of(g.line)
    &&& r.number_step == (g.number_step_x, g.number_step_y)
    &&& font_of(r.number_font, g.number_font)
    &&& r.labels.0@ == g.axis_x@
    &&& r.labels.1@ == g.axis_y@
    &&& r.number_sides == (g.numbers_x, g.numbers_y)
}

/// The grid of a grid style.
fn grid_from(g: &GridStyle) -> (r: GridConfig)
    ensures
        grid_of(r, *g),
{
    GridConfig {
        step: (g.step_x, g.step_y),
        line: line_from(&g.line),
        number_step: (g.number_step_x, g.number_step_y),
        number_font: font_from(&g.number_font),
        labels: (g.axis_x.clone(), g.axis_y.clone()),
        number_sides: (g.numbers_x, g.numbers_y),
    }
}

/// The legend layout for a font: heading and entry skips of 1.6 and 1.4 font
/// sizes, circle radius and padding of half a font size (all rounded down).
pub open spec fn legend_layout_of(r: LegendLayout, f: FontStyle) -> bool {
    &&& font_of(r.font, f)
    &&& r.heading_skip == f.size * 16 / 10
    &&& r.entry_skip == f.size * 14 / 10
    &&& r.color_circle_radius == f.size / 2
    &&& r.color_padding == f.size / 2
}

/// The legend layout for a font.
fn legend_layout_from(f: &FontStyle) -> (r: LegendLayout)
    ensures
        legend_layout_of(r, *f),
{
    let size = f.size as u64;
    LegendLayout {
        font: font_from(f),
        heading_skip: size * 16 / 10,
        entry_skip: size * 14 / 10,
        color_circle_radius: size / 2,
        color_padding: size / 2,
    }
}

/// The sections of the legend: the zones, the operations and the machine,
/// each if the style shows it.
pub open spec fn legend_sections(machine: MachineConfig, visual: VisualConfig) -> Seq<
    (Seq<char>, Seq<(Seq<char>, Option<Color>)>),
> {
    let zones = if visual.zone_legend.display {
        seq![(visual.zone_legend.title@, zone_entries(machine.zone@, visual.zone_styles@))]
    } else {
        Seq::empty()
    };
    let operations = if visual.operation_legend.display {
        seq![
            (
                visual.operation_legend.title@,
                named_entries(
                    seq![
                        (visual.rz.name@, visual.rz.color),
                        (visual.ry.name@, visual.ry.color),
                        (visual.cz.name@, visual.cz.color),
                    ],
                ),
            ),
        ]
    } else {
        Seq::empty()
    };
    let machine_section = if visual.machine_legend.display {
        seq![
            (
                visual.machine_legend.title@,
                named_entries(
                    seq![
                        (visual.trap.name@, visual.trapped_color),
                        (visual.shuttle_name@, visual.shuttling_color),
                    ],
                ),
            ),
        ]
    } else {
        Seq::empty()
    };
    zones + operations + machine_section
}

/// The views of `sections`.
pub open spec fn section_views(sections: Seq<LegendSection>) -> Seq<
    (Seq<char>, Seq<(Seq<char>, Option<Color>)>),
> {
    sections.map_values(|s: LegendSection| s@)
}

/// Builds the static description of the scene from the machine, the style and
/// the extent of the animated content.
pub fn build_config(machine: &MachineConfig, visual: &VisualConfig, content_size: (i32, i32)) -> (r:
    Config)
    ensures
        grid_of(r.grid, visual.grid),
        font_of(r.atom_label_font, visual.atom_label_font),
        r.shuttle_line == line_of(visual.shuttle_line),
        legend_layout_of(r.legend_layout, visual.legend_font),
        font_of(r.time_font, visual.time_font),
        r.traps@ == machine.traps@,
        r.trap_radius == visual.trap.radius,
        r.trap_color == visual.trap.color,
        r.zones@.len() == machine.zone@.len(),
        forall|i: int|
            0 <= i < machine.zone@.len() ==> #[trigger] r.zones@[i] == zone_shape(
                machine.zone@[i].1,
                style_for(visual.zone_styles@, machine.zone@[i].0@),
            ),
        section_views(r.legend@) == legend_sections(*machine, *visual),
        r.content_size == content_size,
{
    let mut legend: Vec<LegendSection> = Vec::new();
    if visual.zone_legend.display {
        let entries = legend_zone_entries(&machine.zone, &visual.zone_styles);
        legend.push(LegendSection { name: visual.zone_legend.title.clone(), entries });
    }
    let ghost after_zones = legend@;
    if visual.operation_legend.display {
        let pairs = vec![
            (&visual.rz.name, visual.rz.color),
            (&visual.ry.name, visual.ry.color),
            (&visual.cz.name, visual.cz.color),
        ];
        let entries = legend_named_entries(&pairs);
        assert(pairs@.map_values(|p: (&String, Color)| (p.0@, p.1)) =~= seq![
            (visual.rz.name@, visual.rz.color),
            (visual.ry.name@, visual.ry.color),
            (visual.cz.name@, visual.cz.color),
        ]);
        legend.push(LegendSection { name: visual.operation_legend.title.clone(), entries });
    }
    let ghost after_operations = legend@;
    if visual.machine_legend.display {
        let pairs = vec![
            (&visual.trap.name, visual.trapped_color),
            (&visual.shuttle_name, visual.shuttling_color),
        ];
        let entries = legend_named_entries(&pairs);
        assert(pairs@.map_values(|p: (&String, Color)| (p.0@, p.1)) =~= seq![
            (visual.trap.name@, visual.trapped_color),
            (visual.shuttle_name@, visual.shuttling_color),
        ]);
        legend.push(LegendSection { name: visual.machine_legend.title.clone(), entries });
    }
    assert(section_views(legend@) =~= legend_sections(*machine, *visual));
    Config {
        grid: grid_from(&visual.grid),
        atom_label_font: font_from(&visual.atom_label_font),
        shuttle_line: line_from(&visual.shuttle_line),
        legend_layout: legend_layout_from(&visual.legend_font),
        time_font: font_from(&visual.time_font),
        traps: machine.traps.clone(),
        trap_radius: visual.trap.radius,
        trap_color: visual.trap.color,
        zones: zone_shapes(&machine.zone, &visual.zone_styles),
        legend,
        content_size,
    }
}

} // verus!
