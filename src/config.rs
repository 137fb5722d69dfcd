//! The machine and style configuration read by the scheduler.

use vstd::prelude::*;
use crate::color::Color;
use crate::movement::MovementConfig;
use crate::position::Position;

verus! {

/// A rectangular zone of the machine, corners included.
#[derive(Debug, Clone, Copy, PartialEq, Eq, Structural)]
pub struct ZoneConfig {
    /// The lower corner
    pub from: Position,
    /// The upper corner
    pub to: Position,
}

impl ZoneConfig {
    /// `p` lies within this zone's rectangle, borders included.
    pub open spec fn spec_contains(&self, p: Position) -> bool {
        self.from.x <= p.x <= self.to.x && self.from.y <= p.y <= self.to.y
    }

    /// Checks whether `p` lies within this zone's rectangle, borders included.
    pub fn contains(&self, p: Position) -> (r: bool)
        ensures
            r == self.spec_contains(p),
    {
        p.x >= self.from.x && p.y >= self.from.y && p.x <= self.to.x && p.y <= self.to.y
    }
}

/// The fixed durations of the operations.
#[derive(Debug, Clone)]
pub struct TimeConfig {
    pub load: i64,
    pub store: i64,
    pub rz: i64,
    pub ry: i64,
    pub cz: i64,
    /// The name of the time unit
    pub unit: String,
}

/// The physical machine.
#[derive(Debug, Clone)]
pub struct MachineConfig {
    /// The zones, by id
    pub zone: Vec<(String, ZoneConfig)>,
    /// The positions of the traps
    pub traps: Vec<Position>,
    /// The fixed operation durations
    pub time: TimeConfig,
    /// The movement kinematics
    pub movement: MovementConfig,
    /// The largest distance at which two atoms interact
    pub interaction_distance: u32,
}

/// The appearance of one kind of gate.
#[derive(Debug, Clone)]
pub struct OperationConfig {
    /// The overlay color an atom flashes to
    pub color: Color,
    /// The radius an atom pulses to
    pub radius: i64,
    /// The name shown in the legend (none if empty)
    pub name: String,
}

/// The style of the zones whose id matches a pattern.
#[derive(Debug, Clone)]
pub struct ZoneStyle {
    /// The color of the zone's outline
    pub color: Color,
    /// The width of the outline
    pub thickness: i64,
    /// The length of one dash of the outline
    pub dash_length: i64,
    /// The share of a dash that is drawn, in percent
    pub dash_duty: i64,
    /// The name shown in the legend (none if empty)
    pub name: String,
}

/// A font.
#[derive(Debug, Clone)]
pub struct FontStyle {
    /// The size
    pub size: u32,
    /// The color
    pub color: Color,
    /// The font family
    pub family: String,
}

/// A dashed line.
#[derive(Debug, Clone, Copy, PartialEq, Eq)]
pub struct DashStyle {
    /// The width of the line
    pub thickness: i64,
    /// The length of one dash
    pub dash_length: i64,
    /// The share of a dash that is drawn, in percent
    pub dash_duty: i64,
    /// The color
    pub color: Color,
}

/// Which side the numbers of the x-axis are on.
#[derive(Debug, Clone, Copy, PartialEq, Eq, Structural)]
pub enum VerticalSide {
    Top,
    Bottom,
}

/// Which side the numbers of the y-axis are on.
#[derive(Debug, Clone, Copy, PartialEq, Eq, Structural)]
pub enum HorizontalSide {
    Left,
    Right,
}

/// The coordinate grid and its numbering.
#[derive(Debug, Clone)]
pub struct GridStyle {
    /// The distance of the grid lines in x
    pub step_x: i64,
    /// The distance of the grid lines in y
    pub step_y: i64,
    /// The grid lines
    pub line: DashStyle,
    /// The distance of the numbers in x
    pub number_step_x: i64,
    /// The distance of the numbers in y
    pub number_step_y: i64,
    /// The font of the numbers
    pub number_font: FontStyle,
    /// The label of the x-axis
    pub axis_x: String,
    /// The label of the y-axis
    pub axis_y: String,
    /// The side of the x-axis numbers
    pub numbers_x: VerticalSide,
    /// The side of the y-axis numbers
    pub numbers_y: HorizontalSide,
}

/// Whether and under which title a section of the legend is shown.
#[derive(Debug, Clone)]
pub struct LegendStyle {
    /// Whether the section is shown
    pub display: bool,
    /// The section's title
    pub title: String,
}

/// The style of the traps.
#[derive(Debug, Clone)]
pub struct TrapStyle {
    /// The radius of a trap
    pub radius: i64,
    /// The color of a trap
    pub color: Color,
    /// The name of trapped atoms shown in the legend (none if empty)
    pub name: String,
}

/// The visual style.
#[derive(Debug, Clone)]
pub struct VisualConfig {
    /// The radius of an atom at rest
    pub atom_radius: i64,
    /// The color of a trapped atom
    pub trapped_color: Color,
    /// The color of a shuttling atom
    pub shuttling_color: Color,
    /// Appearance of the rz-operation
    pub rz: OperationConfig,
    /// Appearance of the ry-operation
    pub ry: OperationConfig,
    /// Appearance of the cz-operation
    pub cz: OperationConfig,
    /// The labels of the atoms: the first `(pattern, replacement)` whose
    /// regular expression matches an atom's id gives its label
    pub atom_labels: Vec<(String, String)>,
    /// The zone styles: the first whose regular expression matches a zone's id applies
    pub zone_styles: Vec<(String, ZoneStyle)>,
    /// The legend section of the zones
    pub zone_legend: LegendStyle,
    /// The legend section of the operations
    pub operation_legend: LegendStyle,
    /// The legend section of the machine
    pub machine_legend: LegendStyle,
    /// The style of the traps
    pub trap: TrapStyle,
    /// The name of shuttling atoms shown in the legend (none if empty)
    pub shuttle_name: String,
    /// The background color
    pub background: Color,
    /// The coordinate grid
    pub grid: GridStyle,
    /// The font of the atom labels
    pub atom_label_font: FontStyle,
    /// The line drawn for shuttling atoms
    pub shuttle_line: DashStyle,
    /// The font of the legend
    pub legend_font: FontStyle,
    /// The font of the time label
    pub time_font: FontStyle,
    /// The text before the time in the time label
    pub time_prefix: String,
}

} // verus!
