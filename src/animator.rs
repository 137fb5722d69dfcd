//! The scheduler: turns instructions into per-atom keyframes, and samples the
//! resulting animation at any time.

use vstd::prelude::*;
use vstd::string::StringExecFns;
use crate::color::Color;
use crate::config::{MachineConfig, OperationConfig, VisualConfig, ZoneConfig};
use crate::input::{Instructions, RelativeEntry, SetupInstruction, TimedInstruction};
use crate::interpolator::{Constant, Cubic, Triangle};
use crate::movement::{duration_for_distance, move_duration};
use crate::pattern::{pattern_replace, regex_replace_first};
use crate::render::{
    Config, build_config, font_of, grid_of, legend_layout_of, legend_sections, line_of, section_views,
    style_for, zone_shape,
};
use crate::position::{Position, distance_squared, spec_distance, squared_distance, distance};
use crate::timeline::{Keyframe, Timeline, sample, insert_sorted, last_at_or_before, sorted_by_time};

verus! {

/// The smallest representable time.
pub const TIME_MIN: i64 = -9223372036854775808;

/// The largest representable time.
pub const TIME_MAX: i64 = 9223372036854775807;

/// `a + b`, saturated to the range of `i64`.
pub open spec fn sat_add(a: int, b: int) -> int {
    if a + b > TIME_MAX {
        TIME_MAX as int
    } else if a + b < TIME_MIN {
        TIME_MIN as int
    } else {
        a + b
    }
}

/// Adds two times, saturating at the bounds of `i64`.
pub fn add_time(a: i64, b: i64) -> (r: i64)
    ensures
        r == sat_add(a as int, b as int),
{
    let s = a as i128 + b as i128;
    if s > TIME_MAX as i128 {
        TIME_MAX
    } else if s < TIME_MIN as i128 {
        TIME_MIN
    } else {
        s as i64
    }
}

/// `s` with `k` inserted after every keyframe that starts at or before `k`.
pub open spec fn inserted<T>(s: Seq<Keyframe<T>>, k: Keyframe<T>) -> Seq<Keyframe<T>> {
    s.insert(last_at_or_before(s, k.time as int) + 1, k)
}

/// The timelines for a single atom
pub struct AtomTimelines {
    /// The position, eased cubically
    pub position: Timeline<Position, Cubic>,
    /// The overlay color, pulsing
    pub overlay_color: Timeline<Color, Triangle>,
    /// The size, pulsing
    pub size: Timeline<i64, Triangle>,
    /// Whether the atom is shuttling, switching instantly
    pub shuttling: Timeline<bool, Constant>,
}

impl AtomTimelines {
    /// All four timelines are in ascending order of time.
    pub open spec fn wf(&self) -> bool {
        self.position.wf() && self.overlay_color.wf() && self.size.wf() && self.shuttling.wf()
    }

    /// The values of the four timelines at time `t`.
    pub open spec fn spec_get(&self, t: int) -> (Position, Color, i64, bool) {
        (
            self.position.spec_get(t),
            self.overlay_color.spec_get(t),
            self.size.spec_get(t),
            self.shuttling.spec_get(t),
        )
    }

    /// Creates new timelines without keyframes from the passed default values
    pub fn new(position: Position, overlay_color: Color, size: i64, shuttling: bool) -> (r: Self)
        ensures
            r.wf(),
            r.position@.len() == 0,
            r.overlay_color@.len() == 0,
            r.size@.len() == 0,
            r.shuttling@.len() == 0,
            r.position.default_value() == position,
            r.overlay_color.default_value() == overlay_color,
            r.size.default_value() == size,
            r.shuttling.default_value() == shuttling,
    {
        AtomTimelines {
            position: Timeline::new(position),
            overlay_color: Timeline::new(overlay_color),
            size: Timeline::new(size),
            shuttling: Timeline::new(shuttling),
        }
    }

    /// Gets the values of these timelines at the passed time
    pub fn get(&self, time: i64) -> (r: (Position, Color, i64, bool))
        requires
            self.wf(),
        ensures
            r == self.spec_get(time as int),
    {
        (
            self.position.get(time),
            self.overlay_color.get(time),
            self.size.get(time),
            self.shuttling.get(time),
        )
    }
}

/// An atom of the animation.
pub struct Atom {
    /// id of the atom
    pub id: String,
    /// display name (label) of the atom
    pub name: String,
    /// the timelines of the atom
    pub timelines: AtomTimelines,
}

/// Every atom's timelines are in ascending order of time.
pub open spec fn atoms_wf(atoms: Seq<Atom>) -> bool {
    forall|i: int| 0 <= i < atoms.len() ==> (#[trigger] atoms[i]).timelines.wf()
}

/// A timeline as its keyframes and its default value.
pub type TimelineModel<T> = (Seq<Keyframe<T>>, T);

/// An atom as its id, its label, and its position, overlay-color, size and
/// shuttling timelines.
pub type AtomModel = (
    Seq<char>,
    Seq<char>,
    TimelineModel<Position>,
    TimelineModel<Color>,
    TimelineModel<i64>,
    TimelineModel<bool>,
);

/// The model of atom `a`.
pub open spec fn model_of(a: Atom) -> AtomModel {
    (
        a.id@,
        a.name@,
        (a.timelines.position@, a.timelines.position.default_value()),
        (a.timelines.overlay_color@, a.timelines.overlay_color.default_value()),
        (a.timelines.size@, a.timelines.size.default_value()),
        (a.timelines.shuttling@, a.timelines.shuttling.default_value()),
    )
}

/// The models of `atoms`.
pub open spec fn models(atoms: Seq<Atom>) -> Seq<AtomModel> {
    atoms.map_values(|a: Atom| model_of(a))
}

/// The position of atom `i` at time `t`.
pub open spec fn position_at(atoms: Seq<AtomModel>, i: int, t: int) -> Position {
    sample::<Position, Cubic>(atoms[i].2.0, atoms[i].2.1, t)
}

/// The index of the first key in `keys` equal to `key`; `-1` if there is none.
pub open spec fn first_index_of(keys: Seq<Seq<char>>, key: Seq<char>) -> int
    decreases keys.len(),
{
    if keys.len() == 0 {
        -1
    } else {
        let k = first_index_of(keys.drop_last(), key);
        if k >= 0 {
            k
        } else if keys.last() == key {
            keys.len() - 1
        } else {
            -1
        }
    }
}

/// If `key` is not among the first `i` keys and is at `i`, `first_index_of` is `i`;
/// if it is not among all keys, `first_index_of` is `-1`.
pub proof fn lemma_first_index_of(keys: Seq<Seq<char>>, key: Seq<char>, i: int)
    requires
        0 <= i <= keys.len(),
        forall|j: int| 0 <= j < i ==> keys[j] != key,
        i < keys.len() ==> keys[i] == key,
    ensures
        first_index_of(keys, key) == if i < keys.len() { i } else { -1 },
    decreases keys.len(),
{
    if keys.len() > 0 {
        let r = keys.drop_last();
        if i < keys.len() - 1 {
            lemma_first_index_of(r, key, i);
        } else {
            assert forall|j: int| 0 <= j < r.len() implies r[j] != key by {
                assert(r[j] == keys[j]);
            }
            lemma_first_index_of(r, key, r.len() as int);
        }
    }
}

/// The ids of the atoms.
pub open spec fn atom_ids(atoms: Seq<AtomModel>) -> Seq<Seq<char>> {
    atoms.map_values(|a: AtomModel| a.0)
}

/// The ids of the zones.
pub open spec fn zone_ids(zones: Seq<(String, ZoneConfig)>) -> Seq<Seq<char>> {
    zones.map_values(|z: (String, ZoneConfig)| z.0@)
}

/// The zone with id `id`, if any (the first, should ids repeat).
pub open spec fn zone_of(zones: Seq<(String, ZoneConfig)>, id: Seq<char>) -> Option<ZoneConfig> {
    let k = first_index_of(zone_ids(zones), id);
    if k >= 0 {
        Some(zones[k].1)
    } else {
        None
    }
}

/// Finds the zone with id `id`.
fn find_zone(zones: &Vec<(String, ZoneConfig)>, id: &String) -> (r: Option<ZoneConfig>)
    ensures
        r == zone_of(zones@, id@),
{
    let mut i: usize = 0;
    while i < zones.len()
        invariant
            0 <= i <= zones@.len(),
            forall|j: int| 0 <= j < i ==> zone_ids(zones@)[j] != id@,
        decreases zones.len() - i,
    {
        if zones[i].0 == *id {
            proof {
                lemma_first_index_of(zone_ids(zones@), id@, i as int);
            }
            return Some(zones[i].1);
        }
        i = i + 1;
    }
    proof {
        lemma_first_index_of(zone_ids(zones@), id@, i as int);
    }
    None
}

/// Two positions are at most `max_distance` apart.
pub open spec fn is_close(a: Position, b: Position, max_distance: int) -> bool {
    distance_squared(a, b) <= max_distance * max_distance
}

/// Whether instruction `instruction`, starting at time `t`, targets atom `i`:
/// load, store and move target the atom with their id; rz and ry target it
/// and, if the id names a zone, every atom in that zone; cz targets every atom
/// in its zone that is close to another atom in that zone.
pub open spec fn is_targeted(
    atoms: Seq<AtomModel>,
    instruction: TimedInstruction,
    t: int,
    machine: MachineConfig,
    i: int,
) -> bool {
    let zone = zone_of(machine.zone@, instruction.spec_id());
    match instruction {
        TimedInstruction::Rz { .. } | TimedInstruction::Ry { .. } => atoms[i].0
            == instruction.spec_id() || (zone.is_some() && zone.unwrap().spec_contains(
            position_at(atoms, i, t),
        )),
        TimedInstruction::Cz { .. } => zone.is_some() && zone.unwrap().spec_contains(
            position_at(atoms, i, t),
        ) && exists|j: int|
            0 <= j < atoms.len() && j != i && zone.unwrap().spec_contains(
                #[trigger] position_at(atoms, j, t),
            ) && is_close(
                position_at(atoms, i, t),
                position_at(atoms, j, t),
                machine.interaction_distance as int,
            ),
        _ => atoms[i].0 == instruction.spec_id(),
    }
}

/// The indices of the atoms that `instruction`, starting at `start_time`,
/// targets, in ascending order.
pub fn targeted(
    atoms: &Vec<Atom>,
    instruction: &TimedInstruction,
    start_time: i64,
    machine: &MachineConfig,
) -> (r: Vec<usize>)
    requires
        atoms_wf(atoms@),
    ensures
        forall|a: int, b: int| 0 <= a < b < r@.len() ==> r@[a] < r@[b],
        forall|i: int|
            0 <= i < atoms@.len() ==> (r@.contains(i as usize) <==> is_targeted(
                models(atoms@),
                *instruction,
                start_time as int,
                *machine,
                i,
            )),
        forall|k: int| 0 <= k < r@.len() ==> r@[k] < atoms@.len(),
{
    let zone = match instruction {
        TimedInstruction::Rz { id, .. } => find_zone(&machine.zone, id),
        TimedInstruction::Ry { id, .. } => find_zone(&machine.zone, id),
        TimedInstruction::Cz { id } => find_zone(&machine.zone, id),
        _ => None,
    };
    let mut result: Vec<usize> = Vec::new();
    let mut i: usize = 0;
    while i < atoms.len()
        invariant
            0 <= i <= atoms@.len(),
            atoms_wf(atoms@),
            zone == zone_of(machine.zone@, instruction.spec_id()) || !(instruction is Rz
                || instruction is Ry || instruction is Cz),
            forall|a: int, b: int| 0 <= a < b < result@.len() ==> result@[a] < result@[b],
            forall|k: int| 0 <= k < result@.len() ==> result@[k] < i,
            forall|j: int|
                0 <= j < i ==> (result@.contains(j as usize) <==> is_targeted(
                    models(atoms@),
                    *instruction,
                    start_time as int,
                    *machine,
                    j,
                )),
        decreases atoms.len() - i,
    {
        let hit = is_atom_targeted(atoms, instruction, start_time, machine, zone, i);
        let ghost before = result@;
        if hit {
            result.push(i);
        }
        proof {
            assert forall|x: usize| result@.contains(x) <==> (before.contains(x) || (hit && x
                == i)) by {
                if result@.contains(x) {
                    let k = choose|k: int| 0 <= k < result@.len() && result@[k] == x;
                    if k < before.len() {
                        assert(before[k] == x);
                    }
                }
                if before.contains(x) {
                    let k = choose|k: int| 0 <= k < before.len() && before[k] == x;
                    assert(result@[k] == x);
                }
                if hit && x == i {
                    assert(result@[result@.len() - 1] == x);
                }
            }
            assert(!before.contains(i));
        }
        i = i + 1;
    }
    result
}

/// Whether atom `i` is targeted, given the zone that the instruction's id names.
fn is_atom_targeted(
    atoms: &Vec<Atom>,
    instruction: &TimedInstruction,
    start_time: i64,
    machine: &MachineConfig,
    zone: Option<ZoneConfig>,
    i: usize,
) -> (r: bool)
    requires
        atoms_wf(atoms@),
        i < atoms@.len(),
        zone == zone_of(machine.zone@, instruction.spec_id()) || !(instruction is Rz
            || instruction is Ry || instruction is Cz),
    ensures
        r == is_targeted(models(atoms@), *instruction, start_time as int, *machine, i as int),
{
    match instruction {
        TimedInstruction::Rz { id, .. } | TimedInstruction::Ry { id, .. } => {
            if atoms[i].id == *id {
                true
            } else {
                match zone {
                    Some(z) => {
                        assert(atoms@[i as int].timelines.wf());
                        z.contains(atoms[i].timelines.position.get(start_time))
                    },
                    None => false,
                }
            }
        },
        TimedInstruction::Cz { .. } => {
            match zone {
                Some(z) => {
                    assert(atoms@[i as int].timelines.wf());
                    let p = atoms[i].timelines.position.get(start_time);
                    if !z.contains(p) {
                        return false;
                    }
                    let max = machine.interaction_distance as u128;
                    let mut j: usize = 0;
                    while j < atoms.len()
                        invariant
                            0 <= j <= atoms@.len(),
                            atoms_wf(atoms@),
                            i < atoms@.len(),
                            p == position_at(models(atoms@), i as int, start_time as int),
                            max == machine.interaction_distance,
                            zone == Some(z),
                            zone == zone_of(machine.zone@, instruction.spec_id()),
                            instruction is Cz,
                            z.spec_contains(p),
                            forall|k: int|
                                0 <= k < j ==> !(k != i && z.spec_contains(
                                    #[trigger] position_at(models(atoms@), k, start_time as int),
                                ) && is_close(
                                    p,
                                    position_at(models(atoms@), k, start_time as int),
                                    max as int,
                                )),
                        decreases atoms.len() - j,
                    {
                        if j != i {
                            assert(atoms@[j as int].timelines.wf());
                            let q = atoms[j].timelines.position.get(start_time);
                            assert(max * max <= 0xffff_ffff * 0xffff_ffff) by (nonlinear_arith)
                                requires
                                    max <= 0xffff_ffff,
                            ;
                            if z.contains(q) && squared_distance(p, q) <= max * max {
                                assert(q == position_at(models(atoms@), j as int, start_time as int));
                                assert(is_close(p, q, max as int));
                                assert(zone == Some(z));
                                assert(0 <= j < atoms@.len() && j != i && z.spec_contains(
                                    position_at(models(atoms@), j as int, start_time as int),
                                ) && is_close(
                                    position_at(models(atoms@), i as int, start_time as int),
                                    position_at(models(atoms@), j as int, start_time as int),
                                    machine.interaction_distance as int,
                                ));
                                return true;
                            }
                        }
                        j = j + 1;
                    }
                    false
                },
                None => false,
            }
        },
        TimedInstruction::Load { id, .. } => atoms[i].id == *id,
        TimedInstruction::Store { id, .. } => atoms[i].id == *id,
        TimedInstruction::Move { id, .. } => atoms[i].id == *id,
    }
}


/// The duration of `instruction` when it starts at time `t`: the machine's
/// fixed time for load, store, rz, ry and cz; for a move, the kinematic duration
/// over the distance from the atom's position at `t` to the destination, or
/// `0` when no atom has the id.
pub open spec fn spec_duration(
    instruction: TimedInstruction,
    atoms: Seq<AtomModel>,
    machine: MachineConfig,
    t: int,
) -> int {
    match instruction {
        TimedInstruction::Load { .. } => machine.time.load as int,
        TimedInstruction::Store { .. } => machine.time.store as int,
        TimedInstruction::Rz { .. } => machine.time.rz as int,
        TimedInstruction::Ry { .. } => machine.time.ry as int,
        TimedInstruction::Cz { .. } => machine.time.cz as int,
        TimedInstruction::Move { position, id } => {
            let k = first_index_of(atom_ids(atoms), id@);
            if k < 0 {
                0
            } else {
                move_duration(
                    spec_distance(position_at(atoms, k, t), position) as int,
                    machine.movement.acceleration_up as int,
                    machine.movement.acceleration_down as int,
                    machine.movement.speed as int,
                )
            }
        },
    }
}

/// Gets the duration of `instruction` when it starts at `time`.
pub fn get_duration(
    instruction: &TimedInstruction,
    atoms: &Vec<Atom>,
    machine: &MachineConfig,
    time: i64,
) -> (r: i64)
    requires
        atoms_wf(atoms@),
    ensures
        r == spec_duration(*instruction, models(atoms@), *machine, time as int),
{
    match instruction {
        TimedInstruction::Load { .. } => machine.time.load,
        TimedInstruction::Store { .. } => machine.time.store,
        TimedInstruction::Rz { .. } => machine.time.rz,
        TimedInstruction::Ry { .. } => machine.time.ry,
        TimedInstruction::Cz { .. } => machine.time.cz,
        TimedInstruction::Move { position, id } => {
            let mut i: usize = 0;
            while i < atoms.len()
                invariant
                    0 <= i <= atoms@.len(),
                    atoms_wf(atoms@),
                    *instruction == (TimedInstruction::Move { position: *position, id: *id }),
                    forall|j: int| 0 <= j < i ==> atom_ids(models(atoms@))[j] != id@,
                decreases atoms.len() - i,
            {
                if atoms[i].id == *id {
                    proof {
                        lemma_first_index_of(atom_ids(models(atoms@)), id@, i as int);
                        assert(atoms@[i as int].timelines.wf());
                    }
                    let start = atoms[i].timelines.position.get(time);
                    let d = distance(start, *position);
                    return duration_for_distance(d, &machine.movement);
                }
                i = i + 1;
            }
            proof {
                lemma_first_index_of(atom_ids(models(atoms@)), id@, i as int);
            }
            0
        },
    }
}

/// The appearance of the operation `instruction`, if it is a rotation or a cz.
pub open spec fn operation_config(instruction: TimedInstruction, visual: VisualConfig) -> Option<
    OperationConfig,
> {
    match instruction {
        TimedInstruction::Rz { .. } => Some(visual.rz),
        TimedInstruction::Ry { .. } => Some(visual.ry),
        TimedInstruction::Cz { .. } => Some(visual.cz),
        _ => None,
    }
}

/// The position keyframes after `instruction` ran from `start` for `duration`:
/// a move, and a load or store with a destination, add one.
pub open spec fn next_positions(
    s: Seq<Keyframe<Position>>,
    instruction: TimedInstruction,
    start: int,
    duration: int,
) -> Seq<Keyframe<Position>> {
    match instruction.spec_position() {
        Some(p) => inserted(s, Keyframe { time: start as i64, duration: duration as i64, value: p }),
        None => s,
    }
}

/// The shuttling keyframes after `instruction` ran from `start` for `duration`:
/// a load starts shuttling at its start, a store ends it at its end.
pub open spec fn next_shuttling(
    s: Seq<Keyframe<bool>>,
    instruction: TimedInstruction,
    start: int,
    duration: int,
) -> Seq<Keyframe<bool>> {
    match instruction {
        TimedInstruction::Load { .. } => inserted(
            s,
            Keyframe { time: start as i64, duration: 0, value: true },
        ),
        TimedInstruction::Store { .. } => inserted(
            s,
            Keyframe { time: sat_add(start, duration) as i64, duration: 0, value: false },
        ),
        _ => s,
    }
}

/// The overlay-color keyframes after `instruction` ran from `start` for
/// `duration`: an rz, ry or cz pulses to its color.
pub open spec fn next_colors(
    s: Seq<Keyframe<Color>>,
    instruction: TimedInstruction,
    start: int,
    duration: int,
    visual: VisualConfig,
) -> Seq<Keyframe<Color>> {
    match operation_config(instruction, visual) {
        Some(c) => inserted(
            s,
            Keyframe { time: start as i64, duration: duration as i64, value: c.color },
        ),
        None => s,
    }
}

/// The size keyframes after `instruction` ran from `start` for `duration`:
/// an rz, ry or cz pulses to its radius.
pub open spec fn next_sizes(
    s: Seq<Keyframe<i64>>,
    instruction: TimedInstruction,
    start: int,
    duration: int,
    visual: VisualConfig,
) -> Seq<Keyframe<i64>> {
    match operation_config(instruction, visual) {
        Some(c) => inserted(
            s,
            Keyframe { time: start as i64, duration: duration as i64, value: c.radius },
        ),
        None => s,
    }
}

/// Inserts the keyframes of `instruction`, running from `start_time` for
/// `duration`, into `timelines`.
pub fn insert_animation(
    timelines: &mut AtomTimelines,
    instruction: &TimedInstruction,
    start_time: i64,
    duration: i64,
    visual: &VisualConfig,
)
    requires
        old(timelines).wf(),
    ensures
        final(timelines).wf(),
        final(timelines).position@ == next_positions(
            old(timelines).position@,
            *instruction,
            start_time as int,
            duration as int,
        ),
        final(timelines).shuttling@ == next_shuttling(
            old(timelines).shuttling@,
            *instruction,
            start_time as int,
            duration as int,
        ),
        final(timelines).overlay_color@ == next_colors(
            old(timelines).overlay_color@,
            *instruction,
            start_time as int,
            duration as int,
            *visual,
        ),
        final(timelines).size@ == next_sizes(
            old(timelines).size@,
            *instruction,
            start_time as int,
            duration as int,
            *visual,
        ),
        final(timelines).position.default_value() == old(timelines).position.default_value(),
        final(timelines).shuttling.default_value() == old(timelines).shuttling.default_value(),
        final(timelines).overlay_color.default_value() == old(
            timelines,
        ).overlay_color.default_value(),
        final(timelines).size.default_value() == old(timelines).size.default_value(),
{
    match instruction {
        TimedInstruction::Load { position, .. } => {
            timelines.shuttling.add(start_time, 0, true);
            if let Some(p) = position {
                timelines.position.add(start_time, duration, *p);
            }
        },
        TimedInstruction::Store { position, .. } => {
            timelines.shuttling.add(add_time(start_time, duration), 0, false);
            if let Some(p) = position {
                timelines.position.add(start_time, duration, *p);
            }
        },
        TimedInstruction::Move { position, .. } => {
            timelines.position.add(start_time, duration, *position);
        },
        TimedInstruction::Rz { .. } => {
            add_operation(timelines, start_time, duration, &visual.rz);
        },
        TimedInstruction::Ry { .. } => {
            add_operation(timelines, start_time, duration, &visual.ry);
        },
        TimedInstruction::Cz { .. } => {
            add_operation(timelines, start_time, duration, &visual.cz);
        },
    }
}

/// Adds the color and size pulse of an operation with appearance `config`.
fn add_operation(
    timelines: &mut AtomTimelines,
    time: i64,
    duration: i64,
    config: &OperationConfig,
)
    requires
        old(timelines).wf(),
    ensures
        final(timelines).wf(),
        final(timelines).position == old(timelines).position,
        final(timelines).shuttling == old(timelines).shuttling,
        final(timelines).overlay_color@ == inserted(
            old(timelines).overlay_color@,
            Keyframe { time, duration, value: config.color },
        ),
        final(timelines).size@ == inserted(
            old(timelines).size@,
            Keyframe { time, duration, value: config.radius },
        ),
        final(timelines).overlay_color.default_value() == old(
            timelines,
        ).overlay_color.default_value(),
        final(timelines).size.default_value() == old(timelines).size.default_value(),
{
    timelines.overlay_color.add(time, duration, config.color);
    timelines.size.add(time, duration, config.radius);
}

/// The time at which a group's next entry becomes eligible after an entry ran
/// from `start_time` for `duration`: the same start when the next entry is
/// anchored at the group's start, else the completion.
pub open spec fn spec_next_eligibility(start_time: int, duration: int, next_from_start: bool) -> int {
    if next_from_start {
        start_time
    } else {
        sat_add(start_time, duration)
    }
}

/// The time at which a group's next entry becomes eligible.
pub fn next_eligibility(start_time: i64, duration: i64, next_from_start: bool) -> (r: i64)
    ensures
        r == spec_next_eligibility(start_time as int, duration as int, next_from_start),
{
    if next_from_start {
        start_time
    } else {
        add_time(start_time, duration)
    }
}


/// The decimal digit `d`.
pub open spec fn digit_char(d: nat) -> char {
    seq!['0', '1', '2', '3', '4', '5', '6', '7', '8', '9'][d as int]
}

/// The decimal digits of `n`, most significant first, without leading zeros.
pub open spec fn decimal_digits(n: nat) -> Seq<char>
    decreases n,
{
    if n < 10 {
        seq![digit_char(n)]
    } else {
        decimal_digits(n / 10).push(digit_char(n % 10))
    }
}

/// `n` in decimal, with a leading `-` when negative.
pub open spec fn decimal(n: int) -> Seq<char> {
    if n < 0 {
        seq!['-'] + decimal_digits((-n) as nat)
    } else {
        decimal_digits(n as nat)
    }
}

/// The time label: the prefix, the time in decimal with one decimal place
/// (times are whole units, so it is always `.0`), a space and the unit.
pub open spec fn time_text(prefix: Seq<char>, time: int, unit: Seq<char>) -> Seq<char> {
    prefix + decimal(time) + seq!['.', '0'] + seq![' '] + unit
}

/// Relies on `ToString` through the `Display` of `i64`: decimal digits, with
/// `-` before a negative number.
#[verifier::external_body]
fn decimal_string(n: i64) -> (r: String)
    ensures
        r@ == decimal(n as int),
{
    n.to_string()
}

/// The time label: the prefix, the time in decimal with one decimal place
/// (times are whole units, so it is always `.0`), a space and the unit.
pub fn time_label(prefix: &String, time: i64, unit: &String) -> (r: String)
    ensures
        r@ == time_text(prefix@, time as int, unit@),
{
    let digits = decimal_string(time);
    let label = prefix.clone().concat(digits.as_str()).concat(".0").concat(" ").concat(unit.as_str());
    proof {
        reveal_strlit(".0");
        reveal_strlit(" ");
        assert(label@ =~= time_text(prefix@, time as int, unit@));
    }
    label
}

/// The state of one atom at one time.
#[derive(Debug, Clone, PartialEq)]
pub struct AtomState {
    /// The position
    pub position: Position,
    /// The radius
    pub size: i64,
    /// The color: the overlay color over the trapped or shuttling color
    pub color: Color,
    /// Whether the atom is shuttling
    pub shuttle: bool,
    /// The label
    pub label: String,
}

impl View for AtomState {
    type V = (Position, i64, Color, bool, Seq<char>);

    open spec fn view(&self) -> (Position, i64, Color, bool, Seq<char>) {
        (self.position, self.size, self.color, self.shuttle, self.label@)
    }
}

/// The state of the animation at one time.
#[derive(Debug, Clone, PartialEq)]
pub struct State {
    /// The states of the atoms, in the order of the setup
    pub atoms: Vec<AtomState>,
    /// The time label
    pub time: String,
}

impl View for State {
    type V = (Seq<(Position, i64, Color, bool, Seq<char>)>, Seq<char>);

    open spec fn view(&self) -> (Seq<(Position, i64, Color, bool, Seq<char>)>, Seq<char>) {
        (self.atoms@.map_values(|a: AtomState| a@), self.time@)
    }
}

/// The state of atom `a` at time `t`.
pub open spec fn atom_state_at(a: Atom, visual: VisualConfig, t: int) -> (
    Position,
    i64,
    Color,
    bool,
    Seq<char>,
) {
    let (position, overlay, size, shuttling) = a.timelines.spec_get(t);
    let base = if shuttling {
        visual.shuttling_color
    } else {
        visual.trapped_color
    };
    (position, size, overlay.spec_over(base), shuttling, a.name@)
}

/// The label of the atom with id `id`: the replacement of the first of the
/// `(pattern, replacement)`-pairs whose pattern matches the id, or empty.
pub open spec fn label_of(labels: Seq<(String, String)>, id: Seq<char>) -> Seq<char>
    decreases labels.len(),
{
    if labels.len() == 0 {
        Seq::empty()
    } else {
        match regex_replace_first(labels[0].0@, id, labels[0].1@) {
            Some(label) => label,
            None => label_of(labels.skip(1), id),
        }
    }
}

/// Derives the label of the atom with id `id`.
fn get_name(labels: &Vec<(String, String)>, id: &String) -> (r: String)
    ensures
        r@ == label_of(labels@, id@),
{
    let mut i: usize = 0;
    assert(labels@.skip(0) =~= labels@);
    while i < labels.len()
        invariant
            0 <= i <= labels@.len(),
            label_of(labels@, id@) == label_of(labels@.skip(i as int), id@),
        decreases labels.len() - i,
    {
        proof {
            let rest = labels@.skip(i as int);
            assert(rest[0] == labels@[i as int]);
            assert(rest.skip(1) =~= labels@.skip(i + 1));
        }
        match pattern_replace(labels[i].0.as_str(), id.as_str(), labels[i].1.as_str()) {
            Some(label) => {
                return label;
            },
            None => {},
        }
        i = i + 1;
    }
    assert(labels@.skip(i as int).len() == 0);
    String::new()
}

/// Atom `a` was created from the setup entry `setup`: same id, the label
/// given for it, the placement as default position, a transparent overlay,
/// the style's atom radius and not shuttling.
pub open spec fn created_from(a: Atom, setup: SetupInstruction, visual: VisualConfig) -> bool {
    match setup {
        SetupInstruction::Atom { position, id } => {
            &&& a.id@ == id@
            &&& a.name@ == label_of(visual.atom_labels@, id@)
            &&& a.timelines.position.default_value() == position
            &&& a.timelines.overlay_color.default_value() == Color([0u8, 0u8, 0u8, 0u8])
            &&& a.timelines.size.default_value() == visual.atom_radius
            &&& a.timelines.shuttling.default_value() == false
            &&& a.timelines.position@.len() == 0
            &&& a.timelines.overlay_color@.len() == 0
            &&& a.timelines.size@.len() == 0
            &&& a.timelines.shuttling@.len() == 0
        },
    }
}

/// The atoms `a` and `b` are the same atoms (ids, labels and default values),
/// whatever keyframes they hold.
pub open spec fn same_atoms(a: Seq<Atom>, b: Seq<Atom>) -> bool {
    &&& a.len() == b.len()
    &&& forall|i: int|
        0 <= i < a.len() ==> {
            &&& (#[trigger] a[i]).id == b[i].id
            &&& a[i].name == b[i].name
            &&& a[i].timelines.position.default_value() == b[i].timelines.position.default_value()
            &&& a[i].timelines.overlay_color.default_value()
                == b[i].timelines.overlay_color.default_value()
            &&& a[i].timelines.size.default_value() == b[i].timelines.size.default_value()
            &&& a[i].timelines.shuttling.default_value()
                == b[i].timelines.shuttling.default_value()
        }
}

/// The number of group entries not yet scheduled, over the first `n` groups.
pub open spec fn pending(
    groups: Seq<(i64, Vec<RelativeEntry>)>,
    cursors: Seq<usize>,
    n: int,
) -> int
    decreases n,
{
    if n <= 0 {
        0
    } else {
        pending(groups, cursors, n - 1) + (groups[n - 1].1@.len() - cursors[n - 1])
    }
}

/// Advancing the cursor of group `g` by one lowers `pending` by one.
proof fn lemma_pending_step(
    groups: Seq<(i64, Vec<RelativeEntry>)>,
    cursors: Seq<usize>,
    g: int,
    n: int,
)
    requires
        0 <= g < cursors.len(),
        0 <= n <= cursors.len(),
        cursors[g] < usize::MAX,
    ensures
        pending(groups, cursors.update(g, (cursors[g] + 1) as usize), n) == pending(
            groups,
            cursors,
            n,
        ) - if g < n {
            1int
        } else {
            0int
        },
    decreases n,
{
    if n > 0 {
        lemma_pending_step(groups, cursors, g, n - 1);
    }
}

/// Atom `new` is atom `old` with the keyframes of `instruction`, running from
/// `start` for `duration`, inserted.
pub open spec fn animated(
    new: Atom,
    old: Atom,
    instruction: TimedInstruction,
    start: int,
    duration: int,
    visual: VisualConfig,
) -> bool {
    &&& new.id == old.id
    &&& new.name == old.name
    &&& new.timelines.wf()
    &&& new.timelines.position@ == next_positions(
        old.timelines.position@,
        instruction,
        start,
        duration,
    )
    &&& new.timelines.shuttling@ == next_shuttling(
        old.timelines.shuttling@,
        instruction,
        start,
        duration,
    )
    &&& new.timelines.overlay_color@ == next_colors(
        old.timelines.overlay_color@,
        instruction,
        start,
        duration,
        visual,
    )
    &&& new.timelines.size@ == next_sizes(
        old.timelines.size@,
        instruction,
        start,
        duration,
        visual,
    )
    &&& new.timelines.position.default_value() == old.timelines.position.default_value()
    &&& new.timelines.overlay_color.default_value()
        == old.timelines.overlay_color.default_value()
    &&& new.timelines.size.default_value() == old.timelines.size.default_value()
    &&& new.timelines.shuttling.default_value() == old.timelines.shuttling.default_value()
}

/// Inserts the keyframes of `instruction`, running from `start_time` for
/// `duration`, into the timelines of each atom in `targets`.
fn animate_targets(
    atoms: &mut Vec<Atom>,
    targets: &Vec<usize>,
    instruction: &TimedInstruction,
    start_time: i64,
    duration: i64,
    visual: &VisualConfig,
)
    requires
        atoms_wf(old(atoms)@),
        forall|t: int| 0 <= t < targets@.len() ==> targets@[t] < old(atoms)@.len(),
        forall|a: int, b: int| 0 <= a < b < targets@.len() ==> targets@[a] < targets@[b],
    ensures
        atoms_wf(final(atoms)@),
        same_atoms(final(atoms)@, old(atoms)@),
        final(atoms)@.len() == old(atoms)@.len(),
        forall|i: int|
            0 <= i < old(atoms)@.len() ==> if targets@.contains(i as usize) {
                animated(
                    #[trigger] final(atoms)@[i],
                    old(atoms)@[i],
                    *instruction,
                    start_time as int,
                    duration as int,
                    *visual,
                )
            } else {
                final(atoms)@[i] == old(atoms)@[i]
            },
{
    let ghost initial = atoms@;
    let n = atoms.len();
    let mut k: usize = 0;
    while k < targets.len()
        invariant
            0 <= k <= targets@.len(),
            initial.len() == n,
            atoms_wf(atoms@),
            same_atoms(atoms@, initial),
            initial.len() == atoms@.len(),
            forall|t: int| 0 <= t < targets@.len() ==> targets@[t] < atoms@.len(),
            forall|a: int, b: int| 0 <= a < b < targets@.len() ==> targets@[a] < targets@[b],
            forall|i: int|
                0 <= i < initial.len() ==> if targets@.subrange(0, k as int).contains(i as usize) {
                    animated(
                        #[trigger] atoms@[i],
                        initial[i],
                        *instruction,
                        start_time as int,
                        duration as int,
                        *visual,
                    )
                } else {
                    atoms@[i] == initial[i]
                },
        decreases targets.len() - k,
    {
        let a = targets[k];
        assert(atoms@[a as int].timelines.wf());
        assert(!targets@.subrange(0, k as int).contains(a)) by {
            if targets@.subrange(0, k as int).contains(a) {
                let t = choose|t: int| 0 <= t < k && targets@.subrange(0, k as int)[t] == a;
                assert(targets@[t] < targets@[k as int]);
            }
        }
        let ghost before = atoms@;
        insert_animation(&mut atoms[a].timelines, instruction, start_time, duration, visual);
        proof {
            assert forall|i: int| 0 <= i < initial.len() implies if targets@.subrange(
                0,
                k + 1,
            ).contains(i as usize) {
                animated(
                    #[trigger] atoms@[i],
                    initial[i],
                    *instruction,
                    start_time as int,
                    duration as int,
                    *visual,
                )
            } else {
                atoms@[i] == initial[i]
            } by {
                let now = targets@.subrange(0, k + 1);
                let prev = targets@.subrange(0, k as int);
                if i == a {
                    assert(now[k as int] == a);
                } else {
                    assert(atoms@[i] == before[i]);
                    assert(now[k as int] == a);
                    if now.contains(i as usize) {
                        let t = choose|t: int| 0 <= t < k + 1 && now[t] == i as usize;
                        assert(t < k);
                        assert(prev[t] == i as usize);
                    }
                    if prev.contains(i as usize) {
                        let t = choose|t: int| 0 <= t < k && prev[t] == i as usize;
                        assert(now[t] == i as usize);
                    }
                }
            }
        }
        k = k + 1;
    }
    assert(targets@.subrange(0, targets@.len() as int) =~= targets@);
}

/// `pending` is never negative while no cursor is past its group's end.
proof fn lemma_pending_nonnegative(
    groups: Seq<(i64, Vec<RelativeEntry>)>,
    cursors: Seq<usize>,
    n: int,
)
    requires
        0 <= n <= cursors.len(),
        forall|i: int| 0 <= i < n ==> cursors[i] <= groups[i].1@.len(),
    ensures
        pending(groups, cursors, n) >= 0,
    decreases n,
{
    if n > 0 {
        lemma_pending_nonnegative(groups, cursors, n - 1);
    }
}

/// The state of a scheduler run: the atoms, the queue of pending groups, the
/// index of each group's next entry, the latest completion time and the
/// largest coordinates of the destinations so far.
pub type ScheduleModel = (Seq<AtomModel>, Seq<Keyframe<usize>>, Seq<usize>, int, (i32, i32));

/// Atom `a` with the keyframes of `instruction`, running from `start` for
/// `duration`, inserted.
pub open spec fn animate_model(
    a: AtomModel,
    instruction: TimedInstruction,
    start: int,
    duration: int,
    visual: VisualConfig,
) -> AtomModel {
    (
        a.0,
        a.1,
        (next_positions(a.2.0, instruction, start, duration), a.2.1),
        (next_colors(a.3.0, instruction, start, duration, visual), a.3.1),
        (next_sizes(a.4.0, instruction, start, duration, visual), a.4.1),
        (next_shuttling(a.5.0, instruction, start, duration), a.5.1),
    )
}

/// The largest coordinates after the destination of `instruction`, if it has one.
pub open spec fn grown_content(content: (i32, i32), instruction: TimedInstruction) -> (i32, i32) {
    match instruction.spec_position() {
        Some(p) => (
            if p.x > content.0 {
                p.x
            } else {
                content.0
            },
            if p.y > content.1 {
                p.y
            } else {
                content.1
            },
        ),
        None => content,
    }
}

/// One transition of the scheduler: the first queued group runs its next
/// entry at its eligibility time plus the entry's offset; the entry's
/// keyframes go into every atom it targets; the latest completion and the
/// content size grow; the group is queued again, keyed by the entry's start
/// (next entry anchored at the group's start) or completion, if it has
/// entries left.
pub open spec fn schedule_step(
    m: ScheduleModel,
    groups: Seq<(i64, Vec<RelativeEntry>)>,
    machine: MachineConfig,
    visual: VisualConfig,
) -> ScheduleModel {
    let g = m.1[0].value as int;
    let c = m.2[g] as int;
    let entry = groups[g].1@[c];
    let start = sat_add(m.1[0].time as int, entry.1 as int);
    let duration = spec_duration(entry.2, m.0, machine, start);
    let atoms = Seq::new(
        m.0.len(),
        |i: int|
            if is_targeted(m.0, entry.2, start, machine, i) {
                animate_model(m.0[i], entry.2, start, duration, visual)
            } else {
                m.0[i]
            },
    );
    let rest = m.1.drop_first();
    let queue = if c + 1 < groups[g].1@.len() {
        inserted(
            rest,
            Keyframe {
                time: spec_next_eligibility(start, duration, groups[g].1@[c + 1].0) as i64,
                duration: 0,
                value: g as usize,
            },
        )
    } else {
        rest
    };
    let end = sat_add(start, duration);
    (
        atoms,
        queue,
        m.2.update(g, (c + 1) as usize),
        if end > m.3 {
            end
        } else {
            m.3
        },
        grown_content(m.4, entry.2),
    )
}

/// Repeats `schedule_step` until the queue is empty (or `fuel` steps are done).
pub open spec fn schedule_run(
    m: ScheduleModel,
    groups: Seq<(i64, Vec<RelativeEntry>)>,
    machine: MachineConfig,
    visual: VisualConfig,
    fuel: nat,
) -> ScheduleModel
    decreases fuel,
{
    if fuel == 0 || m.1.len() == 0 {
        m
    } else {
        schedule_run(schedule_step(m, groups, machine, visual), groups, machine, visual, (fuel - 1) as nat)
    }
}

/// The atom created for a setup entry: its id and label, the placement as
/// default position, a transparent overlay, the atom radius, not shuttling,
/// and no keyframes.
pub open spec fn initial_atom(setup: SetupInstruction, visual: VisualConfig) -> AtomModel {
    match setup {
        SetupInstruction::Atom { position, id } => (
            id@,
            label_of(visual.atom_labels@, id@),
            (Seq::empty(), position),
            (Seq::empty(), Color([0u8, 0u8, 0u8, 0u8])),
            (Seq::empty(), visual.atom_radius),
            (Seq::empty(), false),
        ),
    }
}

/// The first `n` groups that have entries, queued in turn at their anchor times.
pub open spec fn initial_queue(groups: Seq<(i64, Vec<RelativeEntry>)>, n: int) -> Seq<
    Keyframe<usize>,
>
    decreases n,
{
    if n <= 0 {
        Seq::empty()
    } else {
        let q = initial_queue(groups, n - 1);
        if groups[n - 1].1@.len() > 0 {
            inserted(q, Keyframe { time: groups[n - 1].0, duration: 0, value: (n - 1) as usize })
        } else {
            q
        }
    }
}

/// The state before the first step.
pub open spec fn initial_schedule(visual: VisualConfig, input: Instructions) -> ScheduleModel {
    let groups = input.instructions@;
    (
        input.setup@.map_values(|s: SetupInstruction| initial_atom(s, visual)),
        initial_queue(groups, groups.len() as int),
        Seq::new(groups.len(), |g: int| 0usize),
        0,
        (0i32, 0i32),
    )
}

/// The number of entries over all groups.
pub open spec fn entry_count(groups: Seq<(i64, Vec<RelativeEntry>)>) -> int {
    pending(groups, Seq::new(groups.len(), |g: int| 0usize), groups.len() as int)
}

/// The complete scheduler run on `input`.
pub open spec fn scheduled(machine: MachineConfig, visual: VisualConfig, input: Instructions) -> ScheduleModel {
    schedule_run(
        initial_schedule(visual, input),
        input.instructions@,
        machine,
        visual,
        entry_count(input.instructions@) as nat,
    )
}

/// When each targeted atom was animated and the others kept, the models of
/// the atoms are those of the scheduler's transition.
proof fn lemma_animated_models(
    before: Seq<Atom>,
    after: Seq<Atom>,
    instruction: TimedInstruction,
    start: int,
    duration: int,
    machine: MachineConfig,
    visual: VisualConfig,
)
    requires
        after.len() == before.len(),
        forall|i: int|
            0 <= i < before.len() ==> if is_targeted(models(before), instruction, start, machine, i) {
                animated(#[trigger] after[i], before[i], instruction, start, duration, visual)
            } else {
                after[i] == before[i]
            },
    ensures
        models(after) == Seq::new(
            models(before).len(),
            |i: int|
                if is_targeted(models(before), instruction, start, machine, i) {
                    animate_model(models(before)[i], instruction, start, duration, visual)
                } else {
                    models(before)[i]
                },
        ),
{
    let target = Seq::new(
        models(before).len(),
        |i: int|
            if is_targeted(models(before), instruction, start, machine, i) {
                animate_model(models(before)[i], instruction, start, duration, visual)
            } else {
                models(before)[i]
            },
    );
    assert forall|i: int| 0 <= i < before.len() implies models(after)[i] == target[i] by {
        assert(models(after)[i] == model_of(after[i]));
        assert(models(before)[i] == model_of(before[i]));
        if is_targeted(models(before), instruction, start, machine, i) {
            assert(animated(after[i], before[i], instruction, start, duration, visual));
        }
    }
    assert(models(after) =~= target);
}

/// Chaining: after a step runs entry `c` of group `g` from `start` for
/// `duration`, the group is queued again at `start` when its next entry is
/// anchored at the group's start, and at the completion `start + duration`
/// otherwise; that entry then starts there plus its offset.
pub proof fn lemma_chaining(
    m: ScheduleModel,
    groups: Seq<(i64, Vec<RelativeEntry>)>,
    machine: MachineConfig,
    visual: VisualConfig,
)
    requires
        m.1.len() > 0,
        0 <= m.1[0].value < groups.len(),
        m.2.len() == groups.len(),
        m.2[m.1[0].value as int] + 1 < groups[m.1[0].value as int].1@.len(),
    ensures
        ({
            let g = m.1[0].value as int;
            let c = m.2[g] as int;
            let start = sat_add(m.1[0].time as int, groups[g].1@[c].1 as int);
            let duration = spec_duration(groups[g].1@[c].2, m.0, machine, start);
            let key = if groups[g].1@[c + 1].0 {
                start
            } else {
                sat_add(start, duration)
            };
            schedule_step(m, groups, machine, visual).1.contains(
                Keyframe { time: key as i64, duration: 0, value: g as usize },
            )
        }),
{
    let g = m.1[0].value as int;
    let c = m.2[g] as int;
    let start = sat_add(m.1[0].time as int, groups[g].1@[c].1 as int);
    let duration = spec_duration(groups[g].1@[c].2, m.0, machine, start);
    let k = Keyframe {
        time: spec_next_eligibility(start, duration, groups[g].1@[c + 1].0) as i64,
        duration: 0,
        value: g as usize,
    };
    lemma_queue_insert(m.1.drop_first(), k);
}

/// The scheduler: a state machine over the pending groups of instructions.
///
/// Pending groups are kept in a queue ordered by the time at which their next
/// entry becomes eligible, equal times in the order of insertion (the queue
/// holds each group's index as the value of a [Keyframe] at that time). Each
/// [step][Scheduler::step] takes the first group, runs its next entry at the
/// eligibility time plus the entry's offset, records the entry's keyframes in
/// the atoms it targets, and puts the group back (keyed by the entry's start
/// when the following entry is anchored at the group's start, else by its
/// completion) as long as it has entries left.
pub struct Scheduler {
    atoms: Vec<Atom>,
    groups: Vec<(i64, Vec<RelativeEntry>)>,
    queue: Vec<Keyframe<usize>>,
    cursors: Vec<usize>,
    duration: i64,
    content_size: (i32, i32),
    machine: MachineConfig,
    visual: VisualConfig,
}

impl Scheduler {
    /// The largest coordinates of the destinations seen so far (at least `0`).
    pub closed spec fn spec_content_size(&self) -> (i32, i32) {
        self.content_size
    }

    /// The atoms.
    pub closed spec fn spec_atoms(&self) -> Seq<Atom> {
        self.atoms@
    }

    /// The groups of entries, each with its anchor time.
    pub closed spec fn spec_groups(&self) -> Seq<(i64, Vec<RelativeEntry>)> {
        self.groups@
    }

    /// The queue of pending groups: the eligibility time, and the group's index as value.
    pub closed spec fn spec_queue(&self) -> Seq<Keyframe<usize>> {
        self.queue@
    }

    /// For each group, the index of its next entry.
    pub closed spec fn spec_cursors(&self) -> Seq<usize> {
        self.cursors@
    }

    /// The latest completion time so far (at least `0`).
    pub closed spec fn spec_total_duration(&self) -> int {
        self.duration as int
    }

    /// The machine configuration.
    pub closed spec fn spec_machine(&self) -> MachineConfig {
        self.machine
    }

    /// The style.
    pub closed spec fn spec_visual(&self) -> VisualConfig {
        self.visual
    }

    /// The internal invariant: the timelines are sorted; the queue is sorted,
    /// holds each group at most once and only groups with entries left.
    pub open spec fn wf(&self) -> bool {
        let groups = self.spec_groups();
        let queue = self.spec_queue();
        let cursors = self.spec_cursors();
        &&& atoms_wf(self.spec_atoms())
        &&& cursors.len() == groups.len()
        &&& forall|k: int| 0 <= k < cursors.len() ==> cursors[k] <= groups[k].1@.len()
        &&& sorted_by_time(queue)
        &&& forall|k: int|
            0 <= k < queue.len() ==> (#[trigger] queue[k]).value < groups.len()
                && cursors[queue[k].value as int] < groups[queue[k].value as int].1@.len()
        &&& forall|a: int, b: int| 0 <= a < b < queue.len() ==> queue[a].value != queue[b].value
        &&& forall|g: int|
            0 <= g < groups.len() && cursors[g] < groups[g].1@.len() ==> exists|k: int|
                0 <= k < queue.len() && #[trigger] queue[k].value == g
        &&& self.spec_total_duration() >= 0
    }

    /// The state as a [ScheduleModel].
    pub open spec fn model(&self) -> ScheduleModel {
        (
            models(self.spec_atoms()),
            self.spec_queue(),
            self.spec_cursors(),
            self.spec_total_duration(),
            self.spec_content_size(),
        )
    }

    /// The number of entries not yet run.
    pub open spec fn remaining(&self) -> int {
        pending(self.spec_groups(), self.spec_cursors(), self.spec_groups().len() as int)
    }

    /// No group is pending.
    pub open spec fn spec_finished(&self) -> bool {
        self.spec_queue().len() == 0
    }

    /// The index of the group whose entry runs next.
    pub open spec fn next_group(&self) -> int {
        self.spec_queue()[0].value as int
    }

    /// The entry that runs next.
    pub open spec fn next_entry(&self) -> RelativeEntry {
        self.spec_groups()[self.next_group()].1@[self.spec_cursors()[self.next_group()] as int]
    }

    /// The start time of the entry that runs next.
    pub open spec fn next_start(&self) -> int {
        sat_add(self.spec_queue()[0].time as int, self.next_entry().1 as int)
    }

    /// The duration of the entry that runs next.
    pub open spec fn next_duration(&self) -> int {
        spec_duration(self.next_entry().2, models(self.spec_atoms()), self.spec_machine(), self.next_start())
    }

    /// Sets up the atoms of `input` and queues its groups that have entries,
    /// keyed by their anchor times.
    pub fn new(machine: MachineConfig, visual: VisualConfig, input: Instructions) -> (r: Self)
        ensures
            r.wf(),
            r.spec_machine() == machine,
            r.spec_visual() == visual,
            r.spec_groups() == input.instructions@,
            r.spec_total_duration() == 0,
            r.spec_content_size() == (0i32, 0i32),
            r.model() == initial_schedule(visual, input),
            forall|k: int| 0 <= k < r.spec_cursors().len() ==> r.spec_cursors()[k] == 0,
            r.spec_atoms().len() == input.setup@.len(),
            forall|i: int|
                0 <= i < input.setup@.len() ==> created_from(
                    #[trigger] r.spec_atoms()[i],
                    input.setup@[i],
                    visual,
                ),
            forall|g: int|
                0 <= g < input.instructions@.len() ==> (input.instructions@[g].1@.len() > 0
                    <==> exists|k: int|
                    0 <= k < r.spec_queue().len() && #[trigger] r.spec_queue()[k].value == g),
            forall|k: int|
                0 <= k < r.spec_queue().len() ==> (#[trigger] r.spec_queue()[k]).time
                    == input.instructions@[r.spec_queue()[k].value as int].0,
            forall|a: int, b: int|
                0 <= a < b < r.spec_queue().len() && r.spec_queue()[a].time
                    == r.spec_queue()[b].time ==> r.spec_queue()[a].value < r.spec_queue()[b].value,
    {
        let mut atoms: Vec<Atom> = Vec::new();
        let mut i: usize = 0;
        while i < input.setup.len()
            invariant
                0 <= i <= input.setup@.len(),
                atoms@.len() == i,
                atoms_wf(atoms@),
                forall|j: int|
                    0 <= j < i ==> created_from(#[trigger] atoms@[j], input.setup@[j], visual),
            decreases input.setup.len() - i,
        {
            match &input.setup[i] {
                SetupInstruction::Atom { position, id } => {
                    let timelines = AtomTimelines::new(
                        *position,
                        Color([0, 0, 0, 0]),
                        visual.atom_radius,
                        false,
                    );
                    atoms.push(
                        Atom { id: id.clone(), name: get_name(&visual.atom_labels, id), timelines },
                    );
                },
            }
            i = i + 1;
        }
        let groups = input.instructions;
        let mut queue: Vec<Keyframe<usize>> = Vec::new();
        let mut cursors: Vec<usize> = Vec::new();
        let mut g: usize = 0;
        while g < groups.len()
            invariant
                0 <= g <= groups@.len(),
                cursors@.len() == g,
                forall|k: int| 0 <= k < g ==> cursors@[k] == 0,
                sorted_by_time(queue@),
                forall|k: int|
                    0 <= k < queue@.len() ==> (#[trigger] queue@[k]).value < g
                        && groups@[queue@[k].value as int].1@.len() > 0
                        && queue@[k].time == groups@[queue@[k].value as int].0,
                forall|a: int, b: int|
                    0 <= a < b < queue@.len() ==> queue@[a].value != queue@[b].value,
                forall|a: int, b: int|
                    0 <= a < b < queue@.len() && queue@[a].time == queue@[b].time
                        ==> queue@[a].value < queue@[b].value,
                forall|h: int|
                    0 <= h < g ==> (groups@[h].1@.len() > 0 <==> exists|k: int|
                        0 <= k < queue@.len() && #[trigger] queue@[k].value == h),
                queue@ == initial_queue(groups@, g as int),
            decreases groups.len() - g,
        {
            if groups[g].1.len() > 0 {
                let ghost before = queue@;
                let keyframe = Keyframe { time: groups[g].0, duration: 0, value: g };
                insert_sorted(&mut queue, keyframe);
                proof {
                    lemma_queue_insert(before, keyframe);
                    let idx = last_at_or_before(before, keyframe.time as int) + 1;
                    crate::timeline::lemma_last_at_or_before_range(before, keyframe.time as int);
                    crate::timeline::lemma_insert_position(before, keyframe.time as int, idx);
                    assert forall|k: int| 0 <= k < queue@.len() implies (#[trigger] queue@[k]).value
                        < g + 1 && groups@[queue@[k].value as int].1@.len() > 0
                        && queue@[k].time == groups@[queue@[k].value as int].0 by {
                        assert(queue@.contains(queue@[k]));
                    }
                    assert forall|a: int, b: int|
                        0 <= a < b < queue@.len() && queue@[a].time == queue@[b].time implies queue@[a].value
                        < queue@[b].value by {
                        if b < idx {
                            assert(queue@[a] == before[a] && queue@[b] == before[b]);
                        } else if b == idx {
                            assert(queue@[a] == before[a]);
                        } else if a < idx {
                            assert(queue@[a] == before[a] && queue@[b] == before[b - 1]);
                        } else if a == idx {
                            assert(queue@[b] == before[b - 1]);
                        } else {
                            assert(queue@[a] == before[a - 1] && queue@[b] == before[b - 1]);
                        }
                    }
                    assert forall|h: int| 0 <= h < g + 1 implies (groups@[h].1@.len() > 0
                        <==> exists|k: int|
                        0 <= k < queue@.len() && #[trigger] queue@[k].value == h) by {
                        if h < g {
                            if exists|k: int| 0 <= k < before.len() && before[k].value == h {
                                let k = choose|k: int| 0 <= k < before.len() && before[k].value == h;
                                assert(before.contains(before[k]));
                                assert(queue@.contains(before[k]));
                            }
                            if exists|k: int| 0 <= k < queue@.len() && queue@[k].value == h {
                                let k = choose|k: int| 0 <= k < queue@.len() && queue@[k].value == h;
                                assert(queue@.contains(queue@[k]));
                                let j = choose|j: int| 0 <= j < before.len() && before[j] == queue@[k];
                            }
                        } else {
                            assert(queue@[idx] == keyframe);
                        }
                    }
                }
            } else {
                proof {
                    assert forall|h: int| 0 <= h < g + 1 implies (groups@[h].1@.len() > 0
                        <==> exists|k: int|
                        0 <= k < queue@.len() && #[trigger] queue@[k].value == h) by {
                        if h == g {
                            if exists|k: int| 0 <= k < queue@.len() && queue@[k].value == h {
                                let k = choose|k: int| 0 <= k < queue@.len() && queue@[k].value == h;
                            }
                        }
                    }
                }
            }
            cursors.push(0);
            g = g + 1;
        }
        let r = Scheduler { atoms, groups, queue, cursors, duration: 0, content_size: (0, 0), machine, visual };
        proof {
            let setup = input.setup@;
            assert forall|i: int| 0 <= i < setup.len() implies #[trigger] models(r.atoms@)[i]
                == initial_atom(setup[i], visual) by {
                assert(created_from(r.atoms@[i], setup[i], visual));
                assert(r.atoms@[i].timelines.position@ =~= Seq::<Keyframe<Position>>::empty());
                assert(r.atoms@[i].timelines.overlay_color@ =~= Seq::<Keyframe<Color>>::empty());
                assert(r.atoms@[i].timelines.size@ =~= Seq::<Keyframe<i64>>::empty());
                assert(r.atoms@[i].timelines.shuttling@ =~= Seq::<Keyframe<bool>>::empty());
            }
            assert(models(r.atoms@) =~= setup.map_values(
                |s: SetupInstruction| initial_atom(s, visual),
            ));
            assert(r.cursors@ =~= Seq::new(r.groups@.len(), |g: int| 0usize));
        }
        r
    }

    /// Whether no group is pending.
    pub fn is_finished(&self) -> (r: bool)
        ensures
            r == self.spec_finished(),
    {
        self.queue.len() == 0
    }

    /// Runs the next entry: pops the first pending group, runs its next entry
    /// at the group's eligibility time plus the entry's offset, inserts the
    /// entry's keyframes into the atoms it targets, records its completion,
    /// and queues the group again if it has entries left.
    #[verifier::rlimit(100)]
    pub fn step(&mut self)
        requires
            old(self).wf(),
            !old(self).spec_finished(),
        ensures
            final(self).wf(),
            final(self).spec_machine() == old(self).spec_machine(),
            final(self).spec_visual() == old(self).spec_visual(),
            final(self).spec_groups() == old(self).spec_groups(),
            final(self).spec_cursors() == old(self).spec_cursors().update(
                old(self).next_group(),
                (old(self).spec_cursors()[old(self).next_group()] + 1) as usize,
            ),
            final(self).spec_total_duration() == if sat_add(
                old(self).next_start(),
                old(self).next_duration(),
            ) > old(self).spec_total_duration() {
                sat_add(old(self).next_start(), old(self).next_duration())
            } else {
                old(self).spec_total_duration()
            },
            final(self).spec_queue() == if old(self).spec_cursors()[old(self).next_group()] + 1
                < old(self).spec_groups()[old(self).next_group()].1@.len() {
                inserted(
                    old(self).spec_queue().drop_first(),
                    Keyframe {
                        time: spec_next_eligibility(
                            old(self).next_start(),
                            old(self).next_duration(),
                            old(self).spec_groups()[old(self).next_group()].1@[old(
                                self,
                            ).spec_cursors()[old(self).next_group()] + 1].0,
                        ) as i64,
                        duration: 0,
                        value: old(self).next_group() as usize,
                    },
                )
            } else {
                old(self).spec_queue().drop_first()
            },
            final(self).spec_content_size() == match old(self).next_entry().2.spec_position() {
                Some(p) => (
                    if p.x > old(self).spec_content_size().0 {
                        p.x
                    } else {
                        old(self).spec_content_size().0
                    },
                    if p.y > old(self).spec_content_size().1 {
                        p.y
                    } else {
                        old(self).spec_content_size().1
                    },
                ),
                None => old(self).spec_content_size(),
            },
            final(self).spec_atoms().len() == old(self).spec_atoms().len(),
            same_atoms(final(self).spec_atoms(), old(self).spec_atoms()),
            forall|i: int|
                0 <= i < old(self).spec_atoms().len() ==> if is_targeted(
                    models(old(self).spec_atoms()),
                    old(self).next_entry().2,
                    old(self).next_start(),
                    old(self).spec_machine(),
                    i,
                ) {
                    animated(
                        #[trigger] final(self).spec_atoms()[i],
                        old(self).spec_atoms()[i],
                        old(self).next_entry().2,
                        old(self).next_start(),
                        old(self).next_duration(),
                        old(self).spec_visual(),
                    )
                } else {
                    final(self).spec_atoms()[i] == old(self).spec_atoms()[i]
                },
            final(self).model() == schedule_step(
                old(self).model(),
                old(self).spec_groups(),
                old(self).spec_machine(),
                old(self).spec_visual(),
            ),
            0 <= final(self).remaining() == old(self).remaining() - 1,
    {
        let ghost before_queue = self.queue@;
        let ghost before_atoms = self.atoms@;
        let item = self.queue.remove(0);
        assert(before_queue[0] == item);
        let g = item.value;
        let c = self.cursors[g];
        let group_len = self.groups[g].1.len();
        assert(c < group_len);
        proof {
            assert(self.queue@ == before_queue.drop_first());
            assert forall|j: int| 0 <= j < self.queue@.len() implies self.queue@[j].value != g by {
                assert(self.queue@[j] == before_queue[j + 1]);
            }
        }
        let entry = &self.groups[g].1[c];
        let start_time = add_time(item.time, entry.1);
        let duration = get_duration(&entry.2, &self.atoms, &self.machine, start_time);
        let targets = targeted(&self.atoms, &entry.2, start_time, &self.machine);
        animate_targets(&mut self.atoms, &targets, &entry.2, start_time, duration, &self.visual);
        proof {
            lemma_animated_models(
                before_atoms,
                self.atoms@,
                entry.2,
                start_time as int,
                duration as int,
                self.machine,
                self.visual,
            );
        }
        if let Some(p) = entry.2.position() {
            if p.x > self.content_size.0 {
                self.content_size.0 = p.x;
            }
            if p.y > self.content_size.1 {
                self.content_size.1 = p.y;
            }
        }
        let end_time = add_time(start_time, duration);
        if end_time > self.duration {
            self.duration = end_time;
        }
        proof {
            lemma_pending_step(self.groups@, self.cursors@, g as int, self.groups@.len() as int);
        }
        let ghost old_cursors = self.cursors@;
        self.cursors.set(g, c + 1);
        proof {
            lemma_pending_nonnegative(self.groups@, self.cursors@, self.groups@.len() as int);
            assert forall|k: int| 0 <= k < self.queue@.len() implies (#[trigger] self.queue@[k]).value
                < self.groups@.len() && self.cursors@[self.queue@[k].value as int]
                < self.groups@[self.queue@[k].value as int].1@.len() by {
                assert(self.queue@[k] == before_queue[k + 1]);
            }
            assert forall|a: int, b: int| 0 <= a < b < self.queue@.len() implies self.queue@[a].value
                != self.queue@[b].value by {
                assert(self.queue@[a] == before_queue[a + 1] && self.queue@[b] == before_queue[b + 1]);
            }
        }
        proof {
            assert forall|h: int|
                0 <= h < self.groups@.len() && h != g && self.cursors@[h]
                    < self.groups@[h].1@.len() implies exists|k: int|
                0 <= k < self.queue@.len() && #[trigger] self.queue@[k].value == h by {
                assert(old_cursors[h] == self.cursors@[h]);
                let k = choose|k: int|
                    0 <= k < before_queue.len() && #[trigger] before_queue[k].value == h;
                assert(k != 0);
                assert(self.queue@[k - 1] == before_queue[k]);
            }
        }
        if c + 1 < group_len {
            let next_from_start = self.groups[g].1[c + 1].0;
            let next_time = next_eligibility(start_time, duration, next_from_start);
            let ghost rest = self.queue@;
            let keyframe = Keyframe { time: next_time, duration: 0, value: g };
            insert_sorted(&mut self.queue, keyframe);
            proof {
                lemma_queue_insert(rest, keyframe);
                assert forall|h: int|
                    0 <= h < self.groups@.len() && self.cursors@[h]
                        < self.groups@[h].1@.len() implies exists|k: int|
                    0 <= k < self.queue@.len() && #[trigger] self.queue@[k].value == h by {
                    if h == g as int {
                        assert(self.queue@.contains(keyframe));
                        let i = choose|i: int| 0 <= i < self.queue@.len() && self.queue@[i] == keyframe;
                        assert(self.queue@[i].value == h);
                    } else {
                        let k = choose|k: int| 0 <= k < rest.len() && #[trigger] rest[k].value == h;
                        assert(rest.contains(rest[k]));
                        assert(self.queue@.contains(rest[k]));
                        let i = choose|i: int| 0 <= i < self.queue@.len() && self.queue@[i] == rest[k];
                        assert(self.queue@[i].value == h);
                    }
                }
                assert forall|k: int| 0 <= k < self.queue@.len() implies (#[trigger] self.queue@[k]).value
                    < self.groups@.len() && self.cursors@[self.queue@[k].value as int]
                    < self.groups@[self.queue@[k].value as int].1@.len() by {
                    assert(self.queue@.contains(self.queue@[k]));
                    if self.queue@[k] != keyframe {
                        let j = choose|j: int| 0 <= j < rest.len() && rest[j] == self.queue@[k];
                    }
                }
                assert(forall|j: int| 0 <= j < rest.len() ==> rest[j].value != keyframe.value);
                assert(forall|a: int, b: int|
                    0 <= a < b < rest.len() ==> rest[a].value != rest[b].value);
                assert(forall|a: int, b: int|
                    0 <= a < b < self.queue@.len() ==> self.queue@[a].value != self.queue@[b].value);
                assert(sorted_by_time(self.queue@));
                assert(self.wf());
            }
        } else {
            proof {
                assert forall|h: int|
                    0 <= h < self.groups@.len() && self.cursors@[h]
                        < self.groups@[h].1@.len() implies exists|k: int|
                    0 <= k < self.queue@.len() && #[trigger] self.queue@[k].value == h by {
                    assert(h != g as int);
                }
                assert(self.wf());
            }
        }
    }

    /// The animator with the atoms and total duration scheduled so far.
    pub fn into_animator(self) -> (r: Animator)
        ensures
            r.spec_atoms() == self.spec_atoms(),
            r.spec_total_duration() == self.spec_total_duration(),
            r.spec_content_size() == self.spec_content_size(),
            r.spec_machine() == self.spec_machine(),
            r.spec_visual() == self.spec_visual(),
    {
        Animator {
            atoms: self.atoms,
            duration: self.duration,
            content_size: self.content_size,
            machine: self.machine,
            visual: self.visual,
        }
    }
}

/// The animator: the atoms with their keyframes, and the styles to sample them.
pub struct Animator {
    atoms: Vec<Atom>,
    /// The total duration of the animation
    duration: i64,
    /// The largest coordinates of all destinations of loads, stores and moves
    content_size: (i32, i32),
    machine: MachineConfig,
    visual: VisualConfig,
}

impl Animator {
    /// The atoms.
    pub closed spec fn spec_atoms(&self) -> Seq<Atom> {
        self.atoms@
    }

    /// The total duration.
    pub closed spec fn spec_total_duration(&self) -> int {
        self.duration as int
    }

    /// The machine configuration.
    pub closed spec fn spec_machine(&self) -> MachineConfig {
        self.machine
    }

    /// The style.
    pub closed spec fn spec_visual(&self) -> VisualConfig {
        self.visual
    }

    /// The largest coordinates of all destinations (at least `0`).
    pub closed spec fn spec_content_size(&self) -> (i32, i32) {
        self.content_size
    }

    /// The static description of the scene: traps, zone outlines, legend
    /// and the extent of the animated content.
    pub fn config(&self) -> (r: Config)
        ensures
            grid_of(r.grid, self.spec_visual().grid),
            font_of(r.atom_label_font, self.spec_visual().atom_label_font),
            r.shuttle_line == line_of(self.spec_visual().shuttle_line),
            legend_layout_of(r.legend_layout, self.spec_visual().legend_font),
            font_of(r.time_font, self.spec_visual().time_font),
            r.traps@ == self.spec_machine().traps@,
            r.trap_radius == self.spec_visual().trap.radius,
            r.trap_color == self.spec_visual().trap.color,
            r.zones@.len() == self.spec_machine().zone@.len(),
            forall|i: int|
                0 <= i < self.spec_machine().zone@.len() ==> #[trigger] r.zones@[i] == zone_shape(
                    self.spec_machine().zone@[i].1,
                    style_for(self.spec_visual().zone_styles@, self.spec_machine().zone@[i].0@),
                ),
            section_views(r.legend@) == legend_sections(self.spec_machine(), self.spec_visual()),
            r.content_size == self.spec_content_size(),
    {
        build_config(&self.machine, &self.visual, self.content_size)
    }

    /// The background color
    pub fn background(&self) -> (r: Color)
        ensures
            r == self.spec_visual().background,
    {
        self.visual.background
    }

    /// The largest coordinates of all destinations of loads, stores and moves
    /// (at least `0`): the extent of the animated content.
    pub fn content_size(&self) -> (r: (i32, i32))
        ensures
            r == self.spec_content_size(),
    {
        self.content_size
    }

    /// Every atom's timelines are in ascending order of time.
    pub open spec fn wf(&self) -> bool {
        atoms_wf(self.spec_atoms())
    }

    /// The state at time `t`.
    pub open spec fn spec_state(&self, t: int) -> (
        Seq<(Position, i64, Color, bool, Seq<char>)>,
        Seq<char>,
    ) {
        (
            self.spec_atoms().map_values(|a: Atom| atom_state_at(a, self.spec_visual(), t)),
            time_text(self.spec_visual().time_prefix@, t, self.spec_machine().time.unit@),
        )
    }

    /// Creates the animator: runs the [Scheduler] on the instructions until no
    /// entries remain. The atoms, the total duration and the content size are
    /// those of the complete run ([scheduled]), in which every entry of every
    /// group ran exactly once.
    pub fn new(machine: MachineConfig, visual: VisualConfig, input: Instructions) -> (r: Self)
        ensures
            r.wf(),
            r.spec_machine() == machine,
            r.spec_visual() == visual,
            models(r.spec_atoms()) == scheduled(machine, visual, input).0,
            r.spec_total_duration() == scheduled(machine, visual, input).3,
            r.spec_content_size() == scheduled(machine, visual, input).4,
            scheduled(machine, visual, input).1.len() == 0,
            forall|g: int|
                0 <= g < input.instructions@.len() ==> #[trigger] scheduled(
                    machine,
                    visual,
                    input,
                ).2[g] == input.instructions@[g].1@.len(),
    {
        let ghost groups = input.instructions@;
        let ghost target = scheduled(machine, visual, input);
        let mut scheduler = Scheduler::new(machine, visual, input);
        proof {
            assert(scheduler.spec_cursors() =~= Seq::new(groups.len(), |g: int| 0usize));
        }
        while !scheduler.is_finished()
            invariant
                scheduler.wf(),
                scheduler.spec_machine() == machine,
                scheduler.spec_visual() == visual,
                scheduler.spec_groups() == groups,
                schedule_run(
                    scheduler.model(),
                    groups,
                    machine,
                    visual,
                    scheduler.remaining() as nat,
                ) == target,
            decreases scheduler.remaining(),
        {
            let ghost before = scheduler.model();
            let ghost fuel = scheduler.remaining();
            scheduler.step();
            proof {
                assert(fuel >= 1);
                assert(schedule_run(before, groups, machine, visual, fuel as nat) == schedule_run(
                    schedule_step(before, groups, machine, visual),
                    groups,
                    machine,
                    visual,
                    (fuel - 1) as nat,
                ));
            }
        }
        proof {
            assert(schedule_run(
                scheduler.model(),
                groups,
                machine,
                visual,
                scheduler.remaining() as nat,
            ) == scheduler.model());
            let cursors = scheduler.spec_cursors();
            assert forall|g: int| 0 <= g < groups.len() implies #[trigger] cursors[g]
                == groups[g].1@.len() by {
                if cursors[g] < groups[g].1@.len() {
                    let k = choose|k: int|
                        0 <= k < scheduler.spec_queue().len()
                            && #[trigger] scheduler.spec_queue()[k].value == g;
                }
            }
        }
        scheduler.into_animator()
    }

    /// The total duration of the animation
    pub fn duration(&self) -> (r: i64)
        ensures
            r == self.spec_total_duration(),
    {
        self.duration
    }

    /// Gets the [State] at the passed time
    pub fn state(&self, time: i64) -> (r: State)
        requires
            self.wf(),
        ensures
            r@ == self.spec_state(time as int),
    {
        let mut atoms: Vec<AtomState> = Vec::new();
        let mut i: usize = 0;
        while i < self.atoms.len()
            invariant
                0 <= i <= self.atoms@.len(),
                atoms_wf(self.atoms@),
                atoms@.len() == i,
                forall|j: int|
                    0 <= j < i ==> (#[trigger] atoms@[j])@ == atom_state_at(
                        self.atoms@[j],
                        self.visual,
                        time as int,
                    ),
            decreases self.atoms.len() - i,
        {
            assert(self.atoms@[i as int].timelines.wf());
            let (position, overlay_color, size, shuttling) = self.atoms[i].timelines.get(time);
            let base = if shuttling {
                self.visual.shuttling_color
            } else {
                self.visual.trapped_color
            };
            let color = overlay_color.over(&base);
            atoms.push(
                AtomState {
                    position,
                    size,
                    color,
                    shuttle: shuttling,
                    label: self.atoms[i].name.clone(),
                },
            );
            i = i + 1;
        }
        let r = State {
            atoms,
            time: time_label(&self.visual.time_prefix, time, &self.machine.time.unit),
        };
        assert(r@.0 =~= self.spec_state(time as int).0);
        r
    }
}

/// After inserting `k` into `s`, every old entry and `k` are in the queue, and nothing else.
proof fn lemma_queue_insert(s: Seq<Keyframe<usize>>, k: Keyframe<usize>)
    ensures
        inserted(s, k).len() == s.len() + 1,
        forall|x: Keyframe<usize>| #[trigger] inserted(s, k).contains(x) <==> (s.contains(x) || x == k),
        (forall|a: int, b: int| 0 <= a < b < s.len() ==> s[a].value != s[b].value) && (forall|
            j: int,
        | 0 <= j < s.len() ==> s[j].value != k.value) ==> (forall|a: int, b: int|
            0 <= a < b < inserted(s, k).len() ==> inserted(s, k)[a].value != inserted(
                s,
                k,
            )[b].value),
{
    crate::timeline::lemma_last_at_or_before_range(s, k.time as int);
    let r = inserted(s, k);
    let idx = last_at_or_before(s, k.time as int) + 1;
    assert forall|x: Keyframe<usize>| r.contains(x) <==> (s.contains(x) || x == k) by {
        if r.contains(x) {
            let j = choose|j: int| 0 <= j < r.len() && r[j] == x;
            if j < idx {
                assert(s[j] == x);
            } else if j > idx {
                assert(s[j - 1] == x);
            }
        }
        if s.contains(x) {
            let j = choose|j: int| 0 <= j < s.len() && s[j] == x;
            if j < idx {
                assert(r[j] == x);
            } else {
                assert(r[j + 1] == x);
            }
        }
        if x == k {
            assert(r[idx] == x);
        }
    }
    if (forall|a: int, b: int| 0 <= a < b < s.len() ==> s[a].value != s[b].value) && (forall|
        j: int,
    | 0 <= j < s.len() ==> s[j].value != k.value) {
        assert forall|a: int, b: int| 0 <= a < b < r.len() implies r[a].value != r[b].value by {
            if b < idx {
                assert(r[a] == s[a] && r[b] == s[b]);
            } else if b == idx {
                assert(r[a] == s[a]);
            } else if a < idx {
                assert(r[a] == s[a] && r[b] == s[b - 1]);
            } else if a == idx {
                assert(r[b] == s[b - 1]);
            } else {
                assert(r[a] == s[a - 1] && r[b] == s[b - 1]);
            }
        }
    }
}

/// Two states sampled at the same time from the same animator are equal.
pub proof fn lemma_state_deterministic(animator: Animator, t: int, s1: State, s2: State)
    requires
        s1@ == animator.spec_state(t),
        s2@ == animator.spec_state(t),
    ensures
        s1@ == s2@,
{
}

} // verus!
