use naviz::animator::{get_duration, targeted, Animator, Atom, AtomTimelines};
use naviz::color::Color;
use naviz::config::{
    DashStyle, FontStyle, GridStyle, HorizontalSide, VerticalSide, LegendStyle, MachineConfig, OperationConfig, TimeConfig, TrapStyle, VisualConfig, ZoneConfig,
    ZoneStyle,
};
use naviz::render::{FontConfig, LegendEntry, LineStyle};
use naviz::input::{Directives, Instructions, SetupInstruction, TimedInstruction};
use naviz::movement::{duration_for_distance, MovementConfig};
use naviz::position::{distance, isqrt, Position};

fn pos(x: i32, y: i32) -> Position {
    Position { x, y }
}

fn atom(id: &str, p: Position) -> Atom {
    Atom {
        id: id.to_string(),
        name: id.to_string(),
        timelines: AtomTimelines::new(p, Color([0, 0, 0, 0]), 10, false),
    }
}

fn machine(interaction_distance: u32) -> MachineConfig {
    MachineConfig {
        zone: vec![(
            "Z".to_string(),
            ZoneConfig { from: pos(0, 0), to: pos(10, 10) },
        )],
        traps: vec![pos(0, 0), pos(5, 5)],
        time: TimeConfig { load: 5, store: 5, rz: 2, ry: 3, cz: 4, unit: "us".to_string() },
        movement: MovementConfig { acceleration_up: 2, acceleration_down: 2, speed: 4 },
        interaction_distance,
    }
}

fn font(size: u32) -> FontStyle {
    FontStyle { size, color: Color([0, 0, 0, 255]), family: "Fira Mono".to_string() }
}

fn zone_style(name: &str) -> ZoneStyle {
    ZoneStyle {
        color: Color([0, 128, 0, 255]),
        thickness: 2,
        dash_length: 7,
        dash_duty: 50,
        name: name.to_string(),
    }
}

fn visual() -> VisualConfig {
    VisualConfig {
        atom_radius: 10,
        trapped_color: Color([0, 0, 255, 255]),
        shuttling_color: Color([0, 255, 0, 255]),
        rz: OperationConfig { color: Color([255, 0, 0, 255]), radius: 100, name: "rz".to_string() },
        ry: OperationConfig { color: Color([255, 255, 0, 255]), radius: 200, name: String::new() },
        cz: OperationConfig { color: Color([255, 0, 255, 255]), radius: 300, name: "cz".to_string() },
        atom_labels: vec![
            ("^a$".to_string(), "Atom A".to_string()),
            ("^atom(\\d+)$".to_string(), "q$1".to_string()),
        ],
        time_prefix: "t=".to_string(),
        zone_styles: vec![
            ("[".to_string(), zone_style("invalid")),
            ("^Z$".to_string(), zone_style("Zone")),
        ],
        zone_legend: LegendStyle { display: true, title: "Zones".to_string() },
        operation_legend: LegendStyle { display: true, title: "Operations".to_string() },
        machine_legend: LegendStyle { display: false, title: "Machine".to_string() },
        trap: TrapStyle { radius: 3, color: Color([9, 9, 9, 255]), name: "trap".to_string() },
        shuttle_name: "shuttle".to_string(),
        background: Color([1, 2, 3, 4]),
        grid: GridStyle {
            step_x: 10,
            step_y: 20,
            line: DashStyle { thickness: 1, dash_length: 4, dash_duty: 50, color: Color([5, 5, 5, 255]) },
            number_step_x: 30,
            number_step_y: 40,
            number_font: font(12),
            axis_x: "x".to_string(),
            axis_y: "y".to_string(),
            numbers_x: VerticalSide::Bottom,
            numbers_y: HorizontalSide::Left,
        },
        atom_label_font: font(14),
        shuttle_line: DashStyle { thickness: 2, dash_length: 6, dash_duty: 25, color: Color([7, 7, 7, 255]) },
        legend_font: font(15),
        time_font: font(18),
    }
}

#[test]
fn cz_targets_close_pair_in_zone() {
    let atoms = vec![atom("a", pos(1, 1)), atom("b", pos(2, 2)), atom("c", pos(20, 20))];
    let cz = TimedInstruction::Cz { id: "Z".to_string() };
    assert_eq!(targeted(&atoms, &cz, 0, &machine(2)), vec![0, 1]);
    assert_eq!(targeted(&atoms, &cz, 0, &machine(1)), Vec::<usize>::new());
    let unknown = TimedInstruction::Cz { id: "Y".to_string() };
    assert_eq!(targeted(&atoms, &unknown, 0, &machine(2)), Vec::<usize>::new());
}

#[test]
fn rz_targets_id_or_zone() {
    let atoms = vec![atom("a", pos(1, 1)), atom("b", pos(20, 20)), atom("c", pos(10, 0))];
    let in_zone = TimedInstruction::Rz { value: 1, id: "Z".to_string() };
    assert_eq!(targeted(&atoms, &in_zone, 0, &machine(2)), vec![0, 2]);
    let single = TimedInstruction::Ry { value: 1, id: "b".to_string() };
    assert_eq!(targeted(&atoms, &single, 0, &machine(2)), vec![1]);
    let load = TimedInstruction::Load { position: None, id: "c".to_string() };
    assert_eq!(targeted(&atoms, &load, 0, &machine(2)), vec![2]);
}

#[test]
fn move_duration_profiles() {
    let m = MovementConfig { acceleration_up: 2, acceleration_down: 2, speed: 4 };
    // triangular: 2 * sqrt(2 * 2 / 4)
    assert_eq!(duration_for_distance(2, &m), 2);
    // at the threshold v^2 / a both profiles give 2 v / a
    assert_eq!(duration_for_distance(8, &m), 4);
    // trapezoidal: v / (2 a) + v / (2 a) + d / v
    assert_eq!(duration_for_distance(100, &m), 27);
    assert_eq!(duration_for_distance(0, &m), 0);
    // rounded up: 2 * sqrt(2 * 3 / 4) is about 2.45
    assert_eq!(duration_for_distance(3, &m), 3);
    let fast = MovementConfig { acceleration_up: 100, acceleration_down: 100, speed: 100 };
    assert_eq!(duration_for_distance(1, &fast), 1);
    let still = MovementConfig { acceleration_up: 0, acceleration_down: 2, speed: 4 };
    assert_eq!(duration_for_distance(10, &still), 0);
}

#[test]
fn short_move_takes_time() {
    let mut m = machine(2);
    m.movement = MovementConfig { acceleration_up: 100, acceleration_down: 100, speed: 100 };
    let atoms = vec![atom("a", pos(0, 0))];
    let step = TimedInstruction::Move { position: pos(1, 0), id: "a".to_string() };
    assert_eq!(get_duration(&step, &atoms, &m, 0), 1);
}

#[test]
fn move_duration_is_symmetric() {
    let m = machine(2);
    let there = TimedInstruction::Move { position: pos(30, 40), id: "a".to_string() };
    let back = TimedInstruction::Move { position: pos(0, 0), id: "b".to_string() };
    let atoms = vec![atom("a", pos(0, 0)), atom("b", pos(30, 40))];
    let d1 = get_duration(&there, &atoms, &m, 0);
    let d2 = get_duration(&back, &atoms, &m, 0);
    assert_eq!(d1, d2);
    assert_eq!(d1, 15);
    let missing = TimedInstruction::Move { position: pos(1, 1), id: "x".to_string() };
    assert_eq!(get_duration(&missing, &atoms, &m, 0), 0);
    assert_eq!(get_duration(&TimedInstruction::Cz { id: "Z".to_string() }, &atoms, &m, 0), 4);
}

#[test]
fn distance_rounds_down() {
    assert_eq!(distance(pos(0, 0), pos(3, 4)), 5);
    assert_eq!(distance(pos(1, 1), pos(2, 2)), 1);
    assert_eq!(isqrt(99), 9);
    assert_eq!(isqrt(100), 10);
    assert_eq!(isqrt(u128::MAX), u64::MAX);
}

fn program(second_from_start: bool) -> Instructions {
    Instructions {
        directives: Directives { targets: vec![] },
        setup: vec![SetupInstruction::Atom { position: pos(0, 0), id: "a".to_string() }],
        instructions: vec![(
            0,
            vec![
                (false, 0, TimedInstruction::Load { position: None, id: "a".to_string() }),
                (second_from_start, 0, TimedInstruction::Rz { value: 1, id: "a".to_string() }),
            ],
        )],
    }
}

#[test]
fn chained_entry_starts_after_previous() {
    let animator = Animator::new(machine(2), visual(), program(false));
    assert_eq!(animator.state(1).atoms[0].size, 10);
    assert_eq!(animator.state(6).atoms[0].size, 100);
    assert_eq!(animator.duration(), 7);
}

#[test]
fn from_start_entry_starts_with_group() {
    let animator = Animator::new(machine(2), visual(), program(true));
    assert_eq!(animator.state(1).atoms[0].size, 100);
    assert_eq!(animator.state(6).atoms[0].size, 10);
    assert_eq!(animator.duration(), 5);
}

#[test]
fn state_is_deterministic() {
    let animator = Animator::new(machine(2), visual(), program(false));
    for t in [0, 3, 6, 100] {
        assert_eq!(animator.state(t), animator.state(t));
    }
    let s = animator.state(6);
    assert_eq!(s.time, "t=6.0 us");
    assert_eq!(s.atoms[0].label, "Atom A");
    assert!(s.atoms[0].shuttle);
    assert_eq!(s.atoms[0].color, Color([255, 0, 0, 255]));
    assert_eq!(animator.state(-3).time, "t=-3.0 us");
}

#[test]
fn groups_run_in_time_order() {
    let input = Instructions {
        directives: Directives { targets: vec!["m".to_string()] },
        setup: vec![SetupInstruction::Atom { position: pos(0, 0), id: "a".to_string() }],
        instructions: vec![
            (10, vec![(false, 0, TimedInstruction::Move { position: pos(8, 0), id: "a".to_string() })]),
            (0, vec![(false, 0, TimedInstruction::Move { position: pos(2, 0), id: "a".to_string() })]),
        ],
    };
    let animator = Animator::new(machine(2), visual(), input);
    // The move at 0 covers 2 units (2 time units), the one at 10 covers 6 (4 time units, rounded up).
    assert_eq!(animator.state(5).atoms[0].position, pos(2, 0));
    assert_eq!(animator.state(14).atoms[0].position, pos(8, 0));
    assert_eq!(animator.duration(), 14);
    // An atom without a label gets an empty one; unknown ids change nothing.
    let input = Instructions {
        directives: Directives { targets: vec![] },
        setup: vec![SetupInstruction::Atom { position: pos(1, 1), id: "b".to_string() }],
        instructions: vec![(0, vec![(false, 0, TimedInstruction::Cz { id: "nowhere".to_string() })])],
    };
    let animator = Animator::new(machine(2), visual(), input);
    assert_eq!(animator.state(0).atoms[0].label, "");
    assert_eq!(animator.state(0).atoms[0].size, 10);
}

#[test]
fn color_over_base() {
    let top = Color([255, 0, 0, 128]);
    let base = Color([0, 0, 255, 255]);
    assert_eq!(top.over(&base), Color([128, 0, 127, 255]));
    assert_eq!(Color([9, 9, 9, 0]).over(&Color([9, 9, 9, 0])), Color([0, 0, 0, 0]));
    assert_eq!(Color([1, 2, 3, 255]).over(&base), Color([1, 2, 3, 255]));
    // the mix stays between the two colors
    let white = Color([255, 255, 255, 100]);
    assert_eq!(white.over(&Color([255, 255, 255, 1])), Color([255, 255, 255, 100]));
    assert_eq!(Color([200, 0, 0, 1]).over(&Color([200, 0, 0, 1])), Color([200, 0, 0, 1]));
}

#[test]
fn labels_come_from_first_matching_pattern() {
    let input = Instructions {
        directives: Directives { targets: vec![] },
        setup: vec![
            SetupInstruction::Atom { position: pos(0, 0), id: "a".to_string() },
            SetupInstruction::Atom { position: pos(1, 0), id: "atom12".to_string() },
            SetupInstruction::Atom { position: pos(2, 0), id: "other".to_string() },
        ],
        instructions: vec![],
    };
    let animator = Animator::new(machine(2), visual(), input);
    let state = animator.state(0);
    assert_eq!(state.atoms[0].label, "Atom A");
    assert_eq!(state.atoms[1].label, "q12");
    assert_eq!(state.atoms[2].label, "");
    assert_eq!(state.atoms[1].position, pos(1, 0));
    assert_eq!(state.atoms[0].color, Color([0, 0, 255, 255]));
    assert_eq!(animator.duration(), 0);
}

#[test]
fn config_lists_legend_zones_and_traps() {
    let input = Instructions {
        directives: Directives { targets: vec![] },
        setup: vec![SetupInstruction::Atom { position: pos(0, 0), id: "a".to_string() }],
        instructions: vec![(
            0,
            vec![
                (false, 0, TimedInstruction::Load { position: Some(pos(3, 9)), id: "a".to_string() }),
                (false, 0, TimedInstruction::Move { position: pos(12, 1), id: "a".to_string() }),
            ],
        )],
    };
    let animator = Animator::new(machine(2), visual(), input);
    assert_eq!(animator.content_size(), (12, 9));
    assert_eq!(animator.background(), Color([1, 2, 3, 4]));
    let config = animator.config();
    assert_eq!(config.traps, vec![pos(0, 0), pos(5, 5)]);
    assert_eq!(config.trap_radius, 3);
    assert_eq!(config.content_size, (12, 9));
    assert_eq!(config.zones.len(), 1);
    assert_eq!(config.zones[0].start, pos(0, 0));
    assert_eq!(config.zones[0].size, (10, 10));
    assert_eq!(
        config.zones[0].line,
        LineStyle { width: 2, segment_length: 7, duty: 50, color: Color([0, 128, 0, 255]) }
    );
    assert_eq!(config.grid.step, (10, 20));
    assert_eq!(config.grid.number_step, (30, 40));
    assert_eq!(config.grid.labels, ("x".to_string(), "y".to_string()));
    assert_eq!(config.grid.number_sides, (VerticalSide::Bottom, HorizontalSide::Left));
    assert_eq!(
        config.shuttle_line,
        LineStyle { width: 2, segment_length: 6, duty: 25, color: Color([7, 7, 7, 255]) }
    );
    assert_eq!(config.legend_layout.heading_skip, 24);
    assert_eq!(config.legend_layout.entry_skip, 21);
    assert_eq!(config.legend_layout.color_circle_radius, 7);
    assert_eq!(config.legend_layout.color_padding, 7);
    assert_eq!(
        config.time_font,
        FontConfig { size: 18, color: Color([0, 0, 0, 255]), family: "Fira Mono".to_string() }
    );
    assert_eq!(config.atom_label_font.size, 14);
    assert_eq!(config.legend.len(), 2);
    assert_eq!(config.legend[0].name, "Zones");
    assert_eq!(
        config.legend[0].entries,
        vec![LegendEntry { text: "Zone".to_string(), color: Some(Color([0, 128, 0, 255])) }]
    );
    assert_eq!(config.legend[1].name, "Operations");
    assert_eq!(
        config.legend[1].entries,
        vec![
            LegendEntry { text: "rz".to_string(), color: Some(Color([255, 0, 0, 255])) },
            LegendEntry { text: "cz".to_string(), color: Some(Color([255, 0, 255, 255])) },
        ]
    );
}
