use pong::bundle::{pong_dispatcher, DispatcherBuilder, Resources, SystemKind, SystemName};
use pong::components::{angular_axis_name, linear_axis_name, FrameTime, InputAxes, Side, Vector2, Velocity};
use pong::pong::{Key, Pause, Pong, Trans, WindowEvent};
use pong::schedule::{build_schedule, in_conflict, ScheduleError, SystemDecl};
use pong::systems::gravity::Gravity;
use pong::world::{initialise_paddles, World};
use pong::{CapSpeedSystem, PongBundle};

fn decl(reads: Vec<u64>, writes: Vec<u64>, after: Vec<usize>) -> SystemDecl {
    SystemDecl { reads, writes, after }
}

fn position(order: &[usize], x: usize) -> usize {
    order.iter().position(|&y| y == x).unwrap()
}

#[test]
fn cycle_is_refused() {
    let decls = vec![decl(vec![], vec![1], vec![1]), decl(vec![], vec![2], vec![0])];
    assert_eq!(build_schedule(&decls).err(), Some(ScheduleError::Cycle));
}

#[test]
fn self_dependency_is_refused() {
    let decls = vec![decl(vec![], vec![], vec![]), decl(vec![], vec![], vec![1])];
    assert_eq!(build_schedule(&decls).err(), Some(ScheduleError::Cycle));
}

#[test]
fn unknown_dependency_is_refused() {
    let decls = vec![decl(vec![], vec![], vec![]), decl(vec![], vec![], vec![5])];
    assert_eq!(build_schedule(&decls).err(), Some(ScheduleError::UnknownDependency(1)));
}

#[test]
fn order_respects_edges_and_waves_avoid_conflicts() {
    // 0: input, 1: paddle after input, 2: gravity, 3: cap after paddle and gravity
    let decls = vec![
        decl(vec![], vec![4], vec![]),
        decl(vec![1, 2, 4, 5], vec![0], vec![0]),
        decl(vec![6, 5], vec![0], vec![]),
        decl(vec![], vec![0], vec![1, 2]),
    ];
    let s = build_schedule(&decls).unwrap();
    assert_eq!(s.order.len(), 4);
    assert!(position(&s.order, 0) < position(&s.order, 1));
    assert!(position(&s.order, 1) < position(&s.order, 3));
    assert!(position(&s.order, 2) < position(&s.order, 3));
    for p in 0..4 {
        for q in (p + 1)..4 {
            assert!(s.waves[p] <= s.waves[q]);
            if s.waves[p] == s.waves[q] {
                assert!(!in_conflict(&decls[s.order[p]], &decls[s.order[q]]));
            }
        }
    }
    assert!(in_conflict(&decls[1], &decls[2]));
    assert!(!in_conflict(&decls[0], &decls[2]));
}

#[test]
fn independent_readers_share_a_wave() {
    let decls = vec![decl(vec![7], vec![], vec![]), decl(vec![7], vec![], vec![])];
    let s = build_schedule(&decls).unwrap();
    assert_eq!(s.waves, vec![0, 0]);
}

fn pong_builder() -> DispatcherBuilder {
    let mut b = DispatcherBuilder::new();
    b.add(SystemKind::Input, SystemName::Input, vec![]);
    PongBundle.build(&mut b);
    b
}

#[test]
fn pong_bundle_schedules() {
    let d = pong_builder().build().ok().unwrap();
    let o = &d.schedule.order;
    assert!(position(o, 0) < position(o, 1));
    assert!(position(o, 1) < position(o, 3));
    assert!(position(o, 2) < position(o, 3));
}

#[test]
fn pong_bundle_needs_input_stage() {
    let mut b = DispatcherBuilder::new();
    PongBundle.build(&mut b);
    assert_eq!(b.build().err(), Some(ScheduleError::UnknownDependency(0)));
}

#[test]
fn builder_reports_named_cycle() {
    let mut b = DispatcherBuilder::new();
    b.add(SystemKind::Gravity, SystemName::Gravity, vec![SystemName::Paddle]);
    b.add(SystemKind::Paddle, SystemName::Paddle, vec![SystemName::Gravity]);
    assert_eq!(b.build().err(), Some(ScheduleError::Cycle));
}

#[test]
fn ball_tick_end_to_end() {
    let mut world = World::new();
    initialise_paddles(&mut world);
    let d = pong_builder().build().ok().unwrap();
    let res = Resources {
        gravity: Gravity(-9_800_000),
        time: FrameTime { delta: 100_000 },
        input: InputAxes::neutral(),
    };
    d.dispatch(&mut world, &res);
    assert_eq!(world.staged[2], Some(Velocity { linear: Vector2 { x: -18_000_000, y: 1_020_000 }, angular: 0 }));
    // paddles have no input this tick but gravity still reaches them
    assert_eq!(world.staged[0], Some(Velocity { linear: Vector2 { x: 0, y: -980_000 }, angular: 0 }));
    assert_eq!(world.paddles[1].unwrap().side, Side::Right);
}

#[test]
fn ball_before_and_after_cap() {
    let mut world = World::new();
    initialise_paddles(&mut world);
    let mut b = DispatcherBuilder::new();
    b.add(SystemKind::Gravity, SystemName::Gravity, vec![]);
    let res = Resources {
        gravity: Gravity(-9_800_000),
        time: FrameTime { delta: 100_000 },
        input: InputAxes::neutral(),
    };
    b.build().ok().unwrap().dispatch(&mut world, &res);
    let before = world.staged[2];
    assert_eq!(before, Some(Velocity { linear: Vector2 { x: -18_000_000, y: 1_020_000 }, angular: 0 }));
    CapSpeedSystem::default().run(&mut world.staged);
    assert_eq!(world.staged[2], before);
}

#[test]
fn states_react_to_keys() {
    assert_eq!(Pong.handle_event(WindowEvent::CloseRequested), Trans::Quit);
    assert_eq!(Pong.handle_event(WindowEvent::KeyDown(Key::Escape)), Trans::Quit);
    assert_eq!(Pong.handle_event(WindowEvent::KeyDown(Key::Space)), Trans::PushPause);
    assert_eq!(Pong.handle_event(WindowEvent::Other), Trans::Stay);
    let mut p = Pause::new();
    assert_eq!(p.on_start(1_500_000), 0);
    assert_eq!(p.on_stop(), 1_500_000);
    assert_eq!(p.handle_event(WindowEvent::KeyDown(Key::Space)), Trans::Pop);
    assert_eq!(p.handle_event(WindowEvent::KeyDown(Key::Other)), Trans::Stay);
    assert_eq!(p.handle_event(WindowEvent::KeyDown(Key::Escape)), Trans::Quit);
}

#[test]
fn checked_tick_stops_before_overflow() {
    let mut world = World::new();
    initialise_paddles(&mut world);
    world.staged[2] = Some(Velocity { linear: Vector2 { x: 0, y: i64::MIN + 5 }, angular: 0 });
    let mut b = DispatcherBuilder::new();
    b.add(SystemKind::CapSpeed(CapSpeedSystem::default()), SystemName::CapSpeed, vec![]);
    b.add(SystemKind::Gravity, SystemName::Gravity, vec![SystemName::CapSpeed]);
    let d = b.build().ok().unwrap();
    let res = Resources {
        gravity: Gravity(-9_800_000),
        time: FrameTime { delta: 100_000 },
        input: InputAxes::neutral(),
    };
    // the cap runs first and brings the ball back within range
    assert_eq!(d.try_dispatch(&mut world, &res), Ok(()));
    assert_eq!(world.staged[2], Some(Velocity { linear: Vector2 { x: 0, y: -50_980_000 }, angular: 0 }));

    let mut b = DispatcherBuilder::new();
    b.add(SystemKind::Gravity, SystemName::Gravity, vec![]);
    let d = b.build().ok().unwrap();
    world.staged[2] = Some(Velocity { linear: Vector2 { x: 0, y: i64::MIN + 5 }, angular: 0 });
    let before = world.staged.clone();
    assert_eq!(d.try_dispatch(&mut world, &res), Err(0));
    assert_eq!(world.staged, before);
}

#[test]
fn axis_names_by_side() {
    assert_eq!(linear_axis_name(Side::Left), "vertical_left_paddle");
    assert_eq!(linear_axis_name(Side::Right), "vertical_right_paddle");
    assert_eq!(angular_axis_name(Side::Left), "rotation_left_paddle");
    assert_eq!(angular_axis_name(Side::Right), "rotation_right_paddle");
}

#[test]
fn long_cycle_is_refused() {
    let decls = vec![
        decl(vec![], vec![], vec![1]),
        decl(vec![], vec![], vec![2]),
        decl(vec![], vec![], vec![3]),
        decl(vec![], vec![], vec![0]),
        decl(vec![], vec![], vec![]),
    ];
    assert_eq!(build_schedule(&decls).err(), Some(ScheduleError::Cycle));
}

#[test]
fn pong_dispatcher_separates_writers() {
    let d = pong_dispatcher();
    let o = &d.schedule.order;
    assert_eq!(o.len(), 4);
    assert!(position(o, 0) < position(o, 1));
    assert!(position(o, 1) < position(o, 3));
    assert!(position(o, 2) < position(o, 3));
    let w1 = d.schedule.waves[position(o, 1)];
    let w2 = d.schedule.waves[position(o, 2)];
    let w3 = d.schedule.waves[position(o, 3)];
    assert!(w1 != w2 && w1 < w3 && w2 < w3);
}

#[test]
fn scene_places_paddles_and_ball() {
    let mut world = World::new();
    initialise_paddles(&mut world);
    assert_eq!(world.len(), 3);
    let p0 = world.poses[0].unwrap();
    let p1 = world.poses[1].unwrap();
    let p2 = world.poses[2].unwrap();
    assert_eq!((p0.position.x, p0.position.y), (6_000_000, 50_000_000));
    assert_eq!((p1.position.x, p1.position.y), (94_000_000, 50_000_000));
    assert_eq!((p2.position.x, p2.position.y), (48_000_000, 48_000_000));
    assert_eq!(world.velocities[2], Some(Velocity { linear: Vector2 { x: -18_000_000, y: 2_000_000 }, angular: 0 }));
    assert_eq!(world.staged[0], Some(Velocity { linear: Vector2 { x: 0, y: 0 }, angular: 0 }));
    assert!(world.balls[0].is_none() && world.balls[1].is_none() && world.paddles[2].is_none());
    assert_eq!(world.paddles[0].unwrap().side, Side::Left);
}
