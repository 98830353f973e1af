//! Registration of the update routines by name, and the dispatcher that
//! runs them once per tick in schedule order.
use vstd::prelude::*;
use crate::components::{FrameTime, InputAxes};
use crate::schedule::{build_schedule, depends_on, is_order, overlap, waves_ok, Schedule, ScheduleError, SystemDecl};
use crate::systems::ball::BallSystem;
use crate::systems::gravity::{gravity_entity, gravity_fits, Gravity, GravitySystem};
use crate::systems::paddle::{column_at, paddle_entity, paddle_entity_ok, PaddleSystem};
use crate::systems::speed::{cap_entity, CapSpeedSystem};
use crate::world::{World, WorldModel};

verus! {

/// Storage identifiers used in the routines' access declarations.
pub const STAGED_VELOCITY: u64 = 0;

pub const POSE: u64 = 1;

pub const PADDLE: u64 = 2;

pub const BALL: u64 = 3;

pub const INPUT_AXES: u64 = 4;

pub const FRAME_TIME: u64 = 5;

pub const GRAVITY: u64 = 6;

/// Names by which routines are registered and refer to one another.
#[derive(Clone, Copy, Debug, PartialEq, Eq, Structural)]
pub enum SystemName {
    Input,
    Paddle,
    Gravity,
    CapSpeed,
    Ball,
}

/// A routine to run each tick.
pub enum SystemKind {
    /// Input sampling, performed before the tick by the input provider.
    Input,
    Paddle,
    Gravity,
    CapSpeed(CapSpeedSystem),
    Ball,
}

/// The process-wide values the routines read.
pub struct Resources {
    pub gravity: Gravity,
    pub time: FrameTime,
    pub input: InputAxes,
}

/// The world after one routine.
pub open spec fn step(w: WorldModel, k: SystemKind, res: Resources) -> WorldModel {
    let n = w.staged.len();
    match k {
        SystemKind::Paddle => WorldModel {
            staged: Seq::new(
                n,
                |i: int|
                    paddle_entity(
                        w.staged[i],
                        column_at(w.poses, i),
                        column_at(w.paddles, i),
                        res.input,
                        res.time.delta as int,
                    ),
            ),
            ..w
        },
        SystemKind::Gravity => WorldModel {
            staged: Seq::new(
                n,
                |i: int| gravity_entity(w.staged[i], res.gravity.0 as int, res.time.delta as int),
            ),
            ..w
        },
        SystemKind::CapSpeed(c) => WorldModel {
            staged: Seq::new(n, |i: int| cap_entity(w.staged[i], c.max_speed(), c.max_angular())),
            ..w
        },
        _ => w,
    }
}

/// The routine can run on `w` without leaving the velocities' range.
pub open spec fn step_ok(w: WorldModel, k: SystemKind, res: Resources) -> bool {
    match k {
        SystemKind::Paddle => res.input.wf() && forall|i: int|
            0 <= i < w.staged.len() ==> paddle_entity_ok(
                #[trigger] w.staged[i],
                column_at(w.poses, i),
                column_at(w.paddles, i),
                res.input,
                res.time.delta as int,
            ),
        SystemKind::Gravity => forall|i: int|
            0 <= i < w.staged.len() ==> gravity_fits(
                #[trigger] w.staged[i],
                res.gravity.0 as int,
                res.time.delta as int,
            ),
        SystemKind::CapSpeed(c) => c.wf(),
        _ => true,
    }
}

/// The world after the first `k` routines of `order`.
pub open spec fn run_steps(
    w: WorldModel,
    systems: Seq<SystemKind>,
    order: Seq<usize>,
    res: Resources,
    k: nat,
) -> WorldModel
    decreases k,
{
    if k == 0 {
        w
    } else {
        step(run_steps(w, systems, order, res, (k - 1) as nat), systems[order[k - 1] as int], res)
    }
}

/// Each of the first `k` routines of `order` can run where it comes.
pub open spec fn run_ok(
    w: WorldModel,
    systems: Seq<SystemKind>,
    order: Seq<usize>,
    res: Resources,
    k: nat,
) -> bool
    decreases k,
{
    if k == 0 {
        true
    } else {
        run_ok(w, systems, order, res, (k - 1) as nat) && step_ok(
            run_steps(w, systems, order, res, (k - 1) as nat),
            systems[order[k - 1] as int],
            res,
        )
    }
}

/// Storage a routine reads.
pub open spec fn reads_of(k: SystemKind) -> Seq<u64> {
    match k {
        SystemKind::Input => seq![],
        SystemKind::Paddle => seq![POSE, PADDLE, INPUT_AXES, FRAME_TIME],
        SystemKind::Gravity => seq![GRAVITY, FRAME_TIME],
        SystemKind::CapSpeed(_) => seq![],
        SystemKind::Ball => seq![BALL],
    }
}

/// Storage a routine writes.
pub open spec fn writes_of(k: SystemKind) -> Seq<u64> {
    match k {
        SystemKind::Input => seq![INPUT_AXES],
        SystemKind::Paddle => seq![STAGED_VELOCITY],
        SystemKind::Gravity => seq![STAGED_VELOCITY],
        SystemKind::CapSpeed(_) => seq![STAGED_VELOCITY],
        SystemKind::Ball => seq![POSE],
    }
}

fn access(k: &SystemKind) -> (r: (Vec<u64>, Vec<u64>))
    ensures
        r.0@ == reads_of(*k),
        r.1@ == writes_of(*k),
{
    match k {
        SystemKind::Input => (vec![], vec![INPUT_AXES]),
        SystemKind::Paddle => (vec![POSE, PADDLE, INPUT_AXES, FRAME_TIME], vec![STAGED_VELOCITY]),
        SystemKind::Gravity => (vec![GRAVITY, FRAME_TIME], vec![STAGED_VELOCITY]),
        SystemKind::CapSpeed(_) => (vec![], vec![STAGED_VELOCITY]),
        SystemKind::Ball => (vec![BALL], vec![POSE]),
    }
}

/// Index of the first routine registered under `name`, from `k` on; `-1`
/// where there is none.
pub open spec fn find_name(names: Seq<SystemName>, name: SystemName, k: int) -> int
    decreases names.len() - k,
{
    if k < 0 || k >= names.len() {
        -1
    } else if names[k] == name {
        k
    } else {
        find_name(names, name, k + 1)
    }
}

/// Collects routines under names, each with the names it runs after.
pub struct DispatcherBuilder {
    pub names: Vec<SystemName>,
    pub systems: Vec<SystemKind>,
    pub after: Vec<Vec<SystemName>>,
}

/// The declarations a builder's routines resolve to: the access sets of
/// their kinds, and "runs after" edges to the first routine of each name.
pub open spec fn resolves_to(b: DispatcherBuilder, d: Seq<SystemDecl>) -> bool {
    &&& d.len() == b.systems@.len()
    &&& forall|i: int|
        0 <= i < d.len() ==> (#[trigger] d[i]).reads@ == reads_of(b.systems@[i]) && d[i].writes@
            == writes_of(b.systems@[i]) && d[i].after@.len() == b.after@[i]@.len() && forall|j: int|
            0 <= j < d[i].after@.len() ==> #[trigger] d[i].after@[j] == find_name(
                b.names@,
                b.after@[i]@[j],
                0,
            )
}

/// Routine `i` runs after a name that no routine has.
pub open spec fn unknown_name(b: DispatcherBuilder, i: int) -> bool {
    0 <= i < b.systems@.len() && exists|j: int|
        0 <= j < b.after@[i]@.len() && find_name(b.names@, #[trigger] b.after@[i]@[j], 0) == -1
}

impl DispatcherBuilder {
    pub open spec fn wf(self) -> bool {
        self.names@.len() == self.systems@.len() && self.after@.len() == self.systems@.len()
    }

    /// A builder without routines.
    pub fn new() -> (r: DispatcherBuilder)
        ensures
            r.wf(),
            r.systems@.len() == 0,
    {
        DispatcherBuilder { names: Vec::new(), systems: Vec::new(), after: Vec::new() }
    }

    /// Registers `system` under `name`, to run after the routines named in
    /// `after`.
    pub fn add(&mut self, system: SystemKind, name: SystemName, after: Vec<SystemName>)
        requires
            old(self).wf(),
        ensures
            final(self).wf(),
            final(self).names@ == old(self).names@.push(name),
            final(self).systems@ == old(self).systems@.push(system),
            final(self).after@ == old(self).after@.push(after),
    {
        self.names.push(name);
        self.systems.push(system);
        self.after.push(after);
    }

    /// Resolves names and schedules the routines. Fails with
    /// `UnknownDependency(i)` where routine `i` runs after a name that no
    /// routine has, and with `Cycle` where the edges admit no order.
    pub fn build(self) -> (r: Result<Dispatcher, ScheduleError>)
        requires
            self.wf(),
        ensures
            r matches Ok(d) ==> d.wf() && d.systems@ == self.systems@ && resolves_to(self, d.decls@),
            r matches Err(ScheduleError::UnknownDependency(i)) ==> unknown_name(self, i as int),
            r matches Err(ScheduleError::Cycle) ==> (forall|i: int| !#[trigger] unknown_name(self, i))
                && (exists|d: Seq<SystemDecl>| #[trigger] resolves_to(self, d)) && forall|
                d: Seq<SystemDecl>,
                o: Seq<usize>,
            | resolves_to(self, d) ==> !#[trigger] is_order(d, o),
    {
        let n = self.systems.len();
        let mut decls: Vec<SystemDecl> = Vec::new();
        let mut i: usize = 0;
        while i < n
            invariant
                self.wf(),
                n == self.systems@.len(),
                i <= n,
                decls@.len() == i,
                forall|a: int|
                    0 <= a < i ==> (#[trigger] decls@[a]).reads@ == reads_of(self.systems@[a])
                        && decls@[a].writes@ == writes_of(self.systems@[a]) && decls@[a].after@.len()
                        == self.after@[a]@.len() && forall|j: int|
                        0 <= j < decls@[a].after@.len() ==> #[trigger] decls@[a].after@[j]
                            == find_name(self.names@, self.after@[a]@[j], 0),
            decreases n - i,
        {
            let mut resolved: Vec<usize> = Vec::new();
            let mut j: usize = 0;
            while j < self.after[i].len()
                invariant
                    self.wf(),
                    n == self.systems@.len(),
                    i < n,
                    j <= self.after@[i as int]@.len(),
                    resolved@.len() == j,
                    forall|c: int|
                        0 <= c < j ==> #[trigger] resolved@[c] == find_name(
                            self.names@,
                            self.after@[i as int]@[c],
                            0,
                        ),
                decreases self.after@[i as int]@.len() - j,
            {
                let target = self.after[i][j];
                match find(&self.names, target) {
                    Some(k) => resolved.push(k),
                    None => {
                        assert(find_name(self.names@, self.after@[i as int]@[j as int], 0) == -1);
                        assert(exists|jj: int|
                            0 <= jj < self.after@[i as int]@.len() && find_name(
                                self.names@,
                                #[trigger] self.after@[i as int]@[jj],
                                0,
                            ) == -1);
                        assert(unknown_name(self, i as int));
                        return Err(ScheduleError::UnknownDependency(i));
                    },
                }
                j += 1;
            }
            let (reads, writes) = access(&self.systems[i]);
            decls.push(SystemDecl { reads, writes, after: resolved });
            i += 1;
        }
        assert(resolves_to(self, decls@));
        match build_schedule(&decls) {
            Ok(schedule) => {
                let DispatcherBuilder { systems, .. } = self;
                Ok(Dispatcher { systems, decls, schedule })
            },
            Err(e) => {
                proof {
                    if let ScheduleError::UnknownDependency(_) = e {
                        assert forall|a: int, j: int|
                            0 <= a < decls@.len() && 0 <= j < decls@[a].after@.len()
                                implies #[trigger] decls@[a].after@[j] < decls@.len() by {
                            lemma_find_name_bounds(self.names@, self.after@[a]@[j], 0);
                        }
                    }
                    assert(resolves_to(self, decls@));
                    assert forall|i: int| !#[trigger] unknown_name(self, i) by {
                        if 0 <= i < self.systems@.len() {
                            assert forall|j: int| 0 <= j < self.after@[i]@.len() implies find_name(
                                self.names@,
                                #[trigger] self.after@[i]@[j],
                                0,
                            ) != -1 by {
                                assert(decls@[i].after@[j] == find_name(self.names@, self.after@[i]@[j], 0));
                            }
                        }
                    }
                    assert forall|d: Seq<SystemDecl>, o: Seq<usize>|
                        resolves_to(self, d) implies !#[trigger] is_order(d, o) by {
                        assert forall|a: int| 0 <= a < d.len() implies (#[trigger] d[a]).after@
                            == decls@[a].after@ by {
                            assert(d[a].after@ =~= decls@[a].after@);
                        }
                        lemma_same_edges_same_orders(d, decls@, o);
                    }
                }
                Err(e)
            },
        }
    }
}

proof fn lemma_find_name_bounds(names: Seq<SystemName>, name: SystemName, k: int)
    requires
        0 <= k,
    ensures
        -1 <= find_name(names, name, k) < names.len(),
        find_name(names, name, k) != -1 ==> k <= find_name(names, name, k),
    decreases names.len() - k,
{
    if k < names.len() && names[k] != name {
        lemma_find_name_bounds(names, name, k + 1);
    }
}

/// Two declaration lists with the same edges admit the same orders.
proof fn lemma_same_edges_same_orders(d1: Seq<SystemDecl>, d2: Seq<SystemDecl>, o: Seq<usize>)
    requires
        d1.len() == d2.len(),
        forall|i: int| 0 <= i < d1.len() ==> (#[trigger] d1[i]).after@ == d2[i].after@,
    ensures
        is_order(d1, o) == is_order(d2, o),
{
    assert forall|a: int, c: int| 0 <= a < d1.len() implies depends_on(d1, a, c) == depends_on(
        d2,
        a,
        c,
    ) by {
        assert(d1[a].after@ == d2[a].after@);
    }
}

/// Index of the first routine named `name`.
fn find(names: &Vec<SystemName>, name: SystemName) -> (r: Option<usize>)
    ensures
        match r {
            Some(k) => k == find_name(names@, name, 0),
            None => find_name(names@, name, 0) == -1,
        },
{
    let mut k: usize = 0;
    while k < names.len()
        invariant
            k <= names.len(),
            find_name(names@, name, 0) == find_name(names@, name, k as int),
        decreases names.len() - k,
    {
        if names[k] == name {
            return Some(k);
        }
        k += 1;
    }
    None
}

/// The routines with their schedule.
pub struct Dispatcher {
    pub systems: Vec<SystemKind>,
    pub decls: Vec<SystemDecl>,
    pub schedule: Schedule,
}

impl Dispatcher {
    pub open spec fn wf(self) -> bool {
        &&& self.decls@.len() == self.systems@.len()
        &&& is_order(self.decls@, self.schedule.order@)
        &&& waves_ok(self.decls@, self.schedule.order@, self.schedule.waves@)
    }

    /// Runs every routine once, in schedule order.
    pub fn dispatch(&self, world: &mut World, res: &Resources)
        requires
            self.wf(),
            old(world)@.wf(),
            run_ok(old(world)@, self.systems@, self.schedule.order@, *res, self.schedule.order@.len()),
        ensures
            final(world)@ == run_steps(
                old(world)@,
                self.systems@,
                self.schedule.order@,
                *res,
                self.schedule.order@.len(),
            ),
    {
        let n = self.schedule.order.len();
        let mut k: usize = 0;
        while k < n
            invariant
                self.wf(),
                n == self.schedule.order@.len(),
                k <= n,
                run_ok(old(world)@, self.systems@, self.schedule.order@, *res, n as nat),
                world@ == run_steps(old(world)@, self.systems@, self.schedule.order@, *res, k as nat),
                world@.wf(),
            decreases n - k,
        {
            proof {
                lemma_run_ok_prefix(old(world)@, self.systems@, self.schedule.order@, *res, n as nat, (k + 1) as nat);
            }
            let s = self.schedule.order[k];
            self.run_step(s, world, res);
            k += 1;
        }
    }
}

impl Dispatcher {
    /// Runs routine `s` once.
    fn run_step(&self, s: usize, world: &mut World, res: &Resources)
        requires
            s < self.systems@.len(),
            old(world)@.wf(),
            step_ok(old(world)@, self.systems@[s as int], *res),
        ensures
            final(world)@ == step(old(world)@, self.systems@[s as int], *res),
            final(world)@.wf(),
    {
        let ghost before = world@;
        match &self.systems[s] {
            SystemKind::Paddle => {
                PaddleSystem.run(&mut world.staged, &world.poses, &world.paddles, &res.input, &res.time);
            },
            SystemKind::Gravity => {
                GravitySystem.run(&res.gravity, &res.time, &mut world.staged);
            },
            SystemKind::CapSpeed(c) => {
                c.run(&mut world.staged);
            },
            SystemKind::Ball => {
                BallSystem.run(&mut world.poses, &world.balls);
            },
            SystemKind::Input => {},
        }
        assert(world.staged@ =~= step(before, self.systems@[s as int], *res).staged);
        assert(world.poses@ =~= step(before, self.systems@[s as int], *res).poses);
    }

    /// Whether routine `s` can run on `world` without leaving the
    /// velocities' range.
    fn can_step(&self, s: usize, world: &World, res: &Resources) -> (r: bool)
        requires
            s < self.systems@.len(),
            world@.wf(),
        ensures
            r == step_ok(world@, self.systems@[s as int], *res),
    {
        match &self.systems[s] {
            SystemKind::Paddle => PaddleSystem.fits(&world.staged, &world.poses, &world.paddles, &res.input, &res.time),
            SystemKind::Gravity => GravitySystem.fits(&res.gravity, &res.time, &world.staged),
            SystemKind::CapSpeed(c) => c.is_wf(),
            _ => true,
        }
    }

    /// Runs the routines in schedule order, checking before each that it
    /// stays within the velocities' range. On `Err(k)` the first `k`
    /// routines have run and the next one would leave the range; it and
    /// those after it have not run.
    pub fn try_dispatch(&self, world: &mut World, res: &Resources) -> (r: Result<(), usize>)
        requires
            self.wf(),
            old(world)@.wf(),
        ensures
            match r {
                Ok(()) => run_ok(old(world)@, self.systems@, self.schedule.order@, *res, self.schedule.order@.len())
                    && final(world)@ == run_steps(
                    old(world)@,
                    self.systems@,
                    self.schedule.order@,
                    *res,
                    self.schedule.order@.len(),
                ),
                Err(k) => k < self.schedule.order@.len() && run_ok(
                    old(world)@,
                    self.systems@,
                    self.schedule.order@,
                    *res,
                    k as nat,
                ) && final(world)@ == run_steps(
                    old(world)@,
                    self.systems@,
                    self.schedule.order@,
                    *res,
                    k as nat,
                ) && !step_ok(
                    final(world)@,
                    self.systems@[self.schedule.order@[k as int] as int],
                    *res,
                ),
            },
    {
        let n = self.schedule.order.len();
        let mut k: usize = 0;
        while k < n
            invariant
                self.wf(),
                n == self.schedule.order@.len(),
                k <= n,
                run_ok(old(world)@, self.systems@, self.schedule.order@, *res, k as nat),
                world@ == run_steps(old(world)@, self.systems@, self.schedule.order@, *res, k as nat),
                world@.wf(),
            decreases n - k,
        {
            let s = self.schedule.order[k];
            if !self.can_step(s, world, res) {
                return Err(k);
            }
            self.run_step(s, world, res);
            k += 1;
        }
        Ok(())
    }
}

proof fn lemma_run_ok_prefix(
    w: WorldModel,
    systems: Seq<SystemKind>,
    order: Seq<usize>,
    res: Resources,
    n: nat,
    k: nat,
)
    requires
        run_ok(w, systems, order, res, n),
        k <= n,
    ensures
        run_ok(w, systems, order, res, k),
    decreases n - k,
{
    if k < n {
        lemma_run_ok_prefix(w, systems, order, res, n, (k + 1) as nat);
    }
}

/// Registers the paddle, gravity and speed-cap routines: paddles move after
/// input sampling, gravity has no predecessor, and the cap runs after both.
pub struct PongBundle;

impl PongBundle {
    pub fn build(self, builder: &mut DispatcherBuilder)
        requires
            old(builder).wf(),
        ensures
            final(builder).wf(),
            final(builder).names@ == old(builder).names@ + seq![
                SystemName::Paddle,
                SystemName::Gravity,
                SystemName::CapSpeed,
            ],
            final(builder).systems@.len() == old(builder).systems@.len() + 3,
            final(builder).systems@.subrange(0, old(builder).systems@.len() as int)
                == old(builder).systems@,
            final(builder).systems@[old(builder).systems@.len() as int] is Paddle,
            final(builder).systems@[(old(builder).systems@.len() + 1) as int] is Gravity,
            final(builder).systems@[(old(builder).systems@.len() + 2) as int] matches SystemKind::CapSpeed(
                c,
            ) && c.wf() && c.max_speed() == 50_000_000 && c.max_angular() == 3_141_593,
            final(builder).after@.len() == old(builder).after@.len() + 3,
            final(builder).after@.subrange(0, old(builder).after@.len() as int) == old(builder).after@,
            final(builder).after@[old(builder).after@.len() as int]@ == seq![SystemName::Input],
            final(builder).after@[(old(builder).after@.len() + 1) as int]@ == Seq::<SystemName>::empty(),
            final(builder).after@[(old(builder).after@.len() + 2) as int]@ == seq![
                SystemName::Paddle,
                SystemName::Gravity,
            ],
    {
        builder.add(SystemKind::Paddle, SystemName::Paddle, vec![SystemName::Input]);
        builder.add(SystemKind::Gravity, SystemName::Gravity, vec![]);
        builder.add(
            SystemKind::CapSpeed(CapSpeedSystem::default()),
            SystemName::CapSpeed,
            vec![SystemName::Paddle, SystemName::Gravity],
        );
    }
}

/// The input stage followed by the routines of `PongBundle`, scheduled:
/// the declared edges always admit an order, and the paddle, gravity and
/// speed-cap routines, which all write the staged velocities, never share
/// a wave.
pub fn pong_dispatcher() -> (d: Dispatcher)
    ensures
        d.wf(),
        d.systems@.len() == 4,
        d.systems@[0] is Input,
        d.systems@[1] is Paddle,
        d.systems@[2] is Gravity,
        d.systems@[3] matches SystemKind::CapSpeed(c) && c.wf() && c.max_speed() == 50_000_000
            && c.max_angular() == 3_141_593,
        d.decls@[0].after@.len() == 0,
        d.decls@[1].after@ == seq![0usize],
        d.decls@[2].after@.len() == 0,
        d.decls@[3].after@ == seq![1usize, 2usize],
        forall|p: int, q: int|
            0 <= p < q < 4 && d.schedule.order@[p] != 0 && d.schedule.order@[q] != 0
                ==> d.schedule.waves@[p] < d.schedule.waves@[q],
{
    let mut b = DispatcherBuilder::new();
    b.add(SystemKind::Input, SystemName::Input, vec![]);
    PongBundle.build(&mut b);
    let ghost names = seq![SystemName::Input, SystemName::Paddle, SystemName::Gravity, SystemName::CapSpeed];
    proof {
        assert(b.names@ =~= names);
        assert(b.after@[0] == b.after@.subrange(0, 1)[0]);
        assert(b.systems@[0] == b.systems@.subrange(0, 1)[0]);
        assert(b.after@[0]@.len() == 0);
        assert(b.systems@[0] is Input);
        reveal_with_fuel(find_name, 5);
        assert(find_name(names, SystemName::Input, 0) == 0);
        assert(find_name(names, SystemName::Paddle, 0) == 1);
        assert(find_name(names, SystemName::Gravity, 0) == 2);
    }
    let ghost bb = b;
    match b.build() {
        Ok(d) => {
            proof {
                assert(d.decls@[1].after@ =~= seq![0usize]);
                assert(d.decls@[3].after@ =~= seq![1usize, 2usize]);
                assert forall|p: int, q: int|
                    0 <= p < q < 4 && d.schedule.order@[p] != 0 && d.schedule.order@[q]
                        != 0 implies d.schedule.waves@[p] < d.schedule.waves@[q] by {
                    let x = d.schedule.order@[p] as int;
                    let y = d.schedule.order@[q] as int;
                    assert(d.decls@[x].writes@ == writes_of(d.systems@[x]));
                    assert(d.decls@[y].writes@ == writes_of(d.systems@[y]));
                    assert(writes_of(d.systems@[x]) == seq![STAGED_VELOCITY]);
                    assert(writes_of(d.systems@[y]) == seq![STAGED_VELOCITY]);
                    assert(d.decls@[x].writes@[0] == d.decls@[y].writes@[0]);
                    assert(overlap(d.decls@[x].writes@, d.decls@[y].writes@));
                    assert(crate::schedule::conflicts(d.decls@[x], d.decls@[y]));
                    assert(d.schedule.waves@[p] <= d.schedule.waves@[q]);
                    assert(d.schedule.waves@[p] != d.schedule.waves@[q]);
                }
            }
            d
        },
        Err(e) => {
            proof {
                if let ScheduleError::UnknownDependency(i) = e {
                    let j = choose|j: int|
                        0 <= j < bb.after@[i as int]@.len() && find_name(
                            bb.names@,
                            #[trigger] bb.after@[i as int]@[j],
                            0,
                        ) == -1;
                    assert(false);
                } else {
                    let dd = choose|dd: Seq<SystemDecl>| #[trigger] resolves_to(bb, dd);
                    assert(dd[1].after@ =~= seq![0usize]);
                    assert(dd[3].after@ =~= seq![1usize, 2usize]);
                    let o = seq![0usize, 1usize, 2usize, 3usize];
                    assert(is_order(dd, o));
                }
            }
            vstd::pervasive::unreached()
        },
    }
}

} // verus!
