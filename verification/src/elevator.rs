use vstd::prelude::*;
use vstd::pervasive::VecAdditionalExecFns;
use crate::types::{CarId, Direction, Floor};

verus! {

/// Position units per floor: positions and durations are fixed-point values
/// in thousandths of a floor, and cars travel one floor per time unit.
pub const FLOOR_SCALE: i64 = 1000;

/// A car whose distance to its target is below this threshold (one hundredth
/// of a floor) is treated as arrived.
pub const ARRIVAL_THRESHOLD: i64 = 10;

/// Bound on a car's position. A target floor is at most `u32::MAX` floors up
/// (about 4.3e12 position units), and one advance overshoots a target by less
/// than the duration (at most `u32::MAX` units), so positions never leave
/// this range.
pub const POSITION_LIMIT: i64 = 5_000_000_000_000;

/// The state of each floor: its index and its two hall buttons.
#[derive(Copy, Clone, Debug, PartialEq)]
pub struct FloorState {
    pub floor: Floor,
    pub out_up: bool,
    pub out_down: bool,
}

/// The state of each elevator car: its id, its position in thousandths of a
/// floor, its single optional target floor, its door flag, and one button per
/// floor of the building.
#[derive(Clone, Debug, PartialEq)]
pub struct ElevatorCarState {
    pub id: CarId,
    pub current_floor: i64,
    pub target_floor: Option<Floor>,
    pub door_open: bool,
    pub car_buttons: Vec<bool>,
}

/// The state of an entire building: one entry per floor and one per car.
#[derive(Clone, Debug, PartialEq)]
pub struct BuildingState {
    pub floors: Vec<FloorState>,
    pub cars: Vec<ElevatorCarState>,
}

/// The commands the building model accepts; the only way its state changes
/// besides the physical clock.
pub enum ElevatorCommand {
    MoveCarTo { car_id: CarId, floor: Floor },
    PressOutButton { floor: Floor, direction: Direction },
    PressCarButton { car_id: CarId, floor: Floor },
}

/// Mathematical model of a car: the exec fields with the position widened to
/// `int` and the button vector abstracted to a sequence.
#[verifier::ext_equal]
pub ghost struct CarV {
    pub id: CarId,
    pub current_floor: int,
    pub target_floor: Option<Floor>,
    pub door_open: bool,
    pub car_buttons: Seq<bool>,
}

/// Mathematical model of a building: the floor and car sequences.
#[verifier::ext_equal]
pub ghost struct BuildingV {
    pub floors: Seq<FloorState>,
    pub cars: Seq<CarV>,
}

impl View for ElevatorCarState {
    type V = CarV;

    open spec fn view(&self) -> CarV {
        CarV {
            id: self.id,
            current_floor: self.current_floor as int,
            target_floor: self.target_floor,
            door_open: self.door_open,
            car_buttons: self.car_buttons@,
        }
    }
}

impl View for BuildingState {
    type V = BuildingV;

    open spec fn view(&self) -> BuildingV {
        BuildingV {
            floors: self.floors@,
            cars: self.cars@.map_values(|c: ElevatorCarState| c@),
        }
    }
}

/// The absolute difference of two integers.
pub open spec fn abs_diff(a: int, b: int) -> int {
    if a >= b {
        a - b
    } else {
        b - a
    }
}

/// The floor a position rounds to: the nearest integer floor, ties away from
/// zero, clamped to the `Floor` range (a position below floor zero rounds to
/// floor zero). This rounding governs when a car counts as present at a
/// floor.
pub open spec fn rounded_floor(pos: int) -> Floor {
    if pos < 0 {
        0
    } else {
        let r = (pos + FLOOR_SCALE / 2) / (FLOOR_SCALE as int);
        if r > u32::MAX {
            u32::MAX
        } else {
            r as Floor
        }
    }
}

/// Exec computation of [`rounded_floor`]. Widens to `u128` so any `i64`
/// position is accepted.
pub fn nearest_floor(pos: i64) -> (f: Floor)
    ensures
        f == rounded_floor(pos as int),
{
    if pos < 0 {
        0
    } else {
        let r: u128 = (pos as u128 + FLOOR_SCALE as u128 / 2) / (FLOOR_SCALE as u128);
        if r > u32::MAX as u128 {
            u32::MAX
        } else {
            r as Floor
        }
    }
}

/// Well-formedness of a building with `nf` floors: floor records carry their
/// own index, car ids equal their index, every button vector has one flag per
/// floor, positions are within [`POSITION_LIMIT`], and no car holds a target
/// while its door is open (setting a target always closes the door).
pub open spec fn wf_building(b: BuildingV) -> bool {
    &&& b.floors.len() <= u32::MAX
    &&& b.cars.len() <= u32::MAX
    &&& forall|i: int| 0 <= i < b.floors.len() ==> (#[trigger] b.floors[i]).floor == i as Floor
    &&& forall|i: int| 0 <= i < b.cars.len() ==> (#[trigger] b.cars[i]).id == CarId(i as u32)
    &&& forall|i: int|
        0 <= i < b.cars.len() ==> (#[trigger] b.cars[i]).car_buttons.len() == b.floors.len()
    &&& forall|i: int|
        0 <= i < b.cars.len() ==> -POSITION_LIMIT <= (#[trigger] b.cars[i]).current_floor
            <= POSITION_LIMIT
    &&& forall|i: int|
        0 <= i < b.cars.len() && (#[trigger] b.cars[i]).door_open ==> b.cars[i].target_floor
            is None
}

/// The position of a floor in position units.
pub open spec fn floor_position(t: Floor) -> int {
    (t as int) * (FLOOR_SCALE as int)
}

/// A car counts as arrived when it has a target and its distance to it is
/// below the arrival threshold.
pub open spec fn arrives(c: CarV) -> bool {
    match c.target_floor {
        Some(t) => abs_diff(floor_position(t), c.current_floor) < ARRIVAL_THRESHOLD as int,
        None => false,
    }
}

/// One advance of a single car by duration `dt`: an arrived car snaps to its
/// target position, drops the target, opens its door, and clears its own
/// button for that floor; a car with a distant target moves `dt` units toward
/// it; a car with no target is untouched, its door state included.
pub open spec fn tick_car(c: CarV, dt: int) -> CarV {
    match c.target_floor {
        None => c,
        Some(t) => {
            let tm = floor_position(t);
            if abs_diff(tm, c.current_floor) < ARRIVAL_THRESHOLD as int {
                CarV {
                    current_floor: tm,
                    target_floor: None,
                    door_open: true,
                    car_buttons: if t < c.car_buttons.len() {
                        c.car_buttons.update(t as int, false)
                    } else {
                        c.car_buttons
                    },
                    ..c
                }
            } else if c.current_floor < tm {
                CarV { current_floor: c.current_floor + dt, ..c }
            } else {
                CarV { current_floor: c.current_floor - dt, ..c }
            }
        },
    }
}

/// A floor record with both hall buttons cleared.
pub open spec fn clear_hall(f: FloorState) -> FloorState {
    FloorState { out_up: false, out_down: false, ..f }
}

/// Whether some car of `cars` arrives at floor index `f` in this advance.
pub open spec fn some_car_arrives_at(cars: Seq<CarV>, f: int) -> bool {
    exists|j: int|
        0 <= j < cars.len() && #[trigger] arrives(cars[j]) && cars[j].target_floor == Some(
            f as Floor,
        )
}

/// One advance of the whole building: every car advances independently, and
/// every floor where some car arrives has its hall buttons cleared in the
/// same step as that car's own snap, door opening, and button clearing.
pub open spec fn tick_building(b: BuildingV, dt: int) -> BuildingV {
    BuildingV {
        floors: Seq::new(
            b.floors.len(),
            |f: int|
                if some_car_arrives_at(b.cars, f) {
                    clear_hall(b.floors[f])
                } else {
                    b.floors[f]
                },
        ),
        cars: b.cars.map_values(|c: CarV| tick_car(c, dt)),
    }
}

/// What one command does to a building: a hall press sets the matching flag
/// of an existing floor, a car press sets the matching button of an existing
/// car, and a move command retargets an existing car and forces its door
/// closed. A command that names an out-of-range floor or car changes nothing.
pub open spec fn apply_cmd(b: BuildingV, cmd: ElevatorCommand) -> BuildingV {
    match cmd {
        ElevatorCommand::PressOutButton { floor, direction } => {
            if floor < b.floors.len() {
                let f = b.floors[floor as int];
                let f2 = match direction {
                    Direction::Up => FloorState { out_up: true, ..f },
                    Direction::Down => FloorState { out_down: true, ..f },
                };
                BuildingV { floors: b.floors.update(floor as int, f2), ..b }
            } else {
                b
            }
        },
        ElevatorCommand::PressCarButton { car_id, floor } => {
            if car_id.0 < b.cars.len() && floor < b.cars[car_id.0 as int].car_buttons.len() {
                let c = b.cars[car_id.0 as int];
                let c2 = CarV { car_buttons: c.car_buttons.update(floor as int, true), ..c };
                BuildingV { cars: b.cars.update(car_id.0 as int, c2), ..b }
            } else {
                b
            }
        },
        ElevatorCommand::MoveCarTo { car_id, floor } => {
            if car_id.0 < b.cars.len() {
                let c = b.cars[car_id.0 as int];
                let c2 = CarV { target_floor: Some(floor), door_open: false, ..c };
                BuildingV { cars: b.cars.update(car_id.0 as int, c2), ..b }
            } else {
                b
            }
        },
    }
}

/// Law: pressing a hall button and then immediately pressing the same button
/// again is idempotent — the second application leaves the state unchanged.
pub proof fn lemma_press_hall_idempotent(b: BuildingV, floor: Floor, direction: Direction)
    ensures
        apply_cmd(
            apply_cmd(b, ElevatorCommand::PressOutButton { floor, direction }),
            ElevatorCommand::PressOutButton { floor, direction },
        ) == apply_cmd(b, ElevatorCommand::PressOutButton { floor, direction }),
{
    let b1 = apply_cmd(b, ElevatorCommand::PressOutButton { floor, direction });
    let b2 = apply_cmd(b1, ElevatorCommand::PressOutButton { floor, direction });
    assert(b2 =~~= b1);
}

/// Law: a move command to an existing car always leaves that car targeting
/// the commanded floor with its door closed, whatever its prior door state.
pub proof fn lemma_move_command_targets(b: BuildingV, car_id: CarId, floor: Floor)
    requires
        car_id.0 < b.cars.len(),
    ensures
        apply_cmd(b, ElevatorCommand::MoveCarTo { car_id, floor }).cars[
            car_id.0 as int
        ].target_floor == Some(floor),
        !apply_cmd(b, ElevatorCommand::MoveCarTo { car_id, floor }).cars[
            car_id.0 as int
        ].door_open,
{
}

/// Law: in the advance that finds a car within the arrival threshold of its
/// target, one step snaps the car to the target position, clears the target,
/// opens the door, and clears both the target floor's hall buttons and the
/// car's own button for that floor — there is no intermediate observable
/// state with the door open but the buttons still set.
pub proof fn lemma_arrival_clears(b: BuildingV, dt: int, i: int)
    requires
        0 <= i < b.cars.len(),
        arrives(b.cars[i]),
    ensures
        ({
            let t = b.cars[i].target_floor.unwrap();
            let b2 = tick_building(b, dt);
            &&& b2.cars[i].target_floor is None
            &&& b2.cars[i].door_open
            &&& b2.cars[i].current_floor == floor_position(t)
            &&& t < b.cars[i].car_buttons.len() ==> !b2.cars[i].car_buttons[t as int]
            &&& t < b.floors.len() ==> !b2.floors[t as int].out_up && !b2.floors[
                t as int
            ].out_down
        }),
{
    let t = b.cars[i].target_floor.unwrap();
    let b2 = tick_building(b, dt);
    assert(b2.cars[i] == tick_car(b.cars[i], dt));
    if t < b.floors.len() {
        assert(some_car_arrives_at(b.cars, t as int));
        assert(b2.floors[t as int] == clear_hall(b.floors[t as int]));
    }
}

/// The building simulation: sole owner and mutator of the building state.
#[derive(Debug)]
pub struct ElevatorSim {
    state: BuildingState,
}

impl View for ElevatorSim {
    type V = BuildingV;

    closed spec fn view(&self) -> BuildingV {
        self.state@
    }
}

impl ElevatorSim {
    /// Well-formedness of the simulation; established by [`ElevatorSim::new`]
    /// and preserved by every operation.
    pub open spec fn wf(&self) -> bool {
        wf_building(self@)
    }

    /// Create a building with the given number of floors and cars: both hall
    /// buttons clear on every floor, and every car at floor zero with no
    /// target, door closed, and all buttons clear. A zero count simply
    /// yields a building with no floors or no cars.
    pub fn new(floor_num: usize, cars_num: usize) -> (sim: Self)
        requires
            floor_num <= u32::MAX,
            cars_num <= u32::MAX,
        ensures
            sim.wf(),
            sim@.floors.len() == floor_num,
            sim@.cars.len() == cars_num,
            forall|i: int|
                0 <= i < floor_num ==> #[trigger] sim@.floors[i] == (FloorState {
                    floor: i as Floor,
                    out_up: false,
                    out_down: false,
                }),
            forall|i: int|
                0 <= i < cars_num ==> #[trigger] sim@.cars[i] == (CarV {
                    id: CarId(i as u32),
                    current_floor: 0,
                    target_floor: None,
                    door_open: false,
                    car_buttons: Seq::new(floor_num as nat, |j: int| false),
                }),
    {
        let mut floors_vec: Vec<FloorState> = Vec::new();
        for i in 0..floor_num
            invariant
                floor_num <= u32::MAX,
                floors_vec@.len() == i,
                forall|k: int|
                    0 <= k < i ==> #[trigger] floors_vec@[k] == (FloorState {
                        floor: k as Floor,
                        out_up: false,
                        out_down: false,
                    }),
        {
            let floor_state = FloorState { floor: i as Floor, out_up: false, out_down: false };
            floors_vec.push(floor_state);
        }
        let mut cars_vec: Vec<ElevatorCarState> = Vec::new();
        for i in 0..cars_num
            invariant
                floor_num <= u32::MAX,
                cars_num <= u32::MAX,
                cars_vec@.len() == i,
                forall|k: int|
                    0 <= k < i ==> #[trigger] cars_vec@[k]@ == (CarV {
                        id: CarId(k as u32),
                        current_floor: 0,
                        target_floor: None,
                        door_open: false,
                        car_buttons: Seq::new(floor_num as nat, |j: int| false),
                    }),
        {
            let mut buttons: Vec<bool> = Vec::new();
            for j in 0..floor_num
                invariant
                    buttons@.len() == j,
                    forall|k: int| 0 <= k < j ==> !(#[trigger] buttons@[k]),
            {
                buttons.push(false);
            }
            proof {
                assert(buttons@ =~= Seq::new(floor_num as nat, |j: int| false));
            }
            let car_state = ElevatorCarState {
                id: CarId(i as u32),
                current_floor: 0,
                target_floor: None,
                door_open: false,
                car_buttons: buttons,
            };
            cars_vec.push(car_state);
        }
        let sim = ElevatorSim { state: BuildingState { floors: floors_vec, cars: cars_vec } };
        proof {
            assert(forall|i: int|
                0 <= i < cars_num ==> #[trigger] sim@.cars[i] == cars_vec@[i]@);
        }
        sim
    }

    /// Apply one command to the building state; see [`apply_cmd`]. A command
    /// that names an out-of-range floor or car is absorbed as a no-op.
    pub fn apply_command(&mut self, cmd: ElevatorCommand)
        ensures
            final(self)@ == apply_cmd(old(self)@, cmd),
            old(self).wf() ==> final(self).wf(),
    {
        match cmd {
            ElevatorCommand::PressOutButton { floor, direction } => {
                let i = floor as usize;
                if i < self.state.floors.len() {
                    let prior = self.state.floors[i];
                    let f2 = match direction {
                        Direction::Up => FloorState { out_up: true, ..prior },
                        Direction::Down => FloorState { out_down: true, ..prior },
                    };
                    self.state.floors.set(i, f2);
                }
                proof {
                    assert(self@ =~~= apply_cmd(
                        old(self)@,
                        ElevatorCommand::PressOutButton { floor, direction },
                    ));
                }
            },
            ElevatorCommand::PressCarButton { car_id, floor } => {
                let ci = car_id.0 as usize;
                if ci < self.state.cars.len() {
                    let mut car = ElevatorCarState {
                        id: CarId(0),
                        current_floor: 0,
                        target_floor: None,
                        door_open: false,
                        car_buttons: Vec::new(),
                    };
                    self.state.cars.set_and_swap(ci, &mut car);
                    let fi = floor as usize;
                    if fi < car.car_buttons.len() {
                        car.car_buttons.set(fi, true);
                    }
                    self.state.cars.set_and_swap(ci, &mut car);
                }
                proof {
                    assert(self@ =~~= apply_cmd(
                        old(self)@,
                        ElevatorCommand::PressCarButton { car_id, floor },
                    ));
                }
            },
            ElevatorCommand::MoveCarTo { car_id, floor } => {
                let ci = car_id.0 as usize;
                if ci < self.state.cars.len() {
                    let mut car = ElevatorCarState {
                        id: CarId(0),
                        current_floor: 0,
                        target_floor: None,
                        door_open: false,
                        car_buttons: Vec::new(),
                    };
                    self.state.cars.set_and_swap(ci, &mut car);
                    car.target_floor = Some(floor);
                    car.door_open = false;
                    self.state.cars.set_and_swap(ci, &mut car);
                }
                proof {
                    assert(self@ =~~= apply_cmd(
                        old(self)@,
                        ElevatorCommand::MoveCarTo { car_id, floor },
                    ));
                }
            },
        }
    }

    /// Advance the physical clock by `dt` (thousandths of a time unit; a car
    /// travels one floor per time unit); see [`tick_building`].
    pub fn tick(&mut self, dt: u32)
        requires
            old(self).wf(),
        ensures
            final(self).wf(),
            final(self)@ == tick_building(old(self)@, dt as int),
    {
        let n = self.state.cars.len();
        let nf = self.state.floors.len();
        for i in 0..n
            invariant
                old(self).wf(),
                n == self@.cars.len() == old(self)@.cars.len(),
                nf == self@.floors.len() == old(self)@.floors.len(),
                forall|k: int|
                    0 <= k < i ==> #[trigger] self@.cars[k] == tick_car(
                        old(self)@.cars[k],
                        dt as int,
                    ),
                forall|k: int| i <= k < n ==> #[trigger] self@.cars[k] == old(self)@.cars[k],
                forall|f: int|
                    0 <= f < nf ==> #[trigger] self@.floors[f] == (
                    if some_car_arrives_at(old(self)@.cars.take(i as int), f) {
                        clear_hall(old(self)@.floors[f])
                    } else {
                        old(self)@.floors[f]
                    }),
        {
            let ghost prev = self@;
            let ghost pv = self.state.cars@;
            let ghost pf = self.state.floors@;
            let ghost pre_cars = old(self)@.cars;
            let mut car = ElevatorCarState {
                id: CarId(0),
                current_floor: 0,
                target_floor: None,
                door_open: false,
                car_buttons: Vec::new(),
            };
            self.state.cars.set_and_swap(i, &mut car);
            proof {
                assert(car == pv[i as int]);
                assert(prev.cars[i as int] == pv[i as int]@);
                assert(car@ == pre_cars[i as int]);
                assert(-POSITION_LIMIT <= car.current_floor <= POSITION_LIMIT);
            }
            match car.target_floor {
                None => {},
                Some(target) => {
                    let tm: i64 = (target as i64) * FLOOR_SCALE;
                    let diff: i64 = tm - car.current_floor;
                    let ad: i64 = if diff < 0 {
                        -diff
                    } else {
                        diff
                    };
                    if ad < ARRIVAL_THRESHOLD {
                        car.current_floor = tm;
                        car.target_floor = None;
                        car.door_open = true;
                        let floor_index = target as usize;
                        if floor_index < self.state.floors.len() {
                            let prior = self.state.floors[floor_index];
                            self.state.floors.set(
                                floor_index,
                                FloorState { out_up: false, out_down: false, ..prior },
                            );
                        }
                        if floor_index < car.car_buttons.len() {
                            car.car_buttons.set(floor_index, false);
                        }
                    } else {
                        let step: i64 = if diff > 0 {
                            dt as i64
                        } else {
                            -(dt as i64)
                        };
                        car.current_floor = car.current_floor + step;
                    }
                },
            }
            let ghost done_car = car;
            self.state.cars.set_and_swap(i, &mut car);
            proof {
                assert(self.state.cars@ =~= pv.update(i as int, done_car));
                assert forall|k: int| 0 <= k < n implies #[trigger] self@.cars[k] == (
                if k == i as int {
                    done_car@
                } else {
                    prev.cars[k]
                }) by {
                    if k != i as int {
                        assert(self.state.cars@[k] == pv[k]);
                        assert(prev.cars[k] == pv[k]@);
                    }
                }
                assert(done_car@ =~~= tick_car(pre_cars[i as int], dt as int));
                assert(self@.cars[i as int] == tick_car(pre_cars[i as int], dt as int));
                let c0 = pre_cars.take(i as int);
                let c1 = pre_cars.take(i + 1);
                assert(c1[i as int] == pre_cars[i as int]);
                assert forall|f: int| 0 <= f < nf implies #[trigger] self@.floors[f] == (
                    if some_car_arrives_at(c1, f) {
                        clear_hall(old(self)@.floors[f])
                    } else {
                        old(self)@.floors[f]
                    }) by {
                    if some_car_arrives_at(c0, f) {
                        let j = choose|j: int|
                            0 <= j < c0.len() && #[trigger] arrives(c0[j]) && c0[j].target_floor
                                == Some(f as Floor);
                        assert(c1[j] == c0[j]);
                        assert(arrives(c1[j]) && c1[j].target_floor == Some(f as Floor));
                        assert(some_car_arrives_at(c1, f));
                    }
                    if arrives(pre_cars[i as int]) && pre_cars[i as int].target_floor == Some(
                        f as Floor,
                    ) {
                        assert(some_car_arrives_at(c1, f));
                    }
                    if some_car_arrives_at(c1, f) && !some_car_arrives_at(c0, f) {
                        let j = choose|j: int|
                            0 <= j < c1.len() && #[trigger] arrives(c1[j]) && c1[j].target_floor
                                == Some(f as Floor);
                        if j < i {
                            assert(c0[j] == c1[j]);
                            assert(some_car_arrives_at(c0, f));
                        } else {
                            assert(j == i);
                            assert(arrives(pre_cars[i as int]));
                            assert(pre_cars[i as int].target_floor == Some(f as Floor));
                        }
                    }
                    if !arrives(pre_cars[i as int]) || pre_cars[i as int].target_floor != Some(
                        f as Floor,
                    ) {
                        if !some_car_arrives_at(c0, f) {
                            assert(self@.floors[f] == prev.floors[f]);
                        }
                    }
                }
            }
        }
        proof {
            assert(old(self)@.cars.take(n as int) =~= old(self)@.cars);
            assert(self@ =~~= tick_building(old(self)@, dt as int));
            assert forall|k: int| 0 <= k < n implies {
                let c2 = #[trigger] self@.cars[k];
                &&& c2.id == CarId(k as u32)
                &&& c2.car_buttons.len() == nf
                &&& -POSITION_LIMIT <= c2.current_floor <= POSITION_LIMIT
                &&& c2.door_open ==> c2.target_floor is None
            } by {
                let c = old(self)@.cars[k];
                assert(self@.cars[k] == tick_car(c, dt as int));
            }
            assert(wf_building(self@));
        }
    }

    /// A read-only snapshot of the whole building state.
    pub fn state(&self) -> (r: &BuildingState)
        ensures
            r@ == self@,
    {
        &self.state
    }
}

} // verus!
