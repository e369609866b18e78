use vstd::prelude::*;
use crate::elevator::{
    abs_diff, floor_position, nearest_floor, rounded_floor, BuildingState, BuildingV, CarV,
    ElevatorCommand, FloorState, FLOOR_SCALE,
};
use crate::types::Floor;

verus! {

/// Whether a floor record has a pending hall request.
pub open spec fn floor_requested(f: FloorState) -> bool {
    f.out_up || f.out_down
}

/// Whether a car already serves floor `fl`: it targets it, or it stands at
/// it (by rounded position) with its door open.
pub open spec fn car_serves(c: CarV, fl: Floor) -> bool {
    c.target_floor == Some(fl) || (rounded_floor(c.current_floor) == fl && c.door_open)
}

/// Whether some car of `cars` already serves floor `fl`.
pub open spec fn already_served(cars: Seq<CarV>, fl: Floor) -> bool {
    exists|j: int| 0 <= j < cars.len() && car_serves(#[trigger] cars[j], fl)
}

/// A car's distance to a floor, in position units.
pub open spec fn floor_distance(c: CarV, fl: Floor) -> int {
    abs_diff(c.current_floor, floor_position(fl))
}

/// The untargeted car closest to floor `fl` among the first `n` cars, or
/// `None` if every one of them has a target. A tie keeps the
/// earlier-encountered car.
pub open spec fn best_car_upto(cars: Seq<CarV>, fl: Floor, n: int) -> Option<int>
    decreases n,
{
    if n <= 0 {
        None
    } else {
        let found = best_car_upto(cars, fl, n - 1);
        if cars[n - 1].target_floor is Some {
            found
        } else {
            match found {
                None => Some(n - 1),
                Some(j) => if floor_distance(cars[n - 1], fl) < floor_distance(cars[j], fl) {
                    Some(n - 1)
                } else {
                    Some(j)
                },
            }
        }
    }
}

/// What the policy emits for the floor record at index `i`: one move command
/// sending the closest untargeted car, if the floor has a pending request
/// that no car already serves and an untargeted car exists; else nothing.
pub open spec fn floor_cmds(b: BuildingV, i: int) -> Seq<ElevatorCommand> {
    let f = b.floors[i];
    let pick = best_car_upto(b.cars, f.floor, b.cars.len() as int);
    if floor_requested(f) && !already_served(b.cars, f.floor) && pick is Some {
        seq![ElevatorCommand::MoveCarTo { car_id: b.cars[pick.unwrap()].id, floor: f.floor }]
    } else {
        Seq::empty()
    }
}

/// The hall commands for the first `n` floor records, in floor order.
pub open spec fn hall_cmds_upto(b: BuildingV, n: int) -> Seq<ElevatorCommand>
    decreases n,
{
    if n <= 0 {
        Seq::empty()
    } else {
        hall_cmds_upto(b, n - 1) + floor_cmds(b, n - 1)
    }
}

/// One car's interior-button commands for its first `n` buttons: a move
/// command for every set button, in floor order.
pub open spec fn car_button_cmds_upto(c: CarV, n: int) -> Seq<ElevatorCommand>
    decreases n,
{
    if n <= 0 {
        Seq::empty()
    } else {
        car_button_cmds_upto(c, n - 1) + (if c.car_buttons[n - 1] {
            seq![ElevatorCommand::MoveCarTo { car_id: c.id, floor: (n - 1) as Floor }]
        } else {
            Seq::empty()
        })
    }
}

/// The interior-button commands of the first `n` cars, in car order.
pub open spec fn button_cmds_upto(cars: Seq<CarV>, n: int) -> Seq<ElevatorCommand>
    decreases n,
{
    if n <= 0 {
        Seq::empty()
    } else {
        button_cmds_upto(cars, n - 1) + car_button_cmds_upto(
            cars[n - 1],
            cars[n - 1].car_buttons.len() as int,
        )
    }
}

/// Everything the default policy emits for one snapshot: the hall commands
/// in floor order, then every car's interior-button commands. Interior
/// commands come last on purpose: applied in emission order they overwrite a
/// hall assignment made to the same car in the same step.
pub open spec fn decide_spec(b: BuildingV) -> Seq<ElevatorCommand> {
    hall_cmds_upto(b, b.floors.len() as int) + button_cmds_upto(b.cars, b.cars.len() as int)
}

/// A pluggable dispatch policy: each step it reads a snapshot of the building
/// and produces assignment commands. Policies may assume the snapshot's
/// button vectors have indices that fit a `Floor`.
pub trait ElevatorController {
    fn tick(&mut self, state: &BuildingState) -> (cmds: Vec<ElevatorCommand>)
        requires
            forall|i: int|
                0 <= i < state@.cars.len() ==> (#[trigger] state@.cars[i]).car_buttons.len()
                    <= u32::MAX,
    ;
}

/// The default nearest-idle-car policy.
pub struct BasicController;

impl BasicController {
    /// Compute the default policy's commands for a snapshot; see
    /// [`decide_spec`]. The bound on the button vectors is a machine limit:
    /// a button's index must fit a `Floor`.
    pub fn decide(&self, state: &BuildingState) -> (cmds: Vec<ElevatorCommand>)
        requires
            forall|i: int|
                0 <= i < state@.cars.len() ==> (#[trigger] state@.cars[i]).car_buttons.len()
                    <= u32::MAX,
        ensures
            cmds@ == decide_spec(state@),
    {
        let mut commands: Vec<ElevatorCommand> = Vec::new();
        let nf = state.floors.len();
        let nc = state.cars.len();
        for fi in 0..nf
            invariant
                nf == state@.floors.len(),
                nc == state@.cars.len(),
                commands@ == hall_cmds_upto(state@, fi as int),
        {
            let floor_state = state.floors[fi];
            if floor_state.out_up || floor_state.out_down {
                let floor = floor_state.floor;
                let mut already = false;
                let mut j: usize = 0;
                while j < nc
                    invariant
                        nc == state@.cars.len(),
                        j <= nc,
                        already <==> exists|k: int|
                            0 <= k < j && car_serves(#[trigger] state@.cars[k], floor),
                    decreases nc - j,
                {
                    let car = &state.cars[j];
                    let targets = match car.target_floor {
                        Some(t) => t == floor,
                        None => false,
                    };
                    let here = car.door_open && nearest_floor(car.current_floor) == floor;
                    if targets || here {
                        already = true;
                        proof {
                            assert(car_serves(state@.cars[j as int], floor));
                        }
                    }
                    j += 1;
                }
                if !already {
                    let mut best_car_index: Option<usize> = None;
                    let mut best_distance: i128 = i128::MAX;
                    let mut k: usize = 0;
                    while k < nc
                        invariant
                            nc == state@.cars.len(),
                            k <= nc,
                            (match best_car_index {
                                None => {
                                    &&& best_car_upto(state@.cars, floor, k as int) is None
                                    &&& best_distance == i128::MAX
                                },
                                Some(bi) => {
                                    &&& bi < nc
                                    &&& best_car_upto(state@.cars, floor, k as int) == Some(
                                        bi as int,
                                    )
                                    &&& best_distance == floor_distance(
                                        state@.cars[bi as int],
                                        floor,
                                    )
                                    &&& best_distance < i128::MAX
                                },
                            }),
                        decreases nc - k,
                    {
                        let car = &state.cars[k];
                        if car.target_floor.is_none() {
                            let pos: i128 = car.current_floor as i128;
                            let fm: i128 = (floor as i128) * (FLOOR_SCALE as i128);
                            let d: i128 = pos - fm;
                            let distance: i128 = if d < 0 {
                                -d
                            } else {
                                d
                            };
                            proof {
                                assert(distance == floor_distance(state@.cars[k as int], floor));
                                assert(distance < i128::MAX);
                            }
                            if distance < best_distance {
                                best_distance = distance;
                                best_car_index = Some(k);
                            }
                        }
                        k += 1;
                    }
                    if let Some(ci) = best_car_index {
                        let car_id = state.cars[ci].id;
                        commands.push(ElevatorCommand::MoveCarTo { car_id, floor });
                    }
                }
            }
            proof {
                assert(commands@ =~= hall_cmds_upto(state@, fi + 1));
            }
        }
        let ghost hall_all = commands@;
        for ci in 0..nc
            invariant
                nc == state@.cars.len(),
                forall|i: int|
                    0 <= i < state@.cars.len() ==> (#[trigger] state@.cars[i]).car_buttons.len()
                        <= u32::MAX,
                commands@ == hall_all + button_cmds_upto(state@.cars, ci as int),
        {
            let nb = state.cars[ci].car_buttons.len();
            for bi in 0..nb
                invariant
                    nc == state@.cars.len(),
                    ci < nc,
                    nb == state@.cars[ci as int].car_buttons.len(),
                    nb <= u32::MAX,
                    commands@ == hall_all + button_cmds_upto(state@.cars, ci as int)
                        + car_button_cmds_upto(state@.cars[ci as int], bi as int),
            {
                let pressed = state.cars[ci].car_buttons[bi];
                if pressed {
                    let car_id = state.cars[ci].id;
                    commands.push(ElevatorCommand::MoveCarTo { car_id, floor: bi as Floor });
                }
                proof {
                    assert(commands@ =~= hall_all + button_cmds_upto(state@.cars, ci as int)
                        + car_button_cmds_upto(state@.cars[ci as int], bi + 1));
                }
            }
            proof {
                assert(commands@ =~= hall_all + button_cmds_upto(state@.cars, ci + 1));
            }
        }
        proof {
            assert(commands@ =~= decide_spec(state@));
        }
        commands
    }
}

impl ElevatorController for BasicController {
    /// The default policy's step: forwards to [`BasicController::decide`]
    /// and promises its full output, so callers through the trait get the
    /// same guarantee.
    fn tick(&mut self, state: &BuildingState) -> (cmds: Vec<ElevatorCommand>)
        ensures
            cmds@ == decide_spec(state@),
    {
        self.decide(state)
    }
}

} // verus!
