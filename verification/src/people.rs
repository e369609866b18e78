use vstd::prelude::*;
use vstd::pervasive::VecAdditionalExecFns;
use crate::elevator::{nearest_floor, rounded_floor, BuildingState, CarV, ElevatorCarState,
    ElevatorCommand};
use crate::types::{CarId, Direction, Floor, PersonId};

verus! {

/// An action a person takes: calling a car from a hall, or pressing a
/// destination button inside one.
#[derive(Debug)]
pub enum PersonAction {
    CallElevator { floor: Floor, direction: Direction },
    PressCarButton { car_id: CarId, floor: Floor },
}

/// The life-cycle state of a person.
#[derive(Copy, Clone, Debug, PartialEq, Eq, Structural)]
pub enum PersonState {
    New,
    Waiting,
    Riding,
    Done,
}

/// A person: an id, a current and a target floor, a life-cycle state, and the
/// id of the car they are riding, if any (a non-owning back-reference; the
/// building owns the car).
#[derive(Copy, Clone, Debug, PartialEq, Eq, Structural)]
pub struct Person {
    pub id: PersonId,
    pub current_floor: Floor,
    pub target_floor: Floor,
    pub state: PersonState,
    pub in_car: Option<CarId>,
}

/// Translate a person's action into the building command that carries it out.
pub fn person_action_to_cmd(action: PersonAction) -> (cmd: Option<ElevatorCommand>)
    ensures
        cmd == (match action {
            PersonAction::CallElevator { floor, direction } => Some(
                ElevatorCommand::PressOutButton { floor, direction },
            ),
            PersonAction::PressCarButton { car_id, floor } => Some(
                ElevatorCommand::PressCarButton { car_id, floor },
            ),
        }),
{
    match action {
        PersonAction::CallElevator { floor, direction } => Some(
            ElevatorCommand::PressOutButton { floor, direction },
        ),
        PersonAction::PressCarButton { car_id, floor } => Some(
            ElevatorCommand::PressCarButton { car_id, floor },
        ),
    }
}

/// Whether a car stands at floor `fl` (by rounded position) with its door
/// open — the condition under which a person perceives it as boardable.
pub open spec fn open_car_at(c: CarV, fl: Floor) -> bool {
    c.door_open && rounded_floor(c.current_floor) == fl
}

/// Whether some car of `cars` stands at floor `fl` with its door open.
pub open spec fn some_open_car_at(cars: Seq<CarV>, fl: Floor) -> bool {
    exists|j: int| 0 <= j < cars.len() && open_car_at(#[trigger] cars[j], fl)
}

/// The first car at or after index `i` that stands at floor `fl` with its
/// door open — the one a waiting person boards.
pub open spec fn first_open_car_from(cars: Seq<CarV>, fl: Floor, i: int) -> Option<int>
    decreases cars.len() - i,
{
    if i < 0 || i >= cars.len() {
        None
    } else if open_car_at(cars[i], fl) {
        Some(i)
    } else {
        first_open_car_from(cars, fl, i + 1)
    }
}

/// [`first_open_car_from`] finds a car exactly when an open car at the floor
/// exists at or after `i`, and what it finds is such a car.
pub proof fn lemma_first_open_car_exists(cars: Seq<CarV>, fl: Floor, i: int)
    requires
        0 <= i <= cars.len(),
    ensures
        first_open_car_from(cars, fl, i) is Some <==> exists|j: int|
            i <= j < cars.len() && open_car_at(#[trigger] cars[j], fl),
        (match first_open_car_from(cars, fl, i) {
            Some(j) => i <= j < cars.len() && open_car_at(cars[j], fl),
            None => true,
        }),
    decreases cars.len() - i,
{
    if i < cars.len() && !open_car_at(cars[i], fl) {
        lemma_first_open_car_exists(cars, fl, i + 1);
        if exists|j: int| i <= j < cars.len() && open_car_at(#[trigger] cars[j], fl) {
            let j = choose|j: int| i <= j < cars.len() && open_car_at(#[trigger] cars[j], fl);
            assert(j != i);
            assert(i + 1 <= j < cars.len() && open_car_at(cars[j], fl));
        }
    }
}

/// The direction a person asks for: up if the target is above the current
/// floor, else down.
pub open spec fn person_direction(p: Person) -> Direction {
    if p.target_floor > p.current_floor {
        Direction::Up
    } else {
        Direction::Down
    }
}

/// One step of a person's decision state machine against the cars of a
/// snapshot: a new person starts waiting; a waiting person boards the first
/// open car at their floor, if any; a riding person whose boarded car stands
/// open at their target floor steps out and is done.
pub open spec fn step_person(p: Person, cars: Seq<CarV>) -> Person {
    match p.state {
        PersonState::New => Person { state: PersonState::Waiting, ..p },
        PersonState::Waiting => {
            match first_open_car_from(cars, p.current_floor, 0) {
                Some(j) => Person { state: PersonState::Riding, in_car: Some(cars[j].id), ..p },
                None => p,
            }
        },
        PersonState::Riding => {
            match p.in_car {
                Some(cid) => {
                    if cid.0 < cars.len() && open_car_at(cars[cid.0 as int], p.target_floor) {
                        Person {
                            current_floor: p.target_floor,
                            in_car: None,
                            state: PersonState::Done,
                            ..p
                        }
                    } else {
                        p
                    }
                },
                None => p,
            }
        },
        PersonState::Done => p,
    }
}

/// The action a person emits in one step, if any: a new person calls a car
/// unless one is already open at their floor; a boarding person presses the
/// button for their target floor.
pub open spec fn person_action(p: Person, cars: Seq<CarV>) -> Option<PersonAction> {
    match p.state {
        PersonState::New => {
            if some_open_car_at(cars, p.current_floor) {
                None
            } else {
                Some(
                    PersonAction::CallElevator {
                        floor: p.current_floor,
                        direction: person_direction(p),
                    },
                )
            }
        },
        PersonState::Waiting => {
            match first_open_car_from(cars, p.current_floor, 0) {
                Some(j) => Some(
                    PersonAction::PressCarButton { car_id: cars[j].id, floor: p.target_floor },
                ),
                None => None,
            }
        },
        PersonState::Riding => None,
        PersonState::Done => None,
    }
}

/// An optional action as a sequence of zero or one actions.
pub open spec fn opt_action_seq(a: Option<PersonAction>) -> Seq<PersonAction> {
    match a {
        Some(x) => seq![x],
        None => Seq::empty(),
    }
}

/// The actions of the first `n` people, in order.
pub open spec fn actions_upto(people: Seq<Person>, cars: Seq<CarV>, n: int) -> Seq<PersonAction>
    decreases n,
{
    if n <= 0 {
        Seq::empty()
    } else {
        actions_upto(people, cars, n - 1) + opt_action_seq(person_action(people[n - 1], cars))
    }
}

/// Law: a person in `Waiting` starts riding exactly when some car stands at
/// the person's floor with its door open.
pub proof fn lemma_waiting_boards_only_with_open_car(p: Person, cars: Seq<CarV>)
    requires
        p.state is Waiting,
    ensures
        step_person(p, cars).state is Riding <==> some_open_car_at(cars, p.current_floor),
{
    lemma_first_open_car_exists(cars, p.current_floor, 0);
}

/// Law: a person in `Riding` is done exactly when the boarded car stands at
/// the person's target floor with its door open.
pub proof fn lemma_riding_completes_only_at_target(p: Person, cars: Seq<CarV>)
    requires
        p.state is Riding,
    ensures
        step_person(p, cars).state is Done <==> (match p.in_car {
            Some(cid) => cid.0 < cars.len() && open_car_at(cars[cid.0 as int], p.target_floor),
            None => false,
        }),
{
}

/// Mathematical model of the passenger simulation.
#[verifier::ext_equal]
pub ghost struct PeopleV {
    pub next_person_id: u32,
    pub num_floors: Floor,
    pub spawn_timer: u64,
    pub spawn_interval: u32,
    pub people: Seq<Person>,
}

/// Well-formedness of the passenger model: at least two floors (every
/// spawned person needs a target distinct from their start floor), the timer
/// never beyond the interval, ids dense in spawn order, every person's
/// floors inside the building, and nobody short of `Done` standing on their
/// target floor.
pub open spec fn wf_people(s: PeopleV) -> bool {
    &&& s.num_floors >= 2
    &&& s.spawn_timer <= s.spawn_interval
    &&& s.people.len() == s.next_person_id
    &&& forall|i: int| 0 <= i < s.people.len() ==> (#[trigger] s.people[i]).id == PersonId(i as u32)
    &&& forall|i: int|
        0 <= i < s.people.len() ==> (#[trigger] s.people[i]).current_floor < s.num_floors && s.people[
            i
        ].target_floor < s.num_floors
    &&& forall|i: int|
        0 <= i < s.people.len() && !((#[trigger] s.people[i]).state is Done)
            ==> s.people[i].current_floor != s.people[i].target_floor
}

/// The person the model spawns with the given id and floors: new, on floor
/// `start`, bound for `target`, riding nothing.
pub open spec fn spawned_person(id: u32, start: Floor, target: Floor) -> Person {
    Person {
        id: PersonId(id),
        current_floor: start,
        target_floor: target,
        state: PersonState::New,
        in_car: None,
    }
}

/// One possible outcome of an advance in which the timer fired: a person
/// with the given floors was spawned (distinct floors inside the building),
/// and everybody — the new person included — was stepped and emitted their
/// actions in order.
pub open spec fn spawn_outcome(
    pre: PeopleV,
    post: PeopleV,
    cars: Seq<CarV>,
    actions: Seq<PersonAction>,
    start: Floor,
    target: Floor,
) -> bool {
    let ppl = pre.people.push(spawned_person(pre.next_person_id, start, target));
    &&& start < pre.num_floors
    &&& target < pre.num_floors
    &&& start != target
    &&& post.people == ppl.map_values(|p: Person| step_person(p, cars))
    &&& actions == actions_upto(ppl, cars, ppl.len() as int)
}

/// What one advance of the passenger model does: the timer accumulates `dt`;
/// when it reaches the interval it resets and exactly one person spawns with
/// random distinct floors; then every person — spawned or not — takes one
/// step of their state machine against the snapshot's cars, emitting their
/// actions in spawn order.
pub open spec fn tick_rel(
    pre: PeopleV,
    post: PeopleV,
    cars: Seq<CarV>,
    dt: u32,
    actions: Seq<PersonAction>,
) -> bool {
    &&& post.num_floors == pre.num_floors
    &&& post.spawn_interval == pre.spawn_interval
    &&& if pre.spawn_timer as int + dt as int >= pre.spawn_interval as int {
        &&& post.spawn_timer == 0
        &&& post.next_person_id as int == pre.next_person_id as int + 1
        &&& exists|start: Floor, target: Floor|
            #[trigger] spawn_outcome(pre, post, cars, actions, start, target)
    } else {
        &&& post.spawn_timer as int == pre.spawn_timer as int + dt as int
        &&& post.next_person_id == pre.next_person_id
        &&& post.people == pre.people.map_values(|p: Person| step_person(p, cars))
        &&& actions == actions_upto(pre.people, cars, pre.people.len() as int)
    }
}

/// The passenger simulation: the population of people, the spawn timer, and
/// the id counter for the next person.
pub struct PeopleSim {
    next_person_id: u32,
    num_floors: Floor,
    spawn_timer: u64,
    spawn_interval: u32,
    people: Vec<Person>,
}

impl View for PeopleSim {
    type V = PeopleV;

    closed spec fn view(&self) -> PeopleV {
        PeopleV {
            next_person_id: self.next_person_id,
            num_floors: self.num_floors,
            spawn_timer: self.spawn_timer,
            spawn_interval: self.spawn_interval,
            people: self.people@,
        }
    }
}

/// Relies on `rand::rng` and `rand::Rng::random_range`: a uniformly random
/// value drawn from `0..num_floors`, so below `num_floors`. The range is
/// non-empty by the precondition, so the call cannot panic.
#[verifier::external_body]
fn random_floor(num_floors: Floor) -> (r: Floor)
    requires
        num_floors >= 1,
    ensures
        r < num_floors,
{
    rand::Rng::random_range(&mut rand::rng(), 0..num_floors)
}

impl PeopleSim {
    /// Well-formedness; established by [`PeopleSim::new`] and preserved by
    /// [`PeopleSim::tick`].
    pub open spec fn wf(&self) -> bool {
        wf_people(self@)
    }

    /// Create a passenger model for a building with `num_floors` floors and
    /// the given spawn interval (thousandths of a time unit). At least two
    /// floors are required, since every spawned person draws a target floor
    /// distinct from their start floor.
    pub fn new(num_floors: Floor, spawn_interval: u32) -> (sim: Self)
        requires
            num_floors >= 2,
        ensures
            sim.wf(),
            sim@ == (PeopleV {
                next_person_id: 0,
                num_floors,
                spawn_timer: 0,
                spawn_interval,
                people: Seq::empty(),
            }),
    {
        let sim = PeopleSim {
            next_person_id: 0,
            num_floors,
            spawn_timer: 0,
            spawn_interval,
            people: Vec::new(),
        };
        proof {
            assert(sim@ =~~= (PeopleV {
                next_person_id: 0,
                num_floors,
                spawn_timer: 0,
                spawn_interval,
                people: Seq::empty(),
            }));
        }
        sim
    }

    /// All people of the run, in spawn order; people are never removed, even
    /// once done.
    pub fn people(&self) -> (r: &[Person])
        ensures
            r@ == self@.people,
    {
        self.people.as_slice()
    }

    /// Advance the model by `dt` (thousandths of a time unit); see
    /// [`tick_rel`]. The length bound is a machine limit: the next person's
    /// id must fit a `u32`.
    pub fn tick(&mut self, dt: u32, building: &BuildingState) -> (actions: Vec<PersonAction>)
        requires
            old(self).wf(),
            old(self)@.people.len() + 1 <= u32::MAX,
        ensures
            final(self).wf(),
            tick_rel(old(self)@, final(self)@, building@.cars, dt, actions@),
    {
        let ghost cars = building@.cars;
        let mut actions: Vec<PersonAction> = Vec::new();
        let new_timer: u64 = self.spawn_timer + dt as u64;
        let fired: bool = new_timer >= self.spawn_interval as u64;
        let ghost g_start: Floor = 0;
        let ghost g_target: Floor = 0;
        if fired {
            self.spawn_timer = 0;
            let id = self.next_person_id;
            self.next_person_id = self.next_person_id + 1;
            let start_floor = random_floor(self.num_floors);
            let offset = random_floor(self.num_floors - 1);
            let sum: u64 = start_floor as u64 + 1 + offset as u64;
            let target_floor: Floor = if sum >= self.num_floors as u64 {
                (sum - self.num_floors as u64) as Floor
            } else {
                sum as Floor
            };
            proof {
                assert(target_floor < self.num_floors && target_floor != start_floor);
            }
            let person = Person {
                id: PersonId(id),
                current_floor: start_floor,
                target_floor,
                state: PersonState::New,
                in_car: None,
            };
            self.people.push(person);
            proof {
                g_start = start_floor;
                g_target = target_floor;
            }
        } else {
            self.spawn_timer = new_timer;
        }
        let ghost mid = self@;
        let ghost ppl = self@.people;
        let n = self.people.len();
        for i in 0..n
            invariant
                n == self@.people.len(),
                ppl.len() == n,
                self@.next_person_id == mid.next_person_id,
                self@.num_floors == mid.num_floors,
                self@.spawn_timer == mid.spawn_timer,
                self@.spawn_interval == mid.spawn_interval,
                forall|k: int|
                    0 <= k < i ==> #[trigger] self@.people[k] == step_person(ppl[k], cars),
                forall|k: int| i <= k < n ==> #[trigger] self@.people[k] == ppl[k],
                actions@ == actions_upto(ppl, cars, i as int),
                cars == building@.cars,
        {
            let p = self.people[i];
            let mut p2 = p;
            match p.state {
                PersonState::New => {
                    let found = Self::find_open_car(&building.cars, p.current_floor);
                    proof {
                        lemma_first_open_car_exists(cars, p.current_floor, 0);
                    }
                    if found.is_none() {
                        let direction = if p.target_floor > p.current_floor {
                            Direction::Up
                        } else {
                            Direction::Down
                        };
                        actions.push(
                            PersonAction::CallElevator { floor: p.current_floor, direction },
                        );
                    }
                    p2.state = PersonState::Waiting;
                },
                PersonState::Waiting => {
                    let found = Self::find_open_car(&building.cars, p.current_floor);
                    match found {
                        Some(ci) => {
                            let car_id = building.cars[ci].id;
                            actions.push(
                                PersonAction::PressCarButton { car_id, floor: p.target_floor },
                            );
                            p2.state = PersonState::Riding;
                            p2.in_car = Some(car_id);
                        },
                        None => {},
                    }
                },
                PersonState::Riding => {
                    match p.in_car {
                        Some(car_id) => {
                            let ci = car_id.0 as usize;
                            if ci < building.cars.len() {
                                let car = &building.cars[ci];
                                if car.door_open && nearest_floor(car.current_floor)
                                    == p.target_floor {
                                    p2.current_floor = p.target_floor;
                                    p2.in_car = None;
                                    p2.state = PersonState::Done;
                                }
                            }
                        },
                        None => {},
                    }
                },
                PersonState::Done => {},
            }
            self.people.set(i, p2);
            proof {
                assert(self@.people[i as int] == step_person(ppl[i as int], cars));
                assert(actions@ =~= actions_upto(ppl, cars, i + 1));
            }
        }
        proof {
            assert forall|k: int| 0 <= k < n implies {
                let q = #[trigger] self@.people[k];
                let p0 = ppl[k];
                &&& q == step_person(p0, cars)
                &&& q.id == p0.id
                &&& q.target_floor == p0.target_floor
                &&& (q.current_floor == p0.current_floor || (q.state is Done && q.current_floor
                    == p0.target_floor))
                &&& !(q.state is Done) ==> !(p0.state is Done) && q.current_floor
                    == p0.current_floor
            } by {
                assert(self@.people[k] == step_person(ppl[k], cars));
            }
            assert(self@.people =~~= ppl.map_values(|p: Person| step_person(p, cars)));
            if fired {
                assert(ppl =~~= old(self)@.people.push(
                    spawned_person(old(self)@.next_person_id, g_start, g_target),
                ));
                assert(spawn_outcome(old(self)@, self@, cars, actions@, g_start, g_target));
            }
            assert(wf_people(self@));
        }
        actions
    }

    /// The index of the first car whose door is open and whose rounded
    /// position is `fl`, if any; see [`first_open_car_from`].
    fn find_open_car(cars: &Vec<ElevatorCarState>, fl: Floor) -> (r: Option<usize>)
        ensures
            (match r {
                Some(j) => j < cars@.len() && first_open_car_from(
                    cars@.map_values(|c: ElevatorCarState| c@),
                    fl,
                    0,
                ) == Some(j as int),
                None => first_open_car_from(
                    cars@.map_values(|c: ElevatorCarState| c@),
                    fl,
                    0,
                ) is None,
            }),
    {
        let ghost cv = cars@.map_values(|c: ElevatorCarState| c@);
        let mut j: usize = 0;
        while j < cars.len()
            invariant
                cv == cars@.map_values(|c: ElevatorCarState| c@),
                cv.len() == cars@.len(),
                j <= cars@.len(),
                first_open_car_from(cv, fl, 0) == first_open_car_from(cv, fl, j as int),
            decreases cars@.len() - j,
        {
            let car = &cars[j];
            if car.door_open && nearest_floor(car.current_floor) == fl {
                proof {
                    assert(open_car_at(cv[j as int], fl));
                }
                return Some(j);
            }
            proof {
                assert(!open_car_at(cv[j as int], fl));
            }
            j += 1;
        }
        None
    }
}

} // verus!
