use elevator_simulation::control::{BasicController, ElevatorController};
use elevator_simulation::elevator::{
    BuildingState, ElevatorCarState, ElevatorCommand, ElevatorSim, FloorState,
};
use elevator_simulation::people::{person_action_to_cmd, PeopleSim, PersonAction, PersonState};
use elevator_simulation::types::{CarId, Direction};

#[test]
fn call_elevator_to_press_out_button() {
    let cmd = person_action_to_cmd(PersonAction::CallElevator {
        floor: 3,
        direction: Direction::Up,
    });
    match cmd {
        Some(ElevatorCommand::PressOutButton { floor, .. }) => {
            assert_eq!(floor, 3)
        }
        _ => panic!(),
    }
}

#[test]
fn press_car_button_to_press_car_button() {
    let cmd = person_action_to_cmd(PersonAction::PressCarButton { car_id: CarId(0), floor: 3 });
    match cmd {
        Some(ElevatorCommand::PressCarButton { car_id, floor }) => {
            assert_eq!(car_id, CarId(0));
            assert_eq!(floor, 3)
        }
        _ => panic!(),
    }
}

fn empty_building() -> BuildingState {
    BuildingState { floors: Vec::new(), cars: Vec::new() }
}

fn car_open_at(id: u32, position: i64) -> ElevatorCarState {
    ElevatorCarState {
        id: CarId(id),
        current_floor: position,
        target_floor: None,
        door_open: true,
        car_buttons: vec![false, false],
    }
}

fn car_closed(id: u32) -> ElevatorCarState {
    ElevatorCarState {
        id: CarId(id),
        current_floor: 0,
        target_floor: None,
        door_open: false,
        car_buttons: vec![false, false],
    }
}

fn two_floor_records() -> Vec<FloorState> {
    vec![
        FloorState { floor: 0, out_up: false, out_down: false },
        FloorState { floor: 1, out_up: false, out_down: false },
    ]
}

#[test]
fn person_spawned_and_calls_elevator() {
    let mut sim = PeopleSim::new(5, 100);
    let building = empty_building();

    let actions = sim.tick(1000, &building);

    assert_eq!(sim.people().len(), 1);
    assert_eq!(actions.len(), 1);
}

#[test]
fn spawned_person_emits_hall_call() {
    let mut sim = PeopleSim::new(5, 100);
    let building = empty_building();
    let actions = sim.tick(1000, &building);
    assert_eq!(sim.people().len(), 1);
    assert_eq!(actions.len(), 1);
    let p = sim.people()[0];
    match actions[0] {
        PersonAction::CallElevator { floor, direction } => {
            assert_eq!(floor, p.current_floor);
            let expected = if p.target_floor > p.current_floor {
                Direction::Up
            } else {
                Direction::Down
            };
            assert_eq!(direction, expected);
        }
        _ => panic!(),
    }
    assert_eq!(p.state, PersonState::Waiting);
}

#[test]
fn spawn_timer_accumulates_to_interval() {
    let mut sim = PeopleSim::new(4, 3000);
    let building = empty_building();
    sim.tick(1000, &building);
    assert_eq!(sim.people().len(), 0);
    sim.tick(1000, &building);
    assert_eq!(sim.people().len(), 0);
    sim.tick(1000, &building);
    assert_eq!(sim.people().len(), 1);
}

#[test]
fn spawned_people_have_distinct_floors_in_range() {
    let mut sim = PeopleSim::new(2, 100);
    let building = empty_building();
    for _ in 0..10 {
        sim.tick(1000, &building);
    }
    assert_eq!(sim.people().len(), 10);
    for p in sim.people() {
        assert!(p.current_floor < 2);
        assert!(p.target_floor < 2);
        assert_ne!(p.current_floor, p.target_floor);
    }
}

#[test]
fn waiting_person_stays_without_open_car() {
    let mut sim = PeopleSim::new(2, 100);
    let building = empty_building();
    sim.tick(1000, &building);
    let actions = sim.tick(0, &building);
    assert!(actions.is_empty());
    assert_eq!(sim.people()[0].state, PersonState::Waiting);
}

#[test]
fn boarding_and_riding_lifecycle() {
    let mut sim = PeopleSim::new(2, 100);
    // Open cars standing at both floors: the spawned person skips the hall
    // call and can board at once, wherever they spawned.
    let all_open = BuildingState {
        floors: two_floor_records(),
        cars: vec![car_open_at(0, 0), car_open_at(1, 1000)],
    };
    let actions = sim.tick(1000, &all_open);
    assert_eq!(sim.people().len(), 1);
    assert!(actions.is_empty());
    assert_eq!(sim.people()[0].state, PersonState::Waiting);

    // The waiting person boards the first open car at their floor and
    // presses the button for their target.
    let actions = sim.tick(0, &all_open);
    assert_eq!(actions.len(), 1);
    let p = sim.people()[0];
    assert_eq!(p.state, PersonState::Riding);
    let boarded = p.in_car.expect("a riding person has a car");
    match actions[0] {
        PersonAction::PressCarButton { car_id, floor } => {
            assert_eq!(car_id, boarded);
            assert_eq!(floor, p.target_floor);
        }
        _ => panic!(),
    }

    // While the boarded car is closed elsewhere, the person keeps riding.
    let parked = BuildingState {
        floors: two_floor_records(),
        cars: vec![car_closed(0), car_closed(1)],
    };
    let actions = sim.tick(0, &parked);
    assert!(actions.is_empty());
    assert_eq!(sim.people()[0].state, PersonState::Riding);

    // Once that very car stands open at the target floor, the person steps
    // out and is done.
    let target = p.target_floor;
    let mut cars = vec![car_closed(0), car_closed(1)];
    cars[boarded.0 as usize] = car_open_at(boarded.0, (target as i64) * 1000);
    let arrival = BuildingState { floors: two_floor_records(), cars };
    let actions = sim.tick(0, &arrival);
    assert!(actions.is_empty());
    let p = sim.people()[0];
    assert_eq!(p.state, PersonState::Done);
    assert_eq!(p.current_floor, target);
    assert_eq!(p.in_car, None);
}

#[test]
fn quiet_step_produces_no_commands_or_intents() {
    // Three floors, one car, nothing pressed: one decision step yields
    // nothing from the passengers and nothing from the dispatcher.
    let mut people = PeopleSim::new(3, 10_000);
    let building = ElevatorSim::new(3, 1);
    let mut controller = BasicController;
    let intents = people.tick(100, building.state());
    assert!(intents.is_empty());
    let commands = controller.tick(building.state());
    assert!(commands.is_empty());
}
