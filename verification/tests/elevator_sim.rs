use elevator_simulation::elevator::{ElevatorCommand, ElevatorSim};
use elevator_simulation::types::{CarId, Direction};

#[test]
fn press_out_button() {
    let mut sim = ElevatorSim::new(3, 1);

    sim.apply_command(ElevatorCommand::PressOutButton { floor: 1, direction: Direction::Up });

    assert!(sim.state().floors[1].out_up);
    assert!(!sim.state().floors[1].out_down);
}

#[test]
fn press_car_button() {
    let mut sim = ElevatorSim::new(3, 1);
    sim.apply_command(ElevatorCommand::PressCarButton { car_id: CarId(0), floor: 2 });

    assert!(sim.state().cars[0].car_buttons[2])
}

#[test]
fn tick_moves_car() {
    let mut sim = ElevatorSim::new(3, 1);
    sim.apply_command(ElevatorCommand::MoveCarTo { car_id: CarId(0), floor: 1 });
    sim.tick(1000);
    let car = &sim.state().cars[0];
    assert!(car.target_floor == Some(1));
    assert!(car.current_floor != 0);
}

#[test]
fn new_building_initial_state() {
    let sim = ElevatorSim::new(4, 2);
    let state = sim.state();
    assert_eq!(state.floors.len(), 4);
    assert_eq!(state.cars.len(), 2);
    for (i, floor) in state.floors.iter().enumerate() {
        assert_eq!(floor.floor as usize, i);
        assert!(!floor.out_up);
        assert!(!floor.out_down);
    }
    for (i, car) in state.cars.iter().enumerate() {
        assert_eq!(car.id, CarId(i as u32));
        assert_eq!(car.current_floor, 0);
        assert_eq!(car.target_floor, None);
        assert!(!car.door_open);
        assert_eq!(car.car_buttons.len(), 4);
        assert!(car.car_buttons.iter().all(|b| !b));
    }
}

#[test]
fn press_hall_button_twice_is_idempotent() {
    let mut sim = ElevatorSim::new(3, 1);
    sim.apply_command(ElevatorCommand::PressOutButton { floor: 2, direction: Direction::Down });
    let once = sim.state().clone();
    sim.apply_command(ElevatorCommand::PressOutButton { floor: 2, direction: Direction::Down });
    assert_eq!(sim.state(), &once);
}

#[test]
fn move_command_sets_target_and_closes_door() {
    let mut sim = ElevatorSim::new(3, 1);
    // Bring the car to floor 1 with its door open first.
    sim.apply_command(ElevatorCommand::MoveCarTo { car_id: CarId(0), floor: 1 });
    sim.tick(1000);
    sim.tick(0);
    assert!(sim.state().cars[0].door_open);
    sim.apply_command(ElevatorCommand::MoveCarTo { car_id: CarId(0), floor: 2 });
    let car = &sim.state().cars[0];
    assert_eq!(car.target_floor, Some(2));
    assert!(!car.door_open);
}

#[test]
fn car_reaches_floor_and_opens_door() {
    let mut sim = ElevatorSim::new(3, 1);
    sim.apply_command(ElevatorCommand::PressOutButton { floor: 1, direction: Direction::Up });
    sim.apply_command(ElevatorCommand::PressCarButton { car_id: CarId(0), floor: 1 });
    sim.apply_command(ElevatorCommand::MoveCarTo { car_id: CarId(0), floor: 1 });
    // One time unit at unit speed covers the single floor exactly.
    sim.tick(1000);
    assert_eq!(sim.state().cars[0].current_floor, 1000);
    // The advance that observes the car within the threshold settles it:
    // target cleared, door open, hall and car buttons cleared, all at once.
    sim.tick(0);
    let car = &sim.state().cars[0];
    assert_eq!(car.current_floor, 1000);
    assert_eq!(car.target_floor, None);
    assert!(car.door_open);
    assert!(!car.car_buttons[1]);
    assert!(!sim.state().floors[1].out_up);
    assert!(!sim.state().floors[1].out_down);
}

#[test]
fn out_of_range_commands_are_noops() {
    let mut sim = ElevatorSim::new(3, 1);
    let before = sim.state().clone();
    sim.apply_command(ElevatorCommand::PressOutButton { floor: 9, direction: Direction::Up });
    sim.apply_command(ElevatorCommand::PressCarButton { car_id: CarId(7), floor: 1 });
    sim.apply_command(ElevatorCommand::PressCarButton { car_id: CarId(0), floor: 9 });
    sim.apply_command(ElevatorCommand::MoveCarTo { car_id: CarId(7), floor: 1 });
    assert_eq!(sim.state(), &before);
}

#[test]
fn tick_without_target_leaves_car_alone() {
    let mut sim = ElevatorSim::new(3, 1);
    sim.tick(5000);
    let car = &sim.state().cars[0];
    assert_eq!(car.current_floor, 0);
    assert_eq!(car.target_floor, None);
    assert!(!car.door_open);
}
