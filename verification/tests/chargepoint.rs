use ev_charging::chargepoint::Chargepoint;
use ev_charging::vehicle::Vehicle;

#[test]
fn new_chargepoint_is_free() {
    let chargepoint = Chargepoint::new(11_000);
    assert_eq!(chargepoint.power_w, 11_000);
    assert!(chargepoint.vehicle.is_none());
    assert!(!chargepoint.is_charging());
}

#[test]
fn chargepoint_charges_while_its_vehicle_does() {
    let mut chargepoint = Chargepoint::new(11_000);
    chargepoint.vehicle = Some(Vehicle::new(50));
    assert!(chargepoint.is_charging());
    let delivered = chargepoint.vehicle.as_mut().unwrap().charge(20);
    assert_eq!(delivered, Ok(20));
    assert!(chargepoint.is_charging());
}

#[test]
fn chargepoint_with_a_finished_vehicle_is_not_charging() {
    let mut chargepoint = Chargepoint::new(11_000);
    chargepoint.vehicle = Some(Vehicle::new(50));
    let delivered = chargepoint.vehicle.as_mut().unwrap().charge(50);
    assert_eq!(delivered, Ok(50));
    assert!(chargepoint.vehicle.is_some());
    assert!(!chargepoint.is_charging());
}

#[test]
fn chargepoint_is_free_again_once_its_vehicle_is_taken_off() {
    let mut chargepoint = Chargepoint::new(22_000);
    chargepoint.vehicle = Some(Vehicle::new(1));
    assert!(chargepoint.is_charging());
    chargepoint.vehicle = None;
    assert!(!chargepoint.is_charging());
    assert_eq!(chargepoint.power_w, 22_000);
}
