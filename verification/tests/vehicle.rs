use ev_charging::error::SimError;
use ev_charging::vehicle::Vehicle;

#[test]
fn new_vehicle_is_charging() {
    let vehicle = Vehicle::new(1);
    assert!(vehicle.is_charging());
    assert_eq!(vehicle.left_to_charge(), 1);
}

#[test]
fn charge_delivers_what_is_offered_when_more_is_needed() {
    let mut vehicle = Vehicle::new(100);
    assert_eq!(vehicle.charge(30), Ok(30));
    assert_eq!(vehicle.left_to_charge(), 70);
    assert!(vehicle.is_charging());
}

#[test]
fn charge_delivers_no_more_than_is_needed() {
    let mut vehicle = Vehicle::new(100);
    assert_eq!(vehicle.charge(150), Ok(100));
    assert_eq!(vehicle.left_to_charge(), 0);
    assert!(!vehicle.is_charging());
}

#[test]
fn charge_of_exactly_the_need_finishes_the_vehicle() {
    let mut vehicle = Vehicle::new(39_600_000);
    assert_eq!(vehicle.charge(39_600_000), Ok(39_600_000));
    assert!(!vehicle.is_charging());
}

#[test]
fn charge_of_nothing_changes_nothing() {
    let mut vehicle = Vehicle::new(5);
    assert_eq!(vehicle.charge(0), Ok(0));
    assert_eq!(vehicle.left_to_charge(), 5);
    assert!(vehicle.is_charging());
}

#[test]
fn charge_is_refused_once_the_vehicle_is_done() {
    let mut vehicle = Vehicle::new(10);
    assert_eq!(vehicle.charge(10), Ok(10));
    assert_eq!(vehicle.charge(10), Err(SimError::NotCharging));
    assert_eq!(vehicle.charge(0), Err(SimError::NotCharging));
    assert_eq!(vehicle.left_to_charge(), 0);
}

#[test]
fn no_path_of_offers_delivers_more_than_the_demand() {
    let paths: Vec<Vec<u64>> = vec![
        vec![1, 1, 1, 1, 1, 1, 1, 1, 1, 1, 1, 1],
        vec![3, 0, 4, 0, 5],
        vec![9, 9],
        vec![10],
        vec![u64::MAX],
        vec![0, 0, 10, 7],
    ];
    for path in paths {
        let mut vehicle = Vehicle::new(10);
        let mut delivered: u64 = 0;
        for offer in path {
            if !vehicle.is_charging() {
                assert_eq!(vehicle.charge(offer), Err(SimError::NotCharging));
                continue;
            }
            delivered += vehicle.charge(offer).unwrap();
            assert!(delivered <= 10);
            assert_eq!(delivered + vehicle.left_to_charge(), 10);
            assert_eq!(vehicle.is_charging(), delivered < 10);
        }
        assert_eq!(delivered, 10);
        assert!(!vehicle.is_charging());
    }
}

#[test]
fn offers_below_the_demand_are_delivered_in_full() {
    let mut vehicle = Vehicle::new(100);
    let mut delivered: u64 = 0;
    for offer in [10u64, 20, 30] {
        delivered += vehicle.charge(offer).unwrap();
    }
    assert_eq!(delivered, 60);
    assert_eq!(vehicle.left_to_charge(), 40);
    assert!(vehicle.is_charging());
}
