use dataset_engine::admission::{Admission, ConcurrencyController};

#[test]
fn never_more_permits_than_the_cap() {
    let mut controller = ConcurrencyController::new(2);
    assert_eq!(controller.max_permits(), 2);
    assert_eq!(controller.permits_held(), 0);
    assert_eq!(controller.try_admit(false), Admission::Admitted);
    assert_eq!(controller.try_admit(false), Admission::Admitted);
    assert_eq!(controller.try_admit(false), Admission::Busy);
    assert_eq!(controller.try_admit(false), Admission::Busy);
    assert_eq!(controller.permits_held(), 2);
}

#[test]
fn released_permit_can_be_taken_again() {
    let mut controller = ConcurrencyController::new(1);
    assert_eq!(controller.try_admit(false), Admission::Admitted);
    assert_eq!(controller.try_admit(false), Admission::Busy);
    controller.release();
    assert_eq!(controller.permits_held(), 0);
    assert_eq!(controller.try_admit(false), Admission::Admitted);
    assert_eq!(controller.permits_held(), 1);
}

#[test]
fn cancelled_task_gets_no_permit() {
    let mut controller = ConcurrencyController::new(3);
    assert_eq!(controller.try_admit(true), Admission::Cancelled);
    assert_eq!(controller.permits_held(), 0);
    assert_eq!(controller.try_admit(false), Admission::Admitted);
    assert_eq!(controller.try_admit(true), Admission::Cancelled);
    assert_eq!(controller.permits_held(), 1);
}

#[test]
fn controller_without_permits_admits_nobody() {
    let mut controller = ConcurrencyController::new(0);
    assert_eq!(controller.try_admit(false), Admission::Busy);
    assert_eq!(controller.permits_held(), 0);
}

#[test]
fn any_mix_of_requests_stays_within_the_cap() {
    let mut controller = ConcurrencyController::new(3);
    let mut round: usize = 0;
    while round < 200 {
        if round % 5 == 4 && controller.permits_held() > 0 {
            controller.release();
        } else {
            let _ = controller.try_admit(round % 7 == 0);
        }
        assert!(controller.permits_held() <= 3);
        round += 1;
    }
}
