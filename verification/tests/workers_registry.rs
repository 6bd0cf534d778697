//! The employee registry: admin gating, hiring, termination, re-hiring.

use nft_bazaar::workers::{EmployeeManagement, WorkersError};

const ADMIN: u128 = 0xAD;
const CARL: u128 = 0xCA71;
const DANA: u128 = 0xDA7A;

#[test]
fn only_the_admin_hires() {
    let mut reg = EmployeeManagement::new(ADMIN);
    assert_eq!(reg.get_admin(), ADMIN);
    assert_eq!(
        reg.add_employee(CARL, CARL, b"Carl".to_vec(), 1, 5000, 1700000000),
        Err(WorkersError::NotAdmin)
    );
    assert!(!reg.is_active_employee(CARL));
}

#[test]
fn hiring_stores_the_full_record() {
    let mut reg = EmployeeManagement::new(ADMIN);
    let id = reg.add_employee(ADMIN, CARL, b"Carl".to_vec(), 7, 5000, 1700000000).unwrap();
    assert_eq!(id, 1);
    assert!(reg.is_active_employee(CARL));
    assert_eq!(
        reg.get_employee(CARL),
        (1, CARL, b"Carl".to_vec(), 7, 5000, 1700000000, true)
    );
}

#[test]
fn the_zero_identity_is_refused() {
    let mut reg = EmployeeManagement::new(ADMIN);
    assert_eq!(
        reg.add_employee(ADMIN, 0, b"Nobody".to_vec(), 1, 1, 1),
        Err(WorkersError::InvalidAddress)
    );
}

#[test]
fn an_active_employee_cannot_be_hired_twice() {
    let mut reg = EmployeeManagement::new(ADMIN);
    reg.add_employee(ADMIN, CARL, b"Carl".to_vec(), 1, 5000, 10).unwrap();
    assert_eq!(
        reg.add_employee(ADMIN, CARL, b"Carl again".to_vec(), 2, 9000, 20),
        Err(WorkersError::AlreadyExists)
    );
    assert_eq!(reg.get_employee(CARL).3, 1);
}

#[test]
fn termination_keeps_the_record_inactive() {
    let mut reg = EmployeeManagement::new(ADMIN);
    reg.add_employee(ADMIN, CARL, b"Carl".to_vec(), 1, 5000, 10).unwrap();
    assert_eq!(reg.terminate_employee(CARL, CARL), Err(WorkersError::NotAdmin));
    assert_eq!(reg.terminate_employee(ADMIN, DANA), Err(WorkersError::NotFound));
    assert_eq!(reg.terminate_employee(ADMIN, CARL), Ok(()));
    assert!(!reg.is_active_employee(CARL));
    assert_eq!(reg.get_employee(CARL), (1, CARL, b"Carl".to_vec(), 1, 5000, 10, false));
    assert_eq!(reg.terminate_employee(ADMIN, CARL), Err(WorkersError::NotFound));
}

#[test]
fn rehiring_overwrites_under_a_fresh_id() {
    let mut reg = EmployeeManagement::new(ADMIN);
    reg.add_employee(ADMIN, CARL, b"Carl".to_vec(), 1, 5000, 10).unwrap();
    let dana_id = reg.add_employee(ADMIN, DANA, b"Dana".to_vec(), 2, 7000, 11).unwrap();
    assert_eq!(dana_id, 2);
    reg.terminate_employee(ADMIN, CARL).unwrap();
    let new_id = reg.add_employee(ADMIN, CARL, b"Carl II".to_vec(), 3, 6000, 12).unwrap();
    assert_eq!(new_id, 3);
    assert_eq!(reg.get_employee(CARL), (3, CARL, b"Carl II".to_vec(), 3, 6000, 12, true));
    assert_eq!(reg.get_employee(DANA), (2, DANA, b"Dana".to_vec(), 2, 7000, 11, true));
}

#[test]
fn a_never_hired_identity_reads_as_zero() {
    let reg = EmployeeManagement::new(ADMIN);
    assert_eq!(reg.get_employee(DANA), (0, 0, Vec::new(), 0, 0, 0, false));
}
