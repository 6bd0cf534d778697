//! A plain employee registry: admin-gated creation and termination of
//! employee records, keyed by the employee's identity.
//!
//! The registry is one explicit value, [`EmployeeManagement`]; the caller
//! identity and the hire timestamp are explicit arguments. Its abstract model
//! is [`WorkersView`], a sequence of employee records with pairwise distinct
//! identities, plus the admin and the running hire counter.

use vstd::prelude::*;

verus! {

use crate::bazaar::NO_IDENTITY;

/// One employee record. Once added it is never removed; termination only
/// clears the active flag. Re-hiring the same identity overwrites the record
/// under a fresh id.
pub struct Employee {
    pub id: u128,
    pub employee_address: u128,
    pub name: Vec<u8>,
    pub department: u128,
    pub hire_date: u128,
    pub is_active: bool,
    pub salary: u128,
}

/// The abstract content of one employee record.
#[verifier::ext_equal]
pub struct EmployeeView {
    pub id: u128,
    pub employee_address: u128,
    pub name: Seq<u8>,
    pub department: u128,
    pub hire_date: u128,
    pub is_active: bool,
    pub salary: u128,
}

impl View for Employee {
    type V = EmployeeView;

    open spec fn view(&self) -> EmployeeView {
        EmployeeView {
            id: self.id,
            employee_address: self.employee_address,
            name: self.name@,
            department: self.department,
            hire_date: self.hire_date,
            is_active: self.is_active,
            salary: self.salary,
        }
    }
}

/// The reason a registry operation was refused.
#[derive(Clone, Copy, PartialEq, Eq, Structural, Debug)]
pub enum WorkersError {
    /// The caller is not the registry admin.
    NotAdmin,
    /// The employee identity is the unset sentinel.
    InvalidAddress,
    /// An active employee already exists under this identity.
    AlreadyExists,
    /// No active employee exists under this identity.
    NotFound,
}

/// The record a never-hired identity reads as.
pub open spec fn zero_employee() -> EmployeeView {
    EmployeeView {
        id: 0,
        employee_address: NO_IDENTITY,
        name: Seq::empty(),
        department: 0,
        hire_date: 0,
        is_active: false,
        salary: 0,
    }
}

/// The record stored under `addr`, or the zero record if there is none.
pub open spec fn emp_rec(emps: Seq<EmployeeView>, addr: u128) -> EmployeeView
    decreases emps.len(),
{
    if emps.len() == 0 {
        zero_employee()
    } else if emps.last().employee_address == addr {
        emps.last()
    } else {
        emp_rec(emps.drop_last(), addr)
    }
}

/// Whether some record is stored under `addr`.
pub open spec fn has_emp(emps: Seq<EmployeeView>, addr: u128) -> bool {
    exists|i: int| 0 <= i < emps.len() && emps[i].employee_address == addr
}

/// The abstract state of the registry.
#[verifier::ext_equal]
pub struct WorkersView {
    pub admin: u128,
    pub employee_count: u128,
    pub employees: Seq<EmployeeView>,
}

impl WorkersView {
    /// Well-formedness: identities are pairwise distinct, and no record is
    /// stored under the unset sentinel.
    pub open spec fn inv(self) -> bool {
        &&& forall|i: int, j: int|
            0 <= i < j < self.employees.len() ==> (#[trigger] self.employees[i]).employee_address
                != (#[trigger] self.employees[j]).employee_address
        &&& forall|i: int|
            0 <= i < self.employees.len() ==> (#[trigger] self.employees[i]).employee_address
                != NO_IDENTITY
    }
}

/// Under distinct identities, updating the record at the position that holds
/// `addr` rewrites what `addr` reads as and leaves every other identity's
/// reading unchanged.
proof fn lemma_emp_rec_update(emps: Seq<EmployeeView>, i: int, rec: EmployeeView, addr: u128)
    requires
        0 <= i < emps.len(),
        emps[i].employee_address == addr,
        rec.employee_address == addr,
        forall|p: int, q: int|
            0 <= p < q < emps.len() ==> (#[trigger] emps[p]).employee_address != (
            #[trigger] emps[q]).employee_address,
    ensures
        forall|a: u128|
            #[trigger] emp_rec(emps.update(i, rec), a) == if a == addr {
                rec
            } else {
                emp_rec(emps, a)
            },
    decreases emps.len(),
{
    let updated = emps.update(i, rec);
    if i == emps.len() - 1 {
        assert(updated.last() == rec);
        assert(updated.drop_last() =~= emps.drop_last());
        assert forall|a: u128|
            #[trigger] emp_rec(updated, a) == if a == addr {
                rec
            } else {
                emp_rec(emps, a)
            } by {
            if a != addr {
                assert(emp_rec(updated, a) == emp_rec(updated.drop_last(), a));
                assert(emp_rec(emps, a) == emp_rec(emps.drop_last(), a));
            }
        }
    } else {
        assert(updated.last() == emps.last());
        assert(updated.drop_last() =~= emps.drop_last().update(i, rec));
        assert forall|p: int, q: int| 0 <= p < q < emps.drop_last().len() implies (
        #[trigger] emps.drop_last()[p]).employee_address != (
        #[trigger] emps.drop_last()[q]).employee_address by {
            assert(emps.drop_last()[p] == emps[p] && emps.drop_last()[q] == emps[q]);
        }
        assert(emps.drop_last()[i] == emps[i]);
        lemma_emp_rec_update(emps.drop_last(), i, rec, addr);
        assert(emps.last().employee_address != addr);
        assert forall|a: u128|
            #[trigger] emp_rec(updated, a) == if a == addr {
                rec
            } else {
                emp_rec(emps, a)
            } by {
            if a == updated.last().employee_address {
                assert(emp_rec(updated, a) == updated.last());
                assert(emp_rec(emps, a) == emps.last());
            } else {
                assert(emp_rec(updated, a) == emp_rec(updated.drop_last(), a));
                assert(emp_rec(emps, a) == emp_rec(emps.drop_last(), a));
                assert(emp_rec(updated.drop_last(), a) == emp_rec(
                    emps.drop_last().update(i, rec),
                    a,
                ));
            }
        }
    }
}

/// Appending a record under a fresh identity leaves every other identity's
/// reading unchanged.
proof fn lemma_emp_rec_push(emps: Seq<EmployeeView>, rec: EmployeeView)
    ensures
        forall|a: u128|
            #[trigger] emp_rec(emps.push(rec), a) == if a == rec.employee_address {
                rec
            } else {
                emp_rec(emps, a)
            },
{
    assert(emps.push(rec).drop_last() =~= emps);
}

/// The employee registry. See the module documentation.
pub struct EmployeeManagement {
    admin: u128,
    employee_count: u128,
    employees: Vec<Employee>,
}

impl View for EmployeeManagement {
    type V = WorkersView;

    closed spec fn view(&self) -> WorkersView {
        WorkersView {
            admin: self.admin,
            employee_count: self.employee_count,
            employees: Seq::new(self.employees@.len(), |i: int| self.employees@[i]@),
        }
    }
}

impl EmployeeManagement {
    /// A fresh registry administered by `caller`, with no employees.
    pub fn new(caller: u128) -> (r: EmployeeManagement)
        ensures
            r@.admin == caller,
            r@.employee_count == 0,
            r@.employees =~= Seq::<EmployeeView>::empty(),
            r@.inv(),
    {
        EmployeeManagement { admin: caller, employee_count: 0, employees: Vec::new() }
    }

    /// Refuse every caller but the admin.
    fn only_admin(&self, caller: u128) -> (r: Result<(), WorkersError>)
        ensures
            r is Ok <==> caller == self@.admin,
            r is Err ==> r == Err::<(), WorkersError>(WorkersError::NotAdmin),
    {
        if caller != self.admin {
            Err(WorkersError::NotAdmin)
        } else {
            Ok(())
        }
    }

    /// The position of the record stored under `addr`, if any.
    fn find_employee(&self, addr: u128) -> (r: Option<usize>)
        requires
            self@.inv(),
        ensures
            match r {
                Some(i) => i < self@.employees.len() && self@.employees[i as int].employee_address
                    == addr,
                None => !has_emp(self@.employees, addr),
            },
    {
        let n = self.employees.len();
        let mut i: usize = 0;
        while i < n
            invariant
                i <= n,
                n == self.employees@.len(),
                self@.employees.len() == self.employees@.len(),
                forall|j: int|
                    0 <= j < i ==> (#[trigger] self@.employees[j]).employee_address != addr,
                forall|j: int|
                    0 <= j < n ==> (#[trigger] self@.employees[j]).employee_address
                        == self.employees@[j].employee_address,
            decreases n - i,
        {
            if self.employees[i].employee_address == addr {
                return Some(i);
            }
            i += 1;
        }
        None
    }

    /// Hire `employee_address` (admin only): refuse the unset identity and
    /// identities with an active record; otherwise store a full record under
    /// the next id (`hire_date` is the caller-supplied clock reading) and
    /// return that id. A terminated identity is re-hired by overwriting its
    /// record.
    pub fn add_employee(
        &mut self,
        caller: u128,
        employee_address: u128,
        name: Vec<u8>,
        department: u128,
        salary: u128,
        hire_date: u128,
    ) -> (r: Result<u128, WorkersError>)
        requires
            old(self)@.inv(),
            old(self)@.employee_count < u128::MAX,
        ensures
            final(self)@.inv(),
            r is Err ==> final(self)@ == old(self)@,
            caller != old(self)@.admin ==> r == Err::<u128, WorkersError>(WorkersError::NotAdmin),
            caller == old(self)@.admin && employee_address == NO_IDENTITY ==> r == Err::<
                u128,
                WorkersError,
            >(WorkersError::InvalidAddress),
            caller == old(self)@.admin && employee_address != NO_IDENTITY && emp_rec(
                old(self)@.employees,
                employee_address,
            ).is_active ==> r == Err::<u128, WorkersError>(WorkersError::AlreadyExists),
            caller == old(self)@.admin && employee_address != NO_IDENTITY && !emp_rec(
                old(self)@.employees,
                employee_address,
            ).is_active ==> {
                let new_id = (old(self)@.employee_count + 1) as u128;
                &&& r == Ok::<u128, WorkersError>(new_id)
                &&& final(self)@.admin == old(self)@.admin
                &&& final(self)@.employee_count == new_id
                &&& forall|a: u128|
                    #[trigger] emp_rec(final(self)@.employees, a) == if a == employee_address {
                        EmployeeView {
                            id: new_id,
                            employee_address,
                            name: name@,
                            department,
                            hire_date,
                            is_active: true,
                            salary,
                        }
                    } else {
                        emp_rec(old(self)@.employees, a)
                    }
            },
    {
        if let Err(e) = self.only_admin(caller) {
            return Err(e);
        }
        if employee_address == NO_IDENTITY {
            return Err(WorkersError::InvalidAddress);
        }
        let found = self.find_employee(employee_address);
        proof {
            if found is None {
                lemma_emp_rec_absent(self@.employees, employee_address);
            }
        }
        match found {
            Some(i) => {
                if self.employees[i].is_active {
                    proof {
                        lemma_emp_rec_at_index(self@.employees, i as int, employee_address);
                    }
                    return Err(WorkersError::AlreadyExists);
                }
                proof {
                    lemma_emp_rec_at_index(self@.employees, i as int, employee_address);
                }
                let new_id = self.employee_count + 1;
                let ghost name_view = name@;
                self.employees[i].id = new_id;
                self.employees[i].employee_address = employee_address;
                self.employees[i].name = name;
                self.employees[i].department = department;
                self.employees[i].hire_date = hire_date;
                self.employees[i].is_active = true;
                self.employees[i].salary = salary;
                self.employee_count = new_id;
                proof {
                    let rec = EmployeeView {
                        id: new_id,
                        employee_address,
                        name: name_view,
                        department,
                        hire_date,
                        is_active: true,
                        salary,
                    };
                    assert(self@.employees =~= old(self)@.employees.update(i as int, rec));
                    lemma_emp_rec_update(
                        old(self)@.employees,
                        i as int,
                        rec,
                        employee_address,
                    );
                }
                Ok(new_id)
            },
            None => {
                let new_id = self.employee_count + 1;
                let rec = Employee {
                    id: new_id,
                    employee_address,
                    name,
                    department,
                    hire_date,
                    is_active: true,
                    salary,
                };
                self.employees.push(rec);
                self.employee_count = new_id;
                proof {
                    assert(self@.employees =~= old(self)@.employees.push(
                        self@.employees.last(),
                    ));
                    lemma_emp_rec_push(old(self)@.employees, self@.employees.last());
                }
                Ok(new_id)
            },
        }
    }

    /// Terminate the active employee under `employee_address` (admin only):
    /// the record stays, with its active flag cleared.
    pub fn terminate_employee(&mut self, caller: u128, employee_address: u128) -> (r: Result<
        (),
        WorkersError,
    >)
        requires
            old(self)@.inv(),
        ensures
            final(self)@.inv(),
            r is Err ==> final(self)@ == old(self)@,
            caller != old(self)@.admin ==> r == Err::<(), WorkersError>(WorkersError::NotAdmin),
            caller == old(self)@.admin && !emp_rec(
                old(self)@.employees,
                employee_address,
            ).is_active ==> r == Err::<(), WorkersError>(WorkersError::NotFound),
            caller == old(self)@.admin && emp_rec(
                old(self)@.employees,
                employee_address,
            ).is_active ==> {
                &&& r is Ok
                &&& final(self)@.admin == old(self)@.admin
                &&& final(self)@.employee_count == old(self)@.employee_count
                &&& forall|a: u128|
                    #[trigger] emp_rec(final(self)@.employees, a) == if a == employee_address {
                        EmployeeView {
                            is_active: false,
                            ..emp_rec(old(self)@.employees, employee_address)
                        }
                    } else {
                        emp_rec(old(self)@.employees, a)
                    }
            },
    {
        if let Err(e) = self.only_admin(caller) {
            return Err(e);
        }
        let found = self.find_employee(employee_address);
        proof {
            if found is None {
                lemma_emp_rec_absent(self@.employees, employee_address);
            }
        }
        match found {
            Some(i) => {
                proof {
                    lemma_emp_rec_at_index(self@.employees, i as int, employee_address);
                }
                if !self.employees[i].is_active {
                    return Err(WorkersError::NotFound);
                }
                self.employees[i].is_active = false;
                proof {
                    let rec = EmployeeView {
                        is_active: false,
                        ..emp_rec(old(self)@.employees, employee_address)
                    };
                    assert(self@.employees =~= old(self)@.employees.update(i as int, rec));
                    lemma_emp_rec_update(
                        old(self)@.employees,
                        i as int,
                        rec,
                        employee_address,
                    );
                }
                Ok(())
            },
            None => Err(WorkersError::NotFound),
        }
    }

    /// Read-only snapshot of the record under `employee_address` as the
    /// tuple `(id, employee_address, name, department, salary, hire_date,
    /// is_active)`; a never-hired identity yields the zero record.
    pub fn get_employee(&self, employee_address: u128) -> (r: (
        u128,
        u128,
        Vec<u8>,
        u128,
        u128,
        u128,
        bool,
    ))
        requires
            self@.inv(),
        ensures
            ({
                let rec = emp_rec(self@.employees, employee_address);
                &&& r.0 == rec.id
                &&& r.1 == rec.employee_address
                &&& r.2@ == rec.name
                &&& r.3 == rec.department
                &&& r.4 == rec.salary
                &&& r.5 == rec.hire_date
                &&& r.6 == rec.is_active
            }),
    {
        let found = self.find_employee(employee_address);
        proof {
            if found is None {
                lemma_emp_rec_absent(self@.employees, employee_address);
            }
        }
        match found {
            Some(i) => {
                proof {
                    lemma_emp_rec_at_index(self@.employees, i as int, employee_address);
                }
                let e = &self.employees[i];
                let mut name: Vec<u8> = Vec::new();
                let mut k: usize = 0;
                while k < e.name.len()
                    invariant
                        k <= e.name@.len(),
                        name@ =~= e.name@.take(k as int),
                    decreases e.name@.len() - k,
                {
                    name.push(e.name[k]);
                    proof {
                        assert(name@ =~= e.name@.take(k as int + 1));
                    }
                    k += 1;
                }
                proof {
                    assert(name@ =~= e.name@);
                }
                (e.id, e.employee_address, name, e.department, e.salary, e.hire_date, e.is_active)
            },
            None => (0, NO_IDENTITY, Vec::new(), 0, 0, 0, false),
        }
    }

    /// Whether an active employee is stored under `employee_address`.
    pub fn is_active_employee(&self, employee_address: u128) -> (r: bool)
        requires
            self@.inv(),
        ensures
            r == emp_rec(self@.employees, employee_address).is_active,
    {
        let found = self.find_employee(employee_address);
        proof {
            if found is None {
                lemma_emp_rec_absent(self@.employees, employee_address);
            }
        }
        match found {
            Some(i) => {
                proof {
                    lemma_emp_rec_at_index(self@.employees, i as int, employee_address);
                }
                self.employees[i].is_active
            },
            None => false,
        }
    }

    /// The registry admin's identity.
    pub fn get_admin(&self) -> (r: u128)
        ensures
            r == self@.admin,
    {
        self.admin
    }
}

/// An identity with no record reads as the zero record.
proof fn lemma_emp_rec_absent(emps: Seq<EmployeeView>, addr: u128)
    requires
        !has_emp(emps, addr),
    ensures
        emp_rec(emps, addr) == zero_employee(),
    decreases emps.len(),
{
    if emps.len() > 0 {
        assert(forall|i: int|
            0 <= i < emps.drop_last().len() ==> emps.drop_last()[i] == emps[i]);
        lemma_emp_rec_absent(emps.drop_last(), addr);
    }
}

/// Under distinct identities, the record read for `addr` is exactly the one
/// stored at the position that holds `addr`.
proof fn lemma_emp_rec_at_index(emps: Seq<EmployeeView>, i: int, addr: u128)
    requires
        0 <= i < emps.len(),
        emps[i].employee_address == addr,
        forall|p: int, q: int|
            0 <= p < q < emps.len() ==> (#[trigger] emps[p]).employee_address != (
            #[trigger] emps[q]).employee_address,
    ensures
        emp_rec(emps, addr) == emps[i],
    decreases emps.len(),
{
    if i < emps.len() - 1 {
        assert(emps.last().employee_address != addr);
        assert(forall|j: int|
            0 <= j < emps.drop_last().len() ==> emps.drop_last()[j] == emps[j]);
        lemma_emp_rec_at_index(emps.drop_last(), i, addr);
    }
}

} // verus!
