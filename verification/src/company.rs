use vstd::prelude::*;
use vstd::string::*;

use crate::text::str_eq;

verus! {

/// A position held by an employee.
#[derive(Clone)]
pub struct Job {
    pub title: String,
    pub salary: u32,
    pub job_type: JobType,
}

/// Whether a position is held full or part time.
#[derive(Clone)]
pub enum JobType {
    FullTime,
    PartTime,
}

/// One employee record.
#[derive(Clone)]
pub struct Employee {
    pub name: String,
    pub age: u8,
    pub job: Job,
}

impl Employee {
    pub fn new(name: String, age: u8, job: Job) -> (e: Employee)
        ensures
            e.name == name,
            e.age == age,
            e.job == job,
    {
        Employee { name, age, job }
    }

    pub fn get_name(&self) -> (r: &str)
        ensures
            r@ == self.name@,
    {
        self.name.as_str()
    }

    pub fn get_age(&self) -> (r: u8)
        ensures
            r == self.age,
    {
        self.age
    }

    pub fn get_job(&self) -> (r: &Job)
        ensures
            *r == self.job,
    {
        &self.job
    }
}

/// A named department and the employees assigned to it.
pub struct Department {
    pub name: String,
    pub employees: Vec<Employee>,
}

/// The first index at or after `from` of an employee named `name`,
/// or `emps.len()` if there is none.
pub open spec fn find_by_name(emps: Seq<Employee>, from: int, name: Seq<char>) -> int
    decreases emps.len() - from,
{
    if !(0 <= from < emps.len()) {
        emps.len() as int
    } else if emps[from].name@ == name {
        from
    } else {
        find_by_name(emps, from + 1, name)
    }
}

proof fn lemma_find_by_name_is(emps: Seq<Employee>, from: int, name: Seq<char>, i: int)
    requires
        0 <= from <= i <= emps.len(),
        forall|j: int| from <= j < i ==> emps[j].name@ != name,
        i < emps.len() ==> emps[i].name@ == name,
    ensures
        find_by_name(emps, from, name) == i,
    decreases i - from,
{
    if from < i {
        lemma_find_by_name_is(emps, from + 1, name, i);
    }
}

/// A company: a flat list of employees, and departments that each
/// hold their own membership list. Department names are unique.
pub struct Company {
    pub name: String,
    pub employees: Vec<Employee>,
    pub departments: Vec<Department>,
}

impl Company {
    /// Department names never repeat.
    pub open spec fn wf(&self) -> bool {
        forall|i: int, j: int|
            0 <= i < j < self.departments@.len() ==> self.departments@[i].name@
                != self.departments@[j].name@
    }

    /// Is there a department of this name?
    pub open spec fn has_dept(&self, name: Seq<char>) -> bool {
        exists|i: int| 0 <= i < self.departments@.len() && self.departments@[i].name@ == name
    }

    /// The index of the department of this name.
    pub open spec fn dept_idx(&self, name: Seq<char>) -> int {
        choose|i: int| 0 <= i < self.departments@.len() && self.departments@[i].name@ == name
    }

    pub fn new(name: String) -> (c: Company)
        ensures
            c.name == name,
            c.employees@ == Seq::<Employee>::empty(),
            c.departments@ == Seq::<Department>::empty(),
            c.wf(),
    {
        let c = Company { name, employees: Vec::new(), departments: Vec::new() };
        proof {
            assert(c.employees@ =~= Seq::<Employee>::empty());
            assert(c.departments@ =~= Seq::<Department>::empty());
        }
        c
    }

    pub fn add_employee(&mut self, employee: Employee)
        ensures
            final(self).name == old(self).name,
            final(self).departments == old(self).departments,
            final(self).employees@ == old(self).employees@.push(employee),
            old(self).wf() ==> final(self).wf(),
    {
        self.employees.push(employee);
    }

    pub fn get_employees(&self) -> (r: &Vec<Employee>)
        ensures
            r@ == self.employees@,
    {
        &self.employees
    }

    /// Create a department of this name with no members. A department
    /// of the same name that already exists is replaced, losing its
    /// members.
    pub fn add_new_department(&mut self, department: String)
        requires
            old(self).wf(),
        ensures
            final(self).name == old(self).name,
            final(self).employees == old(self).employees,
            final(self).wf(),
            final(self).has_dept(department@),
            old(self).has_dept(department@) ==> {
                let idx = old(self).dept_idx(department@);
                final(self).departments@.len() == old(self).departments@.len()
                    && (forall|j: int|
                    0 <= j < old(self).departments@.len() && j != idx ==> final(self).departments@[j] == old(self).departments@[j]) && final(self).departments@[idx].name == department && final(self).departments@[idx].employees@ == Seq::<Employee>::empty()
            },
            !old(self).has_dept(department@) ==> final(self).departments@.len() == old(self).departments@.len() + 1 && (forall|j: int|
                0 <= j < old(self).departments@.len() ==> final(self).departments@[j] == old(self).departments@[j]) && final(self).departments@.last().name == department && final(self).departments@.last().employees@ == Seq::<Employee>::empty(),
    {
        let n = self.departments.len();
        let mut i: usize = 0;
        while i < n
            invariant
                self == old(self),
                old(self).wf(),
                n == self.departments@.len(),
                i <= n,
                forall|j: int| 0 <= j < i ==> self.departments@[j].name@ != department@,
            decreases n - i,
        {
            if str_eq(self.departments[i].name.as_str(), department.as_str()) {
                proof {
                    assert(old(self).departments@[i as int].name@ == department@);
                    assert(old(self).dept_idx(department@) == i as int);
                }
                self.departments[i] = Department { name: department, employees: Vec::new() };
                proof {
                    assert(final(self).departments@[i as int].employees@ =~= Seq::<
                        Employee,
                    >::empty());
                    assert(forall|j: int|
                        0 <= j < final(self).departments@.len() ==> final(self).departments@[j].name@ == old(self).departments@[j].name@);
                    assert(final(self).wf());
                }
                return ;
            }
            i = i + 1;
        }
        self.departments.push(Department { name: department, employees: Vec::new() });
        proof {
            assert(final(self).departments@.last().employees@ =~= Seq::<Employee>::empty());
            assert(final(self).has_dept(department@)) by {
                assert(final(self).departments@.last().name@ == department@);
            }
            assert(final(self).wf()) by {
                assert(forall|j: int|
                    0 <= j < old(self).departments@.len() ==> final(self).departments@[j] == old(self).departments@[j]);
            }
        }
    }

    /// The members of the department of this name, which must exist.
    pub fn get_employees_by_department(&self, department: &str) -> (r: &Vec<Employee>)
        requires
            self.wf(),
            self.has_dept(department@),
        ensures
            r@ == self.departments@[self.dept_idx(department@)].employees@,
    {
        let n = self.departments.len();
        let mut i: usize = 0;
        while i < n
            invariant
                self.wf(),
                self.has_dept(department@),
                n == self.departments@.len(),
                i <= n,
                forall|j: int| 0 <= j < i ==> self.departments@[j].name@ != department@,
            decreases n - i,
        {
            if str_eq(self.departments[i].name.as_str(), department) {
                proof {
                    assert(self.dept_idx(department@) == i as int);
                }
                return &self.departments[i].employees;
            }
            i = i + 1;
        }
        proof {
            assert(false);
        }
        &self.employees
    }

    /// Append an employee to the department of this name, which must
    /// exist; everything else is untouched.
    pub fn add_employee_to_department(&mut self, employee: Employee, department: &str)
        requires
            old(self).wf(),
            old(self).has_dept(department@),
        ensures
            final(self).name == old(self).name,
            final(self).employees == old(self).employees,
            final(self).wf(),
            final(self).departments@.len() == old(self).departments@.len(),
            ({
                let idx = old(self).dept_idx(department@);
                (forall|j: int|
                    0 <= j < old(self).departments@.len() && j != idx ==> final(self).departments@[j] == old(self).departments@[j]) && final(self).departments@[idx].name == old(self).departments@[idx].name && final(self).departments@[idx].employees@ == old(self).departments@[idx].employees@.push(
                    employee,
                )
            }),
    {
        let n = self.departments.len();
        let mut i: usize = 0;
        while i < n
            invariant
                old(self).wf(),
                old(self).has_dept(department@),
                self == old(self),
                n == self.departments@.len(),
                i <= n,
                forall|j: int| 0 <= j < i ==> self.departments@[j].name@ != department@,
            decreases n - i,
        {
            if str_eq(self.departments[i].name.as_str(), department) {
                proof {
                    assert(old(self).dept_idx(department@) == i as int);
                }
                self.departments[i].employees.push(employee);
                return ;
            }
            i = i + 1;
        }
        proof {
            assert(false);
        }
    }

    /// Remove from the department of this name the first member
    /// whose name equals the given employee's; both must exist.
    pub fn delete_employee_from_department(&mut self, employee: Employee, department: &str)
        requires
            old(self).wf(),
            old(self).has_dept(department@),
            ({
                let emps = old(self).departments@[old(self).dept_idx(department@)].employees@;
                find_by_name(emps, 0, employee.name@) < emps.len()
            }),
        ensures
            final(self).name == old(self).name,
            final(self).employees == old(self).employees,
            final(self).wf(),
            final(self).departments@.len() == old(self).departments@.len(),
            ({
                let idx = old(self).dept_idx(department@);
                let emps = old(self).departments@[idx].employees@;
                (forall|j: int|
                    0 <= j < old(self).departments@.len() && j != idx ==> final(self).departments@[j] == old(self).departments@[j]) && final(self).departments@[idx].name == old(self).departments@[idx].name && final(self).departments@[idx].employees@ == emps.remove(find_by_name(emps, 0, employee.name@))
            }),
    {
        let n = self.departments.len();
        let mut i: usize = 0;
        while i < n
            invariant
                old(self).wf(),
                old(self).has_dept(department@),
                ({
                    let emps0 = old(self).departments@[old(self).dept_idx(
                        department@,
                    )].employees@;
                    find_by_name(emps0, 0, employee.name@) < emps0.len()
                }),
                self == old(self),
                n == self.departments@.len(),
                i <= n,
                forall|j: int| 0 <= j < i ==> self.departments@[j].name@ != department@,
            decreases n - i,
        {
            if str_eq(self.departments[i].name.as_str(), department) {
                proof {
                    assert(old(self).dept_idx(department@) == i as int);
                }
                let ghost emps = self.departments@[i as int].employees@;
                let m = self.departments[i].employees.len();
                let mut k: usize = 0;
                while k < m
                    invariant
                        old(self).wf(),
                        old(self).has_dept(department@),
                        old(self).dept_idx(department@) == i as int,
                        i < self.departments@.len(),
                        self == old(self),
                        emps == self.departments@[i as int].employees@,
                        m == emps.len(),
                        k <= m,
                        forall|j: int| 0 <= j < k ==> emps[j].name@ != employee.name@,
                        find_by_name(emps, 0, employee.name@) < emps.len(),
                    decreases m - k,
                {
                    if self.departments[i].employees[k].name == employee.name {
                        proof {
                            lemma_find_by_name_is(emps, 0, employee.name@, k as int);
                        }
                        self.departments[i].employees.remove(k);
                        proof {
                            assert(forall|j: int|
                                0 <= j < final(self).departments@.len() ==> final(self).departments@[j].name@ == old(self).departments@[j].name@);
                            assert(final(self).wf());
                        }
                        return ;
                    }
                    k = k + 1;
                }
                proof {
                    lemma_find_by_name_is(emps, 0, employee.name@, m as int);
                    assert(false);
                }
                return ;
            }
            i = i + 1;
        }
        proof {
            assert(false);
        }
    }
}

} // verus!
