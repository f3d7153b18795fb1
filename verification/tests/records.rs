use catr::Company;
use catr::Employee;
use catr::Job;
use catr::JobType;
use catr::Menu;

fn job(title: &str, salary: u32) -> Job {
    Job { title: title.to_string(), salary, job_type: JobType::FullTime }
}

fn employee(name: &str, age: u8) -> Employee {
    Employee::new(name.to_string(), age, job("engineer", 1000))
}

#[test]
fn employee_getters() {
    let e = Employee::new("Ada".to_string(), 36, job("analyst", 2000));
    assert_eq!(e.get_name(), "Ada");
    assert_eq!(e.get_age(), 36);
    assert_eq!(e.get_job().title, "analyst");
    assert_eq!(e.get_job().salary, 2000);
    assert!(matches!(e.get_job().job_type, JobType::FullTime));
}

#[test]
fn company_collects_employees() {
    let mut c = Company::new("Acme".to_string());
    assert!(c.get_employees().is_empty());
    c.add_employee(employee("Ada", 36));
    c.add_employee(employee("Grace", 45));
    let all = c.get_employees();
    assert_eq!(all.len(), 2);
    assert_eq!(all[0].get_name(), "Ada");
    assert_eq!(all[1].get_name(), "Grace");
}

#[test]
fn departments_hold_their_members() {
    let mut c = Company::new("Acme".to_string());
    c.add_new_department("ops".to_string());
    c.add_new_department("dev".to_string());
    c.add_employee_to_department(employee("Ada", 36), "dev");
    c.add_employee_to_department(employee("Grace", 45), "dev");
    assert!(c.get_employees_by_department("ops").is_empty());
    let dev = c.get_employees_by_department("dev");
    assert_eq!(dev.len(), 2);
    assert_eq!(dev[0].get_name(), "Ada");
    assert_eq!(dev[1].get_name(), "Grace");
}

#[test]
fn re_adding_a_department_empties_it() {
    let mut c = Company::new("Acme".to_string());
    c.add_new_department("dev".to_string());
    c.add_employee_to_department(employee("Ada", 36), "dev");
    c.add_new_department("dev".to_string());
    assert!(c.get_employees_by_department("dev").is_empty());
}

#[test]
fn delete_removes_first_match_only() {
    let mut c = Company::new("Acme".to_string());
    c.add_new_department("dev".to_string());
    c.add_employee_to_department(employee("Ada", 36), "dev");
    c.add_employee_to_department(employee("Grace", 45), "dev");
    c.add_employee_to_department(employee("Ada", 52), "dev");
    c.delete_employee_from_department(employee("Ada", 99), "dev");
    let dev = c.get_employees_by_department("dev");
    assert_eq!(dev.len(), 2);
    assert_eq!(dev[0].get_name(), "Grace");
    assert_eq!(dev[1].get_name(), "Ada");
    assert_eq!(dev[1].get_age(), 52);
}

#[test]
fn menu_keeps_title_and_options() {
    let m = Menu::new(
        "Main".to_string(),
        vec!["Add".to_string(), "Quit".to_string()],
    );
    assert_eq!(m.title, "Main");
    assert_eq!(m.options, vec!["Add".to_string(), "Quit".to_string()]);
}
