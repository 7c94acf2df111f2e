use school::Class;
use school::Grades;
use school::Ratio;
use school::School;
use school::Student;

fn student(id: u16, name: &str, grades: &Grades) -> Student {
    Student::new(id, String::from(name), 15, grades)
}

fn first_grades() -> Grades {
    Grades::new(90, 85, 88, 92, 78, 87, 91, 95, 89)
}

fn second_grades() -> Grades {
    Grades::new(80, 75, 78, 82, 68, 77, 81, 85, 79)
}

#[test]
fn grades_average_is_truncated() {
    let g = first_grades();
    assert_eq!(g.average, 88);
    assert_eq!(g.math, 90);
    assert_eq!(g.foreign_language, 89);
    assert_eq!(second_grades().average, 78);
}

#[test]
fn grades_accept_any_byte() {
    assert_eq!(Grades::new(255, 255, 255, 255, 255, 255, 255, 255, 255).average, 255);
    assert_eq!(Grades::new(0, 0, 0, 0, 0, 0, 0, 0, 0).average, 0);
    assert_eq!(Grades::new(8, 0, 0, 0, 0, 0, 0, 0, 0).average, 0);
    assert_eq!(Grades::new(200, 0, 0, 0, 0, 0, 0, 0, 0).average, 22);
}

#[test]
fn generated_grades_stay_in_range() {
    let mut saw_other_than_one = false;
    for _ in 0..200 {
        let g = Grades::gen();
        for s in [
            g.math,
            g.literature,
            g.science,
            g.history,
            g.physical_education,
            g.arts,
            g.music,
            g.computer_science,
            g.foreign_language,
        ] {
            assert!((1..=99).contains(&s));
            if s != 1 {
                saw_other_than_one = true;
            }
        }
        let again = Grades::new(
            g.math,
            g.literature,
            g.science,
            g.history,
            g.physical_education,
            g.arts,
            g.music,
            g.computer_science,
            g.foreign_language,
        );
        assert_eq!(g, again);
    }
    assert!(saw_other_than_one);
}

#[test]
fn empty_class_average_is_zero() {
    let class = Class::new(String::from("Empty"), vec![]);
    assert_eq!(class.get_average(), Ratio { num: 0, den: 1 });
}

#[test]
fn class_average_is_mean_of_student_averages() {
    let class = Class::new(
        String::from("Two"),
        vec![student(1, "A", &first_grades()), student(2, "B", &second_grades())],
    );
    assert_eq!(class.get_average(), Ratio { num: 166, den: 2 });
    let odd = Class::new(
        String::from("Three"),
        vec![
            student(1, "A", &first_grades()),
            student(2, "B", &second_grades()),
            student(3, "C", &second_grades()),
        ],
    );
    assert_eq!(odd.get_average(), Ratio { num: 244, den: 3 });
}

#[test]
fn empty_school_average_is_zero() {
    let school = School::new(String::from("Empty"), vec![]);
    assert!(school.can_average());
    assert_eq!(school.average_grades(), Ratio { num: 0, den: 1 });
}

#[test]
fn school_average_is_unweighted_mean_of_class_averages() {
    let big = Class::new(
        String::from("Big"),
        vec![student(1, "A", &first_grades()), student(2, "B", &second_grades())],
    );
    let small = Class::new(String::from("Small"), vec![student(3, "C", &first_grades())]);
    let school = School::new(String::from("S"), vec![big, small]);
    assert!(school.can_average());
    let avg = school.average_grades();
    assert_eq!(avg, Ratio { num: 342, den: 4 });
    assert_eq!(avg.num as f64 / avg.den as f64, 85.5);
}

#[test]
fn school_average_counts_empty_classes_as_zero() {
    let full = Class::new(String::from("Full"), vec![student(1, "A", &first_grades())]);
    let empty = Class::new(String::from("Empty"), vec![]);
    let school = School::new(String::from("S"), vec![full, empty]);
    let avg = school.average_grades();
    assert_eq!(avg, Ratio { num: 88, den: 2 });
}

#[test]
fn school_average_too_large_to_represent() {
    let mut classes = Vec::new();
    for c in 0..30u16 {
        let mut students = Vec::new();
        for s in 0..30u16 {
            students.push(student(c * 30 + s, "X", &first_grades()));
        }
        classes.push(Class::new(String::from("C"), students));
    }
    let school = School::new(String::from("Large"), classes);
    assert!(!school.can_average());
    let smaller = School::new(String::from("Small"), school.classes[..3].to_vec());
    assert!(smaller.can_average());
    assert_eq!(smaller.average_grades(), Ratio { num: 88 * 30 * 30 * 30 * 3, den: 3 * 30 * 30 * 30 });
}

#[test]
fn best_class_of_empty_school_is_unnamed() {
    let school = School::new(String::from("Empty"), vec![]);
    let best = school.get_best();
    assert_eq!(best.name, "");
    assert!(best.students.is_empty());
}

#[test]
fn best_class_keeps_first_of_equal_averages() {
    let a = Class::new(String::from("A"), vec![student(1, "A", &first_grades())]);
    let b = Class::new(
        String::from("B"),
        vec![student(2, "B", &first_grades()), student(3, "C", &first_grades())],
    );
    let c = Class::new(String::from("C"), vec![student(4, "D", &second_grades())]);
    let school = School::new(String::from("S"), vec![c, a, b]);
    let best = school.get_best();
    assert_eq!(best.name, "A");
    assert_eq!(best.students.len(), 1);
}

#[test]
fn best_class_is_a_copy_of_the_greatest() {
    let low = Class::new(String::from("Low"), vec![student(1, "A", &second_grades())]);
    let high = Class::new(String::from("High"), vec![student(2, "B", &first_grades())]);
    let school = School::new(String::from("S"), vec![low, high.clone()]);
    assert_eq!(school.get_best(), high);
}

#[test]
fn ratio_comparison_is_exact() {
    let half = Ratio { num: 1, den: 2 };
    let third = Ratio { num: 1, den: 3 };
    assert!(half.exceeds(&third));
    assert!(!third.exceeds(&half));
    assert!(!half.exceeds(&Ratio { num: 2, den: 4 }));
    let a = Ratio { num: u64::MAX as u128 * 3 + 1, den: u64::MAX as u128 };
    let b = Ratio { num: 3, den: 1 };
    assert!(a.exceeds(&b));
    assert!(!b.exceeds(&a));
}

#[test]
fn adding_a_student_changes_only_that_class() {
    let mut school = School::new(
        String::from("S"),
        vec![Class::new(String::from("A"), vec![]), Class::new(String::from("B"), vec![])],
    );
    let before = school.classes[1].clone();
    let s = student(7, "New", &first_grades());
    school.classes[0].add_student(&s);
    assert_eq!(school.classes[0].students.len(), 1);
    assert_eq!(school.classes[0].students[0], s);
    assert_eq!(school.classes[0].name, "A");
    assert_eq!(school.classes[1], before);
}

#[test]
fn add_class_appends_a_copy() {
    let mut school = School::new(String::from("S"), vec![]);
    let class = Class::new(String::from("A"), vec![student(1, "A", &first_grades())]);
    school.add_class(&class);
    school.add_class(&class);
    assert_eq!(school.classes.len(), 2);
    assert_eq!(school.classes[1], class);
    assert_eq!(school.students, 0);
}

#[test]
fn copies_are_equal() {
    let s = student(3, "A", &first_grades());
    assert_eq!(s.clone(), s);
    let class = Class::new(String::from("A"), vec![s.clone(), student(4, "B", &second_grades())]);
    assert_eq!(class.clone(), class);
    let mut school = School::new(String::from("S"), vec![class.clone()]);
    school.students = 2;
    assert_eq!(school.clone(), school);
}

#[test]
fn equality_sees_each_field() {
    let s = student(3, "A", &first_grades());
    assert_ne!(student(4, "A", &first_grades()), s);
    assert_ne!(student(3, "B", &first_grades()), s);
    assert_ne!(student(3, "A", &second_grades()), s);
    let class = Class::new(String::from("A"), vec![s.clone()]);
    assert_ne!(Class::new(String::from("B"), vec![s.clone()]), class);
    assert_ne!(Class::new(String::from("A"), vec![]), class);
    let school = School::new(String::from("S"), vec![class.clone()]);
    let mut counted = school.clone();
    counted.students = 1;
    assert_ne!(counted, school);
    assert_ne!(School::new(String::from("S"), vec![]), school);
}
