use crate::grades::Grades;
use vstd::prelude::*;

verus! {

/// A student: identifier, display name, age and one set of grades.
#[derive(Debug)]
pub struct Student {
    pub id: u16,
    pub name: String,
    pub age: u8,
    pub grades: Grades,
}

/// What a student holds, with the name as a sequence of characters.
pub struct StudentView {
    pub id: u16,
    pub name: Seq<char>,
    pub age: u8,
    pub grades: Grades,
}

impl View for Student {
    type V = StudentView;

    open spec fn view(&self) -> StudentView {
        StudentView { id: self.id, name: self.name@, age: self.age, grades: self.grades }
    }
}

impl Student {
    /// A student with the given fields; the grades are copied in.
    pub fn new(id: u16, name: String, age: u8, grades: &Grades) -> (r: Student)
        ensures
            r.id == id,
            r.name@ == name@,
            r.age == age,
            r.grades == *grades,
    {
        Student { id, name, age, grades: *grades }
    }
}

impl Clone for Student {
    /// An exact copy.
    fn clone(&self) -> (r: Self)
        ensures
            r == *self,
    {
        Student { id: self.id, name: self.name.clone(), age: self.age, grades: self.grades }
    }
}

impl PartialEq for Student {
    fn eq(&self, other: &Student) -> (r: bool) {
        self.id == other.id && self.name == other.name && self.age == other.age && self.grades
            == other.grades
    }
}

impl vstd::std_specs::cmp::PartialEqSpecImpl for Student {
    open spec fn obeys_eq_spec() -> bool {
        true
    }

    open spec fn eq_spec(&self, other: &Student) -> bool {
        self@ == other@
    }
}

} // verus!
