use crate::ratio::Ratio;
use crate::student::{Student, StudentView};
use vstd::prelude::*;

verus! {

/// A named class and its students, in the order in which they were added.
#[derive(Debug)]
pub struct Class {
    pub name: String,
    pub students: Vec<Student>,
}

/// What a class holds: its name and the views of its students, in order.
pub struct ClassView {
    pub name: Seq<char>,
    pub students: Seq<StudentView>,
}

impl View for Class {
    type V = ClassView;

    open spec fn view(&self) -> ClassView {
        ClassView { name: self.name@, students: self.students@.map_values(|s: Student| s@) }
    }
}

/// The sum of the grade averages of `students`.
pub open spec fn sum_of_averages(students: Seq<Student>) -> int
    decreases students.len(),
{
    if students.len() == 0 {
        0
    } else {
        sum_of_averages(students.drop_last()) + students.last().grades.average
    }
}

proof fn lemma_sum_of_averages_bound(students: Seq<Student>)
    ensures
        0 <= sum_of_averages(students) <= 255 * students.len(),
    decreases students.len(),
{
    if students.len() > 0 {
        lemma_sum_of_averages_bound(students.drop_last());
    }
}

impl Class {
    /// Numerator of the class average: the sum of the students' grade averages.
    pub open spec fn mean_num(&self) -> int {
        sum_of_averages(self.students@)
    }

    /// Denominator of the class average: the number of students, or 1 when
    /// there are none (the average of an empty class is zero).
    pub open spec fn mean_den(&self) -> int {
        if self.students@.len() == 0 {
            1
        } else {
            self.students@.len() as int
        }
    }

    /// The class average lies between 0 and the largest possible grade average.
    pub(crate) proof fn lemma_mean_bounds(&self)
        ensures
            self.mean_den() >= 1,
            0 <= self.mean_num() <= 255 * self.mean_den(),
    {
        lemma_sum_of_averages_bound(self.students@);
    }

    /// A class with the given name and students.
    pub fn new(name: String, students: Vec<Student>) -> (r: Class)
        ensures
            r.name == name,
            r.students@ == students@,
    {
        Class { name, students }
    }

    /// The mean of the students' grade averages, `0 / 1` for an empty class.
    pub fn get_average(&self) -> (r: Ratio)
        ensures
            r.num == self.mean_num(),
            r.den == self.mean_den(),
            r.wf(),
            r.den <= usize::MAX,
            self.students@.len() == 0 ==> r.num == 0 && r.den == 1,
    {
        let n = self.students.len();
        if n == 0 {
            return Ratio { num: 0, den: 1 };
        }
        let mut total: u128 = 0;
        let mut i: usize = 0;
        while i < n
            invariant
                n == self.students@.len(),
                i <= n,
                total == sum_of_averages(self.students@.take(i as int)),
                total <= 255 * i,
            decreases n - i,
        {
            proof {
                assert(self.students@.take(i + 1).drop_last() =~= self.students@.take(i as int));
            }
            total = total + self.students[i].grades.average as u128;
            i = i + 1;
        }
        proof {
            assert(self.students@.take(n as int) =~= self.students@);
        }
        Ratio { num: total, den: n as u128 }
    }

    /// Appends a copy of `student`; nothing else changes.
    pub fn add_student(&mut self, student: &Student)
        ensures
            final(self).name == old(self).name,
            final(self).students@ == old(self).students@.push(*student),
            final(self).students@.len() == old(self).students@.len() + 1,
    {
        self.students.push(student.clone());
    }
}

impl Clone for Class {
    /// A copy with the same name and equal students, in the same order.
    fn clone(&self) -> (r: Self)
        ensures
            r.name == self.name,
            r.students@ == self.students@,
            r@ == self@,
    {
        let students = self.students.clone();
        assert(students@ =~= self.students@);
        Class { name: self.name.clone(), students }
    }
}

impl PartialEq for Class {
    fn eq(&self, other: &Class) -> (r: bool) {
        if !(self.name == other.name) || self.students.len() != other.students.len() {
            proof {
                if self.students.len() != other.students.len() {
                    assert(self@.students.len() != other@.students.len());
                }
            }
            return false;
        }
        let n = self.students.len();
        let mut i: usize = 0;
        while i < n
            invariant
                n == self.students@.len(),
                n == other.students@.len(),
                i <= n,
                forall|j: int| 0 <= j < i ==> self.students@[j]@ == other.students@[j]@,
            decreases n - i,
        {
            if !(self.students[i] == other.students[i]) {
                assert(self@.students[i as int] != other@.students[i as int]);
                return false;
            }
            i = i + 1;
        }
        assert(self@.students =~= other@.students);
        true
    }
}

impl vstd::std_specs::cmp::PartialEqSpecImpl for Class {
    open spec fn obeys_eq_spec() -> bool {
        true
    }

    open spec fn eq_spec(&self, other: &Class) -> bool {
        self@ == other@
    }
}

} // verus!
