//! A small school hierarchy (grades, students, classes, schools) and the
//! averages computed over it.
//!
//! Averages are exact fractions: see [`Ratio`].

pub mod class;
pub mod grades;
pub mod ratio;
pub mod school;
pub mod student;

pub use crate::class::Class;
pub use crate::grades::Grades;
pub use crate::ratio::Ratio;
pub use crate::school::School;
pub use crate::student::Student;
