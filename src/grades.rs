use rand::Rng;
use vstd::prelude::*;

verus! {

/// The marks of one student in nine subjects, with their truncated average.
#[derive(Clone, Copy, Debug, PartialEq, Eq, Structural)]
pub struct Grades {
    pub math: u8,
    pub literature: u8,
    pub science: u8,
    pub history: u8,
    pub physical_education: u8,
    pub arts: u8,
    pub music: u8,
    pub computer_science: u8,
    pub foreign_language: u8,
    pub average: u8,
}

/// The sum of nine marks divided by nine, rounded toward zero.
pub open spec fn truncated_average(
    math: u8,
    literature: u8,
    science: u8,
    history: u8,
    physical_education: u8,
    arts: u8,
    music: u8,
    computer_science: u8,
    foreign_language: u8,
) -> int {
    (math + literature + science + history + physical_education + arts + music + computer_science
        + foreign_language) / 9
}

/// Relies on `rand::thread_rng` and `Rng::gen_range`: a value drawn from
/// `low..high`, which panics only on an empty range.
#[verifier::external_body]
fn random_in(low: u8, high: u8) -> (r: u8)
    requires
        low < high,
    ensures
        low <= r < high,
{
    rand::thread_rng().gen_range(low..high)
}

impl Grades {
    /// The average field agrees with the nine marks.
    pub open spec fn wf(&self) -> bool {
        self.average == truncated_average(
            self.math,
            self.literature,
            self.science,
            self.history,
            self.physical_education,
            self.arts,
            self.music,
            self.computer_science,
            self.foreign_language,
        )
    }

    /// Stores the nine marks as given and their average, truncated.
    pub fn new(
        math: u8,
        literature: u8,
        science: u8,
        history: u8,
        physical_education: u8,
        arts: u8,
        music: u8,
        computer_science: u8,
        foreign_language: u8,
    ) -> (r: Grades)
        ensures
            r.math == math,
            r.literature == literature,
            r.science == science,
            r.history == history,
            r.physical_education == physical_education,
            r.arts == arts,
            r.music == music,
            r.computer_science == computer_science,
            r.foreign_language == foreign_language,
            r.average == truncated_average(
                math,
                literature,
                science,
                history,
                physical_education,
                arts,
                music,
                computer_science,
                foreign_language,
            ),
            r.wf(),
    {
        let sum: u16 = math as u16 + literature as u16 + science as u16 + history as u16
            + physical_education as u16 + arts as u16 + music as u16 + computer_science as u16
            + foreign_language as u16;
        Grades {
            math,
            literature,
            science,
            history,
            physical_education,
            arts,
            music,
            computer_science,
            foreign_language,
            average: (sum / 9) as u8,
        }
    }

    /// Nine marks drawn independently from `1..=99`.
    pub fn gen() -> (r: Grades)
        ensures
            r.wf(),
            1 <= r.math <= 99,
            1 <= r.literature <= 99,
            1 <= r.science <= 99,
            1 <= r.history <= 99,
            1 <= r.physical_education <= 99,
            1 <= r.arts <= 99,
            1 <= r.music <= 99,
            1 <= r.computer_science <= 99,
            1 <= r.foreign_language <= 99,
    {
        Grades::new(
            random_in(1, 100),
            random_in(1, 100),
            random_in(1, 100),
            random_in(1, 100),
            random_in(1, 100),
            random_in(1, 100),
            random_in(1, 100),
            random_in(1, 100),
            random_in(1, 100),
        )
    }
}

} // verus!
