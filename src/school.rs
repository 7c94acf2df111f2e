use crate::class::{Class, ClassView};
use crate::ratio::Ratio;
use vstd::prelude::*;

verus! {

/// A named school, a student counter kept by whoever fills the school, and
/// its classes in the order in which they were added.
///
/// The counter is bookkeeping of its own: nothing here ties it to the number
/// of students that the classes hold.
#[derive(Debug)]
pub struct School {
    pub name: String,
    pub students: u16,
    pub classes: Vec<Class>,
}

/// What a school holds: its name, its counter and the views of its classes.
pub struct SchoolView {
    pub name: Seq<char>,
    pub students: u16,
    pub classes: Seq<ClassView>,
}

impl View for School {
    type V = SchoolView;

    open spec fn view(&self) -> SchoolView {
        SchoolView {
            name: self.name@,
            students: self.students,
            classes: self.classes@.map_values(|c: Class| c@),
        }
    }
}

/// Numerator of the sum of the class averages of `classes`, all brought to
/// the common denominator `means_den(classes)`.
pub open spec fn means_num(classes: Seq<Class>) -> int
    decreases classes.len(),
{
    if classes.len() == 0 {
        0
    } else {
        let rest = classes.drop_last();
        let c = classes.last();
        means_num(rest) * c.mean_den() + c.mean_num() * means_den(rest)
    }
}

/// The common denominator of the class averages of `classes`: the product of
/// their denominators.
pub open spec fn means_den(classes: Seq<Class>) -> int
    decreases classes.len(),
{
    if classes.len() == 0 {
        1
    } else {
        means_den(classes.drop_last()) * classes.last().mean_den()
    }
}

/// Numerator of the average of the candidate at index `k` of `classes`; any
/// index outside `classes` (the scan starts from -1) stands for the empty
/// placeholder class, whose average is `0 / 1`.
pub open spec fn candidate_num(classes: Seq<Class>, k: int) -> int {
    if 0 <= k < classes.len() {
        classes[k].mean_num()
    } else {
        0
    }
}

/// Denominator of the average of the candidate at index `k` of `classes`.
pub open spec fn candidate_den(classes: Seq<Class>, k: int) -> int {
    if 0 <= k < classes.len() {
        classes[k].mean_den()
    } else {
        1
    }
}

/// Index of the best class of a scan that starts with the empty placeholder
/// (-1) and moves to a class only when its average is strictly greater.
pub open spec fn best_index(classes: Seq<Class>) -> int
    decreases classes.len(),
{
    if classes.len() == 0 {
        -1
    } else {
        let rest = classes.drop_last();
        let k = best_index(rest);
        let c = classes.last();
        if c.mean_num() * candidate_den(rest, k) > candidate_num(rest, k) * c.mean_den() {
            classes.len() - 1
        } else {
            k
        }
    }
}

proof fn lemma_means_bounds(classes: Seq<Class>)
    ensures
        means_den(classes) >= 1,
        0 <= means_num(classes) <= 255 * classes.len() * means_den(classes),
    decreases classes.len(),
{
    if classes.len() > 0 {
        let rest = classes.drop_last();
        let c = classes.last();
        lemma_means_bounds(rest);
        c.lemma_mean_bounds();
        let a = means_num(rest);
        let b = means_den(rest);
        let p = c.mean_num();
        let q = c.mean_den();
        let k = rest.len() as int;
        assert(0 <= a * q + p * b <= 255 * (k + 1) * (b * q) && b * q >= 1) by (nonlinear_arith)
            requires
                0 <= a <= 255 * k * b,
                0 <= p <= 255 * q,
                b >= 1,
                q >= 1,
                k >= 0,
        ;
    }
}

proof fn lemma_means_den_prefix(classes: Seq<Class>, i: int)
    requires
        0 <= i <= classes.len(),
    ensures
        1 <= means_den(classes.take(i)) <= means_den(classes),
    decreases classes.len(),
{
    if i < classes.len() {
        let rest = classes.drop_last();
        lemma_means_den_prefix(rest, i);
        assert(rest.take(i) =~= classes.take(i));
        lemma_means_bounds(rest);
        classes.last().lemma_mean_bounds();
        let b = means_den(rest);
        let q = classes.last().mean_den();
        assert(b <= b * q) by (nonlinear_arith)
            requires
                b >= 1,
                q >= 1,
        ;
    } else {
        assert(classes.take(i) =~= classes);
        lemma_means_bounds(classes);
    }
}

/// For a positive `k`, `x * k <= m` exactly when `x <= m / k`.
proof fn lemma_mul_le_iff_le_div(x: int, k: int, m: int)
    requires
        x >= 0,
        k > 0,
        m >= 0,
    ensures
        (x * k <= m) == (x <= m / k),
{
    vstd::arithmetic::div_mod::lemma_fundamental_div_mod(m, k);
    vstd::arithmetic::div_mod::lemma_mod_pos_bound(m, k);
    let d = m / k;
    let r = m % k;
    assert(m == d * k + r && 0 <= r < k);
    if x <= d {
        assert(x * k <= m) by (nonlinear_arith)
            requires
                x <= d,
                k > 0,
                m == d * k + r,
                r >= 0,
        ;
    } else {
        assert(x * k >= d * k + k) by (nonlinear_arith)
            requires
                x >= d + 1,
                k > 0,
        ;
    }
}

/// Adding equal fractions to equal fractions gives equal sums.
proof fn lemma_add_same_value(a: int, b: int, c: int, d: int, p: int, q: int, r: int, t: int)
    requires
        a * d == c * b,
        p * t == r * q,
    ensures
        (a * q + p * b) * (d * t) == (c * t + r * d) * (b * q),
{
    assert((a * q) * (d * t) == (c * t) * (b * q)) by (nonlinear_arith)
        requires
            a * d == c * b,
    ;
    assert((p * b) * (d * t) == (r * d) * (b * q)) by (nonlinear_arith)
        requires
            p * t == r * q,
    ;
    assert((a * q + p * b) * (d * t) == (a * q) * (d * t) + (p * b) * (d * t)) by (nonlinear_arith);
    assert((c * t + r * d) * (b * q) == (c * t) * (b * q) + (r * d) * (b * q)) by (nonlinear_arith);
}

/// `a / b <= c / d < e / f` gives `a / b < e / f`, for positive denominators.
proof fn lemma_le_lt_trans(a: int, b: int, c: int, d: int, e: int, f: int)
    requires
        b > 0,
        d > 0,
        f > 0,
        a * d <= c * b,
        c * f < e * d,
    ensures
        a * f < e * b,
{
    assert(a * d * f <= c * b * f) by (nonlinear_arith)
        requires
            a * d <= c * b,
            f > 0,
    ;
    assert(c * f * b < e * d * b) by (nonlinear_arith)
        requires
            c * f < e * d,
            b > 0,
    ;
    assert(a * f * d < e * b * d) by (nonlinear_arith)
        requires
            a * d * f <= c * b * f,
            c * f * b < e * d * b,
    ;
    assert(a * f < e * b) by (nonlinear_arith)
        requires
            a * f * d < e * b * d,
            d > 0,
    ;
}

proof fn lemma_means_same_value(x: Seq<Class>, y: Seq<Class>)
    requires
        x.len() == y.len(),
        forall|i: int|
            0 <= i < x.len() ==> #[trigger] x[i].mean_num() * y[i].mean_den() == y[i].mean_num()
                * x[i].mean_den(),
    ensures
        means_num(x) * means_den(y) == means_num(y) * means_den(x),
    decreases x.len(),
{
    if x.len() > 0 {
        let xr = x.drop_last();
        let yr = y.drop_last();
        assert forall|i: int| 0 <= i < xr.len() implies #[trigger] xr[i].mean_num()
            * yr[i].mean_den() == yr[i].mean_num() * xr[i].mean_den() by {
            assert(xr[i] == x[i] && yr[i] == y[i]);
        }
        lemma_means_same_value(xr, yr);
        let n = x.len() - 1;
        assert(x[n] == x.last() && y[n] == y.last());
        lemma_add_same_value(
            means_num(xr),
            means_den(xr),
            means_num(yr),
            means_den(yr),
            x.last().mean_num(),
            x.last().mean_den(),
            y.last().mean_num(),
            y.last().mean_den(),
        );
    }
}

proof fn lemma_best_index_greatest(classes: Seq<Class>)
    ensures
        -1 <= best_index(classes) < classes.len(),
        forall|j: int|
            0 <= j < classes.len() ==> #[trigger] classes[j].mean_num() * candidate_den(
                classes,
                best_index(classes),
            ) <= candidate_num(classes, best_index(classes)) * classes[j].mean_den(),
        forall|j: int|
            0 <= j < best_index(classes) ==> #[trigger] classes[j].mean_num() * candidate_den(
                classes,
                best_index(classes),
            ) < candidate_num(classes, best_index(classes)) * classes[j].mean_den(),
    decreases classes.len(),
{
    if classes.len() > 0 {
        let rest = classes.drop_last();
        let c = classes.last();
        let n = classes.len() - 1;
        lemma_best_index_greatest(rest);
        let k = best_index(rest);
        assert(classes[n] == c);
        assert(candidate_num(classes, k) == candidate_num(rest, k));
        assert(candidate_den(classes, k) == candidate_den(rest, k));
        c.lemma_mean_bounds();
        if 0 <= k {
            rest[k].lemma_mean_bounds();
        }
        let cn = candidate_num(rest, k);
        let cd = candidate_den(rest, k);
        assert forall|j: int| 0 <= j < n implies #[trigger] classes[j].mean_num() == rest[j].mean_num()
            && classes[j].mean_den() == rest[j].mean_den() by {
            assert(classes[j] == rest[j]);
        }
        if c.mean_num() * cd > cn * c.mean_den() {
            assert forall|j: int| 0 <= j < n implies #[trigger] classes[j].mean_num()
                * c.mean_den() < c.mean_num() * classes[j].mean_den() by {
                classes[j].lemma_mean_bounds();
                assert(rest[j].mean_num() * cd <= cn * rest[j].mean_den());
                lemma_le_lt_trans(
                    classes[j].mean_num(),
                    classes[j].mean_den(),
                    cn,
                    cd,
                    c.mean_num(),
                    c.mean_den(),
                );
            }
        } else {
            assert forall|j: int| 0 <= j < classes.len() implies #[trigger] classes[j].mean_num()
                * cd <= cn * classes[j].mean_den() by {
                if j < n {
                    assert(rest[j].mean_num() * cd <= cn * rest[j].mean_den());
                }
            }
            assert forall|j: int| 0 <= j < k implies #[trigger] classes[j].mean_num() * cd < cn
                * classes[j].mean_den() by {
                assert(rest[j].mean_num() * cd < cn * rest[j].mean_den());
            }
        }
    }
}

impl School {
    /// Numerator of the school average: 0 without classes, else the sum of
    /// the class averages over their common denominator.
    pub open spec fn average_num(&self) -> int {
        if self.classes@.len() == 0 {
            0
        } else {
            means_num(self.classes@)
        }
    }

    /// Denominator of the school average: 1 without classes, else the number
    /// of classes times the common denominator of the class averages.
    pub open spec fn average_den(&self) -> int {
        if self.classes@.len() == 0 {
            1
        } else {
            self.classes@.len() * means_den(self.classes@)
        }
    }

    /// The exact school average fits in a `Ratio`: its numerator is at most
    /// 255 (the largest grade average) times its denominator, and both stay
    /// within `u128` while the classes are summed.
    pub open spec fn average_fits(&self) -> bool {
        255 * self.classes@.len() * means_den(self.classes@) <= u128::MAX
    }

    /// A school with the given name and classes; its counter starts at 0
    /// whatever the classes hold.
    pub fn new(name: String, classes: Vec<Class>) -> (r: School)
        ensures
            r.name == name,
            r.students == 0,
            r.classes@ == classes@,
    {
        School { name, students: 0, classes }
    }

    /// Appends a copy of `class`; nothing else changes.
    pub fn add_class(&mut self, class: &Class)
        ensures
            final(self).name == old(self).name,
            final(self).students == old(self).students,
            final(self).classes@.len() == old(self).classes@.len() + 1,
            final(self).classes@.drop_last() == old(self).classes@,
            final(self).classes@.last().name == class.name,
            final(self).classes@.last().students@ == class.students@,
    {
        self.classes.push(class.clone());
        assert(self.classes@.drop_last() =~= old(self).classes@);
    }

    /// Whether `average_grades` can represent the school average.
    pub fn can_average(&self) -> (r: bool)
        ensures
            r == self.average_fits(),
    {
        let m = self.classes.len();
        if m == 0 {
            return true;
        }
        let bound: u128 = u128::MAX / (255 * m as u128);
        let mut den: u128 = 1;
        let mut i: usize = 0;
        proof {
            assert(self.classes@.take(0) =~= Seq::<Class>::empty());
            lemma_mul_le_iff_le_div(1, 255 * m, u128::MAX as int);
        }
        while i < m
            invariant
                m == self.classes@.len(),
                m > 0,
                i <= m,
                bound == (u128::MAX as int) / (255 * m),
                den == means_den(self.classes@.take(i as int)),
                den <= bound,
            decreases m - i,
        {
            let count = self.classes[i].students.len();
            let d: u128 = if count == 0 {
                1
            } else {
                count as u128
            };
            proof {
                assert(self.classes@.take(i + 1).drop_last() =~= self.classes@.take(i as int));
                lemma_mul_le_iff_le_div(den as int, d as int, bound as int);
            }
            if den > bound / d {
                proof {
                    lemma_means_den_prefix(self.classes@, i + 1);
                    let total = means_den(self.classes@);
                    lemma_mul_le_iff_le_div(total, 255 * m, u128::MAX as int);
                    assert(255 * m * total == total * (255 * m)) by (nonlinear_arith);
                }
                return false;
            }
            den = den * d;
            i = i + 1;
        }
        proof {
            assert(self.classes@.take(m as int) =~= self.classes@);
            lemma_mul_le_iff_le_div(den as int, 255 * m, u128::MAX as int);
            assert(255 * m * den == den * (255 * m)) by (nonlinear_arith);
        }
        true
    }

    /// The unweighted mean of the class averages, `0 / 1` without classes.
    ///
    /// Each class counts once, whatever its number of students.
    pub fn average_grades(&self) -> (r: Ratio)
        requires
            self.average_fits(),
        ensures
            r.num == self.average_num(),
            r.den == self.average_den(),
            r.wf(),
            self.classes@.len() == 0 ==> r.num == 0 && r.den == 1,
    {
        let m = self.classes.len();
        if m == 0 {
            return Ratio { num: 0, den: 1 };
        }
        let ghost all = self.classes@;
        let mut num: u128 = 0;
        let mut den: u128 = 1;
        let mut i: usize = 0;
        proof {
            assert(all.take(0) =~= Seq::<Class>::empty());
            lemma_means_bounds(all);
        }
        while i < m
            invariant
                all == self.classes@,
                m == all.len(),
                i <= m,
                255 * m * means_den(all) <= u128::MAX,
                means_den(all) >= 1,
                num == means_num(all.take(i as int)),
                den == means_den(all.take(i as int)),
            decreases m - i,
        {
            let avg = self.classes[i].get_average();
            proof {
                let next = all.take(i + 1);
                assert(next.drop_last() =~= all.take(i as int));
                lemma_means_bounds(next);
                lemma_means_bounds(all.take(i as int));
                lemma_means_den_prefix(all, i + 1);
                all[i as int].lemma_mean_bounds();
                let total = means_den(all);
                let next_den = means_den(next);
                assert(255 * (i + 1) * next_den <= 255 * m * total) by (nonlinear_arith)
                    requires
                        i + 1 <= m,
                        1 <= next_den <= total,
                ;
                assert(means_den(next) == den * avg.den);
                assert(next_den <= 255 * m * total) by (nonlinear_arith)
                    requires
                        1 <= next_den <= total,
                        m >= 1,
                ;
                assert(0 <= num * avg.den && 0 <= avg.num * den) by (nonlinear_arith)
                    requires
                        num >= 0,
                        den >= 0,
                        avg.num >= 0,
                        avg.den >= 0,
                ;
            }
            num = num * avg.den + avg.num * den;
            den = den * avg.den;
            i = i + 1;
        }
        proof {
            assert(all.take(m as int) =~= all);
            assert(1 <= m * den <= 255 * m * den) by (nonlinear_arith)
                requires
                    den >= 1,
                    m >= 1,
            ;
        }
        Ratio { num, den: m as u128 * den }
    }

    /// The school average depends on the class averages alone: two schools
    /// with as many classes, whose classes have pairwise the same average,
    /// have the same average, whatever number of students each class holds.
    pub proof fn lemma_average_ignores_class_sizes(a: School, b: School)
        requires
            a.classes@.len() == b.classes@.len(),
            forall|i: int|
                0 <= i < a.classes@.len() ==> #[trigger] a.classes@[i].mean_num()
                    * b.classes@[i].mean_den() == b.classes@[i].mean_num()
                    * a.classes@[i].mean_den(),
        ensures
            a.average_num() * b.average_den() == b.average_num() * a.average_den(),
    {
        lemma_means_same_value(a.classes@, b.classes@);
        let m = a.classes@.len() as int;
        let x = means_num(a.classes@);
        let y = means_den(a.classes@);
        let u = means_num(b.classes@);
        let v = means_den(b.classes@);
        assert(x * (m * v) == u * (m * y)) by (nonlinear_arith)
            requires
                x * v == u * y,
        ;
    }

    /// The best class is the first class with the greatest average: no class
    /// has a greater average, and every class before it a smaller one. When
    /// the scan keeps the empty placeholder (index -1), every class has an
    /// average of zero.
    pub proof fn lemma_best_is_first_greatest(school: School)
        ensures
            -1 <= best_index(school.classes@) < school.classes@.len(),
            forall|j: int|
                0 <= j < school.classes@.len() ==> #[trigger] school.classes@[j].mean_num()
                    * candidate_den(school.classes@, best_index(school.classes@)) <= candidate_num(
                    school.classes@,
                    best_index(school.classes@),
                ) * school.classes@[j].mean_den(),
            forall|j: int|
                0 <= j < best_index(school.classes@) ==> #[trigger] school.classes@[j].mean_num()
                    * candidate_den(school.classes@, best_index(school.classes@)) < candidate_num(
                    school.classes@,
                    best_index(school.classes@),
                ) * school.classes@[j].mean_den(),
            best_index(school.classes@) == -1 ==> forall|j: int|
                0 <= j < school.classes@.len() ==> #[trigger] school.classes@[j].mean_num() == 0,
    {
        let cs = school.classes@;
        lemma_best_index_greatest(cs);
        if best_index(cs) == -1 {
            assert forall|j: int| 0 <= j < cs.len() implies #[trigger] cs[j].mean_num() == 0 by {
                cs[j].lemma_mean_bounds();
                assert(cs[j].mean_num() * 1 <= 0 * cs[j].mean_den());
            }
        }
    }

    /// The class with the strictly greatest average, the first of equals; a
    /// copy of it, or an empty class named "" when no class has an average
    /// above zero (in particular when there are no classes).
    pub fn get_best(&self) -> (r: Class)
        ensures
            best_index(self.classes@) == -1 ==> r.name@ == Seq::<char>::empty()
                && r.students@.len() == 0,
            best_index(self.classes@) >= 0 ==> r.name == self.classes@[best_index(
                self.classes@,
            )].name && r.students@ == self.classes@[best_index(self.classes@)].students@,
    {
        let ghost all = self.classes@;
        let mut best = Class::new(String::new(), Vec::new());
        let mut best_avg = Ratio { num: 0, den: 1 };
        let n = self.classes.len();
        let mut i: usize = 0;
        proof {
            assert(all.take(0) =~= Seq::<Class>::empty());
        }
        while i < n
            invariant
                all == self.classes@,
                n == all.len(),
                i <= n,
                -1 <= best_index(all.take(i as int)) < i,
                best_avg.num == candidate_num(all.take(i as int), best_index(all.take(i as int))),
                best_avg.den == candidate_den(all.take(i as int), best_index(all.take(i as int))),
                best_avg.wf(),
                best_avg.den <= u64::MAX,
                best_index(all.take(i as int)) == -1 ==> best.name@ == Seq::<char>::empty()
                    && best.students@.len() == 0,
                best_index(all.take(i as int)) >= 0 ==> best.name == all[best_index(
                    all.take(i as int),
                )].name && best.students@ == all[best_index(all.take(i as int))].students@,
            decreases n - i,
        {
            let avg = self.classes[i].get_average();
            proof {
                assert(all.take(i + 1).drop_last() =~= all.take(i as int));
                lemma_best_index_greatest(all.take(i + 1));
                assert(usize::MAX <= u64::MAX);
            }
            if avg.exceeds(&best_avg) {
                best = self.classes[i].clone();
                best_avg = avg;
            }
            i = i + 1;
        }
        proof {
            assert(all.take(n as int) =~= all);
        }
        best
    }
}

impl Clone for School {
    /// A copy with the same name, counter and classes.
    fn clone(&self) -> (r: Self)
        ensures
            r.name == self.name,
            r.students == self.students,
            r@ == self@,
    {
        let classes = self.classes.clone();
        assert(classes@.map_values(|c: Class| c@) =~= self.classes@.map_values(|c: Class| c@));
        School { name: self.name.clone(), students: self.students, classes }
    }
}

impl PartialEq for School {
    fn eq(&self, other: &School) -> (r: bool) {
        if !(self.name == other.name) || self.students != other.students
            || self.classes.len() != other.classes.len() {
            proof {
                if self.classes.len() != other.classes.len() {
                    assert(self@.classes.len() != other@.classes.len());
                }
            }
            return false;
        }
        let n = self.classes.len();
        let mut i: usize = 0;
        while i < n
            invariant
                n == self.classes@.len(),
                n == other.classes@.len(),
                i <= n,
                forall|j: int| 0 <= j < i ==> self.classes@[j]@ == other.classes@[j]@,
            decreases n - i,
        {
            if !(self.classes[i] == other.classes[i]) {
                assert(self@.classes[i as int] != other@.classes[i as int]);
                return false;
            }
            i = i + 1;
        }
        assert(self@.classes =~= other@.classes);
        true
    }
}

impl vstd::std_specs::cmp::PartialEqSpecImpl for School {
    open spec fn obeys_eq_spec() -> bool {
        true
    }

    open spec fn eq_spec(&self, other: &School) -> bool {
        self@ == other@
    }
}

} // verus!
