//! Composite connection score: a single 0–100 number and an A+–F grade.
//!
//! The weighted sum of the measured components is computed in floating
//! point by the program; what it rounds to is graded here.

use vstd::prelude::*;

use crate::models::BufferbloatGrade;

verus! {

/// Letter grade for the composite score.
#[derive(Debug, Clone, Copy, PartialEq, Eq, Structural)]
pub enum ScoreGrade {
    /// 90–100.
    APlus,
    /// 80–89.
    A,
    /// 70–79.
    B,
    /// 60–69.
    C,
    /// 50–59.
    D,
    /// 0–49.
    F,
}

/// The grade of a score.
pub open spec fn grade_of(points: int) -> ScoreGrade {
    if 90 <= points <= 100 {
        ScoreGrade::APlus
    } else if 80 <= points <= 89 {
        ScoreGrade::A
    } else if 70 <= points <= 79 {
        ScoreGrade::B
    } else if 60 <= points <= 69 {
        ScoreGrade::C
    } else if 50 <= points <= 59 {
        ScoreGrade::D
    } else {
        ScoreGrade::F
    }
}

/// The rank of a grade, from F (0) to A+ (5).
pub open spec fn grade_rank(g: ScoreGrade) -> int {
    match g {
        ScoreGrade::APlus => 5,
        ScoreGrade::A => 4,
        ScoreGrade::B => 3,
        ScoreGrade::C => 2,
        ScoreGrade::D => 1,
        ScoreGrade::F => 0,
    }
}

/// The label of a grade.
pub open spec fn grade_label(g: ScoreGrade) -> Seq<char> {
    match g {
        ScoreGrade::APlus => "A+"@,
        ScoreGrade::A => "A"@,
        ScoreGrade::B => "B"@,
        ScoreGrade::C => "C"@,
        ScoreGrade::D => "D"@,
        ScoreGrade::F => "F"@,
    }
}

impl ScoreGrade {
    /// Short label, e.g. `"A+"`.
    pub fn label(self) -> (r: &'static str)
        ensures
            r@ == grade_label(self),
    {
        match self {
            ScoreGrade::APlus => "A+",
            ScoreGrade::A => "A",
            ScoreGrade::B => "B",
            ScoreGrade::C => "C",
            ScoreGrade::D => "D",
            ScoreGrade::F => "F",
        }
    }

    /// The grade of a score: A+ from 90 to 100, A from 80, B from 70,
    /// C from 60, D from 50, F below 50 (and above 100).
    pub fn from_points(points: u8) -> (r: ScoreGrade)
        ensures
            r == grade_of(points as int),
    {
        if 90 <= points && points <= 100 {
            ScoreGrade::APlus
        } else if 80 <= points && points <= 89 {
            ScoreGrade::A
        } else if 70 <= points && points <= 79 {
            ScoreGrade::B
        } else if 60 <= points && points <= 69 {
            ScoreGrade::C
        } else if 50 <= points && points <= 59 {
            ScoreGrade::D
        } else {
            ScoreGrade::F
        }
    }
}

/// The computed composite score for a completed test.
#[derive(Debug, Clone, Copy, PartialEq, Eq, Structural)]
pub struct CompositeScore {
    /// Numeric score, 0–100.
    pub points: u8,
    /// Letter grade derived from [`CompositeScore::points`].
    pub grade: ScoreGrade,
}

impl CompositeScore {
    /// The score for a rounded weighted sum, clamped to 0–100, with its
    /// grade.
    pub fn from_rounded(rounded: i64) -> (r: CompositeScore)
        ensures
            r.points == (if rounded < 0 {
                0
            } else if rounded > 100 {
                100
            } else {
                rounded
            }),
            r.grade == grade_of(r.points as int),
    {
        let points: u8 = if rounded < 0 {
            0
        } else if rounded > 100 {
            100
        } else {
            rounded as u8
        };
        CompositeScore { points, grade: ScoreGrade::from_points(points) }
    }
}

/// The bufferbloat component of the score (0–100) for a grade.
pub open spec fn bloat_points(grade: BufferbloatGrade) -> int {
    match grade {
        BufferbloatGrade::APlus => 100,
        BufferbloatGrade::A => 90,
        BufferbloatGrade::B => 75,
        BufferbloatGrade::C => 50,
        BufferbloatGrade::D => 25,
        BufferbloatGrade::F => 0,
    }
}

/// The bufferbloat component of the score (0–100) for a grade.
pub fn component_bloat(grade: BufferbloatGrade) -> (r: u8)
    ensures
        r == bloat_points(grade),
{
    match grade {
        BufferbloatGrade::APlus => 100,
        BufferbloatGrade::A => 90,
        BufferbloatGrade::B => 75,
        BufferbloatGrade::C => 50,
        BufferbloatGrade::D => 25,
        BufferbloatGrade::F => 0,
    }
}

/// A higher score never earns a lower grade (within 0–100).
pub proof fn law_grade_monotone(p: int, q: int)
    requires
        0 <= p <= q <= 100,
    ensures
        grade_rank(grade_of(p)) <= grade_rank(grade_of(q)),
{
}

/// Each grade covers exactly its documented band: A+ 90–100, A 80–89,
/// B 70–79, C 60–69, D 50–59 and F below 50.
pub proof fn law_grade_bands(p: int)
    requires
        0 <= p <= 100,
    ensures
        grade_of(p) == ScoreGrade::APlus <==> 90 <= p,
        grade_of(p) == ScoreGrade::A <==> 80 <= p < 90,
        grade_of(p) == ScoreGrade::B <==> 70 <= p < 80,
        grade_of(p) == ScoreGrade::C <==> 60 <= p < 70,
        grade_of(p) == ScoreGrade::D <==> 50 <= p < 60,
        grade_of(p) == ScoreGrade::F <==> p < 50,
{
}

/// The number of bands thresholds at 50, 60, 70, 80 and 90 that a score
/// reaches.
pub open spec fn thresholds_reached(p: int) -> int {
    (if p >= 50 { 1int } else { 0int }) + (if p >= 60 { 1int } else { 0int }) + (if p >= 70 {
        1int
    } else {
        0int
    }) + (if p >= 80 { 1int } else { 0int }) + (if p >= 90 { 1int } else { 0int })
}

/// Every ten points from 50 up earn one grade more: a score's grade rank
/// is the number of band thresholds it reaches, and a score ten points
/// higher (up to 100) is exactly one grade better.
pub proof fn law_grade_steps_every_ten_points(p: int)
    requires
        0 <= p <= 100,
    ensures
        grade_rank(grade_of(p)) == thresholds_reached(p),
        50 <= p <= 90 ==> grade_rank(grade_of(p)) == grade_rank(grade_of(p - 10)) + 1,
{
}

} // verus!
