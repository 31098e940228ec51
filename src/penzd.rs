//! Output records: point, easting, northing, level (Z) and description.
//!
//! Floating-point quantities are held as their IEEE-754 binary64 bit
//! patterns, so that carrying one through is exact.

use vstd::prelude::*;

verus! {

/// A decoded survey point; the coordinates (degrees) and the height are
/// binary64 bit patterns.
#[derive(Clone, Copy, Debug, PartialEq, Eq, Structural)]
pub struct SurveyPoint {
    pub point: u16,
    pub longitude: u64,
    pub latitude: u64,
    pub ahd: u64,
}

/// The grid position of a point, in metres, as binary64 bit patterns.
#[derive(Clone, Copy, Debug, PartialEq, Eq, Structural)]
pub struct Projection {
    pub northing: u64,
    pub easting: u64,
}

/// An output record.
#[derive(Debug)]
pub struct Penzd {
    pub point: u16,
    pub easting: u64,
    pub northing: u64,
    pub level: u64,
    pub description: String,
}

pub struct PenzdView {
    pub point: u16,
    pub easting: u64,
    pub northing: u64,
    pub level: u64,
    pub description: Seq<char>,
}

impl View for Penzd {
    type V = PenzdView;

    open spec fn view(&self) -> PenzdView {
        PenzdView {
            point: self.point,
            easting: self.easting,
            northing: self.northing,
            level: self.level,
            description: self.description@,
        }
    }
}

/// The record for point `p` at grid position `g`: the identifier and the
/// height are carried over, the description is empty.
pub open spec fn penzd_of(p: SurveyPoint, g: Projection) -> PenzdView {
    PenzdView {
        point: p.point,
        easting: g.easting,
        northing: g.northing,
        level: p.ahd,
        description: Seq::empty(),
    }
}

/// Builds the record for one point from its grid position.
pub fn to_penzd(p: &SurveyPoint, g: &Projection) -> (r: Penzd)
    ensures
        r@ == penzd_of(*p, *g),
{
    let r = Penzd {
        point: p.point,
        easting: g.easting,
        northing: g.northing,
        level: p.ahd,
        description: String::new(),
    };
    assert(r@.description =~= Seq::<char>::empty());
    r
}

/// Builds one record for each point, in order, from the grid position at
/// the same place in `projections`.
pub fn convert_all(points: &Vec<SurveyPoint>, projections: &Vec<Projection>) -> (r: Vec<Penzd>)
    requires
        points.len() == projections.len(),
    ensures
        r.len() == points.len(),
        forall|i: int| 0 <= i < r.len() ==> #[trigger] r[i]@ == penzd_of(points[i], projections[i]),
        forall|i: int|
            0 <= i < r.len() ==> #[trigger] r[i].point == points[i].point && r[i].level
                == points[i].ahd,
        forall|i: int| 0 <= i < r.len() ==> #[trigger] r[i].description@ == Seq::<char>::empty(),
{
    let mut out: Vec<Penzd> = Vec::new();
    let mut i: usize = 0;
    while i < points.len()
        invariant
            points.len() == projections.len(),
            0 <= i <= points.len(),
            out.len() == i,
            forall|k: int| 0 <= k < i ==> #[trigger] out[k]@ == penzd_of(points[k], projections[k]),
        decreases points.len() - i,
    {
        out.push(to_penzd(&points[i], &projections[i]));
        i = i + 1;
    }
    assert forall|k: int| 0 <= k < out.len() implies #[trigger] out[k].description@ == Seq::<
        char,
    >::empty() by {
        assert(out[k]@ == penzd_of(points[k], projections[k]));
    }
    assert forall|k: int| 0 <= k < out.len() implies #[trigger] out[k].point == points[k].point
        && out[k].level == points[k].ahd by {
        assert(out[k]@ == penzd_of(points[k], projections[k]));
    }
    out
}

} // verus!
