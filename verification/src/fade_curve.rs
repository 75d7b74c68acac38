use vstd::prelude::*;
use crate::text::{decimal_string, spec_decimal};

verus! {

broadcast use vstd::string::group_string_axioms;

/// The shape of a fade between two levels.
#[derive(Debug)]
pub enum FadeCurve {
    Linear,
    Squared,
    SquareRoot,
    /// Half-waves of a cosine: `-cos((i + 0.5) * 2 pi * x) / 2 + 1/2`.
    Sin(u8),
    /// A formula in `x`.
    Custom(String),
}

impl Clone for FadeCurve {
    fn clone(&self) -> (r: Self)
        ensures
            r == *self,
    {
        match self {
            FadeCurve::Linear => FadeCurve::Linear,
            FadeCurve::Squared => FadeCurve::Squared,
            FadeCurve::SquareRoot => FadeCurve::SquareRoot,
            FadeCurve::Sin(i) => FadeCurve::Sin(*i),
            FadeCurve::Custom(e) => FadeCurve::Custom(e.clone()),
        }
    }
}

/// The formula text of a curve that is given by a formula.
pub open spec fn spec_expression_text(curve: FadeCurve) -> Option<Seq<char>> {
    match curve {
        FadeCurve::Sin(i) => Some("-cos("@ + spec_decimal(i as nat) + ".5*6.28318530718*x)*0.5+0.5"@),
        FadeCurve::Custom(e) => Some(e@),
        _ => None,
    }
}

impl FadeCurve {
    /// The formula (in the variable `x`) that a `Sin` or `Custom` curve is
    /// evaluated by; the other curves are built-in functions and have none.
    pub fn expression_text(&self) -> (r: Option<String>)
        ensures
            r matches Some(s) ==> spec_expression_text(*self) == Some(s@),
            r is None ==> spec_expression_text(*self) is None,
    {
        match self {
            FadeCurve::Sin(i) => {
                let mut s = "-cos(".to_string();
                let d = decimal_string(*i as usize);
                s.append(d.as_str());
                s.append(".5*6.28318530718*x)*0.5+0.5");
                Some(s)
            },
            FadeCurve::Custom(e) => Some(e.clone()),
            _ => None,
        }
    }
}

} // verus!
