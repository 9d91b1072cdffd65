use vstd::prelude::*;

verus! {

/// How values between keyframes are computed.
#[derive(Debug, Clone, Copy, PartialEq, Eq, Structural)]
pub enum Interpolation {
    Step,
    Linear,
    CubicSpline,
}

} // verus!
