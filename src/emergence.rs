use vstd::prelude::*;

verus! {

/// The two states the classifier tells apart: a coherence of at least 0.6
/// is `Order`, anything below it is `Chaos`.
#[derive(Clone, Copy, Debug, PartialEq, Eq, Structural)]
pub enum Mode {
    Order,
    Chaos,
}

/// The name under which a mode is reported.
pub open spec fn mode_label(m: Mode) -> Seq<char> {
    match m {
        Mode::Order => "ORDER"@,
        Mode::Chaos => "CHAOS"@,
    }
}

impl Mode {
    /// The name under which this mode is reported: "ORDER" or "CHAOS".
    pub fn label(&self) -> (r: &'static str)
        ensures
            r@ == mode_label(*self),
    {
        match self {
            Mode::Order => "ORDER",
            Mode::Chaos => "CHAOS",
        }
    }
}

/// The number of pairs two sequences of lengths `len_a` and `len_b` make for
/// a correlation: their common length, or `None` where the lengths differ or
/// are zero. A correlation over no pairs is reported as coherence 0.
pub fn paired_length(len_a: usize, len_b: usize) -> (r: Option<usize>)
    ensures
        r == (if len_a == len_b && len_a > 0 {
            Some(len_a)
        } else {
            None::<usize>
        }),
{
    if len_a != len_b || len_a == 0 {
        None
    } else {
        Some(len_a)
    }
}

} // verus!
