use vstd::prelude::*;
use vstd::slice::slice_to_vec;
use vstd::std_specs::cmp::PartialEqSpec;
use vstd::string::StringExecFns;

verus! {

/// A digit label together with its representation in pixels.
#[derive(Clone, Debug)]
pub struct Observation {
    pub label: String,
    pub pixels: Vec<i32>,
}

/// The mathematical value of an observation: the label's characters and the
/// ordered pixel sequence.
pub struct ObsView {
    pub label: Seq<char>,
    pub pixels: Seq<i32>,
}

impl View for Observation {
    type V = ObsView;

    open spec fn view(&self) -> ObsView {
        ObsView { label: self.label@, pixels: self.pixels@ }
    }
}

/// The views of a sequence of observations, element by element.
pub open spec fn obs_views(s: Seq<Observation>) -> Seq<ObsView> {
    s.map_values(|o: Observation| o@)
}

impl Observation {
    /// Constructs an observation from a label and the pixels representing the
    /// image; both are copied, so the observation owns its data.
    pub fn new(label: &str, pixels: &[i32]) -> (r: Observation)
        ensures
            r@.label == label@,
            r@.pixels == pixels@,
    {
        Observation { label: String::from_str(label), pixels: slice_to_vec(pixels) }
    }
}

impl PartialEq for Observation {
    /// Two observations are equal exactly when their labels and their pixel
    /// sequences are equal.
    fn eq(&self, other: &Self) -> (r: bool) {
        let labels_eq = self.label == other.label;
        let pixels_eq = self.pixels == other.pixels;
        proof {
            if pixels_eq {
                assert(self.pixels@ =~= other.pixels@);
            }
            if self.pixels@ == other.pixels@ {
                assert(self.pixels.eq_spec(&other.pixels));
            }
        }
        labels_eq && pixels_eq
    }
}

impl vstd::std_specs::cmp::PartialEqSpecImpl for Observation {
    open spec fn obeys_eq_spec() -> bool {
        true
    }

    open spec fn eq_spec(&self, other: &Observation) -> bool {
        self@ == other@
    }
}

} // verus!
