use vstd::prelude::*;

verus! {

/// A dependency declaration for a step: either a single name or a list of
/// names. Both forms normalize to one ordered sequence of names.
#[derive(Debug, PartialEq)]
pub enum Requirement {
    One(String),
    Many(Vec<String>),
}

impl Requirement {
    /// The ordered sequence of dependency names this declaration stands for:
    /// a single name becomes a one-element sequence, a list keeps its order.
    pub open spec fn names(&self) -> Seq<Seq<char>> {
        match *self {
            Requirement::One(s) => seq![s@],
            Requirement::Many(v) => v.deep_view(),
        }
    }

    /// Normalizes the declaration into an ordered vector of names.
    pub fn to_vec(&self) -> (r: Vec<String>)
        ensures
            r.deep_view() == self.names(),
    {
        match *self {
            Requirement::One(ref string) => {
                let r = vec![string.clone()];
                proof {
                    assert(r.deep_view() =~= self.names());
                }
                r
            },
            Requirement::Many(ref v) => {
                let r = v.clone();
                proof {
                    assert(forall|i: int| 0 <= i < v@.len() ==> r.deep_view()[i] == v.deep_view()[i]);
                    assert(r.deep_view() =~= v.deep_view());
                }
                r
            },
        }
    }
}

} // verus!
