//! Helpers shared by the instrument modules.

use vstd::prelude::*;
use crate::text::same_text;

verus! {

/// A pair of texts as a vector of two owned strings.
pub fn stringvec(a: &str, b: &str) -> (pair: Vec<String>)
    ensures
        pair@.len() == 2,
        pair@[0]@ == a@,
        pair@[1]@ == b@,
{
    let mut pair: Vec<String> = Vec::new();
    pair.push(a.to_owned());
    pair.push(b.to_owned());
    pair
}

/// As `stringvec`, for a second text that is already owned.
pub fn stringvec_b(a: &str, b: String) -> (pair: Vec<String>)
    ensures
        pair@.len() == 2,
        pair@[0]@ == a@,
        pair@[1]@ == b@,
{
    let mut pair: Vec<String> = Vec::new();
    pair.push(a.to_owned());
    pair.push(b);
    pair
}

/// The texts of a list of string slices.
pub open spec fn names_of(names: Seq<&'static str>) -> Seq<Seq<char>> {
    Seq::new(names.len(), |i: int| names[i]@)
}

/// The camera families of a mission, each with the names under which the
/// raw-image service files the cameras of that family.
#[derive(Debug)]
pub struct InstrumentMap {
    pub map: Vec<(&'static str, Vec<&'static str>)>,
}

impl View for InstrumentMap {
    type V = Seq<(Seq<char>, Seq<Seq<char>>)>;

    /// The families in the order in which they were entered, each with the
    /// names of its cameras.
    open spec fn view(&self) -> Seq<(Seq<char>, Seq<Seq<char>>)> {
        Seq::new(self.map@.len(), |i: int| (self.map@[i].0@, names_of(self.map@[i].1@)))
    }
}

impl InstrumentMap {
    /// No family is entered twice.
    pub open spec fn wf(&self) -> bool {
        forall|i: int, j: int| 0 <= i < j < self@.len() ==> self@[i].0 != self@[j].0
    }

    /// Whether `family` is entered.
    pub open spec fn has_family(&self, family: Seq<char>) -> bool {
        exists|i: int| 0 <= i < self@.len() && #[trigger] self@[i].0 == family
    }

    /// The names of the cameras of `family`, as its first entry gives them, or
    /// `None` when the family is not entered.
    pub fn get(&self, family: &str) -> (cameras: Option<&Vec<&'static str>>)
        ensures
            cameras is Some <==> self.has_family(family@),
            cameras matches Some(names) ==> exists|i: int|
                {
                    &&& 0 <= i < self@.len()
                    &&& #[trigger] self@[i].0 == family@
                    &&& self@[i].1 == names_of(names@)
                    &&& forall|k: int| 0 <= k < i ==> #[trigger] self@[k].0 != family@
                },
    {
        let mut i: usize = 0;
        while i < self.map.len()
            invariant
                i <= self.map.len(),
                forall|k: int| 0 <= k < i ==> #[trigger] self@[k].0 != family@,
            decreases self.map.len() - i,
        {
            if same_text(self.map[i].0, family) {
                assert(self@[i as int].0 == family@);
                assert(self@[i as int].1 == names_of(self.map[i as int].1@));
                return Some(&self.map[i].1);
            }
            i += 1;
        }
        None
    }
}

} // verus!
