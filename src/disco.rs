//! Service discovery: the features this client announces.
use vstd::prelude::*;

verus! {

/// The announced features, in the order they were added.
pub struct Disco<'a> {
    features: Vec<&'a str>,
}

impl<'a> Disco<'a> {
    /// The texts of the announced features.
    pub closed spec fn spec_features(&self) -> Seq<Seq<char>> {
        self.features@.map_values(|f: &'a str| f@)
    }

    /// No feature announced yet.
    pub fn new() -> (r: Self)
        ensures
            r.spec_features() == Seq::<Seq<char>>::empty(),
    {
        let r = Disco { features: Vec::new() };
        assert(r.spec_features() =~= Seq::<Seq<char>>::empty());
        r
    }

    /// Announce `feature` after the others; this always succeeds.
    pub fn add_feature(&mut self, feature: &'a str) -> (r: Result<(), ()>)
        ensures
            r is Ok,
            final(self).spec_features() == old(self).spec_features().push(feature@),
    {
        self.features.push(feature);
        assert(self.spec_features() =~= old(self).spec_features().push(feature@));
        Ok(())
    }

    /// Number of announced features.
    pub fn len(&self) -> (r: usize)
        ensures
            r == self.spec_features().len(),
    {
        self.features.len()
    }
}

} // verus!
