//! What is remembered of a contact besides its geometry.

use vstd::prelude::*;

verus! {

/// The part of a shape that a contact lies on.
#[derive(Clone, Copy, Debug, PartialEq, Eq, Structural)]
pub enum FeatureId {
    /// A vertex of the shape, by its number.
    Vertex(usize),
    /// An edge of the shape, by its number.
    Edge(usize),
    /// A face of the shape, by its number.
    Face(usize),
    /// A part that has no number, or is not known.
    Unknown,
}

/// The bookkeeping that lets a contact be recognised from one step to the
/// next: the parts of the two shapes that it lies on.
#[derive(Clone, Copy, Debug, PartialEq, Eq, Structural)]
pub struct ContactKinematic {
    pub feature1: FeatureId,
    pub feature2: FeatureId,
}

impl ContactKinematic {
    /// The bookkeeping of a contact of which nothing is known.
    pub fn new() -> (k: ContactKinematic)
        ensures
            k == (ContactKinematic { feature1: FeatureId::Unknown, feature2: FeatureId::Unknown }),
    {
        ContactKinematic { feature1: FeatureId::Unknown, feature2: FeatureId::Unknown }
    }

    /// Sets the part of the first shape that the contact lies on.
    pub fn set_feature1(&mut self, feature: FeatureId)
        ensures
            *final(self) == (ContactKinematic { feature1: feature, feature2: old(self).feature2 }),
    {
        self.feature1 = feature;
    }

    /// Sets the part of the second shape that the contact lies on.
    pub fn set_feature2(&mut self, feature: FeatureId)
        ensures
            *final(self) == (ContactKinematic { feature1: old(self).feature1, feature2: feature }),
    {
        self.feature2 = feature;
    }

    /// The part of the first shape that the contact lies on.
    pub fn feature1(&self) -> (f: FeatureId)
        ensures
            f == self.feature1,
    {
        self.feature1
    }

    /// The part of the second shape that the contact lies on.
    pub fn feature2(&self) -> (f: FeatureId)
        ensures
            f == self.feature2,
    {
        self.feature2
    }
}

} // verus!
