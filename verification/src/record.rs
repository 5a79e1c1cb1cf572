use vstd::prelude::*;

verus! {

/// The credential record associated with an issued key: a free-form
/// organization name and a non-negative authorization level.
#[derive(Clone, Debug)]
pub struct Details {
    pub org: String,
    pub auth_level: usize,
}

/// The mathematical value of a `Details` record: the organization text and
/// the level as unbounded numbers.
pub struct DetailsView {
    pub org: Seq<char>,
    pub auth_level: nat,
}

impl View for Details {
    type V = DetailsView;

    open spec fn view(&self) -> DetailsView {
        DetailsView { org: self.org@, auth_level: self.auth_level as nat }
    }
}

impl Details {
    /// Builds a record from its two fields, exactly as given.
    pub fn new(org: String, auth_level: usize) -> (r: Details)
        ensures
            r@.org == org@,
            r@.auth_level == auth_level as nat,
    {
        Details { org, auth_level }
    }
}

} // verus!
