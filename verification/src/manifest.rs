//! The record of what was installed.
//!
//! The manifest says, for each add-on that was installed, which version
//! that was. It is kept apart from what is on disk: it says what was last
//! installed, whatever has happened to the files since.

use crate::dict::Dict;
use vstd::prelude::*;

verus! {

/// What was installed of one add-on.
#[derive(Clone, Debug, PartialEq)]
pub struct Addon {
    /// The version that was installed.
    pub version: String,
    /// The provider that it came from.
    pub provider: String,
    /// The flavor that it was installed for.
    pub flavor: String,
}

/// What was installed, by the identifier of each add-on.
#[derive(Clone, Debug, PartialEq)]
pub struct Manifest {
    pub addons: Dict<Addon>,
}

impl View for Manifest {
    type V = Map<Seq<char>, Addon>;

    open spec fn view(&self) -> Map<Seq<char>, Addon> {
        self.addons@
    }
}

impl Manifest {
    /// The manifest that records nothing.
    pub fn new() -> (r: Manifest)
        ensures
            r@ == Map::<Seq<char>, Addon>::empty(),
    {
        Manifest { addons: Dict::new() }
    }

    /// What was installed of the add-on `id`, if anything was.
    pub fn installed(&self, id: &str) -> (r: Option<&Addon>)
        ensures
            match r {
                Some(addon) => self@.contains_key(id@) && *addon == self@[id@],
                None => !self@.contains_key(id@),
            },
    {
        self.addons.get(id)
    }

    /// Records what was installed of the add-on `id`, in place of what was
    /// recorded of it before.
    pub fn record(&mut self, id: String, addon: Addon)
        ensures
            final(self)@ == old(self)@.insert(id@, addon),
    {
        self.addons.insert(id, addon);
    }
}

} // verus!
