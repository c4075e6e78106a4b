//! Declared packages.

use crate::intent::{IntentView, VersionIntent};
use vstd::prelude::*;

verus! {

/// The mathematical value of a [`Package`].
pub struct PackageView {
    pub intent: IntentView,
    pub options: Seq<Seq<char>>,
}

/// The texts of a list of strings.
pub open spec fn texts(strings: Seq<String>) -> Seq<Seq<char>> {
    Seq::new(strings.len(), |i: int| strings[i]@)
}

/// A declared package: the intent for its version, and the options that
/// are handed to the installer as they stand, such as feature flags.
#[derive(Debug, PartialEq, Eq)]
pub struct Package {
    pub intent: VersionIntent,
    pub options: Vec<String>,
}

impl View for Package {
    type V = PackageView;

    open spec fn view(&self) -> PackageView {
        PackageView { intent: self.intent@, options: texts(self.options@) }
    }
}

impl Package {
    /// A package with the given intent and no options.
    pub fn new(intent: VersionIntent) -> (package: Package)
        ensures
            package@ == (PackageView { intent: intent@, options: Seq::empty() }),
    {
        let package = Package { intent, options: Vec::new() };
        assert(texts(package.options@) =~= Seq::<Seq<char>>::empty());
        package
    }

    /// A package with the given intent and options.
    pub fn with_options(intent: VersionIntent, options: Vec<String>) -> (package: Package)
        ensures
            package@ == (PackageView { intent: intent@, options: texts(options@) }),
    {
        Package { intent, options }
    }
}

impl Clone for Package {
    fn clone(&self) -> (package: Package)
        ensures
            package@ == self@,
    {
        let mut options: Vec<String> = Vec::new();
        let mut i: usize = 0;
        while i < self.options.len()
            invariant
                i <= self.options@.len(),
                options@.len() == i,
                forall|j: int| 0 <= j < i ==> (#[trigger] options@[j])@ == self.options@[j]@,
            decreases self.options@.len() - i,
        {
            options.push(self.options[i].clone());
            i += 1;
        }
        assert(texts(options@) =~= texts(self.options@));
        Package { intent: self.intent.clone(), options }
    }
}

} // verus!
