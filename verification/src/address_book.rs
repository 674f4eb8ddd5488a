use vstd::prelude::*;
use vstd::std_specs::cmp::PartialEqSpecImpl;

verus! {

/// A user's address book: an opaque serialized blob that is stored, copied
/// and compared, never interpreted.
#[derive(Debug, Eq)]
pub struct AddressBook {
    pub ab: String,
}

impl View for AddressBook {
    type V = Seq<char>;

    open spec fn view(&self) -> Seq<char> {
        self.ab@
    }
}

impl Clone for AddressBook {
    fn clone(&self) -> (copy: Self)
        ensures
            copy@ == self@,
    {
        AddressBook { ab: self.ab.clone() }
    }
}

impl PartialEq for AddressBook {
    fn eq(&self, other: &Self) -> (r: bool) {
        self.ab == other.ab
    }
}

impl PartialEqSpecImpl for AddressBook {
    open spec fn obeys_eq_spec() -> bool {
        true
    }

    open spec fn eq_spec(&self, other: &Self) -> bool {
        self.ab@ == other.ab@
    }
}

impl AddressBook {
    /// The address book of a user who has none yet: the text `{}`.
    pub fn empty() -> (book: Self)
        ensures
            book@ == "{}"@,
    {
        Self { ab: "{}".to_owned() }
    }
}

} // verus!
