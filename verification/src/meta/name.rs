use crate::disk::{Location, LocationView};
use crate::meta::filetype::FileType;
use vstd::prelude::*;

verus! {

/// The name under which an entry is shown.
#[derive(Clone, Debug, PartialEq, Eq)]
pub struct Name {
    pub name: String,
    pub file_type: FileType,
}

pub struct NameView {
    pub name: Seq<char>,
    pub file_type: FileType,
}

impl View for Name {
    type V = NameView;

    open spec fn view(&self) -> NameView {
        NameView { name: self.name@, file_type: self.file_type }
    }
}

impl Name {
    /// The final component of the path where it has one, else the whole path.
    pub open spec fn spec_new(location: LocationView, file_type: FileType) -> NameView {
        NameView {
            name: match location.file_name {
                Some(n) => n,
                None => location.path,
            },
            file_type,
        }
    }

    pub fn new(location: &Location, file_type: FileType) -> (n: Name)
        ensures
            n@ == Self::spec_new(location@, file_type),
    {
        let name = match &location.file_name {
            Some(n) => n.clone(),
            None => location.path.clone(),
        };
        Name { name, file_type }
    }

    pub fn duplicate(&self) -> (n: Name)
        ensures
            n@ == self@,
    {
        Name { name: self.name.clone(), file_type: self.file_type }
    }
}

} // verus!
