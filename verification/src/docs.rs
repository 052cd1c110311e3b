//! The record that documents one kernel parameter.

use crate::section::SysctlSection;
use vstd::prelude::*;

verus! {

/// Documentation of a kernel parameter.
#[derive(Clone, Debug)]
pub struct Documentation {
    /// Name of the kernel parameter.
    pub name: String,
    /// Description of the kernel parameter.
    pub description: String,
    /// Section of the kernel parameter.
    pub section: SysctlSection,
}

/// What a `Documentation` holds, as plain sequences of characters.
pub ghost struct Entry {
    /// Name of the kernel parameter.
    pub name: Seq<char>,
    /// Description of the kernel parameter.
    pub description: Seq<char>,
    /// Section of the kernel parameter.
    pub section: SysctlSection,
}

impl Entry {
    /// A record names its parameter on one line: the name is not empty and
    /// holds no line break.
    pub open spec fn well_formed(self) -> bool {
        self.name.len() > 0 && !self.name.contains('\n')
    }

    /// How the record is shown: a heading of section and name, then the
    /// description, each followed by an empty line.
    pub open spec fn rendered(self) -> Seq<char> {
        "## "@ + self.section.name() + "::"@ + self.name + "\n\n"@ + self.description + "\n\n"@
    }
}

impl View for Documentation {
    type V = Entry;

    open spec fn view(&self) -> Entry {
        Entry { name: self.name@, description: self.description@, section: self.section }
    }
}

/// The entries that a sequence of records stands for.
pub open spec fn entries(docs: Seq<Documentation>) -> Seq<Entry> {
    Seq::new(docs.len(), |i: int| docs[i]@)
}

impl Documentation {
    /// Constructs a new instance.
    pub fn new(name: String, description: String, section: SysctlSection) -> (doc: Self)
        ensures
            doc.name == name,
            doc.description == description,
            doc.section == section,
    {
        Self { name, description, section }
    }

    /// The text that shows the record.
    pub fn render(&self) -> (text: String)
        ensures
            text@ == self@.rendered(),
    {
        let mut text = String::from_str("## ");
        text.append(self.section.as_str());
        text.append("::");
        text.append(self.name.as_str());
        text.append("\n\n");
        text.append(self.description.as_str());
        text.append("\n\n");
        text
    }
}

} // verus!
