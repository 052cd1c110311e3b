//! Assembly of the catalog: the records of all sections, section by
//! section in the sections' fixed order.
//!
//! The texts are read elsewhere. The catalog says which section's text it
//! awaits, takes what the reading gave, and hands out its records only when
//! every section has been taken in. A reading that failed ends the assembly:
//! the failure goes back to the caller as it came, and no catalog is left.

use crate::docs::{entries, Documentation, Entry};
use crate::error::Error;
use crate::extract::extract;
use crate::scan::{extract_spec, lemma_records_are_sound};
use crate::section::SysctlSection;
use vstd::prelude::*;

verus! {

/// The records of the first sections, as many as there are `texts`: those of
/// each section's text, one section after the other.
pub open spec fn assembled(texts: Seq<Seq<char>>) -> Seq<Entry>
    recommends
        texts.len() <= SysctlSection::all().len(),
    decreases texts.len(),
{
    if texts.len() == 0 {
        Seq::<Entry>::empty()
    } else {
        assembled(texts.drop_last()) + extract_spec(
            texts.last(),
            SysctlSection::all()[texts.len() - 1],
        )
    }
}

/// A catalog under assembly.
pub struct Catalog {
    records: Vec<Documentation>,
    taken: usize,
    texts: Ghost<Seq<Seq<char>>>,
}

impl Catalog {
    #[verifier::type_invariant]
    spec fn sound(&self) -> bool {
        &&& self.texts@.len() == self.taken
        &&& self.taken <= SysctlSection::all().len()
        &&& entries(self.records@) == assembled(self.texts@)
    }

    /// The texts taken in so far, in the order of their sections.
    pub closed spec fn texts(&self) -> Seq<Seq<char>> {
        self.texts@
    }

    /// Every section's text has been taken in.
    pub open spec fn complete(&self) -> bool {
        self.texts().len() >= SysctlSection::all().len()
    }

    /// The section whose text comes next.
    pub open spec fn awaited(&self) -> Option<SysctlSection> {
        if self.complete() {
            None
        } else {
            Some(SysctlSection::all()[self.texts().len() as int])
        }
    }

    /// A catalog that has taken in nothing yet.
    pub fn new() -> (catalog: Catalog)
        ensures
            catalog.texts() == Seq::<Seq<char>>::empty(),
    {
        let records: Vec<Documentation> = Vec::new();
        let ghost texts = Seq::<Seq<char>>::empty();
        assert(entries(records@) =~= assembled(texts));
        Catalog { records, taken: 0, texts: Ghost(texts) }
    }

    /// The section whose text is to be read next, or `None` once every
    /// section has been taken in.
    pub fn pending(&self) -> (section: Option<SysctlSection>)
        ensures
            section == self.awaited(),
            self.texts().len() <= SysctlSection::all().len(),
    {
        proof {
            use_type_invariant(self);
        }
        let all = SysctlSection::variants();
        if self.taken < all.len() {
            Some(all[self.taken])
        } else {
            None
        }
    }

    /// Takes what the reading of the awaited section's text gave.
    ///
    /// A text adds the records that it gives for that section, after those of
    /// the sections before it. A failure comes back unchanged, and the
    /// catalog is gone. Once the catalog is complete, a further text changes
    /// nothing.
    pub fn supply(self, outcome: Result<String, Error>) -> (next: Result<Catalog, Error>)
        ensures
            match outcome {
                Err(failure) => next == Err::<Catalog, Error>(failure),
                Ok(text) => next is Ok && next->Ok_0.texts() == if self.complete() {
                    self.texts()
                } else {
                    self.texts().push(text@)
                },
            },
    {
        proof {
            use_type_invariant(&self);
        }
        match outcome {
            Err(failure) => Err(failure),
            Ok(text) => {
                let all = SysctlSection::variants();
                if self.taken >= all.len() {
                    return Ok(self);
                }
                let mut records = self.records;
                let mut fresh = extract(text.as_str(), all[self.taken]);
                let ghost before = entries(records@);
                let ghost added = entries(fresh@);
                let ghost texts = self.texts@.push(text@);
                records.append(&mut fresh);
                proof {
                    assert(texts.drop_last() =~= self.texts@);
                    assert(entries(records@) =~= before + added);
                }
                Ok(Catalog { records, taken: self.taken + 1, texts: Ghost(texts) })
            },
        }
    }

    /// The records of the catalog, once it is complete; `None` before.
    pub fn finish(self) -> (records: Option<Vec<Documentation>>)
        ensures
            self.complete() ==> records is Some && entries(records->Some_0@) == assembled(
                self.texts(),
            ),
            !self.complete() ==> records is None,
    {
        proof {
            use_type_invariant(&self);
        }
        if self.taken >= SysctlSection::variants().len() {
            Some(self.records)
        } else {
            None
        }
    }
}

/// Every record of a catalog has a name that is not empty and stands on one
/// line, and the section of the text that gave it, which is never `Unknown`.
pub proof fn lemma_assembled_records(texts: Seq<Seq<char>>)
    requires
        texts.len() <= SysctlSection::all().len(),
    ensures
        forall|i: int|
            0 <= i < assembled(texts).len() ==> {
                &&& (#[trigger] assembled(texts)[i]).well_formed()
                &&& SysctlSection::all().contains(assembled(texts)[i].section)
                &&& assembled(texts)[i].section != SysctlSection::Unknown
            },
    decreases texts.len(),
{
    if texts.len() > 0 {
        let section = SysctlSection::all()[texts.len() - 1];
        lemma_assembled_records(texts.drop_last());
        lemma_records_are_sound(texts.last(), section);
        let all = assembled(texts);
        let init = assembled(texts.drop_last());
        assert forall|i: int| 0 <= i < all.len() implies {
            &&& (#[trigger] all[i]).well_formed()
            &&& SysctlSection::all().contains(all[i].section)
            &&& all[i].section != SysctlSection::Unknown
        } by {
            if i < init.len() {
                assert(all[i] == init[i]);
            } else {
                assert(all[i] == extract_spec(texts.last(), section)[i - init.len()]);
                assert(all[i].section == section);
            }
        }
    }
}

} // verus!
