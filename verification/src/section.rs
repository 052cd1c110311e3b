//! The sections of the sysctl documentation.

use crate::text::{begins, same_chars, starts_with, to_chars};
use std::path::Path;
use vstd::prelude::*;

verus! {

/// Sections of the sysctl documentation.
#[derive(Clone, Copy, Debug, PartialEq, Eq, Structural)]
pub enum SysctlSection {
    /// Documentation for `/proc/sys/abi/*`
    Abi,
    /// Documentation for `/proc/sys/fs/*`
    Fs,
    /// Documentation for `/proc/sys/kernel/*`
    Kernel,
    /// Documentation for `/proc/sys/net/*`
    Net,
    /// Documentation for `/proc/sys/sunrpc/*`
    Sunrpc,
    /// Documentation for `/proc/sys/user/*`
    User,
    /// Documentation for `/proc/sys/vm/*`
    Vm,
    /// Unknown.
    Unknown,
}

/// Whether `part` stands somewhere in `whole` as one unbroken run.
pub open spec fn occurs_in(part: Seq<char>, whole: Seq<char>) -> bool {
    exists|i: int, j: int| 0 <= i <= j <= whole.len() && #[trigger] whole.subrange(i, j) == part
}

/// The stem of the file that the path spelled by `path` leads to: the final
/// component of the path without its extension, as `Path::file_stem` gives
/// it, and `None` where the path has no such component.
pub uninterp spec fn path_stem(path: Seq<char>) -> Option<Seq<char>>;

/// `Path::file_stem` on the path that `path` spells, as text. The result is
/// the stem of the path, and a stem is a part of the path's own text.
#[verifier::external_body]
fn file_stem_of(path: &str) -> (stem: Option<String>)
    ensures
        match stem {
            Some(text) => path_stem(path@) == Some(text@) && occurs_in(text@, path@),
            None => path_stem(path@) is None,
        },
{
    Path::new(path).file_stem().and_then(|v| v.to_str()).map(String::from)
}

impl SysctlSection {
    /// The sections in their fixed order. `Unknown` is none of them.
    pub open spec fn all() -> Seq<SysctlSection> {
        seq![
            SysctlSection::Abi,
            SysctlSection::Fs,
            SysctlSection::Kernel,
            SysctlSection::Net,
            SysctlSection::Sunrpc,
            SysctlSection::User,
            SysctlSection::Vm,
        ]
    }

    /// The lowercase name of the section, as it names the section's file and
    /// as it is shown.
    pub open spec fn name(self) -> Seq<char> {
        match self {
            SysctlSection::Abi => "abi"@,
            SysctlSection::Fs => "fs"@,
            SysctlSection::Kernel => "kernel"@,
            SysctlSection::Net => "net"@,
            SysctlSection::Sunrpc => "sunrpc"@,
            SysctlSection::User => "user"@,
            SysctlSection::Vm => "vm"@,
            SysctlSection::Unknown => "unknown"@,
        }
    }

    /// What begins the dotted name of every parameter of the section: the
    /// section's name and a dot.
    pub open spec fn prefix(self) -> Seq<char> {
        self.name().push('.')
    }

    /// The first section in the fixed order, from position `k` on, that
    /// `fits`; `Unknown` where none does.
    pub open spec fn first_where(fits: spec_fn(SysctlSection) -> bool, k: int) -> SysctlSection
        decreases Self::all().len() - k,
    {
        if 0 <= k < Self::all().len() {
            if fits(Self::all()[k]) {
                Self::all()[k]
            } else {
                Self::first_where(fits, k + 1)
            }
        } else {
            SysctlSection::Unknown
        }
    }

    /// The sections whose prefix begins `name`.
    pub open spec fn begin_dotted(name: Seq<char>) -> spec_fn(SysctlSection) -> bool {
        |section: SysctlSection| begins(name, section.prefix())
    }

    /// The sections whose name is `stem`.
    pub open spec fn named(stem: Seq<char>) -> spec_fn(SysctlSection) -> bool {
        |section: SysctlSection| stem == section.name()
    }

    /// The section that a dotted parameter name belongs to: the first whose
    /// prefix begins it.
    pub open spec fn of_dotted(name: Seq<char>) -> SysctlSection {
        Self::first_where(Self::begin_dotted(name), 0)
    }

    /// The section that a file belongs to, by the file's stem: the first
    /// whose name is the stem. A file without a stem belongs to none.
    pub open spec fn of_stem(stem: Option<Seq<char>>) -> SysctlSection {
        match stem {
            Some(text) => Self::first_where(Self::named(text), 0),
            None => SysctlSection::Unknown,
        }
    }

    /// Returns the variants.
    pub fn variants() -> (all: &'static [SysctlSection])
        ensures
            all@ == Self::all(),
    {
        &[Self::Abi, Self::Fs, Self::Kernel, Self::Net, Self::Sunrpc, Self::User, Self::Vm]
    }

    /// The section's lowercase name.
    pub fn as_str(&self) -> (s: &'static str)
        ensures
            s@ == self.name(),
    {
        match self {
            SysctlSection::Abi => "abi",
            SysctlSection::Fs => "fs",
            SysctlSection::Kernel => "kernel",
            SysctlSection::Net => "net",
            SysctlSection::Sunrpc => "sunrpc",
            SysctlSection::User => "user",
            SysctlSection::Vm => "vm",
            SysctlSection::Unknown => "unknown",
        }
    }

    /// The section's lowercase name, as the section is shown.
    pub fn to_string(&self) -> (s: String)
        ensures
            s@ == self.name(),
    {
        String::from_str(self.as_str())
    }

    /// The section of the file with the given stem.
    pub fn from_stem(stem: Option<&str>) -> (section: SysctlSection)
        ensures
            section == Self::of_stem(
                match stem {
                    Some(text) => Some(text@),
                    None => None,
                },
            ),
    {
        match stem {
            None => SysctlSection::Unknown,
            Some(text) => {
                let wanted = to_chars(text);
                let all = Self::variants();
                let mut k: usize = 0;
                while k < all.len()
                    invariant
                        k <= all.len(),
                        all@ == Self::all(),
                        wanted@ == text@,
                        stem == Some(text),
                        Self::of_stem(Some(text@)) == Self::first_where(Self::named(text@), k as int),
                    decreases all.len() - k,
                {
                    let name = to_chars(all[k].as_str());
                    if same_chars(&wanted, &name) {
                        return all[k];
                    }
                    k += 1;
                }
                SysctlSection::Unknown
            },
        }
    }

    /// The section that the dotted name of a parameter begins with.
    pub fn from_dotted_name(name: &str) -> (section: SysctlSection)
        ensures
            section == Self::of_dotted(name@),
    {
        let wanted = to_chars(name);
        let all = Self::variants();
        let mut k: usize = 0;
        while k < all.len()
            invariant
                k <= all.len(),
                all@ == Self::all(),
                wanted@ == name@,
                Self::of_dotted(name@) == Self::first_where(Self::begin_dotted(name@), k as int),
            decreases all.len() - k,
        {
            let mut prefix = to_chars(all[k].as_str());
            prefix.push('.');
            if starts_with(&wanted, &prefix) {
                return all[k];
            }
            k += 1;
        }
        SysctlSection::Unknown
    }

    /// The section of the documentation file at `path`, by the file's stem:
    /// the section whose name the stem is, and `Unknown` where the stem is no
    /// section's name or the path has no stem. A section other than `Unknown`
    /// comes back only where its name stands in the path.
    pub fn from_path(path: &str) -> (section: SysctlSection)
        ensures
            section == Self::of_stem(path_stem(path@)),
            section != SysctlSection::Unknown ==> Self::all().contains(section) && occurs_in(
                section.name(),
                path@,
            ),
    {
        let stem = file_stem_of(path);
        match &stem {
            Some(text) => {
                proof {
                    Self::lemma_of_stem(text@);
                }
                Self::from_stem(Some(text.as_str()))
            },
            None => Self::from_stem(None),
        }
    }

    /// No two sections have names that begin alike.
    pub proof fn lemma_names_differ()
        ensures
            forall|i: int, j: int|
                0 <= i < Self::all().len() && 0 <= j < Self::all().len() && i != j ==> {
                    &&& (#[trigger] Self::all()[i]).name().len() > 0
                    &&& Self::all()[i].name()[0] != (#[trigger] Self::all()[j]).name()[0]
                },
    {
        reveal_strlit("abi");
        reveal_strlit("fs");
        reveal_strlit("kernel");
        reveal_strlit("net");
        reveal_strlit("sunrpc");
        reveal_strlit("user");
        reveal_strlit("vm");
    }

    /// A file belongs to a section exactly when its stem is the section's
    /// name, and to `Unknown` exactly when it is no section's name.
    pub proof fn lemma_of_stem(stem: Seq<char>)
        ensures
            forall|i: int|
                0 <= i < Self::all().len() ==> (Self::of_stem(Some(stem)) == #[trigger] Self::all()[i]
                    <==> stem == Self::all()[i].name()),
            Self::of_stem(Some(stem)) == SysctlSection::Unknown <==> forall|i: int|
                0 <= i < Self::all().len() ==> stem != (#[trigger] Self::all()[i]).name(),
            Self::of_stem(None) == SysctlSection::Unknown,
    {
        Self::lemma_names_differ();
        Self::lemma_first_where(Self::named(stem), 0);
    }

    /// A dotted name belongs to a section exactly when the section's name
    /// and a dot begin it, and to `Unknown` exactly when no section's do.
    pub proof fn lemma_of_dotted(name: Seq<char>)
        ensures
            forall|i: int|
                0 <= i < Self::all().len() ==> (Self::of_dotted(name) == #[trigger] Self::all()[i]
                    <==> begins(name, Self::all()[i].prefix())),
            Self::of_dotted(name) == SysctlSection::Unknown <==> forall|i: int|
                0 <= i < Self::all().len() ==> !begins(name, (#[trigger] Self::all()[i]).prefix()),
    {
        Self::lemma_names_differ();
        Self::lemma_first_where(Self::begin_dotted(name), 0);
        assert forall|i: int|
            0 <= i < Self::all().len() && begins(
                name,
                (#[trigger] Self::all()[i]).prefix(),
            ) implies name.len() > 0 && name[0] == Self::all()[i].name()[0] by {
            let p = Self::all()[i].prefix();
            assert(name.subrange(0, p.len() as int)[0] == name[0]);
            assert(p[0] == Self::all()[i].name()[0]);
        }
    }

    /// What `first_where` returns is the first section that fits, and
    /// `Unknown` only where none fits.
    pub proof fn lemma_first_where(fits: spec_fn(SysctlSection) -> bool, k: int)
        requires
            0 <= k <= Self::all().len(),
        ensures
            Self::first_where(fits, k) == SysctlSection::Unknown ==> forall|i: int|
                k <= i < Self::all().len() ==> !fits(#[trigger] Self::all()[i]),
            Self::first_where(fits, k) != SysctlSection::Unknown ==> exists|i: int|
                k <= i < Self::all().len() && Self::first_where(fits, k) == #[trigger] Self::all()[i]
                    && fits(Self::all()[i]) && Self::none_fits(fits, k, i),
        decreases Self::all().len() - k,
    {
        if k < Self::all().len() {
            Self::lemma_first_where(fits, k + 1);
            if !fits(Self::all()[k]) && Self::first_where(fits, k) != SysctlSection::Unknown {
                let i = choose|i: int|
                    k + 1 <= i < Self::all().len() && Self::first_where(fits, k + 1)
                        == #[trigger] Self::all()[i] && fits(Self::all()[i]) && Self::none_fits(
                        fits,
                        k + 1,
                        i,
                    );
                assert(Self::none_fits(fits, k, i));
            } else if fits(Self::all()[k]) {
                assert(Self::none_fits(fits, k, k));
            }
        }
    }

    /// No section at a position from `from` up to `to` fits.
    pub open spec fn none_fits(fits: spec_fn(SysctlSection) -> bool, from: int, to: int) -> bool {
        forall|j: int| from <= j < to ==> !fits(#[trigger] Self::all()[j])
    }
}

impl From<String> for SysctlSection {
    /// The section that the dotted name of a parameter begins with.
    fn from(value: String) -> (section: SysctlSection) {
        SysctlSection::from_dotted_name(value.as_str())
    }
}

impl vstd::std_specs::convert::FromSpecImpl<String> for SysctlSection {
    open spec fn obeys_from_spec() -> bool {
        true
    }

    open spec fn from_spec(v: String) -> SysctlSection {
        SysctlSection::of_dotted(v@)
    }
}

} // verus!
