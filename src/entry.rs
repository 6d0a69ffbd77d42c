//! The tests of one section and scale, and the fixture files behind them.

use crate::naming::{has_fixture_extension, is_fixture, name_of, final_component, test_name};
use crate::normalize::{bytes_of, normal_form, normalize, EntryError};
use crate::section::{scaled, text_eq, Scale, Section};
use vstd::prelude::*;

verus! {

/// One normalized test.
#[derive(Debug, Clone)]
pub struct Test {
    /// The scale of the fixture set, none for an unscaled section
    pub scale: Option<Scale>,
    /// The section of the fixture
    pub section: Section,
    /// The test name, derived from the fixture's file name
    pub name: String,
    /// What the implementation under test is given
    pub input: String,
    /// What the implementation under test must give back
    pub output: String,
}

impl Test {
    /// Whether the test belongs to the full fixture set.
    pub fn is_full(&self) -> (r: bool)
        ensures
            r == (self.scale == Some(Scale::Full)),
    {
        match self.scale {
            Some(Scale::Full) => true,
            _ => false,
        }
    }
}

/// The fixture files among `listing`, in listing order.
pub open spec fn fixtures(listing: Seq<String>) -> Seq<String>
    decreases listing.len(),
{
    if listing.len() == 0 {
        Seq::empty()
    } else if is_fixture(listing.last()@) {
        fixtures(listing.drop_last()).push(listing.last())
    } else {
        fixtures(listing.drop_last())
    }
}

/// Whether `scale` fits the scale policy of `section`.
pub open spec fn scale_fits(section: Section, scale: Option<Scale>) -> bool {
    scale is Some == scaled(section)
}

/// The position of the first file whose test name is `name`.
pub open spec fn first_named(files: Seq<String>, name: Seq<char>, i: int) -> bool {
    &&& 0 <= i < files.len()
    &&& final_component(files[i]@).len() > 0
    &&& test_name(files[i]@) == name
    &&& forall|j: int|
        0 <= j < i ==> final_component(#[trigger] files[j]@).len() == 0 || test_name(files[j]@)
            != name
}

/// The fixture set of one section and scale: the files found when it was
/// made, and a cursor for reading them in turn.
pub struct Entry {
    /// The section of the fixtures
    pub section: Section,
    scale: Option<Scale>,
    files: Vec<String>,
    current: usize,
}

impl Entry {
    /// The section of the fixtures.
    pub closed spec fn section_spec(&self) -> Section {
        self.section
    }

    /// The scale of the fixtures.
    pub closed spec fn scale_spec(&self) -> Option<Scale> {
        self.scale
    }

    /// The fixture files, fixed when the entry was made.
    pub closed spec fn files_spec(&self) -> Seq<String> {
        self.files@
    }

    /// The position of the next file that sequential reading hands out.
    pub closed spec fn position(&self) -> int {
        self.current as int
    }

    /// Makes the entry from the listing of its directory: the files with the
    /// fixture extension, in listing order. The scale must be given exactly
    /// for a scaled section.
    pub fn new(section: Section, scale: Option<Scale>, listing: Vec<String>) -> (r: Result<
        Entry,
        EntryError,
    >)
        ensures
            scale_fits(section, scale) <==> r is Ok,
            !scale_fits(section, scale) ==> r == Err::<Entry, EntryError>(EntryError::ScaleMismatch),
            r matches Ok(e) ==> {
                &&& e.section_spec() == section
                &&& e.scale_spec() == scale
                &&& e.files_spec() == fixtures(listing@)
                &&& e.position() == 0
            },
    {
        if scale.is_some() != section.is_scaled() {
            return Err(EntryError::ScaleMismatch);
        }
        let mut files: Vec<String> = Vec::new();
        let mut i: usize = 0;
        while i < listing.len()
            invariant
                i <= listing@.len(),
                files@ == fixtures(listing@.subrange(0, i as int)),
            decreases listing@.len() - i,
        {
            assert(listing@.subrange(0, i + 1).drop_last() =~= listing@.subrange(0, i as int));
            if has_fixture_extension(listing[i].as_str()) {
                files.push(listing[i].clone());
            }
            i += 1;
        }
        assert(listing@.subrange(0, listing@.len() as int) =~= listing@);
        Ok(Entry { section, scale, files, current: 0 })
    }

    /// The scale of the fixtures.
    pub fn scale(&self) -> (r: Option<Scale>)
        ensures
            r == self.scale_spec(),
    {
        self.scale
    }

    /// The number of fixture files.
    pub fn count(&self) -> (r: usize)
        ensures
            r == self.files_spec().len(),
    {
        self.files.len()
    }

    /// The path of the fixture at `index`.
    pub fn get(&self, index: usize) -> (r: Result<String, EntryError>)
        ensures
            index < self.files_spec().len() ==> r == Ok::<String, EntryError>(
                self.files_spec()[index as int],
            ),
            index >= self.files_spec().len() ==> r == Err::<String, EntryError>(
                EntryError::IndexOutOfBounds,
            ),
    {
        if index < self.files.len() {
            Ok(self.files[index].clone())
        } else {
            Err(EntryError::IndexOutOfBounds)
        }
    }

    /// The path of the first fixture whose test name is `name`.
    pub fn test(&self, name: &str) -> (r: Result<String, EntryError>)
        ensures
            match r {
                Ok(p) => exists|i: int|
                    first_named(self.files_spec(), name@, i) && p == self.files_spec()[i],
                Err(e) => e == EntryError::NotFound && forall|i: int|
                    0 <= i < self.files_spec().len() ==> final_component(
                        #[trigger] self.files_spec()[i]@,
                    ).len() == 0 || test_name(self.files_spec()[i]@) != name@,
            },
    {
        let mut i: usize = 0;
        while i < self.files.len()
            invariant
                i <= self.files@.len(),
                forall|j: int|
                    0 <= j < i ==> final_component(#[trigger] self.files@[j]@).len() == 0
                        || test_name(self.files@[j]@) != name@,
            decreases self.files@.len() - i,
        {
            match name_of(self.files[i].as_str()) {
                Some(n) => {
                    if text_eq(n.as_str(), name) {
                        let p = self.files[i].clone();
                        assert(first_named(self.files_spec(), name@, i as int));
                        assert(p == self.files_spec()[i as int]);
                        return Ok(p);
                    }
                },
                None => {},
            }
            i += 1;
        }
        Err(EntryError::NotFound)
    }

    /// The test name of a fixture path.
    pub fn file_name(path: &str) -> (r: Result<String, EntryError>)
        ensures
            match r {
                Ok(n) => final_component(path@).len() > 0 && n@ == test_name(path@),
                Err(e) => e == EntryError::InvalidFileName && final_component(path@).len() == 0,
            },
    {
        match name_of(path) {
            Some(n) => Ok(n),
            None => Err(EntryError::InvalidFileName),
        }
    }

    /// Makes the test of the fixture at `path`, given the fixture's JSON text
    /// and, for a codec fixture, the bytes of its raw sibling.
    pub fn parse(&self, path: &str, text: &str, bin: Option<&[u8]>) -> (r: Result<
        Test,
        EntryError,
    >)
        ensures
            final_component(path@).len() == 0 ==> r == Err::<Test, EntryError>(
                EntryError::InvalidFileName,
            ),
            final_component(path@).len() > 0 ==> match r {
                Ok(t) => {
                    &&& t.name@ == test_name(path@)
                    &&& t.section == self.section_spec()
                    &&& t.scale == self.scale_spec()
                    &&& normal_form(
                        self.section_spec(),
                        text@,
                        bytes_of(bin),
                        Ok((t.input@, t.output@)),
                    )
                },
                Err(e) => normal_form(self.section_spec(), text@, bytes_of(bin), Err(e)),
            },
    {
        let name = Entry::file_name(path)?;
        match normalize(self.section, text, bin) {
            Ok((input, output)) => Ok(
                Test { scale: self.scale, section: self.section, name, input, output },
            ),
            Err(e) => Err(e),
        }
    }

    /// The path of the next fixture in turn, advancing the cursor; none once
    /// every fixture has been handed out.
    pub fn next_path(&mut self) -> (r: Option<String>)
        ensures
            final(self).files_spec() == old(self).files_spec(),
            final(self).section_spec() == old(self).section_spec(),
            final(self).scale_spec() == old(self).scale_spec(),
            old(self).position() < old(self).files_spec().len() ==> {
                &&& r == Some(old(self).files_spec()[old(self).position()])
                &&& final(self).position() == old(self).position() + 1
            },
            old(self).position() >= old(self).files_spec().len() ==> {
                &&& r is None
                &&& final(self).position() == old(self).position()
            },
    {
        if self.current < self.files.len() {
            let p = self.files[self.current].clone();
            self.current = self.current + 1;
            Some(p)
        } else {
            None
        }
    }
}

} // verus!
