//! Where in the corpus the fixtures of each section and scale lie.

use crate::section::{scale_name, scaled, section_name, section_of, Scale, Section, TokenError, Trace};
use vstd::prelude::*;
use vstd::string::*;

verus! {

/// The fixture directory of a section and scale, relative to the corpus
/// root: `<section>/<scale>` for a scale, and for the unscaled sections their
/// own directory (`data` under codec, history and preimages, `programs`
/// under pvm).
pub open spec fn fixture_dir_spec(section: Section, scale: Option<Scale>) -> Seq<char> {
    match scale {
        Some(s) => section_name(section) + "/"@ + scale_name(s),
        None => match section {
            Section::Codec | Section::History | Section::Preimages => section_name(section)
                + "/data"@,
            Section::Pvm => section_name(section) + "/programs"@,
            _ => section_name(section),
        },
    }
}

/// The fixture directory of a section and scale, relative to the corpus root.
pub fn fixture_dir(section: Section, scale: Option<Scale>) -> (r: String)
    ensures
        r@ == fixture_dir_spec(section, scale),
{
    let mut r = section.render().to_owned();
    match scale {
        Some(s) => {
            r.append("/");
            r.append(s.render());
        },
        None => match section {
            Section::Codec | Section::History | Section::Preimages => {
                r.append("/data");
            },
            Section::Pvm => {
                r.append("/programs");
            },
            _ => {},
        },
    }
    r
}

/// A fixture set to load: its section, its scale and its directory.
#[derive(Debug)]
pub struct Location {
    /// The section
    pub section: Section,
    /// The scale, none for an unscaled section
    pub scale: Option<Scale>,
    /// The directory that holds the fixtures
    pub dir: String,
}

/// The corpus, by its root directory.
#[derive(Debug)]
pub struct Registry {
    root: String,
}

impl Registry {
    /// The root directory.
    pub closed spec fn root_spec(&self) -> Seq<char> {
        self.root@
    }

    /// Whether `l` is the fixture set of `section` at `scale` in this corpus.
    pub open spec fn locates(&self, l: Location, section: Section, scale: Option<Scale>) -> bool {
        &&& l.section == section
        &&& l.scale == scale
        &&& l.dir@ == self.root_spec() + "/"@ + fixture_dir_spec(section, scale)
    }

    /// The corpus under `root`.
    pub fn new(root: String) -> (r: Registry)
        ensures
            r.root_spec() == root@,
    {
        Registry { root }
    }

    /// The root directory.
    pub fn root(&self) -> (r: &str)
        ensures
            r@ == self.root_spec(),
    {
        self.root.as_str()
    }

    /// The fixture set of `section` at `scale`.
    pub fn locate(&self, section: Section, scale: Option<Scale>) -> (r: Location)
        ensures
            self.locates(r, section, scale),
    {
        let mut dir = self.root.clone();
        dir.append("/");
        let rel = fixture_dir(section, scale);
        dir.append(rel.as_str());
        Location { section, scale, dir }
    }

    /// The fixture set named by a section's text; a scaled section takes
    /// `scale`, tiny where none is given, and an unscaled one none.
    pub fn entry(&self, section: &str, scale: Option<Scale>) -> (r: Result<Location, TokenError>)
        ensures
            match section_of(section@) {
                None => r == Err::<Location, TokenError>(TokenError::InvalidSection),
                Some(s) => r matches Ok(l) && self.locates(
                    l,
                    s,
                    if scaled(s) {
                        Some(
                            match scale {
                                Some(x) => x,
                                None => Scale::Tiny,
                            },
                        )
                    } else {
                        None
                    },
                ),
            },
    {
        let s = match Section::parse(section) {
            Ok(s) => s,
            Err(e) => {
                return Err(e);
            },
        };
        let sc = if s.is_scaled() {
            match scale {
                Some(x) => Some(x),
                None => Some(Scale::Tiny),
            }
        } else {
            None
        };
        Ok(self.locate(s, sc))
    }

    /// The accumulate fixtures at `scale`.
    pub fn accumulate(&self, scale: Scale) -> (r: Location)
        ensures
            self.locates(r, Section::Accumulate, Some(scale)),
    {
        self.locate(Section::Accumulate, Some(scale))
    }

    /// The assurances fixtures at `scale`.
    pub fn assurances(&self, scale: Scale) -> (r: Location)
        ensures
            self.locates(r, Section::Assurances, Some(scale)),
    {
        self.locate(Section::Assurances, Some(scale))
    }

    /// The authorizations fixtures at `scale`.
    pub fn authorizations(&self, scale: Scale) -> (r: Location)
        ensures
            self.locates(r, Section::Authorizations, Some(scale)),
    {
        self.locate(Section::Authorizations, Some(scale))
    }

    /// The codec fixtures.
    pub fn codec(&self) -> (r: Location)
        ensures
            self.locates(r, Section::Codec, None),
    {
        self.locate(Section::Codec, None)
    }

    /// The disputes fixtures at `scale`.
    pub fn disputes(&self, scale: Scale) -> (r: Location)
        ensures
            self.locates(r, Section::Disputes, Some(scale)),
    {
        self.locate(Section::Disputes, Some(scale))
    }

    /// The history fixtures.
    pub fn history(&self) -> (r: Location)
        ensures
            self.locates(r, Section::History, None),
    {
        self.locate(Section::History, None)
    }

    /// The preimages fixtures.
    pub fn preimages(&self) -> (r: Location)
        ensures
            self.locates(r, Section::Preimages, None),
    {
        self.locate(Section::Preimages, None)
    }

    /// The pvm fixtures.
    pub fn pvm(&self) -> (r: Location)
        ensures
            self.locates(r, Section::Pvm, None),
    {
        self.locate(Section::Pvm, None)
    }

    /// The reports fixtures at `scale`.
    pub fn reports(&self, scale: Scale) -> (r: Location)
        ensures
            self.locates(r, Section::Reports, Some(scale)),
    {
        self.locate(Section::Reports, Some(scale))
    }

    /// The safrole fixtures at `scale`.
    pub fn safrole(&self, scale: Scale) -> (r: Location)
        ensures
            self.locates(r, Section::Safrole, Some(scale)),
    {
        self.locate(Section::Safrole, Some(scale))
    }

    /// The statistics fixtures at `scale`.
    pub fn statistics(&self, scale: Scale) -> (r: Location)
        ensures
            self.locates(r, Section::Statistics, Some(scale)),
    {
        self.locate(Section::Statistics, Some(scale))
    }

    /// The shuffle fixtures.
    pub fn shuffle(&self) -> (r: Location)
        ensures
            self.locates(r, Section::Shuffle, None),
    {
        self.locate(Section::Shuffle, None)
    }

    /// The fixtures of a trace family.
    pub fn trace(&self, trace: Trace) -> (r: Location)
        ensures
            self.locates(r, Section::Trace(trace), None),
    {
        self.locate(Section::Trace(trace), None)
    }

    /// The trie fixtures.
    pub fn trie(&self) -> (r: Location)
        ensures
            self.locates(r, Section::Trie, None),
    {
        self.locate(Section::Trie, None)
    }
}

} // verus!
