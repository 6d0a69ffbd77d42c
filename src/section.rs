//! The taxonomy of the corpus: sections, trace families and scales.

use vstd::prelude::*;
use vstd::string::*;

verus! {

/// Whether two strings hold the same characters.
pub fn text_eq(a: &str, b: &str) -> (r: bool)
    ensures
        r == (a@ == b@),
{
    let n = a.unicode_len();
    if n != b.unicode_len() {
        return false;
    }
    let mut i: usize = 0;
    while i < n
        invariant
            n == a@.len(),
            n == b@.len(),
            i <= n,
            forall|j: int| 0 <= j < i ==> a@[j] == b@[j],
        decreases n - i,
    {
        if a.get_char(i) != b.get_char(i) {
            return false;
        }
        i += 1;
    }
    assert(a@ =~= b@);
    true
}

/// An unrecognised token.
#[derive(Debug, Clone, Copy, PartialEq, Eq, Structural)]
pub enum TokenError {
    /// The text names no section.
    InvalidSection,
    /// The text names no scale.
    InvalidScale,
}

/// The family of a state trace.
#[derive(Debug, Clone, Copy, PartialEq, Eq, Structural)]
pub enum Trace {
    /// The fallback traces
    Fallback,
    /// The safrole traces
    Safrole,
    /// The reports traces
    ReportsL0,
}

/// A section of the corpus.
#[derive(Debug, Clone, Copy, PartialEq, Eq, Structural)]
pub enum Section {
    /// The accumulate section
    Accumulate,
    /// The assurances section
    Assurances,
    /// The authorizations section
    Authorizations,
    /// The codec section
    Codec,
    /// The disputes section
    Disputes,
    /// The history section
    History,
    /// The preimages section
    Preimages,
    /// The pvm section
    Pvm,
    /// The reports section
    Reports,
    /// The safrole section
    Safrole,
    /// The statistics section
    Statistics,
    /// The shuffle section
    Shuffle,
    /// A state trace section
    Trace(Trace),
    /// The trie section
    Trie,
}

/// The size tier of a fixture.
#[derive(Debug, Clone, Copy, PartialEq, Eq, Structural)]
pub enum Scale {
    /// Small fixtures
    Tiny,
    /// Full-size fixtures
    Full,
}

/// The canonical text of a trace family.
pub open spec fn trace_name(t: Trace) -> Seq<char> {
    match t {
        Trace::Fallback => "fallback"@,
        Trace::Safrole => "safrole"@,
        Trace::ReportsL0 => "reports-l0"@,
    }
}

/// The canonical text of a section.
pub open spec fn section_name(s: Section) -> Seq<char> {
    match s {
        Section::Accumulate => "accumulate"@,
        Section::Assurances => "assurances"@,
        Section::Authorizations => "authorizations"@,
        Section::Codec => "codec"@,
        Section::Disputes => "disputes"@,
        Section::History => "history"@,
        Section::Preimages => "preimages"@,
        Section::Pvm => "pvm"@,
        Section::Reports => "reports"@,
        Section::Safrole => "safrole"@,
        Section::Statistics => "statistics"@,
        Section::Shuffle => "shuffle"@,
        Section::Trace(Trace::Fallback) => "traces/fallback"@,
        Section::Trace(Trace::Safrole) => "traces/safrole"@,
        Section::Trace(Trace::ReportsL0) => "traces/reports-l0"@,
        Section::Trie => "trie"@,
    }
}

/// The section whose canonical text is exactly `t`, if any.
pub open spec fn section_of(t: Seq<char>) -> Option<Section> {
    if t == "accumulate"@ {
        Some(Section::Accumulate)
    } else if t == "assurances"@ {
        Some(Section::Assurances)
    } else if t == "authorizations"@ {
        Some(Section::Authorizations)
    } else if t == "codec"@ {
        Some(Section::Codec)
    } else if t == "disputes"@ {
        Some(Section::Disputes)
    } else if t == "history"@ {
        Some(Section::History)
    } else if t == "preimages"@ {
        Some(Section::Preimages)
    } else if t == "pvm"@ {
        Some(Section::Pvm)
    } else if t == "reports"@ {
        Some(Section::Reports)
    } else if t == "safrole"@ {
        Some(Section::Safrole)
    } else if t == "statistics"@ {
        Some(Section::Statistics)
    } else if t == "shuffle"@ {
        Some(Section::Shuffle)
    } else if t == "traces/fallback"@ {
        Some(Section::Trace(Trace::Fallback))
    } else if t == "traces/safrole"@ {
        Some(Section::Trace(Trace::Safrole))
    } else if t == "traces/reports-l0"@ {
        Some(Section::Trace(Trace::ReportsL0))
    } else if t == "trie"@ {
        Some(Section::Trie)
    } else {
        None
    }
}

/// Whether a section's fixtures are split into tiny and full sets.
pub open spec fn scaled(s: Section) -> bool {
    match s {
        Section::Accumulate | Section::Assurances | Section::Authorizations | Section::Disputes
        | Section::Reports | Section::Safrole | Section::Statistics => true,
        _ => false,
    }
}

/// Every section, in the order of a full run.
pub open spec fn all_sections() -> Seq<Section> {
    seq![
        Section::Accumulate,
        Section::Assurances,
        Section::Authorizations,
        Section::Codec,
        Section::Pvm,
        Section::Safrole,
        Section::Statistics,
        Section::Disputes,
        Section::History,
        Section::Preimages,
        Section::Reports,
        Section::Shuffle,
        Section::Trie,
        Section::Trace(Trace::Fallback),
        Section::Trace(Trace::Safrole),
        Section::Trace(Trace::ReportsL0),
    ]
}

/// The canonical text of a scale.
pub open spec fn scale_name(s: Scale) -> Seq<char> {
    match s {
        Scale::Tiny => "tiny"@,
        Scale::Full => "full"@,
    }
}

/// The scale whose canonical text is exactly `t`, if any.
pub open spec fn scale_of(t: Seq<char>) -> Option<Scale> {
    if t == "tiny"@ {
        Some(Scale::Tiny)
    } else if t == "full"@ {
        Some(Scale::Full)
    } else {
        None
    }
}

impl Trace {
    /// The canonical text of the trace family.
    pub fn render(&self) -> (r: &'static str)
        ensures
            r@ == trace_name(*self),
    {
        match self {
            Trace::Fallback => "fallback",
            Trace::Safrole => "safrole",
            Trace::ReportsL0 => "reports-l0",
        }
    }
}

impl Scale {
    /// The canonical text of the scale, also its directory name.
    pub fn render(&self) -> (r: &'static str)
        ensures
            r@ == scale_name(*self),
    {
        match self {
            Scale::Tiny => "tiny",
            Scale::Full => "full",
        }
    }

    /// The scale named exactly by `s`.
    pub fn parse(s: &str) -> (r: Result<Scale, TokenError>)
        ensures
            match scale_of(s@) {
                Some(x) => r == Ok::<Scale, TokenError>(x),
                None => r == Err::<Scale, TokenError>(TokenError::InvalidScale),
            },
    {
        if text_eq(s, "tiny") {
            Ok(Scale::Tiny)
        } else if text_eq(s, "full") {
            Ok(Scale::Full)
        } else {
            Err(TokenError::InvalidScale)
        }
    }
}

impl Section {
    /// Every section, in the order of a full run.
    pub fn all() -> (r: [Section; 16])
        ensures
            r@ == all_sections(),
    {
        let r = [
            Section::Accumulate,
            Section::Assurances,
            Section::Authorizations,
            Section::Codec,
            Section::Pvm,
            Section::Safrole,
            Section::Statistics,
            Section::Disputes,
            Section::History,
            Section::Preimages,
            Section::Reports,
            Section::Shuffle,
            Section::Trie,
            Section::Trace(Trace::Fallback),
            Section::Trace(Trace::Safrole),
            Section::Trace(Trace::ReportsL0),
        ];
        assert(r@ =~= all_sections());
        r
    }

    /// Whether the section's fixtures are split into tiny and full sets.
    pub fn is_scaled(&self) -> (r: bool)
        ensures
            r == scaled(*self),
    {
        match self {
            Section::Accumulate | Section::Assurances | Section::Authorizations
            | Section::Disputes | Section::Reports | Section::Safrole | Section::Statistics => true,
            _ => false,
        }
    }

    /// The canonical text of the section, also its place in the corpus.
    pub fn render(&self) -> (r: &'static str)
        ensures
            r@ == section_name(*self),
    {
        match self {
            Section::Accumulate => "accumulate",
            Section::Assurances => "assurances",
            Section::Authorizations => "authorizations",
            Section::Codec => "codec",
            Section::Disputes => "disputes",
            Section::History => "history",
            Section::Preimages => "preimages",
            Section::Pvm => "pvm",
            Section::Reports => "reports",
            Section::Safrole => "safrole",
            Section::Statistics => "statistics",
            Section::Shuffle => "shuffle",
            Section::Trace(Trace::Fallback) => "traces/fallback",
            Section::Trace(Trace::Safrole) => "traces/safrole",
            Section::Trace(Trace::ReportsL0) => "traces/reports-l0",
            Section::Trie => "trie",
        }
    }

    /// The section named exactly by `s`.
    pub fn parse(s: &str) -> (r: Result<Section, TokenError>)
        ensures
            match section_of(s@) {
                Some(x) => r == Ok::<Section, TokenError>(x),
                None => r == Err::<Section, TokenError>(TokenError::InvalidSection),
            },
    {
        if text_eq(s, "accumulate") {
            Ok(Section::Accumulate)
        } else if text_eq(s, "assurances") {
            Ok(Section::Assurances)
        } else if text_eq(s, "authorizations") {
            Ok(Section::Authorizations)
        } else if text_eq(s, "codec") {
            Ok(Section::Codec)
        } else if text_eq(s, "disputes") {
            Ok(Section::Disputes)
        } else if text_eq(s, "history") {
            Ok(Section::History)
        } else if text_eq(s, "preimages") {
            Ok(Section::Preimages)
        } else if text_eq(s, "pvm") {
            Ok(Section::Pvm)
        } else if text_eq(s, "reports") {
            Ok(Section::Reports)
        } else if text_eq(s, "safrole") {
            Ok(Section::Safrole)
        } else if text_eq(s, "statistics") {
            Ok(Section::Statistics)
        } else if text_eq(s, "shuffle") {
            Ok(Section::Shuffle)
        } else if text_eq(s, "traces/fallback") {
            Ok(Section::Trace(Trace::Fallback))
        } else if text_eq(s, "traces/safrole") {
            Ok(Section::Trace(Trace::Safrole))
        } else if text_eq(s, "traces/reports-l0") {
            Ok(Section::Trace(Trace::ReportsL0))
        } else if text_eq(s, "trie") {
            Ok(Section::Trie)
        } else {
            Err(TokenError::InvalidSection)
        }
    }
}

/// The section names, as far as telling them apart needs: each one's length
/// and its first two characters.
proof fn lemma_section_names()
    ensures
        "accumulate"@.len() == 10,
        "accumulate"@[0] == 'a',
        "accumulate"@[1] == 'c',
        "assurances"@.len() == 10,
        "assurances"@[0] == 'a',
        "assurances"@[1] == 's',
        "authorizations"@.len() == 14,
        "authorizations"@[0] == 'a',
        "authorizations"@[1] == 'u',
        "codec"@.len() == 5,
        "codec"@[0] == 'c',
        "codec"@[1] == 'o',
        "disputes"@.len() == 8,
        "disputes"@[0] == 'd',
        "disputes"@[1] == 'i',
        "history"@.len() == 7,
        "history"@[0] == 'h',
        "history"@[1] == 'i',
        "preimages"@.len() == 9,
        "preimages"@[0] == 'p',
        "preimages"@[1] == 'r',
        "pvm"@.len() == 3,
        "pvm"@[0] == 'p',
        "pvm"@[1] == 'v',
        "reports"@.len() == 7,
        "reports"@[0] == 'r',
        "reports"@[1] == 'e',
        "safrole"@.len() == 7,
        "safrole"@[0] == 's',
        "safrole"@[1] == 'a',
        "statistics"@.len() == 10,
        "statistics"@[0] == 's',
        "statistics"@[1] == 't',
        "shuffle"@.len() == 7,
        "shuffle"@[0] == 's',
        "shuffle"@[1] == 'h',
        "traces/fallback"@.len() == 15,
        "traces/fallback"@[0] == 't',
        "traces/fallback"@[1] == 'r',
        "traces/safrole"@.len() == 14,
        "traces/safrole"@[0] == 't',
        "traces/safrole"@[1] == 'r',
        "traces/reports-l0"@.len() == 17,
        "traces/reports-l0"@[0] == 't',
        "traces/reports-l0"@[1] == 'r',
        "trie"@.len() == 4,
        "trie"@[0] == 't',
        "trie"@[1] == 'r',
{
    reveal_strlit("accumulate");
    reveal_strlit("assurances");
    reveal_strlit("authorizations");
    reveal_strlit("codec");
    reveal_strlit("disputes");
    reveal_strlit("history");
    reveal_strlit("preimages");
    reveal_strlit("pvm");
    reveal_strlit("reports");
    reveal_strlit("safrole");
    reveal_strlit("statistics");
    reveal_strlit("shuffle");
    reveal_strlit("traces/fallback");
    reveal_strlit("traces/safrole");
    reveal_strlit("traces/reports-l0");
    reveal_strlit("trie");
}

/// Rendering a section and parsing the text back gives the same section.
pub proof fn lemma_section_round_trip(s: Section)
    ensures
        section_of(section_name(s)) == Some(s),
{
    lemma_section_names();
    match s {
        Section::Accumulate => {},
        Section::Assurances => {},
        Section::Authorizations => {},
        Section::Codec => {},
        Section::Disputes => {},
        Section::History => {},
        Section::Preimages => {},
        Section::Pvm => {},
        Section::Reports => {},
        Section::Safrole => {},
        Section::Statistics => {},
        Section::Shuffle => {},
        Section::Trace(Trace::Fallback) => {},
        Section::Trace(Trace::Safrole) => {},
        Section::Trace(Trace::ReportsL0) => {},
        Section::Trie => {},
    }
}

/// Rendering a scale and parsing the text back gives the same scale.
pub proof fn lemma_scale_round_trip(s: Scale)
    ensures
        scale_of(scale_name(s)) == Some(s),
{
    reveal_strlit("tiny");
    reveal_strlit("full");
    assert("tiny"@[0] == 't' && "full"@[0] == 'f');
}

/// The list of all sections holds every section exactly once.
pub proof fn lemma_all_sections_complete(s: Section)
    ensures
        all_sections().contains(s),
        all_sections().no_duplicates(),
{
    let a = all_sections();
    let i: int = match s {
        Section::Accumulate => 0,
        Section::Assurances => 1,
        Section::Authorizations => 2,
        Section::Codec => 3,
        Section::Pvm => 4,
        Section::Safrole => 5,
        Section::Statistics => 6,
        Section::Disputes => 7,
        Section::History => 8,
        Section::Preimages => 9,
        Section::Reports => 10,
        Section::Shuffle => 11,
        Section::Trie => 12,
        Section::Trace(Trace::Fallback) => 13,
        Section::Trace(Trace::Safrole) => 14,
        Section::Trace(Trace::ReportsL0) => 15,
    };
    assert(a[i] == s);
}

} // verus!
