//! The sections of an export file and the rows that open them.
use vstd::prelude::*;
use crate::text::same_text;

verus! {

/// The known sections of an export file.
#[derive(Debug, Clone, Copy, PartialEq, Eq, Structural)]
pub enum Section {
    Header,
    RandomState,
    Globals,
    Turtles,
    Patches,
    Links,
    Output,
    Plots,
    Extenstions,
}

/// Whether a section carries a header row after its boundary row.
pub open spec fn expects_header(s: Section) -> bool {
    !(s is Header || s is Output || s is Plots || s is Extenstions)
}

impl Section {
    /// Whether a header row follows the section's boundary row.
    pub fn has_headers(&self) -> (r: bool)
        ensures
            r == expects_header(*self),
    {
        match self {
            Section::Header | Section::Output | Section::Plots | Section::Extenstions => false,
            _ => true,
        }
    }
}

/// The section whose boundary token is `t`, spelled exactly.
pub open spec fn section_named(t: Seq<char>) -> Option<Section> {
    if t == "HEADER"@ {
        Some(Section::Header)
    } else if t == "RANDOM_STATE"@ {
        Some(Section::RandomState)
    } else if t == "GLOBALS"@ {
        Some(Section::Globals)
    } else if t == "TURTLES"@ {
        Some(Section::Turtles)
    } else if t == "PATCHES"@ {
        Some(Section::Patches)
    } else if t == "LINKS"@ {
        Some(Section::Links)
    } else if t == "OUTPUT"@ {
        Some(Section::Output)
    } else if t == "PLOTS"@ {
        Some(Section::Plots)
    } else if t == "EXTENSTIONS"@ {
        Some(Section::Extenstions)
    } else {
        None
    }
}

/// The section that a row opens: a row of one cell that is a boundary token.
///
/// A name outside the known tokens opens nothing: its row is read as a data
/// row of the section that is active, so that a section this parser does not
/// know is never silently skipped. A data row of one cell that happens to
/// spell a token is, in turn, read as a boundary.
pub open spec fn boundary_of(row: Seq<Seq<char>>) -> Option<Section> {
    if row.len() == 1 {
        section_named(row[0])
    } else {
        None
    }
}

/// The section that `row` opens, if it is a boundary row.
pub fn classify(row: &Vec<String>) -> (r: Option<Section>)
    ensures
        r == boundary_of(row.deep_view()),
{
    if row.len() != 1 {
        return None;
    }
    let t = row[0].as_str();
    assert(t@ == row.deep_view()[0]);
    if same_text(t, "HEADER") {
        Some(Section::Header)
    } else if same_text(t, "RANDOM_STATE") {
        Some(Section::RandomState)
    } else if same_text(t, "GLOBALS") {
        Some(Section::Globals)
    } else if same_text(t, "TURTLES") {
        Some(Section::Turtles)
    } else if same_text(t, "PATCHES") {
        Some(Section::Patches)
    } else if same_text(t, "LINKS") {
        Some(Section::Links)
    } else if same_text(t, "OUTPUT") {
        Some(Section::Output)
    } else if same_text(t, "PLOTS") {
        Some(Section::Plots)
    } else if same_text(t, "EXTENSTIONS") {
        Some(Section::Extenstions)
    } else {
        None
    }
}

} // verus!
