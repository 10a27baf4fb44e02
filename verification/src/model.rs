//! Data model of the validation engine.
//!
//! Mappings are represented as vectors of named entries; lookup takes the
//! first entry whose name matches, which coincides with map lookup when
//! the names are distinct (the shape the adapter hands over).

use vstd::prelude::*;

verus! {

/// One parameter attached to a property group.  Only the presence of
/// `name` is ever inspected; `value` is carried through untouched.
pub struct Parameter {
    pub name: String,
    pub value: String,
}

/// A named property group ("pset") attached to an element.
pub struct PropertyGroup {
    pub name: String,
    pub params: Vec<Parameter>,
}

/// The property table of one element: its floor label, if any, and its
/// property groups.  The floor label lives beside the groups, as the
/// reserved `"floor"` entry of the element's record.
pub struct ElementRecord {
    pub floor: Option<String>,
    pub groups: Vec<PropertyGroup>,
}

/// One row of the element table: an element identifier and its record.
pub struct ElementEntry {
    pub id: String,
    pub record: ElementRecord,
}

/// The per-element property table.  An element absent from the table is
/// treated exactly like one with an empty record.
pub struct ElementData {
    pub entries: Vec<ElementEntry>,
}

/// One required list of parameter names inside a schema group.  The `key`
/// is not interpreted; only the parameter names matter, and names that
/// occur several times are independent requirements.
pub struct ParamList {
    pub key: String,
    pub params: Vec<String>,
}

/// The requirements on one property group: every parameter name of every
/// list must be present in the element's group of the same name.
pub struct PsetRequirement {
    pub name: String,
    pub lists: Vec<ParamList>,
}

/// The whole required schema.
pub struct RequiredSchema {
    pub psets: Vec<PsetRequirement>,
}

/// The outcome of validating a single element.
pub struct ElementOutcome {
    pub is_valid: bool,
    pub floor: String,
    pub missing_psets: usize,
    pub missing_params: usize,
}

/// Mathematical shadow of [`ElementOutcome`].
#[verifier::ext_equal]
pub ghost struct SpecOutcome {
    pub is_valid: bool,
    pub floor: Seq<char>,
    pub missing_psets: nat,
    pub missing_params: nat,
}

impl View for ElementOutcome {
    type V = SpecOutcome;

    open spec fn view(&self) -> SpecOutcome {
        SpecOutcome {
            is_valid: self.is_valid,
            floor: self.floor@,
            missing_psets: self.missing_psets as nat,
            missing_params: self.missing_params as nat,
        }
    }
}

/// One row of the per-floor breakdown.
pub struct FloorEntry {
    pub name: String,
    pub valid: usize,
    pub invalid: usize,
}

/// The two reports of a run, flattened into one record: the global
/// counts and the per-floor breakdown.
pub struct AnalysisResult {
    pub total_elements: usize,
    pub valid_elements: usize,
    pub missing_psets: usize,
    pub missing_params: usize,
    pub floors: Vec<FloorEntry>,
}

/// The floor label of every element that has no `"floor"` entry.
pub open spec fn unknown_floor() -> Seq<char> {
    "unknown"@
}

/// Whether the group carries a parameter of the given name.
pub open spec fn group_has_param(g: PropertyGroup, name: Seq<char>) -> bool {
    exists|k: int| 0 <= k < g.params@.len() && g.params@[k].name@ == name
}

/// First group of the given name, if any.
pub open spec fn find_group(groups: Seq<PropertyGroup>, name: Seq<char>) -> Option<PropertyGroup>
    decreases groups.len(),
{
    if groups.len() == 0 {
        None
    } else if groups[0].name@ == name {
        Some(groups[0])
    } else {
        find_group(groups.drop_first(), name)
    }
}

/// Record of the given element, if the table has one.
pub open spec fn find_entry(entries: Seq<ElementEntry>, id: Seq<char>) -> Option<ElementRecord>
    decreases entries.len(),
{
    if entries.len() == 0 {
        None
    } else if entries[0].id@ == id {
        Some(entries[0].record)
    } else {
        find_entry(entries.drop_first(), id)
    }
}

/// The property groups of an element; an element absent from the table
/// has none.
pub open spec fn record_groups(data: ElementData, id: Seq<char>) -> Seq<PropertyGroup> {
    match find_entry(data.entries@, id) {
        Some(r) => r.groups@,
        None => Seq::empty(),
    }
}

/// The floor an element is grouped under: its own label, or `"unknown"`
/// when it has none (or no record at all).
pub open spec fn spec_floor(data: ElementData, id: Seq<char>) -> Seq<char> {
    match find_entry(data.entries@, id) {
        Some(r) => match r.floor {
            Some(f) => f@,
            None => unknown_floor(),
        },
        None => unknown_floor(),
    }
}

} // verus!
