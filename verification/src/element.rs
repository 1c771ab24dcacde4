//! The element registry: per category, an ordered list of elements, each with
//! a tri-state knowledge value.

use vstd::prelude::*;

use crate::scan::{collect_chars, dec_spec, digit_run, digits_value, parse_digit_run,
    render_number, sat_sub_one};
use vstd::string::StringExecFns;

verus! {

/// The category a leading command letter selects, if any.
pub open spec fn section_letter(c: char) -> Option<ElementType> {
    if c == 'l' {
        Some(ElementType::Location)
    } else if c == 'p' {
        Some(ElementType::Person)
    } else if c == 'w' {
        Some(ElementType::Weapon)
    } else {
        None
    }
}

/// The knowledge value a trailing command letter selects, if any.
pub open spec fn state_letter(c: char) -> Option<ElementState> {
    if c == 'c' {
        Some(ElementState::Confirmed)
    } else if c == 'd' {
        Some(ElementState::Dismissed)
    } else if c == 'u' {
        Some(ElementState::Unknown)
    } else {
        None
    }
}

/// The target a registry-update command names: a category letter followed by
/// a 1-based decimal index (clamped to zero after the off-by-one shift).
/// `None` when the text does not start that way.
pub open spec fn parsed_target(s: Seq<char>) -> Option<(ElementType, nat)> {
    if s.len() == 0 {
        None
    } else {
        match section_letter(s[0]) {
            None => None,
            Some(t) => {
                let run = digit_run(s.skip(1));
                if run.len() == 0 || digits_value(run) > usize::MAX {
                    None
                } else {
                    Some((t, sat_sub_one(digits_value(run))))
                }
            },
        }
    }
}

/// The knowledge value named by the letter right after the index digits of a
/// registry-update command, if there is one.
pub open spec fn action_state(s: Seq<char>) -> Option<ElementState> {
    let pos = 1 + digit_run(s.skip(1)).len();
    if pos >= s.len() {
        None
    } else {
        state_letter(s[pos as int])
    }
}

/// One of the three fixed categories an element can belong to.
#[derive(Debug, Clone, Copy, PartialEq, Eq, Hash, Structural)]
pub enum ElementType {
    Weapon,
    Location,
    Person,
}

/// The registry-side knowledge value of one element.
#[derive(Debug, Clone, Copy, PartialEq, Eq, Structural)]
pub enum ElementState {
    Unknown,
    Confirmed,
    Dismissed,
}

/// Identifies one element structurally: category plus zero-based index.
#[derive(Debug, Clone, Copy, PartialEq, Eq, Hash, Structural)]
pub struct ElementIdentifier {
    pub element_type: ElementType,
    pub index: usize,
}

/// A named element together with its current knowledge value.
#[derive(Debug, Clone)]
pub struct Element {
    pub name: String,
    pub state: ElementState,
}

/// The registry: one ordered element list per category, plus the length of
/// the longest element name (kept for display alignment).
#[derive(Debug, Clone)]
pub struct Elements {
    pub locations: Vec<Element>,
    pub people: Vec<Element>,
    pub weapons: Vec<Element>,
    pub max_name_length: usize,
}

/// The reasons a clue string is rejected outright.
#[derive(Debug, Clone, Copy, PartialEq, Eq)]
pub enum ProcesResult {
    InvalidSection,
    InvalidIndex,
    InvalidConstraint,
}

/// The letter a category renders as.
pub open spec fn type_letter(t: ElementType) -> char {
    match t {
        ElementType::Location => 'l',
        ElementType::Person => 'p',
        ElementType::Weapon => 'w',
    }
}

/// How an identifier renders: its category letter followed by its 1-based
/// decimal index.
pub open spec fn render_id_spec(id: ElementIdentifier) -> Seq<char> {
    seq![type_letter(id.element_type)] + dec_spec(id.index as nat + 1)
}

impl ElementIdentifier {
    /// Renders for display: category letter then 1-based index, so the
    /// identifier of the third location renders as `l3`.
    pub fn render(&self) -> (s: String)
        ensures
            s@ == render_id_spec(*self),
    {
        let letter = match self.element_type {
            ElementType::Location => "l",
            ElementType::Person => "p",
            ElementType::Weapon => "w",
        };
        proof {
            reveal_strlit("l");
            reveal_strlit("p");
            reveal_strlit("w");
            assert("l"@ =~= seq!['l']);
            assert("p"@ =~= seq!['p']);
            assert("w"@ =~= seq!['w']);
        }
        let mut s = letter.to_owned();
        let digits = render_number(self.index as u128 + 1);
        s.append(digits.as_str());
        s
    }
}

impl ProcesResult {
    /// The user-facing description of the rejection.
    pub fn message(&self) -> (s: String)
        ensures
            *self matches ProcesResult::InvalidSection ==> s@ == "Invalid section"@,
            *self matches ProcesResult::InvalidIndex ==> s@ == "Invalid index"@,
            *self matches ProcesResult::InvalidConstraint ==> s@ == "Invalid constraint"@,
    {
        match self {
            ProcesResult::InvalidSection => String::from_str("Invalid section"),
            ProcesResult::InvalidIndex => String::from_str("Invalid index"),
            ProcesResult::InvalidConstraint => String::from_str("Invalid constraint"),
        }
    }
}

impl Element {
    pub fn new(name: String) -> (e: Element)
        ensures
            e.name == name,
            e.state == ElementState::Unknown,
    {
        Element { name, state: ElementState::Unknown }
    }
}

impl Elements {
    /// The element list of one category.
    pub open spec fn section(self, t: ElementType) -> Seq<Element> {
        match t {
            ElementType::Location => self.locations@,
            ElementType::Person => self.people@,
            ElementType::Weapon => self.weapons@,
        }
    }

    /// Whether an identifier points inside its category's list.
    pub open spec fn in_range(self, id: ElementIdentifier) -> bool {
        id.index < self.section(id.element_type).len()
    }

    /// The knowledge value an identifier resolves to; out-of-range
    /// identifiers resolve to `Unknown` rather than erroring.
    pub open spec fn spec_state(self, id: ElementIdentifier) -> ElementState {
        if self.in_range(id) {
            self.section(id.element_type)[id.index as int].state
        } else {
            ElementState::Unknown
        }
    }

    pub fn get_state(&self, id: &ElementIdentifier) -> (r: ElementState)
        ensures
            r == self.spec_state(*id),
    {
        let list = match id.element_type {
            ElementType::Location => &self.locations,
            ElementType::Person => &self.people,
            ElementType::Weapon => &self.weapons,
        };

        if id.index >= list.len() {
            return ElementState::Unknown;
        }

        list[id.index].state
    }

    pub fn set_state(&mut self, id: &ElementIdentifier, state: ElementState)
        ensures
            final(self).max_name_length == old(self).max_name_length,
            forall|t: ElementType|
                t != id.element_type ==> #[trigger] final(self).section(t) == old(self).section(t),
            !old(self).in_range(*id) ==> *final(self) == *old(self),
            old(self).in_range(*id) ==> final(self).section(id.element_type)
                == old(self).section(id.element_type).update(
                    id.index as int,
                    (Element {
                        name: old(self).section(id.element_type)[id.index as int].name,
                        state,
                    }),
                ),
            forall|id2: ElementIdentifier| #[trigger] final(self).spec_state(id2)
                == if id2 == *id && old(self).in_range(*id) {
                    state
                } else {
                    old(self).spec_state(id2)
                },
    {
        let list = match id.element_type {
            ElementType::Location => &mut self.locations,
            ElementType::Person => &mut self.people,
            ElementType::Weapon => &mut self.weapons,
        };

        if id.index >= list.len() {
            return;
        }

        list[id.index].state = state;
    }

    /// Applies a registry-update command such as `l3c` (mark the third
    /// location `Confirmed`). Returns `None` when the update was applied,
    /// `Some(None)` when the text is not an update command at all, and
    /// `Some(Some(message))` when the index falls outside the category.
    pub fn process_action(&mut self, inp: &str) -> (r: Option<Option<String>>)
        ensures
            match parsed_target(inp@) {
                None => r == Some(Option::<String>::None) && *final(self) == *old(self),
                Some((t, idx)) => {
                    if idx >= old(self).section(t).len() {
                        &&& r matches Some(Some(msg)) && msg@ == "Invalid index"@
                        &&& *final(self) == *old(self)
                    } else {
                        match action_state(inp@) {
                            None => r == Some(Option::<String>::None)
                                && *final(self) == *old(self),
                            Some(st) => {
                                &&& r == None::<Option<String>>
                                &&& final(self).max_name_length == old(self).max_name_length
                                &&& forall|t2: ElementType|
                                    t2 != t
                                        ==> #[trigger] final(self).section(t2)
                                        == old(self).section(t2)
                                &&& final(self).section(t) == old(self).section(t).update(
                                    idx as int,
                                    (Element {
                                        name: old(self).section(t)[idx as int].name,
                                        state: st,
                                    }),
                                )
                                &&& forall|id2: ElementIdentifier|
                                    #[trigger] final(self).spec_state(id2)
                                        == if id2 == (ElementIdentifier {
                                        element_type: t,
                                        index: idx as usize,
                                    }) {
                                        st
                                    } else {
                                        old(self).spec_state(id2)
                                    }
                            },
                        }
                    }
                },
            },
    {
        let chars = collect_chars(inp);
        if chars.len() == 0 {
            return Some(None);
        }
        let c0 = chars[0];
        let element_type = if c0 == 'l' {
            ElementType::Location
        } else if c0 == 'p' {
            ElementType::Person
        } else if c0 == 'w' {
            ElementType::Weapon
        } else {
            return Some(None);
        };

        let (end, parsed) = parse_digit_run(&chars, 1);
        let index = match parsed {
            Some(x) => x.saturating_sub(1),
            None => return Some(None),
        };

        let section_len = match element_type {
            ElementType::Location => self.locations.len(),
            ElementType::Person => self.people.len(),
            ElementType::Weapon => self.weapons.len(),
        };
        if index >= section_len {
            return Some(Some(String::from_str("Invalid index")));
        }

        if end >= chars.len() {
            return Some(None);
        }
        let cs = chars[end];
        let new_state = if cs == 'c' {
            ElementState::Confirmed
        } else if cs == 'd' {
            ElementState::Dismissed
        } else if cs == 'u' {
            ElementState::Unknown
        } else {
            return Some(None);
        };

        let list = match element_type {
            ElementType::Location => &mut self.locations,
            ElementType::Person => &mut self.people,
            ElementType::Weapon => &mut self.weapons,
        };
        list[index].state = new_state;
        None
    }
}

} // verus!
