//! The kinds of part, their fixed order and their display names.

use vstd::prelude::*;
use crate::text::{
    lemma_text_lt_asymmetric, lemma_text_lt_irreflexive, lemma_text_lt_total,
    lemma_text_lt_transitive, text_equal, text_lt, text_precedes,
};

verus! {

/// The kind of a part. The variants stand in the order in which groups are
/// listed; a label that names none of the known kinds is kept in `Other`.
#[derive(Debug, Eq, PartialEq, Ord, PartialOrd, Clone)]
pub enum ComponentType {
    CPUCooling,
    Case,
    Cpu,
    Graphics,
    Keyboard,
    Memory,
    Monitor,
    Motherboard,
    PowerSupply,
    Network,
    Ssd,
    Hdd,
    Other(String),
}

/// A kind as the order sees it: its place in the fixed list, and the label
/// it carries when it is none of the known kinds (empty otherwise).
pub struct Category {
    pub rank: nat,
    pub label: Seq<char>,
}

/// The rank shared by all kinds outside the fixed list.
pub open spec fn other_rank() -> nat {
    12
}

impl View for ComponentType {
    type V = Category;

    open spec fn view(&self) -> Category {
        match self {
            ComponentType::CPUCooling => Category { rank: 0, label: Seq::empty() },
            ComponentType::Case => Category { rank: 1, label: Seq::empty() },
            ComponentType::Cpu => Category { rank: 2, label: Seq::empty() },
            ComponentType::Graphics => Category { rank: 3, label: Seq::empty() },
            ComponentType::Keyboard => Category { rank: 4, label: Seq::empty() },
            ComponentType::Memory => Category { rank: 5, label: Seq::empty() },
            ComponentType::Monitor => Category { rank: 6, label: Seq::empty() },
            ComponentType::Motherboard => Category { rank: 7, label: Seq::empty() },
            ComponentType::PowerSupply => Category { rank: 8, label: Seq::empty() },
            ComponentType::Network => Category { rank: 9, label: Seq::empty() },
            ComponentType::Ssd => Category { rank: 10, label: Seq::empty() },
            ComponentType::Hdd => Category { rank: 11, label: Seq::empty() },
            ComponentType::Other(label) => Category { rank: other_rank(), label: label@ },
        }
    }
}

/// The declared order of kinds: by rank, and among kinds outside the fixed
/// list by label.
pub open spec fn category_lt(a: Category, b: Category) -> bool {
    a.rank < b.rank || (a.rank == b.rank && text_lt(a.label, b.label))
}

/// The name under which a kind is shown.
pub open spec fn display_name(c: Category) -> Seq<char> {
    if c.rank == 0 {
        "CPU Cooler"@
    } else if c.rank == 1 {
        "Case"@
    } else if c.rank == 2 {
        "CPU"@
    } else if c.rank == 3 {
        "Graphics"@
    } else if c.rank == 4 {
        "Keyboard"@
    } else if c.rank == 5 {
        "Memory"@
    } else if c.rank == 6 {
        "Monitor"@
    } else if c.rank == 7 {
        "Motherboard"@
    } else if c.rank == 8 {
        "Power Supply"@
    } else if c.rank == 9 {
        "Network"@
    } else if c.rank == 10 {
        "Primary SSD"@
    } else if c.rank == 11 {
        "Hard Drive"@
    } else {
        c.label
    }
}

/// The kind that a manifest label names: one of the known kinds where the
/// label is exactly its identifier, and `Other` with the label otherwise.
pub open spec fn category_of_label(label: Seq<char>) -> Category {
    if label == "CPUCooling"@ {
        Category { rank: 0, label: Seq::empty() }
    } else if label == "Case"@ {
        Category { rank: 1, label: Seq::empty() }
    } else if label == "Cpu"@ {
        Category { rank: 2, label: Seq::empty() }
    } else if label == "Graphics"@ {
        Category { rank: 3, label: Seq::empty() }
    } else if label == "Keyboard"@ {
        Category { rank: 4, label: Seq::empty() }
    } else if label == "Memory"@ {
        Category { rank: 5, label: Seq::empty() }
    } else if label == "Monitor"@ {
        Category { rank: 6, label: Seq::empty() }
    } else if label == "Motherboard"@ {
        Category { rank: 7, label: Seq::empty() }
    } else if label == "PowerSupply"@ {
        Category { rank: 8, label: Seq::empty() }
    } else if label == "Network"@ {
        Category { rank: 9, label: Seq::empty() }
    } else if label == "Ssd"@ {
        Category { rank: 10, label: Seq::empty() }
    } else if label == "Hdd"@ {
        Category { rank: 11, label: Seq::empty() }
    } else {
        Category { rank: other_rank(), label: label }
    }
}

/// The declared order is a strict total order: nothing precedes itself, of
/// two different kinds exactly one precedes the other, and precedence
/// carries over a middle term.
pub proof fn law_category_order_strict_total(a: Category, b: Category, c: Category)
    ensures
        !category_lt(a, a),
        category_lt(a, b) ==> !category_lt(b, a),
        category_lt(a, b) && category_lt(b, c) ==> category_lt(a, c),
        category_lt(a, b) || category_lt(b, a) || a == b,
{
    lemma_text_lt_irreflexive(a.label);
    if text_lt(a.label, b.label) {
        lemma_text_lt_asymmetric(a.label, b.label);
        if text_lt(b.label, c.label) {
            lemma_text_lt_transitive(a.label, b.label, c.label);
        }
    }
    lemma_text_lt_total(a.label, b.label);
}

impl ComponentType {
    /// The kind's place in the fixed list.
    pub fn rank(&self) -> (r: u8)
        ensures
            r == self@.rank,
            r <= other_rank(),
    {
        match self {
            ComponentType::CPUCooling => 0,
            ComponentType::Case => 1,
            ComponentType::Cpu => 2,
            ComponentType::Graphics => 3,
            ComponentType::Keyboard => 4,
            ComponentType::Memory => 5,
            ComponentType::Monitor => 6,
            ComponentType::Motherboard => 7,
            ComponentType::PowerSupply => 8,
            ComponentType::Network => 9,
            ComponentType::Ssd => 10,
            ComponentType::Hdd => 11,
            ComponentType::Other(_) => 12,
        }
    }

    /// Whether `self` comes before `other` in the declared order.
    pub fn precedes(&self, other: &ComponentType) -> (r: bool)
        ensures
            r == category_lt(self@, other@),
    {
        let a = self.rank();
        let b = other.rank();
        if a != b {
            a < b
        } else {
            match (self, other) {
                (ComponentType::Other(x), ComponentType::Other(y)) => text_precedes(
                    x.as_str(),
                    y.as_str(),
                ),
                _ => false,
            }
        }
    }

    /// Whether `self` and `other` are the same kind.
    pub fn same_kind(&self, other: &ComponentType) -> (r: bool)
        ensures
            r == (self@ == other@),
    {
        let a = self.rank();
        let b = other.rank();
        if a != b {
            false
        } else {
            match (self, other) {
                (ComponentType::Other(x), ComponentType::Other(y)) => text_equal(
                    x.as_str(),
                    y.as_str(),
                ),
                _ => true,
            }
        }
    }

    /// The name under which the kind is shown.
    pub fn name(&self) -> (r: String)
        ensures
            r@ == display_name(self@),
    {
        match self {
            ComponentType::CPUCooling => String::from_str("CPU Cooler"),
            ComponentType::Case => String::from_str("Case"),
            ComponentType::Cpu => String::from_str("CPU"),
            ComponentType::Graphics => String::from_str("Graphics"),
            ComponentType::Keyboard => String::from_str("Keyboard"),
            ComponentType::Memory => String::from_str("Memory"),
            ComponentType::Monitor => String::from_str("Monitor"),
            ComponentType::Motherboard => String::from_str("Motherboard"),
            ComponentType::PowerSupply => String::from_str("Power Supply"),
            ComponentType::Network => String::from_str("Network"),
            ComponentType::Ssd => String::from_str("Primary SSD"),
            ComponentType::Hdd => String::from_str("Hard Drive"),
            ComponentType::Other(label) => label.clone(),
        }
    }

    /// The kind that a manifest label names.
    pub fn from_label(label: &str) -> (r: ComponentType)
        ensures
            r@ == category_of_label(label@),
    {
        if text_equal(label, "CPUCooling") {
            ComponentType::CPUCooling
        } else if text_equal(label, "Case") {
            ComponentType::Case
        } else if text_equal(label, "Cpu") {
            ComponentType::Cpu
        } else if text_equal(label, "Graphics") {
            ComponentType::Graphics
        } else if text_equal(label, "Keyboard") {
            ComponentType::Keyboard
        } else if text_equal(label, "Memory") {
            ComponentType::Memory
        } else if text_equal(label, "Monitor") {
            ComponentType::Monitor
        } else if text_equal(label, "Motherboard") {
            ComponentType::Motherboard
        } else if text_equal(label, "PowerSupply") {
            ComponentType::PowerSupply
        } else if text_equal(label, "Network") {
            ComponentType::Network
        } else if text_equal(label, "Ssd") {
            ComponentType::Ssd
        } else if text_equal(label, "Hdd") {
            ComponentType::Hdd
        } else {
            ComponentType::Other(String::from_str(label))
        }
    }
}

} // verus!
