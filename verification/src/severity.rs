//! The severity of a message, and its order.
use std::cmp::Ordering;
use vstd::prelude::*;
use vstd::std_specs::cmp::{PartialOrdSpec, PartialOrdSpecImpl};

verus! {

/// Message severity, ordered `Error < Warn < Info`.
#[derive(Debug, Clone, Copy, PartialEq, Eq, Ord, Structural)]
#[allow(missing_docs)]
pub enum Severity {
    Error,
    Warn,
    Info,
}

impl Default for Severity {
    fn default() -> (s: Self)
        ensures
            s == Severity::Info,
    {
        Severity::Info
    }
}

impl Severity {
    /// The place of the severity in the order: the most severe comes first.
    pub open spec fn rank(self) -> nat {
        match self {
            Severity::Error => 0,
            Severity::Warn => 1,
            Severity::Info => 2,
        }
    }

    /// The name of the severity as it is displayed.
    pub open spec fn name(self) -> Seq<char> {
        match self {
            Severity::Error => seq!['E', 'R', 'R', 'O', 'R'],
            Severity::Warn => seq!['W', 'A', 'R', 'N'],
            Severity::Info => seq!['I', 'N', 'F', 'O'],
        }
    }

    /// The name of the severity as it is displayed: `ERROR`, `WARN` or `INFO`.
    pub fn as_str(&self) -> (s: &'static str)
        ensures
            s@ == self.name(),
    {
        proof {
            reveal_strlit("ERROR");
            reveal_strlit("WARN");
            reveal_strlit("INFO");
        }
        match self {
            Severity::Error => "ERROR",
            Severity::Warn => "WARN",
            Severity::Info => "INFO",
        }
    }

    fn level(&self) -> (l: u8)
        ensures
            l == self.rank(),
    {
        match self {
            Severity::Error => 0,
            Severity::Warn => 1,
            Severity::Info => 2,
        }
    }
}

impl PartialOrd for Severity {
    fn partial_cmp(&self, other: &Self) -> (r: Option<Ordering>) {
        let a = self.level();
        let b = other.level();
        if a < b {
            Some(Ordering::Less)
        } else if a == b {
            Some(Ordering::Equal)
        } else {
            Some(Ordering::Greater)
        }
    }
}

impl PartialOrdSpecImpl for Severity {
    open spec fn obeys_partial_cmp_spec() -> bool {
        true
    }

    open spec fn partial_cmp_spec(&self, other: &Self) -> Option<Ordering> {
        if self.rank() < other.rank() {
            Some(Ordering::Less)
        } else if self.rank() == other.rank() {
            Some(Ordering::Equal)
        } else {
            Some(Ordering::Greater)
        }
    }
}

/// `Error` comes before `Warn`, and `Warn` before `Info`; two severities
/// are in the order of their ranks.
pub proof fn lemma_severity_order(a: Severity, b: Severity)
    ensures
        PartialOrdSpec::partial_cmp_spec(&Severity::Error, &Severity::Warn) == Some(Ordering::Less),
        PartialOrdSpec::partial_cmp_spec(&Severity::Warn, &Severity::Info) == Some(Ordering::Less),
        PartialOrdSpec::partial_cmp_spec(&Severity::Error, &Severity::Info) == Some(Ordering::Less),
        PartialOrdSpec::partial_cmp_spec(&a, &b) == Some(Ordering::Less) <==> a.rank() < b.rank(),
        PartialOrdSpec::partial_cmp_spec(&a, &b) == Some(Ordering::Equal) <==> a == b,
        PartialOrdSpec::partial_cmp_spec(&a, &b) == Some(Ordering::Greater) <==> PartialOrdSpec::partial_cmp_spec(&b, &a) == Some(Ordering::Less),
{
}

} // verus!
