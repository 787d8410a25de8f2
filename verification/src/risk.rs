//! The order of findings by risk.

use vstd::prelude::*;

use crate::order::{
    lemma_precedes_asymmetric, lemma_precedes_irreflexive, lemma_precedes_total, lemma_precedes_transitive, precedes,
    text_precedes,
};

verus! {

/// What a finding is ranked by: whether it is known to be exploited, then its
/// severity, its EPSS in thousandths, its CVSS in hundredths, and its CVE id.
pub struct RiskKey {
    pub kev: bool,
    pub severity: u8,
    pub epss: i64,
    pub cvss: i64,
    pub cve: String,
}

pub struct RiskKeyView {
    pub kev: bool,
    pub severity: u8,
    pub epss: i64,
    pub cvss: i64,
    pub cve: Seq<char>,
}

impl DeepView for RiskKey {
    type V = RiskKeyView;

    open spec fn deep_view(&self) -> RiskKeyView {
        RiskKeyView {
            kev: self.kev,
            severity: self.severity,
            epss: self.epss,
            cvss: self.cvss,
            cve: self.cve@,
        }
    }
}

/// Whether `a` is a higher risk than `b`: at the first part in which they differ
/// it has the greater one.
pub open spec fn outranks(a: RiskKeyView, b: RiskKeyView) -> bool {
    if a.kev != b.kev {
        a.kev
    } else if a.severity != b.severity {
        a.severity > b.severity
    } else if a.epss != b.epss {
        a.epss > b.epss
    } else if a.cvss != b.cvss {
        a.cvss > b.cvss
    } else {
        precedes(b.cve, a.cve)
    }
}

/// Risks are in an order.
pub proof fn outranks_is_order(a: RiskKeyView, b: RiskKeyView, c: RiskKeyView)
    ensures
        !outranks(a, a),
        outranks(a, b) ==> !outranks(b, a),
        !outranks(a, b) && !outranks(b, c) ==> !outranks(a, c),
{
    lemma_precedes_irreflexive(a.cve);
    lemma_precedes_asymmetric(a.cve, b.cve);
    lemma_precedes_total(a.cve, b.cve);
    lemma_precedes_total(b.cve, c.cve);
    if precedes(c.cve, a.cve) && precedes(a.cve, b.cve) {
        lemma_precedes_transitive(c.cve, a.cve, b.cve);
    }
}

impl RiskKey {
    /// Whether this is a higher risk than the other.
    pub fn is_higher(&self, other: &RiskKey) -> (r: bool)
        ensures
            r == outranks(self.deep_view(), other.deep_view()),
    {
        if self.kev != other.kev {
            self.kev
        } else if self.severity != other.severity {
            self.severity > other.severity
        } else if self.epss != other.epss {
            self.epss > other.epss
        } else if self.cvss != other.cvss {
            self.cvss > other.cvss
        } else {
            text_precedes(other.cve.as_str(), self.cve.as_str())
        }
    }
}

} // verus!
