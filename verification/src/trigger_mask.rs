//! Trigger masks, and the lookup from the name of a trigger class to the
//! mask it stands for.

use vstd::prelude::*;
use vstd::string::StringSliceAdditionalSpecFns;
use crate::parsers::bytes_eq;

verus! {

/// The bit of the default trigger. Its exact definition varies from run to
/// run.
pub const MINIMUM_BIAS: u64 = 0b0000_0001;

/// The bit that marks an event with very high activity. Its exact definition
/// varies from run to run.
pub const HIGH_MULT: u64 = 0b0000_0010;

/// The first run of the period whose trigger classes are built in.
pub const FIRST_RUN: i32 = 136_851;

/// The last run of that period.
pub const LAST_RUN: i32 = 139_517;

/// Triggers are low level qualifiers of an event. One event may fire several.
#[derive(Debug, Clone, Copy, PartialEq, Eq, Structural)]
pub struct TriggerMask {
    /// One bit for each trigger.
    pub bits: u64,
}

impl TriggerMask {
    /// The mask with no trigger.
    pub fn empty() -> (r: TriggerMask)
        ensures
            r.bits == 0,
    {
        TriggerMask { bits: 0 }
    }

    /// The mask of the default trigger.
    pub fn minimum_bias() -> (r: TriggerMask)
        ensures
            r.bits == MINIMUM_BIAS,
    {
        TriggerMask { bits: MINIMUM_BIAS }
    }

    /// The mask of the high-activity trigger.
    pub fn high_mult() -> (r: TriggerMask)
        ensures
            r.bits == HIGH_MULT,
    {
        TriggerMask { bits: HIGH_MULT }
    }

    /// Whether no trigger is set.
    pub fn is_empty(&self) -> (r: bool)
        ensures
            r == (self.bits == 0),
    {
        self.bits == 0
    }

    /// Whether every trigger of `other` is set.
    pub fn contains(&self, other: TriggerMask) -> (r: bool)
        ensures
            r == (self.bits & other.bits == other.bits),
    {
        self.bits & other.bits == other.bits
    }

    /// The triggers of both masks.
    pub fn union(&self, other: TriggerMask) -> (r: TriggerMask)
        ensures
            r.bits == self.bits | other.bits,
    {
        TriggerMask { bits: self.bits | other.bits }
    }
}

/// Whether `name` is a minimum-bias trigger class of the built-in period.
pub open spec fn is_minimum_bias_class(name: Seq<u8>) -> bool {
    ||| name == "CMBAC-B-NOPF-ALL".spec_bytes()
    ||| name == "CMBS2A-B-NOPF-ALL".spec_bytes()
    ||| name == "CMBS2C-B-NOPF-ALL".spec_bytes()
    ||| name == "CMBACS2-B-NOPF-ALL".spec_bytes()
    ||| name == "CMBACS2-B-NOPF-ALLNOTRD".spec_bytes()
}

/// Whether `name` is a high-multiplicity trigger class of the built-in
/// period.
pub open spec fn is_high_mult_class(name: Seq<u8>) -> bool {
    ||| name == "C0SMH-B-NOPF-ALL".spec_bytes()
    ||| name == "C0SMH-B-NOPF-ALLNOTRD".spec_bytes()
}

/// The mask that the built-in lookup gives a trigger class in a run: that of
/// its trigger where the run lies in the built-in period and the class is one
/// of its classes, else none.
pub open spec fn builtin_mask(name: Seq<u8>, run_number: i32) -> u64 {
    if FIRST_RUN <= run_number <= LAST_RUN {
        if is_minimum_bias_class(name) {
            MINIMUM_BIAS
        } else if is_high_mult_class(name) {
            HIGH_MULT
        } else {
            0
        }
    } else {
        0
    }
}

/// Convert a given trigger description to a `TriggerMask`. This mapping
/// depends on the run number.
pub fn string_to_mask(s: &[u8], run_number: i32) -> (r: TriggerMask)
    ensures
        r.bits == builtin_mask(s@, run_number),
{
    if FIRST_RUN <= run_number && run_number <= LAST_RUN {
        if bytes_eq(s, "CMBAC-B-NOPF-ALL".as_bytes()) || bytes_eq(s, "CMBS2A-B-NOPF-ALL".as_bytes())
            || bytes_eq(s, "CMBS2C-B-NOPF-ALL".as_bytes()) || bytes_eq(
            s,
            "CMBACS2-B-NOPF-ALL".as_bytes(),
        ) || bytes_eq(s, "CMBACS2-B-NOPF-ALLNOTRD".as_bytes()) {
            TriggerMask::minimum_bias()
        } else if bytes_eq(s, "C0SMH-B-NOPF-ALL".as_bytes()) || bytes_eq(
            s,
            "C0SMH-B-NOPF-ALLNOTRD".as_bytes(),
        ) {
            TriggerMask::high_mult()
        } else {
            TriggerMask::empty()
        }
    } else {
        TriggerMask::empty()
    }
}

/// One line of a lookup table: in the runs from `first_run` to `last_run`,
/// the trigger class `name` stands for `mask`.
#[derive(Debug)]
pub struct TriggerRule {
    pub first_run: i32,
    pub last_run: i32,
    pub name: Vec<u8>,
    pub mask: TriggerMask,
}

/// A trigger rule as a mathematical value.
pub struct TriggerRuleView {
    pub first_run: i32,
    pub last_run: i32,
    pub name: Seq<u8>,
    pub mask: TriggerMask,
}

impl DeepView for TriggerRule {
    type V = TriggerRuleView;

    open spec fn deep_view(&self) -> TriggerRuleView {
        TriggerRuleView {
            first_run: self.first_run,
            last_run: self.last_run,
            name: self.name@,
            mask: self.mask,
        }
    }
}

/// A lookup from trigger class and run to mask, held as data.
#[derive(Debug)]
pub struct TriggerTable {
    /// The lines of the table. Where several fit, the first counts.
    pub rules: Vec<TriggerRule>,
}

/// The mask of the first rule from `from` on that fits `name` and
/// `run_number`; none where no rule fits.
pub open spec fn table_mask(rules: Seq<TriggerRuleView>, name: Seq<u8>, run_number: i32, from: int) -> u64
    decreases rules.len() - from,
{
    if from < 0 || from >= rules.len() {
        0
    } else if rules[from].first_run <= run_number <= rules[from].last_run && rules[from].name
        == name {
        rules[from].mask.bits
    } else {
        table_mask(rules, name, run_number, from + 1)
    }
}

impl TriggerTable {
    /// A table without rules.
    pub fn new() -> (r: TriggerTable)
        ensures
            r.rules@.len() == 0,
    {
        TriggerTable { rules: Vec::new() }
    }

    /// Adds a rule behind those that the table holds.
    pub fn add(&mut self, first_run: i32, last_run: i32, name: Vec<u8>, mask: TriggerMask)
        ensures
            final(self).rules.deep_view() == old(self).rules.deep_view().push(
                TriggerRuleView { first_run, last_run, name: name@, mask },
            ),
    {
        let ghost before = self.rules.deep_view();
        let rule = TriggerRule { first_run, last_run, name, mask };
        let ghost added = rule.deep_view();
        self.rules.push(rule);
        proof {
            assert(self.rules.deep_view() =~= before.push(added));
        }
    }

    /// The mask that the table gives the trigger class `name` in the run
    /// `run_number`: that of the first rule that fits, or the empty mask.
    pub fn lookup(&self, name: &[u8], run_number: i32) -> (r: TriggerMask)
        ensures
            r.bits == table_mask(self.rules.deep_view(), name@, run_number, 0),
    {
        let mut i: usize = 0;
        while i < self.rules.len()
            invariant
                i <= self.rules@.len(),
                self.rules.deep_view().len() == self.rules@.len(),
                table_mask(self.rules.deep_view(), name@, run_number, 0) == table_mask(
                    self.rules.deep_view(),
                    name@,
                    run_number,
                    i as int,
                ),
            decreases self.rules@.len() - i,
        {
            let rule = &self.rules[i];
            proof {
                assert(self.rules.deep_view()[i as int] == rule.deep_view());
            }
            if rule.first_run <= run_number && run_number <= rule.last_run && bytes_eq(
                rule.name.as_slice(),
                name,
            ) {
                return rule.mask;
            }
            i = i + 1;
        }
        TriggerMask::empty()
    }
}

} // verus!
