//! Standardization of inventory compounds: the order of its stages and the
//! limits a compound has to meet.

use vstd::prelude::*;
use vstd::string::StringExecFns;

verus! {

/// The stage at which a compound failed standardization.
#[derive(Clone, Copy, Debug, PartialEq, Eq, Structural)]
pub enum StandardizeError {
    ChooseLargestFragment,
    ValidateAllowedAtoms,
    ValidateHAC,
    RemoveHs,
    Uncharge,
    Reionize,
    AssignStereo,
    ValidateNumUnspecStereo,
    ValidateNumRotatableBonds,
    ValidateNumRings,
    ValidateRingSize,
}

/// The stages of standardization, in the order in which they run.
#[derive(Clone, Copy, Debug, PartialEq, Eq, Structural)]
pub enum Stage {
    ChooseLargestFragment,
    ValidateAllowedAtoms,
    ValidateHAC,
    RemoveHs,
    Uncharge,
    Reionize,
    AssignStereo,
    ValidateNumUnspecStereo,
    ValidateNumRotatableBonds,
    ValidateNumRings,
    Done,
}

/// What was seen of one atom: for each allowed element, whether the atom
/// matches it, and the atom's isotope (zero where none is given).
#[derive(Debug)]
pub struct AtomProbe {
    pub matches: Vec<bool>,
    pub isotope: u32,
}

/// What a stage found.
#[derive(Debug)]
pub enum Observation {
    /// An operation of the toolkit ran, and whether it succeeded.
    Operation(bool),
    /// The atoms of the compound.
    Atoms(Vec<AtomProbe>),
    /// A count taken of the compound.
    Count(u32),
}

/// A range of counts, both ends included.
#[derive(Clone, Copy, Debug, PartialEq, Eq, Structural)]
pub struct CountRange {
    pub min: u32,
    pub max: u32,
}

/// The limits that a standardized compound meets.
#[derive(Clone, Copy, Debug)]
pub struct ChemodotsStandardizer {
    pub range_hac: CountRange,
    pub range_num_unspec_stereo: CountRange,
    pub range_num_rot_bonds: CountRange,
    pub range_num_rings: CountRange,
    pub range_ring_size: CountRange,
}

impl CountRange {
    /// Whether `value` lies in the range.
    pub open spec fn spec_contains(self, value: u32) -> bool {
        self.min <= value <= self.max
    }

    /// Whether `value` lies in the range.
    #[verifier::when_used_as_spec(spec_contains)]
    pub fn contains(self, value: u32) -> (inside: bool)
        ensures
            inside == self.spec_contains(value),
    {
        self.min <= value && value <= self.max
    }
}

/// The atom is of an allowed element and is no explicit isotope.
pub open spec fn atom_allowed(atom: AtomProbe) -> bool {
    atom.isotope == 0 && atom.matches@.contains(true)
}

/// Every atom is allowed.
pub open spec fn atoms_allowed(atoms: Seq<AtomProbe>) -> bool {
    forall|a: int| 0 <= a < atoms.len() ==> atom_allowed(#[trigger] atoms[a])
}

impl Stage {
    /// The stage that follows; nothing follows `Done`.
    pub open spec fn spec_next(self) -> Stage {
        match self {
            Stage::ChooseLargestFragment => Stage::ValidateAllowedAtoms,
            Stage::ValidateAllowedAtoms => Stage::ValidateHAC,
            Stage::ValidateHAC => Stage::RemoveHs,
            Stage::RemoveHs => Stage::Uncharge,
            Stage::Uncharge => Stage::Reionize,
            Stage::Reionize => Stage::AssignStereo,
            Stage::AssignStereo => Stage::ValidateNumUnspecStereo,
            Stage::ValidateNumUnspecStereo => Stage::ValidateNumRotatableBonds,
            Stage::ValidateNumRotatableBonds => Stage::ValidateNumRings,
            Stage::ValidateNumRings => Stage::Done,
            Stage::Done => Stage::Done,
        }
    }

    /// The error of a compound that fails at this stage.
    pub open spec fn spec_error(self) -> StandardizeError {
        match self {
            Stage::ChooseLargestFragment => StandardizeError::ChooseLargestFragment,
            Stage::ValidateAllowedAtoms => StandardizeError::ValidateAllowedAtoms,
            Stage::ValidateHAC => StandardizeError::ValidateHAC,
            Stage::RemoveHs => StandardizeError::RemoveHs,
            Stage::Uncharge => StandardizeError::Uncharge,
            Stage::Reionize => StandardizeError::Reionize,
            Stage::AssignStereo => StandardizeError::AssignStereo,
            Stage::ValidateNumUnspecStereo => StandardizeError::ValidateNumUnspecStereo,
            Stage::ValidateNumRotatableBonds => StandardizeError::ValidateNumRotatableBonds,
            Stage::ValidateNumRings => StandardizeError::ValidateNumRings,
            Stage::Done => StandardizeError::ValidateRingSize,
        }
    }

    /// The stage that follows.
    #[verifier::when_used_as_spec(spec_next)]
    pub fn next(self) -> (following: Stage)
        ensures
            following == self.spec_next(),
    {
        match self {
            Stage::ChooseLargestFragment => Stage::ValidateAllowedAtoms,
            Stage::ValidateAllowedAtoms => Stage::ValidateHAC,
            Stage::ValidateHAC => Stage::RemoveHs,
            Stage::RemoveHs => Stage::Uncharge,
            Stage::Uncharge => Stage::Reionize,
            Stage::Reionize => Stage::AssignStereo,
            Stage::AssignStereo => Stage::ValidateNumUnspecStereo,
            Stage::ValidateNumUnspecStereo => Stage::ValidateNumRotatableBonds,
            Stage::ValidateNumRotatableBonds => Stage::ValidateNumRings,
            Stage::ValidateNumRings => Stage::Done,
            Stage::Done => Stage::Done,
        }
    }

    /// The error of a compound that fails at this stage.
    #[verifier::when_used_as_spec(spec_error)]
    pub fn error(self) -> (e: StandardizeError)
        ensures
            e == self.spec_error(),
    {
        match self {
            Stage::ChooseLargestFragment => StandardizeError::ChooseLargestFragment,
            Stage::ValidateAllowedAtoms => StandardizeError::ValidateAllowedAtoms,
            Stage::ValidateHAC => StandardizeError::ValidateHAC,
            Stage::RemoveHs => StandardizeError::RemoveHs,
            Stage::Uncharge => StandardizeError::Uncharge,
            Stage::Reionize => StandardizeError::Reionize,
            Stage::AssignStereo => StandardizeError::AssignStereo,
            Stage::ValidateNumUnspecStereo => StandardizeError::ValidateNumUnspecStereo,
            Stage::ValidateNumRotatableBonds => StandardizeError::ValidateNumRotatableBonds,
            Stage::ValidateNumRings => StandardizeError::ValidateNumRings,
            Stage::Done => StandardizeError::ValidateRingSize,
        }
    }
}

impl StandardizeError {
    /// What is reported of a compound that failed with this error.
    pub open spec fn spec_message(self) -> Seq<char> {
        match self {
            StandardizeError::ChooseLargestFragment => "Failed to choose the largest fragment"@,
            StandardizeError::ValidateAllowedAtoms => "Forbidden atoms found"@,
            StandardizeError::ValidateHAC => "Heavy atoms count out of bounds"@,
            StandardizeError::RemoveHs => "Failed to remove hydrogens"@,
            StandardizeError::Uncharge => "Failed to uncharge"@,
            StandardizeError::Reionize => "Failed to reionize"@,
            StandardizeError::AssignStereo => "Failed to assign stereochemistry"@,
            StandardizeError::ValidateNumUnspecStereo => "Unspecified stereo centers count out of bounds"@,
            StandardizeError::ValidateNumRotatableBonds => "Rotatable bonds count out of bounds"@,
            StandardizeError::ValidateNumRings => "Rings (SSSR) count out of bounds"@,
            StandardizeError::ValidateRingSize => "At least one ring size out of bounds"@,
        }
    }

    /// What is reported of a compound that failed with this error.
    pub fn message(self) -> (text: &'static str)
        ensures
            text@ == self.spec_message(),
    {
        match self {
            StandardizeError::ChooseLargestFragment => "Failed to choose the largest fragment",
            StandardizeError::ValidateAllowedAtoms => "Forbidden atoms found",
            StandardizeError::ValidateHAC => "Heavy atoms count out of bounds",
            StandardizeError::RemoveHs => "Failed to remove hydrogens",
            StandardizeError::Uncharge => "Failed to uncharge",
            StandardizeError::Reionize => "Failed to reionize",
            StandardizeError::AssignStereo => "Failed to assign stereochemistry",
            StandardizeError::ValidateNumUnspecStereo => "Unspecified stereo centers count out of bounds",
            StandardizeError::ValidateNumRotatableBonds => "Rotatable bonds count out of bounds",
            StandardizeError::ValidateNumRings => "Rings (SSSR) count out of bounds",
            StandardizeError::ValidateRingSize => "At least one ring size out of bounds",
        }
    }
}

/// Whether one atom is of an allowed element and no explicit isotope.
pub fn check_atom(atom: &AtomProbe) -> (allowed: bool)
    ensures
        allowed == atom_allowed(*atom),
{
    if atom.isotope != 0 {
        return false;
    }
    let n = atom.matches.len();
    let mut i: usize = 0;
    while i < n
        invariant
            n == atom.matches@.len(),
            atom.isotope == 0,
            0 <= i <= n,
            forall|j: int| 0 <= j < i ==> !atom.matches@[j],
        decreases n - i,
    {
        if atom.matches[i] {
            return true;
        }
        i = i + 1;
    }
    false
}

/// Whether every atom is of an allowed element and no explicit isotope.
pub fn check_atoms(atoms: &Vec<AtomProbe>) -> (allowed: bool)
    ensures
        allowed == atoms_allowed(atoms@),
{
    let n = atoms.len();
    let mut a: usize = 0;
    while a < n
        invariant
            n == atoms@.len(),
            0 <= a <= n,
            forall|b: int| 0 <= b < a ==> atom_allowed(#[trigger] atoms@[b]),
        decreases n - a,
    {
        if !check_atom(&atoms[a]) {
            return false;
        }
        a = a + 1;
    }
    true
}

impl ChemodotsStandardizer {
    /// Whether what `stage` found lets the compound pass on. An operation
    /// has to succeed, the atoms have to be allowed, and a count has to lie
    /// in the range of its stage. A finding of another kind than the stage
    /// makes does not pass; `Done` lets everything pass.
    pub open spec fn passes(self, stage: Stage, found: Observation) -> bool {
        match stage {
            Stage::ChooseLargestFragment
            | Stage::RemoveHs
            | Stage::Uncharge
            | Stage::Reionize
            | Stage::AssignStereo => found matches Observation::Operation(ok) && ok,
            Stage::ValidateAllowedAtoms => found matches Observation::Atoms(atoms)
                && atoms_allowed(atoms@),
            Stage::ValidateHAC => found matches Observation::Count(n) && self.range_hac.contains(
                n,
            ),
            Stage::ValidateNumUnspecStereo => found matches Observation::Count(n)
                && self.range_num_unspec_stereo.contains(n),
            Stage::ValidateNumRotatableBonds => found matches Observation::Count(n)
                && self.range_num_rot_bonds.contains(n),
            Stage::ValidateNumRings => found matches Observation::Count(n)
                && self.range_num_rings.contains(n),
            Stage::Done => true,
        }
    }

    /// The limits in use: 5 to 24 heavy atoms, at most one unspecified stereo
    /// centre, at most 16 rotatable bonds, at most 3 rings, rings of at most
    /// 7 atoms.
    pub fn new() -> (limits: ChemodotsStandardizer)
        ensures
            limits.range_hac == (CountRange { min: 5, max: 24 }),
            limits.range_num_unspec_stereo == (CountRange { min: 0, max: 1 }),
            limits.range_num_rot_bonds == (CountRange { min: 0, max: 16 }),
            limits.range_num_rings == (CountRange { min: 0, max: 3 }),
            limits.range_ring_size == (CountRange { min: 0, max: 7 }),
    {
        ChemodotsStandardizer {
            range_hac: CountRange { min: 5, max: 24 },
            range_num_unspec_stereo: CountRange { min: 0, max: 1 },
            range_num_rot_bonds: CountRange { min: 0, max: 16 },
            range_num_rings: CountRange { min: 0, max: 3 },
            range_ring_size: CountRange { min: 0, max: 7 },
        }
    }

    /// One step of standardization: given what `stage` found, the stage to
    /// run next, or the error with which the compound is dropped.
    pub fn standardize(&self, stage: Stage, found: &Observation) -> (step: Result<
        Stage,
        StandardizeError,
    >)
        ensures
            self.passes(stage, *found) ==> step == Ok::<Stage, StandardizeError>(stage.spec_next()),
            !self.passes(stage, *found) ==> step == Err::<Stage, StandardizeError>(
                stage.spec_error(),
            ),
    {
        let passed = match stage {
            Stage::ChooseLargestFragment
            | Stage::RemoveHs
            | Stage::Uncharge
            | Stage::Reionize
            | Stage::AssignStereo => match found {
                Observation::Operation(ok) => *ok,
                _ => false,
            },
            Stage::ValidateAllowedAtoms => match found {
                Observation::Atoms(atoms) => check_atoms(atoms),
                _ => false,
            },
            Stage::ValidateHAC => match found {
                Observation::Count(n) => self.range_hac.contains(*n),
                _ => false,
            },
            Stage::ValidateNumUnspecStereo => match found {
                Observation::Count(n) => self.range_num_unspec_stereo.contains(*n),
                _ => false,
            },
            Stage::ValidateNumRotatableBonds => match found {
                Observation::Count(n) => self.range_num_rot_bonds.contains(*n),
                _ => false,
            },
            Stage::ValidateNumRings => match found {
                Observation::Count(n) => self.range_num_rings.contains(*n),
                _ => false,
            },
            Stage::Done => true,
        };
        if passed {
            Ok(stage.next())
        } else {
            Err(stage.error())
        }
    }
}

/// The symbols of the elements a compound may hold.
pub fn allowed_atom_symbols() -> (symbols: Vec<String>)
    ensures
        symbols@.len() == 12,
        symbols@[0]@ == "H"@,
        symbols@[1]@ == "C"@,
        symbols@[2]@ == "N"@,
        symbols@[3]@ == "O"@,
        symbols@[4]@ == "P"@,
        symbols@[5]@ == "S"@,
        symbols@[6]@ == "F"@,
        symbols@[7]@ == "Cl"@,
        symbols@[8]@ == "Br"@,
        symbols@[9]@ == "I"@,
        symbols@[10]@ == "B"@,
        symbols@[11]@ == "Sn"@,
{
    let mut symbols: Vec<String> = Vec::new();
    symbols.push(String::from_str("H"));
    symbols.push(String::from_str("C"));
    symbols.push(String::from_str("N"));
    symbols.push(String::from_str("O"));
    symbols.push(String::from_str("P"));
    symbols.push(String::from_str("S"));
    symbols.push(String::from_str("F"));
    symbols.push(String::from_str("Cl"));
    symbols.push(String::from_str("Br"));
    symbols.push(String::from_str("I"));
    symbols.push(String::from_str("B"));
    symbols.push(String::from_str("Sn"));
    symbols
}

} // verus!
