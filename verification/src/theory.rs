//! Descriptive types for the accompanying notes on basic electrical theory.
//! They carry no behavior: each one anchors a piece of the narrative, from
//! atomic structure through circuit laws to the common electrical units.

use vstd::prelude::*;

verus! {

/// A positively charged particle in the nucleus of an atom; the number of
/// protons gives an element its atomic number.
pub struct Proton;

/// A negatively charged particle; free electrons moving along a conductor
/// are what we observe as electric current.
pub struct Electron;

/// The core of an atom, holding its charged particles.
pub struct Nucleus {
    pub protons: Vec<Proton>,
    pub electrons: Vec<Electron>,
}

/// The primary building block of matter. An atom with equal numbers of
/// protons and electrons is electrically neutral; an imbalance makes an ion.
pub struct Atom {
    pub nucleus: Nucleus,
}

/// A kind of atom with a fixed number of protons, which fixes its chemical
/// and physical identity.
pub struct Element {
    pub protons: Vec<Proton>,
    pub electrons: Vec<Electron>,
}

/// Two or more atoms bonded together and acting as a single particle.
pub struct Molecule {
    pub bonding: Vec<Atom>,
}

/// The strength of the electromotive force between two points: a difference
/// in electrical potential, always measured between two points.
pub struct Voltage;

/// The movement of electrical charge along a conducting path.
pub struct Current;

/// Any conducting path through which current can flow between two points at
/// different voltages. Every circuit is some series and parallel combination
/// of branches.
pub struct Circuits;

/// Current that flows in only one direction.
pub struct DirectCurrent;

/// Current that reverses direction periodically, together with the voltage
/// that drives it.
pub struct AlternatingCurrent;

/// The property of a conductor to impede current, observed as heat; measured
/// in ohms.
pub struct Resistance;

/// The reciprocal of resistance, measured in siemens: high conductance means
/// low resistance and vice versa.
pub struct Conductance;

/// A component manufactured to exhibit a fixed amount of resistance.
pub struct Resistor;

/// One ohm lets one ampere flow across a potential difference of one volt:
/// R equals E over I, with the equivalent forms E = I * R and I = E / R.
pub struct OhmsLaw;

/// The currents flowing into a node balance the currents flowing out of it;
/// in a series circuit the current is the same everywhere.
pub struct KirchhoffCurrentLaw;

/// The voltage drops around any closed loop sum to zero; branches in
/// parallel see the same voltage.
pub struct KirchhoffVoltageLaw;

/// Electrical units and their namesakes.
pub enum Units {
    /// Measures current, in coulombs per second.
    Ampere,
    /// Measures charge.
    Coulomb,
    /// Measures capacitance, in coulombs per volt.
    Farad,
    /// Measures inductance, in volts per ampere per second.
    Henry,
    /// Measures frequency, in cycles per second.
    Hertz,
    /// Measures resistance, in volts per ampere.
    Ohm,
    /// Measures power, in joules per second.
    Watt,
    /// Measures voltage, in joules per coulomb.
    Volt,
}

} // verus!
