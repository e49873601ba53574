//! The primitive parts a circuit is assembled from.
//!
//! Every part has a fixed number of input pins, a fixed number of output pins
//! and a display name. The arithmetic behind a part is of no concern while a
//! circuit is being assembled: only the pin counts decide how pins are
//! numbered.

use vstd::prelude::*;

verus! {

/// What every circuit element offers: its pin counts and its display name.
pub trait Part {
    /// Number of input pins.
    spec fn input_pins(&self) -> nat;

    /// Number of output pins.
    spec fn output_pins(&self) -> nat;

    /// The display name, as a sequence of characters.
    spec fn name(&self) -> Seq<char>;

    fn get_name(&self) -> (s: String)
        ensures
            s@ == self.name(),
    ;

    fn get_input_size(&self) -> (n: usize)
        ensures
            n == self.input_pins(),
    ;

    fn get_output_size(&self) -> (n: usize)
        ensures
            n == self.output_pins(),
    ;
}

/// A gate whose output is the product of its two inputs.
#[derive(Debug, Clone, Copy)]
pub struct Multiplier {}

impl Part for Multiplier {
    open spec fn input_pins(&self) -> nat {
        2
    }

    open spec fn output_pins(&self) -> nat {
        1
    }

    open spec fn name(&self) -> Seq<char> {
        "Multiplier"@
    }

    fn get_name(&self) -> (s: String) {
        "Multiplier".to_owned()
    }

    fn get_input_size(&self) -> (n: usize) {
        2
    }

    fn get_output_size(&self) -> (n: usize) {
        1
    }
}

/// A gate whose output is the sum of its two inputs.
#[derive(Debug, Clone, Copy)]
pub struct Adder {}

impl Part for Adder {
    open spec fn input_pins(&self) -> nat {
        2
    }

    open spec fn output_pins(&self) -> nat {
        1
    }

    open spec fn name(&self) -> Seq<char> {
        "Adder"@
    }

    fn get_name(&self) -> (s: String) {
        "Adder".to_owned()
    }

    fn get_input_size(&self) -> (n: usize) {
        2
    }

    fn get_output_size(&self) -> (n: usize) {
        1
    }
}

/// A gate whose output is its first input divided by its second.
#[derive(Debug, Clone, Copy)]
pub struct Divider {}

impl Part for Divider {
    open spec fn input_pins(&self) -> nat {
        2
    }

    open spec fn output_pins(&self) -> nat {
        1
    }

    open spec fn name(&self) -> Seq<char> {
        "Divider"@
    }

    fn get_name(&self) -> (s: String) {
        "Divider".to_owned()
    }

    fn get_input_size(&self) -> (n: usize) {
        2
    }

    fn get_output_size(&self) -> (n: usize) {
        1
    }
}

/// A gate whose output is its first input minus its second.
#[derive(Debug, Clone, Copy)]
pub struct Subtractor {}

impl Part for Subtractor {
    open spec fn input_pins(&self) -> nat {
        2
    }

    open spec fn output_pins(&self) -> nat {
        1
    }

    open spec fn name(&self) -> Seq<char> {
        "Subtractor"@
    }

    fn get_name(&self) -> (s: String) {
        "Subtractor".to_owned()
    }

    fn get_input_size(&self) -> (n: usize) {
        2
    }

    fn get_output_size(&self) -> (n: usize) {
        1
    }
}

/// A comparator that outputs 1 if the first input is greater than the second, 0 otherwise.
#[derive(Debug, Clone, Copy)]
pub struct Comparator {}

impl Part for Comparator {
    open spec fn input_pins(&self) -> nat {
        2
    }

    open spec fn output_pins(&self) -> nat {
        1
    }

    open spec fn name(&self) -> Seq<char> {
        "Comparator"@
    }

    fn get_name(&self) -> (s: String) {
        "Comparator".to_owned()
    }

    fn get_input_size(&self) -> (n: usize) {
        2
    }

    fn get_output_size(&self) -> (n: usize) {
        1
    }
}

/// A gate that outputs 1 if both of its inputs are set, 0 otherwise.
#[derive(Debug, Clone, Copy)]
pub struct And {}

impl Part for And {
    open spec fn input_pins(&self) -> nat {
        2
    }

    open spec fn output_pins(&self) -> nat {
        1
    }

    open spec fn name(&self) -> Seq<char> {
        "And"@
    }

    fn get_name(&self) -> (s: String) {
        "And".to_owned()
    }

    fn get_input_size(&self) -> (n: usize) {
        2
    }

    fn get_output_size(&self) -> (n: usize) {
        1
    }
}

/// A gate that routes its data input to output 0 if the control input is 0,
/// and to output 1 otherwise. The first input is the control input, the
/// second the one to be routed; the output that is not chosen carries 0.
#[derive(Debug, Clone, Copy)]
pub struct IfGate {}

impl Part for IfGate {
    open spec fn input_pins(&self) -> nat {
        2
    }

    // it only feeds a value to one of the two
    open spec fn output_pins(&self) -> nat {
        2
    }

    open spec fn name(&self) -> Seq<char> {
        "IfGate"@
    }

    fn get_name(&self) -> (s: String) {
        "IfGate".to_owned()
    }

    fn get_input_size(&self) -> (n: usize) {
        2
    }

    fn get_output_size(&self) -> (n: usize) {
        2
    }
}

/// A source with no input that always presents an integer literal.
#[derive(Debug, Clone, Copy)]
pub struct Constant {
    pub value: i32,
}

impl Part for Constant {
    open spec fn input_pins(&self) -> nat {
        0
    }

    open spec fn output_pins(&self) -> nat {
        1
    }

    open spec fn name(&self) -> Seq<char> {
        "Constant"@
    }

    fn get_name(&self) -> (s: String) {
        "Constant".to_owned()
    }

    fn get_input_size(&self) -> (n: usize) {
        0
    }

    fn get_output_size(&self) -> (n: usize) {
        1
    }
}

/// A one-input, one-output part with a resistance in whole ohms.
#[derive(Debug, Clone, Copy)]
pub struct Resistor {
    pub ohms: u32,
}

impl Part for Resistor {
    open spec fn input_pins(&self) -> nat {
        1
    }

    open spec fn output_pins(&self) -> nat {
        1
    }

    open spec fn name(&self) -> Seq<char> {
        "Resistor"@
    }

    fn get_name(&self) -> (s: String) {
        "Resistor".to_owned()
    }

    fn get_input_size(&self) -> (n: usize) {
        1
    }

    fn get_output_size(&self) -> (n: usize) {
        1
    }
}

} // verus!
