use circuit_compiler::circuit::{Circuit, Component, PartInfo};
use circuit_compiler::parts::{
    Adder, And, Comparator, Constant, Divider, IfGate, Multiplier, Part, Resistor, Subtractor,
};

#[test]
fn new_circuit_is_empty() {
    let c = Circuit::new();
    assert!(c.parts().is_empty());
    assert!(c.placements().is_empty());
    assert!(c.connections().is_empty());
    assert!(c.program_inputs().is_empty());
    assert!(c.program_outputs().is_empty());
    assert_eq!(c.get_input_size(), 0);
    assert_eq!(c.get_output_size(), 0);
    assert_eq!(c.get_name(), "Unnamed Circuit");
}

#[test]
fn primitive_parts_have_fixed_pin_counts() {
    assert_eq!((Adder {}.get_input_size(), Adder {}.get_output_size()), (2, 1));
    assert_eq!((Subtractor {}.get_input_size(), Subtractor {}.get_output_size()), (2, 1));
    assert_eq!((Multiplier {}.get_input_size(), Multiplier {}.get_output_size()), (2, 1));
    assert_eq!((Divider {}.get_input_size(), Divider {}.get_output_size()), (2, 1));
    assert_eq!((Comparator {}.get_input_size(), Comparator {}.get_output_size()), (2, 1));
    assert_eq!((And {}.get_input_size(), And {}.get_output_size()), (2, 1));
    assert_eq!((IfGate {}.get_input_size(), IfGate {}.get_output_size()), (2, 2));
    let k = Constant { value: 7 };
    assert_eq!((k.get_input_size(), k.get_output_size()), (0, 1));
    let r = Resistor { ohms: 100 };
    assert_eq!((r.get_input_size(), r.get_output_size()), (1, 1));
}

#[test]
fn primitive_parts_have_names() {
    assert_eq!(Adder {}.get_name(), "Adder");
    assert_eq!(Subtractor {}.get_name(), "Subtractor");
    assert_eq!(Multiplier {}.get_name(), "Multiplier");
    assert_eq!(Divider {}.get_name(), "Divider");
    assert_eq!(Comparator {}.get_name(), "Comparator");
    assert_eq!(And {}.get_name(), "And");
    assert_eq!(IfGate {}.get_name(), "IfGate");
    assert_eq!(Constant { value: 0 }.get_name(), "Constant");
    assert_eq!(Resistor { ohms: 1 }.get_name(), "Resistor");
    assert_eq!(Component::IfGate(IfGate {}).get_name(), "IfGate");
}

#[test]
fn add_part_reserves_contiguous_blocks() {
    let mut c = Circuit::new();
    let first = c.add_part(Component::Adder(Adder {}));
    assert_eq!(first, PartInfo { input_offset: 0, output_offset: 0 });
    let second = c.add_part(Component::IfGate(IfGate {}));
    assert_eq!(second, PartInfo { input_offset: 2, output_offset: 1 });
    let third = c.add_part(Component::Constant(Constant { value: 3 }));
    assert_eq!(third, PartInfo { input_offset: 4, output_offset: 3 });
    let fourth = c.add_part(Component::Resistor(Resistor { ohms: 5 }));
    assert_eq!(fourth, PartInfo { input_offset: 4, output_offset: 4 });
    assert_eq!(c.get_input_size(), 5);
    assert_eq!(c.get_output_size(), 5);
    assert_eq!(c.parts().len(), 4);
    assert_eq!(c.placements(), &vec![first, second, third, fourth]);
}

#[test]
fn boundary_pins_keep_their_order() {
    let mut c = Circuit::new();
    assert_eq!(c.add_program_input(), 0);
    let adder = c.add_part(Component::Adder(Adder {}));
    assert_eq!(adder.input_offset, 1);
    assert_eq!(c.add_program_input(), 3);
    assert_eq!(c.add_program_output(), 1);
    assert_eq!(c.add_program_output(), 2);
    assert_eq!(c.program_inputs(), &vec![0, 3]);
    assert_eq!(c.program_outputs(), &vec![1, 2]);
    assert_eq!(c.get_input_size(), 4);
    assert_eq!(c.get_output_size(), 3);
}

#[test]
fn connect_records_wires_in_order_and_asks_nothing() {
    let mut c = Circuit::new();
    c.connect(4, 9);
    c.connect(4, 9);
    c.connect(0, 0);
    assert_eq!(c.connections(), &vec![(4, 9), (4, 9), (0, 0)]);
    assert_eq!(c.get_input_size(), 0);
}

#[test]
fn has_room_tells_whether_pins_are_left() {
    let mut c = Circuit::new();
    assert!(c.has_room(usize::MAX, usize::MAX));
    c.add_program_input();
    assert!(!c.has_room(usize::MAX, 0));
    assert!(c.has_room(usize::MAX - 1, usize::MAX));
    c.add_program_output();
    assert!(!c.has_room(0, usize::MAX));
}

#[test]
fn embedded_circuit_counts_all_its_pins() {
    let mut inner = Circuit::new();
    inner.add_program_input();
    inner.add_program_input();
    inner.add_part(Component::Adder(Adder {}));
    inner.add_program_output();
    inner.set_name("inner".to_string());
    assert_eq!(inner.get_input_size(), 4);
    assert_eq!(inner.get_output_size(), 2);

    let mut outer = Circuit::new();
    outer.add_program_input();
    let at = outer.add_part(Component::Circuit(inner));
    assert_eq!(at, PartInfo { input_offset: 1, output_offset: 0 });
    assert_eq!(outer.get_input_size(), 5);
    assert_eq!(outer.get_output_size(), 2);
    assert_eq!(outer.parts()[0].get_name(), "inner");
    assert_eq!(outer.parts()[0].get_input_size(), 4);
}

#[test]
fn clone_is_deep_and_independent() {
    let mut inner = Circuit::new();
    inner.add_program_input();
    inner.add_part(Component::Multiplier(Multiplier {}));
    let mut template = Circuit::new();
    template.add_part(Component::Circuit(inner));
    template.connect(1, 2);
    template.set_name("template".to_string());

    let mut copy = template.clone();
    assert_eq!(format!("{:?}", copy), format!("{:?}", template));

    copy.connect(7, 8);
    copy.add_program_output();
    copy.add_part(Component::Adder(Adder {}));
    copy.set_name("copy".to_string());

    assert_eq!(template.connections(), &vec![(1, 2)]);
    assert_eq!(template.parts().len(), 1);
    assert!(template.program_outputs().is_empty());
    assert_eq!(template.get_name(), "template");
    assert_eq!(copy.connections(), &vec![(1, 2), (7, 8)]);
    assert_eq!(copy.parts().len(), 2);
    assert_eq!(copy.get_name(), "copy");
}
