use bls12_381_prover::{ModuloMachine, P_STR};
use num_bigint::BigUint;

#[test]
fn test_machine_creation() {
    let machine = ModuloMachine::new();
    assert_eq!(*machine.get_output(), BigUint::from(0u32));

    // Verify P is loaded correctly
    let expected_p = BigUint::parse_bytes(P_STR.as_bytes(), 10).unwrap();
    assert_eq!(machine.get_prime(), &expected_p);
}

#[test]
fn test_reset_functionality() {
    let mut machine = ModuloMachine::new();

    // Set some output first
    let x = BigUint::from(12345u32);
    machine.tick(true, false, &x);
    assert_ne!(*machine.get_output(), BigUint::from(0u32));

    // Reset should clear output
    let zero = BigUint::from(0u32);
    machine.tick(false, true, &zero);
    assert_eq!(*machine.get_output(), BigUint::from(0u32));
}

#[test]
fn test_basic_modulo_operation() {
    let mut machine = ModuloMachine::new();
    let p = machine.get_prime().clone();

    // Test with a number smaller than P
    let x_small = BigUint::from(12345u32);
    let result = machine.tick(true, false, &x_small);
    assert_eq!(*result, x_small); // Should be unchanged since x < P

    // Test with P itself - need to cycle clock first
    let zero = BigUint::from(0u32);
    machine.tick(false, false, &zero); // Clock low
    let result = machine.tick(true, false, &p); // Clock high (rising edge)
    assert_eq!(*result, zero); // P mod P = 0

    // Test with P + 1 - need to cycle clock first
    machine.tick(false, false, &zero); // Clock low
    let x_large = &p + 1u32;
    let result = machine.tick(true, false, &x_large); // Clock high (rising edge)
    assert_eq!(*result, BigUint::from(1u32)); // (P + 1) mod P = 1
}

#[test]
fn test_input_size_validation() {
    // Test valid 300-bit input
    let max_300_bit = ModuloMachine::create_large_input(300, 0) - 1u32;
    assert!(ModuloMachine::validate_input_size(&max_300_bit));

    // Test invalid 301-bit input
    let min_301_bit = ModuloMachine::create_large_input(300, 0);
    assert!(!ModuloMachine::validate_input_size(&min_301_bit));
}

#[test]
fn test_output_size_validation() {
    let machine = ModuloMachine::new();
    let p = machine.get_prime();

    // Output should always be < P, so within 256 bits
    assert!(ModuloMachine::validate_output_size(p));
    let p_minus_one = p - 1u32;
    assert!(ModuloMachine::validate_output_size(&p_minus_one));
}

#[test]
fn test_batch_processing() {
    let mut machine = ModuloMachine::new();

    // Create test inputs
    let input1 = BigUint::from(12345u64);
    let input2 = BigUint::from(67890u64);
    let input3 = BigUint::from(0u64);
    let input4 = BigUint::from(99999u64);

    // Need to properly cycle clock for each operation
    let inputs = vec![
        (true, false, input1.clone()),  // Rising edge - should process
        (false, false, input1),         // Clock low
        (true, false, input2),          // Rising edge - should process input2
        (false, true, input3),          // Reset while clock low
        (true, false, input4),          // Rising edge after reset - should process input4
    ];

    let results = machine.process_batch(&inputs);
    assert_eq!(results.len(), 5);
    assert_eq!(results[0], BigUint::from(12345u32)); // First input processed
    assert_eq!(results[1], BigUint::from(12345u32)); // Clock low, output unchanged
    assert_eq!(results[2], BigUint::from(67890u32)); // Second input processed
    assert_eq!(results[3], BigUint::from(0u32)); // After reset
    assert_eq!(results[4], BigUint::from(99999u32)); // Fourth input processed
}

#[test]
fn test_performance_helpers() {
    // Test optimized input creation methods
    let from_u64 = ModuloMachine::create_input_u64(12345);
    assert_eq!(from_u64, BigUint::from(12345u32));

    let from_string = ModuloMachine::create_input("12345", 10).unwrap();
    assert_eq!(from_string, BigUint::from(12345u32));

    let large_input = ModuloMachine::create_large_input(10, 123);
    assert_eq!(large_input, BigUint::from(1024u32 + 123u32)); // 2^10 + 123
}
