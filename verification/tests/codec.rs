use belt_machine::ast::Instruction;

#[test]
fn test_decode_encode_all_16bit() {
    // Test all 65536 possible 16-bit instruction words
    for word in 0..=u16::MAX {
        // Create a buffer with the instruction word and a dummy second word
        let buf = [word, 0x1234];

        // Try to decode the instruction
        if let Some((instr, words_consumed)) = Instruction::decode(&buf) {
            // Re-encode the instruction
            let (encoded_word, second_word) = instr.encode();

            // Compare the first word
            assert_eq!(
                encoded_word, word,
                "Mismatch for word 0x{:04X}, decoded instruction: {:?}",
                word, instr
            );

            // For instructions that consume 2 words, also check the second word
            if words_consumed == 2 {
                assert_eq!(
                    second_word,
                    Some(0x1234),
                    "Second word mismatch for word 0x{:04X}, decoded instruction {:?}",
                    word,
                    instr
                );
            } else {
                assert_eq!(
                    second_word, None,
                    "Unexpected second word for word 0x{:04X}, decoded instruction {:?}",
                    word, instr
                );
            }
        }
    }
}

#[test]
fn test_decode_empty_and_short_buffers() {
    assert_eq!(Instruction::decode(&[]), None);
    // Two-word classes cannot decode from a single word.
    assert_eq!(Instruction::decode(&[0x1000]), None); // BeltConstant
    assert_eq!(Instruction::decode(&[0x2100]), None); // Constant
    assert_eq!(Instruction::decode(&[0x5000]), None); // Branch
    // One-word classes can.
    assert!(Instruction::decode(&[0x7000]).is_some()); // Zero/Nop
}

#[test]
fn test_decode_rejects_reserved_patterns() {
    // Main opcodes 0 and 8..15 are unused.
    assert_eq!(Instruction::decode(&[0x0000, 0]), None);
    assert_eq!(Instruction::decode(&[0x8000, 0]), None);
    assert_eq!(Instruction::decode(&[0xFFFF, 0]), None);
    // Reserved sub-opcodes.
    assert_eq!(Instruction::decode(&[0x1300, 0]), None); // BeltConstant sub 3
    assert_eq!(Instruction::decode(&[0x2400, 0]), None); // Constant sub 4
    assert_eq!(Instruction::decode(&[0x3300, 0]), None); // Immediate sub 3
    assert_eq!(Instruction::decode(&[0x4A00, 0]), None); // Register sub 10
    assert_eq!(Instruction::decode(&[0x5300, 0]), None); // Branch sub 3
    assert_eq!(Instruction::decode(&[0x6300, 0]), None); // Unary sub 3
    assert_eq!(Instruction::decode(&[0x7300, 0]), None); // Zero sub 3
    // Non-zero bits in operand slots a class leaves unused.
    assert_eq!(Instruction::decode(&[0x1001, 0]), None); // BeltConstant op2
    assert_eq!(Instruction::decode(&[0x2010, 0]), None); // Constant op1
    assert_eq!(Instruction::decode(&[0x2001, 0]), None); // Constant op2
    assert_eq!(Instruction::decode(&[0x6001, 0]), None); // Unary op2
    assert_eq!(Instruction::decode(&[0x7010, 0]), None); // Zero op1
    assert_eq!(Instruction::decode(&[0x7001, 0]), None); // Zero op2
}
