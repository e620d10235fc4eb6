use arb_revm::compiled_frame::eligibility::{
    bytecode_ineligible, bytecode_ineligible_with_ring, IneligibleReason,
};
use arb_revm::constants::{BLOCKHASH, NUMBER, PUSH1, PUSH32};
use arb_revm::instructions::{ARB_INSTRUCTION_OVERRIDES, COMPILED_HOST_BRIDGED_OVERRIDES};

const STOP: u8 = 0x00;
const PUSH2: u8 = 0x61;

#[test]
fn empty_and_ef_prefix_are_ineligible() {
    assert_eq!(bytecode_ineligible(&[]), Some(IneligibleReason::Empty));
    assert_eq!(
        bytecode_ineligible(&[0xef, 0xf0, 0x00]),
        Some(IneligibleReason::EofOrStylusPrefix)
    );
}

#[test]
fn number_is_eligible_blockhash_is_not() {
    // A host without the ring of recorded hashes.
    assert_eq!(
        bytecode_ineligible_with_ring(&[NUMBER, STOP], false),
        None,
        "NUMBER is host-bridged and must compile"
    );
    assert_eq!(
        bytecode_ineligible_with_ring(&[BLOCKHASH, STOP], false),
        Some(IneligibleReason::InstructionOverride(BLOCKHASH))
    );
    assert_eq!(
        bytecode_ineligible_with_ring(&[NUMBER, BLOCKHASH, STOP], false),
        Some(IneligibleReason::InstructionOverride(BLOCKHASH)),
        "NUMBER must not waive a co-occurring refused override"
    );
}

#[test]
fn every_instruction_override_is_bridged_or_refused() {
    for op in ARB_INSTRUCTION_OVERRIDES {
        let bridged = COMPILED_HOST_BRIDGED_OVERRIDES.contains(&op);
        let refused = bytecode_ineligible(&[op, STOP])
            == Some(IneligibleReason::InstructionOverride(op));
        assert_ne!(
            bridged, refused,
            "opcode 0x{op:02x} must be exactly one of host-bridged or refused"
        );
    }
    for op in COMPILED_HOST_BRIDGED_OVERRIDES {
        assert!(
            ARB_INSTRUCTION_OVERRIDES.contains(&op),
            "bridged opcode 0x{op:02x} is not an instruction-table override"
        );
    }
}

#[test]
fn push_immediates_are_not_decoded_as_opcodes() {
    for ring in [false, true] {
        // PUSH1 0x43 STOP and PUSH1 0x40 STOP: data, not NUMBER and BLOCKHASH.
        assert_eq!(
            bytecode_ineligible_with_ring(&[PUSH1, NUMBER, STOP], ring),
            None
        );
        assert_eq!(
            bytecode_ineligible_with_ring(&[PUSH1, BLOCKHASH, STOP], ring),
            None
        );
        let mut code = vec![PUSH32];
        code.extend(std::iter::repeat_n(0x11, 10));
        code.push(NUMBER);
        code.push(BLOCKHASH);
        code.extend(std::iter::repeat_n(0x22, 20));
        code.push(STOP);
        assert_eq!(code.len(), 1 + 32 + 1);
        assert_eq!(bytecode_ineligible_with_ring(&code, ring), None);
    }
    assert_eq!(bytecode_ineligible(&[PUSH1, NUMBER, STOP]), None);
    assert_eq!(bytecode_ineligible(&[PUSH1, BLOCKHASH, STOP]), None);
}

#[test]
fn truncated_push_does_not_scan_payload_as_opcodes() {
    assert_eq!(bytecode_ineligible(&[PUSH2, NUMBER]), None);
    assert_eq!(
        bytecode_ineligible_with_ring(&[PUSH2, BLOCKHASH], false),
        None
    );
}

#[test]
fn number_after_push_is_eligible() {
    assert_eq!(bytecode_ineligible(&[PUSH1, 0x01, NUMBER, STOP]), None);
}

#[test]
fn blockhash_after_push_is_still_detected() {
    // A host without the ring of recorded hashes.
    assert_eq!(
        bytecode_ineligible_with_ring(&[PUSH1, 0x01, BLOCKHASH, STOP], false),
        Some(IneligibleReason::InstructionOverride(BLOCKHASH))
    );
}

#[test]
fn denylist_covers_arb_instruction_overrides() {
    assert_eq!(
        ARB_INSTRUCTION_OVERRIDES,
        [0x40, 0x43],
        "must stay aligned with the table-diff test"
    );
    assert_eq!(COMPILED_HOST_BRIDGED_OVERRIDES, [0x40, 0x43]);
    for op in ARB_INSTRUCTION_OVERRIDES {
        let bridged = COMPILED_HOST_BRIDGED_OVERRIDES.contains(&op);
        let ineligible = bytecode_ineligible(&[op, 0x00]).is_some();
        assert_ne!(
            bridged, ineligible,
            "override 0x{op:02x} must be host-bridged or refused, not both/neither"
        );
    }
}

#[test]
fn only_legacy_pushes_hide_bytes() {
    // Bytes behind opcodes of other formats are opcodes, so none of them hides BLOCKHASH.
    for op in [0xd0u8, 0xd1, 0xe0, 0xe1, 0xe2, 0xe6, 0xe7, 0xe8, 0xec, 0xee, 0x5f] {
        assert_eq!(
            bytecode_ineligible_with_ring(&[op, BLOCKHASH, STOP], false),
            Some(IneligibleReason::InstructionOverride(BLOCKHASH)),
            "opcode 0x{op:02x} must not hide what follows it"
        );
    }
}

#[test]
fn payload_bytes_never_change_the_verdict() {
    let mut code = vec![PUSH2, 0x00, 0x00, BLOCKHASH];
    let verdict = bytecode_ineligible_with_ring(&code, false);
    assert_eq!(
        verdict,
        Some(IneligibleReason::InstructionOverride(BLOCKHASH))
    );
    for byte in 0..=255u8 {
        code[1] = byte;
        code[2] = 255 - byte;
        assert_eq!(bytecode_ineligible_with_ring(&code, false), verdict);
    }
}

#[test]
fn the_ring_admits_every_instruction() {
    for op in 0..=255u8 {
        assert_eq!(
            bytecode_ineligible(&[op, BLOCKHASH, NUMBER]).is_some(),
            op == 0xef
        );
    }
}
