use screen_guardian_core::inject::{build_shellcode_x64, build_shellcode_x86};

#[test]
fn shellcode_x64_bytes() {
    let code = build_shellcode_x64(0x1234, 17, 0x7FF8_1122_3344);
    let mut expected = vec![0x48, 0x83, 0xEC, 0x28, 0x48, 0xB9];
    expected.extend_from_slice(&(0x1234u64).to_le_bytes());
    expected.extend_from_slice(&[0x48, 0xBA]);
    expected.extend_from_slice(&(17u64).to_le_bytes());
    expected.extend_from_slice(&[0x48, 0xB8]);
    expected.extend_from_slice(&(0x7FF8_1122_3344u64).to_le_bytes());
    expected.extend_from_slice(&[0xFF, 0xD0, 0x48, 0x83, 0xC4, 0x28, 0xC3]);
    assert_eq!(code, expected);
    assert_eq!(code.len(), 41);
    assert_eq!(&code[6..14], &[0x34, 0x12, 0, 0, 0, 0, 0, 0]);
}

#[test]
fn shellcode_x64_stack_aligned_at_call() {
    let code = build_shellcode_x64(7, 2, 0x1000);
    assert_eq!(&code[0..3], &[0x48, 0x83, 0xEC]);
    assert_eq!(&code[36..39], &[0x48, 0x83, 0xC4]);
    assert_eq!(code[39], code[3]);
    assert!(code[3] >= 0x20);
    assert_eq!(code[3] % 16, 8);
}

#[test]
fn shellcode_x64_negative_handle_wraps() {
    let code = build_shellcode_x64(-2, 0, 0);
    assert_eq!(&code[6..14], &[0xFE, 0xFF, 0xFF, 0xFF, 0xFF, 0xFF, 0xFF, 0xFF]);
    assert_eq!(&code[16..24], &[0; 8]);
}

#[test]
fn shellcode_x86_bytes() {
    let code = build_shellcode_x86(0x0001_0002_0003, 1, 0x7654_3210);
    assert_eq!(
        code,
        vec![0x68, 1, 0, 0, 0, 0x68, 0x03, 0x00, 0x02, 0x00, 0xB8, 0x10, 0x32, 0x54, 0x76, 0xFF, 0xD0, 0xC3]
    );
    assert_eq!(code.len(), 18);
}
