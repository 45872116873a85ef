//! The machine code that calls `SetWindowDisplayAffinity(hwnd, affinity)`
//! inside another process, for 64-bit and for 32-bit targets.

use vstd::prelude::*;

verus! {

broadcast use vstd::seq_lib::group_seq_properties, vstd::seq::group_seq_axioms;

/// Byte `i` (counting from the least significant) of `v`.
pub open spec fn byte_of(v: u64, i: u64) -> u8 {
    ((v >> (8 * i)) & 0xff) as u8
}

/// The `n` least significant bytes of `v`, least significant first:
/// what `to_le_bytes` gives for a value of `n` bytes.
pub open spec fn le_bytes(v: u64, n: nat) -> Seq<u8> {
    Seq::new(n, |i: int| byte_of(v, i as u64))
}

/// The bytes the 64-bit code reserves on the stack: the 32-byte shadow
/// space the callee may use, and 8 more so that the stack, 8 bytes off a
/// 16-byte boundary when a thread starts, is aligned at the call.
pub open spec fn x64_stack_reserve() -> u8 {
    0x28
}

/// The 64-bit code: reserve stack space, load the window handle into
/// `rcx`, the affinity into `rdx` and the function's address into `rax`,
/// call it, release the stack space and return.
pub open spec fn shellcode_x64_spec(hwnd: isize, affinity: u32, func_addr: usize) -> Seq<u8> {
    seq![0x48u8, 0x83, 0xEC, x64_stack_reserve(), 0x48, 0xB9] + le_bytes(hwnd as u64, 8)
        + seq![0x48u8, 0xBA] + le_bytes(affinity as u64, 8)
        + seq![0x48u8, 0xB8] + le_bytes(func_addr as u64, 8)
        + seq![0xFFu8, 0xD0, 0x48, 0x83, 0xC4, x64_stack_reserve(), 0xC3]
}

/// Under the Windows x64 calling convention the stack pointer is 8 off a
/// 16-byte boundary at a routine's first instruction and must be on one at
/// a call, with at least 32 bytes of shadow space above it.
pub open spec fn x64_reserve_aligns(reserve: u8) -> bool {
    &&& reserve >= 0x20
    &&& forall|entry_rsp: int| entry_rsp % 16 == 8 ==> #[trigger] ((entry_rsp - reserve) % 16) == 0
}

/// The 32-bit code: push the affinity and the window handle, load the
/// function's address into `eax`, call it and return.
pub open spec fn shellcode_x86_spec(hwnd: isize, affinity: u32, func_addr: usize) -> Seq<u8> {
    seq![0x68u8] + le_bytes(affinity as u64, 4)
        + seq![0x68u8] + le_bytes((hwnd as u32) as u64, 4)
        + seq![0xB8u8] + le_bytes((func_addr as u32) as u64, 4)
        + seq![0xFFu8, 0xD0, 0xC3]
}

fn push_le_bytes(code: &mut Vec<u8>, v: u64, n: u64)
    requires
        n <= 8,
    ensures
        final(code)@ == old(code)@ + le_bytes(v, n as nat),
{
    let ghost start = code@;
    let mut i: u64 = 0;
    while i < n
        invariant
            i <= n <= 8,
            code@ == start + le_bytes(v, i as nat),
        decreases n - i,
    {
        let b = ((v >> (8 * i)) & 0xff) as u8;
        code.push(b);
        i = i + 1;
        proof {
            assert(le_bytes(v, i as nat) =~= le_bytes(v, (i - 1) as nat).push(b));
        }
    }
}

fn push_bytes(code: &mut Vec<u8>, bytes: &[u8])
    ensures
        final(code)@ == old(code)@ + bytes@,
{
    let ghost start = code@;
    let n = bytes.len();
    for i in 0..n
        invariant
            n == bytes@.len(),
            code@ == start + bytes@.take(i as int),
    {
        code.push(bytes[i]);
        proof {
            assert(bytes@.take(i + 1) == bytes@.take(i as int).push(bytes@[i as int]));
        }
    }
    proof {
        assert(bytes@.take(n as int) == bytes@);
    }
}

/// The 64-bit code that calls the function at `func_addr` with `hwnd` and
/// `affinity`.
pub fn build_shellcode_x64(hwnd: isize, affinity: u32, func_addr: usize) -> (code: Vec<u8>)
    ensures
        code@ == shellcode_x64_spec(hwnd, affinity, func_addr),
        code@.len() == 41,
        code@.subrange(0, 3) == seq![0x48u8, 0x83, 0xEC],
        code@.subrange(36, 39) == seq![0x48u8, 0x83, 0xC4],
        code@[39] == code@[3],
        x64_reserve_aligns(code@[3]),
{
    let mut code: Vec<u8> = Vec::new();
    push_bytes(&mut code, &[0x48, 0x83, 0xEC, 0x28]);
    push_bytes(&mut code, &[0x48, 0xB9]);
    push_le_bytes(&mut code, hwnd as u64, 8);
    push_bytes(&mut code, &[0x48, 0xBA]);
    push_le_bytes(&mut code, affinity as u64, 8);
    push_bytes(&mut code, &[0x48, 0xB8]);
    push_le_bytes(&mut code, func_addr as u64, 8);
    push_bytes(&mut code, &[0xFF, 0xD0]);
    push_bytes(&mut code, &[0x48, 0x83, 0xC4, 0x28]);
    push_bytes(&mut code, &[0xC3]);
    proof {
        assert(code@ =~= shellcode_x64_spec(hwnd, affinity, func_addr));
        assert(code@[3] == 0x28u8);
        assert(code@[39] == 0x28u8);
        assert(code@.subrange(0, 3) =~= seq![0x48u8, 0x83, 0xEC]);
        assert(code@.subrange(36, 39) =~= seq![0x48u8, 0x83, 0xC4]);
        assert forall|entry_rsp: int| entry_rsp % 16 == 8 implies #[trigger] ((entry_rsp - 0x28u8) % 16) == 0 by {}
    }
    code
}

/// The 32-bit code that calls the function at `func_addr` with `hwnd` and
/// `affinity`; the handle and the address are cut to 32 bits.
pub fn build_shellcode_x86(hwnd: isize, affinity: u32, func_addr: usize) -> (code: Vec<u8>)
    ensures
        code@ == shellcode_x86_spec(hwnd, affinity, func_addr),
        code@.len() == 18,
{
    let mut code: Vec<u8> = Vec::new();
    push_bytes(&mut code, &[0x68]);
    push_le_bytes(&mut code, affinity as u64, 4);
    push_bytes(&mut code, &[0x68]);
    push_le_bytes(&mut code, (hwnd as u32) as u64, 4);
    push_bytes(&mut code, &[0xB8]);
    push_le_bytes(&mut code, (func_addr as u32) as u64, 4);
    push_bytes(&mut code, &[0xFF, 0xD0]);
    push_bytes(&mut code, &[0xC3]);
    proof {
        assert(code@ =~= shellcode_x86_spec(hwnd, affinity, func_addr));
    }
    code
}

/// The little-endian bytes give back the value they were taken from.
pub proof fn lemma_le_bytes_roundtrip(v: u64)
    ensures
        v == (byte_of(v, 0) as u64) | ((byte_of(v, 1) as u64) << 8) | ((byte_of(v, 2) as u64) << 16)
            | ((byte_of(v, 3) as u64) << 24) | ((byte_of(v, 4) as u64) << 32) | ((byte_of(v, 5) as u64) << 40)
            | ((byte_of(v, 6) as u64) << 48) | ((byte_of(v, 7) as u64) << 56),
{
    assert(v == (((v >> 0u64) & 0xff) as u8 as u64) | (((((v >> 8u64) & 0xff) as u8) as u64) << 8)
        | (((((v >> 16u64) & 0xff) as u8) as u64) << 16) | (((((v >> 24u64) & 0xff) as u8) as u64) << 24)
        | (((((v >> 32u64) & 0xff) as u8) as u64) << 32) | (((((v >> 40u64) & 0xff) as u8) as u64) << 40)
        | (((((v >> 48u64) & 0xff) as u8) as u64) << 48) | (((((v >> 56u64) & 0xff) as u8) as u64) << 56))
        by (bit_vector);
}

} // verus!
