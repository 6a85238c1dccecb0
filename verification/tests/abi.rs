use oxibrowser_core::host_abi::{
    _abi_contract_uses_pack, argument_span, pack_ptr_len, packed_span, unpack_ptr_len, Span,
};
use oxibrowser_core::wasm_dispatch::{alloc_size, return_bytes, returned_at, ReturnStep};

#[test]
fn pack_puts_pointer_low_and_length_high() {
    assert_eq!(pack_ptr_len(0x1234, 0x56), 0x0000_0056_0000_1234);
    assert_eq!(pack_ptr_len(0, 0), 0);
    assert_eq!(pack_ptr_len(0xffff_ffff, 0xffff_ffff), u64::MAX);
    assert_eq!(_abi_contract_uses_pack(7, 9), 0x9_0000_0007);
}

#[test]
fn unpack_undoes_pack() {
    let word = pack_ptr_len(0xdead_beef, 0x0bad_f00d);
    assert_eq!(unpack_ptr_len(word), Span { ptr: 0xdead_beef, len: 0x0bad_f00d });
    assert_eq!(packed_span(word), Some(Span { ptr: 0xdead_beef, len: 0x0bad_f00d }));
}

#[test]
fn pack_undoes_unpack() {
    for word in [0u64, 1, 0x1_0000_0000, 0xffff_ffff_0000_0001, u64::MAX] {
        let span = unpack_ptr_len(word);
        assert_eq!(pack_ptr_len(span.ptr as usize, span.len as usize), word);
    }
}

#[test]
fn zero_pointer_or_length_is_no_bytes() {
    assert_eq!(packed_span(0), None);
    assert_eq!(packed_span(pack_ptr_len(0, 5)), None);
    assert_eq!(packed_span(pack_ptr_len(5, 0)), None);
    assert_eq!(argument_span(0, 5), None);
    assert_eq!(argument_span(5, 0), None);
    assert_eq!(argument_span(5, 6), Some(Span { ptr: 5, len: 6 }));
}

#[test]
fn nothing_is_allocated_for_no_bytes() {
    assert_eq!(alloc_size(0), None);
    assert_eq!(alloc_size(12), Some(12));
}

#[test]
fn bytes_are_returned_packed() {
    assert_eq!(return_bytes(&[]), ReturnStep::Done(0));
    assert_eq!(return_bytes(&[1, 2, 3]), ReturnStep::Allocate(3));
    let word = returned_at(0x100, 3);
    assert_eq!(word, 0x3_0000_0100);
    assert_eq!(packed_span(word), Some(Span { ptr: 0x100, len: 3 }));
}

#[test]
fn answered_calls_return_a_word() {
    assert_ne!(returned_at(0, 1), 0);
    assert_ne!(returned_at(u32::MAX, u32::MAX), 0);
}
