use evm_core::word::Word;

fn w(v: u64) -> Word {
    Word::from_u64(v)
}

fn all_ones() -> Word {
    Word { w0: u64::MAX, w1: u64::MAX, w2: u64::MAX, w3: u64::MAX }
}

#[test]
fn add_wraps_at_the_word_boundary() {
    let r = all_ones().wrapping_add(&w(1));
    assert_eq!(r, w(0));
    let r2 = all_ones().wrapping_add(&all_ones());
    assert_eq!(r2, Word { w0: u64::MAX - 1, w1: u64::MAX, w2: u64::MAX, w3: u64::MAX });
}

#[test]
fn sub_wraps_below_zero() {
    assert_eq!(w(0).wrapping_sub(&w(1)), all_ones());
    assert_eq!(w(9).wrapping_sub(&w(4)), w(5));
}

#[test]
fn add_then_sub_restores_the_first_operand() {
    let a = Word { w0: 0x1234, w1: 7, w2: 0, w3: 0x8000_0000_0000_0000 };
    let b = all_ones();
    assert_eq!(a.wrapping_add(&b).wrapping_sub(&b), a);
    let c = w(0);
    assert_eq!(c.wrapping_add(&b).wrapping_sub(&b), c);
}

#[test]
fn mul_crosses_limbs_and_wraps() {
    // 2^64 * 2^64 == 2^128
    let x = Word { w0: 0, w1: 1, w2: 0, w3: 0 };
    assert_eq!(x.wrapping_mul(&x), Word { w0: 0, w1: 0, w2: 1, w3: 0 });
    // 2^128 * 2^128 wraps to zero
    let y = Word { w0: 0, w1: 0, w2: 1, w3: 0 };
    assert_eq!(y.wrapping_mul(&y), w(0));
    assert_eq!(w(7).wrapping_mul(&w(6)), w(42));
}

#[test]
fn div_rem_computes_quotient_and_remainder() {
    let (q, r) = w(17).div_rem(&w(5));
    assert_eq!(q, w(3));
    assert_eq!(r, w(2));
    let big = Word { w0: 0, w1: 0, w2: 0, w3: 1 };
    let (q2, r2) = big.div_rem(&Word { w0: 0, w1: 1, w2: 0, w3: 0 });
    assert_eq!(q2, Word { w0: 0, w1: 0, w2: 1, w3: 0 });
    assert_eq!(r2, w(0));
}

#[test]
fn signed_division_truncates_toward_zero() {
    let minus_four = w(4).neg256();
    assert_eq!(minus_four.sdiv_w(&w(2)), w(2).neg256());
    // -7 / 2 == -3, truncated
    assert_eq!(w(7).neg256().sdiv_w(&w(2)), w(3).neg256());
    assert_eq!(w(7).sdiv_w(&w(2).neg256()), w(3).neg256());
    assert_eq!(w(7).neg256().sdiv_w(&w(2).neg256()), w(3));
}

#[test]
fn signed_remainder_carries_dividend_sign() {
    assert_eq!(w(7).neg256().smod_w(&w(3)), w(1).neg256());
    assert_eq!(w(7).smod_w(&w(3).neg256()), w(1));
}

#[test]
fn signed_ops_by_zero_give_zero() {
    assert_eq!(w(7).sdiv_w(&w(0)), w(0));
    assert_eq!(w(7).neg256().sdiv_w(&w(0)), w(0));
    assert_eq!(w(7).smod_w(&w(0)), w(0));
}

#[test]
fn add_mod_and_mul_mod_use_full_precision() {
    assert_eq!(w(10).add_mod(&w(10), &w(8)), w(4));
    assert_eq!(w(10).add_mod(&w(10), &w(0)), w(0));
    // (2^255 + 2^255) mod 3: the sum overflows 2^256 but is not truncated
    let half = Word { w0: 0, w1: 0, w2: 0, w3: 0x8000_0000_0000_0000 };
    // 2^255 mod 3 == 2, so the exact sum 2^256 mod 3 == 1
    assert_eq!(half.add_mod(&half, &w(3)), w(1));
    assert_eq!(w(10).mul_mod(&w(10), &w(7)), w(2));
    // 2^128 * 2^128 mod (2^256 - 1) == 1
    let p128 = Word { w0: 0, w1: 0, w2: 1, w3: 0 };
    assert_eq!(p128.mul_mod(&p128, &all_ones()), w(1));
}

#[test]
fn exp_squares_and_wraps() {
    assert_eq!(w(2).wrapping_exp(&w(10)), w(1024));
    assert_eq!(w(3).wrapping_exp(&w(0)), w(1));
    assert_eq!(w(0).wrapping_exp(&w(5)), w(0));
    // 2^256 wraps to zero
    assert_eq!(w(2).wrapping_exp(&w(256)), w(0));
}

#[test]
fn comparisons_and_sign() {
    assert!(w(3).lt_u(&w(5)));
    assert!(!w(5).lt_u(&w(5)));
    assert!(all_ones().lt_s(&w(0)));
    assert!(!w(0).lt_s(&all_ones()));
    assert!(w(1).neg256().lt_s(&w(1)));
}

#[test]
fn bitwise_operations() {
    assert_eq!(w(0b1100).bit_and(&w(0b1010)), w(0b1000));
    assert_eq!(w(0b1100).bit_or(&w(0b1010)), w(0b1110));
    assert_eq!(w(0b1100).bit_xor(&w(0b1010)), w(0b0110));
    assert_eq!(w(0).bit_not(), all_ones());
}

#[test]
fn shifts_and_arithmetic_shift() {
    assert_eq!(w(1).shl_k(4), w(16));
    assert_eq!(w(16).shr_k(4), w(1));
    assert_eq!(w(1).shl_k(255), Word { w0: 0, w1: 0, w2: 0, w3: 0x8000_0000_0000_0000 });
    // arithmetic shift of a negative value replicates the sign bit
    assert_eq!(all_ones().sar_k(8), all_ones());
    assert_eq!(w(2).neg256().sar_k(1), w(1).neg256());
    assert_eq!(w(16).sar_k(2), w(4));
}

#[test]
fn byte_extraction_counts_from_most_significant() {
    let x = Word::from_u64(0x1122);
    assert_eq!(x.byte_msb(31), w(0x22));
    assert_eq!(x.byte_msb(30), w(0x11));
    assert_eq!(x.byte_msb(0), w(0));
}

#[test]
fn sign_extension_from_chosen_byte() {
    // extending 0xff from byte 0 gives minus one
    assert_eq!(evm_core::word::extend_sign(w(0xff), w(0)), all_ones());
    // extending 0x7f keeps the value positive
    assert_eq!(evm_core::word::extend_sign(w(0x7f), w(0)), w(0x7f));
    // an index of 32 or more leaves the word alone
    assert_eq!(evm_core::word::extend_sign(w(0xff), w(32)), w(0xff));
    // extending 0x80nn from byte 1 fills everything above
    let v = w(0x80aa);
    let r = evm_core::word::extend_sign(v, w(1));
    assert_eq!(r, all_ones().shl_k(16).bit_or(&v));
}

#[test]
fn big_endian_byte_round_trip() {
    let x = Word { w0: 0x0123_4567_89ab_cdef, w1: 0xfe, w2: 3, w3: 0x8000_0000_0000_0001 };
    let bytes = x.to_be_bytes();
    assert_eq!(bytes.len(), 32);
    assert_eq!(Word::from_be_slice(&bytes), x);
    assert_eq!(bytes[31], 0xef);
    assert_eq!(bytes[0], 0x80);
}

#[test]
fn from_be_slice_pads_short_input_on_the_left() {
    assert_eq!(Word::from_be_slice(&[0x12, 0x34]), w(0x1234));
    assert_eq!(Word::from_be_slice(&[]), w(0));
}

#[test]
fn usize_and_u64_views() {
    assert_eq!(w(300).to_usize(), Some(300));
    assert_eq!(all_ones().to_usize(), None);
    assert_eq!(Word { w0: 5, w1: 1, w2: 0, w3: 0 }.low_u64(), 5);
}
