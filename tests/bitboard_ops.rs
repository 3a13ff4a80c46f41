use chessboard::bitboard::BitBoard;

#[test]
fn positions_of_empty_board() {
    assert_eq!(BitBoard(0).get_piece_positions(), Vec::<u8>::new());
}

#[test]
fn positions_of_full_board() {
    let all: Vec<u8> = (0u8..64).collect();
    assert_eq!(BitBoard(u64::MAX).get_piece_positions(), all);
}

#[test]
fn positions_are_ascending_set_bits() {
    let w: u64 = 0x8000_0000_0001_0005;
    assert_eq!(BitBoard(w).get_piece_positions(), vec![0, 2, 16, 63]);
}

#[test]
fn positions_match_bits_and_popcount() {
    let words: [u64; 5] = [1, 0x8000_0000_0000_0000, 0xdead_beef_0123_4567, 0x5555_5555_5555_5555, 0x0f0f_f0f0_0000_ffff];
    for w in words {
        let ps = BitBoard(w).get_piece_positions();
        assert_eq!(ps.len() as u32, w.count_ones());
        for pair in ps.windows(2) {
            assert!(pair[0] < pair[1]);
        }
        for i in 0u8..64 {
            assert_eq!(ps.contains(&i), (w >> i) & 1 == 1);
        }
    }
}

#[test]
fn enumeration_leaves_the_board_unchanged() {
    let b = BitBoard(0xff00);
    let _ = b.get_piece_positions();
    assert_eq!(b, BitBoard(0xff00));
}

#[test]
fn clearing_lowest_bit() {
    let b = BitBoard(0b1011_0100);
    let c = b & (b - BitBoard(1));
    assert_eq!(c, BitBoard(0b1011_0000));
    assert_eq!(c.0.count_ones() + 1, b.0.count_ones());
    let top = BitBoard(0x8000_0000_0000_0000);
    assert_eq!(top & (top - BitBoard(1)), BitBoard(0));
}

#[test]
fn algebra_laws_on_values() {
    let a = BitBoard(0x0123_4567_89ab_cdef);
    let b = BitBoard(0xfedc_ba98_7654_3210);
    let c = BitBoard(0x00ff_00ff_00ff_00ff);
    assert_eq!(a & b, b & a);
    assert_eq!(a | b, b | a);
    assert_eq!((a & b) & c, a & (b & c));
    assert_eq!((a | b) | c, a | (b | c));
    assert_eq!(a ^ a, BitBoard(0));
    assert_eq!(a & BitBoard(0), BitBoard(0));
    assert_eq!(a | BitBoard(0), a);
}

#[test]
fn bitwise_operators() {
    let a = BitBoard(0b1100);
    let b = BitBoard(0b1010);
    assert_eq!(a & b, BitBoard(0b1000));
    assert_eq!(a | b, BitBoard(0b1110));
    assert_eq!(a ^ b, BitBoard(0b0110));
    assert_eq!(!BitBoard(0), BitBoard(u64::MAX));
    assert_eq!(!a, BitBoard(!0b1100u64));
}

#[test]
fn assignment_operators() {
    let mut a = BitBoard(0b1100);
    a &= BitBoard(0b1010);
    assert_eq!(a, BitBoard(0b1000));
    a |= BitBoard(0b0001);
    assert_eq!(a, BitBoard(0b1001));
    a ^= BitBoard(0b1111);
    assert_eq!(a, BitBoard(0b0110));
}

#[test]
fn arithmetic_wraps() {
    assert_eq!(BitBoard(u64::MAX) + BitBoard(2), BitBoard(1));
    assert_eq!(BitBoard(0) - BitBoard(1), BitBoard(u64::MAX));
    assert_eq!(BitBoard(1u64 << 63) * BitBoard(2), BitBoard(0));
    assert_eq!(BitBoard(3) * BitBoard(5), BitBoard(15));
    assert_eq!(BitBoard(40) + BitBoard(2), BitBoard(42));
    assert_eq!(BitBoard(40) - BitBoard(2), BitBoard(38));
}

#[test]
fn division_of_words() {
    assert_eq!(BitBoard(0xff00) / BitBoard(0x100), BitBoard(0xff));
    assert_eq!(BitBoard(7) / BitBoard(2), BitBoard(3));
}
