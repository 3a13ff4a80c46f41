use vstd::prelude::*;
use core::ops::BitAndAssign;
use vstd::std_specs::ops::{BitAndSpec, BitOrSpec, BitXorSpec};

verus! {

/// A set of board squares, one bit per square: bit `i` of the word stands for
/// square index `i` (file `i % 8`, rank `i / 8`).
#[derive(Clone, Copy, Debug, PartialEq, Eq, Structural)]
pub struct BitBoard(pub u64);

/// An integer reduced to a 64-bit word, as two's-complement arithmetic wraps it.
pub open spec fn wrap_word(x: int) -> u64 {
    (x % 0x1_0000_0000_0000_0000) as u64
}

impl vstd::std_specs::ops::BitAndSpecImpl for BitBoard {
    open spec fn obeys_bitand_spec() -> bool {
        true
    }

    open spec fn bitand_req(self, rhs: BitBoard) -> bool {
        true
    }

    open spec fn bitand_spec(self, rhs: BitBoard) -> BitBoard {
        BitBoard(self.0 & rhs.0)
    }
}

/// Intersection of the two occupancy sets.
impl core::ops::BitAnd for BitBoard {
    type Output = BitBoard;

    fn bitand(self, rhs: BitBoard) -> (r: BitBoard)
        ensures
            r == BitBoard(self.0 & rhs.0),
    {
        BitBoard(self.0 & rhs.0)
    }
}

impl vstd::std_specs::ops::BitOrSpecImpl for BitBoard {
    open spec fn obeys_bitor_spec() -> bool {
        true
    }

    open spec fn bitor_req(self, rhs: BitBoard) -> bool {
        true
    }

    open spec fn bitor_spec(self, rhs: BitBoard) -> BitBoard {
        BitBoard(self.0 | rhs.0)
    }
}

/// Union of the two occupancy sets.
impl core::ops::BitOr for BitBoard {
    type Output = BitBoard;

    fn bitor(self, rhs: BitBoard) -> (r: BitBoard)
        ensures
            r == BitBoard(self.0 | rhs.0),
    {
        BitBoard(self.0 | rhs.0)
    }
}

impl vstd::std_specs::ops::BitXorSpecImpl for BitBoard {
    open spec fn obeys_bitxor_spec() -> bool {
        true
    }

    open spec fn bitxor_req(self, rhs: BitBoard) -> bool {
        true
    }

    open spec fn bitxor_spec(self, rhs: BitBoard) -> BitBoard {
        BitBoard(self.0 ^ rhs.0)
    }
}

/// Symmetric difference of the two occupancy sets.
impl core::ops::BitXor for BitBoard {
    type Output = BitBoard;

    fn bitxor(self, rhs: BitBoard) -> (r: BitBoard)
        ensures
            r == BitBoard(self.0 ^ rhs.0),
    {
        BitBoard(self.0 ^ rhs.0)
    }
}

impl vstd::std_specs::ops::AddSpecImpl for BitBoard {
    open spec fn obeys_add_spec() -> bool {
        true
    }

    open spec fn add_req(self, rhs: BitBoard) -> bool {
        true
    }

    open spec fn add_spec(self, rhs: BitBoard) -> BitBoard {
        BitBoard(wrap_word(self.0 + rhs.0))
    }
}

/// Sum of the raw words, wrapping modulo 2^64.
impl core::ops::Add for BitBoard {
    type Output = BitBoard;

    fn add(self, rhs: BitBoard) -> (r: BitBoard)
        ensures
            r == BitBoard(wrap_word(self.0 + rhs.0)),
    {
        BitBoard(self.0.wrapping_add(rhs.0))
    }
}

impl vstd::std_specs::ops::SubSpecImpl for BitBoard {
    open spec fn obeys_sub_spec() -> bool {
        true
    }

    open spec fn sub_req(self, rhs: BitBoard) -> bool {
        true
    }

    open spec fn sub_spec(self, rhs: BitBoard) -> BitBoard {
        BitBoard(wrap_word(self.0 - rhs.0))
    }
}

/// Difference of the raw words, wrapping modulo 2^64.
impl core::ops::Sub for BitBoard {
    type Output = BitBoard;

    fn sub(self, rhs: BitBoard) -> (r: BitBoard)
        ensures
            r == BitBoard(wrap_word(self.0 - rhs.0)),
    {
        BitBoard(self.0.wrapping_sub(rhs.0))
    }
}

impl vstd::std_specs::ops::MulSpecImpl for BitBoard {
    open spec fn obeys_mul_spec() -> bool {
        true
    }

    open spec fn mul_req(self, rhs: BitBoard) -> bool {
        true
    }

    open spec fn mul_spec(self, rhs: BitBoard) -> BitBoard {
        BitBoard(wrap_word(self.0 * rhs.0))
    }
}

/// Product of the raw words, wrapping modulo 2^64.
impl core::ops::Mul for BitBoard {
    type Output = BitBoard;

    fn mul(self, rhs: BitBoard) -> (r: BitBoard)
        ensures
            r == BitBoard(wrap_word(self.0 * rhs.0)),
    {
        BitBoard(self.0.wrapping_mul(rhs.0))
    }
}

impl vstd::std_specs::ops::DivSpecImpl for BitBoard {
    open spec fn obeys_div_spec() -> bool {
        true
    }

    open spec fn div_req(self, rhs: BitBoard) -> bool {
        rhs.0 != 0
    }

    open spec fn div_spec(self, rhs: BitBoard) -> BitBoard {
        BitBoard(self.0 / rhs.0)
    }
}

/// Quotient of the raw words; dividing by the empty board is not allowed.
impl core::ops::Div for BitBoard {
    type Output = BitBoard;

    fn div(self, rhs: BitBoard) -> (r: BitBoard)
        ensures
            r == BitBoard(self.0 / rhs.0),
    {
        BitBoard(self.0 / rhs.0)
    }
}

impl vstd::std_specs::ops::NotSpecImpl for BitBoard {
    open spec fn obeys_not_spec() -> bool {
        true
    }

    open spec fn not_req(self) -> bool {
        true
    }

    open spec fn not_spec(self) -> BitBoard {
        BitBoard(!self.0)
    }
}

/// Complement: the squares that the board does not hold.
impl core::ops::Not for BitBoard {
    type Output = BitBoard;

    fn not(self) -> (r: BitBoard)
        ensures
            r == BitBoard(!self.0),
    {
        BitBoard(!self.0)
    }
}

/// In-place intersection.
impl core::ops::BitAndAssign for BitBoard {
    fn bitand_assign(&mut self, rhs: BitBoard)
        ensures
            *final(self) == BitBoard(old(self).0 & rhs.0),
    {
        self.0 = self.0 & rhs.0;
    }
}

/// In-place union.
impl core::ops::BitOrAssign for BitBoard {
    fn bitor_assign(&mut self, rhs: BitBoard)
        ensures
            *final(self) == BitBoard(old(self).0 | rhs.0),
    {
        self.0 = self.0 | rhs.0;
    }
}

/// In-place symmetric difference.
impl core::ops::BitXorAssign for BitBoard {
    fn bitxor_assign(&mut self, rhs: BitBoard)
        ensures
            *final(self) == BitBoard(old(self).0 ^ rhs.0),
    {
        self.0 = self.0 ^ rhs.0;
    }
}

/// Whether bit `i` of the word `w` is set.
pub open spec fn has_square(w: u64, i: u64) -> bool {
    (w >> i) & 1u64 == 1u64
}

/// The set bits of `w` at index `k` and above, in ascending order.
pub open spec fn squares_from(w: u64, k: nat) -> Seq<u8>
    decreases 64 - k,
{
    if k >= 64 {
        Seq::empty()
    } else if has_square(w, k as u64) {
        seq![k as u8] + squares_from(w, k + 1)
    } else {
        squares_from(w, k + 1)
    }
}

/// The indices of all set bits of `w`, in ascending order.
pub open spec fn squares_of(w: u64) -> Seq<u8> {
    squares_from(w, 0)
}

/// Number of set bits of `w` at index `k` and above.
pub open spec fn count_from(w: u64, k: nat) -> nat
    decreases 64 - k,
{
    if k >= 64 {
        0
    } else if has_square(w, k as u64) {
        1 + count_from(w, k + 1)
    } else {
        count_from(w, k + 1)
    }
}

/// Population count: the number of set bits of `w`.
pub open spec fn pop_count(w: u64) -> nat {
    count_from(w, 0)
}

/// Index of the lowest set bit of a non-zero word.
pub open spec fn lowest_square(w: u64) -> u64 {
    w.trailing_zeros() as u64
}

/// Words that agree on every bit from `k` upward list the same squares from `k`.
proof fn lemma_squares_agree(x: u64, y: u64, k: nat)
    requires
        forall|j: u64| k <= j < 64 ==> has_square(x, j) == has_square(y, j),
    ensures
        squares_from(x, k) == squares_from(y, k),
        count_from(x, k) == count_from(y, k),
    decreases 64 - k,
{
    if k < 64 {
        assert(has_square(x, k as u64) == has_square(y, k as u64));
        lemma_squares_agree(x, y, k + 1);
    }
}

/// A run of clear bits from `k` up to `m` contributes nothing.
proof fn lemma_squares_skip(x: u64, k: nat, m: nat)
    requires
        k <= m <= 64,
        forall|j: u64| k <= j < m ==> !has_square(x, j),
    ensures
        squares_from(x, k) == squares_from(x, m),
        count_from(x, k) == count_from(x, m),
    decreases m - k,
{
    if k < m {
        assert(!has_square(x, k as u64));
        lemma_squares_skip(x, k + 1, m);
    }
}

/// What `trailing_zeros` and `b & (b - 1)` do to the bits of a non-zero word.
proof fn lemma_lowest_bits(b: u64)
    requires
        b != 0,
    ensures
        lowest_square(b) < 64,
        has_square(b, lowest_square(b)),
        forall|j: u64| j < lowest_square(b) ==> !has_square(b, j),
        forall|j: u64|
            j <= lowest_square(b) ==> !#[trigger] has_square(b & ((b - 1) as u64), j),
        forall|j: u64|
            lowest_square(b) < j < 64 ==> #[trigger] has_square(b & ((b - 1) as u64), j)
                == has_square(b, j),
{
    vstd::std_specs::bits::axiom_u64_trailing_zeros(b);
    let t = lowest_square(b);
    assert(t < 64);
    assert(b << ((64 - t) as u64) == 0);
    assert forall|j: u64| j <= t implies !#[trigger] has_square(b & ((b - 1) as u64), j) by {
        assert(((b & ((b - 1) as u64)) >> j) & 1u64 == 0u64) by (bit_vector)
            requires
                b != 0,
                t < 64,
                (b >> t) & 1u64 == 1u64,
                b << ((64 - t) as u64) == 0,
                j <= t,
        ;
    }
    assert forall|j: u64| t < j < 64 implies #[trigger] has_square(b & ((b - 1) as u64), j)
        == has_square(b, j) by {
        assert(((b & ((b - 1) as u64)) >> j) & 1u64 == (b >> j) & 1u64) by (bit_vector)
            requires
                b != 0,
                t < 64,
                (b >> t) & 1u64 == 1u64,
                b << ((64 - t) as u64) == 0,
                t < j < 64,
        ;
    }
}

/// The squares of a non-zero word are its lowest square followed by the
/// squares of the word with that bit cleared.
proof fn lemma_squares_step(b: u64)
    requires
        b != 0,
    ensures
        squares_of(b) == seq![lowest_square(b) as u8] + squares_of(b & ((b - 1) as u64)),
        pop_count(b) == 1 + pop_count(b & ((b - 1) as u64)),
{
    let t = lowest_square(b);
    let c = b & ((b - 1) as u64);
    lemma_lowest_bits(b);
    lemma_squares_skip(b, 0, t as nat);
    lemma_squares_skip(c, 0, (t + 1) as nat);
    lemma_squares_agree(b, c, (t + 1) as nat);
}

/// The empty word has no squares.
proof fn lemma_squares_empty()
    ensures
        squares_of(0) == Seq::<u8>::empty(),
        pop_count(0) == 0,
{
    assert forall|j: u64| 0 <= j < 64 implies !has_square(0, j) by {
        assert((0u64 >> j) & 1u64 == 0u64) by (bit_vector);
    }
    lemma_squares_skip(0, 0, 64);
}

/// The squares listed from `k` are the set bits at `k` and above, ascending,
/// as many as `count_from` says.
proof fn lemma_squares_from_shape(w: u64, k: nat)
    requires
        k <= 64,
    ensures
        forall|a: int| 0 <= a < squares_from(w, k).len() ==> k <= #[trigger] squares_from(w, k)[a] < 64,
        forall|a: int, b: int|
            0 <= a < b < squares_from(w, k).len() ==> #[trigger] squares_from(w, k)[a]
                < #[trigger] squares_from(w, k)[b],
        forall|i: u64|
            k <= i < 64 ==> (#[trigger] squares_from(w, k).contains(i as u8) <==> has_square(w, i)),
        squares_from(w, k).len() == count_from(w, k),
    decreases 64 - k,
{
    if k < 64 {
        lemma_squares_from_shape(w, k + 1);
        let s = squares_from(w, k);
        let rest = squares_from(w, k + 1);
        if has_square(w, k as u64) {
            assert(s == seq![k as u8] + rest);
            assert forall|i: u64| k <= i < 64 implies (#[trigger] s.contains(i as u8) <==> has_square(w, i)) by {
                if i == k {
                    assert(s[0] == k as u8);
                } else {
                    if s.contains(i as u8) {
                        let a = choose|a: int| 0 <= a < s.len() && s[a] == i as u8;
                        assert(a > 0);
                        assert(rest[a - 1] == i as u8);
                    }
                    if rest.contains(i as u8) {
                        let a = choose|a: int| 0 <= a < rest.len() && rest[a] == i as u8;
                        assert(s[a + 1] == i as u8);
                    }
                }
            }
        } else {
            assert forall|i: u64| k <= i < 64 implies (#[trigger] s.contains(i as u8) <==> has_square(w, i)) by {
                if i == k {
                    if s.contains(i as u8) {
                        let a = choose|a: int| 0 <= a < s.len() && s[a] == i as u8;
                        assert(k + 1 <= s[a]);
                    }
                }
            }
        }
    }
}

/// Enumeration is exact: the listed indices are precisely the set bits of the
/// word, each below 64, strictly ascending, and as many as its population count.
pub proof fn lemma_piece_positions_exact(w: u64)
    ensures
        forall|i: u64| i < 64 ==> (#[trigger] squares_of(w).contains(i as u8) <==> has_square(w, i)),
        forall|a: int| 0 <= a < squares_of(w).len() ==> #[trigger] squares_of(w)[a] < 64,
        forall|a: int, b: int|
            0 <= a < b < squares_of(w).len() ==> #[trigger] squares_of(w)[a]
                < #[trigger] squares_of(w)[b],
        squares_of(w).len() == pop_count(w),
{
    lemma_squares_from_shape(w, 0);
}

/// The empty board lists no squares.
pub proof fn lemma_piece_positions_empty()
    ensures
        squares_of(0) == Seq::<u8>::empty(),
{
    lemma_squares_empty();
}

/// Clearing with `b & (b - 1)` removes exactly one set bit of a non-zero word,
/// and that bit is its lowest set bit.
pub proof fn lemma_clear_lowest_bit(b: u64)
    requires
        b != 0,
    ensures
        ({
            let c = b & ((b - 1) as u64);
            let t = lowest_square(b);
            &&& t < 64
            &&& has_square(b, t)
            &&& forall|j: u64| j < t ==> !has_square(b, j)
            &&& !has_square(c, t)
            &&& forall|j: u64| j < 64 && j != t ==> #[trigger] has_square(c, j) == has_square(b, j)
            &&& pop_count(c) + 1 == pop_count(b)
        }),
{
    lemma_lowest_bits(b);
    lemma_squares_step(b);
    let c = b & ((b - 1) as u64);
    let t = lowest_square(b);
    assert forall|j: u64| j < 64 && j != t implies #[trigger] has_square(c, j) == has_square(b, j) by {
        if j < t {
            assert(!has_square(c, j));
            assert(!has_square(b, j));
        }
    }
}

/// A word whose set bits from `k` upward are exactly the indices in `lo..hi`
/// counts `hi - lo` of them from `k`.
pub(crate) proof fn lemma_count_run(w: u64, k: nat, lo: nat, hi: nat)
    requires
        k <= lo <= hi <= 64,
        forall|j: u64| k <= j < 64 ==> (has_square(w, j) <==> lo <= j < hi),
    ensures
        count_from(w, k) == hi - lo,
    decreases 64 - k,
{
    if k < hi {
        assert(has_square(w, k as u64) <==> lo <= k);
        lemma_count_run(w, k + 1, if k < lo { lo } else { k + 1 }, hi);
    } else {
        lemma_squares_skip(w, k, 64);
    }
}

/// Laws of the board algebra: intersection and union commute and associate,
/// a board differs from itself in nothing, the empty board absorbs under
/// intersection and is neutral under union.
pub proof fn lemma_bitboard_algebra(a: BitBoard, b: BitBoard, c: BitBoard)
    ensures
        a.bitand_spec(b) == b.bitand_spec(a),
        a.bitor_spec(b) == b.bitor_spec(a),
        a.bitand_spec(b).bitand_spec(c) == a.bitand_spec(b.bitand_spec(c)),
        a.bitor_spec(b).bitor_spec(c) == a.bitor_spec(b.bitor_spec(c)),
        a.bitxor_spec(a) == BitBoard(0),
        a.bitand_spec(BitBoard(0)) == BitBoard(0),
        a.bitor_spec(BitBoard(0)) == a,
{
    let (x, y, z) = (a.0, b.0, c.0);
    assert(x & y == y & x) by (bit_vector);
    assert(x | y == y | x) by (bit_vector);
    assert((x & y) & z == x & (y & z)) by (bit_vector);
    assert((x | y) | z == x | (y | z)) by (bit_vector);
    assert(x ^ x == 0) by (bit_vector);
    assert(x & 0 == 0) by (bit_vector);
    assert(x | 0 == x) by (bit_vector);
}

impl BitBoard {
    /// The indices of the occupied squares, in ascending order.
    pub fn get_piece_positions(&self) -> (r: Vec<u8>)
        ensures
            r@ == squares_of(self.0),
    {
        let mut positions: Vec<u8> = Vec::new();
        let mut board = *self;
        while board != BitBoard(0)
            invariant
                positions@ + squares_of(board.0) == squares_of(self.0),
            decreases squares_of(board.0).len(),
        {
            proof {
                lemma_squares_step(board.0);
            }
            // The lowest set bit is the next square; then clear it.
            let sq = board.0.trailing_zeros() as u8;
            positions.push(sq);
            board.bitand_assign(board - BitBoard(1));
            assert(positions@ + squares_of(board.0) =~= squares_of(self.0));
        }
        proof {
            lemma_squares_empty();
        }
        assert(positions@ =~= positions@ + squares_of(board.0));
        positions
    }
}

} // verus!
