use vstd::prelude::*;
use vstd::string::*;

verus! {

/// Number of files, and of ranks, on the board.
pub const BOARD_SIZE: u8 = 8;

/// A square given by its file (`col`, 0 for "a") and its rank (`row`, 0 for rank 1).
#[derive(Clone, Copy, Debug, PartialEq, Eq, Structural)]
pub struct BoardCoordinates {
    pub col: u8,
    pub row: u8,
}

/// Letter of file `col`: "a" for 0 through "h" for 7.
pub open spec fn file_letter(col: u8) -> char {
    ((col + 97) as u8) as char
}

/// Digit of rank `row` as printed: "1" for 0 through "8" for 7.
pub open spec fn rank_digit(row: u8) -> char {
    ((row + 49) as u8) as char
}

impl BoardCoordinates {
    /// Whether the square lies on the board.
    pub open spec fn on_board(self) -> bool {
        self.col < 8 && self.row < 8
    }

    /// The square of bit index `bit`.
    pub fn from_bit(bit: u8) -> (r: BoardCoordinates)
        requires
            bit < 64,
        ensures
            r.col == bit % 8,
            r.row == bit / 8,
            r.row * 8 + r.col == bit,
            r.on_board(),
    {
        BoardCoordinates { col: bit % 8, row: bit / 8 }
    }

    /// Whether the square is shaded dark: file and rank of equal parity.
    pub fn is_dark(&self) -> (r: bool)
        requires
            self.on_board(),
        ensures
            r == ((self.col + self.row) % 2 == 0),
    {
        (self.col + self.row) % 2 == 0
    }

    /// The square's name: its file letter followed by its rank number
    /// ("a2" for file 0, rank 1).
    pub fn label(&self) -> (r: String)
        requires
            self.on_board(),
        ensures
            r@ == seq![file_letter(self.col), rank_digit(self.row)],
    {
        let file: &str = match self.col {
            0 => "a",
            1 => "b",
            2 => "c",
            3 => "d",
            4 => "e",
            5 => "f",
            6 => "g",
            7 => "h",
            _ => "h",
        };
        let rank: &str = match self.row {
            0 => "1",
            1 => "2",
            2 => "3",
            3 => "4",
            4 => "5",
            5 => "6",
            6 => "7",
            7 => "8",
            _ => "8",
        };
        proof {
            reveal_strlit("a");
            reveal_strlit("b");
            reveal_strlit("c");
            reveal_strlit("d");
            reveal_strlit("e");
            reveal_strlit("f");
            reveal_strlit("g");
            reveal_strlit("h");
            reveal_strlit("1");
            reveal_strlit("2");
            reveal_strlit("3");
            reveal_strlit("4");
            reveal_strlit("5");
            reveal_strlit("6");
            reveal_strlit("7");
            reveal_strlit("8");
        }
        let mut name = String::from_str(file);
        name.append(rank);
        name
    }
}

} // verus!
