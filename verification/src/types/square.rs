//! Squares of the board, indexed `0` (A1) through `63` (H8) rank by rank,
//! with the out-of-board sentinel index `64`.

use vstd::prelude::*;

verus! {

use crate::types::{File, Rank, file_index, rank_index};

/// A board square: `0` is A1, `7` is H1, `56` is A8, `63` is H8. The value
/// `64` is the sentinel standing for "no square".
#[derive(Debug, Copy, Clone, PartialEq, Eq, Structural)]
pub struct Square(pub u8);

/// Walks square indices from `index` up to and including `to`, `step` indices
/// at a time.
#[derive(Debug, Copy, Clone)]
pub struct SquareIter {
    pub index: usize,
    pub to: usize,
    pub step: usize,
}

/// The file coordinate of a square index.
pub open spec fn file_of(s: int) -> int {
    s % 8
}

/// The rank coordinate of a square index.
pub open spec fn rank_of(s: int) -> int {
    s / 8
}

pub open spec fn abs_diff_int(a: int, b: int) -> int {
    if a >= b {
        a - b
    } else {
        b - a
    }
}

/// Chebyshev (king-move) distance between two square indices.
pub open spec fn cheb_dist(a: int, b: int) -> int {
    let fd = abs_diff_int(file_of(a), file_of(b));
    let rd = abs_diff_int(rank_of(a), rank_of(b));
    if fd >= rd {
        fd
    } else {
        rd
    }
}

/// Whether one step of `d` from square `s` stays on the board without
/// wrapping a rank: the destination index is on the board and at Chebyshev
/// distance at most two.
pub open spec fn safe_step_spec(s: int, d: int) -> bool {
    0 <= s + d < 64 && cheb_dist(s, s + d) <= 2
}

impl Square {
    /// Whether this is a real board square rather than the sentinel.
    pub open spec fn on_board(self) -> bool {
        self.0 < 64
    }

    /// The printable name of the square, file letter then rank digit.
    pub open spec fn name_chars(self) -> Seq<char> {
        seq![file_char(file_of(self.0 as int)), rank_char(rank_of(self.0 as int))]
    }

    pub fn in_range(n: isize) -> (r: bool)
        ensures
            r == (0 <= n < 64),
    {
        n >= 0 && n < 64
    }

    pub fn file(&self) -> (f: File)
        requires
            self.on_board(),
        ensures
            file_index(f) == file_of(self.0 as int),
    {
        let r = File::try_from((self.0 % 8) as usize);
        match r {
            Ok(f) => f,
            Err(_) => {
                proof {
                    assert(false);
                }
                File::FileA
            },
        }
    }

    pub fn rank(&self) -> (k: Rank)
        requires
            self.on_board(),
        ensures
            rank_index(k) == rank_of(self.0 as int),
    {
        let r = Rank::try_from((self.0 / 8) as usize);
        match r {
            Ok(k) => k,
            Err(_) => {
                proof {
                    assert(false);
                }
                Rank::Rank1
            },
        }
    }

    /// Chebyshev distance to another square: the number of king moves between
    /// them.
    pub fn dist(&self, to: Square) -> (d: usize)
        requires
            self.on_board(),
            to.on_board(),
        ensures
            d == cheb_dist(self.0 as int, to.0 as int),
    {
        let fa = self.0 % 8;
        let ra = self.0 / 8;
        let fb = to.0 % 8;
        let rb = to.0 / 8;
        let fd = if fa >= fb {
            fa - fb
        } else {
            fb - fa
        };
        let rd = if ra >= rb {
            ra - rb
        } else {
            rb - ra
        };
        if fd >= rd {
            fd as usize
        } else {
            rd as usize
        }
    }

    /// The square with the given index, or the sentinel when the index is off
    /// the board.
    pub fn from(n: isize) -> (sq: Square)
        ensures
            0 <= n < 64 ==> sq.0 == n,
            !(0 <= n < 64) ==> sq.0 == 64,
    {
        if n >= 0 && n < 64 {
            Square(n as u8)
        } else {
            Square(64)
        }
    }

    /// Whether stepping by `step` squares stays on the board without wrapping
    /// around a rank edge.
    pub fn safe_step(&self, step: isize) -> (r: bool)
        requires
            self.on_board(),
            isize::MIN + 64 <= step <= isize::MAX - 64,
        ensures
            r == safe_step_spec(self.0 as int, step as int),
    {
        let n = self.0 as isize + step;
        if Square::in_range(n) {
            let to = Square::from(n);
            self.dist(to) <= 2
        } else {
            false
        }
    }

    /// The destination of a safe step, or nothing when the step leaves the
    /// board or wraps.
    pub fn step(&self, step: isize) -> (r: Option<Square>)
        requires
            self.on_board(),
            isize::MIN + 64 <= step <= isize::MAX - 64,
        ensures
            safe_step_spec(self.0 as int, step as int) ==> (r matches Some(sq) && sq.0
                == self.0 + step),
            !safe_step_spec(self.0 as int, step as int) ==> r is None,
    {
        if self.safe_step(step) {
            Some(Square::from(self.0 as isize + step))
        } else {
            None
        }
    }

    /// Walks every board square in index order.
    pub fn all() -> (it: SquareIter)
        ensures
            it.index == 0,
            it.to == 63,
            it.step == 1,
    {
        SquareIter { index: 0, to: 63, step: 1 }
    }

    pub fn iter(start: Square, end: Square, step: usize) -> (it: SquareIter)
        requires
            end.on_board(),
            step <= usize::MAX - 64,
        ensures
            it.index == start.0,
            it.to == end.0,
            it.step == step,
    {
        SquareIter { index: start.0 as usize, to: end.0 as usize, step }
    }

    /// The printable name of the square, file letter then rank digit.
    pub fn name(&self) -> (s: String)
        requires
            self.on_board(),
        ensures
            s@ == self.name_chars(),
    {
        let chars: Vec<char> = vec![file_char_exec(self.0 % 8), rank_char_exec(self.0 / 8)];
        crate::util::chars_to_string(&chars)
    }
}

/// The letter naming a file.
pub open spec fn file_char(f: int) -> char {
    if f == 0 {
        'A'
    } else if f == 1 {
        'B'
    } else if f == 2 {
        'C'
    } else if f == 3 {
        'D'
    } else if f == 4 {
        'E'
    } else if f == 5 {
        'F'
    } else if f == 6 {
        'G'
    } else {
        'H'
    }
}

/// The digit naming a rank.
pub open spec fn rank_char(r: int) -> char {
    if r == 0 {
        '1'
    } else if r == 1 {
        '2'
    } else if r == 2 {
        '3'
    } else if r == 3 {
        '4'
    } else if r == 4 {
        '5'
    } else if r == 5 {
        '6'
    } else if r == 6 {
        '7'
    } else {
        '8'
    }
}

pub fn file_char_exec(f: u8) -> (c: char)
    ensures
        c == file_char(f as int),
{
    match f {
        0 => 'A',
        1 => 'B',
        2 => 'C',
        3 => 'D',
        4 => 'E',
        5 => 'F',
        6 => 'G',
        _ => 'H',
    }
}

pub fn rank_char_exec(r: u8) -> (c: char)
    ensures
        c == rank_char(r as int),
{
    match r {
        0 => '1',
        1 => '2',
        2 => '3',
        3 => '4',
        4 => '5',
        5 => '6',
        6 => '7',
        _ => '8',
    }
}

impl SquareIter {
    /// Iterator state that cannot step past the board or overflow.
    pub open spec fn wf(self) -> bool {
        self.to < 64 && self.step <= usize::MAX - 64
    }

    /// Yields the square at the current index and advances, or yields nothing
    /// once the index has passed the end.
    pub fn next(&mut self) -> (r: Option<Square>)
        requires
            old(self).wf(),
        ensures
            final(self).wf(),
            final(self).to == old(self).to,
            final(self).step == old(self).step,
            old(self).index <= old(self).to ==> (r matches Some(sq) && sq.0 == old(self).index
                && final(self).index == old(self).index + old(self).step),
            old(self).index > old(self).to ==> (r is None && final(self).index == old(
                self,
            ).index),
    {
        if self.index <= self.to {
            let square = Square(self.index as u8);
            self.index = self.index + self.step;
            Some(square)
        } else {
            None
        }
    }
}

} // verus!
