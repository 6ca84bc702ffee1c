//! The deterministic pseudo-random generator used by the magic search, and
//! the text-grid renderer behind the board and bitboard displays.

use vstd::prelude::*;

verus! {

/// A seedable xorshift64* generator. Its output is a pure function of its
/// state, so two generators with equal seeds produce identical sequences.
pub struct PRNG {
    pub state: u64,
}

/// One xorshift64* state transition.
pub open spec fn xorshift_step(x0: u64) -> u64 {
    let x1 = x0 ^ x0.wrapping_shr(12);
    let x2 = x1 ^ x1.wrapping_shl(25);
    x2 ^ x2.wrapping_shr(27)
}

/// The word xorshift64* outputs from state `x0`: the stepped state scaled by
/// the fixed odd multiplier.
pub open spec fn xorshift_out(x0: u64) -> u64 {
    xorshift_step(x0).wrapping_mul(0x2545F4914F6CDD1D)
}

/// The state after `n` transitions.
pub open spec fn xorshift_iter(x0: u64, n: nat) -> u64
    decreases n,
{
    if n == 0 {
        x0
    } else {
        xorshift_step(xorshift_iter(x0, (n - 1) as nat))
    }
}

/// The sparse word drawn from state `x0`: the AND of the next three outputs,
/// biased toward few set bits.
pub open spec fn sparse_out(x0: u64) -> u64 {
    xorshift_out(x0) & xorshift_out(xorshift_iter(x0, 1)) & xorshift_out(xorshift_iter(x0, 2))
}

impl PRNG {
    pub fn new(seed: u64) -> (g: PRNG)
        ensures
            g.state == seed,
    {
        PRNG { state: seed }
    }

    /// The next uniformly mixed 64-bit word; fully determined by the state.
    pub fn next(&mut self) -> (r: u64)
        ensures
            final(self).state == xorshift_step(old(self).state),
            r == xorshift_out(old(self).state),
    {
        let mut x = self.state;
        x = x ^ x.wrapping_shr(12);
        x = x ^ x.wrapping_shl(25);
        x = x ^ x.wrapping_shr(27);
        self.state = x;
        x.wrapping_mul(0x2545F4914F6CDD1D)
    }

    /// A word biased toward few set bits: the AND of three consecutive draws.
    pub fn sparse(&mut self) -> (r: u64)
        ensures
            final(self).state == xorshift_iter(old(self).state, 3),
            r == sparse_out(old(self).state),
    {
        let a = self.next();
        let b = self.next();
        let c = self.next();
        proof {
            let s0 = old(self).state;
            assert(xorshift_iter(s0, 0) == s0);
            assert(xorshift_iter(s0, 1) == xorshift_step(xorshift_iter(s0, 0)));
            assert(xorshift_iter(s0, 2) == xorshift_step(xorshift_iter(s0, 1)));
            assert(xorshift_iter(s0, 3) == xorshift_step(xorshift_iter(s0, 2)));
        }
        a & b & c
    }
}

/// Determinism: the generator's entire stream is a function of its seed
/// alone. The state after `n` draws is `xorshift_iter(seed, n)` and each
/// output is `xorshift_out` of the state, so two generators given equal seeds
/// produce bit-identical sequences, with no dependence on time, threads, or
/// process state.
pub proof fn lemma_prng_deterministic(seed1: u64, seed2: u64, n: nat)
    requires
        seed1 == seed2,
    ensures
        xorshift_iter(seed1, n) == xorshift_iter(seed2, n),
        xorshift_out(xorshift_iter(seed1, n)) == xorshift_out(xorshift_iter(seed2, n)),
        sparse_out(xorshift_iter(seed1, n)) == sparse_out(xorshift_iter(seed2, n)),
{
}

/// Relies on `String::from_iter` over `char`: the collected string holds
/// exactly the characters of `v`, in order.
#[verifier::external_body]
pub(crate) fn chars_to_string(v: &Vec<char>) -> (s: String)
    ensures
        s@ == v@,
{
    v.iter().collect()
}

/// Relies on std's `format!` macro to render a rejected value in decimal
/// after the given description.
#[verifier::external_body]
pub(crate) fn format_invalid(what: &str, n: usize) -> String {
    format!("{}: {}", what, n)
}

/// One grid cell of a horizontal border: its leading joint and three dashes.
pub open spec fn hline(lead: char) -> Seq<char> {
    seq![lead, '─', '─', '─']
}

/// The border cells from column `j` on: the first column gets `first`, the
/// others `mid`.
pub open spec fn border_cells(first: char, mid: char, j: nat) -> Seq<char>
    decreases 8 - j,
{
    if j >= 8 {
        Seq::empty()
    } else {
        hline(
            if j == 0 {
                first
            } else {
                mid
            },
        ) + border_cells(first, mid, (j + 1) as nat)
    }
}

/// A full horizontal border line with its right joint and newline.
pub open spec fn border_row(first: char, mid: char, end: char) -> Seq<char> {
    border_cells(first, mid, 0) + seq![end, '\n']
}

/// The content cells of display row `i` (rank `7 - i`) from column `j` on:
/// each cell is a vertical bar and the square's character, padded.
pub open spec fn content_cells(content: Seq<char>, i: int, j: nat) -> Seq<char>
    decreases 8 - j,
{
    if j >= 8 {
        Seq::empty()
    } else {
        seq!['│', ' ', content[(7 - i) * 8 + j], ' '] + content_cells(content, i, (j + 1) as nat)
    }
}

/// A full content line: the cells, the closing bar, and under a legend the
/// rank digit.
pub open spec fn content_row(content: Seq<char>, i: int, legend: bool) -> Seq<char> {
    content_cells(content, i, 0) + (if legend {
        seq!['│', ' ', crate::types::square::rank_char(7 - i), '\n']
    } else {
        seq!['│', '\n']
    })
}

/// The border-and-content line pairs from display row `i` down.
pub open spec fn grid_rows(content: Seq<char>, i: nat, legend: bool) -> Seq<char>
    decreases 8 - i,
{
    if i >= 8 {
        Seq::empty()
    } else {
        border_row(
            if i == 0 {
                '┌'
            } else {
                '├'
            },
            if i == 0 {
                '┬'
            } else {
                '┼'
            },
            if i == 0 {
                '┐'
            } else {
                '┤'
            },
        ) + content_row(content, i as int, legend) + grid_rows(content, (i + 1) as nat, legend)
    }
}

/// The file-letter line printed under the grid when the legend is on.
pub open spec fn legend_line() -> Seq<char> {
    seq![' ', ' ', 'A', ' ', ' ', ' ', 'B', ' ', ' ', ' ', 'C', ' ', ' ', ' ', 'D', ' ', ' ', ' ',
        'E', ' ', ' ', ' ', 'F', ' ', ' ', 'G', ' ', ' ', ' ', 'H', '\n']
}

/// The whole rendered grid: eight border/content line pairs top rank first,
/// the bottom border, and under a legend the file letters.
pub open spec fn grid_spec(content: Seq<char>, legend: bool) -> Seq<char> {
    grid_rows(content, 0, legend) + border_row('└', '┴', '┘') + (if legend {
        legend_line()
    } else {
        Seq::empty()
    })
}

/// Appends one horizontal border line.
#[verifier::loop_isolation(false)]
fn push_border(out: &mut Vec<char>, first: char, mid: char, end: char)
    ensures
        final(out)@ == old(out)@ + border_row(first, mid, end),
{
    let ghost base = out@;
    let mut j: usize = 0;
    while j < 8
        invariant
            j <= 8,
            base + border_cells(first, mid, 0) == out@ + border_cells(first, mid, j as nat),
        decreases 8 - j,
    {
        let ghost before = out@;
        let lead = if j == 0 {
            first
        } else {
            mid
        };
        out.push(lead);
        out.push('─');
        out.push('─');
        out.push('─');
        proof {
            assert(out@ =~= before + hline(lead));
            assert(before + (hline(lead) + border_cells(first, mid, (j + 1) as nat)) =~= (before
                + hline(lead)) + border_cells(first, mid, (j + 1) as nat));
        }
        j = j + 1;
    }
    out.push(end);
    out.push('\n');
    proof {
        assert(border_cells(first, mid, 8) =~= Seq::<char>::empty());
        assert(out@ + border_cells(first, mid, 8) =~= out@);
        assert(out@ =~= base + border_row(first, mid, end));
    }
}

/// Appends one content line of display row `i`.
#[verifier::loop_isolation(false)]
fn push_content_row(out: &mut Vec<char>, content: &[char], i: usize, legend: bool)
    requires
        content@.len() == 64,
        i < 8,
    ensures
        final(out)@ == old(out)@ + content_row(content@, i as int, legend),
{
    let ghost base = out@;
    let mut j: usize = 0;
    while j < 8
        invariant
            j <= 8,
            base + content_cells(content@, i as int, 0) == out@ + content_cells(
                content@,
                i as int,
                j as nat,
            ),
        decreases 8 - j,
    {
        let ghost before = out@;
        let c = content[(7 - i) * 8 + j];
        out.push('│');
        out.push(' ');
        out.push(c);
        out.push(' ');
        proof {
            assert(out@ =~= before + seq!['│', ' ', content@[(7 - i) * 8 + j], ' ']);
            assert(before + (seq!['│', ' ', content@[(7 - i) * 8 + j], ' '] + content_cells(
                content@,
                i as int,
                (j + 1) as nat,
            )) =~= (before + seq!['│', ' ', content@[(7 - i) * 8 + j], ' ']) + content_cells(
                content@,
                i as int,
                (j + 1) as nat,
            ));
        }
        j = j + 1;
    }
    out.push('│');
    if legend {
        out.push(' ');
        out.push(crate::types::square::rank_char_exec((7 - i) as u8));
        out.push('\n');
    } else {
        out.push('\n');
    }
    proof {
        assert(content_cells(content@, i as int, 8) =~= Seq::<char>::empty());
        assert(out@ =~= base + content_row(content@, i as int, legend));
    }
}

/// Appends the file-letter legend line.
fn push_legend(out: &mut Vec<char>)
    ensures
        final(out)@ == old(out)@ + legend_line(),
{
    let ghost base = out@;
    out.push(' ');
    out.push(' ');
    out.push('A');
    out.push(' ');
    out.push(' ');
    out.push(' ');
    out.push('B');
    out.push(' ');
    out.push(' ');
    out.push(' ');
    out.push('C');
    out.push(' ');
    out.push(' ');
    out.push(' ');
    out.push('D');
    out.push(' ');
    out.push(' ');
    out.push(' ');
    out.push('E');
    out.push(' ');
    out.push(' ');
    out.push(' ');
    out.push('F');
    out.push(' ');
    out.push(' ');
    out.push('G');
    out.push(' ');
    out.push(' ');
    out.push(' ');
    out.push('H');
    out.push('\n');
    proof {
        assert(out@ =~= base + legend_line());
    }
}

/// Renders an 8-by-8 character grid, bottom row of `content` as rank one at
/// the bottom, optionally with rank digits and file letters around it.
pub fn render_grid(content: &[char; 64], legend: bool) -> (s: String)
    ensures
        s@ == grid_spec(content@, legend),
{
    render_grid_slice(content.as_slice(), legend)
}

/// Renders the grid from a 64-character slice.
#[verifier::loop_isolation(false)]
#[verifier::rlimit(60)]
pub fn render_grid_slice(slice: &[char], legend: bool) -> (s: String)
    requires
        slice@.len() == 64,
    ensures
        s@ == grid_spec(slice@, legend),
{
    let mut out: Vec<char> = Vec::new();
    let mut i: usize = 0;
    proof {
        assert(out@ + grid_rows(slice@, 0, legend) =~= grid_rows(slice@, 0, legend));
    }
    while i < 8
        invariant
            i <= 8,
            out@ + grid_rows(slice@, i as nat, legend) == grid_rows(slice@, 0, legend),
        decreases 8 - i,
    {
        let ghost before = out@;
        push_border(
            &mut out,
            if i == 0 {
                '┌'
            } else {
                '├'
            },
            if i == 0 {
                '┬'
            } else {
                '┼'
            },
            if i == 0 {
                '┐'
            } else {
                '┤'
            },
        );
        push_content_row(&mut out, slice, i, legend);
        proof {
            let b = border_row(
                if i == 0 {
                    '┌'
                } else {
                    '├'
                },
                if i == 0 {
                    '┬'
                } else {
                    '┼'
                },
                if i == 0 {
                    '┐'
                } else {
                    '┤'
                },
            );
            let cr = content_row(slice@, i as int, legend);
            assert(out@ =~= before + b + cr);
            assert((before + b + cr) + grid_rows(slice@, (i + 1) as nat, legend) =~= before + (b
                + cr + grid_rows(slice@, (i + 1) as nat, legend)));
        }
        i = i + 1;
    }
    push_border(&mut out, '└', '┴', '┘');
    if legend {
        push_legend(&mut out);
    }
    proof {
        assert(grid_rows(slice@, 8, legend) =~= Seq::<char>::empty());
        assert(out@ =~= grid_spec(slice@, legend));
    }
    chars_to_string(&out)
}

} // verus!
