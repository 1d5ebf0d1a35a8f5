//! A dense three-axis (row, column, channel) array stored in row-major order.

use vstd::prelude::*;
use vstd::arithmetic::div_mod::lemma_fundamental_div_mod_converse;
use crate::element::Element;

verus! {

/// Position of cell `(r, c, ch)` in the row-major layout of a volume with
/// `cols` columns and `channels` channels.
pub open spec fn flat_index(cols: int, channels: int, r: int, c: int, ch: int) -> int {
    (r * cols + c) * channels + ch
}

/// Every in-bounds cell lies inside the buffer, and so do the partial sums
/// used to compute its position.
pub proof fn lemma_flat_index_bounds(rows: int, cols: int, channels: int, r: int, c: int, ch: int)
    requires
        0 <= r < rows,
        0 <= c < cols,
        0 <= ch < channels,
    ensures
        0 <= r * cols <= r * cols + c < rows * cols <= rows * cols * channels,
        0 <= (r * cols + c) * channels <= flat_index(cols, channels, r, c, ch),
        0 <= flat_index(cols, channels, r, c, ch) < rows * cols * channels,
{
    assert(0 <= r * cols <= r * cols + c < rows * cols) by (nonlinear_arith)
        requires
            0 <= r < rows,
            0 <= c < cols,
    ;
    assert(rows * cols <= rows * cols * channels) by (nonlinear_arith)
        requires
            0 <= rows * cols,
            1 <= channels,
    ;
    let x = r * cols + c;
    assert(0 <= x * channels + ch < rows * cols * channels) by (nonlinear_arith)
        requires
            0 <= x < rows * cols,
            0 <= ch < channels,
    ;
    assert(0 <= x * channels) by (nonlinear_arith)
        requires
            0 <= x,
            0 <= channels,
    ;
}

/// Distinct in-bounds cells occupy distinct positions.
pub proof fn lemma_flat_index_injective(
    cols: int,
    channels: int,
    r1: int,
    c1: int,
    ch1: int,
    r2: int,
    c2: int,
    ch2: int,
)
    requires
        0 <= c1 < cols,
        0 <= c2 < cols,
        0 <= ch1 < channels,
        0 <= ch2 < channels,
        flat_index(cols, channels, r1, c1, ch1) == flat_index(cols, channels, r2, c2, ch2),
    ensures
        r1 == r2,
        c1 == c2,
        ch1 == ch2,
{
    let k = flat_index(cols, channels, r1, c1, ch1);
    lemma_fundamental_div_mod_converse(k, channels, r1 * cols + c1, ch1);
    lemma_fundamental_div_mod_converse(k, channels, r2 * cols + c2, ch2);
    lemma_fundamental_div_mod_converse(k / channels, cols, r1, c1);
    lemma_fundamental_div_mod_converse(k / channels, cols, r2, c2);
}

/// Every position of the buffer holds exactly one in-bounds cell.
pub proof fn lemma_flat_index_onto(rows: int, cols: int, channels: int, k: int) -> (cell: (
    int,
    int,
    int,
))
    requires
        0 <= rows,
        0 <= cols,
        0 <= k < rows * cols * channels,
    ensures
        0 <= cell.0 < rows,
        0 <= cell.1 < cols,
        0 <= cell.2 < channels,
        flat_index(cols, channels, cell.0, cell.1, cell.2) == k,
{
    assert(channels > 0 && cols > 0 && rows > 0) by (nonlinear_arith)
        requires
            0 <= k < rows * cols * channels,
            0 <= rows,
            0 <= cols,
    ;
    let q = k / channels;
    let ch = k % channels;
    let r = q / cols;
    let c = q % cols;
    assert(k == q * channels + ch) by (nonlinear_arith)
        requires
            channels > 0,
            q == k / channels,
            ch == k % channels,
    ;
    assert(q == r * cols + c) by (nonlinear_arith)
        requires
            cols > 0,
            r == q / cols,
            c == q % cols,
    ;
    assert(0 <= ch < channels && 0 <= c < cols && 0 <= q && 0 <= r) by (nonlinear_arith)
        requires
            k >= 0,
            channels > 0,
            cols > 0,
            q == k / channels,
            ch == k % channels,
            r == q / cols,
            c == q % cols,
    ;
    assert(r < rows) by (nonlinear_arith)
        requires
            0 <= k < rows * cols * channels,
            k == (r * cols + c) * channels + ch,
            0 <= c,
            0 <= ch,
            cols > 0,
            channels > 0,
    ;
    (r, c, ch)
}

/// A `rows` x `cols` x `channels` array of elements.
#[derive(Clone, Debug, PartialEq, Eq)]
pub struct Volume<T> {
    rows: usize,
    cols: usize,
    channels: usize,
    data: Vec<T>,
}

impl<T> Volume<T> {
    pub closed spec fn n_rows(&self) -> nat {
        self.rows as nat
    }

    pub closed spec fn n_cols(&self) -> nat {
        self.cols as nat
    }

    pub closed spec fn n_channels(&self) -> nat {
        self.channels as nat
    }

    /// The elements in row-major (row, column, channel) order.
    pub closed spec fn cells(&self) -> Seq<T> {
        self.data@
    }

    /// The buffer holds exactly one element per cell.
    pub open spec fn wf(&self) -> bool {
        &&& self.cells().len() == self.n_rows() * self.n_cols() * self.n_channels()
        &&& self.n_rows() * self.n_cols() * self.n_channels() <= usize::MAX
    }

    pub open spec fn in_bounds(&self, r: int, c: int, ch: int) -> bool {
        0 <= r < self.n_rows() && 0 <= c < self.n_cols() && 0 <= ch < self.n_channels()
    }

    /// The element at row `r`, column `c`, channel `ch`.
    pub open spec fn at(&self, r: int, c: int, ch: int) -> T {
        self.cells()[flat_index(self.n_cols() as int, self.n_channels() as int, r, c, ch)]
    }

    /// Builds a volume from its elements in row-major (row, column, channel)
    /// order; `None` when `data` does not hold exactly one element per cell.
    pub fn from_shape_data(rows: usize, cols: usize, channels: usize, data: Vec<T>) -> (r: Option<
        Self,
    >)
        ensures
            r is Some <==> data@.len() == rows * cols * channels,
            r matches Some(v) ==> v.wf() && v.n_rows() == rows && v.n_cols() == cols
                && v.n_channels() == channels && v.cells() == data@,
    {
        let len = data.len();
        match rows.checked_mul(cols) {
            None => {
                proof {
                    assert(rows * cols * channels > usize::MAX || channels == 0) by (nonlinear_arith)
                        requires
                            rows * cols > usize::MAX,
                    ;
                    if channels == 0 {
                        assert(rows * cols * channels == 0) by (nonlinear_arith)
                            requires
                                channels == 0,
                        ;
                    }
                }
                if channels == 0 && len == 0 {
                    Some(Volume { rows, cols, channels, data })
                } else {
                    None
                }
            },
            Some(rc) => match rc.checked_mul(channels) {
                None => None,
                Some(n) => {
                    if n == len {
                        Some(Volume { rows, cols, channels, data })
                    } else {
                        None
                    }
                },
            },
        }
    }

    pub fn rows(&self) -> (r: usize)
        ensures
            r == self.n_rows(),
    {
        self.rows
    }

    pub fn cols(&self) -> (r: usize)
        ensures
            r == self.n_cols(),
    {
        self.cols
    }

    pub fn channels(&self) -> (r: usize)
        ensures
            r == self.n_channels(),
    {
        self.channels
    }

    /// The elements in row-major (row, column, channel) order.
    pub fn data(&self) -> (r: &Vec<T>)
        ensures
            r@ == self.cells(),
    {
        &self.data
    }

    /// Takes the volume apart into its elements in row-major order.
    pub fn into_data(self) -> (r: Vec<T>)
        ensures
            r@ == self.cells(),
    {
        self.data
    }
}

impl<T: Copy> Volume<T> {
    /// The element at row `r`, column `c`, channel `ch`.
    pub fn get(&self, r: usize, c: usize, ch: usize) -> (v: T)
        requires
            self.wf(),
            self.in_bounds(r as int, c as int, ch as int),
        ensures
            v == self.at(r as int, c as int, ch as int),
    {
        proof {
            lemma_flat_index_bounds(
                self.rows as int,
                self.cols as int,
                self.channels as int,
                r as int,
                c as int,
                ch as int,
            );
        }
        self.data[(r * self.cols + c) * self.channels + ch]
    }

    /// Overwrites the element at row `r`, column `c`, channel `ch`; every
    /// other element keeps its value.
    pub fn set(&mut self, r: usize, c: usize, ch: usize, v: T)
        requires
            old(self).wf(),
            old(self).in_bounds(r as int, c as int, ch as int),
        ensures
            final(self).wf(),
            final(self).n_rows() == old(self).n_rows(),
            final(self).n_cols() == old(self).n_cols(),
            final(self).n_channels() == old(self).n_channels(),
            forall|r2: int, c2: int, ch2: int|
                #![trigger final(self).at(r2, c2, ch2)]
                final(self).in_bounds(r2, c2, ch2) ==> final(self).at(r2, c2, ch2) == if r2 == r
                    && c2 == c && ch2 == ch {
                    v
                } else {
                    old(self).at(r2, c2, ch2)
                },
    {
        let ghost pre = *self;
        proof {
            lemma_flat_index_bounds(
                self.rows as int,
                self.cols as int,
                self.channels as int,
                r as int,
                c as int,
                ch as int,
            );
        }
        let k = (r * self.cols + c) * self.channels + ch;
        self.data[k] = v;
        assert forall|r2: int, c2: int, ch2: int|
            #![trigger self.at(r2, c2, ch2)]
            self.in_bounds(r2, c2, ch2) implies self.at(r2, c2, ch2) == if r2 == r && c2 == c
                && ch2 == ch {
                v
            } else {
                pre.at(r2, c2, ch2)
            } by {
            let cols = self.cols as int;
            let chn = self.channels as int;
            lemma_flat_index_bounds(self.rows as int, cols, chn, r2, c2, ch2);
            if flat_index(cols, chn, r2, c2, ch2) == k {
                lemma_flat_index_injective(cols, chn, r2, c2, ch2, r as int, c as int, ch as int);
            }
        }
    }
}

impl<T: Element> Volume<T> {
    /// A volume of the given shape with every element zero.
    pub fn zeros(rows: usize, cols: usize, channels: usize) -> (r: Self)
        requires
            rows * cols * channels <= usize::MAX,
        ensures
            r.wf(),
            r.n_rows() == rows,
            r.n_cols() == cols,
            r.n_channels() == channels,
            forall|k: int| 0 <= k < r.cells().len() ==> #[trigger] r.cells()[k] == T::zero_spec(),
    {
        let n: usize = match rows.checked_mul(cols) {
            Some(rc) => {
                assert(rc * channels == rows * cols * channels);
                rc * channels
            },
            None => {
                assert(channels == 0) by (nonlinear_arith)
                    requires
                        rows * cols > usize::MAX,
                        rows * cols * channels <= usize::MAX,
                ;
                assert(rows * cols * channels == 0) by (nonlinear_arith)
                    requires
                        channels == 0,
                ;
                0
            },
        };
        let mut data: Vec<T> = Vec::new();
        let mut i: usize = 0;
        while i < n
            invariant
                i <= n,
                data@.len() == i,
                forall|k: int| 0 <= k < i ==> #[trigger] data@[k] == T::zero_spec(),
            decreases n - i,
        {
            data.push(T::zero());
            i = i + 1;
        }
        Volume { rows, cols, channels, data }
    }
}

} // verus!
