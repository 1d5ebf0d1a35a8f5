//! "Valid" per-channel 2D convolution, into a new volume or in place.

use vstd::prelude::*;
use crate::element::Element;
use crate::error::Error;
use crate::volume::Volume;

verus! {

/// Offset, along an axis of length `size`, of the kernel cell aligned with
/// the output position: the middle for odd sizes, the cell before the middle
/// for even sizes.
pub open spec fn centre_offset(size: int) -> int {
    if size % 2 == 0 {
        size / 2 - 1
    } else {
        size / 2
    }
}

/// Whether `kernel` may be applied to `input`, and if not, why.
pub open spec fn validate<T>(input: Volume<T>, kernel: Volume<T>) -> Result<(), Error> {
    if input.n_channels() != kernel.n_channels() {
        Err(Error::ChannelDimensionMismatch)
    } else if kernel.n_rows() == 0 || kernel.n_cols() == 0 || input.n_rows() <= 2 * centre_offset(
        kernel.n_rows() as int,
    ) || input.n_cols() <= 2 * centre_offset(kernel.n_cols() as int) {
        Err(Error::InvalidDimensions)
    } else {
        Ok(())
    }
}

/// Rows of the output: the input's rows less the kernel centre's row offset
/// at both ends.
pub open spec fn out_rows<T>(input: Volume<T>, kernel: Volume<T>) -> int {
    input.n_rows() - 2 * centre_offset(kernel.n_rows() as int)
}

/// Columns of the output: the input's columns less the kernel centre's
/// column offset at both ends.
pub open spec fn out_cols<T>(input: Volume<T>, kernel: Volume<T>) -> int {
    input.n_cols() - 2 * centre_offset(kernel.n_cols() as int)
}

/// A kernel-sized window with top-left corner `(i, j)` lies inside the input.
pub open spec fn window_fits<T>(input: Volume<T>, kernel: Volume<T>, i: int, j: int) -> bool {
    i + kernel.n_rows() <= input.n_rows() && j + kernel.n_cols() <= input.n_cols()
}

/// Kernel cell `(a, b)` of channel `ch` times the input cell under it, for
/// the window whose top-left corner is `(i, j)`.
pub open spec fn tap<T: Element>(
    input: Volume<T>,
    kernel: Volume<T>,
    i: int,
    j: int,
    ch: int,
    a: int,
    b: int,
) -> T {
    T::times_spec(input.at(i + a, j + b, ch), kernel.at(a, b, ch))
}

/// `acc` plus the taps of kernel row `a`, columns `0..n`, added left to right.
pub open spec fn row_sum<T: Element>(
    input: Volume<T>,
    kernel: Volume<T>,
    i: int,
    j: int,
    ch: int,
    a: int,
    n: int,
    acc: T,
) -> T
    decreases n,
{
    if n <= 0 {
        acc
    } else {
        T::plus_spec(row_sum(input, kernel, i, j, ch, a, n - 1, acc), tap(input, kernel, i, j, ch, a, n - 1))
    }
}

/// Sum of the taps of kernel rows `0..m`, in row-major order, from zero.
pub open spec fn window_sum<T: Element>(
    input: Volume<T>,
    kernel: Volume<T>,
    i: int,
    j: int,
    ch: int,
    m: int,
) -> T
    decreases m,
{
    if m <= 0 {
        T::zero_spec()
    } else {
        row_sum(
            input,
            kernel,
            i,
            j,
            ch,
            m - 1,
            kernel.n_cols() as int,
            window_sum(input, kernel, i, j, ch, m - 1),
        )
    }
}

/// Output cell `(i, j, ch)`: the window sum where a window with top-left
/// corner `(i, j)` fits in the input, and zero where it does not (which
/// happens along the far edges for even-sized kernels).
pub open spec fn conv_cell<T: Element>(
    input: Volume<T>,
    kernel: Volume<T>,
    i: int,
    j: int,
    ch: int,
) -> T {
    if window_fits(input, kernel, i, j) {
        window_sum(input, kernel, i, j, ch, kernel.n_rows() as int)
    } else {
        T::zero_spec()
    }
}

/// `out` is the convolution of `input` with `kernel`.
pub open spec fn is_convolution<T: Element>(
    input: Volume<T>,
    kernel: Volume<T>,
    out: Volume<T>,
) -> bool {
    &&& out.wf()
    &&& out.n_rows() == out_rows(input, kernel)
    &&& out.n_cols() == out_cols(input, kernel)
    &&& out.n_channels() == input.n_channels()
    &&& forall|i: int, j: int, ch: int|
        #![trigger out.at(i, j, ch)]
        out.in_bounds(i, j, ch) ==> out.at(i, j, ch) == conv_cell(input, kernel, i, j, ch)
}

/// Cell `(r, c, ch)` of `input` after an in-place convolution: the output
/// cell it is aligned with inside the band offset by the kernel centre, its
/// old value outside that band.
pub open spec fn in_place_cell<T: Element>(
    input: Volume<T>,
    kernel: Volume<T>,
    r: int,
    c: int,
    ch: int,
) -> T {
    let ro = centre_offset(kernel.n_rows() as int);
    let co = centre_offset(kernel.n_cols() as int);
    if ro <= r < ro + out_rows(input, kernel) && co <= c < co + out_cols(input, kernel) {
        conv_cell(input, kernel, r - ro, c - co, ch)
    } else {
        input.at(r, c, ch)
    }
}

/// `after` is `before` with the convolution by `kernel` spliced into it.
pub open spec fn is_convolved_in_place<T: Element>(
    before: Volume<T>,
    kernel: Volume<T>,
    after: Volume<T>,
) -> bool {
    &&& after.wf()
    &&& after.n_rows() == before.n_rows()
    &&& after.n_cols() == before.n_cols()
    &&& after.n_channels() == before.n_channels()
    &&& forall|r: int, c: int, ch: int|
        #![trigger after.at(r, c, ch)]
        after.in_bounds(r, c, ch) ==> after.at(r, c, ch) == in_place_cell(before, kernel, r, c, ch)
}

/// What `convolve` returns: the validation error, or the convolution.
pub open spec fn convolve_post<T: Element>(
    input: Volume<T>,
    kernel: Volume<T>,
    r: Result<Volume<T>, Error>,
) -> bool {
    match r {
        Ok(out) => validate(input, kernel) is Ok && is_convolution(input, kernel, out),
        Err(e) => validate(input, kernel) == Err::<(), Error>(e),
    }
}

/// The kernel cell, per axis, treated as the kernel's centre.
pub fn kernel_centre(rows: usize, cols: usize) -> (r: (usize, usize))
    requires
        rows >= 1,
        cols >= 1,
    ensures
        r.0 == centre_offset(rows as int),
        r.1 == centre_offset(cols as int),
{
    let row_offset = rows / 2 - (if rows % 2 == 0 { 1usize } else { 0usize });
    let col_offset = cols / 2 - (if cols % 2 == 0 { 1usize } else { 0usize });
    (row_offset, col_offset)
}

/// Sum of the products of `kernel` with the window of `input` whose top-left
/// corner is `(i, j)`, on channel `ch`.
fn window_value<T: Element>(input: &Volume<T>, kernel: &Volume<T>, i: usize, j: usize, ch: usize) -> (v: T)
    requires
        input.wf(),
        kernel.wf(),
        input.n_channels() == kernel.n_channels(),
        window_fits(*input, *kernel, i as int, j as int),
        ch < input.n_channels(),
    ensures
        v == window_sum(*input, *kernel, i as int, j as int, ch as int, kernel.n_rows() as int),
{
    let kr = kernel.rows();
    let kc = kernel.cols();
    let rows = input.rows();
    let cols = input.cols();
    let mut acc = T::zero();
    let mut a: usize = 0;
    while a < kr
        invariant
            input.wf(),
            kernel.wf(),
            input.n_channels() == kernel.n_channels(),
            window_fits(*input, *kernel, i as int, j as int),
            ch < input.n_channels(),
            kr == kernel.n_rows(),
            kc == kernel.n_cols(),
            rows == input.n_rows(),
            cols == input.n_cols(),
            a <= kr,
            acc == window_sum(*input, *kernel, i as int, j as int, ch as int, a as int),
        decreases kr - a,
    {
        let ghost start = acc;
        let mut b: usize = 0;
        while b < kc
            invariant
                input.wf(),
                kernel.wf(),
                input.n_channels() == kernel.n_channels(),
                window_fits(*input, *kernel, i as int, j as int),
                ch < input.n_channels(),
                kr == kernel.n_rows(),
                kc == kernel.n_cols(),
                rows == input.n_rows(),
                cols == input.n_cols(),
                a < kr,
                b <= kc,
                start == window_sum(*input, *kernel, i as int, j as int, ch as int, a as int),
                acc == row_sum(*input, *kernel, i as int, j as int, ch as int, a as int, b as int, start),
            decreases kc - b,
        {
            let x = input.get(i + a, j + b, ch);
            let w = kernel.get(a, b, ch);
            acc = acc.plus(x.times(w));
            b = b + 1;
        }
        a = a + 1;
    }
    acc
}

/// Convolves `input` with `kernel` channel by channel, keeping only the
/// positions where the kernel overlaps the input ("valid" convolution).
///
/// The result has `input.rows - 2 * ro` rows and `input.cols - 2 * co`
/// columns, where `(ro, co)` is the kernel centre, and the input's channels.
/// Output cell `(i, j, ch)` is the sum over the kernel of kernel cell
/// `(a, b, ch)` times input cell `(i + a, j + b, ch)`; cells whose window
/// would cross the input's far edge stay zero.
pub fn convolve<T: Element>(input: &Volume<T>, kernel: &Volume<T>) -> (r: Result<Volume<T>, Error>)
    requires
        input.wf(),
        kernel.wf(),
    ensures
        convolve_post(*input, *kernel, r),
        r is Err <==> validate(*input, *kernel) is Err,
        r matches Ok(out) ==> out.n_rows() == input.n_rows() - 2 * centre_offset(
            kernel.n_rows() as int,
        ) && out.n_cols() == input.n_cols() - 2 * centre_offset(kernel.n_cols() as int)
            && out.n_channels() == input.n_channels(),
{
    let chn = input.channels();
    if chn != kernel.channels() {
        return Err(Error::ChannelDimensionMismatch);
    }
    let kr = kernel.rows();
    let kc = kernel.cols();
    if kr == 0 || kc == 0 {
        return Err(Error::InvalidDimensions);
    }
    let (ro, co) = kernel_centre(kr, kc);
    let rows = input.rows();
    let cols = input.cols();
    if rows <= 2 * ro || cols <= 2 * co {
        return Err(Error::InvalidDimensions);
    }
    let orows = rows - 2 * ro;
    let ocols = cols - 2 * co;
    assert(orows * ocols * chn <= rows * cols * chn) by (nonlinear_arith)
        requires
            orows <= rows,
            ocols <= cols,
    ;
    let mut out = Volume::<T>::zeros(orows, ocols, chn);
    proof {
        assert forall|i2: int, j2: int, k2: int| #[trigger]
            out.in_bounds(i2, j2, k2) implies out.at(i2, j2, k2) == T::zero_spec() by {
            crate::volume::lemma_flat_index_bounds(orows as int, ocols as int, chn as int, i2, j2, k2);
        }
    }
    let mut i: usize = 0;
    while i < orows
        invariant
            input.wf(),
            kernel.wf(),
            validate(*input, *kernel) is Ok,
            chn == input.n_channels(),
            kr == kernel.n_rows(),
            kc == kernel.n_cols(),
            rows == input.n_rows(),
            cols == input.n_cols(),
            orows == out_rows(*input, *kernel),
            ocols == out_cols(*input, *kernel),
            out.wf(),
            out.n_rows() == orows,
            out.n_cols() == ocols,
            out.n_channels() == chn,
            i <= orows,
            forall|i2: int, j2: int, k2: int|
                #![trigger out.at(i2, j2, k2)]
                out.in_bounds(i2, j2, k2) ==> out.at(i2, j2, k2) == if i2 < i {
                    conv_cell(*input, *kernel, i2, j2, k2)
                } else {
                    T::zero_spec()
                },
        decreases orows - i,
    {
        let mut j: usize = 0;
        while j < ocols
            invariant
                input.wf(),
                kernel.wf(),
                validate(*input, *kernel) is Ok,
                chn == input.n_channels(),
                kr == kernel.n_rows(),
                kc == kernel.n_cols(),
                rows == input.n_rows(),
                cols == input.n_cols(),
                orows == out_rows(*input, *kernel),
                ocols == out_cols(*input, *kernel),
                out.wf(),
                out.n_rows() == orows,
                out.n_cols() == ocols,
                out.n_channels() == chn,
                i < orows,
                j <= ocols,
                forall|i2: int, j2: int, k2: int|
                    #![trigger out.at(i2, j2, k2)]
                    out.in_bounds(i2, j2, k2) ==> out.at(i2, j2, k2) == if i2 < i || (i2 == i
                        && j2 < j) {
                        conv_cell(*input, *kernel, i2, j2, k2)
                    } else {
                        T::zero_spec()
                    },
            decreases ocols - j,
        {
            if kr <= rows - i && kc <= cols - j {
                let mut ch: usize = 0;
                while ch < chn
                    invariant
                        input.wf(),
                        kernel.wf(),
                        validate(*input, *kernel) is Ok,
                        chn == input.n_channels(),
                        kr == kernel.n_rows(),
                        kc == kernel.n_cols(),
                        rows == input.n_rows(),
                        cols == input.n_cols(),
                        window_fits(*input, *kernel, i as int, j as int),
                        out.wf(),
                        out.n_rows() == orows,
                        out.n_cols() == ocols,
                        out.n_channels() == chn,
                        i < orows,
                        j < ocols,
                        ch <= chn,
                        forall|i2: int, j2: int, k2: int|
                            #![trigger out.at(i2, j2, k2)]
                            out.in_bounds(i2, j2, k2) ==> out.at(i2, j2, k2) == if i2 < i || (i2
                                == i && (j2 < j || (j2 == j && k2 < ch))) {
                                conv_cell(*input, *kernel, i2, j2, k2)
                            } else {
                                T::zero_spec()
                            },
                    decreases chn - ch,
                {
                    let v = window_value(input, kernel, i, j, ch);
                    out.set(i, j, ch, v);
                    ch = ch + 1;
                }
            }
            j = j + 1;
        }
        i = i + 1;
    }
    Ok(out)
}

/// Convolves `input` with `kernel` and writes the result back into the band
/// of `input` that starts at the kernel centre's offsets and has the result's
/// size; every cell outside that band keeps its value. On an error `input`
/// is left as it was.
pub fn convolve_in_place<T: Element>(input: &mut Volume<T>, kernel: &Volume<T>) -> (r: Result<
    (),
    Error,
>)
    requires
        old(input).wf(),
        kernel.wf(),
    ensures
        r == validate(*old(input), *kernel),
        r is Ok ==> is_convolved_in_place(*old(input), *kernel, *final(input)),
        r is Err ==> *final(input) == *old(input),
{
    let out = match convolve(input, kernel) {
        Ok(out) => out,
        Err(e) => {
            return Err(e);
        },
    };
    let ghost before = *input;
    let (ro, co) = kernel_centre(kernel.rows(), kernel.cols());
    let orows = out.rows();
    let ocols = out.cols();
    let chn = out.channels();
    let rows = input.rows();
    let cols = input.cols();
    let mut i: usize = 0;
    while i < orows
        invariant
            before.wf(),
            kernel.wf(),
            validate(before, *kernel) is Ok,
            is_convolution(before, *kernel, out),
            ro == centre_offset(kernel.n_rows() as int),
            co == centre_offset(kernel.n_cols() as int),
            orows == out.n_rows(),
            ocols == out.n_cols(),
            chn == out.n_channels(),
            input.wf(),
            input.n_rows() == before.n_rows(),
            rows == before.n_rows(),
            cols == before.n_cols(),
            input.n_cols() == before.n_cols(),
            input.n_channels() == before.n_channels(),
            i <= orows,
            forall|r2: int, c2: int, k2: int|
                #![trigger input.at(r2, c2, k2)]
                input.in_bounds(r2, c2, k2) ==> input.at(r2, c2, k2) == if ro <= r2 < ro + i && co
                    <= c2 < co + ocols {
                    conv_cell(before, *kernel, r2 - ro, c2 - co, k2)
                } else {
                    before.at(r2, c2, k2)
                },
        decreases orows - i,
    {
        let mut j: usize = 0;
        while j < ocols
            invariant
                before.wf(),
                kernel.wf(),
                validate(before, *kernel) is Ok,
                is_convolution(before, *kernel, out),
                ro == centre_offset(kernel.n_rows() as int),
                co == centre_offset(kernel.n_cols() as int),
                orows == out.n_rows(),
                ocols == out.n_cols(),
                chn == out.n_channels(),
                input.wf(),
                input.n_rows() == before.n_rows(),
            rows == before.n_rows(),
            cols == before.n_cols(),
                input.n_cols() == before.n_cols(),
                input.n_channels() == before.n_channels(),
                i < orows,
                j <= ocols,
                forall|r2: int, c2: int, k2: int|
                    #![trigger input.at(r2, c2, k2)]
                    input.in_bounds(r2, c2, k2) ==> input.at(r2, c2, k2) == if co <= c2 < co
                        + ocols && (ro <= r2 < ro + i || (r2 == ro + i && c2 < co + j)) {
                        conv_cell(before, *kernel, r2 - ro, c2 - co, k2)
                    } else {
                        before.at(r2, c2, k2)
                    },
            decreases ocols - j,
        {
            let mut ch: usize = 0;
            while ch < chn
                invariant
                    before.wf(),
                    kernel.wf(),
                    validate(before, *kernel) is Ok,
                    is_convolution(before, *kernel, out),
                    ro == centre_offset(kernel.n_rows() as int),
                    co == centre_offset(kernel.n_cols() as int),
                    orows == out.n_rows(),
                    ocols == out.n_cols(),
                    chn == out.n_channels(),
                    input.wf(),
                    input.n_rows() == before.n_rows(),
            rows == before.n_rows(),
            cols == before.n_cols(),
                    input.n_cols() == before.n_cols(),
                    input.n_channels() == before.n_channels(),
                    i < orows,
                    j < ocols,
                    ch <= chn,
                    forall|r2: int, c2: int, k2: int|
                        #![trigger input.at(r2, c2, k2)]
                        input.in_bounds(r2, c2, k2) ==> input.at(r2, c2, k2) == if co <= c2 < co
                            + ocols && (ro <= r2 < ro + i || (r2 == ro + i && (c2 < co + j || (c2
                            == co + j && k2 < ch)))) {
                            conv_cell(before, *kernel, r2 - ro, c2 - co, k2)
                        } else {
                            before.at(r2, c2, k2)
                        },
                decreases chn - ch,
            {
                let v = out.get(i, j, ch);
                input.set(i + ro, j + co, ch, v);
                ch = ch + 1;
            }
            j = j + 1;
        }
        i = i + 1;
    }
    Ok(())
}

/// Image convolutions on a container of elements.
pub trait ConvolutionExt: Sized {
    /// Element type the convolution is performed on.
    type Data;

    /// The container and the kernel are well formed.
    spec fn accepts(&self, kernel: Volume<Self::Data>) -> bool;

    /// `r` is what convolving `self` with `kernel` returns.
    spec fn conv2d_post(&self, kernel: Volume<Self::Data>, r: Result<Self, Error>) -> bool;

    /// Convolving `self` in place with `kernel` returns `r` and leaves `after`.
    spec fn conv2d_inplace_post(
        &self,
        kernel: Volume<Self::Data>,
        after: Self,
        r: Result<(), Error>,
    ) -> bool;

    /// Performs a convolution, returning the resulting data.
    fn conv2d(&self, kernel: &Volume<Self::Data>) -> (r: Result<Self, Error>)
        requires
            self.accepts(*kernel),
        ensures
            self.conv2d_post(*kernel, r),
    ;

    /// Performs the convolution in place, mutating the container's data.
    fn conv2d_inplace(&mut self, kernel: &Volume<Self::Data>) -> (r: Result<(), Error>)
        requires
            old(self).accepts(*kernel),
        ensures
            old(self).conv2d_inplace_post(*kernel, *final(self), r),
    ;
}

impl<T: Element> ConvolutionExt for Volume<T> {
    type Data = T;

    open spec fn accepts(&self, kernel: Volume<T>) -> bool {
        self.wf() && kernel.wf()
    }

    open spec fn conv2d_post(&self, kernel: Volume<T>, r: Result<Volume<T>, Error>) -> bool {
        convolve_post(*self, kernel, r)
    }

    open spec fn conv2d_inplace_post(
        &self,
        kernel: Volume<T>,
        after: Volume<T>,
        r: Result<(), Error>,
    ) -> bool {
        &&& r == validate(*self, kernel)
        &&& r is Ok ==> is_convolved_in_place(*self, kernel, after)
        &&& r is Err ==> after == *self
    }

    fn conv2d(&self, kernel: &Volume<T>) -> (r: Result<Volume<T>, Error>) {
        convolve(self, kernel)
    }

    fn conv2d_inplace(&mut self, kernel: &Volume<T>) -> (r: Result<(), Error>) {
        convolve_in_place(self, kernel)
    }
}

/// A kernel whose channel count differs from the input's is refused with
/// `ChannelDimensionMismatch` by both operations (and `convolve_in_place`
/// then leaves the input unchanged).
pub proof fn lemma_channel_mismatch<T>(input: Volume<T>, kernel: Volume<T>)
    requires
        input.n_channels() != kernel.n_channels(),
    ensures
        validate(input, kernel) == Err::<(), Error>(Error::ChannelDimensionMismatch),
{
}

/// With matching channels, a kernel that leaves no output row or no output
/// column is refused with `InvalidDimensions` by both operations.
pub proof fn lemma_degenerate_size<T>(input: Volume<T>, kernel: Volume<T>)
    requires
        input.n_channels() == kernel.n_channels(),
        out_rows(input, kernel) <= 0 || out_cols(input, kernel) <= 0,
    ensures
        validate(input, kernel) == Err::<(), Error>(Error::InvalidDimensions),
{
}

/// After a successful in-place convolution, the cells above or left of the
/// kernel centre keep their values, and each cell of the band equals the
/// aligned cell of a separately computed convolution.
pub proof fn lemma_in_place_matches_convolve<T: Element>(
    before: Volume<T>,
    kernel: Volume<T>,
    after: Volume<T>,
    out: Volume<T>,
)
    requires
        is_convolved_in_place(before, kernel, after),
        is_convolution(before, kernel, out),
    ensures
        forall|r: int, c: int, ch: int|
            #![trigger after.at(r, c, ch)]
            before.in_bounds(r, c, ch) && (r < centre_offset(kernel.n_rows() as int) || c
                < centre_offset(kernel.n_cols() as int)) ==> after.at(r, c, ch) == before.at(
                r,
                c,
                ch,
            ),
        forall|r: int, c: int, ch: int|
            #![trigger after.at(r, c, ch)]
            before.in_bounds(r, c, ch) && out.in_bounds(
                r - centre_offset(kernel.n_rows() as int),
                c - centre_offset(kernel.n_cols() as int),
                ch,
            ) ==> after.at(r, c, ch) == out.at(
                r - centre_offset(kernel.n_rows() as int),
                c - centre_offset(kernel.n_cols() as int),
                ch,
            ),
{
    assert forall|r: int, c: int, ch: int|
        #![trigger after.at(r, c, ch)]
        before.in_bounds(r, c, ch) && out.in_bounds(
            r - centre_offset(kernel.n_rows() as int),
            c - centre_offset(kernel.n_cols() as int),
            ch,
        ) implies after.at(r, c, ch) == out.at(
            r - centre_offset(kernel.n_rows() as int),
            c - centre_offset(kernel.n_cols() as int),
            ch,
        ) by {
        assert(after.in_bounds(r, c, ch));
    }
}

/// Two results of `convolve` on the same input and kernel are identical:
/// the same error, or volumes of the same shape holding the same elements.
pub proof fn lemma_convolve_deterministic<T: Element>(
    input: Volume<T>,
    kernel: Volume<T>,
    r1: Result<Volume<T>, Error>,
    r2: Result<Volume<T>, Error>,
)
    requires
        convolve_post(input, kernel, r1),
        convolve_post(input, kernel, r2),
    ensures
        r1 is Ok <==> r2 is Ok,
        r1 is Err ==> r1 == r2,
        r1 is Ok ==> r1->Ok_0.n_rows() == r2->Ok_0.n_rows() && r1->Ok_0.n_cols()
            == r2->Ok_0.n_cols() && r1->Ok_0.n_channels() == r2->Ok_0.n_channels()
            && r1->Ok_0.cells() == r2->Ok_0.cells(),
{
    if r1 is Ok && r2 is Ok {
        let a = r1->Ok_0;
        let b = r2->Ok_0;
        assert forall|k: int| 0 <= k < a.cells().len() implies a.cells()[k] == b.cells()[k] by {
            let cell = crate::volume::lemma_flat_index_onto(
                a.n_rows() as int,
                a.n_cols() as int,
                a.n_channels() as int,
                k,
            );
            assert(a.at(cell.0, cell.1, cell.2) == b.at(cell.0, cell.1, cell.2));
        }
        assert(a.cells() =~= b.cells());
    }
}

} // verus!
