//! Integer skeletons of the audio paths: the exact output length and
//! source positions of linear-interpolation resampling, and the chunk
//! layout of the level meter.  The sample arithmetic itself is floating
//! point and runs outside; everything it depends on — which samples go
//! where — is fixed here.

use vstd::prelude::*;

verus! {

/// Output length of resampling `input_len` samples from `from_rate` to
/// `to_rate`: unchanged when the rates agree or there is no input,
/// otherwise `floor(input_len * to_rate / from_rate)`.
pub open spec fn resample_len_spec(input_len: int, from_rate: int, to_rate: int) -> int {
    if from_rate == to_rate || input_len == 0 {
        input_len
    } else {
        (input_len * to_rate) / from_rate
    }
}

/// The number of samples resampling produces.
pub fn resample_output_len(input_len: usize, from_rate: u32, to_rate: u32) -> (r: usize)
    requires
        from_rate > 0,
        resample_len_spec(input_len as int, from_rate as int, to_rate as int) <= usize::MAX,
    ensures
        r == resample_len_spec(input_len as int, from_rate as int, to_rate as int),
{
    if from_rate == to_rate || input_len == 0 {
        input_len
    } else {
        proof {
            assert((input_len as int) * (to_rate as int) < 0x100000000000000000000000000000000) by (
            nonlinear_arith)
                requires
                    0 <= (input_len as int) <= 0xFFFFFFFFFFFFFFFF,
                    0 <= (to_rate as int) <= 0xFFFFFFFF,
            ;
        }
        let v = ((input_len as u128) * (to_rate as u128)) / (from_rate as u128);
        proof {
            assert(v == (input_len as int * to_rate as int) / (from_rate as int)) by (
            nonlinear_arith)
                requires
                    0 < (from_rate as int),
                    v == ((input_len as u128) * (to_rate as u128)) as int / (from_rate
                        as u128) as int,
                    (input_len as u128) as int == input_len as int,
                    (to_rate as u128) as int == to_rate as int,
                    (from_rate as u128) as int == from_rate as int,
                    ((input_len as u128) * (to_rate as u128)) as int == (input_len as int) * (
                    to_rate as int),
            ;
            assert((input_len as u128) * (to_rate as u128) == (input_len as int) * (to_rate
                as int)) by (nonlinear_arith)
                requires
                    (input_len as u128) as int == input_len as int,
                    (to_rate as u128) as int == to_rate as int,
                    input_len as int <= usize::MAX,
                    to_rate as int <= u32::MAX,
            ;
        }
        v as usize
    }
}

/// The source position output sample `i` interpolates from: the index
/// below it and the fractional remainder, as a fraction over
/// `to_rate`.  The sample is read at `floor + frac/to_rate` source
/// steps.
pub fn resample_position(i: usize, from_rate: u32, to_rate: u32) -> (r: (usize, u32))
    requires
        to_rate > 0,
        (i as int * from_rate as int) / (to_rate as int) <= usize::MAX,
    ensures
        r.0 == (i as int * from_rate as int) / (to_rate as int),
        r.1 == (i as int * from_rate as int) % (to_rate as int),
{
    proof {
        assert((i as int) * (from_rate as int) < 0x100000000000000000000000000000000) by (
        nonlinear_arith)
            requires
                0 <= (i as int) <= 0xFFFFFFFFFFFFFFFF,
                0 <= (from_rate as int) <= 0xFFFFFFFF,
        ;
    }
    let num = (i as u128) * (from_rate as u128);
    let fl = num / (to_rate as u128);
    let rem = num % (to_rate as u128);
    proof {
        assert(num == (i as int) * (from_rate as int)) by (nonlinear_arith)
            requires
                (i as u128) as int == i as int,
                (from_rate as u128) as int == from_rate as int,
                num == ((i as u128) * (from_rate as u128)),
                i as int <= usize::MAX,
                from_rate as int <= u32::MAX,
        ;
        assert(fl == (i as int * from_rate as int) / (to_rate as int) && rem == (i as int
            * from_rate as int) % (to_rate as int)) by (nonlinear_arith)
            requires
                0 < (to_rate as int),
                num as int == (i as int) * (from_rate as int),
                fl == num / (to_rate as u128),
                rem == num % (to_rate as u128),
                (to_rate as u128) as int == to_rate as int,
        ;
        assert(rem < to_rate as u128);
    }
    (fl as usize, rem as u32)
}

/// Every output position reads inside the input: the interpolation
/// index of output sample `i` lies below `input_len`.
pub proof fn lemma_resample_position_in_bounds(
    input_len: int,
    from_rate: int,
    to_rate: int,
    i: int,
)
    requires
        0 < from_rate,
        0 < to_rate,
        0 < input_len,
        from_rate != to_rate,
        0 <= i < resample_len_spec(input_len, from_rate, to_rate),
    ensures
        0 <= (i * from_rate) / to_rate < input_len,
{
    assert(0 <= (i * from_rate) / to_rate) by (nonlinear_arith)
        requires
            0 <= i,
            0 < from_rate,
            0 < to_rate,
    ;
    assert((i * from_rate) / to_rate < input_len) by (nonlinear_arith)
        requires
            0 < from_rate,
            0 < to_rate,
            0 < input_len,
            0 <= i,
            i < (input_len * to_rate) / from_rate,
    ;
}

/// How to resample a buffer: leave it alone, or read each output
/// sample at a source position.
pub enum ResamplePlan {
    /// Equal rates or no input: the buffer is returned unchanged.
    Unchanged,
    /// Output sample `i` interpolates between the source samples at
    /// `positions[i].0` and the one after it (when there is one), with
    /// the fractional weight `positions[i].1 / to_rate`.
    Interpolate { positions: Vec<(usize, u32)> },
}

/// Plans a resample: equal rates and empty input pass through, and
/// every other case reads `floor(len * to / from)` positions, each
/// inside the input.
pub fn resample_plan(input_len: usize, from_rate: u32, to_rate: u32) -> (r: ResamplePlan)
    requires
        from_rate > 0,
        to_rate > 0,
        resample_len_spec(input_len as int, from_rate as int, to_rate as int) <= usize::MAX,
    ensures
        (r is Unchanged) <==> (from_rate == to_rate || input_len == 0),
        r matches ResamplePlan::Interpolate { positions } ==> {
            &&& positions@.len() == resample_len_spec(
                input_len as int,
                from_rate as int,
                to_rate as int,
            )
            &&& forall|i: int|
                0 <= i < positions@.len() ==> #[trigger] positions@[i] == (
                    (((i * from_rate as int) / (to_rate as int)) as usize),
                    (((i * from_rate as int) % (to_rate as int)) as u32),
                )
            &&& forall|i: int|
                0 <= i < positions@.len() ==> (#[trigger] positions@[i]).0 < input_len
        },
{
    if from_rate == to_rate || input_len == 0 {
        return ResamplePlan::Unchanged;
    }
    let out_len = resample_output_len(input_len, from_rate, to_rate);
    let mut positions: Vec<(usize, u32)> = Vec::new();
    let mut i: usize = 0;
    while i < out_len
        invariant
            from_rate > 0,
            to_rate > 0,
            input_len > 0,
            from_rate != to_rate,
            i <= out_len,
            out_len == resample_len_spec(input_len as int, from_rate as int, to_rate as int),
            positions@.len() == i,
            forall|j: int|
                0 <= j < i ==> #[trigger] positions@[j] == (
                    (((j * from_rate as int) / (to_rate as int)) as usize),
                    (((j * from_rate as int) % (to_rate as int)) as u32),
                ),
            forall|j: int| 0 <= j < i ==> (#[trigger] positions@[j]).0 < input_len,
        decreases out_len - i,
    {
        proof {
            lemma_resample_position_in_bounds(
                input_len as int,
                from_rate as int,
                to_rate as int,
                i as int,
            );
        }
        let p = resample_position(i, from_rate, to_rate);
        positions.push(p);
        i = i + 1;
    }
    ResamplePlan::Interpolate { positions }
}

/// Samples per level bar: the device rate over thirty per second,
/// rounded to the nearest sample.
pub open spec fn samples_per_bar_spec(sample_rate: int) -> int {
    (sample_rate * 66 + 1000) / 2000
}

/// The number of samples behind one level bar (about 33 ms of audio).
pub fn samples_per_bar(sample_rate: u32) -> (r: usize)
    ensures
        r == samples_per_bar_spec(sample_rate as int),
        r <= 0x10000000,
{
    let prod: u64 = (sample_rate as u64) * 66;
    let v: u64 = (prod + 1000) / 2000;
    proof {
        assert(prod == (sample_rate as int) * 66);
        assert(v == samples_per_bar_spec(sample_rate as int));
        assert(v <= 0x10000000);
    }
    v as usize
}

/// The sample window of level bar `i`: the last `num_bars` windows of
/// `spb` samples each, taken from the tail of the buffer.  Bars whose
/// window starts past the data are empty.
pub open spec fn bar_window_spec(len: int, spb: int, num_bars: int, i: int) -> (int, int) {
    let total = spb * num_bars;
    let start = if len > total {
        len - total
    } else {
        0
    };
    let cs = start + i * spb;
    let ce = start + (i + 1) * spb;
    if cs >= len {
        (len, len)
    } else if ce > len {
        (cs, len)
    } else {
        (cs, ce)
    }
}

/// The chunk layout of the level meter: exactly `num_bars` windows over
/// the buffer's tail, in order, each within the buffer; empty windows
/// stand for bars with no data, whose level is zero.
pub fn level_windows(buffer_len: usize, sample_rate: u32, num_bars: usize) -> (r: Vec<
    (usize, usize),
>)
    requires
        num_bars <= 0x10000,
        buffer_len <= 0x1000000000000,
    ensures
        r@.len() == num_bars,
        forall|i: int|
            0 <= i < num_bars ==> #[trigger] r@[i] == {
                let (a, b) = bar_window_spec(
                    buffer_len as int,
                    samples_per_bar_spec(sample_rate as int),
                    num_bars as int,
                    i,
                );
                (a as usize, b as usize)
            },
        forall|i: int| 0 <= i < num_bars ==> (#[trigger] r@[i]).0 <= r@[i].1 <= buffer_len,
{
    let spb = samples_per_bar(sample_rate);
    let ghost spb_i = spb as int;
    proof {
        assert(spb_i * (num_bars as int) <= 0x10000000 * 0x10000 && 0 <= spb_i * (num_bars
            as int)) by (nonlinear_arith)
            requires
                0 <= spb_i <= 0x10000000,
                0 <= (num_bars as int) <= 0x10000,
        ;
    }
    let total: u64 = (spb as u64) * (num_bars as u64);
    let start: u64 = if (buffer_len as u64) > total {
        (buffer_len as u64) - total
    } else {
        0
    };
    let mut r: Vec<(usize, usize)> = Vec::new();
    let mut i: usize = 0;
    while i < num_bars
        invariant
            i <= num_bars,
            num_bars <= 0x10000,
            buffer_len <= 0x1000000000000,
            spb_i == samples_per_bar_spec(sample_rate as int),
            0 <= spb_i <= 0x10000000,
            spb == spb_i,
            total == spb_i * (num_bars as int),
            total <= 0x10000000 * 0x10000,
            start == (if buffer_len as int > spb_i * (num_bars as int) {
                buffer_len - spb_i * (num_bars as int)
            } else {
                0
            }),
            start <= buffer_len,
            r@.len() == i,
            forall|j: int|
                0 <= j < i ==> #[trigger] r@[j] == {
                    let (a, b) = bar_window_spec(
                        buffer_len as int,
                        spb_i,
                        num_bars as int,
                        j,
                    );
                    (a as usize, b as usize)
                },
            forall|j: int| 0 <= j < i ==> (#[trigger] r@[j]).0 <= r@[j].1 <= buffer_len,
        decreases num_bars - i,
    {
        proof {
            assert(0 <= (i as int) * spb_i && (i as int) * spb_i <= 0x10000000 * 0x10000 && (i
                as int + 1) * spb_i <= 0x10000000 * 0x10000 && (i as int + 1) * spb_i == (i
                as int) * spb_i + spb_i && 0 <= (i as int + 1) * spb_i) by (nonlinear_arith)
                requires
                    0 <= (i as int) < (num_bars as int),
                    (num_bars as int) <= 0x10000,
                    0 <= spb_i <= 0x10000000,
            ;
        }
        let cs64: u64 = start + (i as u64) * (spb as u64);
        let ce64: u64 = cs64 + (spb as u64);
        let window: (usize, usize) = if cs64 >= (buffer_len as u64) {
            (buffer_len, buffer_len)
        } else if ce64 > (buffer_len as u64) {
            (cs64 as usize, buffer_len)
        } else {
            (cs64 as usize, ce64 as usize)
        };
        r.push(window);
        proof {
            let (a, b) = bar_window_spec(buffer_len as int, spb_i, num_bars as int, i as int);
            assert(window == ((a as usize, b as usize)));
        }
        i = i + 1;
    }
    r
}

} // verus!
