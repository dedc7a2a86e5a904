# use_signal

Primitive signal-processing helpers (sample validation, amplitude summaries,
frequencies, windows, normalization, energy, zero crossings, simple filters),
split in two:

- `src/` is the verified library. It never touches a floating-point value: it
  works on `reading::Reading`, what it reads of a sample (non-finite, or finite
  with an integer key that keeps order, sign and magnitude order), and takes
  every decision that needs no arithmetic on floats: which inputs are accepted
  and in which order they are refused, which sample is the minimum, maximum or
  peak, how a normalization maps the signal, which samples enter and leave a
  moving window, and how many zero crossings a signal has. Its laws (zeros are
  neutral to zero crossings, non-finite samples break sign continuity, the
  running sum of the moving average is the sum of its window, the peak is the
  larger magnitude of the extremes) are proof functions beside the code.
- `app/` is the `f64` API: it reads each sample, asks the library, and does
  the floating-point arithmetic (sums, quotients, square roots, logarithms,
  cosines).
