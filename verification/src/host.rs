use vstd::prelude::*;

verus! {

/// Which execution device the host asked an inference session to run on.
#[derive(Debug, Clone, Copy, PartialEq, Eq, Structural)]
pub enum DeviceConfig {
    Cpu,
    Cuda,
}

/// One GPU adapter as reported to the frontend.
#[derive(Debug, Clone)]
pub struct GpuDevice {
    pub device_id: u32,
    pub name: String,
    pub vendor: String,
    pub backend: String,
}

/// The outcome of initializing the inference runtime: what was requested,
/// what was available, what ended up active, and how long the warmup took.
#[derive(Debug, Clone)]
pub struct GpuInitResult {
    pub requested_provider: String,
    pub available_providers: Vec<String>,
    pub active_provider: String,
    pub device_id: u32,
    pub device_name: Option<String>,
    pub success: bool,
    pub warmup_time_ms: u32,
}

/// One file of a model package, by name and size.
#[derive(Debug, Clone)]
pub struct ModelFile {
    pub filename: String,
    pub size: u64,
}

/// An 8-bit RGB color exchanged with the rendering front end.
#[derive(Debug, Clone, Copy, PartialEq, Eq, Structural)]
pub struct RgbColor {
    pub r: u8,
    pub g: u8,
    pub b: u8,
}

/// The timing summary of a stress-test run.
#[derive(Debug, Clone)]
pub struct StressTestResult {
    pub timings_ms: Vec<u64>,
    pub avg_ms: u64,
    pub min_ms: u64,
    pub max_ms: u64,
    pub target_size: u32,
    pub iterations: usize,
}

/// Sum of a sequence of timings.
pub open spec fn sum_of(s: Seq<u64>) -> int
    decreases s.len(),
{
    if s.len() == 0 {
        0
    } else {
        sum_of(s.drop_last()) + s.last()
    }
}

/// The marketing name of a PCI GPU vendor id, or "Unknown" for the rest
/// (the caller may append the raw id).
pub fn vendor_name(vendor_id: u32) -> (r: &'static str)
    ensures
        vendor_id == 0x10DE ==> r@ == "NVIDIA"@,
        (vendor_id == 0x1002 || vendor_id == 0x1022) ==> r@ == "AMD"@,
        vendor_id == 0x8086 ==> r@ == "Intel"@,
        (vendor_id != 0x10DE && vendor_id != 0x1002 && vendor_id != 0x1022 && vendor_id != 0x8086)
            ==> r@ == "Unknown"@,
{
    if vendor_id == 0x10DE {
        "NVIDIA"
    } else if vendor_id == 0x1002 || vendor_id == 0x1022 {
        "AMD"
    } else if vendor_id == 0x8086 {
        "Intel"
    } else {
        "Unknown"
    }
}

/// Fold a list of per-iteration timings into the stress-test summary: the
/// average is the integer mean, and the minimum and maximum both occur in
/// the list and bound every entry.
pub fn summarize_timings(timings: Vec<u64>, target_size: u32) -> (r: StressTestResult)
    requires
        timings@.len() >= 1,
    ensures
        r.timings_ms == timings,
        r.target_size == target_size,
        r.iterations == timings@.len(),
        r.avg_ms == sum_of(timings@) / timings@.len() as int,
        forall|k: int| 0 <= k < timings@.len() ==> r.min_ms <= #[trigger] timings@[k] <= r.max_ms,
        timings@.contains(r.min_ms),
        timings@.contains(r.max_ms),
{
    let n = timings.len();
    let mut sum: u128 = timings[0] as u128;
    let mut min: u64 = timings[0];
    let mut max: u64 = timings[0];
    let mut i: usize = 1;
    proof {
        assert(sum_of(Seq::<u64>::empty()) == 0);
        assert(timings@.subrange(0, 1).drop_last() =~= Seq::<u64>::empty());
        assert(timings@.subrange(0, 1).last() == timings@[0]);
        assert(sum_of(timings@.subrange(0, 1)) == timings@[0]);
    }
    while i < n
        invariant
            n == timings@.len(),
            1 <= i <= n,
            sum as int == sum_of(timings@.subrange(0, i as int)),
            forall|k: int| 0 <= k < i ==> min <= #[trigger] timings@[k] <= max,
            timings@.contains(min),
            timings@.contains(max),
        decreases n - i,
    {
        proof {
            lemma_sum_bounds(timings@.subrange(0, i as int));
            let si = sum as int;
            let ii = i as int;
            assert(si + 0xffffffffffffffff <= 0xffffffffffffffffffffffffffffffff)
                by (nonlinear_arith)
                requires
                    0 <= si <= ii * 0xffffffffffffffff,
                    0 <= ii <= 0xfffffffffffffffe,
            ;
            assert(timings@.subrange(0, i as int + 1).drop_last() =~= timings@.subrange(
                0,
                i as int,
            ));
            assert(timings@.subrange(0, i as int + 1).last() == timings@[i as int]);
        }
        let t = timings[i];
        sum = sum + t as u128;
        if t < min {
            min = t;
        }
        if t > max {
            max = t;
        }
        i = i + 1;
    }
    proof {
        assert(timings@.subrange(0, n as int) =~= timings@);
    }
    let avg = (sum / n as u128) as u64;
    proof {
        lemma_sum_bounds(timings@);
        lemma_sum_div_len_bounded(timings@);
        assert(avg as int == sum_of(timings@) / timings@.len() as int);
    }
    StressTestResult {
        timings_ms: timings,
        avg_ms: avg,
        min_ms: min,
        max_ms: max,
        target_size,
        iterations: n,
    }
}

/// A sum of u64 values is nonnegative and at most the length times the
/// largest u64.
proof fn lemma_sum_bounds(s: Seq<u64>)
    ensures
        0 <= sum_of(s) <= s.len() * 0xffffffffffffffff,
    decreases s.len(),
{
    if s.len() == 0 {
        assert(s.len() * 0xffffffffffffffff == 0) by (nonlinear_arith)
            requires
                s.len() == 0,
        ;
    } else {
        lemma_sum_bounds(s.drop_last());
        assert(s.len() * 0xffffffffffffffff == s.drop_last().len() * 0xffffffffffffffff
            + 0xffffffffffffffff) by (nonlinear_arith)
            requires
                s.len() == s.drop_last().len() + 1,
        ;
    }
}

/// The mean of a list of u64 values fits in u64.
proof fn lemma_sum_div_len_bounded(s: Seq<u64>)
    requires
        s.len() >= 1,
        sum_of(s) <= s.len() * 0xffffffffffffffff,
        sum_of(s) >= 0,
    ensures
        0 <= sum_of(s) / s.len() as int <= 0xffffffffffffffff,
{
    let n = s.len() as int;
    let m = sum_of(s);
    vstd::arithmetic::div_mod::lemma_fundamental_div_mod(m, n);
    vstd::arithmetic::div_mod::lemma_mod_bound(m, n);
    let q = m / n;
    if q > 0xffffffffffffffff {
        assert(n * q > n * 0xffffffffffffffff) by (nonlinear_arith)
            requires
                n >= 1,
                q > 0xffffffffffffffff,
        ;
        assert(n * 0xffffffffffffffff == s.len() * 0xffffffffffffffff);
    }
    if q < 0 {
        assert(n * q < 0) by (nonlinear_arith)
            requires
                n >= 1,
                q < 0,
        ;
    }
}

/// The CUDA device name for a device index. This build carries no CUDA
/// support, so no name is ever known.
pub fn get_cuda_device_name(_device_id: u32) -> (r: Option<String>)
    ensures
        r is None,
{
    None
}

/// The inference providers this build can offer: without CUDA support and
/// off Windows, the plain CPU provider is the only one.
pub fn get_available_ort_providers() -> (r: Vec<String>)
    ensures
        r@.len() == 1,
        r@[0]@ == "CPU"@,
{
    let mut providers: Vec<String> = Vec::new();
    providers.push("CPU".to_string());
    providers
}

} // verus!
