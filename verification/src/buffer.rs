use vstd::prelude::*;

verus! {

/// The GPU buffers that hold per-frame data.
#[derive(Clone, Copy, Debug, PartialEq, Eq, Structural)]
pub enum BufferType {
    Model,
    Camera,
}

/// The bind groups that a render pass can bind.
#[derive(Clone, Copy, Debug, PartialEq, Eq, Structural)]
pub enum BgType {
    Mesh,
}

/// Number of instances that the instance buffer holds when it is first created.
pub const INITIAL_MODEL_INSTANCES: usize = 128;

/// `2^k`.
pub open spec fn power_of_two(k: nat) -> nat
    decreases k,
{
    if k == 0 {
        1
    } else {
        2 * power_of_two((k - 1) as nat)
    }
}

/// The least `k` with `2^k >= n`.
pub open spec fn ceil_log2(n: nat) -> nat
    decreases n,
{
    if n <= 1 {
        0
    } else {
        1 + ceil_log2(((n + 1) / 2) as nat)
    }
}

/// The smallest power of two that is greater than or equal to `n`.
pub open spec fn spec_next_power_of_two(n: nat) -> nat {
    power_of_two(ceil_log2(n))
}

/// `2^k >= n` exactly when `k` is at least `ceil_log2(n)`.
pub proof fn lemma_ceil_log2(n: nat, k: nat)
    ensures
        power_of_two(k) >= n <==> k >= ceil_log2(n),
    decreases n,
{
    lemma_power_of_two_positive(k);
    if n > 1 {
        let m = ((n + 1) / 2) as nat;
        if k > 0 {
            lemma_ceil_log2(m, (k - 1) as nat);
        }
    }
}

/// Every power of two is positive.
pub proof fn lemma_power_of_two_positive(k: nat)
    ensures
        power_of_two(k) >= 1,
    decreases k,
{
    if k > 0 {
        lemma_power_of_two_positive((k - 1) as nat);
    }
}

/// Powers of two grow with their exponent.
pub proof fn lemma_power_of_two_monotone(a: nat, b: nat)
    requires
        a <= b,
    ensures
        power_of_two(a) <= power_of_two(b),
    decreases b,
{
    lemma_power_of_two_positive(b);
    if a < b {
        lemma_power_of_two_monotone(a, (b - 1) as nat);
    }
}

/// The next power of two of `n` is a power of two, is at least `n`, is
/// below `2n` (for positive `n`), and no power of two at least `n` is smaller.
pub proof fn lemma_next_power_of_two(n: nat)
    ensures
        exists|k: nat| power_of_two(k) == spec_next_power_of_two(n),
        spec_next_power_of_two(n) >= n,
        n >= 1 ==> spec_next_power_of_two(n) < 2 * n,
        forall|k: nat| power_of_two(k) >= n ==> spec_next_power_of_two(n) <= #[trigger] power_of_two(k),
{
    let c = ceil_log2(n);
    lemma_ceil_log2(n, c);
    assert(power_of_two(c) == spec_next_power_of_two(n));
    if n >= 1 && c > 0 {
        lemma_ceil_log2(n, (c - 1) as nat);
    }
    assert forall|k: nat| power_of_two(k) >= n implies spec_next_power_of_two(n) <= #[trigger] power_of_two(k) by {
        lemma_ceil_log2(n, k);
        lemma_power_of_two_monotone(c, k);
    }
}

/// The smallest power of two that is greater than or equal to `n`
/// (one for `n == 0`), for every `n` whose result fits in a `usize`.
pub fn next_power_of_two(n: usize) -> (res: usize)
    requires
        n <= isize::MAX as usize + 1,
    ensures
        res == spec_next_power_of_two(n as nat),
{
    let mut p: usize = 1;
    let ghost mut k: nat = 0;
    while p < n
        invariant
            n <= isize::MAX as usize + 1,
            p == power_of_two(k),
            k == 0 || power_of_two((k - 1) as nat) < n,
        decreases usize::MAX - p,
    {
        proof {
            lemma_power_of_two_positive(k);
        }
        assert(p * 2 <= usize::MAX);
        p = p * 2;
        proof {
            k = k + 1;
        }
    }
    proof {
        lemma_ceil_log2(n as nat, k);
        if k > 0 {
            lemma_ceil_log2(n as nat, (k - 1) as nat);
        }
    }
    p
}

/// What happens to the instance buffer before instances are written to it.
#[derive(Clone, Copy, Debug, PartialEq, Eq, Structural)]
pub enum ModelBufferWrite {
    /// The instances fit: write them into the current buffer.
    Write,
    /// The buffer is recreated with the given size in bytes, then written.
    Grow(usize),
}

/// The size that the instance buffer must take before `required` bytes are
/// written to it, when it currently holds `current` bytes.
pub open spec fn spec_model_buffer_write(current: nat, required: nat) -> ModelBufferWrite {
    if required <= current {
        ModelBufferWrite::Write
    } else {
        ModelBufferWrite::Grow(spec_next_power_of_two(required) as usize)
    }
}

/// The buffer size in bytes after `write` was carried out on a buffer of `current` bytes.
pub open spec fn size_after_write(current: nat, write: ModelBufferWrite) -> nat {
    match write {
        ModelBufferWrite::Write => current,
        ModelBufferWrite::Grow(size) => size as nat,
    }
}

/// Decides whether an instance buffer of `current` bytes can take `required`
/// bytes as it is, or must first be recreated at the next power of two.
pub fn model_buffer_write(current: usize, required: usize) -> (res: ModelBufferWrite)
    requires
        required <= isize::MAX as usize + 1,
    ensures
        res == spec_model_buffer_write(current as nat, required as nat),
        size_after_write(current as nat, res) >= required,
        size_after_write(current as nat, res) >= current,
{
    if required <= current {
        ModelBufferWrite::Write
    } else {
        let size = next_power_of_two(required);
        proof {
            lemma_next_power_of_two(required as nat);
        }
        ModelBufferWrite::Grow(size)
    }
}

} // verus!
