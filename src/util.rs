use vstd::prelude::*;

verus! {

/// Two to the power `n`.
pub open spec fn pow2(n: nat) -> nat
    decreases n,
{
    if n == 0 {
        1
    } else {
        2 * pow2((n - 1) as nat)
    }
}

/// Delay before retry number `attempt`: `base_ms * 2^attempt`, capped at `max_ms`.
pub open spec fn backoff_spec(attempt: nat, base_ms: nat, max_ms: nat) -> nat {
    let raw = base_ms * pow2(attempt);
    if raw < max_ms {
        raw
    } else {
        max_ms
    }
}

/// Number of whole milliseconds a `Duration` stands for.
pub uninterp spec fn duration_millis(d: core::time::Duration) -> nat;

/// Lower-case hexadecimal text of the SHA-256 digest of `data`.
pub uninterp spec fn sha256_hex(data: Seq<u8>) -> Seq<char>;

proof fn lemma_pow2_mono(i: nat, j: nat)
    requires
        i <= j,
    ensures
        pow2(i) <= pow2(j),
    decreases j,
{
    if i < j {
        lemma_pow2_mono(i, (j - 1) as nat);
    }
}

/// Exponential backoff in milliseconds, without overflow for any input.
pub fn backoff_millis(attempt: u32, base_ms: u64, max_ms: u64) -> (r: u64)
    ensures
        r == backoff_spec(attempt as nat, base_ms as nat, max_ms as nat),
{
    let mut cur: u64 = base_ms;
    let mut i: u32 = 0;
    assert(pow2(0) == 1);
    assert(base_ms * pow2(0) == base_ms);
    if cur >= max_ms {
        proof {
            lemma_pow2_mono(0, attempt as nat);
            assert(base_ms * pow2(attempt as nat) >= base_ms * pow2(0)) by (nonlinear_arith)
                requires
                    pow2(attempt as nat) >= pow2(0),
            ;
        }
        return max_ms;
    }
    while i < attempt
        invariant
            i <= attempt,
            cur == base_ms * pow2(i as nat),
            cur < max_ms,
        decreases attempt - i,
    {
        if cur >= max_ms - cur {
            proof {
                lemma_pow2_mono((i + 1) as nat, attempt as nat);
                assert(pow2((i + 1) as nat) == 2 * pow2(i as nat));
                assert(base_ms * pow2(attempt as nat) >= base_ms * pow2((i + 1) as nat))
                    by (nonlinear_arith)
                    requires
                        pow2(attempt as nat) >= pow2((i + 1) as nat),
                ;
                assert(base_ms * pow2((i + 1) as nat) == 2 * (base_ms * pow2(i as nat)))
                    by (nonlinear_arith)
                    requires
                        pow2((i + 1) as nat) == 2 * pow2(i as nat),
                ;
            }
            return max_ms;
        }
        proof {
            assert(pow2((i + 1) as nat) == 2 * pow2(i as nat));
            assert(base_ms * pow2((i + 1) as nat) == 2 * (base_ms * pow2(i as nat)))
                by (nonlinear_arith)
                requires
                    pow2((i + 1) as nat) == 2 * pow2(i as nat),
            ;
        }
        cur = cur * 2;
        i = i + 1;
    }
    cur
}

/// Relies on `Duration::from_millis`: the duration of exactly `millis` milliseconds.
pub assume_specification[ core::time::Duration::from_millis ](millis: u64) -> (r:
    core::time::Duration)
    ensures
        duration_millis(r) == millis,
;

/// Exponential backoff as a duration: `base_ms * 2^attempt` milliseconds, at most `max_ms`.
pub fn calculate_backoff_duration(attempt: u32, base_ms: u64, max_ms: u64) -> (r:
    core::time::Duration)
    ensures
        duration_millis(r) == backoff_spec(attempt as nat, base_ms as nat, max_ms as nat),
{
    core::time::Duration::from_millis(backoff_millis(attempt, base_ms, max_ms))
}

/// Relies on `uuid::Uuid::new_v4` and its hyphenated text form (36 characters).
#[verifier::external_body]
pub(crate) fn new_uuid_v4() -> (r: String)
    ensures
        r@.len() == 36,
{
    uuid::Uuid::new_v4().to_string()
}

/// A fresh random transaction identifier (a hyphenated UUID).
pub fn generate_transaction_id() -> (r: String)
    ensures
        r@.len() == 36,
{
    new_uuid_v4()
}

/// Relies on `sha2::Sha256` and the lower-hex formatting of its digest.
#[verifier::external_body]
fn sha256_hex_digest(data: &[u8]) -> (r: String)
    ensures
        r@ == sha256_hex(data@),
        r@.len() == 64,
{
    let mut hasher = <sha2::Sha256 as sha2::Digest>::new();
    sha2::Digest::update(&mut hasher, data);
    format!("{:x}", sha2::Digest::finalize(hasher))
}

/// Digest of a payload, used to recognise duplicates.
pub fn calculate_hash(data: &[u8]) -> (r: String)
    ensures
        r@ == sha256_hex(data@),
        r@.len() == 64,
{
    sha256_hex_digest(data)
}

} // verus!
