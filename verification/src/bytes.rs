//! Small byte-string helpers shared by the kernel's handlers.
use vstd::prelude::*;

verus! {

/// Whether two byte strings are equal.
pub fn bytes_eq(a: &[u8], b: &[u8]) -> (r: bool)
    ensures
        r == (a@ == b@),
{
    if a.len() != b.len() {
        return false;
    }
    let mut i: usize = 0;
    while i < a.len()
        invariant
            a@.len() == b@.len(),
            i <= a@.len(),
            forall|j: int| 0 <= j < i ==> a@[j] == b@[j],
        decreases a@.len() - i,
    {
        if a[i] != b[i] {
            return false;
        }
        i = i + 1;
    }
    proof {
        assert(a@ =~= b@);
    }
    true
}

/// A copy of a byte string as an owned vector.
pub fn to_vec(a: &[u8]) -> (v: Vec<u8>)
    ensures
        v@ == a@,
{
    let mut v: Vec<u8> = Vec::new();
    let mut i: usize = 0;
    while i < a.len()
        invariant
            i <= a@.len(),
            v@ == a@.subrange(0, i as int),
        decreases a@.len() - i,
    {
        v.push(a[i]);
        i = i + 1;
        proof {
            assert(v@ =~= a@.subrange(0, i as int));
        }
    }
    proof {
        assert(v@ =~= a@);
    }
    v
}

/// Appends every byte of `b` to `v`.
pub fn extend(v: &mut Vec<u8>, b: &[u8])
    ensures
        final(v)@ == old(v)@ + b@,
{
    let mut i: usize = 0;
    while i < b.len()
        invariant
            i <= b@.len(),
            v@ == old(v)@ + b@.subrange(0, i as int),
        decreases b@.len() - i,
    {
        v.push(b[i]);
        i = i + 1;
        proof {
            assert(v@ =~= old(v)@ + b@.subrange(0, i as int));
        }
    }
    proof {
        assert(b@.subrange(0, b@.len() as int) =~= b@);
    }
}


/// The `k` lowest base-256 digits of `n`, least significant first.
pub open spec fn le_digits(n: nat, k: nat) -> Seq<u8>
    decreases k,
{
    if k == 0 {
        Seq::empty()
    } else {
        seq![(n % 256) as u8] + le_digits(n / 256, (k - 1) as nat)
    }
}

/// The bytes of a machine word, least significant first.
pub open spec fn usize_le_bytes(n: usize) -> Seq<u8> {
    le_digits(n as nat, (usize::BITS / 8) as nat)
}

/// The little-endian bytes of `n`, as many as a machine word has.
pub fn to_le_bytes(n: usize) -> (r: Vec<u8>)
    ensures
        r@ == usize_le_bytes(n),
        r@.len() == usize::BITS / 8,
{
    let width: u32 = usize::BITS / 8;
    let mut out: Vec<u8> = Vec::new();
    let mut v: usize = n;
    let mut i: u32 = 0;
    proof {
        lemma_le_digits_len(n as nat, width as nat);
    }
    while i < width
        invariant
            width == usize::BITS / 8,
            i <= width,
            out@ + le_digits(v as nat, (width - i) as nat) == le_digits(n as nat, width as nat),
            out@.len() == i,
        decreases width - i,
    {
        let d = (v % 256) as u8;
        proof {
            let rest = le_digits((v / 256) as nat, (width - i - 1) as nat);
            assert(le_digits(v as nat, (width - i) as nat) == seq![d] + rest);
            assert(out@.push(d) + rest =~= out@ + (seq![d] + rest));
        }
        out.push(d);
        v = v / 256;
        i = i + 1;
    }
    proof {
        assert(out@ + le_digits(v as nat, 0) =~= out@);
    }
    out
}

proof fn lemma_le_digits_len(n: nat, k: nat)
    ensures
        le_digits(n, k).len() == k,
    decreases k,
{
    if k > 0 {
        lemma_le_digits_len(n / 256, (k - 1) as nat);
    }
}

/// Reading the digits back, least significant first, gives the number when
/// it fits in them.
pub open spec fn from_le_digits(d: Seq<u8>) -> nat
    decreases d.len(),
{
    if d.len() == 0 {
        0
    } else {
        d[0] as nat + 256 * from_le_digits(d.subrange(1, d.len() as int))
    }
}

/// The little-endian digits hold the number back: reading `k` digits of a
/// number below `256^k` gives the number.
pub proof fn lemma_le_digits_roundtrip(n: nat, k: nat)
    requires
        n < pow256(k),
    ensures
        from_le_digits(le_digits(n, k)) == n,
    decreases k,
{
    if k > 0 {
        lemma_le_digits_roundtrip(n / 256, (k - 1) as nat);
        let d = le_digits(n, k);
        assert(d.subrange(1, d.len() as int) =~= le_digits(n / 256, (k - 1) as nat));
    } else {
    }
}

pub open spec fn pow256(k: nat) -> nat
    decreases k,
{
    if k == 0 {
        1
    } else {
        256 * pow256((k - 1) as nat)
    }
}

} // verus!
