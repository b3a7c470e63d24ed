use vstd::prelude::*;
use vstd::string::StringSliceAdditionalSpecFns;

verus! {

/// The error a writer reports when the text does not fit.
#[derive(Clone, Copy, PartialEq, Eq, Structural, Debug)]
pub struct FmtError;

/// A writer that fills a caller's buffer from the front.
pub struct UsizeBuf<'a> {
    buf: &'a mut [u8],
    len: usize,
}

impl<'a> UsizeBuf<'a> {
    /// The bytes written so far.
    pub closed spec fn written(&self) -> Seq<u8> {
        self.buf@.subrange(0, self.len as int)
    }

    /// The whole buffer.
    pub closed spec fn contents(&self) -> Seq<u8> {
        self.buf@
    }

    pub closed spec fn wf(&self) -> bool {
        self.len <= self.buf@.len()
    }

    /// A writer at the start of `buf`.
    pub fn new(buf: &'a mut [u8]) -> (w: UsizeBuf<'a>)
        ensures
            w.wf(),
            w.written() == Seq::<u8>::empty(),
            w.contents() == old(buf)@,
    {
        UsizeBuf { buf, len: 0 }
    }

    /// Appends the bytes of `s` when they fit in what is left of the buffer;
    /// otherwise fails and writes nothing.
    pub fn write_str(&mut self, s: &str) -> (r: Result<(), FmtError>)
        requires
            old(self).wf(),
        ensures
            final(self).wf(),
            final(self).contents().len() == old(self).contents().len(),
            old(self).written().len() + s.spec_bytes().len() > old(self).contents().len() ==> r is Err
                && final(self).written() == old(self).written() && final(self).contents() == old(self).contents(),
            old(self).written().len() + s.spec_bytes().len() <= old(self).contents().len() ==> r is Ok
                && final(self).written() == old(self).written() + s.spec_bytes()
                && final(self).contents() == old(self).written() + s.spec_bytes() + old(self).contents().subrange(
                (old(self).written().len() + s.spec_bytes().len()) as int,
                old(self).contents().len() as int,
            ),
    {
        let bytes = s.as_bytes();
        if bytes.len() > self.buf.len() - self.len {
            return Err(FmtError);
        }
        let start = self.len;
        let cap = self.buf.len();
        let mut i: usize = 0;
        while i < bytes.len()
            invariant
                cap == self.buf@.len(),
                self.len == start,
                start + bytes@.len() <= self.buf@.len(),
                self.buf@.len() == old(self).buf@.len(),
                i <= bytes@.len(),
                self.buf@.subrange(0, start as int) == old(self).buf@.subrange(0, start as int),
                self.buf@.subrange(start as int, start + i) == bytes@.subrange(0, i as int),
                self.buf@.subrange(start + i, self.buf@.len() as int) == old(self).buf@.subrange(start + i, self.buf@.len() as int),
            decreases bytes@.len() - i,
        {
            let ghost prev = self.buf@;
            self.buf[start + i] = bytes[i];
            i = i + 1;
            proof {
                assert forall|k: int| start + i <= k < self.buf@.len() implies self.buf@[k] == old(self).buf@[k] by {
                    assert(prev.subrange(start + i - 1, prev.len() as int)[k - (start + i - 1)] == prev[k]);
                    assert(old(self).buf@.subrange(start + i - 1, prev.len() as int)[k - (start + i - 1)] == old(self).buf@[k]);
                }
                assert(self.buf@.subrange(start as int, start + i) =~= bytes@.subrange(0, i as int));
                assert(self.buf@.subrange(start + i, self.buf@.len() as int) =~= old(self).buf@.subrange(start + i, self.buf@.len() as int));
            }
        }
        self.len = start + bytes.len();
        proof {
            assert(bytes@.subrange(0, bytes@.len() as int) =~= bytes@);
            assert(self.buf@.subrange(0, self.len as int) =~= self.buf@.subrange(0, start as int)
                + self.buf@.subrange(start as int, self.len as int));
            assert(self.buf@ =~= self.buf@.subrange(0, self.len as int) + self.buf@.subrange(self.len as int, self.buf@.len() as int));
        }
        Ok(())
    }
}

/// The decimal digits of `n`, most significant first, as ASCII.
pub open spec fn decimal(n: nat) -> Seq<u8>
    decreases n,
{
    if n < 10 {
        seq![(48 + n) as u8]
    } else {
        decimal(n / 10).push((48 + n % 10) as u8)
    }
}

/// The number that ASCII decimal digits stand for.
pub open spec fn value_of_digits(d: Seq<u8>) -> nat
    decreases d.len(),
{
    if d.len() == 0 {
        0
    } else {
        10 * value_of_digits(d.drop_last()) + (d.last() - 48) as nat
    }
}

/// Whether every byte is ASCII.
pub open spec fn ascii_bytes(b: Seq<u8>) -> bool {
    forall|i: int| 0 <= i < b.len() ==> b[i] < 128
}

/// Reading the decimal digits of a number gives the number back; the digits
/// are ASCII digits, and the first is no `0` unless the number is 0.
pub proof fn lemma_decimal_roundtrip(n: nat)
    ensures
        value_of_digits(decimal(n)) == n,
        decimal(n).len() >= 1,
        forall|i: int| 0 <= i < decimal(n).len() ==> 48 <= #[trigger] decimal(n)[i] <= 57,
        n > 0 ==> decimal(n)[0] != 48,
    decreases n,
{
    if n < 10 {
        assert(decimal(n).drop_last() =~= Seq::<u8>::empty());
        assert(((48 + n) as u8) as int == 48 + n);
        assert(value_of_digits(decimal(n)) == 10 * value_of_digits(Seq::<u8>::empty()) + (decimal(n).last() - 48) as nat);
    } else {
        assert(((48 + n % 10) as u8) as int == 48 + n % 10);
        lemma_decimal_roundtrip(n / 10);
        assert(decimal(n).drop_last() =~= decimal(n / 10));
        assert(10 * (n / 10) + n % 10 == n) by (nonlinear_arith);
        let d = decimal(n);
        assert forall|i: int| 0 <= i < d.len() implies 48 <= #[trigger] d[i] <= 57 by {
            if i < d.len() - 1 {
                assert(d[i] == decimal(n / 10)[i]);
            }
        }
    }
}

/// `core::str::from_utf8`.  Claimed: a result is the same bytes read as a
/// string, and ASCII bytes are always accepted (they are valid UTF-8).  Which
/// other byte strings are accepted is not stated.
#[verifier::external_body]
fn str_from_utf8(b: &[u8]) -> (r: Option<&str>)
    ensures
        r.is_some() ==> r.unwrap().spec_bytes() == b@,
        ascii_bytes(b@) ==> r.is_some(),
{
    core::str::from_utf8(b).ok()
}

/// The decimal digits of `n`.
pub fn decimal_digits(n: usize) -> (d: Vec<u8>)
    ensures
        d@ == decimal(n as nat),
{
    let mut v: usize = n;
    let mut acc: Vec<u8> = Vec::new();
    while v >= 10
        invariant
            decimal(n as nat) == decimal(v as nat) + acc@,
        decreases v,
    {
        let digit = (48 + v % 10) as u8;
        proof {
            assert(decimal(v as nat) == decimal((v / 10) as nat).push(digit));
            assert(decimal((v / 10) as nat).push(digit) + acc@ =~= decimal((v / 10) as nat) + seq![digit].add(acc@));
        }
        acc.insert(0, digit);
        proof {
            assert(acc@ =~= seq![digit].add(old_acc_tail(acc@)));
        }
        v = v / 10;
    }
    let digit = (48 + v) as u8;
    acc.insert(0, digit);
    proof {
        assert(acc@ =~= decimal(v as nat) + acc@.subrange(1, acc@.len() as int));
    }
    acc
}

spec fn old_acc_tail(s: Seq<u8>) -> Seq<u8> {
    s.subrange(1, s.len() as int)
}

/// Writes `n` in decimal at the front of `buf` and hands out the digits as a
/// string; `None`, with `buf` untouched, when they do not fit.
pub fn usize_to_str<'a>(n: usize, buf: &'a mut [u8]) -> (r: Option<&'a str>)
    ensures
        decimal(n as nat).len() <= old(buf)@.len() ==> r.is_some() && r.unwrap().spec_bytes() == decimal(n as nat)
            && final(buf)@ == decimal(n as nat) + old(buf)@.subrange(decimal(n as nat).len() as int, old(buf)@.len() as int),
        decimal(n as nat).len() > old(buf)@.len() ==> r.is_none() && final(buf)@ == old(buf)@,
{
    let digits = decimal_digits(n);
    if digits.len() > buf.len() {
        return None;
    }
    let mut i: usize = 0;
    while i < digits.len()
        invariant
            digits@ == decimal(n as nat),
            digits@.len() <= buf@.len(),
            buf@.len() == old(buf)@.len(),
            i <= digits@.len(),
            buf@.subrange(0, i as int) == digits@.subrange(0, i as int),
            buf@.subrange(digits@.len() as int, buf@.len() as int) == old(buf)@.subrange(digits@.len() as int, old(buf)@.len() as int),
        decreases digits@.len() - i,
    {
        buf[i] = digits[i];
        i = i + 1;
        proof {
            assert(buf@.subrange(0, i as int) =~= digits@.subrange(0, i as int));
            assert(buf@.subrange(digits@.len() as int, buf@.len() as int) =~= old(buf)@.subrange(digits@.len() as int, old(buf)@.len() as int));
        }
    }
    proof {
        lemma_decimal_roundtrip(n as nat);
        assert(buf@ =~= buf@.subrange(0, digits@.len() as int) + buf@.subrange(digits@.len() as int, buf@.len() as int));
        assert(digits@.subrange(0, digits@.len() as int) =~= digits@);
    }
    let len = digits.len();
    let written: &'a [u8] = &buf[0..len];
    proof {
        assert(written@ == decimal(n as nat));
        assert(ascii_bytes(written@));
    }
    str_from_utf8(written)
}

} // verus!

