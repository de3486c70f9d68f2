use vstd::prelude::*;
use vstd::bytes::*;
use vstd::slice::{slice_subrange, slice_to_vec};
use vstd::utf8::{decode_utf8, encode_utf8, valid_utf8};

verus! {

/// `w` occurs in `b` at offset `pos`.
pub open spec fn starts_with(b: Seq<u8>, pos: int, w: Seq<u8>) -> bool {
    0 <= pos && pos + w.len() <= b.len() && b.subrange(pos, pos + w.len()) == w
}

/// Splitting an occurrence of `w1 + w2` into an occurrence of each part.
pub proof fn lemma_starts_with_concat(b: Seq<u8>, pos: int, w1: Seq<u8>, w2: Seq<u8>)
    ensures
        starts_with(b, pos, w1 + w2) <==> (starts_with(b, pos, w1) && starts_with(
            b,
            pos + w1.len(),
            w2,
        )),
{
    if starts_with(b, pos, w1 + w2) {
        let s = b.subrange(pos, pos + w1.len() + w2.len());
        assert(s == w1 + w2);
        assert forall|i: int| 0 <= i < w1.len() implies b.subrange(pos, pos + w1.len())[i]
            == w1[i] by {
            assert(s[i] == (w1 + w2)[i]);
        }
        assert(b.subrange(pos, pos + w1.len()) =~= w1);
        assert forall|i: int| 0 <= i < w2.len() implies b.subrange(
            pos + w1.len(),
            pos + w1.len() + w2.len(),
        )[i] == w2[i] by {
            assert(s[i + w1.len()] == (w1 + w2)[i + w1.len()]);
        }
        assert(b.subrange(pos + w1.len(), pos + w1.len() + w2.len()) =~= w2);
    }
    if starts_with(b, pos, w1) && starts_with(b, pos + w1.len(), w2) {
        assert(b.subrange(pos, pos + w1.len() + w2.len()) =~= b.subrange(pos, pos + w1.len())
            + b.subrange(pos + w1.len(), pos + w1.len() + w2.len()));
    }
}

/// Joining two adjacent ranges of `b`.
pub proof fn lemma_subrange_join(b: Seq<u8>, i: int, j: int, k: int)
    requires
        0 <= i <= j <= k <= b.len(),
    ensures
        b.subrange(i, k) == b.subrange(i, j) + b.subrange(j, k),
{
    assert(b.subrange(i, k) =~= b.subrange(i, j) + b.subrange(j, k));
}

/// A value with a binary wire form: `wire` is its encoding, `same` says that two values
/// agree field by field (text compared by content), and `valid` is the well-formedness
/// that decoding checks.
pub trait Wire: Sized {
    spec fn wire(&self) -> Seq<u8>;

    spec fn same(&self, o: &Self) -> bool;

    spec fn valid(&self) -> bool;

    /// Appends the encoding of `self` to `out`.
    fn put(&self, out: &mut Vec<u8>)
        ensures
            final(out)@ == old(out)@ + self.wire(),
    ;

    /// Encodings are prefix-free and determine the value: two valid values whose
    /// encodings both occur at `pos` of `b` agree, and so do their encodings.
    proof fn lemma_unique(x: &Self, y: &Self, b: Seq<u8>, pos: int)
        requires
            x.valid(),
            y.valid(),
            starts_with(b, pos, x.wire()),
            starts_with(b, pos, y.wire()),
        ensures
            x.same(y),
            x.wire() == y.wire(),
    ;

    /// Reads one value at offset `pos` of `b`: the value and the offset just past it.
    fn get(b: &[u8], pos: usize) -> (r: Option<(Self, usize)>)
        requires
            pos <= b@.len(),
        ensures
            r matches Some((y, p)) ==> y.valid() && pos <= p <= b@.len() && b@.subrange(
                pos as int,
                p as int,
            ) == y.wire(),
            forall|x: Self|
                x.valid() && starts_with(b@, pos as int, #[trigger] x.wire()) ==> (r matches Some(
                    (y, p),
                ) && y.same(&x) && p == pos + x.wire().len()),
    ;
}

fn put_bytes(out: &mut Vec<u8>, mut v: Vec<u8>)
    ensures
        final(out)@ == old(out)@ + v@,
{
    out.append(&mut v);
}

impl Wire for u8 {
    open spec fn wire(&self) -> Seq<u8> {
        seq![*self]
    }

    open spec fn same(&self, o: &u8) -> bool {
        *self == *o
    }

    open spec fn valid(&self) -> bool {
        true
    }

    proof fn lemma_unique(x: &u8, y: &u8, b: Seq<u8>, pos: int) {
        assert(x.wire() == b.subrange(pos, pos + 1));
        assert(x.wire()[0] == *x);
        assert(y.wire()[0] == *y);
    }

    fn put(&self, out: &mut Vec<u8>) {
        out.push(*self);
        proof {
            assert(final(out)@ =~= old(out)@ + self.wire());
        }
    }

    fn get(b: &[u8], pos: usize) -> (r: Option<(u8, usize)>) {
        if pos < b.len() {
            let v = b[pos];
            assert(b@.subrange(pos as int, pos + 1) =~= v.wire());
            proof {
                assert forall|x: u8| x.valid() && starts_with(b@, pos as int, #[trigger] x.wire()) implies x == v by {
                    assert(b@.subrange(pos as int, pos + 1)[0] == b@[pos as int]);
                    assert(x.wire()[0] == x);
                }
            }
            Some((v, pos + 1))
        } else {
            proof {
                assert forall|x: u8| x.valid() && starts_with(b@, pos as int, #[trigger] x.wire()) implies false by {
                    assert(x.wire().len() == 1);
                }
            }
            None
        }
    }
}

impl Wire for bool {
    open spec fn wire(&self) -> Seq<u8> {
        if *self {
            seq![1u8]
        } else {
            seq![0u8]
        }
    }

    open spec fn same(&self, o: &bool) -> bool {
        *self == *o
    }

    open spec fn valid(&self) -> bool {
        true
    }

    proof fn lemma_unique(x: &bool, y: &bool, b: Seq<u8>, pos: int) {
        assert(x.wire() == b.subrange(pos, pos + 1));
        assert(x.wire()[0] == y.wire()[0]);
    }

    fn put(&self, out: &mut Vec<u8>) {
        if *self {
            out.push(1u8);
        } else {
            out.push(0u8);
        }
        proof {
            assert(final(out)@ =~= old(out)@ + self.wire());
        }
    }

    fn get(b: &[u8], pos: usize) -> (r: Option<(bool, usize)>) {
        if pos < b.len() {
            let v = b[pos];
            proof {
                assert forall|x: bool| x.valid() && starts_with(b@, pos as int, #[trigger] x.wire()) implies (x.wire()[0] == v && (v == 0 ==> !x) && (v == 1 ==> x)) by {
                    assert(b@.subrange(pos as int, pos + 1)[0] == b@[pos as int]);
                }
            }
            if v == 0 {
                assert(b@.subrange(pos as int, pos + 1) =~= false.wire());
                Some((false, pos + 1))
            } else if v == 1 {
                assert(b@.subrange(pos as int, pos + 1) =~= true.wire());
                Some((true, pos + 1))
            } else {
                proof {
                    assert forall|x: bool| x.valid() && starts_with(b@, pos as int, #[trigger] x.wire()) implies false by {
                        assert(b@.subrange(pos as int, pos + 1)[0] == b@[pos as int]);
                    }
                }
                None
            }
        } else {
            proof {
                assert forall|x: bool| x.valid() && starts_with(b@, pos as int, #[trigger] x.wire()) implies false by {
                    assert(x.wire().len() == 1);
                }
            }
            None
        }
    }
}

impl Wire for u16 {
    open spec fn wire(&self) -> Seq<u8> {
        spec_u16_to_le_bytes(*self)
    }

    open spec fn same(&self, o: &u16) -> bool {
        *self == *o
    }

    open spec fn valid(&self) -> bool {
        true
    }

    proof fn lemma_unique(x: &u16, y: &u16, b: Seq<u8>, pos: int) {
        lemma_auto_spec_u16_to_from_le_bytes();
        assert(spec_u16_to_le_bytes(*x).len() == 2);
        assert(spec_u16_to_le_bytes(*y).len() == 2);
        assert(x.wire() == y.wire());
        assert(spec_u16_from_le_bytes(spec_u16_to_le_bytes(*x)) == *x);
        assert(spec_u16_from_le_bytes(spec_u16_to_le_bytes(*y)) == *y);
    }

    fn put(&self, out: &mut Vec<u8>) {
        put_bytes(out, u16_to_le_bytes(*self));
    }

    fn get(b: &[u8], pos: usize) -> (r: Option<(u16, usize)>) {
        proof {
            lemma_auto_spec_u16_to_from_le_bytes();
        }
        if b.len() - pos >= 2 {
            let s = slice_subrange(b, pos, pos + 2);
            let v = u16_from_le_bytes(s);
            proof {
                assert(s@.len() == 2);
                assert(spec_u16_to_le_bytes(spec_u16_from_le_bytes(s@)) == s@);
                assert forall|x: u16| x.valid() && starts_with(b@, pos as int, #[trigger] x.wire()) implies x == v by {
                    assert(spec_u16_to_le_bytes(x).len() == 2);
                    assert(s@ == spec_u16_to_le_bytes(x));
                }
            }
            Some((v, pos + 2))
        } else {
            proof {
                assert forall|x: u16| x.valid() && starts_with(b@, pos as int, #[trigger] x.wire()) implies false by {
                    assert(spec_u16_to_le_bytes(x).len() == 2);
                }
            }
            None
        }
    }
}

impl Wire for u32 {
    open spec fn wire(&self) -> Seq<u8> {
        spec_u32_to_le_bytes(*self)
    }

    open spec fn same(&self, o: &u32) -> bool {
        *self == *o
    }

    open spec fn valid(&self) -> bool {
        true
    }

    proof fn lemma_unique(x: &u32, y: &u32, b: Seq<u8>, pos: int) {
        lemma_auto_spec_u32_to_from_le_bytes();
        assert(spec_u32_to_le_bytes(*x).len() == 4);
        assert(spec_u32_to_le_bytes(*y).len() == 4);
        assert(x.wire() == y.wire());
        assert(spec_u32_from_le_bytes(spec_u32_to_le_bytes(*x)) == *x);
        assert(spec_u32_from_le_bytes(spec_u32_to_le_bytes(*y)) == *y);
    }

    fn put(&self, out: &mut Vec<u8>) {
        put_bytes(out, u32_to_le_bytes(*self));
    }

    fn get(b: &[u8], pos: usize) -> (r: Option<(u32, usize)>) {
        proof {
            lemma_auto_spec_u32_to_from_le_bytes();
        }
        if b.len() - pos >= 4 {
            let s = slice_subrange(b, pos, pos + 4);
            let v = u32_from_le_bytes(s);
            proof {
                assert(s@.len() == 4);
                assert(spec_u32_to_le_bytes(spec_u32_from_le_bytes(s@)) == s@);
                assert forall|x: u32| x.valid() && starts_with(b@, pos as int, #[trigger] x.wire()) implies x == v by {
                    assert(spec_u32_to_le_bytes(x).len() == 4);
                    assert(s@ == spec_u32_to_le_bytes(x));
                }
            }
            Some((v, pos + 4))
        } else {
            proof {
                assert forall|x: u32| x.valid() && starts_with(b@, pos as int, #[trigger] x.wire()) implies false by {
                    assert(spec_u32_to_le_bytes(x).len() == 4);
                }
            }
            None
        }
    }
}

impl Wire for u64 {
    open spec fn wire(&self) -> Seq<u8> {
        spec_u64_to_le_bytes(*self)
    }

    open spec fn same(&self, o: &u64) -> bool {
        *self == *o
    }

    open spec fn valid(&self) -> bool {
        true
    }

    proof fn lemma_unique(x: &u64, y: &u64, b: Seq<u8>, pos: int) {
        lemma_auto_spec_u64_to_from_le_bytes();
        assert(spec_u64_to_le_bytes(*x).len() == 8);
        assert(spec_u64_to_le_bytes(*y).len() == 8);
        assert(x.wire() == y.wire());
        assert(spec_u64_from_le_bytes(spec_u64_to_le_bytes(*x)) == *x);
        assert(spec_u64_from_le_bytes(spec_u64_to_le_bytes(*y)) == *y);
    }

    fn put(&self, out: &mut Vec<u8>) {
        put_bytes(out, u64_to_le_bytes(*self));
    }

    fn get(b: &[u8], pos: usize) -> (r: Option<(u64, usize)>) {
        proof {
            lemma_auto_spec_u64_to_from_le_bytes();
        }
        if b.len() - pos >= 8 {
            let s = slice_subrange(b, pos, pos + 8);
            let v = u64_from_le_bytes(s);
            proof {
                assert(s@.len() == 8);
                assert(spec_u64_to_le_bytes(spec_u64_from_le_bytes(s@)) == s@);
                assert forall|x: u64| x.valid() && starts_with(b@, pos as int, #[trigger] x.wire()) implies x == v by {
                    assert(spec_u64_to_le_bytes(x).len() == 8);
                    assert(s@ == spec_u64_to_le_bytes(x));
                }
            }
            Some((v, pos + 8))
        } else {
            proof {
                assert forall|x: u64| x.valid() && starts_with(b@, pos as int, #[trigger] x.wire()) implies false by {
                    assert(spec_u64_to_le_bytes(x).len() == 8);
                }
            }
            None
        }
    }
}

impl Wire for i64 {
    open spec fn wire(&self) -> Seq<u8> {
        spec_u64_to_le_bytes(*self as u64)
    }

    open spec fn same(&self, o: &i64) -> bool {
        *self == *o
    }

    open spec fn valid(&self) -> bool {
        true
    }

    proof fn lemma_unique(x: &i64, y: &i64, b: Seq<u8>, pos: int) {
        let (ux, uy) = (*x as u64, *y as u64);
        u64::lemma_unique(&ux, &uy, b, pos);
        assert(((ux as i64) == *x) && ((uy as i64) == *y)) by (bit_vector)
            requires
                ux == *x as u64,
                uy == *y as u64,
        ;
    }

    fn put(&self, out: &mut Vec<u8>) {
        put_bytes(out, u64_to_le_bytes(*self as u64));
    }

    fn get(b: &[u8], pos: usize) -> (r: Option<(i64, usize)>) {
        proof {
            lemma_auto_spec_u64_to_from_le_bytes();
        }
        match u64::get(b, pos) {
            Some((u, p)) => {
                let v = u as i64;
                assert((v as u64) == u) by (bit_vector)
                    requires
                        v == u as i64,
                ;
                proof {
                    assert forall|x: i64| x.valid() && starts_with(b@, pos as int, #[trigger] x.wire()) implies x == v by {
                        assert((x as u64).wire() == x.wire());
                        assert(((x as u64) as i64) == x) by (bit_vector);
                    }
                }
                Some((v, p))
            },
            None => {
                proof {
                    assert forall|x: i64| x.valid() && starts_with(b@, pos as int, #[trigger] x.wire()) implies false by {
                        assert((x as u64).wire() == x.wire());
                    }
                }
                None
            },
        }
    }
}

impl Wire for usize {
    open spec fn wire(&self) -> Seq<u8> {
        spec_u64_to_le_bytes(*self as u64)
    }

    open spec fn same(&self, o: &usize) -> bool {
        *self == *o
    }

    open spec fn valid(&self) -> bool {
        true
    }

    proof fn lemma_unique(x: &usize, y: &usize, b: Seq<u8>, pos: int) {
        let (ux, uy) = (*x as u64, *y as u64);
        u64::lemma_unique(&ux, &uy, b, pos);
    }

    fn put(&self, out: &mut Vec<u8>) {
        put_bytes(out, u64_to_le_bytes(*self as u64));
    }

    fn get(b: &[u8], pos: usize) -> (r: Option<(usize, usize)>) {
        match u64::get(b, pos) {
            Some((u, p)) => {
                if u <= usize::MAX as u64 {
                    let v = u as usize;
                    proof {
                        assert forall|x: usize| x.valid() && starts_with(b@, pos as int, #[trigger] x.wire()) implies x == v by {
                            assert((x as u64).wire() == x.wire());
                        }
                    }
                    Some((v, p))
                } else {
                    proof {
                        assert forall|x: usize| x.valid() && starts_with(b@, pos as int, #[trigger] x.wire()) implies false by {
                            assert((x as u64).wire() == x.wire());
                        }
                    }
                    None
                }
            },
            None => {
                proof {
                    assert forall|x: usize| x.valid() && starts_with(b@, pos as int, #[trigger] x.wire()) implies false by {
                        assert((x as u64).wire() == x.wire());
                    }
                }
                None
            },
        }
    }
}

/// Relies on `std::str::from_utf8`: it succeeds exactly on valid UTF-8 and yields the
/// text those bytes encode.
#[verifier::external_body]
fn utf8_to_string(b: &[u8]) -> (r: Option<String>)
    ensures
        r is Some <==> valid_utf8(b@),
        r matches Some(s) ==> s@ == decode_utf8(b@),
{
    match std::str::from_utf8(b) {
        Ok(s) => Some(s.to_string()),
        Err(_) => None,
    }
}

impl Wire for String {
    open spec fn wire(&self) -> Seq<u8> {
        spec_u64_to_le_bytes(encode_utf8(self@).len() as u64) + encode_utf8(self@)
    }

    open spec fn same(&self, o: &String) -> bool {
        self@ == o@
    }

    open spec fn valid(&self) -> bool {
        encode_utf8(self@).len() <= u64::MAX
    }

    proof fn lemma_unique(x: &String, y: &String, b: Seq<u8>, pos: int) {
        let ex = encode_utf8(x@);
        let ey = encode_utf8(y@);
        let (nx, ny) = (ex.len() as u64, ey.len() as u64);
        lemma_starts_with_concat(b, pos, spec_u64_to_le_bytes(nx), ex);
        lemma_starts_with_concat(b, pos, spec_u64_to_le_bytes(ny), ey);
        u64::lemma_unique(&nx, &ny, b, pos);
        lemma_auto_spec_u64_to_from_le_bytes();
        assert(spec_u64_to_le_bytes(nx).len() == 8);
        assert(ex == ey);
        vstd::utf8::encode_utf8_decode_utf8(x@);
        vstd::utf8::encode_utf8_decode_utf8(y@);
    }

    fn put(&self, out: &mut Vec<u8>) {
        let bytes = self.as_str().as_bytes();
        let n = bytes.len() as u64;
        n.put(out);
        put_bytes(out, slice_to_vec(bytes));
        proof {
            assert(final(out)@ =~= old(out)@ + self.wire());
        }
    }

    fn get(b: &[u8], pos: usize) -> (r: Option<(String, usize)>) {
        proof {
            lemma_auto_spec_u64_to_from_le_bytes();
        }
        let ghost bs = b@;
        match u64::get(b, pos) {
            None => {
                proof {
                    assert forall|x: String| x.valid() && starts_with(bs, pos as int, #[trigger] x.wire()) implies false by {
                        let e = encode_utf8(x@);
                        lemma_starts_with_concat(bs, pos as int, spec_u64_to_le_bytes(e.len() as u64), e);
                        let _ = (e.len() as u64).wire();
                    }
                }
                None
            },
            Some((n, p)) => {
                if n > (b.len() - p) as u64 {
                    proof {
                        assert forall|x: String| x.valid() && starts_with(bs, pos as int, #[trigger] x.wire()) implies false by {
                            let e = encode_utf8(x@);
                            lemma_starts_with_concat(bs, pos as int, spec_u64_to_le_bytes(e.len() as u64), e);
                            let _ = (e.len() as u64).wire();
                        }
                    }
                    return None;
                }
                let end = p + n as usize;
                let s = slice_subrange(b, p, end);
                match utf8_to_string(s) {
                    None => {
                        proof {
                            assert forall|x: String| x.valid() && starts_with(bs, pos as int, #[trigger] x.wire()) implies false by {
                                let e = encode_utf8(x@);
                                lemma_starts_with_concat(bs, pos as int, spec_u64_to_le_bytes(e.len() as u64), e);
                                let _ = (e.len() as u64).wire();
                                assert(s@ == e);
                                vstd::utf8::encode_utf8_valid_utf8(x@);
                            }
                        }
                        None
                    },
                    Some(t) => {
                        proof {
                            vstd::utf8::decode_utf8_encode_utf8(s@);
                            assert(encode_utf8(t@) == s@);
                            lemma_subrange_join(bs, pos as int, p as int, end as int);
                            assert forall|x: String| x.valid() && starts_with(bs, pos as int, #[trigger] x.wire()) implies t@ == x@ && end == pos + x.wire().len() by {
                                let e = encode_utf8(x@);
                                lemma_starts_with_concat(bs, pos as int, spec_u64_to_le_bytes(e.len() as u64), e);
                                let _ = (e.len() as u64).wire();
                                assert(s@ == e);
                                vstd::utf8::encode_utf8_decode_utf8(x@);
                            }
                        }
                        Some((t, end))
                    },
                }
            },
        }
    }
}


/// Concatenated encodings of a sequence of values.
pub open spec fn wires<T: Wire>(s: Seq<T>) -> Seq<u8>
    decreases s.len(),
{
    if s.len() == 0 {
        Seq::empty()
    } else {
        wires(s.drop_last()) + s.last().wire()
    }
}

pub open spec fn all_valid<T: Wire>(s: Seq<T>) -> bool {
    forall|i: int| 0 <= i < s.len() ==> #[trigger] s[i].valid()
}

pub open spec fn all_same<T: Wire>(s: Seq<T>, t: Seq<T>) -> bool {
    s.len() == t.len() && forall|i: int| 0 <= i < s.len() ==> #[trigger] s[i].same(&t[i])
}

proof fn lemma_wires_snoc<T: Wire>(s: Seq<T>, i: int)
    requires
        0 <= i < s.len(),
    ensures
        wires(s.subrange(0, i + 1)) == wires(s.subrange(0, i)) + s[i].wire(),
{
    assert(s.subrange(0, i + 1).drop_last() =~= s.subrange(0, i));
}

proof fn lemma_wires_push<T: Wire>(s: Seq<T>, y: T)
    ensures
        wires(s.push(y)) == wires(s) + y.wire(),
{
    assert(s.push(y).drop_last() =~= s);
}

proof fn lemma_wires_split<T: Wire>(s: Seq<T>, i: int)
    requires
        0 <= i <= s.len(),
    ensures
        wires(s) == wires(s.subrange(0, i)) + wires(s.subrange(i, s.len() as int)),
    decreases s.len(),
{
    if i == s.len() {
        assert(s.subrange(0, i) =~= s);
        assert(s.subrange(i, s.len() as int) =~= Seq::<T>::empty());
        assert(wires(s) + Seq::<u8>::empty() =~= wires(s));
    } else {
        let d = s.drop_last();
        lemma_wires_split(d, i);
        assert(d.subrange(0, i) =~= s.subrange(0, i));
        let t = s.subrange(i, s.len() as int);
        assert(t.drop_last() =~= d.subrange(i, d.len() as int));
        assert(t.last() == s.last());
        assert(wires(s) =~= wires(s.subrange(0, i)) + wires(t));
    }
}

/// The encoding of element `i` sits right after the encodings of the elements before it.
proof fn lemma_wires_at<T: Wire>(b: Seq<u8>, pos: int, s: Seq<T>, i: int)
    requires
        0 <= i < s.len(),
        starts_with(b, pos, wires(s)),
    ensures
        starts_with(b, pos + wires(s.subrange(0, i)).len(), s[i].wire()),
{
    lemma_wires_split(s, i + 1);
    lemma_wires_snoc(s, i);
    let a = wires(s.subrange(0, i));
    let c = wires(s.subrange(i + 1, s.len() as int));
    assert(wires(s) =~= a + (s[i].wire() + c));
    lemma_starts_with_concat(b, pos, a, s[i].wire() + c);
    lemma_starts_with_concat(b, pos + a.len(), s[i].wire(), c);
}

proof fn lemma_wires_unique<T: Wire>(xs: Seq<T>, ys: Seq<T>, b: Seq<u8>, pos: int, i: int)
    requires
        xs.len() == ys.len(),
        0 <= i <= xs.len(),
        all_valid(xs),
        all_valid(ys),
        starts_with(b, pos, wires(xs)),
        starts_with(b, pos, wires(ys)),
    ensures
        wires(xs.subrange(0, i)) == wires(ys.subrange(0, i)),
        forall|j: int| 0 <= j < i ==> #[trigger] xs[j].same(&ys[j]),
    decreases i,
{
    if i == 0 {
        assert(xs.subrange(0, 0) =~= Seq::<T>::empty());
        assert(ys.subrange(0, 0) =~= Seq::<T>::empty());
    } else {
        lemma_wires_unique(xs, ys, b, pos, i - 1);
        lemma_wires_at(b, pos, xs, i - 1);
        lemma_wires_at(b, pos, ys, i - 1);
        assert(xs[i - 1].valid());
        assert(ys[i - 1].valid());
        T::lemma_unique(&xs[i - 1], &ys[i - 1], b, pos + wires(xs.subrange(0, i - 1)).len());
        lemma_wires_snoc(xs, i - 1);
        lemma_wires_snoc(ys, i - 1);
    }
}

impl<T: Wire> Wire for Vec<T> {
    open spec fn wire(&self) -> Seq<u8> {
        spec_u64_to_le_bytes(self@.len() as u64) + wires(self@)
    }

    open spec fn same(&self, o: &Vec<T>) -> bool {
        all_same(self@, o@)
    }

    open spec fn valid(&self) -> bool {
        all_valid(self@) && self@.len() <= u64::MAX
    }

    proof fn lemma_unique(x: &Vec<T>, y: &Vec<T>, b: Seq<u8>, pos: int) {
        let (nx, ny) = (x@.len() as u64, y@.len() as u64);
        lemma_starts_with_concat(b, pos, spec_u64_to_le_bytes(nx), wires(x@));
        lemma_starts_with_concat(b, pos, spec_u64_to_le_bytes(ny), wires(y@));
        u64::lemma_unique(&nx, &ny, b, pos);
        lemma_auto_spec_u64_to_from_le_bytes();
        assert(spec_u64_to_le_bytes(nx).len() == 8);
        lemma_wires_unique(x@, y@, b, pos + 8, x@.len() as int);
        assert(x@.subrange(0, x@.len() as int) =~= x@);
        assert(y@.subrange(0, y@.len() as int) =~= y@);
    }

    fn put(&self, out: &mut Vec<u8>) {
        let n = self.len() as u64;
        n.put(out);
        let ghost start = out@;
        let mut i: usize = 0;
        while i < self.len()
            invariant
                i <= self@.len(),
                out@ == start + wires(self@.subrange(0, i as int)),
                start == old(out)@ + n.wire(),
                n == self@.len() as u64,
            decreases self@.len() - i,
        {
            proof {
                lemma_wires_snoc(self@, i as int);
            }
            self[i].put(out);
            i = i + 1;
        }
        proof {
            assert(self@.subrange(0, self@.len() as int) =~= self@);
            assert(out@ =~= old(out)@ + self.wire());
        }
    }

    fn get(b: &[u8], pos: usize) -> (r: Option<(Vec<T>, usize)>) {
        let ghost bs = b@;
        match u64::get(b, pos) {
            None => {
                proof {
                    assert forall|x: Vec<T>| x.valid() && starts_with(bs, pos as int, #[trigger] x.wire()) implies false by {
                        lemma_starts_with_concat(bs, pos as int, spec_u64_to_le_bytes(x@.len() as u64), wires(x@));
                        let _ = (x@.len() as u64).wire();
                    }
                }
                None
            },
            Some((n, p0)) => {
                proof {
                    lemma_auto_spec_u64_to_from_le_bytes();
                    assert forall|x: Vec<T>| x.valid() && starts_with(bs, pos as int, #[trigger] x.wire()) implies (x@.len() as u64 == n && starts_with(bs, p0 as int, wires(x@))) by {
                        lemma_starts_with_concat(bs, pos as int, spec_u64_to_le_bytes(x@.len() as u64), wires(x@));
                        let _ = (x@.len() as u64).wire();
                    }
                }
                let mut out: Vec<T> = Vec::new();
                let mut p = p0;
                let mut i: u64 = 0;
                while i < n
                    invariant
                        pos <= p0 <= p <= bs.len(),
                        b@ == bs,
                        out@.len() == i,
                        i <= n,
                        all_valid(out@),
                        bs.subrange(pos as int, p0 as int) == n.wire(),
                        bs.subrange(p0 as int, p as int) == wires(out@),
                        forall|x: Vec<T>| x.valid() && starts_with(bs, pos as int, #[trigger] x.wire()) ==> (
                            x@.len() as u64 == n && starts_with(bs, p0 as int, wires(x@))
                            && p == p0 + wires(x@.subrange(0, i as int)).len()
                            && forall|j: int| 0 <= j < i ==> #[trigger] out@[j].same(&x@[j])),
                    decreases n - i,
                {
                    match T::get(b, p) {
                        None => {
                            proof {
                                assert forall|x: Vec<T>| x.valid() && starts_with(bs, pos as int, #[trigger] x.wire()) implies false by {
                                    lemma_wires_at(bs, p0 as int, x@, i as int);
                                    assert(x@[i as int].valid());
                                }
                            }
                            return None;
                        },
                        Some((y, p2)) => {
                            proof {
                                lemma_subrange_join(bs, p0 as int, p as int, p2 as int);
                                lemma_wires_push(out@, y);
                                assert forall|x: Vec<T>| x.valid() && starts_with(bs, pos as int, #[trigger] x.wire()) implies (
                                    p2 == p0 + wires(x@.subrange(0, i + 1)).len()
                                    && y.same(&x@[i as int])) by {
                                    lemma_wires_at(bs, p0 as int, x@, i as int);
                                    lemma_wires_snoc(x@, i as int);
                                    assert(x@[i as int].valid());
                                }
                            }
                            let ghost prev = out@;
                            out.push(y);
                            p = p2;
                            i = i + 1;
                            proof {
                                assert forall|x: Vec<T>| x.valid() && starts_with(bs, pos as int, #[trigger] x.wire()) implies (
                                    forall|j: int| 0 <= j < i ==> #[trigger] out@[j].same(&x@[j])) by {
                                    assert forall|j: int| 0 <= j < i implies #[trigger] out@[j].same(&x@[j]) by {
                                        if j < i - 1 {
                                            assert(out@[j] == prev[j]);
                                        }
                                    }
                                }
                            }
                        },
                    }
                }
                proof {
                    lemma_subrange_join(bs, pos as int, p0 as int, p as int);
                    assert(out@.len() as u64 == n);
                    assert forall|x: Vec<T>| x.valid() && starts_with(bs, pos as int, #[trigger] x.wire()) implies (
                        all_same(out@, x@) && p == pos + x.wire().len()) by {
                        assert(x@.len() == x.len() as int);
                        assert(x@.len() == n as int);
                        assert(x@.subrange(0, x@.len() as int) =~= x@);
                    }
                }
                Some((out, p))
            },
        }
    }
}

impl<T: Wire> Wire for Option<T> {
    open spec fn wire(&self) -> Seq<u8> {
        match self {
            None => seq![0u8],
            Some(v) => seq![1u8] + v.wire(),
        }
    }

    open spec fn same(&self, o: &Option<T>) -> bool {
        match (self, o) {
            (None, None) => true,
            (Some(a), Some(c)) => a.same(c),
            _ => false,
        }
    }

    open spec fn valid(&self) -> bool {
        match self {
            None => true,
            Some(v) => v.valid(),
        }
    }

    proof fn lemma_unique(x: &Option<T>, y: &Option<T>, b: Seq<u8>, pos: int) {
        assert(x.wire()[0] == b[pos]) by {
            assert(b.subrange(pos, pos + x.wire().len())[0] == b[pos]);
        }
        assert(y.wire()[0] == b[pos]) by {
            assert(b.subrange(pos, pos + y.wire().len())[0] == b[pos]);
        }
        match (x, y) {
            (Some(a), Some(c)) => {
                lemma_starts_with_concat(b, pos, seq![1u8], a.wire());
                lemma_starts_with_concat(b, pos, seq![1u8], c.wire());
                T::lemma_unique(a, c, b, pos + 1);
            },
            _ => {},
        }
    }

    fn put(&self, out: &mut Vec<u8>) {
        match self {
            None => {
                out.push(0u8);
                proof {
                    assert(final(out)@ =~= old(out)@ + self.wire());
                }
            },
            Some(v) => {
                out.push(1u8);
                v.put(out);
                proof {
                    assert(final(out)@ =~= old(out)@ + self.wire());
                }
            },
        }
    }

    fn get(b: &[u8], pos: usize) -> (r: Option<(Option<T>, usize)>) {
        let ghost bs = b@;
        proof {
            assert forall|x: Option<T>| x.valid() && starts_with(bs, pos as int, #[trigger] x.wire()) implies (
                pos < bs.len() && (x is None ==> bs[pos as int] == 0) && (x matches Some(v) ==> bs[pos as int] == 1 && starts_with(bs, pos + 1, v.wire()))) by {
                assert(bs.subrange(pos as int, pos + 1)[0] == bs[pos as int]);
                if let Some(v) = x {
                    lemma_starts_with_concat(bs, pos as int, seq![1u8], v.wire());
                    assert(x.wire()[0] == 1);
                    assert(bs.subrange(pos as int, pos + x.wire().len())[0] == bs[pos as int]);
                } else {
                    assert(x.wire()[0] == 0);
                }
            }
        }
        if pos >= b.len() {
            return None;
        }
        let tag = b[pos];
        if tag == 0 {
            assert(bs.subrange(pos as int, pos + 1) =~= None::<T>.wire());
            Some((None, pos + 1))
        } else if tag == 1 {
            match T::get(b, pos + 1) {
                None => None,
                Some((v, p)) => {
                    proof {
                        lemma_subrange_join(bs, pos as int, pos + 1, p as int);
                        assert(bs.subrange(pos as int, pos + 1) =~= seq![1u8]);
                    }
                    Some((Some(v), p))
                },
            }
        } else {
            None
        }
    }
}

impl<A: Wire, B: Wire> Wire for (A, B) {
    open spec fn wire(&self) -> Seq<u8> {
        self.0.wire() + self.1.wire()
    }

    open spec fn same(&self, o: &(A, B)) -> bool {
        self.0.same(&o.0) && self.1.same(&o.1)
    }

    open spec fn valid(&self) -> bool {
        self.0.valid() && self.1.valid()
    }

    proof fn lemma_unique(x: &(A, B), y: &(A, B), b: Seq<u8>, pos: int) {
        lemma_starts_with_concat(b, pos, x.0.wire(), x.1.wire());
        lemma_starts_with_concat(b, pos, y.0.wire(), y.1.wire());
        A::lemma_unique(&x.0, &y.0, b, pos);
        B::lemma_unique(&x.1, &y.1, b, pos + x.0.wire().len());
    }

    fn put(&self, out: &mut Vec<u8>) {
        self.0.put(out);
        self.1.put(out);
        proof {
            assert(final(out)@ =~= old(out)@ + self.wire());
        }
    }

    fn get(b: &[u8], pos: usize) -> (r: Option<((A, B), usize)>) {
        let ghost bs = b@;
        proof {
            assert forall|x: (A, B)| x.valid() && starts_with(bs, pos as int, #[trigger] x.wire()) implies (
                starts_with(bs, pos as int, x.0.wire()) && starts_with(bs, pos + x.0.wire().len(), x.1.wire())) by {
                lemma_starts_with_concat(bs, pos as int, x.0.wire(), x.1.wire());
            }
        }
        let (a, p1) = match A::get(b, pos) {
            None => return None,
            Some(v) => v,
        };
        let (c, p2) = match B::get(b, p1) {
            None => return None,
            Some(v) => v,
        };
        proof {
            lemma_subrange_join(bs, pos as int, p1 as int, p2 as int);
        }
        Some(((a, c), p2))
    }
}

} // verus!
