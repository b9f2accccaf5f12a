//! Splitting an Annex-B byte stream into NAL units.

use vstd::prelude::*;
use vstd::slice::slice_subrange;

verus! {

/// How many zero bytes must directly precede a `0x01` byte for it to close a start code.
pub const NAL_MIN_0_COUNT: usize = 2;

/// A start code `00 00 01` occupies positions `p`, `p + 1` and `p + 2` of `s`.
pub open spec fn start_code_at(s: Seq<u8>, p: int) -> bool {
    &&& 0 <= p
    &&& p + 2 < s.len()
    &&& s[p] == 0
    &&& s[p + 1] == 0
    &&& s[p + 2] == 1
}

/// The positions below `n` at which a start code begins, in increasing order.
pub open spec fn start_codes_below(s: Seq<u8>, n: int) -> Seq<int>
    decreases n,
{
    if n <= 0 {
        Seq::empty()
    } else if start_code_at(s, n - 1) {
        start_codes_below(s, n - 1).push(n - 1)
    } else {
        start_codes_below(s, n - 1)
    }
}

/// All positions of `s` at which a start code begins, in increasing order.
pub open spec fn start_codes(s: Seq<u8>) -> Seq<int> {
    start_codes_below(s, s.len() as int)
}

/// Length of the run of zero bytes that ends directly before position `i`.
pub open spec fn zero_run(s: Seq<u8>, i: int) -> nat
    decreases i,
{
    if 0 < i <= s.len() && s[i - 1] == 0 {
        1 + zero_run(s, i - 1)
    } else {
        0
    }
}

/// Position of the start code number `nth` (counted from zero) of `stream`,
/// or `None` when the stream holds no more than `nth` start codes.
pub fn nth_nal_index(stream: &[u8], nth: usize) -> (r: Option<usize>)
    ensures
        match r {
            Some(p) => nth < start_codes(stream@).len() && p == start_codes(stream@)[nth as int],
            None => start_codes(stream@).len() <= nth,
        },
{
    let mut count_0: usize = 0;
    let mut n: usize = 0;
    let mut i: usize = 0;
    while i < stream.len()
        invariant
            i <= stream.len(),
            count_0 == zero_run(stream@, i as int),
            count_0 <= i,
            n <= nth,
            n == start_codes_below(stream@, i - 2).len(),
        decreases stream.len() - i,
    {
        let byte = stream[i];
        proof {
            reveal_with_fuel(zero_run, 3);
            reveal_with_fuel(start_codes_below, 2);
        }
        if byte == 0 {
            count_0 += 1;
        } else if byte == 1 && count_0 >= NAL_MIN_0_COUNT {
            assert(start_code_at(stream@, i - 2));
            if n == nth {
                proof {
                    lemma_below_is_prefix(stream@, i - 1, stream@.len() as int);
                    assert(start_codes_below(stream@, i - 1)[n as int] == i - 2);
                }
                return Some(i - NAL_MIN_0_COUNT);
            }
            count_0 = 0;
            n += 1;
        } else {
            count_0 = 0;
        }
        i += 1;
    }
    proof {
        reveal_with_fuel(start_codes_below, 3);
    }
    None
}

/// Bounds `(start, end)` of the units of `s`, in stream order: a unit runs from
/// its start code up to the next start code, the last one to the end of `s`.
pub open spec fn unit_bounds(s: Seq<u8>) -> Seq<(int, int)> {
    let codes = start_codes(s);
    Seq::new(
        codes.len(),
        |k: int|
            (
                codes[k],
                if k + 1 < codes.len() {
                    codes[k + 1]
                } else {
                    s.len() as int
                },
            ),
    )
}

/// One NAL unit: a view of the bytes `start .. end` of the stream it was found in,
/// start code included.
pub struct NalUnit<'a> {
    /// Position of the first byte of the unit's start code.
    pub start: usize,
    /// Position just behind the unit's last byte.
    pub end: usize,
    /// The bytes of the unit.
    pub bytes: &'a [u8],
}

/// The units of a stream that have not been handed out yet.
pub struct NalUnits<'a> {
    stream: &'a [u8],
    pos: usize,
}

impl<'a> NalUnits<'a> {
    #[verifier::type_invariant]
    spec fn inv(self) -> bool {
        self.pos <= self.stream@.len()
    }

    /// The stream that is being split.
    pub closed spec fn stream(&self) -> Seq<u8> {
        self.stream@
    }

    /// Bounds of the units still to come, as positions in the whole stream.
    pub closed spec fn pending(&self) -> Seq<(int, int)> {
        let pos = self.pos as int;
        unit_bounds(self.stream@.skip(pos)).map_values(|b: (int, int)| (b.0 + pos, b.1 + pos))
    }

    /// Hands out the next unit, or `None` when no start code is left.
    pub fn next(&mut self) -> (r: Option<NalUnit<'a>>)
        ensures
            final(self).stream() == old(self).stream(),
            match r {
                Some(unit) => {
                    &&& old(self).pending().len() > 0
                    &&& (unit.start as int, unit.end as int) == old(self).pending()[0]
                    &&& unit.bytes@ == old(self).stream().subrange(
                        unit.start as int,
                        unit.end as int,
                    )
                    &&& final(self).pending() == old(self).pending().skip(1)
                },
                None => old(self).pending().len() == 0 && final(self).pending() == old(
                    self,
                ).pending(),
            },
    {
        proof {
            use_type_invariant(&*self);
        }
        let stream: &'a [u8] = self.stream;
        let pos: usize = self.pos;
        let rest: &'a [u8] = slice_subrange(stream, pos, stream.len());
        assert(rest@ =~= stream@.skip(pos as int));
        let first = nth_nal_index(rest, 0);
        let next = nth_nal_index(rest, 1);
        proof {
            lemma_start_codes_sound(rest@, rest@.len() as int);
        }
        match (first, next) {
            (Some(f), Some(n)) => {
                proof {
                    lemma_units_after_next_start_code(rest@);
                    assert(rest@.skip(n as int) =~= stream@.skip(pos + n));
                }
                let bytes: &'a [u8] = slice_subrange(stream, pos + f, pos + n);
                self.pos = pos + n;
                proof {
                    let tail = unit_bounds(rest@.skip(n as int));
                    let moved = tail.map_values(|b: (int, int)| (b.0 + n, b.1 + n));
                    assert(moved == unit_bounds(rest@).skip(1));
                    assert(self.stream@.skip(self.pos as int) == rest@.skip(n as int));
                    assert(self.pending().len() == tail.len() == moved.len());
                    assert forall|k: int| 0 <= k < self.pending().len() implies self.pending()[k]
                        == old(self).pending().skip(1)[k] by {
                        assert(moved[k] == unit_bounds(rest@)[k + 1]);
                    }
                    assert(self.pending() =~= old(self).pending().skip(1));
                }
                Some(NalUnit { start: pos + f, end: pos + n, bytes })
            },
            (Some(f), None) => {
                proof {
                    lemma_no_units_after_last_start_code(rest@);
                    assert(rest@.skip(f + 2) =~= stream@.skip(pos + f + 2));
                }
                let bytes: &'a [u8] = slice_subrange(stream, pos + f, stream.len());
                self.pos = pos + f + NAL_MIN_0_COUNT;
                assert(self.pending() =~= old(self).pending().skip(1));
                Some(NalUnit { start: pos + f, end: stream.len(), bytes })
            },
            _ => None,
        }
    }
}

/// The units of `stream`, in stream order, ready to be handed out one by one.
/// No byte is copied.
pub fn nal_units<'a>(stream: &'a [u8]) -> (units: NalUnits<'a>)
    ensures
        units.stream() == stream@,
        units.pending() == unit_bounds(stream@),
{
    let units = NalUnits { stream, pos: 0 };
    assert(stream@.skip(0) =~= stream@);
    assert(units.pending() =~= unit_bounds(stream@));
    units
}

/// Behind the second start code of a stream lie all its units but the first,
/// moved back by the position of that start code.
pub proof fn lemma_units_after_next_start_code(s: Seq<u8>)
    requires
        start_codes(s).len() >= 2,
    ensures
        0 <= start_codes(s)[1] <= s.len(),
        unit_bounds(s.skip(start_codes(s)[1])).map_values(
            |b: (int, int)| (b.0 + start_codes(s)[1], b.1 + start_codes(s)[1]),
        ) == unit_bounds(s).skip(1),
{
    let codes = start_codes(s);
    let n = codes[1];
    let len = s.len() as int;
    lemma_start_codes_sound(s, len);
    lemma_start_codes_before(s, 1);
    lemma_start_codes_split(s, n, len);
    let tail_codes = start_codes(s.skip(n));
    assert(codes =~= codes.take(1) + tail_codes.map_values(|p: int| p + n));
    assert(tail_codes.len() == codes.len() - 1);
    assert forall|k: int| 0 <= k < tail_codes.len() implies tail_codes[k] + n == codes[k + 1] by {
        assert(tail_codes.map_values(|p: int| p + n)[k] == codes[k + 1]);
    }
    assert(unit_bounds(s.skip(n)).map_values(|b: (int, int)| (b.0 + n, b.1 + n)) =~= unit_bounds(
        s,
    ).skip(1));
}

/// Two bytes into the only start code of a stream, no unit is left.
pub proof fn lemma_no_units_after_last_start_code(s: Seq<u8>)
    requires
        start_codes(s).len() == 1,
    ensures
        0 <= start_codes(s)[0] + 2 <= s.len(),
        unit_bounds(s.skip(start_codes(s)[0] + 2)).len() == 0,
{
    let codes = start_codes(s);
    let f = codes[0];
    let len = s.len() as int;
    lemma_start_codes_sound(s, len);
    lemma_start_codes_complete(s, f + 2, f);
    lemma_start_codes_split(s, f + 2, len);
}

/// A stream without a start code has no units.
pub proof fn lemma_no_start_code_no_units(s: Seq<u8>)
    requires
        forall|p: int| !start_code_at(s, p),
    ensures
        unit_bounds(s) == Seq::<(int, int)>::empty(),
{
    lemma_start_codes_sound(s, s.len() as int);
    if start_codes(s).len() > 0 {
        assert(start_code_at(s, start_codes(s)[0]));
    }
    assert(unit_bounds(s) =~= Seq::<(int, int)>::empty());
}

/// A stream whose only start code begins at `p` has exactly one unit, and that
/// unit runs from `p` to the end of the stream.
pub proof fn lemma_one_start_code_one_unit(s: Seq<u8>, p: int)
    requires
        start_code_at(s, p),
        forall|q: int| start_code_at(s, q) ==> q == p,
    ensures
        unit_bounds(s) == seq![(p, s.len() as int)],
{
    let codes = start_codes(s);
    lemma_start_codes_sound(s, s.len() as int);
    lemma_start_codes_complete(s, s.len() as int, p);
    assert(start_code_at(s, codes[0]));
    if codes.len() > 1 {
        assert(start_code_at(s, codes[1]));
        assert(codes[0] < codes[1]);
    }
    assert(unit_bounds(s) =~= seq![(p, s.len() as int)]);
}

/// The units lie end to end in stream order: the first begins at the first
/// start code, each ends where the next begins, the last ends with the stream,
/// and each begins with a start code. Every start code begins a unit.
pub proof fn lemma_units_cover_stream(s: Seq<u8>)
    ensures
        forall|k: int|
            0 <= k < unit_bounds(s).len() ==> {
                &&& start_code_at(s, (#[trigger] unit_bounds(s)[k]).0)
                &&& unit_bounds(s)[k].0 + 3 <= unit_bounds(s)[k].1 <= s.len()
                &&& unit_bounds(s)[k].1 == if k + 1 < unit_bounds(s).len() {
                    unit_bounds(s)[k + 1].0
                } else {
                    s.len() as int
                }
            },
        forall|p: int| #[trigger]
            start_code_at(s, p) ==> exists|k: int|
                0 <= k < unit_bounds(s).len() && (#[trigger] unit_bounds(s)[k]).0 == p,
        forall|p: int| #[trigger]
            start_code_at(s, p) ==> unit_bounds(s).len() > 0 && unit_bounds(s)[0].0 <= p,
{
    let codes = start_codes(s);
    let bounds = unit_bounds(s);
    lemma_start_codes_sound(s, s.len() as int);
    assert forall|k: int| 0 <= k < bounds.len() implies start_code_at(s, (#[trigger] bounds[k]).0)
        && bounds[k].0 + 3 <= bounds[k].1 <= s.len() && bounds[k].1 == if k + 1 < bounds.len() {
        bounds[k + 1].0
    } else {
        s.len() as int
    } by {
        assert(start_code_at(s, codes[k]));
        if k + 1 < codes.len() {
            assert(start_code_at(s, codes[k + 1]));
            assert(codes[k] < codes[k + 1]);
        }
    }
    assert forall|p: int| #[trigger] start_code_at(s, p) implies (exists|k: int|
        0 <= k < bounds.len() && (#[trigger] bounds[k]).0 == p) && bounds.len() > 0 && bounds[0].0
        <= p by {
        lemma_start_codes_complete(s, s.len() as int, p);
        let k = choose|k: int| 0 <= k < codes.len() && codes[k] == p;
        assert(bounds[k].0 == p);
        if k > 0 {
            assert(codes[0] < codes[k]);
        }
    }
}

/// The start codes below `m` are the first ones of those below any `n >= m`.
pub proof fn lemma_below_is_prefix(s: Seq<u8>, m: int, n: int)
    requires
        m <= n,
    ensures
        start_codes_below(s, m).len() <= start_codes_below(s, n).len(),
        start_codes_below(s, m) == start_codes_below(s, n).take(
            start_codes_below(s, m).len() as int,
        ),
    decreases n - m,
{
    if m < n {
        lemma_below_is_prefix(s, m, n - 1);
        assert(start_codes_below(s, m) =~= start_codes_below(s, n).take(
            start_codes_below(s, m).len() as int,
        ));
    } else {
        assert(start_codes_below(s, m) =~= start_codes_below(s, n).take(
            start_codes_below(s, m).len() as int,
        ));
    }
}

/// Every listed position holds a start code and lies below `n`, and the list
/// is strictly increasing.
pub proof fn lemma_start_codes_sound(s: Seq<u8>, n: int)
    ensures
        forall|k: int|
            0 <= k < start_codes_below(s, n).len() ==> {
                &&& #[trigger] start_codes_below(s, n)[k] < n
                &&& start_code_at(s, start_codes_below(s, n)[k])
            },
        forall|j: int, k: int|
            0 <= j < k < start_codes_below(s, n).len() ==> #[trigger] start_codes_below(s, n)[j]
                < #[trigger] start_codes_below(s, n)[k],
    decreases n,
{
    if n > 0 {
        lemma_start_codes_sound(s, n - 1);
        let earlier = start_codes_below(s, n - 1);
        let codes = start_codes_below(s, n);
        assert forall|k: int| 0 <= k < codes.len() implies #[trigger] codes[k] < n
            && start_code_at(s, codes[k]) by {
            if k < earlier.len() {
                assert(codes[k] == earlier[k]);
            }
        }
        assert forall|j: int, k: int| 0 <= j < k < codes.len() implies #[trigger] codes[j]
            < #[trigger] codes[k] by {
            assert(codes[j] == earlier[j]);
            if k < earlier.len() {
                assert(codes[k] == earlier[k]);
            }
        }
    }
}

/// Every start code below `n` is listed.
pub proof fn lemma_start_codes_complete(s: Seq<u8>, n: int, p: int)
    requires
        start_code_at(s, p),
        p < n,
    ensures
        start_codes_below(s, n).contains(p),
    decreases n,
{
    if p == n - 1 {
        assert(start_codes_below(s, n).last() == p);
    } else {
        lemma_start_codes_complete(s, n - 1, p);
        let earlier = start_codes_below(s, n - 1);
        let k = choose|k: int| 0 <= k < earlier.len() && earlier[k] == p;
        assert(start_codes_below(s, n)[k] == p);
    }
}

/// The start codes of a stream are those below `m`, followed by those of the
/// stream without its first `m` bytes, moved back by `m`.
pub proof fn lemma_start_codes_split(s: Seq<u8>, m: int, n: int)
    requires
        0 <= m <= n <= s.len(),
    ensures
        start_codes_below(s, n) == start_codes_below(s, m) + start_codes_below(
            s.skip(m),
            n - m,
        ).map_values(|p: int| p + m),
    decreases n - m,
{
    let tail = s.skip(m);
    if m < n {
        lemma_start_codes_split(s, m, n - 1);
        assert(start_code_at(s, n - 1) == start_code_at(tail, n - 1 - m));
    }
    assert(start_codes_below(s, n) =~= start_codes_below(s, m) + start_codes_below(
        tail,
        n - m,
    ).map_values(|p: int| p + m));
}

/// The start codes below start code number `k` are the `k` that come before it.
pub proof fn lemma_start_codes_before(s: Seq<u8>, k: int)
    requires
        0 <= k < start_codes(s).len(),
    ensures
        start_codes_below(s, start_codes(s)[k]) == start_codes(s).take(k),
{
    let codes = start_codes(s);
    let p = codes[k];
    let n = s.len() as int;
    lemma_start_codes_sound(s, n);
    lemma_start_codes_sound(s, p);
    lemma_below_is_prefix(s, p, n);
    lemma_below_is_prefix(s, p + 1, n);
    let before = start_codes_below(s, p);
    assert(start_codes_below(s, p + 1) == before.push(p));
    assert(start_codes_below(s, p + 1)[before.len() as int] == p);
    assert(codes[before.len() as int] == p);
    if before.len() < k {
        assert(codes[before.len() as int] < codes[k]);
    }
    if before.len() > k {
        assert(codes[k] < codes[before.len() as int]);
    }
}

} // verus!
