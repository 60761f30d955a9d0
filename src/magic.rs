//! The lookahead buffer: it lets a detector look at the first bytes of a
//! stream and still hands every one of them, in order and once, to whatever
//! reads the stream afterwards.
use crate::format::resolved;
use crate::format::Format;
use crate::format::MAX_MAGIC_BYTES;
use crate::io_ops::fill_buf_of;
use crate::io_ops::invalid_data;
use crate::io_ops::is_interrupted;
use crate::io_ops::push_text;
use crate::io_ops::read_exact_from;
use crate::io_ops::read_from;
use crate::io_ops::read_to_end_of;
use crate::io_ops::read_to_string_of;
use crate::io_ops::utf8_text;
use std::io::BufRead;
use std::io::Error;
use std::io::Read;
use vstd::prelude::*;
use vstd::slice::slice_subrange;
use vstd::utf8::decode_utf8;
use vstd::utf8::valid_utf8;

verus! {

/// The smaller of `a` and `b`.
pub open spec fn min_of(a: int, b: int) -> int {
    if a < b {
        a
    } else {
        b
    }
}

/// A read-shaped call that began with `before` buffered, handed out `out` and
/// left `after` buffered kept the order of the stream: it handed out a prefix
/// of the buffered bytes, kept the rest, and only once nothing stayed buffered
/// did it add bytes fresh from the source.
pub open spec fn in_order(before: Seq<u8>, out: Seq<u8>, after: Seq<u8>) -> bool {
    let k = before.len() - after.len();
    &&& after.len() <= before.len()
    &&& k <= out.len()
    &&& out.subrange(0, k) == before.subrange(0, k)
    &&& after == before.subrange(k, before.len() as int)
    &&& out.len() > k ==> after.len() == 0
}

/// The bytes that such a call took from the source: those it handed out
/// beyond the buffered ones.
pub open spec fn drawn(before: Seq<u8>, out: Seq<u8>, after: Seq<u8>) -> Seq<u8> {
    out.subrange(before.len() - after.len(), out.len() as int)
}

/// All the sequences of `parts`, one after another.
pub open spec fn concat_all(parts: Seq<Seq<u8>>) -> Seq<u8>
    decreases parts.len(),
{
    if parts.len() == 0 {
        Seq::empty()
    } else {
        concat_all(parts.drop_last()) + parts.last()
    }
}

/// Over any run of calls that each kept the order of the stream, what the
/// caller was handed, followed by what is still buffered, is exactly what was
/// buffered at the start followed by every byte taken from the source: no
/// byte is lost, repeated or moved.
pub proof fn lemma_lookahead_exact(buffered: Seq<Seq<u8>>, outs: Seq<Seq<u8>>)
    requires
        buffered.len() == outs.len() + 1,
        forall|i: int| 0 <= i < outs.len() ==> in_order(buffered[i], #[trigger] outs[i], buffered[i + 1]),
    ensures
        concat_all(outs) + buffered.last() == buffered[0] + concat_all(
            Seq::new(outs.len(), |i: int| drawn(buffered[i], outs[i], buffered[i + 1])),
        ),
    decreases outs.len(),
{
    let m = outs.len() as int;
    let ds = Seq::new(outs.len(), |i: int| drawn(buffered[i], outs[i], buffered[i + 1]));
    if m == 0 {
        assert(concat_all(outs) + buffered.last() =~= buffered[0] + concat_all(ds));
    } else {
        let b2 = buffered.drop_last();
        let o2 = outs.drop_last();
        assert forall|i: int| 0 <= i < o2.len() implies in_order(b2[i], #[trigger] o2[i], b2[i + 1]) by {
            assert(in_order(buffered[i], outs[i], buffered[i + 1]));
        }
        lemma_lookahead_exact(b2, o2);
        let ds2 = Seq::new(o2.len(), |i: int| drawn(b2[i], o2[i], b2[i + 1]));
        assert(ds.drop_last() =~= ds2);
        let before = buffered[m - 1];
        let out = outs[m - 1];
        let after = buffered[m];
        assert(in_order(before, out, after));
        let k = before.len() - after.len();
        assert(out =~= out.subrange(0, k) + out.subrange(k, out.len() as int));
        assert(before =~= before.subrange(0, k) + before.subrange(k, before.len() as int));
        if out.len() > k {
            assert(out + after =~= before + drawn(before, out, after));
        } else {
            assert(drawn(before, out, after) =~= Seq::<u8>::empty());
            assert(out + after =~= before + drawn(before, out, after));
        }
        assert(concat_all(outs) =~= concat_all(o2) + out);
        assert(concat_all(ds) =~= concat_all(ds2) + ds.last());
        assert(concat_all(outs) + buffered.last() =~= (concat_all(o2) + b2.last()) + drawn(
            before,
            out,
            after,
        ));
    }
}

/// The bytes taken from a source for inspection: `buf[..last]` were taken,
/// `buf[first..last]` are still to be handed out.
pub struct Lookahead {
    buf: [u8; MAX_MAGIC_BYTES],
    first: usize,
    last: usize,
}

impl Lookahead {
    #[verifier::type_invariant]
    spec fn well_formed(self) -> bool {
        self.first <= self.last <= MAX_MAGIC_BYTES
    }

    /// The bytes taken that nobody has been handed yet.
    pub closed spec fn pending(self) -> Seq<u8> {
        self.buf@.subrange(self.first as int, self.last as int)
    }

    /// Every byte taken, handed out or not.
    pub closed spec fn sniffed(self) -> Seq<u8> {
        self.buf@.subrange(0, self.last as int)
    }

    /// What the cursors give: the bytes still to be handed out are the last
    /// ones taken, and at most `MAX_MAGIC_BYTES` were taken.
    proof fn lemma_bounded(self)
        requires
            self.well_formed(),
        ensures
            self.pending().len() <= self.sniffed().len() <= MAX_MAGIC_BYTES,
            self.pending() == self.sniffed().subrange(
                self.sniffed().len() - self.pending().len(),
                self.sniffed().len() as int,
            ),
    {
        assert(self.pending() =~= self.sniffed().subrange(
            self.sniffed().len() - self.pending().len(),
            self.sniffed().len() as int,
        ));
    }

    /// Nothing taken yet.
    pub fn new() -> (r: Self)
        ensures
            r.pending() == Seq::<u8>::empty(),
            r.sniffed() == Seq::<u8>::empty(),
    {
        Lookahead { buf: [0;MAX_MAGIC_BYTES], first: 0, last: 0 }
    }

    /// How many bytes are still to be handed out; they are the last ones
    /// taken, and at most `MAX_MAGIC_BYTES` were taken.
    pub fn len(&self) -> (r: usize)
        ensures
            r == self.pending().len(),
            self.pending().len() <= self.sniffed().len() <= MAX_MAGIC_BYTES,
            self.pending() == self.sniffed().subrange(
                self.sniffed().len() - self.pending().len(),
                self.sniffed().len() as int,
            ),
    {
        proof {
            use_type_invariant(self);
            assert(self.pending() =~= self.sniffed().subrange(
                self.sniffed().len() - self.pending().len(),
                self.sniffed().len() as int,
            ));
        }
        self.last - self.first
    }

    /// How many bytes were taken.
    pub fn taken(&self) -> (r: usize)
        ensures
            r == self.sniffed().len(),
            r <= MAX_MAGIC_BYTES,
    {
        proof {
            use_type_invariant(self);
        }
        self.last
    }

    /// The bytes still to be handed out.
    pub fn as_slice(&self) -> (r: &[u8])
        ensures
            r@ == self.pending(),
    {
        proof {
            use_type_invariant(self);
        }
        slice_subrange(self.buf.as_slice(), self.first, self.last)
    }

    /// Every byte taken.
    pub fn sniffed_slice(&self) -> (r: &[u8])
        ensures
            r@ == self.sniffed(),
    {
        proof {
            use_type_invariant(self);
        }
        slice_subrange(self.buf.as_slice(), 0, self.last)
    }

    /// Takes as many of `ready` as there is room for; returns how many.
    pub fn take_from(&mut self, ready: &[u8]) -> (r: usize)
        ensures
            r == min_of(ready@.len() as int, MAX_MAGIC_BYTES - old(self).sniffed().len()),
            final(self).pending() == old(self).pending() + ready@.subrange(0, r as int),
            final(self).sniffed() == old(self).sniffed() + ready@.subrange(0, r as int),
    {
        proof {
            use_type_invariant(&*self);
        }
        let room = MAX_MAGIC_BYTES - self.last;
        let n = if ready.len() < room {
            ready.len()
        } else {
            room
        };
        let mut i: usize = 0;
        while i < n
            invariant
                i <= n <= ready@.len(),
                n == MAX_MAGIC_BYTES - old(self).last || n == ready@.len(),
                old(self).last + n <= MAX_MAGIC_BYTES,
                self.first == old(self).first,
                self.last == old(self).last,
                self.first <= self.last,
                forall|j: int| 0 <= j < self.last + i ==> self.buf@[j] == (if j < self.last {
                    old(self).buf@[j]
                } else {
                    ready@[j - self.last]
                }),
            decreases n - i,
        {
            self.buf[self.last + i] = ready[i];
            i = i + 1;
        }
        self.last = self.last + n;
        proof {
            assert(self.pending() =~= old(self).pending() + ready@.subrange(0, n as int));
            assert(self.sniffed() =~= old(self).sniffed() + ready@.subrange(0, n as int));
        }
        n
    }

    /// Marks up to `n` bytes as handed out; returns how many.
    pub fn skip(&mut self, n: usize) -> (r: usize)
        ensures
            r == min_of(n as int, old(self).pending().len() as int),
            final(self).pending() == old(self).pending().subrange(
                r as int,
                old(self).pending().len() as int,
            ),
            final(self).sniffed() == old(self).sniffed(),
    {
        proof {
            use_type_invariant(&*self);
        }
        let avail = self.last - self.first;
        let k = if n < avail {
            n
        } else {
            avail
        };
        self.first = self.first + k;
        proof {
            assert(self.pending() =~= old(self).pending().subrange(
                k as int,
                old(self).pending().len() as int,
            ));
        }
        k
    }

    /// Copies as many of the bytes still to be handed out as fit to the front
    /// of `buf`; returns how many.
    pub fn copy_to(&mut self, buf: &mut [u8]) -> (r: usize)
        ensures
            r == min_of(old(buf)@.len() as int, old(self).pending().len() as int),
            final(buf)@ == old(self).pending().subrange(0, r as int) + old(buf)@.subrange(
                r as int,
                old(buf)@.len() as int,
            ),
            final(self).pending() == old(self).pending().subrange(
                r as int,
                old(self).pending().len() as int,
            ),
            final(self).sniffed() == old(self).sniffed(),
    {
        proof {
            use_type_invariant(&*self);
        }
        let avail = self.last - self.first;
        let n = if buf.len() < avail {
            buf.len()
        } else {
            avail
        };
        let mut i: usize = 0;
        while i < n
            invariant
                i <= n <= buf@.len(),
                n <= self.last - self.first,
                self.first <= self.last <= MAX_MAGIC_BYTES,
                buf@.len() == old(buf)@.len(),
                forall|j: int| 0 <= j < i ==> buf@[j] == self.buf@[self.first + j],
                forall|j: int| i <= j < buf@.len() ==> buf@[j] == old(buf)@[j],
            decreases n - i,
        {
            buf[i] = self.buf[self.first + i];
            i = i + 1;
        }
        proof {
            assert(buf@ =~= old(self).pending().subrange(0, n as int) + old(buf)@.subrange(
                n as int,
                old(buf)@.len() as int,
            ));
        }
        self.skip(n)
    }

    /// Appends up to `capacity` of the bytes still to be handed out to `buf`;
    /// returns how many.
    pub fn append_to(&mut self, buf: &mut Vec<u8>, capacity: usize) -> (r: usize)
        ensures
            r == min_of(capacity as int, old(self).pending().len() as int),
            final(buf)@ == old(buf)@ + old(self).pending().subrange(0, r as int),
            final(self).pending() == old(self).pending().subrange(
                r as int,
                old(self).pending().len() as int,
            ),
            final(self).sniffed() == old(self).sniffed(),
    {
        proof {
            use_type_invariant(&*self);
        }
        let avail = self.last - self.first;
        let n = if capacity < avail {
            capacity
        } else {
            avail
        };
        let mut i: usize = 0;
        while i < n
            invariant
                i <= n <= self.last - self.first,
                self.first <= self.last <= MAX_MAGIC_BYTES,
                buf@ == old(buf)@ + old(self).pending().subrange(0, i as int),
            decreases n - i,
        {
            buf.push(self.buf[self.first + i]);
            i = i + 1;
            proof {
                assert(buf@ =~= old(buf)@ + old(self).pending().subrange(0, i as int));
            }
        }
        self.skip(n)
    }
}

/// Whether a reader went from `before` to `after` by only taking bytes into
/// its buffer: what was buffered stays buffered, in front of what was added,
/// and what was added was also recorded as taken.
pub open spec fn only_took<R>(before: MagicReader<R>, after: MagicReader<R>) -> bool {
    &&& before.pending().len() <= after.pending().len()
    &&& after.pending().subrange(0, before.pending().len() as int) == before.pending()
    &&& after.sniffed() == before.sniffed() + after.pending().subrange(
        before.pending().len() as int,
        after.pending().len() as int,
    )
}

/// Taking bytes and then taking more is taking bytes.
pub(crate) proof fn lemma_took_twice<R>(a: MagicReader<R>, b: MagicReader<R>, c: MagicReader<R>)
    requires
        only_took(a, b),
        only_took(b, c),
    ensures
        only_took(a, c),
{
    let (i, j, k) = (a.pending().len() as int, b.pending().len() as int, c.pending().len() as int);
    assert(c.pending().subrange(0, i) =~= b.pending().subrange(0, i));
    assert(c.pending().subrange(i, k) =~= c.pending().subrange(i, j) + c.pending().subrange(j, k));
    assert(c.pending().subrange(i, j) =~= b.pending().subrange(i, j));
    assert(c.sniffed() =~= a.sniffed() + c.pending().subrange(i, k));
}

/// A reader whose buffer grew at its end by `fresh` only took bytes.
proof fn lemma_took<R>(a: MagicReader<R>, b: MagicReader<R>, fresh: Seq<u8>)
    requires
        b.pending() =~= a.pending() + fresh,
        b.sniffed() =~= a.sniffed() + fresh,
    ensures
        only_took(a, b),
{
    let i = a.pending().len() as int;
    assert(b.pending().subrange(0, i) =~= a.pending());
    assert(b.pending().subrange(i, b.pending().len() as int) =~= fresh);
}

/// A reader that keeps up to `MAX_MAGIC_BYTES` leading bytes of its source
/// for inspection and replays them before anything else is read.
pub struct MagicReader<R> {
    reader: R,
    window: Lookahead,
    ended: Ghost<bool>,
    looked: Ghost<Seq<u8>>,
}

impl<R> MagicReader<R> {
    /// The bytes taken from the source that nobody has been handed yet.
    pub closed spec fn pending(self) -> Seq<u8> {
        self.window.pending()
    }

    /// Every byte taken from the source into the buffer, handed out or not.
    pub closed spec fn sniffed(self) -> Seq<u8> {
        self.window.sniffed()
    }

    /// The wrapped source.
    pub closed spec fn source(self) -> R {
        self.reader
    }

    /// Whether the source reported the end of its stream while bytes were
    /// being taken into the buffer.
    pub closed spec fn source_ended(self) -> bool {
        self.ended@
    }

    /// The leading bytes of the stream that were last looked at: those taken
    /// into the buffer, or those the source showed in place.
    pub closed spec fn leading(self) -> Seq<u8> {
        self.looked@
    }

    /// The buffered bytes are the last of those taken, and at most
    /// `MAX_MAGIC_BYTES` were taken.
    pub open spec fn bounded(self) -> bool {
        &&& self.pending().len() <= self.sniffed().len() <= MAX_MAGIC_BYTES
        &&& self.pending() == self.sniffed().subrange(
            self.sniffed().len() - self.pending().len(),
            self.sniffed().len() as int,
        )
    }

    /// Wraps `reader` with nothing buffered.
    pub fn new(reader: R) -> (r: Self)
        ensures
            r.pending() == Seq::<u8>::empty(),
            r.sniffed() == Seq::<u8>::empty(),
            r.source() == reader,
            r.leading() == Seq::<u8>::empty(),
            !r.source_ended(),
    {
        MagicReader {
            reader,
            window: Lookahead::new(),
            ended: Ghost(false),
            looked: Ghost(Seq::empty()),
        }
    }

    /// How many bytes are buffered; they are the last ones taken, and at most
    /// `MAX_MAGIC_BYTES` were taken.
    pub fn buffered_len(&self) -> (r: usize)
        ensures
            r == self.pending().len(),
            self.bounded(),
    {
        self.window.len()
    }

    /// The wrapped source.
    pub fn get_ref(&self) -> (r: &R)
        ensures
            *r == self.source(),
    {
        &self.reader
    }

    /// The wrapped source, for changing it; the buffered bytes stay.
    pub fn get_mut(&mut self) -> (r: &mut R)
        ensures
            *r == old(self).source(),
            *final(r) == final(self).source(),
            final(self).pending() == old(self).pending(),
            final(self).sniffed() == old(self).sniffed(),
    {
        &mut self.reader
    }

    /// The wrapped source; bytes still buffered are dropped with the reader.
    pub fn into_inner(self) -> (r: R)
        ensures
            r == self.source(),
    {
        self.reader
    }

    /// The wrapped source and the bytes still buffered, which the source no
    /// longer holds.
    pub fn into_parts(self) -> (r: (R, Vec<u8>))
        ensures
            r.0 == self.source(),
            r.1@ == self.pending(),
    {
        let mut rest: Vec<u8> = Vec::new();
        let mut window = self.window;
        let n = window.len();
        window.append_to(&mut rest, n);
        proof {
            assert(self.pending().subrange(0, n as int) =~= self.pending());
            assert(rest@ =~= self.pending());
        }
        (self.reader, rest)
    }

    /// Copies as many buffered bytes as fit to the front of `buf`; the source
    /// is not touched.
    pub fn do_read(&mut self, buf: &mut [u8]) -> (r: Result<usize, Error>)
        ensures
            r is Ok,
            r->Ok_0 == min_of(old(buf)@.len() as int, old(self).pending().len() as int),
            final(buf)@ == old(self).pending().subrange(0, r->Ok_0 as int) + old(buf)@.subrange(
                r->Ok_0 as int,
                old(buf)@.len() as int,
            ),
            final(self).pending() == old(self).pending().subrange(
                r->Ok_0 as int,
                old(self).pending().len() as int,
            ),
            final(self).sniffed() == old(self).sniffed(),
            final(self).source() == old(self).source(),
    {
        Ok(self.window.copy_to(buf))
    }

    /// Appends up to `capacity` buffered bytes to `buf`; the source is not
    /// touched.
    pub fn do_read_buf(&mut self, buf: &mut Vec<u8>, capacity: usize) -> (r: Result<usize, Error>)
        ensures
            r is Ok,
            r->Ok_0 == min_of(capacity as int, old(self).pending().len() as int),
            final(buf)@ == old(buf)@ + old(self).pending().subrange(0, r->Ok_0 as int),
            final(self).pending() == old(self).pending().subrange(
                r->Ok_0 as int,
                old(self).pending().len() as int,
            ),
            final(self).sniffed() == old(self).sniffed(),
            final(self).source() == old(self).source(),
    {
        Ok(self.window.append_to(buf, capacity))
    }
}

impl<R: BufRead> MagicReader<R> {
    /// The leading bytes available without waiting: those already taken into
    /// the buffer, if any were; else whatever the source holds ready, which
    /// stays in the source.
    pub fn read_magic(&mut self) -> (r: Result<&[u8], Error>)
        ensures
            final(self).pending() == old(self).pending(),
            final(self).sniffed() == old(self).sniffed(),
            final(self).source_ended() == (old(self).source_ended() || (old(self).sniffed().len()
                == 0 && r is Ok && r->Ok_0@.len() == 0)),
            final(self).bounded(),
            old(self).sniffed().len() > 0 ==> r is Ok && r->Ok_0@ == old(self).sniffed()
                && final(self).source() == old(self).source(),
            r is Ok ==> final(self).leading() == r->Ok_0@.subrange(
                0,
                min_of(r->Ok_0@.len() as int, MAX_MAGIC_BYTES as int),
            ),
    {
        proof {
            use_type_invariant(&self.window);
            self.window.lemma_bounded();
        }
        if self.window.taken() > 0 {
            let taken = self.window.sniffed_slice();
            proof {
                self.looked = Ghost(taken@);
                assert(taken@.subrange(0, min_of(taken@.len() as int, MAX_MAGIC_BYTES as int))
                    =~= taken@);
            }
            Ok(taken)
        } else {
            match fill_buf_of(&mut self.reader) {
                Ok(ready) => {
                    proof {
                        self.looked = Ghost(
                            ready@.subrange(
                                0,
                                min_of(ready@.len() as int, MAX_MAGIC_BYTES as int),
                            ),
                        );
                        if ready@.len() == 0 {
                            self.ended = Ghost(true);
                        }
                    }
                    Ok(ready)
                },
                Err(e) => Err(e),
            }
        }
    }

    /// Takes bytes from the source into the buffer until `MAX_MAGIC_BYTES` were
    /// taken or the source is at its end, and returns every byte taken. The
    /// bytes are moved with `Read::read`, which takes them from what the source
    /// holds ready, as `fill_buf` and `consume` would. An interrupted call is
    /// tried again; any other error is returned, and the bytes taken before it
    /// stay buffered. Once `MAX_MAGIC_BYTES` were taken, the source is not
    /// touched.
    pub fn read_magic_slow(&mut self) -> (r: Result<&[u8], Error>)
        ensures
            only_took(*old(self), *final(self)),
            final(self).bounded(),
            r is Ok ==> r->Ok_0@ == final(self).sniffed() && final(self).leading()
                == final(self).sniffed(),
            r is Ok ==> final(self).sniffed().len() == MAX_MAGIC_BYTES || final(self).source_ended(),
            old(self).sniffed().len() == MAX_MAGIC_BYTES ==> r is Ok && final(self).pending()
                == old(self).pending() && final(self).sniffed() == old(self).sniffed()
                && final(self).source() == old(self).source(),
    {
        self.fill_magic_slow()
    }

    /// The bytes ready to be read: the buffered ones if there are any, else
    /// those the source holds ready.
    pub fn peek(&mut self) -> (r: Result<&[u8], Error>)
        ensures
            final(self).pending() == old(self).pending(),
            final(self).sniffed() == old(self).sniffed(),
            old(self).pending().len() > 0 ==> r is Ok && r->Ok_0@ == old(self).pending()
                && final(self).source() == old(self).source(),
    {
        if self.window.len() > 0 {
            Ok(self.window.as_slice())
        } else {
            fill_buf_of(&mut self.reader)
        }
    }

    /// Marks `n` of the bytes that `peek` showed as read: of the buffered ones
    /// while there are any (never more than there are), else of those the
    /// source showed. Those are taken from the source with `Read::read_exact`
    /// and dropped: std's `consume` may panic when asked for more than the
    /// source holds ready, which nothing here can rule out.
    pub fn advance(&mut self, n: usize)
        ensures
            final(self).sniffed() == old(self).sniffed(),
            old(self).pending().len() > 0 ==> final(self).source() == old(self).source()
                && final(self).pending() == old(self).pending().subrange(
                min_of(n as int, old(self).pending().len() as int),
                old(self).pending().len() as int,
            ),
            old(self).pending().len() == 0 ==> final(self).pending().len() == 0,
    {
        if self.window.len() > 0 {
            self.window.skip(n);
        } else {
            let mut shown: Vec<u8> = vec![0u8; n];
            let _ = read_exact_from(&mut self.reader, shown.as_mut_slice(), 0);
        }
    }
}

impl<R: Read> MagicReader<R> {
    /// One read of the source into the free room of the buffer, for a source
    /// that cannot show bytes without taking them; returns every byte taken.
    /// Once `MAX_MAGIC_BYTES` were taken, the source is not touched.
    pub fn fill_magic(&mut self) -> (r: Result<&[u8], Error>)
        ensures
            only_took(*old(self), *final(self)),
            final(self).bounded(),
            final(self).source_ended() == old(self).source_ended(),
            r is Ok ==> r->Ok_0@ == final(self).sniffed() && final(self).leading()
                == final(self).sniffed(),
            old(self).sniffed().len() == MAX_MAGIC_BYTES ==> r is Ok && final(self).pending()
                == old(self).pending() && final(self).sniffed() == old(self).sniffed()
                && final(self).source() == old(self).source(),
    {
        let ghost start = *self;
        proof {
            lemma_took(start, *self, Seq::empty());
            use_type_invariant(&self.window);
            self.window.lemma_bounded();
        }
        let taken = self.window.taken();
        if taken == MAX_MAGIC_BYTES {
            let all = self.window.sniffed_slice();
            proof {
                self.looked = Ghost(all@);
            }
            return Ok(all);
        }
        let room = MAX_MAGIC_BYTES - taken;
        let mut fresh: Vec<u8> = vec![0u8; room];
        match read_from(&mut self.reader, fresh.as_mut_slice(), 0) {
            Ok(n) => {
                let ready = slice_subrange(fresh.as_slice(), 0, n);
                let k = self.window.take_from(ready);
                let all = self.window.sniffed_slice();
                proof {
                    lemma_took(start, *self, ready@.subrange(0, k as int));
                    use_type_invariant(&self.window);
                    self.window.lemma_bounded();
                    self.looked = Ghost(all@);
                }
                Ok(all)
            },
            Err(e) => Err(e),
        }
    }

    /// Reads the source into the buffer until `MAX_MAGIC_BYTES` were taken or
    /// the source is at its end, for a source that cannot show bytes without
    /// taking them; returns every byte taken. An interrupted call is tried
    /// again; any other error is returned, and the bytes taken before it stay
    /// buffered. Once `MAX_MAGIC_BYTES` were taken, the source is not touched.
    pub fn fill_magic_slow(&mut self) -> (r: Result<&[u8], Error>)
        ensures
            only_took(*old(self), *final(self)),
            final(self).bounded(),
            r is Ok ==> r->Ok_0@ == final(self).sniffed() && final(self).leading()
                == final(self).sniffed(),
            r is Ok ==> final(self).sniffed().len() == MAX_MAGIC_BYTES || final(self).source_ended(),
            old(self).sniffed().len() == MAX_MAGIC_BYTES ==> r is Ok && final(self).pending()
                == old(self).pending() && final(self).sniffed() == old(self).sniffed()
                && final(self).source() == old(self).source(),
    {
        let ghost start = *self;
        let mut retries: u64 = u64::MAX;
        proof {
            lemma_took(start, *self, Seq::empty());
        }
        loop
            invariant
                only_took(start, *self),
                start == *old(self),
                start.sniffed().len() == MAX_MAGIC_BYTES ==> self.reader == start.reader,
            decreases MAX_MAGIC_BYTES - self.sniffed().len(), retries,
        {
            proof {
                use_type_invariant(&self.window);
                self.window.lemma_bounded();
            }
            let taken = self.window.taken();
            if taken == MAX_MAGIC_BYTES {
                let all = self.window.sniffed_slice();
                proof {
                    self.looked = Ghost(all@);
                    if start.sniffed().len() == MAX_MAGIC_BYTES {
                        assert(self.pending().subrange(
                            start.pending().len() as int,
                            self.pending().len() as int,
                        ).len() == 0);
                        assert(self.pending() =~= start.pending());
                        assert(self.sniffed() =~= start.sniffed());
                    }
                }
                return Ok(all);
            }
            let ghost before = *self;
            let room = MAX_MAGIC_BYTES - taken;
            let mut fresh: Vec<u8> = vec![0u8; room];
            match read_from(&mut self.reader, fresh.as_mut_slice(), 0) {
                Ok(n) => {
                    if n == 0 {
                        let all = self.window.sniffed_slice();
                        proof {
                            self.ended = Ghost(true);
                            self.looked = Ghost(all@);
                        }
                        return Ok(all);
                    }
                    let ready = slice_subrange(fresh.as_slice(), 0, n);
                    let k = self.window.take_from(ready);
                    proof {
                        lemma_took(before, *self, ready@.subrange(0, k as int));
                        lemma_took_twice(start, before, *self);
                    }
                    retries = u64::MAX;
                },
                Err(e) => {
                    if retries > 0 && is_interrupted(&e) {
                        retries = retries - 1;
                        continue ;
                    }
                    return Err(e);
                },
            }
        }
    }

    /// A single read: buffered bytes first, then, if room is left, one read of
    /// the source. The source is not touched while the buffered bytes fill the
    /// request. An error of the source after buffered bytes were handed out
    /// is left for the next call.
    pub fn read_some(&mut self, buf: &mut [u8]) -> (r: Result<usize, Error>)
        ensures
            final(buf)@.len() == old(buf)@.len(),
            final(self).sniffed() == old(self).sniffed(),
            r is Ok ==> r->Ok_0 <= old(buf)@.len() && in_order(
                old(self).pending(),
                final(buf)@.subrange(0, r->Ok_0 as int),
                final(self).pending(),
            ),
            r is Ok && old(self).pending().len() > 0 ==> r->Ok_0 >= min_of(
                old(buf)@.len() as int,
                old(self).pending().len() as int,
            ),
            r is Err ==> old(self).pending().len() == 0 && final(self).pending().len() == 0,
            old(self).pending().len() > 0 && old(buf)@.len() <= old(self).pending().len()
                ==> final(self).source() == old(self).source(),
    {
        if self.window.len() == 0 {
            let r = read_from(&mut self.reader, buf, 0);
            proof {
                if r is Ok {
                    assert(final(buf)@.subrange(0, r->Ok_0 as int).subrange(0, 0) =~= old(
                        self,
                    ).pending().subrange(0, 0));
                    assert(self.pending() =~= old(self).pending().subrange(0, 0));
                }
            }
            return r;
        }
        let n = self.window.copy_to(buf);
        if n == buf.len() {
            proof {
                assert(buf@.subrange(0, n as int) =~= old(self).pending().subrange(0, n as int));
            }
            return Ok(n);
        }
        let ghost copied = buf@;
        match read_from(&mut self.reader, buf, n) {
            Ok(m) => {
                proof {
                    let out = buf@.subrange(0, n + m);
                    assert(out.subrange(0, n as int) =~= copied.subrange(0, n as int));
                    assert(out.subrange(0, n as int) =~= old(self).pending().subrange(0, n as int));
                }
                Ok(n + m)
            },
            Err(_) => {
                proof {
                    assert(buf@.subrange(0, n as int) =~= copied.subrange(0, n as int));
                    assert(buf@.subrange(0, n as int).subrange(0, n as int) =~= old(
                        self,
                    ).pending().subrange(0, n as int));
                }
                Ok(n)
            },
        }
    }

    /// Fills all of `buf`: buffered bytes first, then the rest from the source.
    /// The source is not touched while the buffered bytes fill the request.
    pub fn read_exact_into(&mut self, buf: &mut [u8]) -> (r: Result<(), Error>)
        ensures
            final(buf)@.len() == old(buf)@.len(),
            final(self).sniffed() == old(self).sniffed(),
            ({
                let k = min_of(old(buf)@.len() as int, old(self).pending().len() as int);
                &&& final(self).pending() == old(self).pending().subrange(
                    k,
                    old(self).pending().len() as int,
                )
                &&& final(buf)@.subrange(0, k) == old(self).pending().subrange(0, k)
            }),
            r is Ok ==> in_order(old(self).pending(), final(buf)@, final(self).pending()),
            old(buf)@.len() <= old(self).pending().len() ==> r is Ok && final(self).source()
                == old(self).source(),
    {
        let n = self.window.copy_to(buf);
        if n == buf.len() {
            proof {
                assert(buf@.subrange(0, n as int) =~= old(self).pending().subrange(0, n as int));
                assert(buf@ =~= buf@.subrange(0, n as int));
            }
            return Ok(());
        }
        let ghost copied = buf@;
        let r = read_exact_from(&mut self.reader, buf, n);
        proof {
            assert(buf@.subrange(0, n as int) =~= copied.subrange(0, n as int));
            assert(buf@.subrange(0, n as int) =~= old(self).pending().subrange(0, n as int));
        }
        r
    }

    /// Reads to the end of the stream, appending to `buf`: buffered bytes first,
    /// then everything the source has left. The buffered bytes are appended
    /// also when the source fails.
    pub fn read_all_into(&mut self, buf: &mut Vec<u8>) -> (r: Result<usize, Error>)
        ensures
            final(self).pending().len() == 0,
            final(self).sniffed() == old(self).sniffed(),
            old(buf)@.len() + old(self).pending().len() <= final(buf)@.len(),
            final(buf)@.subrange(0, (old(buf)@.len() + old(self).pending().len()) as int) == old(buf)@
                + old(self).pending(),
            r is Ok ==> final(buf)@.len() == old(buf)@.len() + r->Ok_0,
            r is Ok ==> in_order(
                old(self).pending(),
                final(buf)@.subrange(old(buf)@.len() as int, final(buf)@.len() as int),
                final(self).pending(),
            ),
    {
        let start_len = buf.len();
        let avail = self.window.len();
        let n = self.window.append_to(buf, avail);
        let ghost appended = buf@;
        proof {
            assert(old(self).pending().subrange(0, n as int) =~= old(self).pending());
            assert(appended =~= old(buf)@ + old(self).pending());
        }
        read_to_end_of(&mut self.reader, buf)?;
        proof {
            let start = old(buf)@.len() as int;
            assert(buf@.subrange(0, start + n) =~= appended);
            let out = buf@.subrange(start, buf@.len() as int);
            assert(out.subrange(0, n as int) =~= appended.subrange(start, start + n));
            assert(appended.subrange(start, start + n) =~= old(self).pending());
            assert(self.pending() =~= old(self).pending().subrange(
                n as int,
                old(self).pending().len() as int,
            ));
        }
        Ok(buf.len() - start_len)
    }

    /// Reads to the end of the stream as text, appending to `buf`. Where bytes
    /// are buffered, they and the rest of the stream are checked as UTF-8 as a
    /// whole, and `buf` is left as it was if they are not valid.
    pub fn read_text_into(&mut self, buf: &mut String) -> (r: Result<usize, Error>)
        ensures
            old(self).pending().len() > 0 ==> final(self).pending().len() == 0,
            final(self).sniffed() == old(self).sniffed(),
            old(self).pending().len() > 0 && r is Err ==> final(buf)@ == old(buf)@,
            old(self).pending().len() > 0 && r is Ok ==> exists|bytes: Seq<u8>|
                #[trigger] valid_utf8(bytes) && bytes.len() == r->Ok_0 && in_order(
                    old(self).pending(),
                    bytes,
                    final(self).pending(),
                ) && final(buf)@ == old(buf)@ + decode_utf8(bytes),
            old(buf)@.len() <= final(buf)@.len(),
            final(buf)@.subrange(0, old(buf)@.len() as int) == old(buf)@,
    {
        if self.window.len() == 0 {
            return read_to_string_of(&mut self.reader, buf);
        }
        let mut bytes: Vec<u8> = Vec::new();
        self.read_all_into(&mut bytes)?;
        proof {
            assert(bytes@.subrange(0, bytes@.len() as int) =~= bytes@);
        }
        let r = push_utf8(buf, bytes.as_slice());
        proof {
            assert(buf@.subrange(0, old(buf)@.len() as int) =~= old(buf)@);
        }
        r
    }

}

/// Reads serve the buffered bytes first, then the source. `read_vectored` is
/// std's default: it reads into the first non-empty slice through `read`.
impl<R: Read> Read for MagicReader<R> {
    fn read(&mut self, buf: &mut [u8]) -> Result<usize, Error> {
        self.read_some(buf)
    }

    fn read_to_end(&mut self, buf: &mut Vec<u8>) -> Result<usize, Error> {
        self.read_all_into(buf)
    }

    fn read_to_string(&mut self, buf: &mut String) -> Result<usize, Error> {
        self.read_text_into(buf)
    }

    fn read_exact(&mut self, buf: &mut [u8]) -> Result<(), Error> {
        self.read_exact_into(buf)
    }
}

impl<R: BufRead> BufRead for MagicReader<R> {
    fn fill_buf(&mut self) -> Result<&[u8], Error> {
        self.peek()
    }

    fn consume(&mut self, n: usize) {
        self.advance(n)
    }
}

/// Appends the text that `bytes` encode to `buf` and returns how many bytes
/// that was; where they are not valid UTF-8, `buf` is left as it was and an
/// error of kind `InvalidData` comes back.
pub fn push_utf8(buf: &mut String, bytes: &[u8]) -> (r: Result<usize, Error>)
    ensures
        r is Ok <==> valid_utf8(bytes@),
        r is Ok ==> final(buf)@ == old(buf)@ + decode_utf8(bytes@) && r->Ok_0 == bytes@.len(),
        r is Err ==> final(buf)@ == old(buf)@,
{
    match utf8_text(bytes) {
        Some(text) => {
            push_text(buf, text);
            Ok(bytes.len())
        },
        None => Err(invalid_data("stream did not contain valid UTF-8")),
    }
}

/// Looking at a reader without taking anything from it only took bytes.
pub(crate) proof fn lemma_took_nothing<R>(a: MagicReader<R>, b: MagicReader<R>)
    requires
        b.pending() == a.pending(),
        b.sniffed() == a.sniffed(),
    ensures
        only_took(a, b),
{
    lemma_took(a, b, Seq::empty());
}

/// While nothing taken was handed out, taking more keeps it so.
pub(crate) proof fn lemma_took_keeps_all<R>(a: MagicReader<R>, b: MagicReader<R>)
    requires
        only_took(a, b),
        a.pending() == a.sniffed(),
    ensures
        b.pending() == b.sniffed(),
{
    let i = a.pending().len() as int;
    assert(b.pending() =~= b.pending().subrange(0, i) + b.pending().subrange(
        i,
        b.pending().len() as int,
    ));
}

/// What looking at the leading bytes of a stream leaves, from the reader
/// `before` to `after`, given the outcome `r`:
/// - it only took bytes into the buffer;
/// - a format comes back exactly when the leading bytes looked at resolve to
///   one, and it is that one;
/// - those bytes are `MAX_MAGIC_BYTES` long, or the source ended within them;
/// - they are the bytes taken, or, where nothing was taken, the first
///   `MAX_MAGIC_BYTES` the source showed in place;
/// - once `MAX_MAGIC_BYTES` were taken, the source is not touched and the
///   outcome is what those bytes resolve to.
pub open spec fn sniff_post<R>(
    before: MagicReader<R>,
    after: MagicReader<R>,
    r: Result<Format, Error>,
    strict: bool,
) -> bool {
    &&& only_took(before, after)
    &&& after.bounded()
    &&& r is Ok ==> resolved(after.leading(), strict) == Some(r->Ok_0)
    &&& r is Ok ==> after.leading().len() == MAX_MAGIC_BYTES || after.source_ended()
    &&& r is Ok ==> after.leading() == after.sniffed() || (after.sniffed().len() == 0
        && after.leading().len() == MAX_MAGIC_BYTES)
    &&& before.sniffed().len() == MAX_MAGIC_BYTES ==> {
        &&& after.source() == before.source()
        &&& after.pending() == before.pending()
        &&& after.sniffed() == before.sniffed()
        &&& (r is Ok <==> resolved(before.sniffed(), strict) is Some)
        &&& r is Ok ==> resolved(before.sniffed(), strict) == Some(r->Ok_0)
    }
}

} // verus!
