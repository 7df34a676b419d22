//! Stimulus port handles and the atomic chunk writes they emit.
//!
//! A write to a stimulus port hands the hardware one indivisible unit — a
//! byte, half-word or word — which downstream tooling reads back as that
//! unit's bytes, most significant first. The port hardware serializes
//! same-address stores, so a unit is never split or interleaved; what is
//! observable downstream is the sequence of units. [`PortSink`] models
//! that observation: every write appends one [`PortChunk`] to its log, and
//! the contracts pin down the exact log every operation produces.

use vstd::prelude::*;
use vstd::string::StringSliceAdditionalSpecFns;

use crate::swo::PORTS_COUNT;

verus! {

/// Base address of the trace block's stimulus ports.
pub const ADDRESS_BASE: usize = 0xE000_0000;

/// One indivisible unit emitted through a stimulus port.
#[derive(Clone, Copy, PartialEq, Eq, Structural, Debug)]
pub enum PortChunk {
    /// A single byte.
    Byte(u8),
    /// A half-word, emitted most significant byte first.
    Half(u16),
    /// A word, emitted most significant byte first.
    Word(u32),
}

/// The bytes downstream tooling reads back from one unit: the unit's
/// bytes, most significant first.
pub open spec fn chunk_bytes(c: PortChunk) -> Seq<u8> {
    match c {
        PortChunk::Byte(b) => seq![b],
        PortChunk::Half(h) => seq![(h >> 8) as u8, h as u8],
        PortChunk::Word(w) => seq![(w >> 24) as u8, (w >> 16) as u8, (w >> 8) as u8, w as u8],
    }
}

/// The byte stream a sequence of units is read back as.
pub open spec fn chunks_bytes(cs: Seq<PortChunk>) -> Seq<u8>
    decreases cs.len(),
{
    if cs.len() == 0 {
        Seq::empty()
    } else {
        chunk_bytes(cs[0]) + chunks_bytes(cs.subrange(1, cs.len() as int))
    }
}

/// How many word-sized units a sequence of units holds.
pub open spec fn chunks_words(cs: Seq<PortChunk>) -> int
    decreases cs.len(),
{
    if cs.len() == 0 {
        0
    } else {
        (if cs[0] is Word {
            1int
        } else {
            0int
        }) + chunks_words(cs.subrange(1, cs.len() as int))
    }
}

/// Reading back a log distributes over concatenation.
pub proof fn lemma_chunks_bytes_add(x: Seq<PortChunk>, y: Seq<PortChunk>)
    ensures
        chunks_bytes(x + y) == chunks_bytes(x) + chunks_bytes(y),
    decreases x.len(),
{
    if x.len() == 0 {
        assert(x + y =~= y);
        assert(chunks_bytes(x) + chunks_bytes(y) =~= chunks_bytes(y));
    } else {
        let rest = x.subrange(1, x.len() as int);
        assert((x + y).subrange(1, (x + y).len() as int) =~= rest + y);
        lemma_chunks_bytes_add(rest, y);
        assert((x + y)[0] == x[0]);
        assert(chunk_bytes(x[0]) + (chunks_bytes(rest) + chunks_bytes(y)) =~= (chunk_bytes(x[0])
            + chunks_bytes(rest)) + chunks_bytes(y));
    }
}

/// Appending one unit appends its bytes to the read-back stream.
pub proof fn lemma_chunks_bytes_push(cs: Seq<PortChunk>, c: PortChunk)
    ensures
        chunks_bytes(cs.push(c)) == chunks_bytes(cs) + chunk_bytes(c),
{
    assert(cs.push(c) =~= cs + seq![c]);
    lemma_chunks_bytes_add(cs, seq![c]);
    let one = seq![c];
    assert(one.subrange(1, one.len() as int) =~= Seq::<PortChunk>::empty());
    assert(chunks_bytes(one) == chunk_bytes(one[0]) + chunks_bytes(Seq::<PortChunk>::empty()));
    assert(one[0] == c);
    assert(chunk_bytes(c) + Seq::<u8>::empty() =~= chunk_bytes(c));
}

/// The word count distributes over concatenation.
pub proof fn lemma_chunks_words_add(x: Seq<PortChunk>, y: Seq<PortChunk>)
    ensures
        chunks_words(x + y) == chunks_words(x) + chunks_words(y),
    decreases x.len(),
{
    if x.len() == 0 {
        assert(x + y =~= y);
    } else {
        let rest = x.subrange(1, x.len() as int);
        assert((x + y).subrange(1, (x + y).len() as int) =~= rest + y);
        lemma_chunks_words_add(rest, y);
        assert((x + y)[0] == x[0]);
    }
}

/// A run without word-sized units counts no word.
pub proof fn lemma_chunks_words_none(cs: Seq<PortChunk>)
    requires
        forall|i: int| 0 <= i < cs.len() ==> !(#[trigger] cs[i] is Word),
    ensures
        chunks_words(cs) == 0,
    decreases cs.len(),
{
    if cs.len() > 0 {
        lemma_chunks_words_none(cs.subrange(1, cs.len() as int));
    }
}

/// A run of word-sized units only counts its length.
pub proof fn lemma_chunks_words_all(cs: Seq<PortChunk>)
    requires
        forall|i: int| 0 <= i < cs.len() ==> #[trigger] cs[i] is Word,
    ensures
        chunks_words(cs) == cs.len(),
    decreases cs.len(),
{
    if cs.len() > 0 {
        lemma_chunks_words_all(cs.subrange(1, cs.len() as int));
    }
}

/// How many single bytes a bulk transfer of `n` bytes from a buffer at
/// `addr` emits before the word run: none for a short transfer, otherwise
/// just enough to bring the source pointer to a word boundary.
pub open spec fn prefix_len(addr: int, n: int) -> int {
    if n < 4 {
        n
    } else {
        (4 - addr % 4) % 4
    }
}

/// How many whole words a bulk transfer emits: the maximal aligned run.
pub open spec fn word_count(addr: int, n: int) -> int {
    if n < 4 {
        0
    } else {
        (n - prefix_len(addr, n)) / 4
    }
}

/// How many single bytes remain after the word run.
pub open spec fn suffix_len(addr: int, n: int) -> int {
    n - prefix_len(addr, n) - 4 * word_count(addr, n)
}

/// Four bytes packed into a word so that emitting the word most
/// significant byte first reproduces them in order.
pub open spec fn be_word(b0: u8, b1: u8, b2: u8, b3: u8) -> u32 {
    ((b0 as u32) << 24) | ((b1 as u32) << 16) | ((b2 as u32) << 8) | (b3 as u32)
}

/// The word packed from `bs[i .. i + 4]`.
pub open spec fn word_at(bs: Seq<u8>, i: int) -> u32 {
    be_word(bs[i], bs[i + 1], bs[i + 2], bs[i + 3])
}

/// A packed word reads back as exactly the four bytes it was packed from.
pub proof fn lemma_be_word_bytes(b0: u8, b1: u8, b2: u8, b3: u8)
    ensures
        chunk_bytes(PortChunk::Word(be_word(b0, b1, b2, b3))) == seq![b0, b1, b2, b3],
{
    assert(((((b0 as u32) << 24) | ((b1 as u32) << 16) | ((b2 as u32) << 8) | (b3 as u32)) >> 24)
        as u8 == b0) by (bit_vector);
    assert(((((b0 as u32) << 24) | ((b1 as u32) << 16) | ((b2 as u32) << 8) | (b3 as u32)) >> 16)
        as u8 == b1) by (bit_vector);
    assert(((((b0 as u32) << 24) | ((b1 as u32) << 16) | ((b2 as u32) << 8) | (b3 as u32)) >> 8)
        as u8 == b2) by (bit_vector);
    assert(((((b0 as u32) << 24) | ((b1 as u32) << 16) | ((b2 as u32) << 8) | (b3 as u32)) as u8)
        == b3) by (bit_vector);
    assert(chunk_bytes(PortChunk::Word(be_word(b0, b1, b2, b3))) =~= seq![b0, b1, b2, b3]);
}

/// The exact unit sequence a bulk transfer of `bs` from a buffer at
/// `addr` emits: an unaligned prefix of single bytes, a maximal run of
/// packed words, and the remaining single bytes.
pub open spec fn split_chunks(addr: int, bs: Seq<u8>) -> Seq<PortChunk> {
    let n = bs.len() as int;
    let p = prefix_len(addr, n);
    let wc = word_count(addr, n);
    let s = suffix_len(addr, n);
    Seq::new(p as nat, |i: int| PortChunk::Byte(bs[i])) + Seq::new(
        wc as nat,
        |k: int| PortChunk::Word(word_at(bs, p + 4 * k)),
    ) + Seq::new(s as nat, |i: int| PortChunk::Byte(bs[p + 4 * wc + i]))
}

/// The observable side of one stimulus port: the log of units the
/// hardware has accepted, in order.
pub struct PortSink {
    /// The units accepted so far, oldest first.
    pub chunks: Vec<PortChunk>,
}

impl PortSink {
    /// A port with nothing written yet.
    pub fn new() -> (r: PortSink)
        ensures
            r.chunks@ == Seq::<PortChunk>::empty(),
    {
        PortSink { chunks: Vec::new() }
    }

    /// The byte stream downstream tooling reads back from this port.
    pub open spec fn bytes(&self) -> Seq<u8> {
        chunks_bytes(self.chunks@)
    }

    /// Flattens the log into the byte stream it is read back as.
    pub fn byte_log(&self) -> (r: Vec<u8>)
        ensures
            r@ == self.bytes(),
    {
        let mut r: Vec<u8> = Vec::new();
        let mut i: usize = 0;
        while i < self.chunks.len()
            invariant
                i <= self.chunks@.len(),
                r@ == chunks_bytes(self.chunks@.take(i as int)),
            decreases self.chunks@.len() - i,
        {
            proof {
                assert(self.chunks@.take(i + 1) =~= self.chunks@.take(i as int).push(
                    self.chunks@[i as int],
                ));
                lemma_chunks_bytes_push(self.chunks@.take(i as int), self.chunks@[i as int]);
            }
            match self.chunks[i] {
                PortChunk::Byte(b) => {
                    r.push(b);
                },
                PortChunk::Half(h) => {
                    r.push((h >> 8) as u8);
                    r.push(h as u8);
                },
                PortChunk::Word(w) => {
                    r.push((w >> 24) as u8);
                    r.push((w >> 16) as u8);
                    r.push((w >> 8) as u8);
                    r.push(w as u8);
                },
            }
            proof {
                assert(r@ =~= chunks_bytes(self.chunks@.take(i + 1)));
            }
            i += 1;
        }
        proof {
            assert(self.chunks@.take(self.chunks@.len() as int) =~= self.chunks@);
        }
        r
    }
}

/// A value that can be handed to a stimulus port as one indivisible unit.
///
/// Implemented for `u8`, `u16` and `u32`; the unit is never split, so all
/// its bytes reach the log together or not at all. On the target this is
/// one exclusive-retry loop per unit; here the accepted unit is appended
/// to the port's log.
pub trait PortWrite: Copy {
    /// The unit this value is emitted as.
    spec fn chunk_of(self) -> PortChunk;

    /// Emits `value` as one indivisible unit.
    fn port_write(sink: &mut PortSink, value: Self)
        ensures
            final(sink).chunks@ == old(sink).chunks@.push(value.chunk_of()),
    ;
}

impl PortWrite for u8 {
    open spec fn chunk_of(self) -> PortChunk {
        PortChunk::Byte(self)
    }

    fn port_write(sink: &mut PortSink, value: u8) {
        sink.chunks.push(PortChunk::Byte(value));
    }
}

impl PortWrite for u16 {
    open spec fn chunk_of(self) -> PortChunk {
        PortChunk::Half(self)
    }

    fn port_write(sink: &mut PortSink, value: u16) {
        sink.chunks.push(PortChunk::Half(value));
    }
}

impl PortWrite for u32 {
    open spec fn chunk_of(self) -> PortChunk {
        PortChunk::Word(self)
    }

    fn port_write(sink: &mut PortSink, value: u32) {
        sink.chunks.push(PortChunk::Word(value));
    }
}

/// A stimulus port handle.
///
/// Freely copyable: duplicating a handle cannot violate the single-writer
/// discipline of the register layer, because the port hardware itself
/// serializes same-address stores. Interleaving between concurrent writers
/// is possible only between units, never inside one.
#[derive(Clone, Copy)]
pub struct Port {
    address: usize,
}

impl Port {
    /// The memory-mapped address of this port.
    pub closed spec fn addr(&self) -> usize {
        self.address
    }

    /// The memory-mapped address of this port, for the hardware glue that
    /// performs the actual stores.
    pub fn address(&self) -> (r: usize)
        ensures
            r == self.addr(),
    {
        self.address
    }

    /// Creates a handle for stimulus port `address`.
    ///
    /// An index at or beyond [`PORTS_COUNT`] names no port; such a call is
    /// ruled out by the contract, and the hardware glue that constructs
    /// handles from runtime values halts on it rather than continue with
    /// an invalid hardware address.
    pub fn new(address: u8) -> (r: Port)
        requires
            address < PORTS_COUNT,
        ensures
            r.addr() == ADDRESS_BASE + (address as int) * 4,
    {
        proof {
            assert(((address as usize) << 2) == (address as usize) * 4 && (address as usize) * 4
                < 128) by (bit_vector)
                requires
                    address < 32,
            ;
        }
        Port { address: ADDRESS_BASE + ((address as usize) << 2) }
    }

    /// Writes one value as one indivisible unit: all of the value's bytes
    /// reach the port's log together, most significant first, and no
    /// concurrent writer can interleave inside the unit. `T` can be one of
    /// `u8`, `u16`, `u32`.
    pub fn write<T: PortWrite>(self, sink: &mut PortSink, value: T) -> (r: Port)
        ensures
            r == self,
            final(sink).chunks@ == old(sink).chunks@.push(value.chunk_of()),
            final(sink).bytes() == old(sink).bytes() + chunk_bytes(value.chunk_of()),
    {
        proof {
            lemma_chunks_bytes_push(sink.chunks@, value.chunk_of());
        }
        T::port_write(sink, value);
        self
    }

    /// Writes a sequence of bytes as the hardware glue streams it from a
    /// buffer at address `buf_addr`: fewer than four bytes go out one by
    /// one; otherwise an unaligned prefix of single bytes brings the
    /// source pointer to a word boundary, a maximal aligned run goes out
    /// as packed words (materially cheaper per byte on the target), and
    /// the remainder goes out as single bytes. The byte stream read back
    /// downstream is exactly `bytes`, in order. Unlike a single
    /// [`Port::write`], a different concurrent writer to the same port
    /// may interleave between the emitted units.
    pub fn write_bytes(self, sink: &mut PortSink, buf_addr: usize, bytes: &[u8]) -> (r: Port)
        ensures
            r == self,
            final(sink).chunks@ == old(sink).chunks@ + split_chunks(buf_addr as int, bytes@),
            final(sink).bytes() == old(sink).bytes() + bytes@,
    {
        let ghost c0 = sink.chunks@;
        let ghost b0 = sink.bytes();
        let ghost a = buf_addr as int;
        let n = bytes.len();
        let ghost nn = bytes@.len() as int;
        if n < 4 {
            let mut i: usize = 0;
            while i < n
                invariant
                    c0 == old(sink).chunks@,
                    b0 == old(sink).bytes(),
                    n == bytes@.len(),
                    n < 4,
                    i <= n,
                    sink.chunks@ == c0 + Seq::new(i as nat, |j: int| PortChunk::Byte(bytes@[j])),
                    sink.bytes() == b0 + bytes@.take(i as int),
                decreases n - i,
            {
                proof {
                    lemma_chunks_bytes_push(sink.chunks@, PortChunk::Byte(bytes@[i as int]));
                }
                u8::port_write(sink, bytes[i]);
                proof {
                    assert(Seq::new((i + 1) as nat, |j: int| PortChunk::Byte(bytes@[j]))
                        =~= Seq::new(i as nat, |j: int| PortChunk::Byte(bytes@[j])).push(
                        PortChunk::Byte(bytes@[i as int]),
                    ));
                    assert(sink.chunks@ =~= c0 + Seq::new(
                        (i + 1) as nat,
                        |j: int| PortChunk::Byte(bytes@[j]),
                    ));
                    assert(bytes@.take(i + 1) =~= bytes@.take(i as int).push(bytes@[i as int]));
                    assert(sink.bytes() =~= b0 + bytes@.take(i + 1));
                }
                i += 1;
            }
            proof {
                assert(split_chunks(a, bytes@) =~= Seq::new(
                    n as nat,
                    |j: int| PortChunk::Byte(bytes@[j]),
                ));
                assert(bytes@.take(n as int) =~= bytes@);
            }
            return self;
        }
        let rem = buf_addr % 4;
        let pre: usize = if rem == 0 {
            0
        } else {
            4 - rem
        };
        let ghost p = prefix_len(a, nn);
        proof {
            assert(p == pre as int);
        }
        let mut i: usize = 0;
        while i < pre
            invariant
                c0 == old(sink).chunks@,
                b0 == old(sink).bytes(),
                n == bytes@.len(),
                nn == bytes@.len() as int,
                4 <= n,
                p == pre as int,
                pre < 4,
                i <= pre,
                sink.chunks@ == c0 + Seq::new(i as nat, |j: int| PortChunk::Byte(bytes@[j])),
                sink.bytes() == b0 + bytes@.take(i as int),
            decreases pre - i,
        {
            proof {
                lemma_chunks_bytes_push(sink.chunks@, PortChunk::Byte(bytes@[i as int]));
            }
            u8::port_write(sink, bytes[i]);
            proof {
                assert(Seq::new((i + 1) as nat, |j: int| PortChunk::Byte(bytes@[j])) =~= Seq::new(
                    i as nat,
                    |j: int| PortChunk::Byte(bytes@[j]),
                ).push(PortChunk::Byte(bytes@[i as int])));
                assert(sink.chunks@ =~= c0 + Seq::new(
                    (i + 1) as nat,
                    |j: int| PortChunk::Byte(bytes@[j]),
                ));
                assert(bytes@.take(i + 1) =~= bytes@.take(i as int).push(bytes@[i as int]));
                assert(sink.bytes() =~= b0 + bytes@.take(i + 1));
            }
            i += 1;
        }
        let words: usize = (n - pre) / 4;
        let ghost wc = word_count(a, nn);
        let ghost pseq = Seq::new(p as nat, |j: int| PortChunk::Byte(bytes@[j]));
        proof {
            assert(wc == words as int);
            vstd::arithmetic::div_mod::lemma_fundamental_div_mod(nn - p, 4);
            assert(4 * wc <= nn - p);
        }
        let mut k: usize = 0;
        while k < words
            invariant
                c0 == old(sink).chunks@,
                b0 == old(sink).bytes(),
                n == bytes@.len(),
                nn == bytes@.len() as int,
                4 <= n,
                p == pre as int,
                pre < 4,
                wc == words as int,
                4 * wc <= nn - p,
                pseq == Seq::new(p as nat, |j: int| PortChunk::Byte(bytes@[j])),
                k <= words,
                sink.chunks@ == c0 + pseq + Seq::new(
                    k as nat,
                    |t: int| PortChunk::Word(word_at(bytes@, p + 4 * t)),
                ),
                sink.bytes() == b0 + bytes@.take(p + 4 * (k as int)),
            decreases words - k,
        {
            let base = pre + 4 * k;
            let w = ((bytes[base] as u32) << 24) | ((bytes[base + 1] as u32) << 16) | ((bytes[base
                + 2] as u32) << 8) | (bytes[base + 3] as u32);
            proof {
                assert(w == word_at(bytes@, base as int));
                lemma_be_word_bytes(
                    bytes@[base as int],
                    bytes@[base as int + 1],
                    bytes@[base as int + 2],
                    bytes@[base as int + 3],
                );
                lemma_chunks_bytes_push(sink.chunks@, PortChunk::Word(w));
            }
            u32::port_write(sink, w);
            proof {
                assert(Seq::new((k + 1) as nat, |t: int| PortChunk::Word(word_at(bytes@, p + 4 * t)))
                    =~= Seq::new(k as nat, |t: int| PortChunk::Word(word_at(bytes@, p + 4 * t))).push(
                    PortChunk::Word(word_at(bytes@, p + 4 * (k as int))),
                ));
                assert(sink.chunks@ =~= c0 + pseq + Seq::new(
                    (k + 1) as nat,
                    |t: int| PortChunk::Word(word_at(bytes@, p + 4 * t)),
                ));
                assert(chunk_bytes(PortChunk::Word(w)) =~= bytes@.subrange(
                    base as int,
                    base as int + 4,
                ));
                assert(bytes@.take(base as int + 4) =~= bytes@.take(base as int) + bytes@.subrange(
                    base as int,
                    base as int + 4,
                ));
                assert(sink.bytes() =~= b0 + bytes@.take(p + 4 * ((k + 1) as int)));
            }
            k += 1;
        }
        let ghost wseq = Seq::new(wc as nat, |t: int| PortChunk::Word(word_at(bytes@, p + 4 * t)));
        let ghost start = p + 4 * wc;
        let mut j: usize = pre + 4 * words;
        while j < n
            invariant
                c0 == old(sink).chunks@,
                b0 == old(sink).bytes(),
                n == bytes@.len(),
                nn == bytes@.len() as int,
                4 <= n,
                p == pre as int,
                pre < 4,
                wc == words as int,
                pseq == Seq::new(p as nat, |j2: int| PortChunk::Byte(bytes@[j2])),
                wseq == Seq::new(wc as nat, |t: int| PortChunk::Word(word_at(bytes@, p + 4 * t))),
                start == p + 4 * wc,
                start <= j <= n,
                sink.chunks@ == c0 + pseq + wseq + Seq::new(
                    (j - start) as nat,
                    |t: int| PortChunk::Byte(bytes@[start + t]),
                ),
                sink.bytes() == b0 + bytes@.take(j as int),
            decreases n - j,
        {
            proof {
                lemma_chunks_bytes_push(sink.chunks@, PortChunk::Byte(bytes@[j as int]));
            }
            u8::port_write(sink, bytes[j]);
            proof {
                assert(Seq::new((j + 1 - start) as nat, |t: int| PortChunk::Byte(bytes@[start + t]))
                    =~= Seq::new((j - start) as nat, |t: int| PortChunk::Byte(bytes@[start + t])).push(
                    PortChunk::Byte(bytes@[j as int]),
                ));
                assert(sink.chunks@ =~= c0 + pseq + wseq + Seq::new(
                    (j + 1 - start) as nat,
                    |t: int| PortChunk::Byte(bytes@[start + t]),
                ));
                assert(bytes@.take(j + 1) =~= bytes@.take(j as int).push(bytes@[j as int]));
                assert(sink.bytes() =~= b0 + bytes@.take(j + 1));
            }
            j += 1;
        }
        proof {
            assert(suffix_len(a, nn) == nn - start);
            assert(split_chunks(a, bytes@) == pseq + wseq + Seq::new(
                (nn - start) as nat,
                |t: int| PortChunk::Byte(bytes@[start + t]),
            ));
            assert(sink.chunks@ =~= c0 + split_chunks(a, bytes@));
            assert(bytes@.take(nn) =~= bytes@);
        }
        self
    }

    /// Streams a string's UTF-8 bytes through [`Port::write_bytes`].
    pub fn write_str(self, sink: &mut PortSink, buf_addr: usize, string: &str) -> (r: Port)
        ensures
            r == self,
            final(sink).chunks@ == old(sink).chunks@ + split_chunks(
                buf_addr as int,
                string.spec_bytes(),
            ),
            final(sink).bytes() == old(sink).bytes() + string.spec_bytes(),
    {
        self.write_bytes(sink, buf_addr, string.as_bytes())
    }
}

/// Round-trip: after a word write, the port's last-written unit reads
/// back as exactly the value's bytes, most significant first.
pub proof fn lemma_write_round_trip(log: Seq<PortChunk>, v: u32)
    ensures
        log.push(PortChunk::Word(v)).last() == PortChunk::Word(v),
        chunks_bytes(log.push(PortChunk::Word(v))) == chunks_bytes(log) + seq![
            (v >> 24) as u8,
            (v >> 16) as u8,
            (v >> 8) as u8,
            v as u8,
        ],
{
    lemma_chunks_bytes_push(log, PortChunk::Word(v));
}

/// The shape of a bulk transfer is exactly the aligned-run policy: a
/// short transfer emits single bytes only; a longer one emits a prefix of
/// fewer than four single bytes, then every whole aligned word, then
/// fewer than four single bytes, accounting for every input byte.
pub proof fn lemma_split_counts(addr: int, bs: Seq<u8>)
    requires
        addr >= 0,
    ensures
        bs.len() < 4 ==> forall|i: int|
            0 <= i < split_chunks(addr, bs).len() ==> !(#[trigger] split_chunks(addr, bs)[i]
                is Word),
        bs.len() >= 4 ==> {
            let n = bs.len() as int;
            let p = prefix_len(addr, n);
            let s = suffix_len(addr, n);
            &&& 0 <= p < 4
            &&& 0 <= s < 4
            &&& n == p + 4 * word_count(addr, n) + s
            &&& chunks_words(split_chunks(addr, bs)) == (n - p - s) / 4
        },
        addr % 4 == 0 && bs.len() >= 4 ==> prefix_len(addr, bs.len() as int) + suffix_len(
            addr,
            bs.len() as int,
        ) < 4,
{
    let n = bs.len() as int;
    let p = prefix_len(addr, n);
    let wc = word_count(addr, n);
    let s = suffix_len(addr, n);
    let pseq = Seq::new(p as nat, |i: int| PortChunk::Byte(bs[i]));
    let wseq = Seq::new(wc as nat, |k: int| PortChunk::Word(word_at(bs, p + 4 * k)));
    let sseq = Seq::new(s as nat, |i: int| PortChunk::Byte(bs[p + 4 * wc + i]));
    if n >= 4 {
        vstd::arithmetic::div_mod::lemma_fundamental_div_mod(n - p, 4);
        assert(s == (n - p) % 4);
        lemma_chunks_words_add(pseq + wseq, sseq);
        lemma_chunks_words_add(pseq, wseq);
        lemma_chunks_words_none(pseq);
        lemma_chunks_words_all(wseq);
        lemma_chunks_words_none(sseq);
        assert(chunks_words(split_chunks(addr, bs)) == wc);
        assert((n - p - s) / 4 == wc) by {
            assert(n - p - s == 4 * wc);
            vstd::arithmetic::div_mod::lemma_div_multiples_vanish(wc, 4);
        };
    }
}

} // verus!
