//! Frame delimitation: from an arbitrarily chunked byte stream to
//! complete frame texts.
//!
//! Two mutually exclusive strategies exist, chosen at construction.
//! With [`FramingMode::Delimited`], every byte is accumulated and, on
//! an end-of-frame byte, the span strictly between the first
//! start-of-frame byte and that end byte is emitted; a buffer with no
//! start byte is discarded silently. With [`FramingMode::LabelSync`],
//! for sources that strip control bytes, the rolling buffer is cut
//! wherever the leading `ADCO` label of the next frame completes away
//! from the buffer's start.
//!
//! The assembler is a state machine over single bytes, so chunk sizes
//! down to one byte behave identically to bulk delivery; the law
//! [`lemma_chunking_irrelevant`] states that.

use vstd::prelude::*;

use crate::frame::{label_vec, spec_label, Field};
use crate::scan::{bytes_eq, copy_range, ETX, STX};

verus! {

/// Framing strategy of a [`FrameAssembler`].
#[derive(Clone, Copy, PartialEq, Eq, Structural, Debug)]
pub enum FramingMode {
    /// Frames are delimited by the STX and ETX control bytes.
    Delimited,
    /// Control bytes are stripped by the source; a frame ends where
    /// the next frame's leading `ADCO` label begins.
    LabelSync,
}

/// First index at or after `from` holding a start-of-frame byte, or
/// the length when there is none.
pub open spec fn find_stx(s: Seq<u8>, from: int) -> int
    decreases s.len() - from,
{
    if from < 0 || from >= s.len() {
        s.len() as int
    } else if s[from] == STX {
        from
    } else {
        find_stx(s, from + 1)
    }
}

/// One step of the assembler: the buffer after a byte arrives, and the
/// frame the byte completes, if any.
pub open spec fn step(mode: FramingMode, buf: Seq<u8>, b: u8) -> (Seq<u8>, Option<Seq<u8>>) {
    match mode {
        FramingMode::Delimited => {
            if b == ETX {
                let i = find_stx(buf, 0);
                if i < buf.len() {
                    (Seq::empty(), Some(buf.subrange(i + 1, buf.len() as int)))
                } else {
                    (Seq::empty(), None)
                }
            } else {
                (buf.push(b), None)
            }
        },
        FramingMode::LabelSync => {
            let nb = buf.push(b);
            if nb.len() > 4 && nb.subrange(nb.len() - 4, nb.len() as int) == spec_label(
                Field::Adco,
            ) {
                (spec_label(Field::Adco), Some(nb.subrange(0, nb.len() - 4)))
            } else {
                (nb, None)
            }
        },
    }
}

/// A frame option as a sequence of zero or one frames.
pub open spec fn opt_seq(o: Option<Seq<u8>>) -> Seq<Seq<u8>> {
    match o {
        Some(f) => seq![f],
        None => Seq::empty(),
    }
}

/// The assembler run over a whole input: the final buffer and the
/// frames emitted, in order.
pub open spec fn run(mode: FramingMode, buf: Seq<u8>, input: Seq<u8>) -> (Seq<u8>, Seq<Seq<u8>>)
    decreases input.len(),
{
    if input.len() == 0 {
        (buf, Seq::empty())
    } else {
        let st = step(mode, buf, input[0]);
        let rest = run(mode, st.0, input.drop_first());
        (rest.0, opt_seq(st.1) + rest.1)
    }
}

/// The view of an emitted frame.
pub open spec fn emitted_view(r: Option<Vec<u8>>) -> Option<Seq<u8>> {
    match r {
        Some(v) => Some(v@),
        None => None,
    }
}

/// Accumulates bytes and emits one frame text per detected frame
/// boundary. The accumulation buffer is owned here exclusively.
pub struct FrameAssembler {
    mode: FramingMode,
    buf: Vec<u8>,
}

impl FrameAssembler {
    /// The framing strategy this assembler was built with.
    pub closed spec fn strategy(&self) -> FramingMode {
        self.mode
    }

    /// The bytes accumulated since the last frame boundary or discard.
    pub closed spec fn buffer(&self) -> Seq<u8> {
        self.buf@
    }

    /// A fresh assembler with an empty buffer.
    pub fn new(mode: FramingMode) -> (a: FrameAssembler)
        ensures
            a.strategy() == mode,
            a.buffer() == Seq::<u8>::empty(),
    {
        FrameAssembler { mode, buf: Vec::new() }
    }

    /// Feeds one byte; returns the frame it completes, if any.
    pub fn push_byte(&mut self, b: u8) -> (r: Option<Vec<u8>>)
        ensures
            final(self).strategy() == old(self).strategy(),
            final(self).buffer() == step(old(self).strategy(), old(self).buffer(), b).0,
            emitted_view(r) == step(old(self).strategy(), old(self).buffer(), b).1,
    {
        match self.mode {
            FramingMode::Delimited => {
                if b == ETX {
                    let n = self.buf.len();
                    let mut i: usize = 0;
                    while i < n && self.buf[i] != STX
                        invariant
                            i <= n == self.buf@.len(),
                            find_stx(self.buf@, 0) == find_stx(self.buf@, i as int),
                        decreases n - i,
                    {
                        i = i + 1;
                    }
                    proof {
                        assert(find_stx(self.buf@, 0) == i as int);
                    }
                    if i < n {
                        let out = copy_range(self.buf.as_slice(), i + 1, n);
                        self.buf = Vec::new();
                        Some(out)
                    } else {
                        self.buf = Vec::new();
                        None
                    }
                } else {
                    self.buf.push(b);
                    None
                }
            },
            FramingMode::LabelSync => {
                self.buf.push(b);
                let n = self.buf.len();
                if n > 4 {
                    let tail = copy_range(self.buf.as_slice(), n - 4, n);
                    let la = label_vec(Field::Adco);
                    if bytes_eq(tail.as_slice(), la.as_slice()) {
                        let out = copy_range(self.buf.as_slice(), 0, n - 4);
                        self.buf = tail;
                        Some(out)
                    } else {
                        None
                    }
                } else {
                    None
                }
            },
        }
    }

    /// Feeds a chunk of bytes; returns the frames completed inside it,
    /// in order.
    pub fn push_chunk(&mut self, chunk: &[u8]) -> (frames: Vec<Vec<u8>>)
        ensures
            final(self).strategy() == old(self).strategy(),
            final(self).buffer() == run(old(self).strategy(), old(self).buffer(), chunk@).0,
            frames.deep_view() == run(old(self).strategy(), old(self).buffer(), chunk@).1,
    {
        let ghost mode = self.mode;
        let ghost buf0 = self.buf@;
        let ghost c = chunk@;
        let mut frames: Vec<Vec<u8>> = Vec::new();
        let n = chunk.len();
        let mut i: usize = 0;
        proof {
            assert(c.subrange(0, c.len() as int) =~= c);
            assert(frames.deep_view() =~= Seq::<Seq<u8>>::empty());
        }
        while i < n
            invariant
                i <= n == c.len(),
                c == chunk@,
                self.strategy() == mode,
                run(mode, buf0, c).0 == run(mode, self.buffer(), c.subrange(i as int, n as int)).0,
                run(mode, buf0, c).1 == frames.deep_view() + run(
                    mode,
                    self.buffer(),
                    c.subrange(i as int, n as int),
                ).1,
            decreases n - i,
        {
            let ghost pre_buf = self.buffer();
            let ghost pre_frames = frames.deep_view();
            let b = chunk[i];
            let r = self.push_byte(b);
            proof {
                let rest = c.subrange(i as int, n as int);
                assert(rest[0] == b);
                assert(rest.drop_first() =~= c.subrange(i + 1, n as int));
            }
            match r {
                Some(f) => {
                    frames.push(f);
                    proof {
                        assert(frames.deep_view() =~~= pre_frames.push(f@));
                        assert(pre_frames + opt_seq(Some(f@)) =~= pre_frames.push(f@));
                        assert(pre_frames.push(f@) + run(
                            mode,
                            self.buffer(),
                            c.subrange(i + 1, n as int),
                        ).1 =~= pre_frames + (opt_seq(Some(f@)) + run(
                            mode,
                            self.buffer(),
                            c.subrange(i + 1, n as int),
                        ).1));
                    }
                },
                None => {
                    proof {
                        assert(pre_frames + (opt_seq(None) + run(
                            mode,
                            self.buffer(),
                            c.subrange(i + 1, n as int),
                        ).1) =~= pre_frames + run(
                            mode,
                            self.buffer(),
                            c.subrange(i + 1, n as int),
                        ).1);
                    }
                },
            }
            i = i + 1;
        }
        proof {
            assert(c.subrange(n as int, n as int) =~= Seq::<u8>::empty());
            assert(frames.deep_view() + Seq::<Seq<u8>>::empty() =~= frames.deep_view());
        }
        frames
    }
}

/// Chunking is irrelevant: an input split at any point yields the same
/// frames, in the same order, and the same final buffer as the input
/// fed whole. Byte-at-a-time delivery is the repeated special case.
pub proof fn lemma_chunking_irrelevant(mode: FramingMode, buf: Seq<u8>, a: Seq<u8>, b: Seq<u8>)
    ensures
        run(mode, buf, a + b).0 == run(mode, run(mode, buf, a).0, b).0,
        run(mode, buf, a + b).1 == run(mode, buf, a).1 + run(mode, run(mode, buf, a).0, b).1,
    decreases a.len(),
{
    if a.len() == 0 {
        assert(a + b =~= b);
        assert(run(mode, buf, a).1 + run(mode, run(mode, buf, a).0, b).1 =~= run(mode, buf, b).1);
    } else {
        let st = step(mode, buf, a[0]);
        assert((a + b)[0] == a[0]);
        assert((a + b).drop_first() =~= a.drop_first() + b);
        lemma_chunking_irrelevant(mode, st.0, a.drop_first(), b);
        assert(opt_seq(st.1) + (run(mode, st.0, a.drop_first()).1 + run(
            mode,
            run(mode, st.0, a.drop_first()).0,
            b,
        ).1) =~= (opt_seq(st.1) + run(mode, st.0, a.drop_first()).1) + run(
            mode,
            run(mode, st.0, a.drop_first()).0,
            b,
        ).1);
    }
}

/// With no start-of-frame byte yet seen, a delimited-mode assembler
/// emits no frame and reports no error: there is nothing to report on.
pub proof fn lemma_no_sync_no_frames(buf: Seq<u8>, input: Seq<u8>)
    requires
        forall|i: int| 0 <= i < buf.len() ==> buf[i] != STX,
        forall|i: int| 0 <= i < input.len() ==> input[i] != STX,
    ensures
        run(FramingMode::Delimited, buf, input).1 == Seq::<Seq<u8>>::empty(),
        forall|i: int|
            0 <= i < run(FramingMode::Delimited, buf, input).0.len() ==> run(
                FramingMode::Delimited,
                buf,
                input,
            ).0[i] != STX,
    decreases input.len(),
{
    if input.len() > 0 {
        let b = input[0];
        let st = step(FramingMode::Delimited, buf, b);
        if b == ETX {
            lemma_find_stx_absent(buf);
        }
        assert(forall|i: int| 0 <= i < st.0.len() ==> st.0[i] != STX);
        assert(forall|i: int|
            0 <= i < input.drop_first().len() ==> input.drop_first()[i] != STX);
        lemma_no_sync_no_frames(st.0, input.drop_first());
        assert(opt_seq(st.1) + run(FramingMode::Delimited, st.0, input.drop_first()).1
            =~= Seq::<Seq<u8>>::empty());
    }
}

/// A buffer without a start-of-frame byte has none to find.
proof fn lemma_find_stx_absent(buf: Seq<u8>)
    requires
        forall|i: int| 0 <= i < buf.len() ==> buf[i] != STX,
    ensures
        find_stx(buf, 0) == buf.len(),
{
    lemma_find_stx_absent_from(buf, 0);
}

/// Helper for [`lemma_find_stx_absent`], generalized over the start.
proof fn lemma_find_stx_absent_from(buf: Seq<u8>, from: int)
    requires
        0 <= from <= buf.len(),
        forall|i: int| from <= i < buf.len() ==> buf[i] != STX,
    ensures
        find_stx(buf, from) == buf.len(),
    decreases buf.len() - from,
{
    if from < buf.len() {
        lemma_find_stx_absent_from(buf, from + 1);
    }
}

/// One cleanly delimited frame comes out exactly as its text: an STX,
/// text free of control bytes, and an ETX yield that text alone,
/// starting from an empty buffer.
pub proof fn lemma_clean_frame(text: Seq<u8>)
    requires
        forall|i: int| 0 <= i < text.len() ==> text[i] != STX && text[i] != ETX,
    ensures
        run(FramingMode::Delimited, Seq::empty(), seq![STX] + text + seq![ETX]).1 == seq![text],
{
    let whole = seq![STX] + text + seq![ETX];
    assert(whole[0] == STX);
    assert(whole.drop_first() =~= text + seq![ETX]);
    let buf1 = step(FramingMode::Delimited, Seq::empty(), STX).0;
    assert(buf1 =~= seq![STX]);
    lemma_fill_no_ctl(buf1, text);
    let buf2 = run(FramingMode::Delimited, buf1, text).0;
    assert(buf2 =~= seq![STX] + text);
    lemma_chunking_irrelevant(FramingMode::Delimited, buf1, text, seq![ETX]);
    assert(find_stx(buf2, 0) == 0);
    let st = step(FramingMode::Delimited, buf2, ETX);
    assert(st.1 == Some(buf2.subrange(1, buf2.len() as int)));
    assert(buf2.subrange(1, buf2.len() as int) =~= text);
    assert(seq![ETX][0] == ETX);
    assert(seq![ETX].drop_first() =~= Seq::<u8>::empty());
    assert(run(FramingMode::Delimited, st.0, Seq::<u8>::empty()).1 == Seq::<Seq<u8>>::empty());
    assert(run(FramingMode::Delimited, buf2, seq![ETX]).1 =~= opt_seq(st.1) + Seq::<
        Seq<u8>,
    >::empty());
    assert(run(FramingMode::Delimited, buf2, seq![ETX]).1 =~= opt_seq(st.1));
    assert(run(FramingMode::Delimited, Seq::empty(), whole).1 =~= opt_seq(None) + (Seq::<
        Seq<u8>,
    >::empty() + opt_seq(st.1)));
    assert(run(FramingMode::Delimited, Seq::empty(), whole).1 =~= seq![text]);
}

/// Feeding control-byte-free text only accumulates it.
proof fn lemma_fill_no_ctl(buf: Seq<u8>, text: Seq<u8>)
    requires
        forall|i: int| 0 <= i < text.len() ==> text[i] != STX && text[i] != ETX,
    ensures
        run(FramingMode::Delimited, buf, text).0 == buf + text,
        run(FramingMode::Delimited, buf, text).1 == Seq::<Seq<u8>>::empty(),
    decreases text.len(),
{
    if text.len() == 0 {
        assert(buf + text =~= buf);
    } else {
        let st = step(FramingMode::Delimited, buf, text[0]);
        assert(st.0 =~= buf.push(text[0]));
        assert(forall|i: int|
            0 <= i < text.drop_first().len() ==> text.drop_first()[i] != STX
                && text.drop_first()[i] != ETX);
        lemma_fill_no_ctl(st.0, text.drop_first());
        assert(buf.push(text[0]) + text.drop_first() =~= buf + text);
        assert(opt_seq(st.1) + Seq::<Seq<u8>>::empty() =~= Seq::<Seq<u8>>::empty());
    }
}

} // verus!
