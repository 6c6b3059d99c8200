//! The decoder for the event-line response protocol. Bytes arrive in chunks
//! of any size; lines are cut at `\n` on the byte level, so a character split
//! across two chunks is only decoded once its whole line is there.
use vstd::prelude::*;
use crate::json::{json_parse, payload_content, read_payload};

verus! {

/// The line terminator.
pub const NEWLINE: u8 = 10;

/// One decoded protocol event.
pub enum Frame {
    /// A content fragment of the answer.
    Delta(String),
    /// The end marker: the logical stream is over.
    Done,
    /// A payload that is not JSON; skipped by its consumer.
    Unparseable,
}

/// The mathematical content of a `Frame`.
pub enum FrameView {
    Delta(Seq<char>),
    Done,
    Unparseable,
}

impl View for Frame {
    type V = FrameView;

    open spec fn view(&self) -> FrameView {
        match self {
            Frame::Delta(s) => FrameView::Delta(s@),
            Frame::Done => FrameView::Done,
            Frame::Unparseable => FrameView::Unparseable,
        }
    }
}

pub open spec fn frames_view(frames: Seq<Frame>) -> Seq<FrameView> {
    frames.map_values(|f: Frame| f@)
}

/// Whitespace that is trimmed from both ends of a line.
pub open spec fn is_space(b: u8) -> bool {
    b == 32 || b == 9 || b == 10 || b == 12 || b == 13
}

pub open spec fn trim_start(s: Seq<u8>) -> Seq<u8>
    decreases s.len(),
{
    if s.len() > 0 && is_space(s[0]) {
        trim_start(s.drop_first())
    } else {
        s
    }
}

pub open spec fn trim_end(s: Seq<u8>) -> Seq<u8>
    decreases s.len(),
{
    if s.len() > 0 && is_space(s.last()) {
        trim_end(s.drop_last())
    } else {
        s
    }
}

pub open spec fn trim(s: Seq<u8>) -> Seq<u8> {
    trim_end(trim_start(s))
}

/// `data: `, the prefix of an event line.
pub open spec fn data_prefix() -> Seq<u8> {
    seq![100u8, 97u8, 116u8, 97u8, 58u8, 32u8]
}

/// `[DONE]`, the payload that ends the stream.
pub open spec fn done_marker() -> Seq<u8> {
    seq![91u8, 68u8, 79u8, 78u8, 69u8, 93u8]
}

pub open spec fn strip_data_prefix(s: Seq<u8>) -> Seq<u8> {
    if s.len() >= 6 && s.take(6) == data_prefix() {
        s.skip(6)
    } else {
        s
    }
}

/// The frame that one complete line (without its terminator) yields, if any.
pub open spec fn line_frame(line: Seq<u8>) -> Option<FrameView> {
    let t = trim(line);
    if t.len() == 0 {
        None
    } else {
        let p = strip_data_prefix(t);
        if p == done_marker() {
            Some(FrameView::Done)
        } else {
            match payload_content(p) {
                None => Some(FrameView::Unparseable),
                Some(None) => None,
                Some(Some(c)) => Some(FrameView::Delta(c)),
            }
        }
    }
}

/// Lines completed so far, and the unterminated tail.
pub struct LineSplit {
    pub lines: Seq<Seq<u8>>,
    pub rest: Seq<u8>,
}

/// Cuts `chunk` into lines, continuing the partial line `rest`.
pub open spec fn scan(rest: Seq<u8>, chunk: Seq<u8>) -> LineSplit
    decreases chunk.len(),
{
    if chunk.len() == 0 {
        LineSplit { lines: seq![], rest }
    } else {
        let p = scan(rest, chunk.drop_last());
        if chunk.last() == NEWLINE {
            LineSplit { lines: p.lines.push(p.rest), rest: seq![] }
        } else {
            LineSplit { lines: p.lines, rest: p.rest.push(chunk.last()) }
        }
    }
}

/// The frames of a run of lines, and whether the end marker has been seen;
/// once it has (`done`), later lines yield nothing.
pub open spec fn frames_from(done: bool, lines: Seq<Seq<u8>>) -> (Seq<FrameView>, bool)
    decreases lines.len(),
{
    if lines.len() == 0 {
        (seq![], done)
    } else {
        let p = frames_from(done, lines.drop_last());
        if p.1 {
            p
        } else {
            match line_frame(lines.last()) {
                None => p,
                Some(f) => (p.0.push(f), f == FrameView::Done),
            }
        }
    }
}

/// The state of a decoder: the partial line it holds, and whether the
/// stream has ended.
pub struct DecoderState {
    pub rest: Seq<u8>,
    pub done: bool,
}

pub open spec fn initial_state() -> DecoderState {
    DecoderState { rest: seq![], done: false }
}

/// One chunk fed to a decoder in state `st`: the next state and the frames
/// that come out.
pub open spec fn step(st: DecoderState, chunk: Seq<u8>) -> (DecoderState, Seq<FrameView>) {
    if st.done {
        (st, seq![])
    } else {
        let sp = scan(st.rest, chunk);
        let fr = frames_from(false, sp.lines);
        (DecoderState { rest: if fr.1 { seq![] } else { sp.rest }, done: fr.1 }, fr.0)
    }
}

/// Decodes one complete line (without its terminator).
pub fn decode_line(line: &[u8]) -> (r: Option<Frame>)
    ensures
        match r {
            Some(f) => line_frame(line@) == Some(f@),
            None => line_frame(line@) is None,
        },
{
    let n = line.len();
    let mut start: usize = 0;
    assert(line@.subrange(0, n as int) =~= line@);
    while start < n && (line[start] == 32 || line[start] == 9 || line[start] == 10
        || line[start] == 12 || line[start] == 13)
        invariant
            n == line@.len(),
            start <= n,
            trim_start(line@) == trim_start(line@.subrange(start as int, n as int)),
        decreases n - start,
    {
        assert(line@.subrange(start as int, n as int).drop_first()
            =~= line@.subrange(start + 1, n as int));
        start = start + 1;
    }
    let ghost ts = line@.subrange(start as int, n as int);
    assert(trim_start(ts) == ts);
    let mut end: usize = n;
    while end > start && (line[end - 1] == 32 || line[end - 1] == 9 || line[end - 1] == 10
        || line[end - 1] == 12 || line[end - 1] == 13)
        invariant
            n == line@.len(),
            start <= end <= n,
            trim(line@) == trim_end(line@.subrange(start as int, end as int)),
        decreases end - start,
    {
        assert(line@.subrange(start as int, end as int).drop_last()
            =~= line@.subrange(start as int, end - 1));
        end = end - 1;
    }
    let ghost t = line@.subrange(start as int, end as int);
    assert(trim(line@) == t);
    if start == end {
        return None;
    }
    let mut p: usize = start;
    if end - start >= 6 && line[start] == 100 && line[start + 1] == 97 && line[start + 2] == 116
        && line[start + 3] == 97 && line[start + 4] == 58 && line[start + 5] == 32 {
        assert(t.take(6) =~= data_prefix());
        p = start + 6;
        assert(strip_data_prefix(t) =~= line@.subrange(p as int, end as int));
    } else {
        assert(!(t.len() >= 6 && t.take(6) == data_prefix())) by {
            if t.len() >= 6 && t.take(6) == data_prefix() {
                assert(t.take(6)[0] == 100u8 && t.take(6)[1] == 97u8 && t.take(6)[2] == 116u8);
                assert(t.take(6)[3] == 97u8 && t.take(6)[4] == 58u8 && t.take(6)[5] == 32u8);
            }
        }
        assert(strip_data_prefix(t) =~= line@.subrange(p as int, end as int));
    }
    let ghost payload = line@.subrange(p as int, end as int);
    if end - p == 6 && line[p] == 91 && line[p + 1] == 68 && line[p + 2] == 79
        && line[p + 3] == 78 && line[p + 4] == 69 && line[p + 5] == 93 {
        assert(payload =~= done_marker());
        return Some(Frame::Done);
    }
    assert(payload != done_marker()) by {
        if payload == done_marker() {
            assert(payload[0] == 91u8 && payload[1] == 68u8 && payload[2] == 79u8);
            assert(payload[3] == 78u8 && payload[4] == 69u8 && payload[5] == 93u8);
        }
    }
    match read_payload(&line[p..end]) {
        None => Some(Frame::Unparseable),
        Some(None) => None,
        Some(Some(c)) => Some(Frame::Delta(c)),
    }
}

/// Turns byte chunks into frames. It keeps at most one unterminated line
/// between chunks, and ignores everything after the end marker.
pub struct FrameDecoder {
    buffer: Vec<u8>,
    done: bool,
}

impl View for FrameDecoder {
    type V = DecoderState;

    closed spec fn view(&self) -> DecoderState {
        DecoderState { rest: self.buffer@, done: self.done }
    }
}

impl FrameDecoder {
    /// The held line has no terminator in it, and nothing is held once the
    /// stream has ended.
    pub open spec fn wf(&self) -> bool {
        &&& !self@.rest.contains(NEWLINE)
        &&& (self@.done ==> self@.rest.len() == 0)
    }

    pub fn new() -> (r: FrameDecoder)
        ensures
            r@ == initial_state(),
            r.wf(),
    {
        FrameDecoder { buffer: Vec::new(), done: false }
    }

    /// Whether the end marker has been seen.
    pub fn is_done(&self) -> (r: bool)
        ensures
            r == self@.done,
    {
        self.done
    }

    /// Feeds one chunk and returns the frames that it completes, in order.
    pub fn feed(&mut self, chunk: &[u8]) -> (out: Vec<Frame>)
        requires
            old(self).wf(),
        ensures
            final(self).wf(),
            final(self)@ == step(old(self)@, chunk@).0,
            frames_view(out@) == step(old(self)@, chunk@).1,
    {
        let mut out: Vec<Frame> = Vec::new();
        if self.done {
            assert(frames_view(out@) =~= seq![]);
            return out;
        }
        let ghost rest0 = self.buffer@;
        let n = chunk.len();
        let mut i: usize = 0;
        assert(chunk@.take(0) =~= seq![]);
        assert(frames_view(out@) =~= seq![]);
        while i < n
            invariant
                n == chunk@.len(),
                i <= n,
                !rest0.contains(NEWLINE),
                !self.buffer@.contains(NEWLINE),
                ({
                    let sp = scan(rest0, chunk@.take(i as int));
                    let fr = frames_from(false, sp.lines);
                    &&& frames_view(out@) == fr.0
                    &&& self.done == fr.1
                    &&& (!fr.1 ==> self.buffer@ == sp.rest)
                    &&& (fr.1 ==> self.buffer@.len() == 0)
                }),
            decreases n - i,
        {
            let b = chunk[i];
            let ghost sp0 = scan(rest0, chunk@.take(i as int));
            let ghost fr0 = frames_from(false, sp0.lines);
            let ghost sp1 = scan(rest0, chunk@.take(i + 1));
            assert(chunk@.take(i + 1).drop_last() =~= chunk@.take(i as int));
            assert(chunk@.take(i + 1).last() == b);
            if b == NEWLINE {
                assert(sp1.lines == sp0.lines.push(sp0.rest));
                assert(sp1.lines.drop_last() =~= sp0.lines);
            } else {
                assert(sp1.lines == sp0.lines);
                assert(sp1.rest == sp0.rest.push(b));
            }
            if !self.done {
                if b == NEWLINE {
                    let f = decode_line(self.buffer.as_slice());
                    match f {
                        Some(f) => {
                            let is_end = match f {
                                Frame::Done => true,
                                _ => false,
                            };
                            out.push(f);
                            if is_end {
                                self.done = true;
                            }
                        },
                        None => {},
                    }
                    self.buffer.clear();
                    assert(frames_view(out@) =~= frames_from(false, sp1.lines).0);
                } else {
                    self.buffer.push(b);
                    assert(!self.buffer@.contains(NEWLINE)) by {
                        if self.buffer@.contains(NEWLINE) {
                            let k = choose|k: int| 0 <= k < self.buffer@.len() && self.buffer@[k] == NEWLINE;
                            if k < self.buffer@.len() - 1 {
                                assert(self.buffer@[k] == sp0.rest[k]);
                            }
                        }
                    }
                }
            }
            i = i + 1;
        }
        assert(chunk@.take(n as int) =~= chunk@);
        assert(self.done ==> self.buffer@ =~= seq![]);
        out
    }
}

/// Feeds the chunks one after another, collecting the frames.
pub open spec fn feed_all(st: DecoderState, chunks: Seq<Seq<u8>>) -> (DecoderState, Seq<FrameView>)
    decreases chunks.len(),
{
    if chunks.len() == 0 {
        (st, seq![])
    } else {
        let s1 = step(st, chunks[0]);
        let r = feed_all(s1.0, chunks.drop_first());
        (r.0, s1.1 + r.1)
    }
}

/// Cutting `x + y` into lines is cutting `x`, then cutting `y` from where
/// `x` left off.
pub proof fn lemma_scan_append(rest: Seq<u8>, x: Seq<u8>, y: Seq<u8>)
    ensures
        ({
            let a = scan(rest, x);
            let b = scan(a.rest, y);
            scan(rest, x + y) == LineSplit { lines: a.lines + b.lines, rest: b.rest }
        }),
    decreases y.len(),
{
    let a = scan(rest, x);
    if y.len() == 0 {
        assert(x + y =~= x);
        assert(a.lines + seq![] =~= a.lines);
    } else {
        lemma_scan_append(rest, x, y.drop_last());
        assert((x + y).drop_last() =~= x + y.drop_last());
        assert((x + y).last() == y.last());
        let b0 = scan(a.rest, y.drop_last());
        assert((a.lines + b0.lines).push(b0.rest) =~= a.lines + b0.lines.push(b0.rest));
    }
}

/// A chunk without a terminator only extends the partial line.
pub proof fn lemma_scan_no_newline(rest: Seq<u8>, c: Seq<u8>)
    requires
        !c.contains(NEWLINE),
    ensures
        scan(rest, c) == (LineSplit { lines: seq![], rest: rest + c }),
    decreases c.len(),
{
    if c.len() == 0 {
        assert(rest + c =~= rest);
    } else {
        assert(c.last() == c[c.len() - 1]);
        assert(!c.drop_last().contains(NEWLINE)) by {
            if c.drop_last().contains(NEWLINE) {
                let k = choose|k: int| 0 <= k < c.drop_last().len() && c.drop_last()[k] == NEWLINE;
                assert(c[k] == NEWLINE);
            }
        }
        lemma_scan_no_newline(rest, c.drop_last());
        assert((rest + c.drop_last()).push(c.last()) =~= rest + c);
    }
}

/// Once the end marker is seen, later lines yield nothing.
pub proof fn lemma_frames_after_done(lines: Seq<Seq<u8>>)
    ensures
        frames_from(true, lines) == (Seq::<FrameView>::empty(), true),
    decreases lines.len(),
{
    if lines.len() > 0 {
        lemma_frames_after_done(lines.drop_last());
    }
}

/// The frames of two runs of lines are those of the first, then those of
/// the second from where the first left off.
pub proof fn lemma_frames_append(done: bool, a: Seq<Seq<u8>>, b: Seq<Seq<u8>>)
    ensures
        ({
            let p = frames_from(done, a);
            let q = frames_from(p.1, b);
            frames_from(done, a + b) == (p.0 + q.0, q.1)
        }),
    decreases b.len(),
{
    let p = frames_from(done, a);
    if b.len() == 0 {
        assert(a + b =~= a);
        assert(p.0 + seq![] =~= p.0);
    } else {
        lemma_frames_append(done, a, b.drop_last());
        assert((a + b).drop_last() =~= a + b.drop_last());
        assert((a + b).last() == b.last());
        let q0 = frames_from(p.1, b.drop_last());
        match line_frame(b.last()) {
            Some(f) => {
                assert((p.0 + q0.0).push(f) =~= p.0 + q0.0.push(f));
            },
            None => {},
        }
    }
}

/// Feeding `x` and then `y` is feeding `x + y` at once.
pub proof fn lemma_step_append(st: DecoderState, x: Seq<u8>, y: Seq<u8>)
    ensures
        ({
            let s1 = step(st, x);
            let s2 = step(s1.0, y);
            step(st, x + y) == (s2.0, s1.1 + s2.1)
        }),
{
    let s1 = step(st, x);
    let s2 = step(s1.0, y);
    if st.done {
        assert(s1.1 + s2.1 =~= seq![]);
    } else {
        let a = scan(st.rest, x);
        let b = scan(a.rest, y);
        lemma_scan_append(st.rest, x, y);
        lemma_frames_append(false, a.lines, b.lines);
        let p = frames_from(false, a.lines);
        if p.1 {
            lemma_frames_after_done(b.lines);
            assert(s1.1 + s2.1 =~= p.0);
            assert(p.0 + Seq::<FrameView>::empty() =~= p.0);
        }
    }
}

/// Decoding does not depend on how the bytes are cut into chunks: feeding
/// any partition of a byte sequence, chunk by chunk, gives the same frames
/// and the same final state as feeding the whole sequence as one chunk.
pub proof fn lemma_chunking_irrelevant(st: DecoderState, chunks: Seq<Seq<u8>>)
    ensures
        feed_all(st, chunks) == step(st, chunks.flatten()),
    decreases chunks.len(),
{
    if chunks.len() == 0 {
        assert(chunks.flatten() =~= Seq::<u8>::empty());
        if !st.done {
            assert(scan(st.rest, seq![]) == LineSplit { lines: seq![], rest: st.rest });
        }
    } else {
        let s1 = step(st, chunks[0]);
        lemma_chunking_irrelevant(s1.0, chunks.drop_first());
        lemma_step_append(st, chunks[0], chunks.drop_first().flatten());
        assert(chunks.flatten() == chunks[0] + chunks.drop_first().flatten());
    }
}

/// The line `data: [DONE]` with its terminator.
pub open spec fn done_line() -> Seq<u8> {
    (data_prefix() + done_marker()).push(NEWLINE)
}

proof fn lemma_done_line_decodes()
    ensures
        step(initial_state(), done_line()) == (
            DecoderState { rest: seq![], done: true },
            seq![FrameView::Done],
        ),
{
    let body = data_prefix() + done_marker();
    assert(!body.contains(NEWLINE)) by {
        if body.contains(NEWLINE) {
            let k = choose|k: int| 0 <= k < body.len() && body[k] == NEWLINE;
            if k < 6 {
                assert(body[k] == data_prefix()[k]);
            } else {
                assert(body[k] == done_marker()[k - 6]);
            }
        }
    }
    lemma_scan_no_newline(seq![], body);
    assert(done_line().drop_last() =~= body);
    assert(seq![] + body =~= body);
    let sp = scan(seq![], done_line());
    assert(sp.lines == seq![body]);
    assert(sp.lines.drop_last() =~= Seq::<Seq<u8>>::empty());
    assert(trim_start(body) == body);
    assert(trim_end(body) == body);
    assert(body.take(6) =~= data_prefix());
    assert(body.skip(6) =~= done_marker());
    assert(line_frame(body) == Some(FrameView::Done));
    assert(sp.lines.last() == body);
    assert(frames_from(false, sp.lines.drop_last()) == (Seq::<FrameView>::empty(), false));
    assert(Seq::<FrameView>::empty().push(FrameView::Done) =~= seq![FrameView::Done]);
    assert(frames_from(false, sp.lines) == (seq![FrameView::Done], true));
}

/// The end-marker line, split into two chunks at any byte offset, yields
/// exactly one `Done` and nothing else.
pub proof fn lemma_done_line_split(k: int)
    requires
        0 <= k <= done_line().len(),
    ensures
        feed_all(initial_state(), seq![done_line().take(k), done_line().skip(k)]).1
            == seq![FrameView::Done],
{
    let l = done_line();
    let chunks = seq![l.take(k), l.skip(k)];
    lemma_chunking_irrelevant(initial_state(), chunks);
    assert(chunks.drop_first() =~= seq![l.skip(k)]);
    assert(chunks.drop_first().drop_first() =~= Seq::<Seq<u8>>::empty());
    assert(chunks.drop_first().drop_first().flatten() =~= Seq::<u8>::empty());
    assert(chunks.drop_first().flatten() =~= l.skip(k));
    assert(chunks.flatten() =~= l);
    lemma_done_line_decodes();
}

/// A line whose payload is not JSON yields one `Unparseable`, and decoding
/// goes on with the bytes after it as if that line were not there.
pub proof fn lemma_malformed_line_skipped(line: Seq<u8>, more: Seq<u8>)
    requires
        !line.contains(NEWLINE),
        trim(line).len() > 0,
        strip_data_prefix(trim(line)) != done_marker(),
        json_parse(strip_data_prefix(trim(line))) is None,
    ensures
        step(initial_state(), line.push(NEWLINE) + more) == (
            step(initial_state(), more).0,
            seq![FrameView::Unparseable] + step(initial_state(), more).1,
        ),
{
    lemma_step_append(initial_state(), line.push(NEWLINE), more);
    lemma_scan_no_newline(seq![], line);
    assert(line.push(NEWLINE).drop_last() =~= line);
    assert(seq![] + line =~= line);
    let sp = scan(seq![], line.push(NEWLINE));
    assert(sp.lines == seq![line]);
    assert(sp.lines.drop_last() =~= Seq::<Seq<u8>>::empty());
    assert(line_frame(line) == Some(FrameView::Unparseable));
    assert(sp.lines.last() == line);
    assert(frames_from(false, sp.lines.drop_last()) == (Seq::<FrameView>::empty(), false));
    assert(Seq::<FrameView>::empty().push(FrameView::Unparseable) =~= seq![FrameView::Unparseable]);
    assert(frames_from(false, sp.lines) == (seq![FrameView::Unparseable], false));
    assert(sp.rest =~= Seq::<u8>::empty());
    assert(step(initial_state(), line.push(NEWLINE)).0 == initial_state());
}

} // verus!
