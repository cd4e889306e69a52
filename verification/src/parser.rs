//! The decoder as a state machine that never touches the byte source.
//!
//! A [`Parser`] says which bytes it needs next ([`Parser::request`]); whoever
//! owns the source reads them and hands them over ([`Parser::feed`]), or
//! reports that the read failed ([`Parser::fail`]). The source is read at
//! strictly increasing offsets, eight bytes for each header and the body of
//! each chunk offset table; the payload of no other box is ever asked for.

use crate::atom_name::{AtomName, Decoder};
use crate::boxes::stco::chunk_table_of;
use crate::boxes::{BoxNode, ChunkOffsetBox, Mp4Box};
use crate::error::{unexpected_end, Error, ErrorView};
use crate::header::{header_of, result_view, Header, HeaderView};
use crate::layout::MAX_DEPTH;
use crate::model::{lemma_fresh, lemma_put_keeps, lemma_root_put_keeps, Mp4View, NodeView};
use crate::mp4::Mp4;
use vstd::prelude::*;

verus! {

/// A request to read `len` bytes at absolute offset `offset`.
#[derive(Debug, Clone, Copy, PartialEq, Eq, Structural)]
pub struct Request {
    pub offset: u64,
    pub len: usize,
}

/// The mathematical value of a [`Request`].
pub struct RequestView {
    pub offset: int,
    pub len: int,
}

/// A container whose body is being walked.
pub struct FrameView {
    /// The container with the children found so far.
    pub node: NodeView,
    /// Where the next child of the container starts.
    pub cursor: int,
}

/// What a parser waits for.
pub enum PendingView {
    /// The eight header bytes at the cursor of the innermost open container.
    Header,
    /// The body of the chunk offset table whose header is `header`.
    Table { header: HeaderView, wide: bool },
    /// Nothing: the file was decoded.
    Done,
    /// Nothing: decoding failed.
    Failed(ErrorView),
}

/// The mathematical value of a [`Parser`].
pub struct ParserView {
    /// The root with the top-level boxes found so far.
    pub root: Mp4View,
    /// Where the next top-level box starts.
    pub cursor: int,
    /// The open containers, outermost first. Each is the box that starts
    /// at the cursor of the one before it.
    pub frames: Seq<FrameView>,
    /// What the parser waits for.
    pub pending: PendingView,
}

/// The detail of the `IO` error for a read that delivered a number of bytes
/// other than the number asked for.
pub open spec fn short_read() -> Seq<char> {
    "short read"@
}

/// The detail of the `IO` error for a parser that is asked for its result
/// before the source was read to its end.
pub open spec fn unfinished() -> Seq<char> {
    "unfinished"@
}

/// The offset at which frame `i` was opened: the cursor of the container
/// around it, or the top-level cursor `cursor`.
pub open spec fn outer_cursor(frames: Seq<FrameView>, cursor: int, i: int) -> int {
    if i == 0 {
        cursor
    } else {
        frames[i - 1].cursor
    }
}

/// The end of the container around frame `i`; for the outermost frame the
/// end of the file, `size`.
pub open spec fn outer_end(frames: Seq<FrameView>, size: int, i: int) -> int {
    if i == 0 {
        size
    } else {
        frames[i - 1].node.header().end()
    }
}

/// Frame `i` is an open container at depth `i + 1` that starts at the
/// cursor of the container around it and ends inside it, with its own
/// cursor inside its body.
pub open spec fn frame_ok(frames: Seq<FrameView>, cursor: int, size: int, i: int) -> bool {
    let frame = frames[i];
    &&& frame.node.is_container()
    &&& frame.node.header().wf()
    &&& frame.node.level() == i + 1
    &&& frame.node.header().body_start() <= frame.cursor <= frame.node.header().end()
    &&& frame.node.header().start == outer_cursor(frames, cursor, i)
    &&& frame.node.header().end() <= outer_end(frames, size, i)
}

impl ParserView {
    /// Where the next box starts: in the innermost open container, or at
    /// the top level.
    pub open spec fn top_cursor(self) -> int {
        if self.frames.len() == 0 {
            self.cursor
        } else {
            self.frames.last().cursor
        }
    }

    /// Where the innermost open container ends; the end of the file when
    /// none is open.
    pub open spec fn top_end(self) -> int {
        if self.frames.len() == 0 {
            self.root.size
        } else {
            self.frames.last().node.header().end()
        }
    }

    /// The nesting depth of the next box.
    pub open spec fn child_level(self) -> int {
        self.frames.len() as int + 1
    }

    /// The parser with `pending` as what it waits for.
    pub open spec fn waiting(self, pending: PendingView) -> ParserView {
        ParserView { pending, ..self }
    }

    /// What the parser asks for: an offset and a number of bytes. `None`
    /// once decoding has ended.
    pub open spec fn request(self) -> Option<RequestView> {
        match self.pending {
            PendingView::Header => Some(RequestView { offset: self.top_cursor(), len: 8 }),
            PendingView::Table { header, wide } => Some(
                RequestView { offset: header.body_start(), len: header.size - 8 },
            ),
            _ => None,
        }
    }

    /// The bytes of `data` that the parser asks for; no bytes where it asks
    /// for nothing.
    pub open spec fn asked_of(self, data: Seq<u8>) -> Seq<u8> {
        match self.request() {
            Some(q) => data.subrange(q.offset, q.offset + q.len),
            None => Seq::empty(),
        }
    }

    /// The parser after `child` was found at the cursor: the innermost open
    /// container (or the root) takes it in, and the cursor moves past it.
    pub open spec fn delivered(self, child: NodeView) -> ParserView {
        if self.frames.len() == 0 {
            ParserView { root: self.root.put(child), cursor: child.header().end(), ..self }
        } else {
            let top = self.frames.last();
            ParserView {
                frames: self.frames.drop_last().push(
                    FrameView { node: top.node.put(child), cursor: child.header().end() },
                ),
                ..self
            }
        }
    }

    /// The parser without its innermost open container.
    pub open spec fn popped(self) -> ParserView {
        ParserView { frames: self.frames.drop_last(), ..self }
    }

    /// The parser with `node` as its new innermost open container, the
    /// body of which is still to be walked.
    pub open spec fn pushed(self, node: NodeView) -> ParserView {
        ParserView {
            frames: self.frames.push(FrameView { node, cursor: node.header().body_start() }),
            ..self
        }
    }

    /// The parser after it has closed every open container whose end the
    /// cursor has reached, each one delivered to the container around it,
    /// and has decided what comes next: the file is done, another header is
    /// to be read, or the next box cannot be.
    pub open spec fn settled(self) -> ParserView
        decreases self.frames.len(),
    {
        if self.top_cursor() >= self.top_end() {
            if self.frames.len() == 0 {
                self.waiting(PendingView::Done)
            } else {
                self.popped().delivered(self.frames.last().node).settled()
            }
        } else if self.child_level() > MAX_DEPTH {
            self.waiting(PendingView::Failed(ErrorView::NestingTooDeep))
        } else if self.top_end() - self.top_cursor() < 8 {
            self.waiting(PendingView::Failed(ErrorView::TruncatedHeader))
        } else {
            self.waiting(PendingView::Header)
        }
    }

    /// The parser for the file named `file`, of `size` bytes, before
    /// anything was read.
    pub open spec fn start(file: Seq<char>, size: int) -> ParserView {
        let blank = ParserView {
            root: Mp4View::empty(file, size),
            cursor: 0,
            frames: Seq::empty(),
            pending: PendingView::Header,
        };
        if size < 4 {
            blank.waiting(PendingView::Failed(ErrorView::UnrecognizedFile))
        } else {
            blank.settled()
        }
    }

    /// The parser after `header` was read at the cursor. A box that would
    /// end after the file fails with the `IO` error of an unexpected end, one
    /// that ends inside the file but after the container around it with
    /// `TruncatedBody`; the table of a chunk offset table is asked for; a
    /// container is opened; any other box is a leaf and is delivered.
    pub open spec fn opened(self, header: HeaderView) -> ParserView {
        if header.end() > self.root.size {
            self.waiting(PendingView::Failed(ErrorView::IO(unexpected_end())))
        } else if header.end() > self.top_end() {
            self.waiting(PendingView::Failed(ErrorView::TruncatedBody))
        } else {
            let decoder = AtomName::of(header.name).decoder_of();
            match decoder {
                Decoder::ChunkOffsets { wide } => if header.size < 16 {
                    self.waiting(PendingView::Failed(ErrorView::TruncatedBody))
                } else {
                    self.waiting(PendingView::Table { header, wide })
                },
                _ => {
                    let node = NodeView::fresh(decoder, header, self.child_level());
                    if decoder.is_container() {
                        self.pushed(node).settled()
                    } else {
                        self.delivered(node).settled()
                    }
                },
            }
        }
    }

    /// The parser after the bytes `bytes` were handed over in answer to its
    /// request. A number of bytes other than the number asked for is an
    /// `IO` failure. A parser that asked for nothing stays as it is.
    pub open spec fn fed(self, bytes: Seq<u8>) -> ParserView {
        match self.pending {
            PendingView::Header => if bytes.len() != 8 {
                self.waiting(PendingView::Failed(ErrorView::IO(short_read())))
            } else {
                match header_of(bytes, self.top_cursor()) {
                    Err(e) => self.waiting(PendingView::Failed(e)),
                    Ok(header) => self.opened(header),
                }
            },
            PendingView::Table { header, wide } => if bytes.len() != header.size - 8 {
                self.waiting(PendingView::Failed(ErrorView::IO(short_read())))
            } else {
                match chunk_table_of(header, self.child_level(), bytes, wide) {
                    Err(e) => self.waiting(PendingView::Failed(e)),
                    Ok(table) => self.delivered(NodeView::ChunkOffset(table)).settled(),
                }
            },
            _ => self,
        }
    }

    /// The parser after the read it asked for failed with `detail`. A
    /// parser that asked for nothing stays as it is.
    pub open spec fn failed(self, detail: Seq<char>) -> ParserView {
        match self.pending {
            PendingView::Header | PendingView::Table { .. } => self.waiting(
                PendingView::Failed(ErrorView::IO(detail)),
            ),
            _ => self,
        }
    }

    /// The result of the parse: the root once decoding is done, the error
    /// once it has failed, and an `IO` error while a request is open.
    pub open spec fn outcome(self) -> Result<Mp4View, ErrorView> {
        match self.pending {
            PendingView::Done => Ok(self.root),
            PendingView::Failed(e) => Err(e),
            _ => Err(ErrorView::IO(unfinished())),
        }
    }

    /// The cursors and the open containers are consistent with each other.
    pub open spec fn frames_wf(self) -> bool {
        &&& 0 <= self.cursor <= self.root.size <= u64::MAX
        &&& self.frames.len() <= MAX_DEPTH
        &&& forall|i: int|
            0 <= i < self.frames.len() ==> #[trigger] frame_ok(
                self.frames,
                self.cursor,
                self.root.size,
                i,
            )
    }

    /// The parser is in a state that [`ParserView::start`] and
    /// [`ParserView::fed`] can reach.
    pub open spec fn wf(self) -> bool {
        &&& self.frames_wf()
        &&& match self.pending {
            PendingView::Header => {
                &&& self.top_cursor() + 8 <= self.top_end()
                &&& self.child_level() <= MAX_DEPTH
            },
            PendingView::Table { header, wide } => {
                &&& header.wf()
                &&& header.size >= 16
                &&& header.start == self.top_cursor()
                &&& header.end() <= self.top_end()
                &&& self.child_level() <= MAX_DEPTH
            },
            PendingView::Done => self.frames.len() == 0 && self.cursor == self.root.size,
            PendingView::Failed(_) => true,
        }
    }
}

/// Delivering a box that lies between the cursor and the end of the
/// innermost open container keeps cursors and open containers consistent.
pub proof fn lemma_delivered_wf(s: ParserView, child: NodeView)
    requires
        s.frames_wf(),
        s.top_cursor() <= child.header().end() <= s.top_end(),
    ensures
        s.delivered(child).frames_wf(),
        s.delivered(child).frames.len() == s.frames.len(),
        s.delivered(child).top_end() == s.top_end(),
        s.delivered(child).top_cursor() == child.header().end(),
        s.delivered(child).root.size == s.root.size,
        s.delivered(child).root.file == s.root.file,
        s.delivered(child).pending == s.pending,
{
    let d = s.delivered(child);
    lemma_root_put_keeps(s.root, child);
    if s.frames.len() > 0 {
        lemma_put_keeps(s.frames.last().node, child);
        assert forall|i: int| 0 <= i < d.frames.len() implies #[trigger] frame_ok(
            d.frames,
            d.cursor,
            d.root.size,
            i,
        ) by {
            assert(frame_ok(s.frames, s.cursor, s.root.size, i));
        }
    }
}

/// Closing the innermost open container leaves cursors and open containers
/// consistent, and the closed container lies between the cursor and the
/// end of the container around it.
pub proof fn lemma_popped_wf(s: ParserView)
    requires
        s.frames_wf(),
        s.frames.len() > 0,
    ensures
        s.popped().frames_wf(),
        s.frames.last().node.header().wf(),
        s.frames.last().node.header().start == s.popped().top_cursor(),
        s.frames.last().node.header().end() <= s.popped().top_end(),
        s.frames.last().node.level() == s.frames.len(),
        s.top_cursor() <= s.top_end(),
{
    let popped = s.popped();
    assert(frame_ok(s.frames, s.cursor, s.root.size, s.frames.len() - 1));
    assert forall|i: int| 0 <= i < popped.frames.len() implies #[trigger] frame_ok(
        popped.frames,
        popped.cursor,
        popped.root.size,
        i,
    ) by {
        assert(frame_ok(s.frames, s.cursor, s.root.size, i));
    }
}

/// Opening a container that starts at the cursor and ends inside the
/// innermost open container leaves cursors and open containers consistent.
pub proof fn lemma_pushed_wf(s: ParserView, node: NodeView)
    requires
        s.frames_wf(),
        s.child_level() <= MAX_DEPTH,
        node.is_container(),
        node.header().wf(),
        node.level() == s.child_level(),
        node.header().start == s.top_cursor(),
        node.header().end() <= s.top_end(),
    ensures
        s.pushed(node).frames_wf(),
        s.pushed(node).popped() == s,
{
    let pushed = s.pushed(node);
    assert(pushed.frames.drop_last() =~= s.frames);
    assert forall|i: int| 0 <= i < pushed.frames.len() implies #[trigger] frame_ok(
        pushed.frames,
        pushed.cursor,
        pushed.root.size,
        i,
    ) by {
        if i < s.frames.len() {
            assert(frame_ok(s.frames, s.cursor, s.root.size, i));
        }
    }
}

/// Settling a consistent parser leaves it in a reachable state, with the
/// same file, and no nearer to the start of the file.
pub proof fn lemma_settled_wf(s: ParserView)
    requires
        s.frames_wf(),
    ensures
        s.settled().wf(),
        s.settled().root.size == s.root.size,
        s.settled().root.file == s.root.file,
        s.settled().request() is Some ==> s.settled().top_cursor() >= s.top_cursor(),
    decreases s.frames.len(),
{
    if s.top_cursor() >= s.top_end() && s.frames.len() > 0 {
        let closed = s.frames.last().node;
        lemma_popped_wf(s);
        lemma_delivered_wf(s.popped(), closed);
        lemma_settled_wf(s.popped().delivered(closed));
    }
}

/// What a parser waits for has no part in how it settles.
pub proof fn lemma_settled_any_pending(s: ParserView, pending: PendingView)
    ensures
        s.waiting(pending).settled() == s.settled(),
    decreases s.frames.len(),
{
    if s.top_cursor() >= s.top_end() && s.frames.len() > 0 {
        let closed = s.frames.last().node;
        assert(s.waiting(pending).popped().delivered(closed) == s.popped().delivered(
            closed,
        ).waiting(pending));
        lemma_settled_any_pending(s.popped().delivered(closed), pending);
    }
}

/// An open container of a [`Machine`].
struct Frame {
    node: BoxNode,
    cursor: u64,
}

impl View for Frame {
    type V = FrameView;

    closed spec fn view(&self) -> FrameView {
        FrameView { node: self.node@, cursor: self.cursor as int }
    }
}

/// What a [`Machine`] waits for.
enum Pending {
    Header,
    Table { header: Header, wide: bool },
    Done,
    Failed(Error),
}

impl View for Pending {
    type V = PendingView;

    closed spec fn view(&self) -> PendingView {
        match *self {
            Pending::Header => PendingView::Header,
            Pending::Table { header, wide } => PendingView::Table { header: header@, wide },
            Pending::Done => PendingView::Done,
            Pending::Failed(e) => PendingView::Failed(e@),
        }
    }
}

/// The state of a [`Parser`].
struct Machine {
    root: Mp4,
    cursor: u64,
    frames: Vec<Frame>,
    pending: Pending,
}

impl View for Machine {
    type V = ParserView;

    closed spec fn view(&self) -> ParserView {
        ParserView {
            root: self.root@,
            cursor: self.cursor as int,
            frames: Seq::new(self.frames@.len(), |i: int| self.frames@[i]@),
            pending: self.pending@,
        }
    }
}

/// The mathematical value of what [`Machine::request`] returns.
pub open spec fn request_view(request: Option<Request>) -> Option<RequestView> {
    match request {
        Some(q) => Some(RequestView { offset: q.offset as int, len: q.len as int }),
        None => None,
    }
}

impl Machine {
    /// A parser for the file named `file`, which is `size` bytes long.
    fn new(file: String, size: u64) -> (r: Machine)
        ensures
            r@ == ParserView::start(file@, size as int),
            r@.wf(),
    {
        let mut parser = Machine {
            root: Mp4::new(file, size),
            cursor: 0,
            frames: Vec::new(),
            pending: Pending::Header,
        };
        assert(parser@.frames =~= Seq::empty());
        if size < 4 {
            parser.pending = Pending::Failed(Error::UnrecognizedFile);
        } else {
            proof {
                lemma_settled_wf(parser@);
            }
            parser.settle();
        }
        parser
    }

    /// Where the next box starts.
    fn top_cursor(&self) -> (cursor: u64)
        ensures
            cursor == self@.top_cursor(),
    {
        let n = self.frames.len();
        if n == 0 {
            self.cursor
        } else {
            self.frames[n - 1].cursor
        }
    }

    /// Where the innermost open container ends.
    fn top_end(&self) -> (end: u64)
        ensures
            end == self@.top_end(),
    {
        let n = self.frames.len();
        if n == 0 {
            self.root.size()
        } else {
            self.frames[n - 1].node.end()
        }
    }

    /// Hands `child` to the innermost open container, or to the root, and
    /// moves the cursor past it.
    fn deliver(&mut self, child: BoxNode)
        ensures
            final(self)@ == old(self)@.delivered(child@),
    {
        let end = child.end();
        match self.frames.pop() {
            None => {
                self.root.put(child);
                self.cursor = end;
                assert(self@.frames =~= old(self)@.frames);
            },
            Some(top) => {
                let mut node = top.node;
                node.put(child);
                self.frames.push(Frame { node, cursor: end });
                assert(self@.frames =~= old(self)@.delivered(child@).frames);
            },
        }
    }

    /// Closes every container whose end the cursor has reached and decides
    /// what comes next.
    fn settle(&mut self)
        requires
            old(self)@.frames_wf(),
        ensures
            final(self)@ == old(self)@.settled(),
    {
        let ghost target = self@.settled();
        loop
            invariant
                self@.frames_wf(),
                self@.settled() == target,
                target == old(self)@.settled(),
            decreases self@.frames.len(),
        {
            let cursor = self.top_cursor();
            let end = self.top_end();
            let ghost before = self@;
            if cursor >= end {
                match self.frames.pop() {
                    None => {
                        self.pending = Pending::Done;
                        assert(self@.frames =~= before.frames);
                        assert(self@ == before.waiting(PendingView::Done));
                        return ;
                    },
                    Some(top) => {
                        assert(self@.frames =~= before.popped().frames);
                        proof {
                            lemma_popped_wf(before);
                            lemma_delivered_wf(before.popped(), top.node@);
                        }
                        self.deliver(top.node);
                    },
                }
            } else if self.frames.len() >= MAX_DEPTH as usize {
                self.pending = Pending::Failed(Error::NestingTooDeep);
                assert(self@ == before.waiting(PendingView::Failed(ErrorView::NestingTooDeep)));
                return ;
            } else if end - cursor < 8 {
                self.pending = Pending::Failed(Error::TruncatedHeader);
                assert(self@ == before.waiting(PendingView::Failed(ErrorView::TruncatedHeader)));
                return ;
            } else {
                self.pending = Pending::Header;
                assert(self@ == before.waiting(PendingView::Header));
                return ;
            }
        }
    }

    /// What the parser needs next: the bytes to read, or `None` once
    /// decoding has ended, well or badly.
    fn request(&self) -> (r: Option<Request>)
        requires
            self@.wf(),
        ensures
            request_view(r) == self@.request(),
    {
        match &self.pending {
            Pending::Header => Some(Request { offset: self.top_cursor(), len: 8 }),
            Pending::Table { header, wide } => Some(
                Request { offset: header.start() + 8, len: header.size() - 8 },
            ),
            _ => None,
        }
    }

    /// Takes in the header that was read at the cursor.
    fn open(self, header: Header) -> (r: Machine)
        requires
            self@.wf(),
            self@.pending is Header,
            header@.start == self@.top_cursor(),
        ensures
            r@ == self@.opened(header@),
            r@.wf(),
    {
        let mut parser = self;
        let end = header.end();
        if end > parser.root.size() {
            parser.pending = Pending::Failed(Error::unexpected_end());
            return parser;
        }
        if end > parser.top_end() {
            parser.pending = Pending::Failed(Error::TruncatedBody);
            return parser;
        }
        let decoder = AtomName::lookup(header.name()).decoder();
        match decoder {
            Decoder::ChunkOffsets { wide } => {
                if header.size() < 16 {
                    parser.pending = Pending::Failed(Error::TruncatedBody);
                } else {
                    parser.pending = Pending::Table { header, wide };
                }
                parser
            },
            _ => {
                let level = (parser.frames.len() + 1) as u8;
                let body = header.start() + 8;
                let ghost before = parser@;
                let node = BoxNode::fresh(decoder, header, level);
                proof {
                    lemma_fresh(decoder, header@, level as int);
                }
                if node.is_container() {
                    parser.frames.push(Frame { node, cursor: body });
                    proof {
                        assert(parser@.frames =~= before.pushed(node@).frames);
                        lemma_pushed_wf(before, node@);
                        lemma_settled_wf(before.pushed(node@));
                    }
                    parser.settle();
                } else {
                    proof {
                        lemma_delivered_wf(before, node@);
                        lemma_settled_wf(before.delivered(node@));
                    }
                    parser.deliver(node);
                    parser.settle();
                }
                parser
            },
        }
    }

    /// Takes in the bytes that were read in answer to [`Machine::request`].
    ///
    /// This is the whole transition function of the decoder: the next state
    /// is [`ParserView::fed`] of the state and the bytes.
    fn feed(self, bytes: &[u8]) -> (r: Machine)
        requires
            self@.wf(),
        ensures
            r@ == self@.fed(bytes@),
            r@.wf(),
    {
        let Machine { root, cursor, frames, pending } = self;
        match pending {
            Pending::Header => {
                let mut parser = Machine { root, cursor, frames, pending: Pending::Header };
                assert(parser@ == self@);
                if bytes.len() != 8 {
                    parser.pending = Pending::Failed(Error::IO(String::from_str("short read")));
                    return parser;
                }
                match Header::new(bytes, parser.top_cursor()) {
                    Err(e) => {
                        parser.pending = Pending::Failed(e);
                        parser
                    },
                    Ok(header) => {
                        proof {
                            crate::header::lemma_header_of_wf(bytes@, parser@.top_cursor());
                        }
                        parser.open(header)
                    },
                }
            },
            Pending::Table { header, wide } => {
                let mut parser = Machine { root, cursor, frames, pending: Pending::Done };
                let ghost held = PendingView::Table { header: header@, wide };
                assert(self@ == parser@.waiting(held));
                if bytes.len() != header.size() - 8 {
                    parser.pending = Pending::Failed(Error::IO(String::from_str("short read")));
                    return parser;
                }
                let level = (parser.frames.len() + 1) as u8;
                match ChunkOffsetBox::parse(header, level, bytes, wide) {
                    Err(e) => {
                        parser.pending = Pending::Failed(e);
                        parser
                    },
                    Ok(table) => {
                        let ghost before = parser@;
                        let node = BoxNode::ChunkOffset(table);
                        proof {
                            lemma_delivered_wf(before, node@);
                            lemma_delivered_wf(self@, node@);
                            lemma_settled_wf(before.delivered(node@));
                            assert(self@.delivered(node@) == before.delivered(node@).waiting(held));
                            lemma_settled_any_pending(before.delivered(node@), held);
                        }
                        parser.deliver(node);
                        parser.settle();
                        parser
                    },
                }
            },
            other => {
                let parser = Machine { root, cursor, frames, pending: other };
                assert(parser@ == self@);
                parser
            },
        }
    }

    /// Takes in that the read asked for by [`Machine::request`] failed, with
    /// `detail` saying how. Decoding then ends with `Error::IO(detail)`.
    fn fail(self, detail: String) -> (r: Machine)
        ensures
            r@ == self@.failed(detail@),
            self@.wf() ==> r@.wf(),
    {
        let Machine { root, cursor, frames, pending } = self;
        match pending {
            Pending::Header => Machine {
                root,
                cursor,
                frames,
                pending: Pending::Failed(Error::IO(detail)),
            },
            Pending::Table { header, wide } => Machine {
                root,
                cursor,
                frames,
                pending: Pending::Failed(Error::IO(detail)),
            },
            other => {
                let parser = Machine { root, cursor, frames, pending: other };
                assert(parser@ == self@);
                parser
            },
        }
    }

    /// The result of the parse: the tree where decoding is done, the error
    /// where it failed. A parser that still asks for bytes gives an `IO`
    /// error.
    fn finish(self) -> (r: Result<Mp4, Error>)
        ensures
            result_view(r) == self@.outcome(),
    {
        match self.pending {
            Pending::Done => Ok(self.root),
            Pending::Failed(e) => Err(e),
            _ => Err(Error::IO(String::from_str("unfinished"))),
        }
    }
}

/// A decoder that is driven from outside: it asks for bytes and is fed
/// them, and in the end hands out the tree or the error.
///
/// ```text
/// let mut parser = Parser::new(name, size);
/// while let Some(request) = parser.request() {
///     parser = match read(request.offset, request.len) {
///         Ok(bytes) => parser.feed(&bytes),
///         Err(e) => parser.fail(e.to_string()),
///     };
/// }
/// parser.finish()
/// ```
pub struct Parser {
    machine: Machine,
}

impl View for Parser {
    type V = ParserView;

    closed spec fn view(&self) -> ParserView {
        self.machine@
    }
}

impl Parser {
    #[verifier::type_invariant]
    spec fn inv(self) -> bool {
        self.machine@.wf()
    }

    /// A parser for the file named `file`, which is `size` bytes long.
    pub fn new(file: String, size: u64) -> (r: Parser)
        ensures
            r@ == ParserView::start(file@, size as int),
            r@.wf(),
    {
        Parser { machine: Machine::new(file, size) }
    }

    /// What the parser needs next: the bytes to read, or `None` once
    /// decoding has ended, well or badly.
    pub fn request(&self) -> (r: Option<Request>)
        ensures
            request_view(r) == self@.request(),
            self@.wf(),
    {
        proof {
            use_type_invariant(self);
        }
        self.machine.request()
    }

    /// Takes in the bytes that were read in answer to [`Parser::request`].
    ///
    /// This is the whole transition function of the decoder: the next state
    /// is [`ParserView::fed`] of the state and the bytes.
    pub fn feed(self, bytes: &[u8]) -> (r: Parser)
        ensures
            r@ == self@.fed(bytes@),
            r@.wf(),
    {
        proof {
            use_type_invariant(&self);
        }
        Parser { machine: self.machine.feed(bytes) }
    }

    /// Takes in that the read asked for by [`Parser::request`] failed, with
    /// `detail` saying how. Decoding then ends with `Error::IO(detail)`.
    pub fn fail(self, detail: String) -> (r: Parser)
        ensures
            r@ == self@.failed(detail@),
            r@.wf(),
    {
        proof {
            use_type_invariant(&self);
        }
        Parser { machine: self.machine.fail(detail) }
    }

    /// The result of the parse: the tree where decoding is done, the error
    /// where it failed. A parser that still asks for bytes gives an `IO`
    /// error.
    pub fn finish(self) -> (r: Result<Mp4, Error>)
        ensures
            result_view(r) == self@.outcome(),
    {
        self.machine.finish()
    }
}

} // verus!
