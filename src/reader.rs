//! The tag reader: a byte window, the stack of open containers, and the
//! step function that yields one tag per call.
//!
//! The reader does no input of its own. Each step either yields a tag, ends
//! the sequence, fails, or tells its driver what it needs: more bytes in the
//! window, or the specification's answer on a tag identifier.
use vstd::prelude::*;
use crate::vint::{Vint, vint_spec, read_vint, all_ones, all_ones_of};
use crate::tag::{DataType, Size, Tag, TagView, DecodeError, DecodeErrorView, leaf_spec, decode_leaf};

verus! {

/// An entry of the open-container stack.
#[derive(Debug)]
pub enum Entry {
    /// A container whose start was yielded and whose end is owed; `start` is
    /// the offset at which its payload begins.
    PendingEnd { id: u64, size: Size, start: u64 },
    /// A tag already decoded that is yielded before anything else is read.
    Deferred { tag: Tag },
}

pub enum EntryView {
    PendingEnd { id: u64, size: Size, start: u64 },
    Deferred { tag: TagView },
}

impl View for Entry {
    type V = EntryView;

    open spec fn view(&self) -> EntryView {
        match self {
            Entry::PendingEnd { id, size, start } => EntryView::PendingEnd { id: *id, size: *size, start: *start },
            Entry::Deferred { tag } => EntryView::Deferred { tag: tag@ },
        }
    }
}

/// The tag that an entry yields when it leaves the stack.
pub open spec fn entry_tag(e: EntryView) -> TagView {
    match e {
        EntryView::PendingEnd { id, .. } => TagView::MasterEnd { id },
        EntryView::Deferred { tag } => tag,
    }
}

/// Where the reader stands inside the tag it is reading.
#[derive(Clone, Copy, Debug)]
pub enum Phase {
    /// Between tags.
    Idle,
    /// A header was read; the specification's answer on `id` is awaited.
    Header { id: u64, size: Size },
    /// The answer came: `kind` is the declared type (`None`: unknown
    /// identifier), `child` whether the tag nests under the open container.
    Placing { id: u64, size: Size, kind: Option<DataType>, child: bool },
}

/// What one step of the reader gives.
#[derive(Debug)]
pub enum Step {
    /// The next tag.
    Emit(Tag),
    /// The sequence is over.
    Done,
    /// Decoding failed; the reader is not to be stepped again.
    Failed(DecodeError),
    /// The window must hold at least this many bytes, or the source has ended.
    NeedBytes(u64),
    /// The declared type of `id` is needed; where `parent` is given, also
    /// whether `id` is a valid child of that open container.
    Describe { id: u64, parent: Option<u64> },
}

pub enum StepView {
    Emit(TagView),
    Done,
    Failed(DecodeErrorView),
    NeedBytes(u64),
    Describe { id: u64, parent: Option<u64> },
}

impl View for Step {
    type V = StepView;

    open spec fn view(&self) -> StepView {
        match self {
            Step::Emit(t) => StepView::Emit(t@),
            Step::Done => StepView::Done,
            Step::Failed(e) => StepView::Failed(e@),
            Step::NeedBytes(n) => StepView::NeedBytes(*n),
            Step::Describe { id, parent } => StepView::Describe { id: *id, parent: *parent },
        }
    }
}

/// The abstract state of a reader.
pub struct ReaderView {
    /// Bytes received and not yet consumed.
    pub buf: Seq<u8>,
    /// Number of bytes consumed so far.
    pub offset: nat,
    /// Whether the source has cleanly ended.
    pub ended: bool,
    /// Open-container stack, top last.
    pub stack: Seq<EntryView>,
    pub phase: Phase,
}

/// The open container whose end is decided by the specification's child
/// relation: the top of the stack, if it is pending with the unknown size.
pub open spec fn unknown_parent(stack: Seq<EntryView>) -> Option<u64> {
    if stack.len() == 0 {
        None
    } else {
        match stack.last() {
            EntryView::PendingEnd { id, size: Size::Unknown, .. } => Some(id),
            _ => None,
        }
    }
}

/// The top entry can leave the stack without reading: a deferred tag, or a
/// container of known size whose payload has been consumed.
pub open spec fn top_ready(v: ReaderView) -> bool {
    v.stack.len() > 0 && match v.stack.last() {
        EntryView::Deferred { .. } => true,
        EntryView::PendingEnd { size: Size::Known(n), start, .. } => v.offset >= start + n,
        _ => false,
    }
}

pub open spec fn pop(v: ReaderView) -> ReaderView {
    ReaderView { stack: v.stack.drop_last(), ..v }
}

/// The step taken when the window cannot hold a complete header.
pub open spec fn short_header(v: ReaderView) -> (ReaderView, StepView) {
    if v.ended {
        (v, StepView::Failed(DecodeErrorView::TruncatedHeader))
    } else {
        (v, StepView::NeedBytes((v.buf.len() + 1) as u64))
    }
}

/// Size that the raw size integer `value` of `width` bytes declares.
pub open spec fn size_of(value: u64, width: usize) -> Size {
    if value as nat == all_ones(width as nat) { Size::Unknown } else { Size::Known(value) }
}

/// Reading a tag header from the window.
pub open spec fn header_step(v: ReaderView) -> (ReaderView, StepView) {
    match vint_spec(v.buf) {
        Vint::Malformed => (v, StepView::Failed(DecodeErrorView::MalformedVint)),
        Vint::Incomplete => short_header(v),
        Vint::Complete { raw: id, width: w, .. } => match vint_spec(v.buf.subrange(w as int, v.buf.len() as int)) {
            Vint::Malformed => (v, StepView::Failed(DecodeErrorView::MalformedVint)),
            Vint::Incomplete => short_header(v),
            Vint::Complete { value, width: w2, .. } => (
                ReaderView {
                    buf: v.buf.subrange(w + w2, v.buf.len() as int),
                    offset: (v.offset + w + w2) as nat,
                    phase: Phase::Header { id, size: size_of(value, w2) },
                    ..v
                },
                StepView::Describe { id, parent: unknown_parent(v.stack) },
            ),
        },
    }
}

/// Yields `t` in place of a tag that nests under the open container, or else
/// closes that container first and queues `t`.
pub open spec fn settle(v: ReaderView, t: TagView, child: bool) -> (ReaderView, StepView) {
    if child {
        (v, StepView::Emit(t))
    } else {
        (
            ReaderView { stack: v.stack.drop_last().push(EntryView::Deferred { tag: t }), ..v },
            StepView::Emit(entry_tag(v.stack.last())),
        )
    }
}

/// Placing a tag whose header has been read and described.
pub open spec fn place_step(v: ReaderView, id: u64, size: Size, kind: Option<DataType>, child: bool) -> (ReaderView, StepView) {
    if kind == Some(DataType::Master) {
        let end = EntryView::PendingEnd { id, size, start: v.offset as u64 };
        let w = ReaderView { phase: Phase::Idle, ..v };
        if child {
            (ReaderView { stack: v.stack.push(end), ..w }, StepView::Emit(TagView::MasterStart { id }))
        } else {
            (
                ReaderView {
                    stack: v.stack.drop_last().push(end).push(EntryView::Deferred { tag: TagView::MasterStart { id } }),
                    ..w
                },
                StepView::Emit(entry_tag(v.stack.last())),
            )
        }
    } else {
        match size {
            Size::Unknown => (v, StepView::Failed(DecodeErrorView::UnknownSizeLeaf { id })),
            Size::Known(n) => if v.buf.len() < n {
                if v.ended {
                    (v, StepView::Failed(DecodeErrorView::TruncatedPayload { id }))
                } else {
                    (v, StepView::NeedBytes(n))
                }
            } else {
                let w = ReaderView {
                    buf: v.buf.subrange(n as int, v.buf.len() as int),
                    offset: (v.offset + n) as nat,
                    phase: Phase::Idle,
                    ..v
                };
                match leaf_spec(kind, id, v.buf.subrange(0, n as int)) {
                    Err(e) => (w, StepView::Failed(e)),
                    Ok(t) => settle(w, t, child),
                }
            },
        }
    }
}

/// One step of the reader.
pub open spec fn step_spec(v: ReaderView) -> (ReaderView, StepView) {
    match v.phase {
        Phase::Idle => if top_ready(v) {
            (pop(v), StepView::Emit(entry_tag(v.stack.last())))
        } else if v.buf.len() == 0 {
            if !v.ended {
                (v, StepView::NeedBytes(1))
            } else if v.stack.len() > 0 {
                (pop(v), StepView::Emit(entry_tag(v.stack.last())))
            } else {
                (v, StepView::Done)
            }
        } else {
            header_step(v)
        },
        Phase::Header { id, .. } => (v, StepView::Describe { id, parent: unknown_parent(v.stack) }),
        Phase::Placing { id, size, kind, child } => place_step(v, id, size, kind, child),
    }
}

/// The phase after the specification described the tag being read: a tag
/// that does not sit under an unknown-size container is always a child.
pub open spec fn describe_spec(v: ReaderView, kind: Option<DataType>, child: bool) -> ReaderView {
    match v.phase {
        Phase::Header { id, size } => ReaderView {
            phase: Phase::Placing { id, size, kind, child: child || unknown_parent(v.stack) is None },
            ..v
        },
        _ => v,
    }
}

/// Decodes a tag stream delivered in pieces.
pub struct TagReader {
    buf: Vec<u8>,
    offset: u64,
    ended: bool,
    stack: Vec<Entry>,
    phase: Phase,
}

impl View for TagReader {
    type V = ReaderView;

    closed spec fn view(&self) -> ReaderView {
        ReaderView {
            buf: self.buf@,
            offset: self.offset as nat,
            ended: self.ended,
            stack: self.stack@.map_values(|e: Entry| e@),
            phase: self.phase,
        }
    }
}

/// What a reader state keeps true: offsets fit, and a tag that closes the
/// open container has one to close.
pub open spec fn reader_inv(v: ReaderView) -> bool {
    &&& v.offset + v.buf.len() < u64::MAX
    &&& v.phase matches Phase::Placing { child, .. } ==> (child || unknown_parent(v.stack) is Some)
}

impl TagReader {
    pub closed spec fn wf(&self) -> bool {
        reader_inv(self@)
    }

    /// A reader at offset zero with nothing received.
    pub fn new() -> (r: TagReader)
        ensures
            r.wf(),
            r@ == (ReaderView { buf: Seq::empty(), offset: 0, ended: false, stack: Seq::empty(), phase: Phase::Idle }),
    {
        let r = TagReader { buf: Vec::new(), offset: 0, ended: false, stack: Vec::new(), phase: Phase::Idle };
        assert(r@.stack =~= Seq::<EntryView>::empty());
        r
    }

    /// Number of bytes consumed so far.
    pub fn current_offset(&self) -> (r: u64)
        ensures
            r as nat == self@.offset,
    {
        self.offset
    }

    /// Number of bytes received and not yet consumed.
    pub fn buffered(&self) -> (r: usize)
        ensures
            r as nat == self@.buf.len(),
    {
        self.buf.len()
    }

    /// Appends bytes that the source delivered.
    pub fn supply(&mut self, data: &[u8])
        requires
            old(self).wf(),
            old(self)@.offset + old(self)@.buf.len() + data@.len() < u64::MAX,
        ensures
            final(self).wf(),
            final(self)@ == (ReaderView { buf: old(self)@.buf + data@, ..old(self)@ }),
    {
        let mut i: usize = 0;
        while i < data.len()
            invariant
                i <= data@.len(),
                self.buf@ == old(self).buf@ + data@.subrange(0, i as int),
                self.offset == old(self).offset,
                self.ended == old(self).ended,
                self.stack == old(self).stack,
                self.phase == old(self).phase,
            decreases data@.len() - i,
        {
            self.buf.push(data[i]);
            i = i + 1;
            assert(self.buf@ =~= old(self).buf@ + data@.subrange(0, i as int));
        }
        assert(data@.subrange(0, data@.len() as int) =~= data@);
    }

    /// Records that the source has cleanly ended.
    pub fn end_of_source(&mut self)
        requires
            old(self).wf(),
        ensures
            final(self).wf(),
            final(self)@ == (ReaderView { ended: true, ..old(self)@ }),
    {
        self.ended = true;
    }

    /// Hands the reader the specification's answer on the tag it is reading:
    /// its declared type (`None` if unknown) and whether it is a valid child
    /// of the container that `Step::Describe` named.
    pub fn describe(&mut self, kind: Option<DataType>, child: bool)
        requires
            old(self).wf(),
        ensures
            final(self).wf(),
            final(self)@ == describe_spec(old(self)@, kind, child),
    {
        if let Phase::Header { id, size } = self.phase {
            let child = child || self.unknown_parent().is_none();
            self.phase = Phase::Placing { id, size, kind, child };
        }
    }

    /// Yields the next tag, ends the sequence, fails, or says what it needs.
    pub fn next(&mut self) -> (r: Step)
        requires
            old(self).wf(),
        ensures
            final(self).wf(),
            r@ == step_spec(old(self)@).1,
            !(r is Failed) ==> final(self)@ == step_spec(old(self)@).0,
    {
        match self.phase {
            Phase::Idle => {
                if self.top_ready() {
                    return Step::Emit(self.pop_entry());
                }
                if self.buf.len() == 0 {
                    if !self.ended {
                        return Step::NeedBytes(1);
                    }
                    if self.stack.len() > 0 {
                        return Step::Emit(self.pop_entry());
                    }
                    return Step::Done;
                }
                self.read_header()
            },
            Phase::Header { id, .. } => Step::Describe { id, parent: self.unknown_parent() },
            Phase::Placing { id, size, kind, child } => self.place(id, size, kind, child),
        }
    }

    fn top_ready(&self) -> (r: bool)
        ensures
            r == top_ready(self@),
    {
        let n = self.stack.len();
        if n == 0 {
            return false;
        }
        match &self.stack[n - 1] {
            Entry::Deferred { .. } => true,
            Entry::PendingEnd { size: Size::Known(len), start, .. } => self.offset >= *start && self.offset - *start >= *len,
            _ => false,
        }
    }

    /// Takes the top entry off the stack and returns the tag it yields.
    fn pop_entry(&mut self) -> (r: Tag)
        requires
            old(self).wf(),
            old(self)@.stack.len() > 0,
        ensures
            r@ == entry_tag(old(self)@.stack.last()),
            final(self)@ == pop(old(self)@),
            final(self).phase == old(self).phase,
    {
        let e = self.stack.pop().unwrap();
        proof {
            assert(self@.stack =~= old(self)@.stack.drop_last());
        }
        match e {
            Entry::PendingEnd { id, .. } => Tag::MasterEnd { id },
            Entry::Deferred { tag } => tag,
        }
    }

    fn push_entry(&mut self, e: Entry)
        ensures
            final(self)@ == (ReaderView { stack: old(self)@.stack.push(e@), ..old(self)@ }),
    {
        self.stack.push(e);
        proof {
            assert(self@.stack =~= old(self)@.stack.push(e@));
        }
    }

    /// Consumes the first `n` bytes of the window and returns them.
    fn take_front(&mut self, n: usize) -> (r: Vec<u8>)
        requires
            n <= old(self)@.buf.len(),
            old(self)@.offset + old(self)@.buf.len() < u64::MAX,
        ensures
            r@ == old(self)@.buf.subrange(0, n as int),
            final(self)@ == (ReaderView {
                buf: old(self)@.buf.subrange(n as int, old(self)@.buf.len() as int),
                offset: (old(self)@.offset + n) as nat,
                ..old(self)@
            }),
    {
        let mut front = self.buf.split_off(n);
        std::mem::swap(&mut front, &mut self.buf);
        self.offset = self.offset + n as u64;
        front
    }

    fn short_header(&self) -> (r: Step)
        requires
            self.wf(),
        ensures
            r@ == short_header(self@).1,
    {
        if self.ended {
            Step::Failed(DecodeError::TruncatedHeader)
        } else {
            Step::NeedBytes(self.buf.len() as u64 + 1)
        }
    }

    fn read_header(&mut self) -> (r: Step)
        requires
            old(self).wf(),
            old(self)@.phase is Idle,
        ensures
            final(self).wf(),
            r@ == header_step(old(self)@).1,
            !(r is Failed) ==> final(self)@ == header_step(old(self)@).0,
    {
        assert(self.buf@.subrange(0, self.buf@.len() as int) =~= self.buf@);
        match read_vint(self.buf.as_slice(), 0) {
            Vint::Malformed => Step::Failed(DecodeError::MalformedVint),
            Vint::Incomplete => self.short_header(),
            Vint::Complete { raw: id, width: w, .. } => match read_vint(self.buf.as_slice(), w) {
                Vint::Malformed => Step::Failed(DecodeError::MalformedVint),
                Vint::Incomplete => self.short_header(),
                Vint::Complete { value, width: w2, .. } => {
                    let size = if value == all_ones_of(w2) { Size::Unknown } else { Size::Known(value) };
                    let parent = self.unknown_parent();
                    let _ = self.take_front(w + w2);
                    self.phase = Phase::Header { id, size };
                    Step::Describe { id, parent }
                },
            },
        }
    }

    fn place(&mut self, id: u64, size: Size, kind: Option<DataType>, child: bool) -> (r: Step)
        requires
            old(self).wf(),
            old(self)@.phase == (Phase::Placing { id, size, kind, child }),
        ensures
            final(self).wf(),
            r@ == place_step(old(self)@, id, size, kind, child).1,
            !(r is Failed) ==> final(self)@ == place_step(old(self)@, id, size, kind, child).0,
    {
        if matches!(kind, Some(DataType::Master)) {
            let end = Entry::PendingEnd { id, size, start: self.offset };
            self.phase = Phase::Idle;
            if child {
                self.push_entry(end);
                Step::Emit(Tag::MasterStart { id })
            } else {
                let closed = self.pop_entry();
                self.push_entry(end);
                self.push_entry(Entry::Deferred { tag: Tag::MasterStart { id } });
                Step::Emit(closed)
            }
        } else {
            match size {
                Size::Unknown => Step::Failed(DecodeError::UnknownSizeLeaf { id }),
                Size::Known(n) => {
                    if (self.buf.len() as u64) < n {
                        if self.ended {
                            Step::Failed(DecodeError::TruncatedPayload { id })
                        } else {
                            Step::NeedBytes(n)
                        }
                    } else {
                        let data = self.take_front(n as usize);
                        self.phase = Phase::Idle;
                        match decode_leaf(kind, id, data) {
                            Err(e) => Step::Failed(e),
                            Ok(t) => if child {
                                Step::Emit(t)
                            } else {
                                let closed = self.pop_entry();
                                self.push_entry(Entry::Deferred { tag: t });
                                Step::Emit(closed)
                            },
                        }
                    }
                },
            }
        }
    }

    fn unknown_parent(&self) -> (r: Option<u64>)
        ensures
            r == unknown_parent(self@.stack),
    {
        let n = self.stack.len();
        if n == 0 {
            return None;
        }
        match &self.stack[n - 1] {
            Entry::PendingEnd { id, size: Size::Unknown, .. } => Some(*id),
            _ => None,
        }
    }
}

} // verus!
