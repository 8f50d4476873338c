//! Properties of the reader's step function.
use vstd::prelude::*;
use crate::vint::vint_spec;
use crate::vint::Vint;
use crate::tag::{DataType, Size, TagView, DecodeErrorView, leaf_spec};
use crate::reader::{EntryView, Phase, ReaderView, StepView, step_spec, unknown_parent, entry_tag, top_ready, header_step, place_step};

verus! {

/// What `k` successive steps yield from state `v`.
pub open spec fn run(v: ReaderView, k: nat) -> Seq<StepView>
    decreases k,
{
    if k == 0 {
        Seq::empty()
    } else {
        seq![step_spec(v).1] + run(step_spec(v).0, (k - 1) as nat)
    }
}

/// The end tags of the containers on `stack`, innermost first.
pub open spec fn ends_innermost_first(stack: Seq<EntryView>) -> Seq<StepView>
    decreases stack.len(),
{
    if stack.len() == 0 {
        Seq::empty()
    } else {
        seq![StepView::Emit(TagView::MasterEnd { id: stack.last()->PendingEnd_id })]
            + ends_innermost_first(stack.drop_last())
    }
}

/// Once the source has cleanly ended with nothing left in the window, the
/// `N` containers still open are closed by the next `N` steps, one end tag
/// each, innermost first, and the step after them ends the sequence.
pub proof fn lemma_drain_at_end(v: ReaderView)
    requires
        v.phase is Idle,
        v.ended,
        v.buf.len() == 0,
        forall|i: int| 0 <= i < v.stack.len() ==> v.stack[i] is PendingEnd,
    ensures
        run(v, v.stack.len() + 1) == ends_innermost_first(v.stack) + seq![StepView::Done],
    decreases v.stack.len(),
{
    if v.stack.len() == 0 {
        assert(run(step_spec(v).0, 0) == Seq::<StepView>::empty());
        assert(run(v, 1) =~= seq![StepView::Done]);
        assert(ends_innermost_first(v.stack) =~= Seq::<StepView>::empty());
        assert(ends_innermost_first(v.stack) + seq![StepView::Done] =~= seq![StepView::Done]);
    } else {
        let w = step_spec(v).0;
        assert(w == ReaderView { stack: v.stack.drop_last(), ..v });
        assert(step_spec(v).1 == StepView::Emit(TagView::MasterEnd { id: v.stack.last()->PendingEnd_id }));
        lemma_drain_at_end(w);
        assert(w.stack.len() + 1 == v.stack.len());
        assert(run(v, v.stack.len() + 1) == seq![step_spec(v).1] + run(w, w.stack.len() + 1));
        assert(run(v, v.stack.len() + 1) =~= ends_innermost_first(v.stack) + seq![StepView::Done]);
    }
}

/// The tag whose appearance under an unknown-size container closes it.
pub open spec fn sibling(v: ReaderView, id: u64, size: Size, kind: Option<DataType>) -> TagView {
    if kind == Some(DataType::Master) {
        TagView::MasterStart { id }
    } else {
        leaf_spec(kind, id, v.buf.subrange(0, size->Known_0 as int))->Ok_0
    }
}

/// A tag that is not a valid child of the open unknown-size container closes
/// it: the container's end tag comes first, and the very next step yields the
/// tag itself, with nothing read in between.
pub proof fn lemma_unknown_size_closure(v: ReaderView, id: u64, size: Size, kind: Option<DataType>, parent: u64)
    requires
        v.phase == (Phase::Placing { id, size, kind, child: false }),
        unknown_parent(v.stack) == Some(parent),
        step_spec(v).1 is Emit,
    ensures
        step_spec(v).1 == StepView::Emit(TagView::MasterEnd { id: parent }),
        step_spec(step_spec(v).0).1 == StepView::Emit(sibling(v, id, size, kind)),
        run(v, 2) == seq![
            StepView::Emit(TagView::MasterEnd { id: parent }),
            StepView::Emit(sibling(v, id, size, kind)),
        ],
{
    let w = step_spec(v).0;
    assert(w.phase is Idle);
    assert(w.stack.last() is Deferred);
    assert(top_ready(w));
    assert(run(step_spec(w).0, 0) == Seq::<StepView>::empty());
    assert(run(w, 1) =~= seq![step_spec(w).1]);
    assert(run(v, 2) =~= seq![step_spec(v).1, step_spec(w).1]);
}

/// A tag header whose first byte has no length marker fails the step as
/// corrupted data.
pub proof fn lemma_malformed_header(v: ReaderView)
    requires
        v.phase is Idle,
        !top_ready(v),
        v.buf.len() > 0,
        v.buf[0] == 0,
    ensures
        step_spec(v).1 == StepView::Failed(DecodeErrorView::MalformedVint),
{
    assert(vint_spec(v.buf) == Vint::Malformed);
}

/// A size whose first byte has no length marker fails the step likewise.
pub proof fn lemma_malformed_size(v: ReaderView, w: usize)
    requires
        v.phase is Idle,
        !top_ready(v),
        vint_spec(v.buf) matches Vint::Complete { width, .. } && width == w,
        w < v.buf.len(),
        v.buf[w as int] == 0,
    ensures
        step_spec(v).1 == StepView::Failed(DecodeErrorView::MalformedVint),
{
    let s = v.buf.subrange(w as int, v.buf.len() as int);
    assert(s[0] == 0);
    assert(vint_spec(s) == Vint::Malformed);
}

/// A leaf tag declared with the unknown size fails the step as corrupted data.
pub proof fn lemma_unknown_size_leaf(v: ReaderView, id: u64, kind: Option<DataType>, child: bool)
    requires
        v.phase == (Phase::Placing { id, size: Size::Unknown, kind, child }),
        kind != Some(DataType::Master),
    ensures
        step_spec(v).1 == StepView::Failed(DecodeErrorView::UnknownSizeLeaf { id }),
{
}

/// Between tags, a container of known size on top of the stack is closed as
/// soon as its payload `[start, start + size)` has been consumed, and not
/// before: until then the step reads on inside it.
pub proof fn lemma_known_size_span(v: ReaderView, id: u64, n: u64, start: u64)
    requires
        v.phase is Idle,
        v.stack.len() > 0,
        v.stack.last() == (EntryView::PendingEnd { id, size: Size::Known(n), start }),
    ensures
        v.offset >= start + n ==> step_spec(v) == (
            ReaderView { stack: v.stack.drop_last(), ..v },
            StepView::Emit(TagView::MasterEnd { id }),
        ),
        v.offset < start + n && v.buf.len() > 0 ==> step_spec(v).0.stack == v.stack,
        v.offset < start + n && v.buf.len() > 0 ==> !(step_spec(v).1 is Emit),
{
    assert(entry_tag(v.stack.last()) == TagView::MasterEnd { id });
}

/// `v` with `extra` appended to its window.
pub open spec fn with_more(v: ReaderView, extra: Seq<u8>) -> ReaderView {
    ReaderView { buf: v.buf + extra, ..v }
}

proof fn lemma_vint_extend(s: Seq<u8>, extra: Seq<u8>)
    requires
        !(vint_spec(s) is Incomplete),
    ensures
        vint_spec(s + extra) == vint_spec(s),
{
    let t = s + extra;
    assert(t[0] == s[0]);
    if vint_spec(s) is Complete {
        let w = crate::vint::vint_width(s[0]) as int;
        assert(t.subrange(1, w) =~= s.subrange(1, w));
    }
}

/// A step that waits for bytes changes nothing.
pub proof fn lemma_suspend_keeps_state(v: ReaderView)
    requires
        step_spec(v).1 is NeedBytes,
    ensures
        step_spec(v).0 == v,
{
}

/// Bytes that arrive beyond what a step needs do not change that step: it
/// yields the same, and leaves the extra bytes at the end of the window.
pub proof fn lemma_more_bytes_same_step(v: ReaderView, extra: Seq<u8>)
    requires
        !v.ended,
        !(step_spec(v).1 is NeedBytes),
    ensures
        step_spec(with_more(v, extra)).1 == step_spec(v).1,
        step_spec(with_more(v, extra)).0 == with_more(step_spec(v).0, extra),
{
    let u = with_more(v, extra);
    match v.phase {
        Phase::Idle => {
            if !top_ready(v) && v.buf.len() > 0 {
                lemma_vint_extend(v.buf, extra);
                if let Vint::Complete { width: w, .. } = vint_spec(v.buf) {
                    let s = v.buf.subrange(w as int, v.buf.len() as int);
                    assert(u.buf.subrange(w as int, u.buf.len() as int) =~= s + extra);
                    lemma_vint_extend(s, extra);
                    if let Vint::Complete { width: w2, .. } = vint_spec(s) {
                        assert(u.buf.subrange(w + w2, u.buf.len() as int)
                            =~= v.buf.subrange(w + w2, v.buf.len() as int) + extra);
                    }
                }
                assert(header_step(u).1 == header_step(v).1);
                assert(header_step(u).0 == with_more(header_step(v).0, extra));
            }
        },
        Phase::Header { .. } => {},
        Phase::Placing { id, size, kind, child } => {
            if kind != Some(DataType::Master) {
                if let Size::Known(n) = size {
                    assert(u.buf.subrange(0, n as int) =~= v.buf.subrange(0, n as int));
                    assert(u.buf.subrange(n as int, u.buf.len() as int)
                        =~= v.buf.subrange(n as int, v.buf.len() as int) + extra);
                }
            }
            assert(place_step(u, id, size, kind, child).1 == place_step(v, id, size, kind, child).1);
        },
    }
}

pub proof fn lemma_run_len(v: ReaderView, k: nat)
    ensures
        run(v, k).len() == k,
    decreases k,
{
    if k > 0 {
        lemma_run_len(step_spec(v).0, (k - 1) as nat);
    }
}

/// Over any number of steps none of which waits for bytes, bytes beyond
/// those the steps consume change nothing that is yielded.
pub proof fn lemma_more_bytes_same_run(v: ReaderView, extra: Seq<u8>, k: nat)
    requires
        !v.ended,
        forall|i: int| 0 <= i < k ==> !(#[trigger] run(v, k)[i] is NeedBytes),
    ensures
        run(with_more(v, extra), k) == run(v, k),
    decreases k,
{
    if k > 0 {
        let r = run(v, k);
        assert(r[0] == step_spec(v).1);
        assert(!(r[0] is NeedBytes));
        lemma_more_bytes_same_step(v, extra);
        let w = step_spec(v).0;
        let rest = run(w, (k - 1) as nat);
        lemma_run_len(w, (k - 1) as nat);
        assert(r == seq![step_spec(v).1] + rest);
        assert forall|i: int| 0 <= i < k - 1 implies !(#[trigger] rest[i] is NeedBytes) by {
            assert(r[i + 1] == rest[i]);
        }
        lemma_more_bytes_same_run(w, extra, (k - 1) as nat);
    }
}

/// Every open container has a declared, known size.
pub open spec fn all_known(stack: Seq<EntryView>) -> bool {
    forall|i: int| 0 <= i < stack.len() ==> (#[trigger] stack[i]) matches EntryView::PendingEnd { size: Size::Known(_), .. }
}

/// With known sizes only, starts and ends nest like brackets: a step that
/// yields a container's start opens it on top of the stack, with its payload
/// starting at the current offset; a step that yields an end closes the top
/// container, and, unless the source ended early, only once its payload
/// `[start, start + size)` has been consumed; any other step leaves the
/// open containers as they were.
pub proof fn lemma_known_sizes_nest(v: ReaderView)
    requires
        all_known(v.stack),
        v.phase matches Phase::Placing { size, child, .. } ==> size is Known && child,
    ensures
        ({
            let (w, r) = step_spec(v);
            &&& r matches StepView::Emit(TagView::MasterStart { id }) ==> w.stack == v.stack.push(
                EntryView::PendingEnd { id, size: v.phase->Placing_size, start: v.offset as u64 },
            )
            &&& r matches StepView::Emit(TagView::MasterEnd { id }) ==> {
                &&& v.stack.len() > 0
                &&& w.stack == v.stack.drop_last()
                &&& v.stack.last() matches EntryView::PendingEnd { id: top, size: Size::Known(n), start }
                &&& top == id
                &&& (!v.ended || v.buf.len() > 0 ==> v.offset >= start + n)
            }
            &&& !(r is Failed) && !(r matches StepView::Emit(TagView::MasterStart { .. }))
                && !(r matches StepView::Emit(TagView::MasterEnd { .. })) ==> w.stack == v.stack
            &&& !(r is Failed) ==> all_known(w.stack)
        }),
{
    let (w, r) = step_spec(v);
    if v.stack.len() > 0 {
        assert(v.stack.last() == v.stack[v.stack.len() - 1]);
    }
    match v.phase {
        Phase::Placing { id, size, kind, child } => {
            if kind == Some(DataType::Master) {
                assert(w.stack == v.stack.push(EntryView::PendingEnd { id, size, start: v.offset as u64 }));
                assert forall|i: int| 0 <= i < w.stack.len() implies (#[trigger] w.stack[i]) matches EntryView::PendingEnd { size: Size::Known(_), .. } by {
                    if i < v.stack.len() {
                        assert(w.stack[i] == v.stack[i]);
                    }
                }
            } else if let Size::Known(n) = size {
                if v.buf.len() >= n {
                    if let Ok(t) = leaf_spec(kind, id, v.buf.subrange(0, n as int)) {
                        assert(!(t is MasterStart) && !(t is MasterEnd));
                    }
                }
            }
        },
        Phase::Idle => {
            if !top_ready(v) && v.buf.len() > 0 {
                assert(w.stack == v.stack);
            } else if v.stack.len() > 0 {
                assert forall|i: int| 0 <= i < w.stack.len() implies (#[trigger] w.stack[i]) matches EntryView::PendingEnd { size: Size::Known(_), .. } by {
                    assert(w.stack[i] == v.stack[i]);
                }
            }
        },
        Phase::Header { .. } => {},
    }
}

} // verus!
