use vstd::prelude::*;
use crate::stroke::{kept, Stroke, StrokeView};

verus! {

/// The views of a sequence of strokes.
pub open spec fn views_of(v: Seq<Stroke>) -> Seq<StrokeView> {
    v.map_values(|s: Stroke| s@)
}

/// The mathematical value of a canvas: the visible strokes, oldest first,
/// and the strokes taken away by undo, most recently taken last.
pub struct CanvasView {
    pub strokes: Seq<StrokeView>,
    pub redo_buffer: Seq<StrokeView>,
}

impl CanvasView {
    pub open spec fn push_stroke(self, s: StrokeView) -> CanvasView {
        CanvasView { strokes: self.strokes.push(s), ..self }
    }

    /// Moves the newest stroke to the redo buffer; nothing on an empty canvas.
    pub open spec fn undo(self) -> CanvasView {
        if self.strokes.len() == 0 {
            self
        } else {
            CanvasView {
                strokes: self.strokes.drop_last(),
                redo_buffer: self.redo_buffer.push(self.strokes.last()),
            }
        }
    }

    /// Moves the most recently undone stroke back; nothing on an empty buffer.
    pub open spec fn redo(self) -> CanvasView {
        if self.redo_buffer.len() == 0 {
            self
        } else {
            CanvasView {
                strokes: self.strokes.push(self.redo_buffer.last()),
                redo_buffer: self.redo_buffer.drop_last(),
            }
        }
    }

    /// `undo` applied `n` times.
    pub open spec fn undo_n(self, n: nat) -> CanvasView
        decreases n,
    {
        if n == 0 {
            self
        } else {
            self.undo().undo_n((n - 1) as nat)
        }
    }

    /// `redo` applied `n` times.
    pub open spec fn redo_n(self, n: nat) -> CanvasView
        decreases n,
    {
        if n == 0 {
            self
        } else {
            self.redo().redo_n((n - 1) as nat)
        }
    }

    /// Every stroke undone: the canvas is empty and the redo buffer has the
    /// strokes appended newest first.
    pub open spec fn clear(self) -> CanvasView {
        CanvasView { strokes: Seq::empty(), redo_buffer: self.redo_buffer + self.strokes.reverse() }
    }

    /// The canvas with its degenerate strokes dropped; the redo buffer stays.
    pub open spec fn retain_valid(self) -> CanvasView {
        CanvasView { strokes: self.strokes.filter(kept()), ..self }
    }
}

/// The ordered strokes on screen, and the strokes removed by undo.
pub struct Canvas {
    pub strokes: Vec<Stroke>,
    pub redo_buffer: Vec<Stroke>,
}

impl View for Canvas {
    type V = CanvasView;

    open spec fn view(&self) -> CanvasView {
        CanvasView { strokes: views_of(self.strokes@), redo_buffer: views_of(self.redo_buffer@) }
    }
}

impl Canvas {
    /// An empty canvas with an empty redo buffer.
    pub fn new() -> (r: Canvas)
        ensures
            r@.strokes.len() == 0,
            r@.redo_buffer.len() == 0,
    {
        Canvas { strokes: Vec::new(), redo_buffer: Vec::new() }
    }

    /// Appends a stroke at the end of the canvas. The redo buffer is kept as
    /// it is: strokes undone before a new stroke can still be redone after it.
    pub fn push_stroke(&mut self, s: Stroke)
        ensures
            final(self)@ == old(self)@.push_stroke(s@),
    {
        self.strokes.push(s);
        assert(self@.strokes =~= old(self)@.strokes.push(s@));
        assert(self@.redo_buffer =~= old(self)@.redo_buffer);
    }

    /// Moves the newest stroke to the redo buffer; returns whether one moved.
    pub fn undo(&mut self) -> (moved: bool)
        ensures
            final(self)@ == old(self)@.undo(),
            moved == (old(self)@.strokes.len() > 0),
    {
        match self.strokes.pop() {
            Some(s) => {
                self.redo_buffer.push(s);
                assert(self@.strokes =~= old(self)@.strokes.drop_last());
                assert(self@.redo_buffer =~= old(self)@.redo_buffer.push(old(self)@.strokes.last()));
                true
            },
            None => {
                assert(self@.strokes =~= old(self)@.strokes);
                assert(self@.redo_buffer =~= old(self)@.redo_buffer);
                false
            },
        }
    }

    /// Moves the most recently undone stroke back onto the canvas; returns
    /// whether one moved.
    pub fn redo(&mut self) -> (moved: bool)
        ensures
            final(self)@ == old(self)@.redo(),
            moved == (old(self)@.redo_buffer.len() > 0),
    {
        match self.redo_buffer.pop() {
            Some(s) => {
                self.strokes.push(s);
                assert(self@.redo_buffer =~= old(self)@.redo_buffer.drop_last());
                assert(self@.strokes =~= old(self)@.strokes.push(old(self)@.redo_buffer.last()));
                true
            },
            None => {
                assert(self@.strokes =~= old(self)@.strokes);
                assert(self@.redo_buffer =~= old(self)@.redo_buffer);
                false
            },
        }
    }

    /// Undoes strokes until the canvas is empty, so that every stroke lands
    /// in the redo buffer and a clear can be taken back stroke by stroke.
    pub fn clear(&mut self)
        ensures
            final(self)@ == old(self)@.clear(),
    {
        while !self.strokes.is_empty()
            invariant
                self@.clear() == old(self)@.clear(),
            decreases self.strokes.len(),
        {
            proof {
                lemma_undo_keeps_clear(self@);
            }
            self.undo();
        }
        assert(self@.strokes =~= Seq::<StrokeView>::empty());
        assert(self@.redo_buffer =~= self@.clear().redo_buffer);
    }

    /// Drops every stroke with fewer than two points or a zero width, keeping
    /// the others in order; the redo buffer is not touched.
    pub fn retain_valid(&mut self)
        ensures
            final(self)@ == old(self)@.retain_valid(),
    {
        let ghost all = old(self)@.strokes;
        let mut rest: Vec<Stroke> = Vec::new();
        std::mem::swap(&mut rest, &mut self.strokes);
        let ghost n = rest.len();
        while rest.len() > 0
            invariant
                n == all.len(),
                0 <= rest.len() <= n,
                views_of(rest@) == all.skip(n - rest.len()),
                self@.strokes == all.take(n - rest.len()).filter(kept()),
                self@.redo_buffer == old(self)@.redo_buffer,
            decreases rest.len(),
        {
            let ghost i = n - rest.len();
            let ghost prev = rest@;
            assert(views_of(prev)[0] == all.skip(i)[0]);
            let s = rest.remove(0);
            assert(s@ == all[i]);
            assert forall|j: int| 0 <= j < rest.len() implies views_of(rest@)[j] == all.skip(i + 1)[j] by {
                assert(rest@[j] == prev[j + 1]);
                assert(views_of(prev)[j + 1] == all.skip(i)[j + 1]);
            }
            assert(views_of(rest@) =~= all.skip(i + 1));
            assert(all.take(i + 1) =~= all.take(i).push(all[i]));
            proof {
                all.take(i).lemma_filter_push(all[i], kept());
            }
            if s.is_kept() {
                let ghost before = self@.strokes;
                self.strokes.push(s);
                assert(self@.strokes =~= before.push(all[i]));
            }
        }
        assert(all.take(n as int) =~= all);
    }
}

/// Undoing one stroke of a non-empty canvas does not change what clearing
/// it gives.
pub proof fn lemma_undo_keeps_clear(v: CanvasView)
    requires
        v.strokes.len() > 0,
    ensures
        v.undo().clear() == v.clear(),
{
    let u = v.undo();
    assert(u.redo_buffer + u.strokes.reverse() =~= v.redo_buffer + v.strokes.reverse());
    assert(u.clear().strokes =~= v.clear().strokes);
}

/// Undo takes back a push: the strokes are those before the push, and the
/// pushed stroke is the newest one in the redo buffer.
pub proof fn lemma_undo_inverts_push(v: CanvasView, s: StrokeView)
    ensures
        v.push_stroke(s).undo().strokes == v.strokes,
        v.push_stroke(s).undo().redo_buffer == v.redo_buffer.push(s),
{
    assert(v.strokes.push(s).drop_last() =~= v.strokes);
}

/// Undoing as many times as there are strokes is a clear: the canvas ends
/// empty and the redo buffer gains the strokes newest first, so that the
/// first stroke drawn is the last one undone.
pub proof fn lemma_undo_every_stroke(v: CanvasView)
    ensures
        v.undo_n(v.strokes.len()) == v.clear(),
        v.undo_n(v.strokes.len()).strokes.len() == 0,
        v.undo_n(v.strokes.len()).redo_buffer.len() == v.redo_buffer.len() + v.strokes.len(),
        forall|i: int|
            0 <= i < v.strokes.len() ==> #[trigger] v.undo_n(v.strokes.len()).redo_buffer[v.redo_buffer.len() + i]
                == v.strokes[v.strokes.len() - 1 - i],
    decreases v.strokes.len(),
{
    if v.strokes.len() == 0 {
        assert(v.clear().redo_buffer =~= v.redo_buffer);
        assert(v.clear().strokes =~= v.strokes);
    } else {
        lemma_undo_keeps_clear(v);
        lemma_undo_every_stroke(v.undo());
    }
}

/// Redo right after an undo gives back the very stroke that was undone and
/// the whole state before the undo.
pub proof fn lemma_redo_inverts_undo(v: CanvasView)
    requires
        v.strokes.len() > 0,
    ensures
        v.undo().redo_buffer.last() == v.strokes.last(),
        v.undo().redo().strokes.last() == v.strokes.last(),
        v.undo().redo() == v,
{
    assert(v.undo().redo().strokes =~= v.strokes);
    assert(v.undo().redo().redo_buffer =~= v.redo_buffer);
}

/// Redo with an empty redo buffer changes nothing, however often it runs.
pub proof fn lemma_redo_on_empty_buffer(v: CanvasView, n: nat)
    requires
        v.redo_buffer.len() == 0,
    ensures
        v.redo() == v,
        v.redo_n(n) == v,
    decreases n,
{
    if n > 0 {
        lemma_redo_on_empty_buffer(v, (n - 1) as nat);
    }
}

/// Redo run once per stroke of `t`, on a buffer that ends with `t` reversed,
/// appends `t` to the strokes and leaves the front of the buffer.
pub proof fn lemma_redo_reversed(w: CanvasView, r: Seq<StrokeView>, t: Seq<StrokeView>)
    requires
        w.redo_buffer == r + t.reverse(),
    ensures
        w.redo_n(t.len()) == (CanvasView { strokes: w.strokes + t, redo_buffer: r }),
    decreases t.len(),
{
    if t.len() == 0 {
        assert(w.redo_buffer =~= r);
        assert(w.strokes + t =~= w.strokes);
    } else {
        let rest = t.skip(1);
        let u = w.redo();
        assert(w.redo_buffer.last() == t[0]);
        assert(u.redo_buffer =~= r + rest.reverse());
        lemma_redo_reversed(u, r, rest);
        assert(w.strokes.push(t[0]) + rest =~= w.strokes + t);
    }
}

/// A clear empties the canvas and puts every stroke in the redo buffer; as
/// many redos as there were strokes give back the canvas as it was, in its
/// order.
pub proof fn lemma_clear_then_redo_all(v: CanvasView)
    ensures
        v.clear().strokes.len() == 0,
        v.clear().redo_buffer.len() == v.redo_buffer.len() + v.strokes.len(),
        v.clear().redo_n(v.strokes.len()) == v,
{
    lemma_redo_reversed(v.clear(), v.redo_buffer, v.strokes);
    assert(Seq::<StrokeView>::empty() + v.strokes =~= v.strokes);
}

/// Retaining valid strokes leaves no degenerate stroke (one with fewer than
/// two points, or with zero width), keeps every stroke with two or more
/// points and a non-zero width, and leaves the redo buffer alone.
pub proof fn lemma_retain_valid(v: CanvasView)
    ensures
        forall|k: int|
            0 <= k < v.retain_valid().strokes.len() ==> (#[trigger] v.retain_valid().strokes[k]).is_kept(),
        forall|i: int|
            0 <= i < v.strokes.len() && v.strokes[i].is_kept() ==> v.retain_valid().strokes.contains(
                #[trigger] v.strokes[i],
            ),
        v.retain_valid().redo_buffer == v.redo_buffer,
{
    assert forall|k: int| 0 <= k < v.retain_valid().strokes.len() implies (#[trigger] v.retain_valid().strokes[k]).is_kept() by {
        v.strokes.lemma_filter_pred(kept(), k);
    }
    assert forall|i: int| 0 <= i < v.strokes.len() && v.strokes[i].is_kept() implies v.retain_valid().strokes.contains(
                #[trigger] v.strokes[i]) by {
        v.strokes.lemma_filter_contains(kept(), i);
    }
}

} // verus!
