//! The drawing surface and its context.
//!
//! A [`Canvas`] owns z-ordered layers of opaque primitive identifiers;
//! rendering visits z-indices in ascending order and, within a layer,
//! emits paths, then images, then texts, each in insertion order.
//!
//! A [`Context`] borrows its canvas and tracks the current transform
//! state together with a LIFO stack of saved states. `save` pushes the
//! current state and resets it to the identity (each save opens a fresh
//! nested coordinate frame); `restore` pops, and on an empty stack is a
//! deliberate no-op rather than a fault.

use vstd::prelude::*;

use crate::Renderer;
use crate::matrix::{Affine, Matrix};

verus! {

/// Which of the three primitive categories a render call carries.
#[derive(Clone, Copy, PartialEq, Eq, Structural, Debug)]
pub enum OpKind {
    Path,
    Image,
    Text,
}

/// The model of one layer: the identifiers of its primitives, per
/// category, in insertion order.
#[verifier::ext_equal]
pub ghost struct LayerModel {
    pub paths: Seq<Seq<char>>,
    pub images: Seq<Seq<char>>,
    pub texts: Seq<Seq<char>>,
}

/// The model of a canvas: its size, the default z-index, and the layers
/// as a sequence of `(z-index, layer)` pairs in ascending z order.
#[verifier::ext_equal]
pub ghost struct CanvasModel {
    pub width: int,
    pub height: int,
    pub z_index: int,
    pub layers: Seq<(int, LayerModel)>,
}

/// One layer of primitives, keyed by its z-index in the canvas's layer
/// list.
struct Layer {
    paths: Vec<String>,
    images: Vec<String>,
    texts: Vec<String>,
}

impl View for Layer {
    type V = LayerModel;

    closed spec fn view(&self) -> LayerModel {
        LayerModel {
            paths: self.paths@.map_values(|s: String| s@),
            images: self.images@.map_values(|s: String| s@),
            texts: self.texts@.map_values(|s: String| s@),
        }
    }
}

/// A drawing surface of fixed size holding z-ordered layers.
pub struct Canvas {
    width: i64,
    height: i64,
    z_index: i32,
    layers: Vec<(i32, Layer)>,
}

impl View for Canvas {
    type V = CanvasModel;

    closed spec fn view(&self) -> CanvasModel {
        CanvasModel {
            width: self.width as int,
            height: self.height as int,
            z_index: self.z_index as int,
            layers: self.layers@.map_values(|p: (i32, Layer)| (p.0 as int, p.1@)),
        }
    }
}

/// The layer keys are strictly increasing: each z-index occurs once and
/// iteration order is ascending z.
pub open spec fn sorted_keys(layers: Seq<(int, LayerModel)>) -> bool {
    forall|i: int, j: int| 0 <= i < j < layers.len() ==> layers[i].0 < layers[j].0
}

/// The layer with nothing in it.
pub open spec fn empty_layer() -> LayerModel {
    LayerModel { paths: Seq::empty(), images: Seq::empty(), texts: Seq::empty() }
}

/// `l` with the identifier `s` appended to the category `kind`.
pub open spec fn layer_add(l: LayerModel, kind: OpKind, s: Seq<char>) -> LayerModel {
    match kind {
        OpKind::Path => LayerModel { paths: l.paths.push(s), ..l },
        OpKind::Image => LayerModel { images: l.images.push(s), ..l },
        OpKind::Text => LayerModel { texts: l.texts.push(s), ..l },
    }
}

/// The position key `z` holds, or would take, in the sorted layer
/// sequence: the number of keys below it.
pub open spec fn insert_pos(layers: Seq<(int, LayerModel)>, z: int) -> int
    decreases layers.len(),
{
    if layers.len() == 0 {
        0
    } else if z <= layers[0].0 {
        0
    } else {
        1 + insert_pos(layers.drop_first(), z)
    }
}

/// What inserting one primitive at z-index `z` does to the layers: the
/// layer keyed `z` gains it, a fresh layer appearing first if `z` is new.
pub open spec fn layers_add(layers: Seq<(int, LayerModel)>, z: int, kind: OpKind, s: Seq<char>) -> Seq<
    (int, LayerModel),
> {
    let p = insert_pos(layers, z);
    if p < layers.len() && layers[p].0 == z {
        layers.update(p, (z, layer_add(layers[p].1, kind, s)))
    } else {
        layers.insert(p, (z, layer_add(empty_layer(), kind, s)))
    }
}

/// `insert_pos` comes after exactly the keys below `z`.
pub proof fn lemma_insert_pos(layers: Seq<(int, LayerModel)>, z: int)
    ensures
        0 <= insert_pos(layers, z) <= layers.len(),
        forall|j: int| 0 <= j < insert_pos(layers, z) ==> layers[j].0 < z,
        insert_pos(layers, z) < layers.len() ==> z <= layers[insert_pos(layers, z)].0,
    decreases layers.len(),
{
    if layers.len() == 0 {
    } else if z <= layers[0].0 {
    } else {
        lemma_insert_pos(layers.drop_first(), z);
        let p = insert_pos(layers, z);
        assert forall|j: int| 0 <= j < p implies layers[j].0 < z by {
            if j >= 1 {
                assert(layers.drop_first()[j - 1] == layers[j]);
            }
        }
        if p < layers.len() {
            assert(layers.drop_first()[p - 1] == layers[p]);
        }
    }
}

/// The render calls one layer emits: its paths, then its images, then
/// its texts, each in insertion order.
pub open spec fn layer_ops(l: LayerModel) -> Seq<(OpKind, Seq<char>)> {
    l.paths.map_values(|s: Seq<char>| (OpKind::Path, s))
        + l.images.map_values(|s: Seq<char>| (OpKind::Image, s))
        + l.texts.map_values(|s: Seq<char>| (OpKind::Text, s))
}

/// The render calls a layer sequence emits, in sequence order; with the
/// keys sorted this is ascending z order.
pub open spec fn layers_ops(layers: Seq<(int, LayerModel)>) -> Seq<(OpKind, Seq<char>)>
    decreases layers.len(),
{
    if layers.len() == 0 {
        Seq::empty()
    } else {
        layer_ops(layers[0].1) + layers_ops(layers.drop_first())
    }
}

/// Extending a prefix by one layer appends that layer's calls.
pub proof fn lemma_layers_ops_take(layers: Seq<(int, LayerModel)>, i: int)
    requires
        0 <= i < layers.len(),
    ensures
        layers_ops(layers.take(i + 1)) == layers_ops(layers.take(i)) + layer_ops(layers[i].1),
    decreases i,
{
    if i == 0 {
        assert(layers.take(0) =~= Seq::<(int, LayerModel)>::empty());
        assert(layers.take(1).drop_first() =~= Seq::<(int, LayerModel)>::empty());
        assert(layers.take(1)[0] == layers[0]);
        assert(layers_ops(layers.take(1)) =~= layers_ops(layers.take(0)) + layer_ops(layers[0].1));
    } else {
        lemma_layers_ops_take(layers.drop_first(), i - 1);
        assert(layers.take(i + 1).drop_first() =~= layers.drop_first().take(i));
        assert(layers.take(i).drop_first() =~= layers.drop_first().take(i - 1));
        assert(layers.take(i + 1)[0] == layers[0]);
        assert(layers.take(i)[0] == layers[0]);
        assert(layers.drop_first()[i - 1] == layers[i]);
        assert((layer_ops(layers[0].1) + layers_ops(layers.drop_first().take(i - 1)))
            + layer_ops(layers[i].1) =~= layer_ops(layers[0].1) + (layers_ops(
            layers.drop_first().take(i - 1),
        ) + layer_ops(layers[i].1)));
    }
}

/// The tagged view of an executable op list: each entry's kind and the
/// characters of its identifier.
pub open spec fn ops_view(v: Seq<(OpKind, String)>) -> Seq<(OpKind, Seq<char>)> {
    v.map_values(|p: (OpKind, String)| (p.0, p.1@))
}

/// Append one `(kind, identifier)` entry per item of `items` to `out`.
fn push_ops(out: &mut Vec<(OpKind, String)>, kind: OpKind, items: &Vec<String>)
    ensures
        ops_view(final(out)@) == ops_view(old(out)@) + items@.map_values(|s: String| s@)
            .map_values(|t: Seq<char>| (kind, t)),
{
    let ghost strs = items@.map_values(|s: String| s@);
    let ghost tag = (|t: Seq<char>| (kind, t));
    let mut k: usize = 0;
    while k < items.len()
        invariant
            k <= items@.len(),
            strs == items@.map_values(|s: String| s@),
            tag == (|t: Seq<char>| (kind, t)),
            ops_view(out@) == ops_view(old(out)@) + strs.take(k as int).map_values(tag),
        decreases items@.len() - k,
    {
        let ghost pre = out@;
        out.push((kind, items[k].clone()));
        proof {
            assert(out@ == pre.push((kind, items@[k as int])));
            assert(ops_view(out@) =~= ops_view(pre).push((kind, strs[k as int])));
            assert(strs.take(k + 1).map_values(tag) =~= strs.take(k as int).map_values(tag).push(
                (kind, strs[k as int]),
            ));
            assert(ops_view(old(out)@) + strs.take(k + 1).map_values(tag) =~= (ops_view(old(out)@)
                + strs.take(k as int).map_values(tag)).push((kind, strs[k as int])));
        }
        k += 1;
    }
    proof {
        assert(strs.take(items@.len() as int) =~= strs);
    }
}

impl Canvas {
    /// The canvas invariant: layers sorted by strictly ascending z-index.
    pub open spec fn well_formed(&self) -> bool {
        sorted_keys(self@.layers)
    }

    /// A canvas of the given size with no layers.
    pub fn new(width: i64, height: i64) -> (c: Canvas)
        ensures
            c@ == (CanvasModel {
                width: width as int,
                height: height as int,
                z_index: 0,
                layers: Seq::empty(),
            }),
            c.well_formed(),
    {
        let c = Canvas { width, height, z_index: 0, layers: Vec::new() };
        proof {
            assert(c@.layers =~= Seq::<(int, LayerModel)>::empty());
            assert(c@ =~= (CanvasModel {
                width: width as int,
                height: height as int,
                z_index: 0,
                layers: Seq::empty(),
            }));
        }
        c
    }

    /// The canvas width.
    pub fn get_width(&self) -> (w: i64)
        ensures
            w as int == self@.width,
    {
        self.width
    }

    /// The canvas height.
    pub fn get_height(&self) -> (h: i64)
        ensures
            h as int == self@.height,
    {
        self.height
    }

    /// The canvas width and height.
    pub fn size(&self) -> (r: (i64, i64))
        ensures
            r.0 as int == self@.width,
            r.1 as int == self@.height,
    {
        (self.width, self.height)
    }

    /// Whether the canvas holds no layers at all.
    pub fn empty(&self) -> (r: bool)
        ensures
            r == (self@.layers.len() == 0),
    {
        self.layers.is_empty()
    }

    /// Drop every layer; size and default z-index stay.
    pub fn reset(&mut self)
        ensures
            final(self)@ == (CanvasModel { layers: Seq::empty(), ..old(self)@ }),
            final(self).well_formed(),
    {
        self.layers.clear();
        proof {
            assert(self@.layers =~= Seq::<(int, LayerModel)>::empty());
            assert(self@ =~= (CanvasModel { layers: Seq::empty(), ..old(self)@ }));
        }
    }

    /// Set the default z-index. Rendering order is decided by the layer
    /// keys alone, so this does not affect [`Canvas::render_to`].
    pub fn set_z_index(&mut self, z_index: i32)
        ensures
            final(self)@ == (CanvasModel { z_index: z_index as int, ..old(self)@ }),
    {
        self.z_index = z_index;
        proof {
            assert(self@ =~= (CanvasModel { z_index: z_index as int, ..old(self)@ }));
        }
    }

    /// A fresh drawing context on this canvas: current transform the
    /// identity, no saved states.
    pub fn get_context<'a>(&'a self) -> (ctx: Context<'a>)
        ensures
            ctx.model() == (CtxModel { transform: Affine::identity(), saved: Seq::empty() }),
            ctx.surface() == self@,
    {
        let ctx = Context {
            canvas: self,
            state: ContextState { transform: Matrix::identity() },
            stack: Vec::new(),
        };
        proof {
            assert(ctx.model().saved =~= Seq::<Affine>::empty());
            assert(ctx.model() =~= (CtxModel {
                transform: Affine::identity(),
                saved: Seq::empty(),
            }));
        }
        ctx
    }
}

impl Canvas {
    /// Append one primitive identifier to the layer keyed `z`, creating
    /// that layer at its sorted position on first use.
    fn add_primitive(&mut self, z: i32, kind: OpKind, s: String)
        requires
            old(self).well_formed(),
        ensures
            final(self)@ == (CanvasModel {
                layers: layers_add(old(self)@.layers, z as int, kind, s@),
                ..old(self)@
            }),
            final(self).well_formed(),
    {
        let ghost ls = self@.layers;
        let ghost zi = z as int;
        let mut idx: usize = 0;
        while idx < self.layers.len() && self.layers[idx].0 < z
            invariant
                *self == *old(self),
                idx <= self.layers@.len(),
                forall|j: int| 0 <= j < idx ==> self@.layers[j].0 < z as int,
            decreases self.layers@.len() - idx,
        {
            idx += 1;
        }
        proof {
            lemma_insert_pos(ls, zi);
            let p = insert_pos(ls, zi);
            // The scan and `insert_pos` both sit right after the keys
            // below `z`, so they agree: either side of a strict
            // inequality between them would put one key both below and
            // not below `z`.
            if (idx as int) < p {
                assert(ls[idx as int].0 < zi);
            }
            if p < idx as int {
                assert(ls[p].0 < zi);
            }
            assert(idx as int == p);
        }
        if idx < self.layers.len() && self.layers[idx].0 == z {
            let pair = &mut self.layers[idx];
            match kind {
                OpKind::Path => pair.1.paths.push(s),
                OpKind::Image => pair.1.images.push(s),
                OpKind::Text => pair.1.texts.push(s),
            }
            proof {
                let pm = ls[idx as int].1;
                let lv = self.layers@[idx as int].1@;
                match kind {
                    OpKind::Path => {
                        assert(lv.paths =~= pm.paths.push(s@));
                        assert(lv.images =~= pm.images);
                        assert(lv.texts =~= pm.texts);
                    },
                    OpKind::Image => {
                        assert(lv.paths =~= pm.paths);
                        assert(lv.images =~= pm.images.push(s@));
                        assert(lv.texts =~= pm.texts);
                    },
                    OpKind::Text => {
                        assert(lv.paths =~= pm.paths);
                        assert(lv.images =~= pm.images);
                        assert(lv.texts =~= pm.texts.push(s@));
                    },
                }
                assert(lv =~= layer_add(pm, kind, s@));
                assert(self@.layers =~= ls.update(idx as int, (zi, layer_add(pm, kind, s@))));
                assert(self@.layers =~= layers_add(ls, zi, kind, s@));
                assert(forall|j: int| 0 <= j < self@.layers.len() ==> self@.layers[j].0 == ls[j].0);
                assert(self@ =~= (CanvasModel {
                    layers: layers_add(ls, zi, kind, s@),
                    ..old(self)@
                }));
            }
        } else {
            let mut layer = Layer { paths: Vec::new(), images: Vec::new(), texts: Vec::new() };
            match kind {
                OpKind::Path => layer.paths.push(s),
                OpKind::Image => layer.images.push(s),
                OpKind::Text => layer.texts.push(s),
            }
            proof {
                let lv = layer@;
                match kind {
                    OpKind::Path => {
                        assert(lv.paths =~= empty_layer().paths.push(s@));
                        assert(lv.images =~= empty_layer().images);
                        assert(lv.texts =~= empty_layer().texts);
                    },
                    OpKind::Image => {
                        assert(lv.paths =~= empty_layer().paths);
                        assert(lv.images =~= empty_layer().images.push(s@));
                        assert(lv.texts =~= empty_layer().texts);
                    },
                    OpKind::Text => {
                        assert(lv.paths =~= empty_layer().paths);
                        assert(lv.images =~= empty_layer().images);
                        assert(lv.texts =~= empty_layer().texts.push(s@));
                    },
                }
                assert(lv =~= layer_add(empty_layer(), kind, s@));
            }
            let ghost lv = layer@;
            self.layers.insert(idx, (z, layer));
            proof {
                let p = idx as int;
                let newls = self@.layers;
                assert(newls =~= ls.insert(p, (zi, lv)));
                assert(newls =~= layers_add(ls, zi, kind, s@));
                if p < ls.len() {
                    assert(ls[p].0 > zi);
                }
                assert forall|i: int, j: int| 0 <= i < j < newls.len() implies newls[i].0
                    < newls[j].0 by {
                    if j < p {
                    } else if j == p {
                        assert(newls[i] == ls[i]);
                    } else {
                        assert(newls[j] == ls[j - 1]);
                        if i < p {
                            assert(newls[i] == ls[i]);
                            if j - 1 == p {
                                assert(ls[j - 1].0 > zi);
                            }
                        } else if i == p {
                            assert(ls[j - 1].0 >= ls[p].0);
                        } else {
                            assert(newls[i] == ls[i - 1]);
                        }
                    }
                }
                assert(self@ =~= (CanvasModel {
                    layers: layers_add(ls, zi, kind, s@),
                    ..old(self)@
                }));
            }
        }
    }

    /// Append a path primitive, identified by `path`, at z-index `z`.
    pub fn add_path(&mut self, z: i32, path: String)
        requires
            old(self).well_formed(),
        ensures
            final(self)@ == (CanvasModel {
                layers: layers_add(old(self)@.layers, z as int, OpKind::Path, path@),
                ..old(self)@
            }),
            final(self).well_formed(),
    {
        self.add_primitive(z, OpKind::Path, path)
    }

    /// Append an image primitive, identified by `path`, at z-index `z`.
    pub fn add_image(&mut self, z: i32, path: String)
        requires
            old(self).well_formed(),
        ensures
            final(self)@ == (CanvasModel {
                layers: layers_add(old(self)@.layers, z as int, OpKind::Image, path@),
                ..old(self)@
            }),
            final(self).well_formed(),
    {
        self.add_primitive(z, OpKind::Image, path)
    }

    /// Append a text primitive, identified by `text`, at z-index `z`.
    pub fn add_text(&mut self, z: i32, text: String)
        requires
            old(self).well_formed(),
        ensures
            final(self)@ == (CanvasModel {
                layers: layers_add(old(self)@.layers, z as int, OpKind::Text, text@),
                ..old(self)@
            }),
            final(self).well_formed(),
    {
        self.add_primitive(z, OpKind::Text, text)
    }

    /// Every render call this canvas emits, in emission order: layers in
    /// sequence order (ascending z when well-formed), and per layer the
    /// paths, then the images, then the texts, in insertion order.
    pub fn render_ops(&self) -> (r: Vec<(OpKind, String)>)
        ensures
            ops_view(r@) == layers_ops(self@.layers),
    {
        let mut r: Vec<(OpKind, String)> = Vec::new();
        proof {
            assert(self@.layers.take(0) =~= Seq::<(int, LayerModel)>::empty());
            assert(ops_view(r@) =~= layers_ops(self@.layers.take(0)));
        }
        let mut i: usize = 0;
        while i < self.layers.len()
            invariant
                i <= self.layers@.len(),
                self@.layers.len() == self.layers@.len(),
                ops_view(r@) == layers_ops(self@.layers.take(i as int)),
            decreases self.layers@.len() - i,
        {
            let ghost pre = r@;
            let pair = &self.layers[i];
            push_ops(&mut r, OpKind::Path, &pair.1.paths);
            push_ops(&mut r, OpKind::Image, &pair.1.images);
            push_ops(&mut r, OpKind::Text, &pair.1.texts);
            proof {
                lemma_layers_ops_take(self@.layers, i as int);
                let lm = self@.layers[i as int].1;
                assert(lm == pair.1@);
                assert(ops_view(r@) =~= ops_view(pre) + layer_ops(lm));
                assert(ops_view(r@) =~= layers_ops(self@.layers.take(i + 1)));
            }
            i += 1;
        }
        proof {
            assert(self@.layers.take(self.layers@.len() as int) =~= self@.layers);
        }
        r
    }

    /// Flush this canvas into any [`Renderer`]: emit every stored
    /// primitive through the target's render calls, in the order given
    /// by [`Canvas::render_ops`].
    pub fn render_to<R: Renderer>(&self, r: &mut R) {
        let ops = self.render_ops();
        let mut i: usize = 0;
        while i < ops.len()
            invariant
                i <= ops@.len(),
            decreases ops@.len() - i,
        {
            let op = &ops[i];
            match op.0 {
                OpKind::Path => r.render_path(op.1.as_str()),
                OpKind::Image => r.render_image(op.1.as_str()),
                OpKind::Text => r.render_text(op.1.as_str()),
            }
            i += 1;
        }
    }
}

/// The model of a context's transform state: the current transform and
/// the stack of saved ones, bottom first.
#[verifier::ext_equal]
pub ghost struct CtxModel {
    pub transform: Affine,
    pub saved: Seq<Affine>,
}

/// What `save` does to the model: push the current transform and reset
/// it to the identity.
pub open spec fn save_step(s: CtxModel) -> CtxModel {
    CtxModel { transform: Affine::identity(), saved: s.saved.push(s.transform) }
}

/// What `restore` does to the model: pop the top saved transform into
/// the current one; on an empty stack, change nothing.
pub open spec fn restore_step(s: CtxModel) -> CtxModel {
    if s.saved.len() == 0 {
        s
    } else {
        CtxModel { transform: s.saved.last(), saved: s.saved.drop_last() }
    }
}

/// A save/restore pair returns the model to where it started, whatever
/// the current state and stack were.
pub proof fn lemma_save_restore(s: CtxModel)
    ensures
        restore_step(save_step(s)) == s,
{
    assert(save_step(s).saved.drop_last() =~= s.saved);
    assert(restore_step(save_step(s)) =~= s);
}

/// One transform state of a context.
#[derive(Clone, Copy)]
pub struct ContextState {
    transform: Matrix,
}

/// A drawing context: a read-only borrow of its canvas, the current
/// transform state, and the LIFO stack of saved states.
pub struct Context<'a> {
    canvas: &'a Canvas,
    state: ContextState,
    stack: Vec<ContextState>,
}

impl<'a> Context<'a> {
    /// The transform-state model of this context.
    pub closed spec fn model(&self) -> CtxModel {
        CtxModel {
            transform: self.state.transform@,
            saved: self.stack@.map_values(|cs: ContextState| cs.transform@),
        }
    }

    /// The model of the canvas this context draws on.
    pub closed spec fn surface(&self) -> CanvasModel {
        (*self.canvas)@
    }

    /// The size of the underlying canvas; no transform is involved.
    pub fn size(&self) -> (r: (i64, i64))
        ensures
            r.0 as int == self.surface().width,
            r.1 as int == self.surface().height,
    {
        self.canvas.size()
    }

    /// Push the current state onto the stack, then reset the current
    /// transform to the identity: each save opens a fresh nested
    /// coordinate frame, and the prior transform is recoverable only
    /// through [`Context::restore`].
    pub fn save(&mut self)
        ensures
            final(self).model() == save_step(old(self).model()),
            final(self).surface() == old(self).surface(),
    {
        self.stack.push(self.state);
        self.state = ContextState { transform: Matrix::identity() };
        proof {
            assert(self.model().saved =~= save_step(old(self).model()).saved);
            assert(self.model() =~= save_step(old(self).model()));
        }
    }

    /// Pop the top saved state into the current one; with an empty stack
    /// this is a silent no-op, not a fault.
    pub fn restore(&mut self)
        ensures
            final(self).model() == restore_step(old(self).model()),
            final(self).surface() == old(self).surface(),
    {
        match self.stack.pop() {
            Some(s) => {
                self.state = s;
                proof {
                    assert(self.model().saved =~= restore_step(old(self).model()).saved);
                    assert(self.model() =~= restore_step(old(self).model()));
                }
            },
            None => {
                proof {
                    assert(self.model() =~= restore_step(old(self).model()));
                }
            },
        }
    }

    /// The current transform.
    pub fn current_transform(&self) -> (m: Matrix)
        ensures
            m@ == self.model().transform,
    {
        self.state.transform
    }

    /// How many saved states the stack holds.
    pub fn stack_depth(&self) -> (n: usize)
        ensures
            n as int == self.model().saved.len(),
    {
        self.stack.len()
    }
}

} // verus!
