//! The render instruction pipeline: the pass that turns visuals into
//! instructions, an owned queue that carries them, and the
//! renderer's frame cache, which always holds one complete frame's batch.
//!
//! Geometry, transforms and textures are carried through as opaque payloads:
//! the pipeline only decides what is drawn, in which order, with which shader
//! pair.

use vstd::prelude::*;

verus! {

/// One draw submission. `mesh` carries the geometry, world transform and
/// z-layer; `texture` is the optional image to crop and upload.
pub struct DrawCall<D, T> {
    pub mesh: D,
    pub texture: Option<T>,
    pub vertex_shader: String,
    pub fragment_shader: String,
}

/// An instruction for the renderer, consumed in the order it was queued.
/// `N` is the scalar type of view changes.
pub enum RenderInstruction<D, T, N> {
    Draw(DrawCall<D, T>),
    Zoom(N),
    Translate(N, N),
    SetOrigin(N, N),
    /// Marks the start of a new frame's batch.
    StartBuffer,
}

/// A first-in, first-out queue of messages with a single owner.
pub struct RenderQueue<I> {
    pending: Vec<I>,
}

impl<I> View for RenderQueue<I> {
    type V = Seq<I>;

    closed spec fn view(&self) -> Seq<I> {
        self.pending@
    }
}

impl<I> RenderQueue<I> {
    pub fn new() -> (r: RenderQueue<I>)
        ensures
            r@ == Seq::<I>::empty(),
    {
        RenderQueue { pending: Vec::new() }
    }

    /// Enqueues a message behind those already waiting.
    pub fn send(&mut self, m: I)
        ensures
            final(self)@ == old(self)@.push(m),
    {
        self.pending.push(m);
    }

    pub fn len(&self) -> (r: usize)
        ensures
            r == self@.len(),
    {
        self.pending.len()
    }

    /// Takes every waiting message, oldest first, without blocking.
    pub fn take_all(&mut self) -> (r: Vec<I>)
        ensures
            r@ == old(self)@,
            final(self)@ == Seq::<I>::empty(),
    {
        let mut taken: Vec<I> = Vec::new();
        std::mem::swap(&mut taken, &mut self.pending);
        taken
    }
}

/// A new, empty render queue.
pub fn create_render_channel<D, T, N>() -> (r: RenderQueue<RenderInstruction<D, T, N>>)
    ensures
        r@ == Seq::<RenderInstruction<D, T, N>>::empty(),
{
    RenderQueue::new()
}

/// The cache after the instructions `incoming` were buffered in order onto
/// `cache`: `StartBuffer` empties it, anything else is appended.
pub open spec fn buffered<D, T, N>(
    cache: Seq<RenderInstruction<D, T, N>>,
    incoming: Seq<RenderInstruction<D, T, N>>,
) -> Seq<RenderInstruction<D, T, N>>
    decreases incoming.len(),
{
    if incoming.len() == 0 {
        cache
    } else if incoming.last() is StartBuffer {
        Seq::empty()
    } else {
        buffered(cache, incoming.drop_last()).push(incoming.last())
    }
}

pub open spec fn no_frame_start<D, T, N>(s: Seq<RenderInstruction<D, T, N>>) -> bool {
    forall|k: int| 0 <= k < s.len() ==> !(s[k] is StartBuffer)
}

/// Consumes the render queue and keeps the latest frame's batch.
pub struct Renderer<D, T, N> {
    cache: Vec<RenderInstruction<D, T, N>>,
}

impl<D, T, N> View for Renderer<D, T, N> {
    type V = Seq<RenderInstruction<D, T, N>>;

    closed spec fn view(&self) -> Seq<RenderInstruction<D, T, N>> {
        self.cache@
    }
}

impl<D, T, N> Renderer<D, T, N> {
    /// A renderer with an empty cache.
    pub fn new() -> (r: Renderer<D, T, N>)
        ensures
            r@ == Seq::<RenderInstruction<D, T, N>>::empty(),
    {
        Renderer { cache: Vec::new() }
    }

    /// Drains the queue without blocking into the cache. `StartBuffer`
    /// discards what was cached before it; nothing else ever clears the cache.
    pub fn buffer(&mut self, queue: &mut RenderQueue<RenderInstruction<D, T, N>>)
        ensures
            final(self)@ == buffered(old(self)@, old(queue)@),
            final(queue)@ == Seq::<RenderInstruction<D, T, N>>::empty(),
    {
        let mut incoming = queue.take_all();
        let ghost all = incoming@;
        let ghost start = self.cache@;
        let ghost mut i: int = 0;
        while incoming.len() > 0
            invariant
                0 <= i <= all.len(),
                incoming@ == all.skip(i),
                self.cache@ == buffered(start, all.take(i)),
            decreases incoming.len(),
        {
            let inst = incoming.remove(0);
            proof {
                assert(inst == all[i]);
                assert(all.take(i + 1).drop_last() =~= all.take(i));
                assert(all.take(i + 1).last() == all[i]);
                assert(all.skip(i).skip(1) =~= all.skip(i + 1));
            }
            match inst {
                RenderInstruction::StartBuffer => self.cache.clear(),
                other => self.cache.push(other),
            }
            proof {
                i = i + 1;
            }
        }
        proof {
            assert(all.take(all.len() as int) =~= all);
        }
    }

    /// The cached batch, in the order it is replayed when drawing.
    pub fn cache(&self) -> (r: &Vec<RenderInstruction<D, T, N>>)
        ensures
            r@ == self@,
    {
        &self.cache
    }
}

/// What an entity shows. `Sprite` is reserved for animated content and draws
/// nothing yet; `Still` carries the entity's mesh and optional texture.
pub enum VisualType<D, T> {
    Sprite,
    Still(D, Option<T>),
}

/// The visuals that draw, in order, as mesh and texture.
pub open spec fn stills<D, T>(vs: Seq<VisualType<D, T>>) -> Seq<(D, Option<T>)>
    decreases vs.len(),
{
    if vs.len() == 0 {
        Seq::empty()
    } else {
        match vs.last() {
            VisualType::Sprite => stills(vs.drop_last()),
            VisualType::Still(mesh, texture) => stills(vs.drop_last()).push((mesh, texture)),
        }
    }
}

/// The vertex shader of every draw.
pub open spec fn vertex_shader_spec() -> Seq<char> {
    "basic"@
}

/// The fragment shader of a draw: the textured one when a texture is given.
pub open spec fn fragment_shader_spec(textured: bool) -> Seq<char> {
    if textured {
        "basic_tex"@
    } else {
        "basic"@
    }
}

/// `inst` draws `mesh` with `texture` through the shader pair for it.
pub open spec fn draws<D, T, N>(inst: RenderInstruction<D, T, N>, still: (D, Option<T>)) -> bool {
    match inst {
        RenderInstruction::Draw(call) => {
            &&& call.mesh == still.0
            &&& call.texture == still.1
            &&& call.vertex_shader@ == vertex_shader_spec()
            &&& call.fragment_shader@ == fragment_shader_spec(still.1 is Some)
        },
        _ => false,
    }
}

/// `out` is one frame's batch for `vs`: `StartBuffer`, then one draw per
/// still visual, in order.
pub open spec fn frame_batch<D, T, N>(vs: Seq<VisualType<D, T>>, out: Seq<RenderInstruction<D, T, N>>) -> bool {
    &&& out.len() == stills(vs).len() + 1
    &&& out[0] is StartBuffer
    &&& forall|k: int| 0 <= k < stills(vs).len() ==> draws(#[trigger] out[k + 1], stills(vs)[k])
}

/// The shader pair for a draw with or without a texture.
pub fn shader_pair(textured: bool) -> (r: (String, String))
    ensures
        r.0@ == vertex_shader_spec(),
        r.1@ == fragment_shader_spec(textured),
{
    proof {
        reveal_strlit("basic");
        reveal_strlit("basic_tex");
    }
    let vertex = "basic".to_owned();
    let fragment = if textured {
        "basic_tex".to_owned()
    } else {
        "basic".to_owned()
    };
    (vertex, fragment)
}

/// Turns the entities' visuals into render instructions.
pub struct RenderSystem {}

impl RenderSystem {
    pub fn new() -> (r: RenderSystem) {
        RenderSystem {  }
    }

    /// Queues one frame: `StartBuffer`, then a draw for each still visual in
    /// order, with the textured shader pair where a texture is present.
    /// Sprites queue nothing.
    pub fn run<D, T, N>(
        &mut self,
        visuals: Vec<VisualType<D, T>>,
        queue: &mut RenderQueue<RenderInstruction<D, T, N>>,
    )
        ensures
            final(queue)@.len() >= old(queue)@.len(),
            final(queue)@.take(old(queue)@.len() as int) == old(queue)@,
            frame_batch(visuals@, final(queue)@.skip(old(queue)@.len() as int)),
    {
        let ghost before = queue@;
        let ghost all = visuals@;
        let mut visuals = visuals;
        queue.send(RenderInstruction::StartBuffer);
        let ghost mut i: int = 0;
        while visuals.len() > 0
            invariant
                0 <= i <= all.len(),
                visuals@ == all.skip(i),
                queue@.len() == before.len() + 1 + stills(all.take(i)).len(),
                queue@.take(before.len() as int) == before,
                queue@[before.len() as int] is StartBuffer,
                forall|k: int|
                    0 <= k < stills(all.take(i)).len() ==> draws(
                        #[trigger] queue@[before.len() + 1 + k],
                        stills(all.take(i))[k],
                    ),
            decreases visuals.len(),
        {
            let v = visuals.remove(0);
            let ghost q0 = queue@;
            proof {
                assert(v == all[i]);
                assert(all.take(i + 1).drop_last() =~= all.take(i));
                assert(all.take(i + 1).last() == all[i]);
                assert(all.skip(i).skip(1) =~= all.skip(i + 1));
            }
            match v {
                VisualType::Sprite => {},
                VisualType::Still(mesh, texture) => {
                    let (vertex_shader, fragment_shader) = shader_pair(texture.is_some());
                    queue.send(
                        RenderInstruction::Draw(
                            DrawCall { mesh, texture, vertex_shader, fragment_shader },
                        ),
                    );
                },
            }
            proof {
                assert(queue@.take(before.len() as int) =~= before) by {
                    assert(forall|k: int| 0 <= k < before.len() ==> queue@[k] == q0[k]);
                }
                i = i + 1;
            }
        }
        proof {
            assert(all.take(all.len() as int) =~= all);
            let out = queue@.skip(before.len() as int);
            assert forall|k: int| 0 <= k < stills(all).len() implies draws(
                #[trigger] out[k + 1],
                stills(all)[k],
            ) by {
                assert(out[k + 1] == queue@[before.len() + 1 + k]);
            }
        }
    }
}

/// Buffering a frame forgets everything cached before it: after
/// `StartBuffer` and a batch holding no frame start, the cache is exactly
/// that batch.
pub proof fn law_frame_start_discards_cache<D, T, N>(
    cache: Seq<RenderInstruction<D, T, N>>,
    batch: Seq<RenderInstruction<D, T, N>>,
)
    requires
        no_frame_start(batch),
    ensures
        buffered(cache, seq![RenderInstruction::StartBuffer].add(batch)) == batch,
    decreases batch.len(),
{
    let incoming = seq![RenderInstruction::StartBuffer].add(batch);
    if batch.len() == 0 {
        assert(incoming.last() is StartBuffer);
    } else {
        assert(incoming.last() == batch.last());
        assert(incoming.drop_last() =~= seq![RenderInstruction::StartBuffer].add(batch.drop_last()));
        law_frame_start_discards_cache(cache, batch.drop_last());
        assert(batch.drop_last().push(batch.last()) =~= batch);
    }
}

/// Two frames in a row: once the second frame is buffered, the cache holds
/// only the second frame's instructions, whatever the first held.
pub proof fn law_second_frame_replaces_first<D, T, N>(
    cache: Seq<RenderInstruction<D, T, N>>,
    first: Seq<RenderInstruction<D, T, N>>,
    second: Seq<RenderInstruction<D, T, N>>,
)
    requires
        no_frame_start(first),
        no_frame_start(second),
    ensures
        buffered(
            buffered(cache, seq![RenderInstruction::StartBuffer].add(first)),
            seq![RenderInstruction::StartBuffer].add(second),
        ) == second,
{
    law_frame_start_discards_cache(cache, first);
    law_frame_start_discards_cache(first, second);
}

} // verus!
