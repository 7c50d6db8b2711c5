use vstd::prelude::*;

use crate::pixels::TextureExtent;

verus! {

/// What the fullscreen node knows of the texture that shows the captured frames:
/// the size of the last frame it was configured for, and whether the texture,
/// its uniform buffer and its bind group have been created.
pub struct TextureModel {
    pub width: usize,
    pub height: usize,
    pub bound: bool,
}

impl TextureModel {
    /// Before the first frame nothing is bound and the recorded size is 0 x 0.
    pub open spec fn well_formed(self) -> bool {
        !self.bound ==> (self.width == 0 && self.height == 0)
    }

    pub open spec fn initial() -> TextureModel {
        TextureModel { width: 0, height: 0, bound: false }
    }

    pub open spec fn same_size(self, width: usize, height: usize) -> bool {
        self.width == width && self.height == height
    }
}

/// What the node does with a captured frame.
#[derive(Clone, Copy, Debug, PartialEq, Eq)]
pub enum FramePlan {
    /// The frame size changed: create a texture of this extent, a new uniform buffer
    /// holding the fit factors, a sampler and a new bind group.
    Rebuild { extent: TextureExtent },
    /// Same size as before: write the frame's bytes into the existing texture.
    Upload { extent: TextureExtent, bytes_per_row: u32 },
}

pub open spec fn extent_of(width: usize, height: usize) -> TextureExtent {
    TextureExtent { width: width as u32, height: height as u32, depth_or_array_layers: 1 }
}

/// The plan for a frame of `width` x `height` pixels in state `m`.
pub open spec fn plan_for(m: TextureModel, width: usize, height: usize) -> FramePlan {
    if m.same_size(width, height) {
        FramePlan::Upload {
            extent: extent_of(width, height),
            bytes_per_row: (4 * (width as u32)) as u32,
        }
    } else {
        FramePlan::Rebuild { extent: extent_of(width, height) }
    }
}

/// The state once a frame of `width` x `height` pixels has been handled.
pub open spec fn state_after(m: TextureModel, width: usize, height: usize) -> TextureModel {
    if m.same_size(width, height) {
        m
    } else {
        TextureModel { width, height, bound: true }
    }
}

/// A frame can be handled unless it would be uploaded into a texture that does not
/// exist (a first frame of 0 x 0 pixels), or its row length overflows `u32`.
pub open spec fn frame_allowed(m: TextureModel, width: usize, height: usize) -> bool {
    m.same_size(width, height) ==> (m.bound && 4 * (width as u32) <= u32::MAX)
}

/// The texture state of the fullscreen node.
pub struct TextureState {
    tex_width: usize,
    tex_height: usize,
    bound: bool,
}

impl View for TextureState {
    type V = TextureModel;

    closed spec fn view(&self) -> TextureModel {
        TextureModel { width: self.tex_width, height: self.tex_height, bound: self.bound }
    }
}

impl TextureState {
    #[verifier::type_invariant]
    closed spec fn inv(self) -> bool {
        self@.well_formed()
    }

    /// A node that has seen no frame yet.
    pub fn new() -> (r: TextureState)
        ensures
            r@ == TextureModel::initial(),
    {
        TextureState { tex_width: 0, tex_height: 0, bound: false }
    }

    /// Decides what to do with a captured frame of `width` x `height` pixels and
    /// records its size.
    pub fn plan_frame(&mut self, width: usize, height: usize) -> (r: FramePlan)
        requires
            frame_allowed(old(self)@, width, height),
        ensures
            r == plan_for(old(self)@, width, height),
            final(self)@ == state_after(old(self)@, width, height),
            old(self)@.well_formed(),
            final(self)@.well_formed(),
    {
        proof {
            use_type_invariant(&*self);
        }
        let extent = crate::pixels::texture_extent(width, height);
        if width != self.tex_width || height != self.tex_height {
            *self = TextureState { tex_width: width, tex_height: height, bound: true };
            FramePlan::Rebuild { extent }
        } else {
            let row = crate::pixels::bytes_per_row(extent.width);
            FramePlan::Upload { extent, bytes_per_row: row }
        }
    }

    /// Whether the texture, uniform buffer and bind group exist: the node draws and
    /// refreshes its fit factors only then.
    pub fn is_bound(&self) -> (r: bool)
        ensures
            r == self@.bound,
            self@.well_formed(),
    {
        proof {
            use_type_invariant(self);
        }
        self.bound
    }

    /// The size of the last frame, `(0, 0)` before the first.
    pub fn texture_size(&self) -> (r: (usize, usize))
        ensures
            r == (self@.width, self@.height),
    {
        (self.tex_width, self.tex_height)
    }
}

/// The blend state of the node's pipeline: the one given, or else the fallback (the
/// node passes alpha blending).
pub fn blend_state_or<B>(given: Option<B>, fallback: B) -> (r: Option<B>)
    ensures
        r == (match given {
            Some(b) => Some(b),
            None => Some(fallback),
        }),
{
    if given.is_some() {
        given
    } else {
        Some(fallback)
    }
}

/// The state once the frames of `frames` have been handled in order.
pub open spec fn state_after_frames(m: TextureModel, frames: Seq<(usize, usize)>) -> TextureModel
    decreases frames.len(),
{
    if frames.len() == 0 {
        m
    } else {
        state_after_frames(state_after(m, frames[0].0, frames[0].1), frames.drop_first())
    }
}

/// Every frame of `frames`, handled in order from state `m`, is allowed when it comes.
pub open spec fn frames_allowed(m: TextureModel, frames: Seq<(usize, usize)>) -> bool
    decreases frames.len(),
{
    frames.len() == 0 || (frame_allowed(m, frames[0].0, frames[0].1) && frames_allowed(
        state_after(m, frames[0].0, frames[0].1),
        frames.drop_first(),
    ))
}

/// Handling a frame leaves the node bound to a texture of exactly that frame's size.
pub proof fn lemma_frame_binds_its_size(m: TextureModel, width: usize, height: usize)
    requires
        m.well_formed(),
        frame_allowed(m, width, height),
    ensures
        state_after(m, width, height) == (TextureModel { width, height, bound: true }),
        state_after(m, width, height).well_formed(),
{
}

/// A frame is rebuilt for exactly when its size differs from the last frame's, and
/// either way the plan carries that frame's extent.
pub proof fn lemma_rebuild_iff_resized(m: TextureModel, width: usize, height: usize)
    ensures
        (plan_for(m, width, height) is Rebuild) <==> !m.same_size(width, height),
        (plan_for(m, width, height) is Upload) <==> m.same_size(width, height),
        plan_for(m, width, height) matches FramePlan::Rebuild { extent } ==> extent == extent_of(
            width,
            height,
        ),
        plan_for(m, width, height) matches FramePlan::Upload { extent, .. } ==> extent == extent_of(
            width,
            height,
        ),
{
}

/// A second frame of the same size reuses the texture: it is uploaded, and the state
/// does not change.
pub proof fn lemma_repeated_frame_uploads(m: TextureModel, width: usize, height: usize)
    requires
        m.well_formed(),
        frame_allowed(m, width, height),
        4 * (width as u32) <= u32::MAX,
    ensures
        frame_allowed(state_after(m, width, height), width, height),
        plan_for(state_after(m, width, height), width, height) == (FramePlan::Upload {
            extent: extent_of(width, height),
            bytes_per_row: (4 * (width as u32)) as u32,
        }),
        state_after(state_after(m, width, height), width, height) == state_after(m, width, height),
{
}

/// After a non-empty run of frames the node is bound to the size of the last one.
pub proof fn lemma_frames_end_at_last_size(m: TextureModel, frames: Seq<(usize, usize)>)
    requires
        m.well_formed(),
        frames_allowed(m, frames),
        frames.len() > 0,
    ensures
        state_after_frames(m, frames) == (TextureModel {
            width: frames.last().0,
            height: frames.last().1,
            bound: true,
        }),
    decreases frames.len(),
{
    let m1 = state_after(m, frames[0].0, frames[0].1);
    lemma_frame_binds_its_size(m, frames[0].0, frames[0].1);
    if frames.len() > 1 {
        lemma_frames_end_at_last_size(m1, frames.drop_first());
        assert(frames.drop_first().last() == frames.last());
    } else {
        assert(state_after_frames(m1, frames.drop_first()) == m1);
    }
}

/// Starting from a fresh node, the node can draw exactly when at least one frame has
/// been handled.
pub proof fn lemma_bound_iff_some_frame(frames: Seq<(usize, usize)>)
    requires
        frames_allowed(TextureModel::initial(), frames),
    ensures
        state_after_frames(TextureModel::initial(), frames).bound <==> frames.len() > 0,
{
    if frames.len() > 0 {
        lemma_frames_end_at_last_size(TextureModel::initial(), frames);
    }
}

/// The state just before frame `i` of `frames` is handled, starting from `m`.
pub open spec fn state_at(m: TextureModel, frames: Seq<(usize, usize)>, i: int) -> TextureModel
    decreases i,
{
    if i <= 0 {
        m
    } else {
        state_after(state_at(m, frames, i - 1), frames[i - 1].0, frames[i - 1].1)
    }
}

/// The plan made for frame `i` of `frames`, starting from `m`.
pub open spec fn plan_at(m: TextureModel, frames: Seq<(usize, usize)>, i: int) -> FramePlan {
    plan_for(state_at(m, frames, i), frames[i].0, frames[i].1)
}

/// The extent a plan creates or writes.
pub open spec fn plan_extent(p: FramePlan) -> TextureExtent {
    match p {
        FramePlan::Rebuild { extent } => extent,
        FramePlan::Upload { extent, .. } => extent,
    }
}

/// Plan `j` is a rebuild and no plan after it, up to (not including) `i`, is one:
/// plan `j` made the texture that is in place when frame `i` comes.
pub open spec fn latest_rebuild_before(
    m: TextureModel,
    frames: Seq<(usize, usize)>,
    j: int,
    i: int,
) -> bool {
    &&& 0 <= j < i
    &&& plan_at(m, frames, j) is Rebuild
    &&& forall|k: int| j < k < i ==> #[trigger] plan_at(m, frames, k) is Upload
}

proof fn lemma_state_at_shift(m: TextureModel, frames: Seq<(usize, usize)>, i: int)
    requires
        1 <= i <= frames.len(),
    ensures
        state_at(m, frames, i) == state_at(
            state_after(m, frames[0].0, frames[0].1),
            frames.drop_first(),
            i - 1,
        ),
    decreases i,
{
    if i > 1 {
        lemma_state_at_shift(m, frames, i - 1);
        assert(frames.drop_first()[i - 2] == frames[i - 1]);
    } else {
        assert(state_at(m, frames, 0) == m);
        assert(state_at(state_after(m, frames[0].0, frames[0].1), frames.drop_first(), 0)
            == state_after(m, frames[0].0, frames[0].1));
    }
}

/// In a run of allowed frames, each frame is allowed in the state it finds.
pub proof fn lemma_allowed_at_each_step(m: TextureModel, frames: Seq<(usize, usize)>)
    requires
        frames_allowed(m, frames),
    ensures
        forall|i: int|
            0 <= i < frames.len() ==> frame_allowed(
                #[trigger] state_at(m, frames, i),
                frames[i].0,
                frames[i].1,
            ),
    decreases frames.len(),
{
    if frames.len() > 0 {
        let m1 = state_after(m, frames[0].0, frames[0].1);
        lemma_allowed_at_each_step(m1, frames.drop_first());
        assert forall|i: int| 0 <= i < frames.len() implies frame_allowed(
            #[trigger] state_at(m, frames, i),
            frames[i].0,
            frames[i].1,
        ) by {
            if i > 0 {
                lemma_state_at_shift(m, frames, i);
                assert(frames.drop_first()[i - 1] == frames[i]);
                assert(state_at(m1, frames.drop_first(), i - 1) == state_at(m, frames, i));
            }
        }
    }
}

/// From a fresh node, through any run of allowed frames: before frame `i` the node is
/// well formed, and when it is bound its texture was made by the latest rebuild, with
/// the extent of the recorded size.
pub proof fn lemma_bound_texture_has_recorded_size(frames: Seq<(usize, usize)>, i: int)
    requires
        frames_allowed(TextureModel::initial(), frames),
        0 <= i <= frames.len(),
    ensures
        state_at(TextureModel::initial(), frames, i).well_formed(),
        state_at(TextureModel::initial(), frames, i).bound ==> exists|j: int|
            latest_rebuild_before(TextureModel::initial(), frames, j, i) && plan_extent(
                #[trigger] plan_at(TextureModel::initial(), frames, j),
            ) == extent_of(
                state_at(TextureModel::initial(), frames, i).width,
                state_at(TextureModel::initial(), frames, i).height,
            ),
    decreases i,
{
    let m0 = TextureModel::initial();
    if i > 0 {
        let p = i - 1;
        lemma_bound_texture_has_recorded_size(frames, p);
        lemma_allowed_at_each_step(m0, frames);
        let sp = state_at(m0, frames, p);
        assert(frame_allowed(sp, frames[p].0, frames[p].1));
        let si = state_at(m0, frames, i);
        if plan_at(m0, frames, p) is Rebuild {
            assert(latest_rebuild_before(m0, frames, p, i));
            assert(plan_extent(plan_at(m0, frames, p)) == extent_of(si.width, si.height));
        } else {
            assert(si == sp);
            let j = choose|j: int|
                latest_rebuild_before(m0, frames, j, p) && plan_extent(
                    #[trigger] plan_at(m0, frames, j),
                ) == extent_of(sp.width, sp.height);
            assert(latest_rebuild_before(m0, frames, j, i));
        }
    }
}

/// From a fresh node, through any run of allowed frames, every upload writes into a
/// texture of its own extent: the extent of the latest rebuild before it.
pub proof fn lemma_upload_matches_latest_rebuild(frames: Seq<(usize, usize)>, i: int)
    requires
        frames_allowed(TextureModel::initial(), frames),
        0 <= i < frames.len(),
        plan_at(TextureModel::initial(), frames, i) is Upload,
    ensures
        exists|j: int|
            latest_rebuild_before(TextureModel::initial(), frames, j, i) && plan_extent(
                #[trigger] plan_at(TextureModel::initial(), frames, j),
            ) == plan_extent(plan_at(TextureModel::initial(), frames, i)),
{
    let m0 = TextureModel::initial();
    lemma_allowed_at_each_step(m0, frames);
    lemma_bound_texture_has_recorded_size(frames, i);
    assert(frame_allowed(state_at(m0, frames, i), frames[i].0, frames[i].1));
}

} // verus!
