//! Deferred texture requests of the quad batcher, their load state machine,
//! and the index pattern of a quad.

use vstd::prelude::*;
use crate::text::{chars_of, find_chars, find_from, lower_seq, replace_char, replace_char_seq, to_ascii_lowercase};

verus! {

/// Flag bit: clip to a circle using UV coordinates (for the minimap).
pub const FLAG_CIRCLE_CLIP: u32 = 0x100;
/// Flag bit: cooldown swipe (radial clock wipe).
pub const FLAG_COOLDOWN_SWIPE: u32 = 0x200;
/// Flag bit: desaturate (convert to greyscale).
pub const FLAG_DESATURATE: u32 = 0x400;
/// Flag bit: mask samples use alpha coverage instead of RGB intensity.
pub const FLAG_MASK_ALPHA_COVERAGE: u32 = 0x800;
/// Flag bit: fragments outside the original local UV rectangle are transparent.
pub const FLAG_CLAMP_TO_BLACK: u32 = 0x1000;

/// Load state of a deferred texture request.
#[derive(Debug, Clone, Copy, PartialEq, Eq, Structural)]
pub struct RequestState {
    pub staged: bool,
    pub ready: bool,
    pub force_rgba: bool,
    pub failed: bool,
}

/// The load states of deferred texture requests, one per handle, indexed by
/// handle id. A request and all its copies hold the same handle, so they
/// share one state: a mark made through any of them is seen through all.
#[derive(Debug)]
pub struct RequestStates {
    pub states: Vec<RequestState>,
}

/// A handle on one load state in a `RequestStates` table.
#[derive(Debug, Clone, Copy, PartialEq, Eq, Structural)]
pub struct TextureRequestHandle {
    pub id: usize,
}

/// A texture request for deferred loading.
#[derive(Debug)]
pub struct TextureRequest {
    /// Texture path in WoW form (`Interface\\Buttons\\UI-Panel-Button-Up`).
    pub path: String,
    /// First vertex index (four vertices per quad).
    pub vertex_start: u32,
    /// Number of vertices using this texture.
    pub vertex_count: u32,
    /// Whether atlas UV remapping insets by half a texel against bleeding.
    pub use_uv_inset: bool,
    /// The request's load state.
    pub handle: TextureRequestHandle,
}

/// `s` contains `pat`.
pub open spec fn contains_seq(s: Seq<char>, pat: Seq<char>) -> bool {
    find_from(s, pat, 0) >= 0
}

/// Paths of the tab art in `Interface/FrameGeneral/UIFrameTabs`, in any case
/// and with either slash.
pub open spec fn spec_is_ui_frame_tabs_path(path: Seq<char>) -> bool {
    contains_seq(lower_seq(replace_char_seq(path, '\\', '/')), "interface/framegeneral/uiframetabs"@)
}

/// Whether atlas UV remapping insets a request's path: every path but crops
/// of the frame-tab art.
pub open spec fn spec_should_use_uv_inset(path: Seq<char>) -> bool {
    !(contains_seq(path, "@crop:"@) && spec_is_ui_frame_tabs_path(path))
}

fn contains_str(s: &Vec<char>, pat: &str) -> (r: bool)
    ensures
        r == contains_seq(s@, pat@),
{
    let p = chars_of(pat);
    find_chars(s, &p).is_some()
}

/// Whether a path names the frame-tab art.
pub fn is_ui_frame_tabs_path(path: &str) -> (r: bool)
    ensures
        r == spec_is_ui_frame_tabs_path(path@),
{
    let slashed = replace_char(path, '\\', '/');
    let lower = to_ascii_lowercase(slashed.as_str());
    contains_str(&lower, "interface/framegeneral/uiframetabs")
}

/// Whether atlas UV remapping insets a request's path.
pub fn should_use_uv_inset(path: &str) -> (r: bool)
    ensures
        r == spec_should_use_uv_inset(path@),
{
    let chars = chars_of(path);
    !(contains_str(&chars, "@crop:") && is_ui_frame_tabs_path(path))
}

/// The state of a fresh request: nothing staged, ready, forced or failed.
pub open spec fn fresh_state() -> RequestState {
    RequestState { staged: false, ready: false, force_rgba: false, failed: false }
}

impl RequestStates {
    /// A table without states.
    pub fn new() -> (r: Self)
        ensures
            r.states@.len() == 0,
            r.all_reachable(),
    {
        RequestStates { states: Vec::new() }
    }

    /// Whether `h` names a state of this table.
    pub open spec fn holds(&self, h: TextureRequestHandle) -> bool {
        h.id < self.states@.len()
    }

    /// The state `h` names.
    pub open spec fn state_of(&self, h: TextureRequestHandle) -> RequestState {
        self.states@[h.id as int]
    }

    /// Every state of the table is one that marks can reach.
    pub open spec fn all_reachable(&self) -> bool {
        forall|i: int| 0 <= i < self.states@.len() ==> #[trigger] reachable_state(self.states@[i])
    }
}

impl TextureRequest {
    /// A deferred request for `path` with a new handle on a fresh load state;
    /// the UV inset follows `should_use_uv_inset`.
    pub fn new(path: String, vertex_start: u32, vertex_count: u32, states: &mut RequestStates) -> (r: Self)
        requires
            old(states).states@.len() < usize::MAX,
        ensures
            r.path@ == path@,
            r.vertex_start == vertex_start,
            r.vertex_count == vertex_count,
            r.use_uv_inset == spec_should_use_uv_inset(path@),
            r.handle.id == old(states).states@.len(),
            final(states).states@ == old(states).states@.push(fresh_state()),
            old(states).all_reachable() ==> final(states).all_reachable(),
    {
        let use_uv_inset = should_use_uv_inset(path.as_str());
        Self::new_with_uv_inset(path, vertex_start, vertex_count, use_uv_inset, states)
    }

    /// A deferred request with an explicit UV inset and a new handle on a
    /// fresh load state.
    pub fn new_with_uv_inset(
        path: String,
        vertex_start: u32,
        vertex_count: u32,
        use_uv_inset: bool,
        states: &mut RequestStates,
    ) -> (r: Self)
        requires
            old(states).states@.len() < usize::MAX,
        ensures
            r.path@ == path@,
            r.vertex_start == vertex_start,
            r.vertex_count == vertex_count,
            r.use_uv_inset == use_uv_inset,
            r.handle.id == old(states).states@.len(),
            final(states).states@ == old(states).states@.push(fresh_state()),
            old(states).all_reachable() ==> final(states).all_reachable(),
    {
        TextureRequest {
            path,
            vertex_start,
            vertex_count,
            use_uv_inset,
            handle: TextureRequestHandle::new(states),
        }
    }

    /// The same request moved to another first vertex, holding the same
    /// handle: the copy and the request share one load state.
    pub fn with_vertex_start(&self, vertex_start: u32) -> (r: Self)
        ensures
            r.path@ == self.path@,
            r.vertex_start == vertex_start,
            r.vertex_count == self.vertex_count,
            r.use_uv_inset == self.use_uv_inset,
            r.handle == self.handle,
    {
        let chars = chars_of(self.path.as_str());
        TextureRequest {
            path: crate::text::string_from_chars(chars.as_slice()),
            vertex_start,
            vertex_count: self.vertex_count,
            use_uv_inset: self.use_uv_inset,
            handle: self.handle,
        }
    }
}

impl TextureRequestHandle {
    /// A handle on a new, fresh state of `states`.
    pub fn new(states: &mut RequestStates) -> (r: Self)
        requires
            old(states).states@.len() < usize::MAX,
        ensures
            r.id == old(states).states@.len(),
            final(states).states@ == old(states).states@.push(fresh_state()),
            old(states).all_reachable() ==> final(states).all_reachable(),
    {
        let id = states.states.len();
        states.states.push(RequestState { staged: false, ready: false, force_rgba: false, failed: false });
        TextureRequestHandle { id }
    }

    /// The whole state.
    pub fn state(&self, states: &RequestStates) -> (r: RequestState)
        requires
            states.holds(*self),
        ensures
            r == states.state_of(*self),
    {
        states.states[self.id]
    }

    /// Whether loading finished and GPU upload can resolve the request.
    pub fn is_ready(&self, states: &RequestStates) -> (r: bool)
        requires
            states.holds(*self),
        ensures
            r == states.state_of(*self).ready,
    {
        states.states[self.id].ready
    }

    /// Whether the request failed and stays quiet until reset.
    pub fn is_failed(&self, states: &RequestStates) -> (r: bool)
        requires
            states.holds(*self),
        ensures
            r == states.state_of(*self).failed,
    {
        states.states[self.id].failed
    }

    /// Whether the request is staged for upload.
    pub fn is_staged(&self, states: &RequestStates) -> (r: bool)
        requires
            states.holds(*self),
        ensures
            r == states.state_of(*self).staged,
    {
        states.states[self.id].staged
    }

    /// Whether the request is neither ready nor failed.
    pub fn is_pending(&self, states: &RequestStates) -> (r: bool)
        requires
            states.holds(*self),
        ensures
            r == spec_is_pending(states.state_of(*self)),
    {
        let st = states.states[self.id];
        !st.ready && !st.failed
    }

    /// Whether preload or draw still has to drive the request: it is pending
    /// and either not staged or forced to retry through RGBA.
    pub fn should_load(&self, states: &RequestStates) -> (r: bool)
        requires
            states.holds(*self),
        ensures
            r == spec_should_load(states.state_of(*self)),
    {
        let st = states.states[self.id];
        !st.ready && !st.failed && (!st.staged || st.force_rgba)
    }

    /// Whether the next retry bypasses compressed upload.
    pub fn needs_force_rgba(&self, states: &RequestStates) -> (r: bool)
        requires
            states.holds(*self),
        ensures
            r == states.state_of(*self).force_rgba,
    {
        states.states[self.id].force_rgba
    }

    /// Marks the request staged for GPU upload.
    pub fn mark_staged(&self, states: &mut RequestStates)
        requires
            old(states).holds(*self),
        ensures
            final(states).states@ == old(states).states@.update(self.id as int, staged_state()),
            old(states).all_reachable() ==> final(states).all_reachable(),
    {
        states.states.set(self.id, RequestState { staged: true, ready: false, force_rgba: false, failed: false });
    }

    /// Marks the request ready in the atlas after GPU upload.
    pub fn mark_ready(&self, states: &mut RequestStates)
        requires
            old(states).holds(*self),
        ensures
            final(states).states@ == old(states).states@.update(self.id as int, ready_state()),
            old(states).all_reachable() ==> final(states).all_reachable(),
    {
        states.states.set(self.id, RequestState { staged: true, ready: true, force_rgba: false, failed: false });
    }

    /// Marks the request for a retry that bypasses compressed upload.
    pub fn mark_force_rgba(&self, states: &mut RequestStates)
        requires
            old(states).holds(*self),
        ensures
            final(states).states@ == old(states).states@.update(self.id as int, force_rgba_state()),
            old(states).all_reachable() ==> final(states).all_reachable(),
    {
        self.mark_retry(states);
        states.states.set(self.id, RequestState { staged: false, ready: false, force_rgba: true, failed: false });
    }

    /// Clears the state so the request is retried on the next frame.
    pub fn mark_retry(&self, states: &mut RequestStates)
        requires
            old(states).holds(*self),
        ensures
            final(states).states@ == old(states).states@.update(self.id as int, fresh_state()),
            old(states).all_reachable() ==> final(states).all_reachable(),
    {
        states.states.set(self.id, RequestState { staged: false, ready: false, force_rgba: false, failed: false });
    }

    /// Marks the request failed; it is not retried.
    pub fn mark_failed(&self, states: &mut RequestStates)
        requires
            old(states).holds(*self),
        ensures
            final(states).states@ == old(states).states@.update(self.id as int, failed_state()),
            old(states).all_reachable() ==> final(states).all_reachable(),
    {
        states.states.set(self.id, RequestState { staged: false, ready: false, force_rgba: false, failed: true });
    }
}

/// Whether a request in state `h` still has to be loaded.
pub open spec fn spec_should_load(h: RequestState) -> bool {
    !h.ready && !h.failed && (!h.staged || h.force_rgba)
}

/// Whether a request in state `h` is neither ready nor failed.
pub open spec fn spec_is_pending(h: RequestState) -> bool {
    !h.ready && !h.failed
}

/// The state after `mark_staged`.
pub open spec fn staged_state() -> RequestState {
    RequestState { staged: true, ready: false, force_rgba: false, failed: false }
}

/// The state after `mark_ready`.
pub open spec fn ready_state() -> RequestState {
    RequestState { staged: true, ready: true, force_rgba: false, failed: false }
}

/// The state after `mark_force_rgba`.
pub open spec fn force_rgba_state() -> RequestState {
    RequestState { staged: false, ready: false, force_rgba: true, failed: false }
}

/// The state after `mark_failed`.
pub open spec fn failed_state() -> RequestState {
    RequestState { staged: false, ready: false, force_rgba: false, failed: true }
}

/// A load state that marks can reach from a fresh one: never ready and
/// failed at once; ready only when staged; failed only when not staged;
/// forced to RGBA only while not staged, ready or failed.
pub open spec fn reachable_state(s: RequestState) -> bool {
    &&& !(s.ready && s.failed)
    &&& s.ready ==> s.staged
    &&& s.failed ==> !s.staged
    &&& s.force_rgba ==> !s.staged && !s.ready && !s.failed
}

/// Whatever sequence of marks a table of request states goes through (each
/// operation keeps every state reachable, starting from an empty table),
/// the state any handle reads is a reachable one.
pub proof fn lemma_request_states_stay_reachable(states: RequestStates, h: TextureRequestHandle)
    requires
        states.all_reachable(),
        states.holds(h),
    ensures
        reachable_state(states.state_of(h)),
        reachable_state(fresh_state()),
        reachable_state(staged_state()),
        reachable_state(ready_state()),
        reachable_state(force_rgba_state()),
        reachable_state(failed_state()),
{
}

/// Whatever state a request is in: marking it ready makes it ready and ends
/// loading; marking it failed ends pending and loading; forcing RGBA makes it
/// load again through RGBA; a retry makes it load again; staging leaves it
/// pending without loading.
pub proof fn lemma_request_state_machine()
    ensures
        ready_state().ready && !spec_should_load(ready_state()),
        !spec_is_pending(failed_state()) && !spec_should_load(failed_state()),
        spec_should_load(force_rgba_state()) && force_rgba_state().force_rgba,
        spec_should_load(fresh_state()),
        spec_is_pending(staged_state()) && !spec_should_load(staged_state()),
{
}

/// A request and its copies share one load state: after a mark made
/// through one handle, every handle equal to it (such as the one a moved
/// copy holds) reads the new state, and every other request keeps its own.
pub proof fn lemma_copies_share_load_state(
    before: RequestStates,
    after: RequestStates,
    marked: TextureRequestHandle,
    copy: TextureRequestHandle,
    other: TextureRequestHandle,
    new_state: RequestState,
)
    requires
        before.holds(marked),
        before.holds(other),
        copy == marked,
        other != marked,
        after.states@ == before.states@.update(marked.id as int, new_state),
    ensures
        after.holds(copy),
        after.state_of(copy) == new_state,
        after.state_of(other) == before.state_of(other),
{
}

/// The six indices of a quad's two triangles whose four vertices start at
/// `base_index`.
pub open spec fn quad_indices(base_index: u32) -> Seq<u32> {
    seq![
        base_index,
        (base_index + 1) as u32,
        (base_index + 2) as u32,
        base_index,
        (base_index + 2) as u32,
        (base_index + 3) as u32,
    ]
}

/// Appends the indices of a quad's two triangles (0-1-2 and 0-2-3).
pub fn push_quad_indices(indices: &mut Vec<u32>, base_index: u32)
    requires
        base_index + 3 <= u32::MAX,
    ensures
        final(indices)@ == old(indices)@ + quad_indices(base_index),
{
    indices.push(base_index);
    indices.push(base_index + 1);
    indices.push(base_index + 2);
    indices.push(base_index);
    indices.push(base_index + 2);
    indices.push(base_index + 3);
    assert(indices@ == old(indices)@ + quad_indices(base_index));
}

} // verus!
