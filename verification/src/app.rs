//! The viewer's state machine: which image is shown, how it is turned and
//! flipped, the slideshow, and which images are held decoded in the cache.
//!
//! The viewer decides; its host does the outside work. `App::update` turns a
//! command into the next state, a change of the on-screen view (scale and
//! pan, which the host keeps) and a window task. The cache work it plans is
//! queued: the host calls `App::advance` until it reports `Progress::Idle`,
//! decoding each image that it asks for and handing the result back through
//! `App::finish_load`.
use vstd::prelude::*;

use crate::cache::{cache_map, keys_distinct, lemma_cache_push, lemma_cache_remove, lemma_cache_lookup};
use crate::cli::Args;
use crate::img::collected_paths;

verus! {

/// A command to the viewer, from a key, the mouse, the window or a timer.
#[derive(Debug, Clone, Copy, PartialEq, Eq, Structural)]
pub enum Message {
    Next,
    Prev,
    GoToFirst,
    GoToLast,
    ZoomIn,
    ZoomOut,
    ActualSize,
    FitWindow,
    ResetView,
    Pan(i32, i32),
    /// The canvas dragged the image; the host holds the new offset.
    CanvasPan,
    /// The canvas zoomed the image; the host holds the new scale and offset.
    CanvasZoom,
    RotateCW,
    RotateCCW,
    FlipHorizontal,
    FlipVertical,
    ResetTransform,
    ToggleFullscreen,
    ToggleSlideshow,
    SlideshowTick,
    AdjustSlideshowDelay(i64),
    WindowResized(u32, u32),
    Close,
}

/// Which decoded image a cache entry holds: the image's index in the list,
/// and the rotation and flips it was decoded with.
#[derive(Debug, Clone, Copy, PartialEq, Eq, Structural)]
pub struct CacheKey {
    pub index: usize,
    pub rotation: u16,
    pub flip_h: bool,
    pub flip_v: bool,
}

/// A decoded image: the host's handle to it and its size after turning.
pub struct CachedImage<H> {
    pub handle: H,
    pub width: u32,
    pub height: u32,
}

/// One planned piece of cache work.
#[derive(Debug, Clone, Copy, PartialEq, Eq, Structural)]
pub enum LoadStep {
    /// Load the image if it is missing; on success it gives the image size.
    Ensure(CacheKey),
    /// Load the image if it is missing; it gives the image size when it is
    /// the current image, from the cache or from the load.
    Preload(CacheKey),
    /// Drop the entry.
    Evict(CacheKey),
}

/// How the on-screen view (scale and pan offset, kept by the host) changes.
#[derive(Debug, Clone, Copy, PartialEq, Eq, Structural)]
pub enum ViewChange {
    Keep,
    /// Scale the image to fit the viewport and centre it.
    Fit,
    /// Keep the scale and pull the pan offset back into bounds.
    Clamp,
    ZoomIn,
    ZoomOut,
    /// Scale 1:1, centred.
    ActualSize,
    /// Move by the given pixels, then clamp.
    Pan(i32, i32),
    /// Take the canvas's pan offset, then clamp.
    CanvasPan,
    /// Take the canvas's pan offset and scale, then bound the scale and clamp.
    CanvasZoom,
}

/// What the window should do after a command.
#[derive(Debug, Clone, Copy, PartialEq, Eq, Structural)]
pub enum Task {
    Nothing,
    Exit,
    /// Maximize the window, or restore it.
    Maximize(bool),
}

/// The answer to a command.
#[derive(Debug, Clone, Copy, PartialEq, Eq, Structural)]
pub struct Update {
    pub view: ViewChange,
    pub task: Task,
}

/// What one call of `App::advance` did.
#[derive(Debug, Clone, PartialEq, Eq)]
pub enum Progress {
    /// No cache work is left.
    Idle,
    /// One step was done without the disk.
    Done,
    /// The image at this path is to be decoded with this key's rotation and
    /// flips, and handed back through `App::finish_load`.
    Load(CacheKey, String),
}

/// The viewer's settings and position, apart from the cache.
pub struct ViewerState {
    pub paths: Seq<String>,
    pub current: usize,
    pub fullscreen: bool,
    pub slideshow_active: bool,
    pub slideshow_interval: u64,
    pub view_locked: bool,
    pub rotation: u16,
    pub flip_h: bool,
    pub flip_v: bool,
    pub window_size: (u32, u32),
}

/// The whole viewer as a value.
pub struct AppView<H> {
    pub state: ViewerState,
    /// The size of the current image, as far as it is known.
    pub image_size: (u32, u32),
    pub cache: Map<CacheKey, CachedImage<H>>,
    /// Cache work that is planned and not done yet, first step first.
    pub pending: Seq<LoadStep>,
    /// The step whose image the host is decoding.
    pub in_flight: Option<LoadStep>,
}

pub open spec fn step_key(step: LoadStep) -> CacheKey {
    match step {
        LoadStep::Ensure(k) => k,
        LoadStep::Preload(k) => k,
        LoadStep::Evict(k) => k,
    }
}

/// A planned step drops an entry or concerns an image of the list.
pub open spec fn step_in_range(step: LoadStep, n: nat) -> bool {
    step is Evict || step_key(step).index < n
}

/// A state is sound: the current image is in the list, the rotation is a
/// quarter turn, and all cached and planned images are in the list.
pub open spec fn state_valid(s: ViewerState) -> bool {
    &&& s.paths.len() <= usize::MAX
    &&& s.paths.len() > 0 ==> s.current < s.paths.len()
    &&& s.paths.len() == 0 ==> s.current == 0
    &&& s.rotation < 360
    &&& s.rotation % 90 == 0
}

pub open spec fn valid<H>(v: AppView<H>) -> bool {
    &&& state_valid(v.state)
    &&& forall|k: CacheKey| #[trigger] v.cache.contains_key(k) ==> k.index < v.state.paths.len()
    &&& forall|i: int| 0 <= i < v.pending.len() ==> step_in_range(#[trigger] v.pending[i], v.state.paths.len())
    &&& v.in_flight matches Some(step) ==> {
        &&& !(step is Evict)
        &&& step_key(step).index < v.state.paths.len()
        &&& !v.cache.contains_key(step_key(step))
    }
}

/// The cache key of image `index` under the state's rotation and flips.
pub open spec fn key_at(s: ViewerState, index: int) -> CacheKey {
    CacheKey { index: index as usize, rotation: s.rotation, flip_h: s.flip_h, flip_v: s.flip_v }
}

/// Preloading the image `offset` away from the current one, if it exists.
pub open spec fn preload_one(s: ViewerState, offset: int) -> Seq<LoadStep> {
    let index = s.current + offset;
    if 0 <= index < s.paths.len() {
        seq![LoadStep::Preload(key_at(s, index))]
    } else {
        seq![]
    }
}

/// Preloading the current image, then the previous one, then the next one.
pub open spec fn preload_steps(s: ViewerState) -> Seq<LoadStep> {
    preload_one(s, 0) + preload_one(s, -1) + preload_one(s, 1)
}

/// Dropping the entry of the image `offset` away from the current one.
pub open spec fn evict_one(s: ViewerState, offset: int) -> Seq<LoadStep> {
    let index = s.current + offset;
    if 0 <= index <= usize::MAX {
        seq![LoadStep::Evict(key_at(s, index))]
    } else {
        seq![]
    }
}

/// After a change of rotation or flips: drop the current, previous and next
/// images under the new rotation and flips, then preload them again.
pub open spec fn invalidate_steps(s: ViewerState) -> Seq<LoadStep> {
    evict_one(s, 0) + evict_one(s, -1) + evict_one(s, 1) + preload_steps(s)
}

/// The state after a command.
pub open spec fn next_state(s: ViewerState, m: Message) -> ViewerState {
    if s.paths.len() == 0 {
        s
    } else {
        match m {
            Message::Next => if s.current + 1 < s.paths.len() {
                ViewerState { current: (s.current + 1) as usize, ..s }
            } else {
                s
            },
            Message::Prev => if s.current > 0 {
                ViewerState { current: (s.current - 1) as usize, ..s }
            } else {
                s
            },
            Message::GoToFirst => ViewerState { current: 0, ..s },
            Message::GoToLast => ViewerState { current: (s.paths.len() - 1) as usize, ..s },
            Message::ZoomIn | Message::ZoomOut | Message::ActualSize | Message::Pan(_, _)
            | Message::CanvasPan | Message::CanvasZoom => ViewerState { view_locked: true, ..s },
            Message::FitWindow | Message::ResetView => ViewerState { view_locked: false, ..s },
            Message::WindowResized(w, h) => ViewerState { window_size: (w, h), ..s },
            Message::RotateCW => ViewerState { rotation: ((s.rotation + 90) % 360) as u16, ..s },
            Message::RotateCCW => ViewerState { rotation: ((s.rotation + 270) % 360) as u16, ..s },
            Message::FlipHorizontal => ViewerState { flip_h: !s.flip_h, ..s },
            Message::FlipVertical => ViewerState { flip_v: !s.flip_v, ..s },
            Message::ResetTransform => ViewerState { rotation: 0, flip_h: false, flip_v: false, ..s },
            Message::ToggleFullscreen => ViewerState { fullscreen: !s.fullscreen, ..s },
            Message::ToggleSlideshow => ViewerState { slideshow_active: !s.slideshow_active, ..s },
            Message::AdjustSlideshowDelay(delta) => if (s.slideshow_interval as i64) + delta >= 1 {
                ViewerState {
                    slideshow_interval: ((s.slideshow_interval as i64) + delta) as u64,
                    ..s
                }
            } else {
                s
            },
            Message::SlideshowTick => if s.slideshow_active {
                ViewerState { current: ((s.current + 1) % (s.paths.len() as int)) as usize, ..s }
            } else {
                s
            },
            Message::Close => s,
        }
    }
}

/// Fit the new image to the window unless the user has fixed the view.
pub open spec fn fit_unless_locked(s: ViewerState) -> ViewChange {
    if s.view_locked {
        ViewChange::Keep
    } else {
        ViewChange::Fit
    }
}

/// Fit unless the user has fixed the view, else keep the pan in bounds.
pub open spec fn fit_or_clamp(s: ViewerState) -> ViewChange {
    if s.view_locked {
        ViewChange::Clamp
    } else {
        ViewChange::Fit
    }
}

/// How a command changes the on-screen view.
pub open spec fn view_change(s: ViewerState, m: Message) -> ViewChange {
    if s.paths.len() == 0 {
        ViewChange::Keep
    } else {
        match m {
            Message::Next => if s.current + 1 < s.paths.len() {
                fit_unless_locked(s)
            } else {
                ViewChange::Keep
            },
            Message::Prev => if s.current > 0 {
                fit_unless_locked(s)
            } else {
                ViewChange::Keep
            },
            Message::GoToFirst | Message::GoToLast => fit_unless_locked(s),
            Message::ZoomIn => ViewChange::ZoomIn,
            Message::ZoomOut => ViewChange::ZoomOut,
            Message::ActualSize | Message::ResetTransform => ViewChange::ActualSize,
            Message::FitWindow | Message::ResetView => ViewChange::Fit,
            Message::WindowResized(_, _) | Message::RotateCW | Message::RotateCCW => fit_or_clamp(s),
            Message::Pan(dx, dy) => ViewChange::Pan(dx, dy),
            Message::CanvasPan => ViewChange::CanvasPan,
            Message::CanvasZoom => ViewChange::CanvasZoom,
            Message::FlipHorizontal | Message::FlipVertical => ViewChange::Clamp,
            Message::SlideshowTick => if s.slideshow_active {
                fit_unless_locked(s)
            } else {
                ViewChange::Keep
            },
            _ => ViewChange::Keep,
        }
    }
}

/// What the window does after a command.
pub open spec fn task_for(s: ViewerState, m: Message) -> Task {
    match m {
        Message::Close => Task::Exit,
        Message::ToggleFullscreen => if s.paths.len() == 0 {
            Task::Nothing
        } else {
            Task::Maximize(!s.fullscreen)
        },
        _ => Task::Nothing,
    }
}

/// The cache work a command plans after making sure the image shown when
/// it came is loaded.
pub open spec fn body_plan(s: ViewerState, m: Message) -> Seq<LoadStep> {
    let t = next_state(s, m);
    match m {
        Message::Next => if s.current + 1 < s.paths.len() {
            preload_steps(t)
        } else {
            seq![]
        },
        Message::Prev => if s.current > 0 {
            preload_steps(t)
        } else {
            seq![]
        },
        Message::GoToFirst | Message::GoToLast => preload_steps(t),
        Message::SlideshowTick => if s.slideshow_active {
            preload_steps(t)
        } else {
            seq![]
        },
        Message::RotateCW | Message::RotateCCW | Message::FlipHorizontal | Message::FlipVertical
        | Message::ResetTransform => invalidate_steps(t),
        _ => seq![],
    }
}

/// The cache work a command plans: first make sure the image shown when
/// the command came is loaded, then whatever the command itself needs.
pub open spec fn plan(s: ViewerState, m: Message) -> Seq<LoadStep> {
    if s.paths.len() == 0 {
        seq![]
    } else {
        seq![LoadStep::Ensure(key_at(s, s.current as int))] + body_plan(s, m)
    }
}

/// `after` is `before` with the command `m` applied, past the first step of
/// its plan, and `view` is the change of the on-screen view it asks for.
pub open spec fn stepped<H>(before: AppView<H>, after: AppView<H>, m: Message, view: ViewChange) -> bool {
    &&& after.state == next_state(before.state, m)
    &&& after.pending == before.pending + body_plan(before.state, m)
    &&& after.image_size == before.image_size
    &&& after.cache == before.cache
    &&& after.in_flight == before.in_flight
    &&& view == view_change(before.state, m)
}

/// What one call of `App::advance` does: it drops any load that was not
/// handed back, then takes the first planned step. A drop is done at once;
/// a load of a cached image is skipped, a preload of the current one then
/// gives the image size; a load of a missing image is handed to the host.
pub open spec fn advanced<H>(before: AppView<H>, after: AppView<H>, r: Progress) -> bool {
    &&& after.state == before.state
    &&& if before.pending.len() == 0 {
        &&& r == Progress::Idle
        &&& after.pending == before.pending
        &&& after.cache == before.cache
        &&& after.image_size == before.image_size
        &&& after.in_flight is None
    } else {
        let step = before.pending[0];
        let k = step_key(step);
        &&& after.pending == before.pending.drop_first()
        &&& match step {
            LoadStep::Evict(_) => {
                &&& r == Progress::Done
                &&& after.cache == before.cache.remove(k)
                &&& after.image_size == before.image_size
                &&& after.in_flight is None
            },
            _ => if before.cache.contains_key(k) {
                &&& r == Progress::Done
                &&& after.cache == before.cache
                &&& after.in_flight is None
                &&& after.image_size == if step is Preload && k.index == before.state.current {
                    (before.cache[k].width, before.cache[k].height)
                } else {
                    before.image_size
                }
            } else {
                &&& r matches Progress::Load(key, path) && key == k && path@
                    == before.state.paths[k.index as int]@
                &&& after.cache == before.cache
                &&& after.image_size == before.image_size
                &&& after.in_flight == Some(step)
            },
        }
    }
}

/// What handing back a decoded image does: a loaded image enters the cache;
/// it gives the image size when an `Ensure` asked for it, or when a
/// `Preload` asked for the current image. A failed load changes nothing.
pub open spec fn finished<H>(before: AppView<H>, after: AppView<H>, result: Option<CachedImage<H>>) -> bool {
    &&& after.state == before.state
    &&& after.pending == before.pending
    &&& after.in_flight is None
    &&& match (before.in_flight, result) {
        (Some(step), Some(image)) => {
            let k = step_key(step);
            &&& after.cache == before.cache.insert(k, image)
            &&& after.image_size == if step is Ensure || k.index == before.state.current {
                (image.width, image.height)
            } else {
                before.image_size
            }
        },
        _ => {
            &&& after.cache == before.cache
            &&& after.image_size == before.image_size
        },
    }
}

/// The state of a viewer started on the given images.
pub open spec fn initial_state(paths: Seq<String>, fullscreen: bool, slideshow: u64) -> ViewerState {
    ViewerState {
        paths,
        current: 0,
        fullscreen,
        slideshow_active: false,
        slideshow_interval: slideshow,
        view_locked: false,
        rotation: 0,
        flip_h: false,
        flip_v: false,
        window_size: (800, 600),
    }
}

/// The viewer: the image list, the position in it, the settings, and the
/// cache of decoded images, whose handles are of the host's type `H`.
pub struct App<H> {
    paths: Vec<String>,
    current: usize,
    image_cache: Vec<(CacheKey, CachedImage<H>)>,
    pending: Vec<LoadStep>,
    in_flight: Option<LoadStep>,
    fullscreen: bool,
    slideshow_active: bool,
    slideshow_interval: u64,
    view_locked: bool,
    rotation: u16,
    flip_h: bool,
    flip_v: bool,
    window_size: (u32, u32),
    current_image_size: (u32, u32),
}

impl<H> View for App<H> {
    type V = AppView<H>;

    closed spec fn view(&self) -> AppView<H> {
        AppView {
            state: ViewerState {
                paths: self.paths@,
                current: self.current,
                fullscreen: self.fullscreen,
                slideshow_active: self.slideshow_active,
                slideshow_interval: self.slideshow_interval,
                view_locked: self.view_locked,
                rotation: self.rotation,
                flip_h: self.flip_h,
                flip_v: self.flip_v,
                window_size: self.window_size,
            },
            image_size: self.current_image_size,
            cache: cache_map(self.image_cache@),
            pending: self.pending@,
            in_flight: self.in_flight,
        }
    }
}

impl<H> App<H> {
    /// The viewer is sound, and no two cache entries share a key.
    pub closed spec fn wf(&self) -> bool {
        &&& valid(self@)
        &&& keys_distinct(self.image_cache@)
    }

    /// The cache and its work are as in `before`, with the same list, and
    /// the state is sound: the viewer is well formed.
    proof fn lemma_frame(&self, before: AppView<H>)
        requires
            valid(before),
            keys_distinct(self.image_cache@),
            cache_map(self.image_cache@) == before.cache,
            self.in_flight == before.in_flight,
            self.pending@ == before.pending,
            self.paths@ == before.state.paths,
            state_valid(self@.state),
        ensures
            self.wf(),
    {
        assert(self@.cache == before.cache);
        assert(self@.pending == before.pending);
    }

    /// Starts the viewer on the images that the command line names, with
    /// `listing` the directory's entries when the only path is a directory.
    /// It plans to preload the first images, and maximizes the window when
    /// asked to start in fullscreen.
    pub fn new(args: Args, listing: Option<Vec<String>>) -> (r: (App<H>, Task))
        ensures
            r.0.wf(),
            valid(r.0@),
            collected_paths(
                args.paths@,
                match listing {
                    Some(l) => Some(l@),
                    None => None,
                },
                r.0@.state.paths,
            ),
            r.0@.state == initial_state(r.0@.state.paths, args.fullscreen, args.slideshow),
            r.0@.image_size == (0u32, 0u32),
            r.0@.cache == Map::<CacheKey, CachedImage<H>>::empty(),
            r.0@.pending == preload_steps(r.0@.state),
            r.0@.in_flight is None,
            r.1 == (if args.fullscreen {
                Task::Maximize(true)
            } else {
                Task::Nothing
            }),
    {
        let fullscreen = args.fullscreen;
        let paths = crate::img::collect_paths(args.paths, listing);
        let mut app = App {
            paths,
            current: 0,
            image_cache: Vec::new(),
            pending: Vec::new(),
            in_flight: None,
            fullscreen,
            slideshow_active: false,
            slideshow_interval: args.slideshow,
            view_locked: false,
            rotation: 0,
            flip_h: false,
            flip_v: false,
            window_size: (800, 600),
            current_image_size: (0, 0),
        };
        let count: usize = app.paths.len();
        proof {
            assert(app@.state.paths.len() == count);
            assert(app.image_cache@ =~= Seq::<(CacheKey, CachedImage<H>)>::empty());
            assert(cache_map(app.image_cache@) =~= Map::<CacheKey, CachedImage<H>>::empty());
            assert(app.pending@ =~= Seq::<LoadStep>::empty());
            assert(app@.cache == Map::<CacheKey, CachedImage<H>>::empty());
        }
        app.plan_preload();
        assert(app@.pending =~= preload_steps(app@.state));
        let task = if fullscreen {
            Task::Maximize(true)
        } else {
            Task::Nothing
        };
        (app, task)
    }

    /// The key of image `index` under the current rotation and flips.
    fn key_for(&self, index: usize) -> (k: CacheKey)
        ensures
            k == key_at(self@.state, index as int),
    {
        CacheKey { index, rotation: self.rotation, flip_h: self.flip_h, flip_v: self.flip_v }
    }

    /// Queues one step of cache work.
    fn push_step(&mut self, step: LoadStep)
        requires
            old(self).wf(),
            step_in_range(step, old(self)@.state.paths.len()),
        ensures
            final(self).wf(),
            final(self)@.state == old(self)@.state,
            final(self)@.image_size == old(self)@.image_size,
            final(self)@.cache == old(self)@.cache,
            final(self)@.in_flight == old(self)@.in_flight,
            final(self)@.pending == old(self)@.pending.push(step),
    {
        let ghost before = self@;
        self.pending.push(step);
        proof {
            assert(self@.cache == before.cache);
            assert forall|i: int| 0 <= i < self@.pending.len() implies step_in_range(
                #[trigger] self@.pending[i],
                self@.state.paths.len(),
            ) by {
                if i < before.pending.len() {
                    assert(self@.pending[i] == before.pending[i]);
                }
            }
        }
    }

    /// Queues the preloading of the current, previous and next images.
    fn plan_preload(&mut self)
        requires
            old(self).wf(),
        ensures
            final(self).wf(),
            final(self)@.state == old(self)@.state,
            final(self)@.image_size == old(self)@.image_size,
            final(self)@.cache == old(self)@.cache,
            final(self)@.in_flight == old(self)@.in_flight,
            final(self)@.pending == old(self)@.pending + preload_steps(old(self)@.state),
    {
        let ghost s = self@.state;
        let ghost p0 = self@.pending;
        let n: usize = self.paths.len();
        if self.current < n {
            let k = self.key_for(self.current);
            self.push_step(LoadStep::Preload(k));
        }
        assert(self@.pending =~= p0 + preload_one(s, 0));
        if self.current > 0 && self.current - 1 < n {
            let k = self.key_for(self.current - 1);
            self.push_step(LoadStep::Preload(k));
        }
        assert(self@.pending =~= p0 + preload_one(s, 0) + preload_one(s, -1));
        if self.current < n && self.current + 1 < n {
            let k = self.key_for(self.current + 1);
            self.push_step(LoadStep::Preload(k));
        }
        assert(self@.pending =~= p0 + preload_one(s, 0) + preload_one(s, -1) + preload_one(s, 1));
        assert(self@.pending =~= p0 + preload_steps(s));
    }

    /// Queues dropping the current, previous and next images under the
    /// current rotation and flips, and their preloading again.
    fn plan_invalidate(&mut self)
        requires
            old(self).wf(),
        ensures
            final(self).wf(),
            final(self)@.state == old(self)@.state,
            final(self)@.image_size == old(self)@.image_size,
            final(self)@.cache == old(self)@.cache,
            final(self)@.in_flight == old(self)@.in_flight,
            final(self)@.pending == old(self)@.pending + invalidate_steps(old(self)@.state),
    {
        let ghost s = self@.state;
        let ghost p0 = self@.pending;
        let k = self.key_for(self.current);
        self.push_step(LoadStep::Evict(k));
        assert(self@.pending =~= p0 + evict_one(s, 0));
        if self.current > 0 {
            let k = self.key_for(self.current - 1);
            self.push_step(LoadStep::Evict(k));
        }
        assert(self@.pending =~= p0 + evict_one(s, 0) + evict_one(s, -1));
        if self.current < usize::MAX {
            let k = self.key_for(self.current + 1);
            self.push_step(LoadStep::Evict(k));
        }
        assert(self@.pending =~= p0 + evict_one(s, 0) + evict_one(s, -1) + evict_one(s, 1));
        self.plan_preload();
        assert(self@.pending =~= p0 + invalidate_steps(s));
    }

    /// Fit unless the view is fixed.
    fn fit_unless_locked(&self) -> (v: ViewChange)
        ensures
            v == fit_unless_locked(self@.state),
    {
        if self.view_locked {
            ViewChange::Keep
        } else {
            ViewChange::Fit
        }
    }

    /// Fit unless the view is fixed, else clamp.
    fn fit_or_clamp(&self) -> (v: ViewChange)
        ensures
            v == fit_or_clamp(self@.state),
    {
        if self.view_locked {
            ViewChange::Clamp
        } else {
            ViewChange::Fit
        }
    }

    /// Moves through the list: next, previous, first, last, or the slideshow's step.
    fn step_position(&mut self, message: Message) -> (view: ViewChange)
        requires
            old(self).wf(),
            old(self)@.state.paths.len() > 0,
            message is Next || message is Prev || message is GoToFirst || message is GoToLast
                || message is SlideshowTick,
        ensures
            final(self).wf(),
            stepped(old(self)@, final(self)@, message, view),
    {
        let ghost before = self@;
        let n: usize = self.paths.len();
        let moved = match message {
            Message::Next => {
                if self.current < n - 1 {
                    self.current = self.current + 1;
                    true
                } else {
                    false
                }
            },
            Message::Prev => {
                if self.current > 0 {
                    self.current = self.current - 1;
                    true
                } else {
                    false
                }
            },
            Message::GoToFirst => {
                self.current = 0;
                true
            },
            Message::GoToLast => {
                self.current = n - 1;
                true
            },
            _ => {
                if self.slideshow_active {
                    self.current = (self.current + 1) % n;
                    true
                } else {
                    false
                }
            },
        };
        assert(self@.state == next_state(before.state, message));
        if moved {
            proof {
                self.lemma_frame(before);
            }
            self.plan_preload();
            let v = self.fit_unless_locked();
            assert(self@.pending =~= before.pending + body_plan(before.state, message));
            v
        } else {
            proof {
                self.lemma_frame(before);
            }
            assert(self@.pending =~= before.pending + body_plan(before.state, message));
            ViewChange::Keep
        }
    }

    /// Changes of the on-screen view, and of the window's size.
    fn step_view(&mut self, message: Message) -> (view: ViewChange)
        requires
            old(self).wf(),
            old(self)@.state.paths.len() > 0,
            message is ZoomIn || message is ZoomOut || message is ActualSize || message is FitWindow
                || message is ResetView || message is WindowResized || message is Pan
                || message is CanvasPan || message is CanvasZoom,
        ensures
            final(self).wf(),
            stepped(old(self)@, final(self)@, message, view),
    {
        let ghost before = self@;
        let view = match message {
            Message::ZoomIn => {
                self.view_locked = true;
                ViewChange::ZoomIn
            },
            Message::ZoomOut => {
                self.view_locked = true;
                ViewChange::ZoomOut
            },
            Message::ActualSize => {
                self.view_locked = true;
                ViewChange::ActualSize
            },
            Message::WindowResized(width, height) => {
                self.window_size = (width, height);
                self.fit_or_clamp()
            },
            Message::Pan(dx, dy) => {
                self.view_locked = true;
                ViewChange::Pan(dx, dy)
            },
            Message::CanvasPan => {
                self.view_locked = true;
                ViewChange::CanvasPan
            },
            Message::CanvasZoom => {
                self.view_locked = true;
                ViewChange::CanvasZoom
            },
            _ => {
                self.view_locked = false;
                ViewChange::Fit
            },
        };
        proof {
            self.lemma_frame(before);
        }
        assert(self@.pending =~= before.pending + body_plan(before.state, message));
        view
    }

    /// Turning and flipping the image; the cached images are decoded anew.
    fn step_transform(&mut self, message: Message) -> (view: ViewChange)
        requires
            old(self).wf(),
            old(self)@.state.paths.len() > 0,
            message is RotateCW || message is RotateCCW || message is FlipHorizontal
                || message is FlipVertical || message is ResetTransform,
        ensures
            final(self).wf(),
            stepped(old(self)@, final(self)@, message, view),
    {
        let ghost before = self@;
        let view = match message {
            Message::RotateCW => {
                self.rotation = (self.rotation + 90) % 360;
                self.fit_or_clamp()
            },
            Message::RotateCCW => {
                self.rotation = (self.rotation + 270) % 360;
                self.fit_or_clamp()
            },
            Message::FlipHorizontal => {
                self.flip_h = !self.flip_h;
                ViewChange::Clamp
            },
            Message::FlipVertical => {
                self.flip_v = !self.flip_v;
                ViewChange::Clamp
            },
            _ => {
                self.rotation = 0;
                self.flip_h = false;
                self.flip_v = false;
                ViewChange::ActualSize
            },
        };
        assert(self@.state == next_state(before.state, message));
        proof {
            self.lemma_frame(before);
        }
        self.plan_invalidate();
        assert(self@.pending =~= before.pending + body_plan(before.state, message));
        view
    }

    /// The fullscreen, slideshow and quit commands.
    fn step_settings(&mut self, message: Message) -> (view: ViewChange)
        requires
            old(self).wf(),
            old(self)@.state.paths.len() > 0,
            message is ToggleFullscreen || message is ToggleSlideshow || message is Close
                || message is AdjustSlideshowDelay,
            message matches Message::AdjustSlideshowDelay(delta) ==> i64::MIN <= (old(
                self,
            )@.state.slideshow_interval as i64) + delta <= i64::MAX,
        ensures
            final(self).wf(),
            stepped(old(self)@, final(self)@, message, view),
    {
        let ghost before = self@;
        match message {
            Message::ToggleFullscreen => {
                self.fullscreen = !self.fullscreen;
            },
            Message::ToggleSlideshow => {
                self.slideshow_active = !self.slideshow_active;
            },
            Message::AdjustSlideshowDelay(delta) => {
                let interval: i64 = self.slideshow_interval as i64;
                if interval + delta >= 1 {
                    self.slideshow_interval = (interval + delta) as u64;
                }
            },
            _ => {},
        }
        proof {
            self.lemma_frame(before);
        }
        assert(self@.pending =~= before.pending + body_plan(before.state, message));
        ViewChange::Keep
    }

    /// Applies a command. With no images only `Close` does anything. The
    /// command's cache work is queued behind what was already queued.
    pub fn update(&mut self, message: Message) -> (r: Update)
        requires
            old(self).wf(),
            old(self)@.state.paths.len() > 0 ==> (message matches Message::AdjustSlideshowDelay(
                delta,
            ) ==> i64::MIN <= (old(self)@.state.slideshow_interval as i64) + delta <= i64::MAX),
        ensures
            final(self).wf(),
            valid(final(self)@),
            final(self)@.state == next_state(old(self)@.state, message),
            final(self)@.pending == old(self)@.pending + plan(old(self)@.state, message),
            final(self)@.image_size == old(self)@.image_size,
            final(self)@.cache == old(self)@.cache,
            final(self)@.in_flight == old(self)@.in_flight,
            r == (Update {
                view: view_change(old(self)@.state, message),
                task: task_for(old(self)@.state, message),
            }),
    {
        let ghost s = self@.state;
        let ghost p0 = self@.pending;
        if self.paths.len() == 0 {
            let task = match message {
                Message::Close => Task::Exit,
                _ => Task::Nothing,
            };
            assert(self@.pending =~= p0 + plan(s, message));
            return Update { view: ViewChange::Keep, task };
        }
        let key = self.key_for(self.current);
        self.push_step(LoadStep::Ensure(key));
        let view = match message {
            Message::Next | Message::Prev | Message::GoToFirst | Message::GoToLast
            | Message::SlideshowTick => self.step_position(message),
            Message::RotateCW | Message::RotateCCW | Message::FlipHorizontal
            | Message::FlipVertical | Message::ResetTransform => self.step_transform(message),
            Message::ToggleFullscreen | Message::ToggleSlideshow | Message::Close
            | Message::AdjustSlideshowDelay(_) => self.step_settings(message),
            _ => self.step_view(message),
        };
        let task = match message {
            Message::Close => Task::Exit,
            Message::ToggleFullscreen => Task::Maximize(self.fullscreen),
            _ => Task::Nothing,
        };
        assert(self@.pending =~= p0 + plan(s, message));
        Update { view, task }
    }
}

impl<H> App<H> {
    /// Where the key's entry is in the cache, if it is there.
    fn find(&self, key: &CacheKey) -> (r: Option<usize>)
        requires
            self.wf(),
        ensures
            match r {
                Some(i) => i < self.image_cache@.len() && self.image_cache@[i as int].0 == *key,
                None => !self@.cache.contains_key(*key),
            },
    {
        let mut i: usize = 0;
        while i < self.image_cache.len()
            invariant
                i <= self.image_cache@.len(),
                forall|j: int| 0 <= j < i ==> self.image_cache@[j].0 != *key,
            decreases self.image_cache@.len() - i,
        {
            if self.image_cache[i].0 == *key {
                return Some(i);
            }
            i = i + 1;
        }
        None
    }

    /// Does the next piece of planned cache work, as `advanced` says.
    pub fn advance(&mut self) -> (r: Progress)
        requires
            old(self).wf(),
        ensures
            final(self).wf(),
            valid(final(self)@),
            advanced(old(self)@, final(self)@, r),
    {
        let ghost before = self@;
        self.in_flight = None;
        if self.pending.len() == 0 {
            proof {
                assert(self@.cache == before.cache);
            }
            return Progress::Idle;
        }
        let step = self.pending.remove(0);
        assert(self.pending@ == before.pending.drop_first());
        proof {
            assert forall|i: int| 0 <= i < self@.pending.len() implies step_in_range(
                #[trigger] self@.pending[i],
                self@.state.paths.len(),
            ) by {
                assert(self@.pending[i] == before.pending[i + 1]);
            }
            assert(self@.cache == before.cache);
        }
        match step {
            LoadStep::Evict(k) => {
                match self.find(&k) {
                    Some(i) => {
                        proof {
                            lemma_cache_remove(self.image_cache@, i as int);
                        }
                        let _ = self.image_cache.remove(i);
                        proof {
                            assert forall|key: CacheKey| #[trigger] self@.cache.contains_key(key) implies key.index
                                < self@.state.paths.len() by {
                                assert(before.cache.contains_key(key));
                            }
                        }
                    },
                    None => {
                        proof {
                            assert(before.cache.remove(k) =~= before.cache);
                        }
                    },
                }
                Progress::Done
            },
            LoadStep::Ensure(k) => {
                match self.find(&k) {
                    Some(i) => {
                        proof {
                            lemma_cache_lookup(self.image_cache@, i as int);
                        }
                        Progress::Done
                    },
                    None => {
                        assert(k.index < self.paths@.len());
                        self.in_flight = Some(step);
                        Progress::Load(k, self.paths[k.index].clone())
                    },
                }
            },
            LoadStep::Preload(k) => {
                match self.find(&k) {
                    Some(i) => {
                        proof {
                            lemma_cache_lookup(self.image_cache@, i as int);
                        }
                        if k.index == self.current {
                            self.current_image_size = (
                                self.image_cache[i].1.width,
                                self.image_cache[i].1.height,
                            );
                        }
                        Progress::Done
                    },
                    None => {
                        assert(k.index < self.paths@.len());
                        self.in_flight = Some(step);
                        Progress::Load(k, self.paths[k.index].clone())
                    },
                }
            },
        }
    }

    /// Hands back the result of the load that `advance` asked for, as
    /// `finished` says; with no load asked for it changes nothing.
    pub fn finish_load(&mut self, result: Option<CachedImage<H>>)
        requires
            old(self).wf(),
        ensures
            final(self).wf(),
            valid(final(self)@),
            finished(old(self)@, final(self)@, result),
    {
        let ghost before = self@;
        let flight = self.in_flight;
        self.in_flight = None;
        assert(self@.pending == before.pending);
        assert(self@.cache == before.cache);
        match (flight, result) {
            (Some(step), Some(image)) => {
                let k = match step {
                    LoadStep::Ensure(k) => k,
                    LoadStep::Preload(k) => k,
                    LoadStep::Evict(k) => k,
                };
                let size_given = match step {
                    LoadStep::Ensure(_) => true,
                    _ => k.index == self.current,
                };
                if size_given {
                    self.current_image_size = (image.width, image.height);
                }
                proof {
                    lemma_cache_push(self.image_cache@, k, image);
                }
                self.image_cache.push((k, image));
                proof {
                    assert forall|key: CacheKey| #[trigger] self@.cache.contains_key(key) implies key.index
                        < self@.state.paths.len() by {
                        if key != k {
                            assert(before.cache.contains_key(key));
                        }
                    }
                }
            },
            _ => {
                proof {
                    assert(self@.cache == before.cache);
                }
            },
        }
    }

    /// How many images there are.
    pub fn image_count(&self) -> (n: usize)
        ensures
            n == self@.state.paths.len(),
    {
        self.paths.len()
    }

    /// The position of the shown image in the list.
    pub fn current(&self) -> (i: usize)
        ensures
            i == self@.state.current,
    {
        self.current
    }

    /// The path of the image at `index`.
    pub fn path(&self, index: usize) -> (p: &String)
        requires
            index < self@.state.paths.len(),
        ensures
            *p == self@.state.paths[index as int],
    {
        &self.paths[index]
    }

    /// The cache key of the shown image as it is now turned and flipped.
    pub fn current_key(&self) -> (k: CacheKey)
        ensures
            k == key_at(self@.state, self@.state.current as int),
    {
        self.key_for(self.current)
    }

    /// The decoded image held under `key`, if any.
    pub fn cached(&self, key: &CacheKey) -> (r: Option<&CachedImage<H>>)
        requires
            self.wf(),
        ensures
            match r {
                Some(image) => self@.cache.contains_key(*key) && *image == self@.cache[*key],
                None => !self@.cache.contains_key(*key),
            },
    {
        match self.find(key) {
            Some(i) => {
                proof {
                    lemma_cache_lookup(self.image_cache@, i as int);
                }
                Some(&self.image_cache[i].1)
            },
            None => None,
        }
    }

    /// The size of the shown image, as far as it is known.
    pub fn image_size(&self) -> (r: (u32, u32))
        ensures
            r == self@.image_size,
    {
        self.current_image_size
    }

    /// The window's size.
    pub fn window_size(&self) -> (r: (u32, u32))
        ensures
            r == self@.state.window_size,
    {
        self.window_size
    }

    /// The slideshow's interval in seconds.
    pub fn slideshow_interval(&self) -> (r: u64)
        ensures
            r == self@.state.slideshow_interval,
    {
        self.slideshow_interval
    }

    /// Whether the slideshow runs.
    pub fn slideshow_active(&self) -> (r: bool)
        ensures
            r == self@.state.slideshow_active,
    {
        self.slideshow_active
    }

    /// Whether the window is maximized.
    pub fn fullscreen(&self) -> (r: bool)
        ensures
            r == self@.state.fullscreen,
    {
        self.fullscreen
    }

    /// Whether the user has fixed the view by zooming or panning.
    pub fn view_locked(&self) -> (r: bool)
        ensures
            r == self@.state.view_locked,
    {
        self.view_locked
    }

    /// The rotation in degrees, clockwise.
    pub fn rotation(&self) -> (r: u16)
        ensures
            r == self@.state.rotation,
    {
        self.rotation
    }

    /// Whether the image is mirrored left to right, and top to bottom.
    pub fn flips(&self) -> (r: (bool, bool))
        ensures
            r == (self@.state.flip_h, self@.state.flip_v),
    {
        (self.flip_h, self.flip_v)
    }
}

} // verus!
