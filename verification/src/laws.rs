//! Properties of the viewer that span several commands or calls.
use vstd::prelude::*;

use crate::app::{
    advanced, body_plan, finished, key_at, next_state, plan, state_valid, step_key, task_for,
    view_change, AppView, CacheKey, CachedImage, LoadStep, Message, Progress, Task, ViewChange,
    ViewerState,
};
use crate::cli::{parse_args, scan, Rejection, Scan};
use crate::img::{
    collected_paths, image_entries, is_hidden_path, is_image_extension, is_image_path, lowercase,
    path_extension, sorted,
};
use crate::keybindings::{key_binding, shifted_binding, Key};
use crate::orient::{oriented, sample};

verus! {

/// Turning clockwise and then counter-clockwise, or the other way round,
/// leaves the viewer as it was; so do four clockwise turns.
pub proof fn lemma_rotation_round_trip(s: ViewerState)
    requires
        state_valid(s),
    ensures
        next_state(next_state(s, Message::RotateCW), Message::RotateCCW) == s,
        next_state(next_state(s, Message::RotateCCW), Message::RotateCW) == s,
        next_state(
            next_state(
                next_state(next_state(s, Message::RotateCW), Message::RotateCW),
                Message::RotateCW,
            ),
            Message::RotateCW,
        ) == s,
{
}

/// Flipping twice the same way leaves the viewer as it was.
pub proof fn lemma_flip_twice(s: ViewerState)
    ensures
        next_state(next_state(s, Message::FlipHorizontal), Message::FlipHorizontal) == s,
        next_state(next_state(s, Message::FlipVertical), Message::FlipVertical) == s,
{
}

/// Toggling fullscreen or the slideshow twice leaves the viewer as it was.
pub proof fn lemma_toggle_twice(s: ViewerState)
    ensures
        next_state(next_state(s, Message::ToggleFullscreen), Message::ToggleFullscreen) == s,
        next_state(next_state(s, Message::ToggleSlideshow), Message::ToggleSlideshow) == s,
{
}

/// Going to the next image and back returns to the same image, and so does
/// going back and then forward, wherever there is a next or previous image.
pub proof fn lemma_next_prev(s: ViewerState)
    requires
        state_valid(s),
    ensures
        s.current + 1 < s.paths.len() ==> next_state(next_state(s, Message::Next), Message::Prev)
            == s,
        s.current > 0 ==> next_state(next_state(s, Message::Prev), Message::Next) == s,
{
}

/// Navigation stops at the ends of the list, the first and last commands
/// reach them, and the slideshow wraps from the last image to the first.
pub proof fn lemma_navigation_bounds(s: ViewerState)
    requires
        state_valid(s),
        s.paths.len() > 0,
    ensures
        s.current + 1 == s.paths.len() ==> next_state(s, Message::Next) == s,
        s.current == 0 ==> next_state(s, Message::Prev) == s,
        next_state(s, Message::GoToFirst).current == 0,
        next_state(s, Message::GoToLast).current == s.paths.len() - 1,
        s.slideshow_active && s.current + 1 == s.paths.len() ==> next_state(
            s,
            Message::SlideshowTick,
        ).current == 0,
        !s.slideshow_active ==> next_state(s, Message::SlideshowTick) == s,
{
}

/// A change of the slideshow delay never leaves it under one second, and
/// lengthening then shortening it by the same amount restores it.
pub proof fn lemma_slideshow_delay(s: ViewerState, delta: i64)
    requires
        s.paths.len() > 0,
        1 <= s.slideshow_interval <= i64::MAX,
        1 <= s.slideshow_interval + delta <= i64::MAX,
        delta > i64::MIN,
    ensures
        next_state(s, Message::AdjustSlideshowDelay(delta)).slideshow_interval != s.slideshow_interval
            ==> next_state(s, Message::AdjustSlideshowDelay(delta)).slideshow_interval >= 1,
        next_state(
            next_state(s, Message::AdjustSlideshowDelay(delta)),
            Message::AdjustSlideshowDelay((-delta) as i64),
        ) == s,
{
    let t = next_state(s, Message::AdjustSlideshowDelay(delta));
    assert((s.slideshow_interval as i64) == s.slideshow_interval);
    assert(t.slideshow_interval == s.slideshow_interval + delta);
    assert((t.slideshow_interval as i64) == t.slideshow_interval);
}

/// Every command keeps the same images, the position inside the list and
/// a quarter-turn rotation.
pub proof fn lemma_state_stays_valid(s: ViewerState, m: Message)
    requires
        state_valid(s),
    ensures
        state_valid(next_state(s, m)),
        next_state(s, m).paths == s.paths,
{
}

/// With no images, every command leaves the viewer as it is and asks for
/// nothing, and the viewer stays open unless told to close.
pub proof fn lemma_no_images(s: ViewerState, m: Message)
    requires
        s.paths.len() == 0,
    ensures
        next_state(s, m) == s,
        view_change(s, m) == ViewChange::Keep,
        plan(s, m).len() == 0,
        task_for(s, m) == (if m is Close {
            Task::Exit
        } else {
            Task::Nothing
        }),
{
}

/// Zooming or panning fixes the view, and fitting the window frees it; a
/// fixed view is not refitted when the image or the window changes.
pub proof fn lemma_view_lock(s: ViewerState, m: Message)
    requires
        s.paths.len() > 0,
    ensures
        (m is ZoomIn || m is ZoomOut || m is ActualSize || m is Pan || m is CanvasPan
            || m is CanvasZoom) ==> next_state(s, m).view_locked,
        (m is FitWindow || m is ResetView) ==> !next_state(s, m).view_locked,
        s.view_locked && !(m is FitWindow || m is ResetView) ==> view_change(s, m) != ViewChange::Fit,
{
}

/// While a modifier other than shift is held, no key does anything.
pub proof fn lemma_modifiers_silence_keys(key: Key, shift: bool)
    ensures
        key_binding(key, shift, false) is None,
{
}

/// When the only path is a directory, every path collected from it names
/// an image that is not hidden, and they come in ascending order.
pub proof fn lemma_collected_images(paths: Seq<String>, entries: Seq<String>, out: Seq<String>)
    requires
        paths.len() == 1,
        collected_paths(paths, Some(entries), out),
    ensures
        sorted(out),
        forall|i: int| 0 <= i < out.len() ==> is_image_path(#[trigger] out[i]@) && !is_hidden_path(out[i]@),
{
    broadcast use vstd::seq_lib::group_to_multiset_ensures;
    broadcast use vstd::seq_lib::group_filter_ensures;

    assert forall|i: int| 0 <= i < out.len() implies is_image_path(#[trigger] out[i]@) && !is_hidden_path(out[i]@) by {
        let x = out[i];
        out.to_multiset_ensures();
        image_entries(entries).to_multiset_ensures();
        assert(out.contains(x));
        assert(out.to_multiset().count(x) > 0);
        assert(image_entries(entries).to_multiset().count(x) > 0);
        assert(image_entries(entries).contains(x));
        let j = choose|j: int| 0 <= j < image_entries(entries).len() && image_entries(entries)[j] == x;
        assert(is_image_path(image_entries(entries)[j]@) && !is_hidden_path(image_entries(entries)[j]@));
    }
}


/// Every command on a list of images first makes sure that the image shown
/// when it came is loaded.
pub proof fn lemma_plan_starts_with_current(s: ViewerState, m: Message)
    requires
        s.paths.len() > 0,
    ensures
        plan(s, m).len() > 0,
        plan(s, m)[0] == LoadStep::Ensure(key_at(s, s.current as int)),
{
}

/// Zooming, panning, fitting and resizing are visual only: they plan no
/// cache work beyond that first step.
pub proof fn lemma_view_commands_keep_cache(s: ViewerState, m: Message)
    requires
        m is ZoomIn || m is ZoomOut || m is ActualSize || m is FitWindow || m is ResetView
            || m is WindowResized || m is Pan || m is CanvasPan || m is CanvasZoom,
    ensures
        body_plan(s, m).len() == 0,
{
}

/// A step concerns an image next to the current one of `t`, under its
/// rotation and flips.
pub open spec fn near(t: ViewerState, step: LoadStep) -> bool {
    let k = step_key(step);
    &&& t.current - 1 <= k.index <= t.current + 1
    &&& k.rotation == t.rotation
    &&& k.flip_h == t.flip_h
    &&& k.flip_v == t.flip_v
}

proof fn lemma_invalidate_near(t: ViewerState)
    requires
        t.paths.len() <= usize::MAX,
    ensures
        forall|i: int|
            0 <= i < crate::app::invalidate_steps(t).len() ==> near(
                t,
                #[trigger] crate::app::invalidate_steps(t)[i],
            ),
        forall|i: int|
            0 <= i < crate::app::preload_steps(t).len() ==> near(
                t,
                #[trigger] crate::app::preload_steps(t)[i],
            ),
{
}

/// The cache work of a command concerns only the new current image and its
/// two neighbours, under the new rotation and flips.
pub proof fn lemma_plan_is_local(s: ViewerState, m: Message, i: int)
    requires
        state_valid(s),
        s.paths.len() > 0,
        0 <= i < body_plan(s, m).len(),
    ensures
        near(next_state(s, m), body_plan(s, m)[i]),
{
    let t = next_state(s, m);
    lemma_state_stays_valid(s, m);
    lemma_invalidate_near(t);
}

/// Each call of `advance` takes exactly one planned step, and reports
/// `Idle` exactly when none is left; so the host's loop ends.
pub proof fn lemma_advance_progress<H>(a: AppView<H>, b: AppView<H>, r: Progress)
    requires
        advanced(a, b, r),
    ensures
        r is Idle <==> a.pending.len() == 0,
        a.pending.len() > 0 ==> b.pending.len() == a.pending.len() - 1,
{
}

/// An image that `advance` asks for and that is handed back is then in the
/// cache under the key asked for; a load is never asked for an image
/// already cached.
pub proof fn lemma_load_round_trip<H>(
    a: AppView<H>,
    b: AppView<H>,
    c: AppView<H>,
    key: CacheKey,
    path: String,
    image: CachedImage<H>,
)
    requires
        advanced(a, b, Progress::Load(key, path)),
        finished(b, c, Some(image)),
    ensures
        !a.cache.contains_key(key),
        c.cache.contains_key(key),
        c.cache[key] == image,
        c.cache.remove(key) == a.cache,
        a.pending[0] is Ensure || key.index == a.state.current ==> c.image_size == (
            image.width,
            image.height,
        ),
{
    assert(c.cache.remove(key) =~= a.cache);
}

/// Reading `--` makes every later word a path.
pub proof fn lemma_words_after_separator(words: Seq<Seq<char>>, st: Scan)
    requires
        st.only_paths,
    ensures
        scan(words, st) == Ok::<Scan, Rejection>(Scan { paths: st.paths + words, ..st }),
    decreases words.len(),
{
    if words.len() > 0 {
        let next = Scan { paths: st.paths.push(words[0]), ..st };
        lemma_words_after_separator(words.drop_first(), next);
        assert(next.paths + words.drop_first() =~= st.paths + words);
    } else {
        assert(st.paths + words =~= st.paths);
    }
}

/// A command line that is read as a request to view images names at least
/// one path.
pub proof fn lemma_a_path_is_required(words: Seq<Seq<char>>)
    ensures
        parse_args(words) matches Ok((paths, _, _)) ==> paths.len() > 0,
{
}


/// The keys cached after the step `step`, when every load succeeds.
pub open spec fn run_step(keys: Set<CacheKey>, step: LoadStep) -> Set<CacheKey> {
    match step {
        LoadStep::Evict(k) => keys.remove(k),
        LoadStep::Ensure(k) => keys.insert(k),
        LoadStep::Preload(k) => keys.insert(k),
    }
}

/// The keys cached after the steps `steps`, in order, when every load succeeds.
pub open spec fn run_steps(keys: Set<CacheKey>, steps: Seq<LoadStep>) -> Set<CacheKey>
    decreases steps.len(),
{
    if steps.len() == 0 {
        keys
    } else {
        run_steps(run_step(keys, steps[0]), steps.drop_first())
    }
}

proof fn lemma_run_steps_concat(keys: Set<CacheKey>, p: Seq<LoadStep>, q: Seq<LoadStep>)
    ensures
        run_steps(keys, p + q) == run_steps(run_steps(keys, p), q),
    decreases p.len(),
{
    if p.len() > 0 {
        assert((p + q).drop_first() =~= p.drop_first() + q);
        lemma_run_steps_concat(run_step(keys, p[0]), p.drop_first(), q);
    } else {
        assert(p + q =~= q);
    }
}

/// Steps that drop nothing keep every cached key.
proof fn lemma_loads_keep(keys: Set<CacheKey>, steps: Seq<LoadStep>, k: CacheKey)
    requires
        forall|i: int| 0 <= i < steps.len() ==> !(#[trigger] steps[i] is Evict),
        keys.contains(k),
    ensures
        run_steps(keys, steps).contains(k),
    decreases steps.len(),
{
    if steps.len() > 0 {
        assert(!(steps[0] is Evict));
        assert forall|i: int| 0 <= i < steps.drop_first().len() implies !(
        #[trigger] steps.drop_first()[i] is Evict) by {
            assert(steps.drop_first()[i] == steps[i + 1]);
        }
        lemma_loads_keep(run_step(keys, steps[0]), steps.drop_first(), k);
    }
}

/// After preloading, the current image is cached when its load succeeded.
proof fn lemma_preload_caches_current(keys: Set<CacheKey>, t: ViewerState)
    requires
        state_valid(t),
        t.paths.len() > 0,
    ensures
        run_steps(keys, crate::app::preload_steps(t)).contains(key_at(t, t.current as int)),
{
    let steps = crate::app::preload_steps(t);
    let first = crate::app::preload_one(t, 0);
    let rest = crate::app::preload_one(t, -1) + crate::app::preload_one(t, 1);
    assert(steps =~= first + rest);
    lemma_run_steps_concat(keys, first, rest);
    assert(run_steps(keys, first).contains(key_at(t, t.current as int))) by {
        assert(first == seq![LoadStep::Preload(key_at(t, t.current as int))]);
        assert(first.drop_first().len() == 0);
        let one = run_step(keys, first[0]);
        assert(run_steps(one, first.drop_first()) == one);
    }
    assert forall|i: int| 0 <= i < rest.len() implies !(#[trigger] rest[i] is Evict) by {}
    lemma_loads_keep(run_steps(keys, first), rest, key_at(t, t.current as int));
}

/// Whatever is cached before, once the cache work of a command is done
/// and every load has succeeded, the image then shown is in the cache.
pub proof fn lemma_command_caches_current(keys: Set<CacheKey>, s: ViewerState, m: Message)
    requires
        state_valid(s),
        s.paths.len() > 0,
    ensures
        ({
            let t = next_state(s, m);
            run_steps(keys, plan(s, m)).contains(key_at(t, t.current as int))
        }),
{
    let t = next_state(s, m);
    lemma_state_stays_valid(s, m);
    let first = seq![LoadStep::Ensure(key_at(s, s.current as int))];
    let body = body_plan(s, m);
    assert(plan(s, m) == first + body);
    lemma_run_steps_concat(keys, first, body);
    let after = run_steps(keys, first);
    assert(first.drop_first().len() == 0);
    let one = run_step(keys, first[0]);
    assert(run_steps(one, first.drop_first()) == one);
    assert(after == keys.insert(key_at(s, s.current as int)));
    if m is RotateCW || m is RotateCCW || m is FlipHorizontal || m is FlipVertical
        || m is ResetTransform {
        let ev = crate::app::evict_one(t, 0) + crate::app::evict_one(t, -1) + crate::app::evict_one(
            t,
            1,
        );
        assert(body =~= ev + crate::app::preload_steps(t));
        lemma_run_steps_concat(after, ev, crate::app::preload_steps(t));
        lemma_preload_caches_current(run_steps(after, ev), t);
    } else if body.len() > 0 {
        assert(body == crate::app::preload_steps(t));
        lemma_preload_caches_current(after, t);
    } else {
        assert(key_at(t, t.current as int) == key_at(s, s.current as int));
        assert(run_steps(after, body) == after);
    }
}

/// One call of `advance`, followed by handing back a successful load when
/// it asked for one, does to the set of cached keys what `run_step` says
/// for the first planned step.
pub proof fn lemma_advance_runs_one_step<H>(
    a: AppView<H>,
    b: AppView<H>,
    c: AppView<H>,
    r: Progress,
    image: CachedImage<H>,
)
    requires
        a.pending.len() > 0,
        advanced(a, b, r),
        r is Load ==> finished(b, c, Some(image)),
        !(r is Load) ==> c == b,
    ensures
        c.cache.dom() == run_step(a.cache.dom(), a.pending[0]),
        c.pending == a.pending.drop_first(),
        c.state == a.state,
{
    assert(c.cache.dom() =~= run_step(a.cache.dom(), a.pending[0]));
}

/// Shift changes only the keys that have a shift binding: any other key,
/// a capital typed with shift among them, does what its text or name says.
pub proof fn lemma_shift_keeps_plain_bindings(key: Key)
    requires
        shifted_binding(key) is None,
    ensures
        key_binding(key, true, true) == key_binding(key, false, true),
{
}

/// Every command keeps the viewer sound: the same images, the position
/// inside the list, a quarter-turn rotation, and a slideshow delay of at
/// least one second, provided a change of the delay stays within the range
/// of `i64`.
pub proof fn lemma_state_stays_sound(s: ViewerState, m: Message)
    requires
        state_valid(s),
        s.slideshow_interval >= 1,
        m matches Message::AdjustSlideshowDelay(delta) ==> i64::MIN <= (s.slideshow_interval as i64)
            + delta <= i64::MAX,
    ensures
        state_valid(next_state(s, m)),
        next_state(s, m).paths == s.paths,
        next_state(s, m).slideshow_interval >= 1,
{
}

/// Whether a path names an image depends only on its extension, lower-cased.
pub proof fn lemma_image_by_extension(p: Seq<char>, q: Seq<char>)
    requires
        path_extension(p) is Some,
        path_extension(q) is Some,
        lowercase(path_extension(p)->0) == lowercase(path_extension(q)->0),
    ensures
        is_image_path(p) == is_image_path(q),
{
}

/// Moving through the list goes one image at a time: next moves to the
/// following image and previous to the one before, where there is one; a
/// slideshow tick moves to the following image, from the last back to the
/// first, and agrees with next wherever next moves. Nothing else changes.
pub proof fn lemma_steps_of_one(s: ViewerState)
    requires
        state_valid(s),
        s.paths.len() > 0,
    ensures
        s.current + 1 < s.paths.len() ==> next_state(s, Message::Next) == (ViewerState {
            current: (s.current + 1) as usize,
            ..s
        }),
        s.current > 0 ==> next_state(s, Message::Prev) == (ViewerState {
            current: (s.current - 1) as usize,
            ..s
        }),
        s.slideshow_active && s.current + 1 < s.paths.len() ==> next_state(s, Message::SlideshowTick)
            == (ViewerState { current: (s.current + 1) as usize, ..s }),
        s.slideshow_active && s.current + 1 == s.paths.len() ==> next_state(s, Message::SlideshowTick)
            == (ViewerState { current: 0, ..s }),
        s.slideshow_active ==> next_state(s, Message::SlideshowTick).current == (s.current + 1)
            % (s.paths.len() as int),
        s.slideshow_active && s.current + 1 < s.paths.len() ==> (next_state(
            s,
            Message::SlideshowTick,
        ).current == next_state(s, Message::Next).current),
{
    let n = s.paths.len();
    if s.current + 1 < n {
        vstd::arithmetic::div_mod::lemma_small_mod((s.current + 1) as nat, n);
    } else {
        vstd::arithmetic::div_mod::lemma_mod_self_0(n as int);
    }
}

/// Zooming in and zooming out ask for opposite changes of the view: in
/// asks to enlarge by one step, out to shrink by one step. Actual size,
/// fitting, the reset of the view and panning ask for what they name.
pub proof fn lemma_view_commands_ask_for_their_change(s: ViewerState, dx: i32, dy: i32)
    requires
        s.paths.len() > 0,
    ensures
        view_change(s, Message::ZoomIn) == ViewChange::ZoomIn,
        view_change(s, Message::ZoomOut) == ViewChange::ZoomOut,
        view_change(s, Message::ZoomIn) != view_change(s, Message::ZoomOut),
        view_change(s, Message::ActualSize) == ViewChange::ActualSize,
        view_change(s, Message::FitWindow) == ViewChange::Fit,
        view_change(s, Message::ResetView) == ViewChange::Fit,
        view_change(s, Message::Pan(dx, dy)) == ViewChange::Pan(dx, dy),
{
}

/// Only the shown image gives the known image size. Handing back a loaded
/// image asked for by a preload of another image leaves the size as it
/// was; one asked for by an `Ensure`, or by a preload of the current image,
/// gives its size. A failed load leaves the size as it was.
pub proof fn lemma_only_the_shown_image_gives_the_size<H>(
    a: AppView<H>,
    b: AppView<H>,
    result: Option<CachedImage<H>>,
    k: CacheKey,
)
    requires
        finished(a, b, result),
    ensures
        a.in_flight == Some(LoadStep::Preload(k)) && k.index != a.state.current ==> b.image_size
            == a.image_size,
        result is None ==> b.image_size == a.image_size,
        a.in_flight == Some(LoadStep::Ensure(k)) && result is Some ==> b.image_size == (
            result->0.width,
            result->0.height,
        ),
        a.in_flight == Some(LoadStep::Preload(k)) && k.index == a.state.current && result is Some
            ==> b.image_size == (result->0.width, result->0.height),
{
}

/// The same for an image found in the cache: a preload of another image
/// leaves the known size as it was, a preload of the current image gives
/// the cached image's size.
pub proof fn lemma_cached_preload_gives_size_of_shown_image_only<H>(
    a: AppView<H>,
    b: AppView<H>,
    r: Progress,
    k: CacheKey,
)
    requires
        advanced(a, b, r),
        a.pending.len() > 0,
        a.pending[0] == LoadStep::Preload(k),
        a.cache.contains_key(k),
    ensures
        k.index != a.state.current ==> b.image_size == a.image_size,
        k.index == a.state.current ==> b.image_size == (a.cache[k].width, a.cache[k].height),
{
}

/// The byte of channel `c` of pixel (x, y) in an image `w` by `h` is at
/// index `(y * w + x) * 4 + c`, inside the image, and that index gives the
/// pixel back.
proof fn lemma_pixel_index(w: int, h: int, x: int, y: int, c: int)
    requires
        0 <= x < w,
        0 <= y < h,
        0 <= c < 4,
    ensures
        ((y * w + x) * 4 + c) / 4 == y * w + x,
        ((y * w + x) * 4 + c) % 4 == c,
        (y * w + x) / w == y,
        (y * w + x) % w == x,
        0 <= (y * w + x) * 4 + c < w * h * 4,
{
    vstd::arithmetic::div_mod::lemma_fundamental_div_mod_converse(
        (y * w + x) * 4 + c,
        4,
        y * w + x,
        c,
    );
    vstd::arithmetic::div_mod::lemma_fundamental_div_mod_converse(y * w + x, w, y, x);
    assert(0 <= y * w + x < w * h) by (nonlinear_arith)
        requires
            0 <= x < w,
            0 <= y < h,
    ;
}

/// A half turn moves the pixel at (x, y) to (w - 1 - x, h - 1 - y) and
/// keeps the size.
pub proof fn lemma_half_turn_moves_pixels(w: u32, h: u32, b: Seq<u8>, x: int, y: int, c: int)
    requires
        b.len() == w * h * 4,
        0 <= x < w,
        0 <= y < h,
        0 <= c < 4,
    ensures
        oriented(w, h, b, 180, false, false).0 == w,
        oriented(w, h, b, 180, false, false).1 == h,
        oriented(w, h, b, 180, false, false).2.len() == b.len(),
        sample(oriented(w, h, b, 180, false, false).2, w as int, w - 1 - x, h - 1 - y, c) == sample(
            b,
            w as int,
            x,
            y,
            c,
        ),
{
    lemma_pixel_index(w as int, h as int, w - 1 - x, h - 1 - y, c);
}

/// A quarter turn clockwise gives an image `h` wide and `w` high, and moves
/// the pixel at (x, y) to (h - 1 - y, x).
pub proof fn lemma_quarter_turn_moves_pixels(w: u32, h: u32, b: Seq<u8>, x: int, y: int, c: int)
    requires
        b.len() == w * h * 4,
        0 <= x < w,
        0 <= y < h,
        0 <= c < 4,
    ensures
        oriented(w, h, b, 90, false, false).0 == h,
        oriented(w, h, b, 90, false, false).1 == w,
        oriented(w, h, b, 90, false, false).2.len() == b.len(),
        sample(oriented(w, h, b, 90, false, false).2, h as int, h - 1 - y, x, c) == sample(
            b,
            w as int,
            x,
            y,
            c,
        ),
{
    lemma_pixel_index(h as int, w as int, h - 1 - y, x, c);
    assert(h * w * 4 == w * h * 4) by (nonlinear_arith);
}

/// Three quarter turns clockwise give an image `h` wide and `w` high, and
/// move the pixel at (x, y) to (y, w - 1 - x).
pub proof fn lemma_three_quarter_turn_moves_pixels(
    w: u32,
    h: u32,
    b: Seq<u8>,
    x: int,
    y: int,
    c: int,
)
    requires
        b.len() == w * h * 4,
        0 <= x < w,
        0 <= y < h,
        0 <= c < 4,
    ensures
        oriented(w, h, b, 270, false, false).0 == h,
        oriented(w, h, b, 270, false, false).1 == w,
        oriented(w, h, b, 270, false, false).2.len() == b.len(),
        sample(oriented(w, h, b, 270, false, false).2, h as int, y, w - 1 - x, c) == sample(
            b,
            w as int,
            x,
            y,
            c,
        ),
{
    lemma_pixel_index(h as int, w as int, y, w - 1 - x, c);
    assert(h * w * 4 == w * h * 4) by (nonlinear_arith);
}

/// No turn and no mirroring leaves the image as it is.
pub proof fn lemma_no_turn_keeps_image(w: u32, h: u32, b: Seq<u8>)
    ensures
        oriented(w, h, b, 0, false, false) == (w, h, b),
{
}

/// Mirroring left to right, after whatever turn, moves the pixel at (x, y)
/// of the turned image to (W - 1 - x, y), where W by H is the turned size;
/// mirroring top to bottom then moves it to (x, H - 1 - y).
pub proof fn lemma_mirrors_move_pixels(
    w: u32,
    h: u32,
    b: Seq<u8>,
    rotation: u16,
    flip_h: bool,
    x: int,
    y: int,
    c: int,
)
    requires
        b.len() == w * h * 4,
        0 <= c < 4,
        0 <= x < oriented(w, h, b, rotation, false, false).0,
        0 <= y < oriented(w, h, b, rotation, false, false).1,
    ensures
        ({
            let t = oriented(w, h, b, rotation, false, false);
            let m = oriented(w, h, b, rotation, true, false);
            &&& m.0 == t.0 && m.1 == t.1 && m.2.len() == t.2.len()
            &&& sample(m.2, t.0 as int, t.0 - 1 - x, y, c) == sample(t.2, t.0 as int, x, y, c)
        }),
        ({
            let f = oriented(w, h, b, rotation, flip_h, false);
            let v = oriented(w, h, b, rotation, flip_h, true);
            &&& v.0 == f.0 && v.1 == f.1 && v.2.len() == f.2.len()
            &&& sample(v.2, f.0 as int, x, f.1 - 1 - y, c) == sample(f.2, f.0 as int, x, y, c)
        }),
{
    let t = oriented(w, h, b, rotation, false, false);
    assert(t.2.len() == t.0 * t.1 * 4) by {
        assert(h * w * 4 == w * h * 4) by (nonlinear_arith);
    }
    lemma_pixel_index(t.0 as int, t.1 as int, t.0 - 1 - x, y, c);
    lemma_pixel_index(t.0 as int, t.1 as int, x, t.1 - 1 - y, c);
}

/// The extensions that name images are exactly those of the supported
/// formats: PNG, JPEG, GIF, BMP, TIFF, WebP, ICO, the PNM family, SVG, TGA,
/// AVIF, QOI, HDR, EXR, DDS and Farbfeld. Any other, such as `pdf` or
/// `txt`, names no image.
pub proof fn lemma_image_extensions_are_the_supported_formats(ext: Seq<char>)
    ensures
        is_image_extension(ext) <==> {
            ||| ext =~= seq!['p', 'n', 'g']
            ||| ext =~= seq!['j', 'p', 'g']
            ||| ext =~= seq!['j', 'p', 'e', 'g']
            ||| ext =~= seq!['g', 'i', 'f']
            ||| ext =~= seq!['b', 'm', 'p']
            ||| ext =~= seq!['t', 'i', 'f', 'f']
            ||| ext =~= seq!['t', 'i', 'f']
            ||| ext =~= seq!['w', 'e', 'b', 'p']
            ||| ext =~= seq!['i', 'c', 'o']
            ||| ext =~= seq!['p', 'p', 'm']
            ||| ext =~= seq!['p', 'g', 'm']
            ||| ext =~= seq!['p', 'b', 'm']
            ||| ext =~= seq!['p', 'n', 'm']
            ||| ext =~= seq!['s', 'v', 'g']
            ||| ext =~= seq!['t', 'g', 'a']
            ||| ext =~= seq!['a', 'v', 'i', 'f']
            ||| ext =~= seq!['q', 'o', 'i']
            ||| ext =~= seq!['h', 'd', 'r']
            ||| ext =~= seq!['e', 'x', 'r']
            ||| ext =~= seq!['d', 'd', 's']
            ||| ext =~= seq!['f', 'f']
        },
{
}

/// Turning clockwise adds a quarter turn and turning counter-clockwise
/// takes one away; each mirror command changes its own mirror and nothing
/// else; resetting the transform clears the turn and both mirrors.
pub proof fn lemma_transform_commands(s: ViewerState)
    requires
        state_valid(s),
        s.paths.len() > 0,
    ensures
        next_state(s, Message::RotateCW) == (ViewerState {
            rotation: ((s.rotation + 90) % 360) as u16,
            ..s
        }),
        next_state(s, Message::RotateCCW).rotation == if s.rotation == 0 {
            270
        } else {
            s.rotation - 90
        },
        next_state(s, Message::RotateCCW) == (ViewerState {
            rotation: next_state(s, Message::RotateCCW).rotation,
            ..s
        }),
        next_state(s, Message::FlipHorizontal) == (ViewerState { flip_h: !s.flip_h, ..s }),
        next_state(s, Message::FlipVertical) == (ViewerState { flip_v: !s.flip_v, ..s }),
        next_state(s, Message::ResetTransform) == (ViewerState {
            rotation: 0,
            flip_h: false,
            flip_v: false,
            ..s
        }),
{
}

/// A change of the slideshow delay by `delta` seconds adds `delta` to it
/// when the result is at least one second, and otherwise leaves it as it
/// was; nothing else changes.
pub proof fn lemma_delay_change(s: ViewerState, delta: i64)
    requires
        s.paths.len() > 0,
        s.slideshow_interval <= i64::MAX,
        i64::MIN <= s.slideshow_interval + delta <= i64::MAX,
    ensures
        s.slideshow_interval + delta >= 1 ==> next_state(s, Message::AdjustSlideshowDelay(delta))
            == (ViewerState { slideshow_interval: (s.slideshow_interval + delta) as u64, ..s }),
        s.slideshow_interval + delta < 1 ==> next_state(s, Message::AdjustSlideshowDelay(delta))
            == s,
{
    assert((s.slideshow_interval as i64) == s.slideshow_interval);
}

/// Closing asks the window to exit whatever the state; toggling fullscreen
/// asks the window to be maximized exactly when fullscreen turns on, and to
/// be restored when it turns off.
pub proof fn lemma_window_tasks(s: ViewerState)
    requires
        s.paths.len() > 0,
    ensures
        task_for(s, Message::Close) == Task::Exit,
        task_for(s, Message::ToggleFullscreen) == Task::Maximize(
            next_state(s, Message::ToggleFullscreen).fullscreen,
        ),
        next_state(s, Message::ToggleFullscreen).fullscreen != s.fullscreen,
{
}

} // verus!
