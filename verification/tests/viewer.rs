use lychee::app::{CacheKey, CachedImage, Progress, Task, Update, ViewChange};
use lychee::{App, Args, Message};

fn args(paths: &[&str]) -> Args {
    Args { paths: paths.iter().map(|s| s.to_string()).collect(), fullscreen: false, slideshow: 5 }
}

fn viewer(paths: &[&str]) -> App<u32> {
    let (app, task) = App::<u32>::new(args(paths), None);
    assert_eq!(task, Task::Nothing);
    app
}

fn key(index: usize) -> CacheKey {
    CacheKey { index, rotation: 0, flip_h: false, flip_v: false }
}

/// Runs the planned cache work, decoding every image as `size` wide and
/// high with its index as handle, and returns the paths that were loaded.
fn drain(app: &mut App<u32>, size: (u32, u32)) -> Vec<String> {
    let mut loaded = Vec::new();
    loop {
        match app.advance() {
            Progress::Idle => break,
            Progress::Done => {},
            Progress::Load(k, path) => {
                loaded.push(path);
                app.finish_load(Some(CachedImage {
                    handle: k.index as u32,
                    width: size.0,
                    height: size.1,
                }));
            },
        }
    }
    loaded
}

#[test]
fn empty_image_set_stays_open_without_panicking() {
    let mut app = viewer(&[]);
    assert_eq!(app.image_count(), 0);
    let r = app.update(Message::Next);
    assert_eq!(r, Update { view: ViewChange::Keep, task: Task::Nothing });
    assert_eq!(app.advance(), Progress::Idle);
    assert_eq!(app.current(), 0);
    let r = app.update(Message::Close);
    assert_eq!(r.task, Task::Exit);
}

#[test]
fn starting_preloads_the_first_images() {
    let mut app = viewer(&["a.png", "b.png", "c.png"]);
    assert_eq!(drain(&mut app, (10, 20)), vec!["a.png".to_string(), "b.png".to_string()]);
    assert_eq!(app.image_size(), (10, 20));
    assert!(app.cached(&key(0)).is_some());
    assert!(app.cached(&key(1)).is_some());
    assert!(app.cached(&key(2)).is_none());
    assert_eq!(app.cached(&key(1)).unwrap().handle, 1);
}

#[test]
fn starting_in_fullscreen_maximizes() {
    let mut a = args(&["a.png"]);
    a.fullscreen = true;
    let (app, task) = App::<u32>::new(a, None);
    assert_eq!(task, Task::Maximize(true));
    assert!(app.fullscreen());
    assert_eq!(app.slideshow_interval(), 5);
    assert_eq!(app.window_size(), (800, 600));
}

#[test]
fn navigation_stops_at_the_ends() {
    let mut app = viewer(&["a.png", "b.png", "c.png"]);
    drain(&mut app, (1, 1));
    assert_eq!(app.update(Message::Next).view, ViewChange::Fit);
    assert_eq!(app.current(), 1);
    assert_eq!(drain(&mut app, (1, 1)), vec!["c.png".to_string()]);
    app.update(Message::Next);
    assert_eq!(app.current(), 2);
    assert_eq!(app.update(Message::Next).view, ViewChange::Keep);
    assert_eq!(app.current(), 2);
    app.update(Message::GoToFirst);
    assert_eq!(app.current(), 0);
    assert_eq!(app.update(Message::Prev).view, ViewChange::Keep);
    assert_eq!(app.current(), 0);
    app.update(Message::GoToLast);
    assert_eq!(app.current(), 2);
    app.update(Message::Prev);
    assert_eq!(app.current(), 1);
}

#[test]
fn slideshow_wraps_around() {
    let mut app = viewer(&["a.png", "b.png"]);
    app.update(Message::SlideshowTick);
    assert_eq!(app.current(), 0);
    app.update(Message::ToggleSlideshow);
    assert!(app.slideshow_active());
    app.update(Message::SlideshowTick);
    assert_eq!(app.current(), 1);
    app.update(Message::SlideshowTick);
    assert_eq!(app.current(), 0);
}

#[test]
fn slideshow_delay_stays_at_least_one_second() {
    let mut app = viewer(&["a.png"]);
    app.update(Message::AdjustSlideshowDelay(1));
    assert_eq!(app.slideshow_interval(), 6);
    app.update(Message::AdjustSlideshowDelay(-1));
    assert_eq!(app.slideshow_interval(), 5);
    app.update(Message::AdjustSlideshowDelay(-4));
    assert_eq!(app.slideshow_interval(), 1);
    app.update(Message::AdjustSlideshowDelay(-1));
    assert_eq!(app.slideshow_interval(), 1);
}

#[test]
fn rotation_turns_in_quarters() {
    let mut app = viewer(&["a.png"]);
    assert_eq!(app.update(Message::RotateCW).view, ViewChange::Fit);
    assert_eq!(app.rotation(), 90);
    app.update(Message::RotateCCW);
    assert_eq!(app.rotation(), 0);
    app.update(Message::RotateCCW);
    assert_eq!(app.rotation(), 270);
    app.update(Message::RotateCW);
    app.update(Message::RotateCW);
    app.update(Message::RotateCW);
    app.update(Message::RotateCW);
    assert_eq!(app.rotation(), 270);
    app.update(Message::FlipHorizontal);
    app.update(Message::FlipVertical);
    assert_eq!(app.flips(), (true, true));
    assert_eq!(app.update(Message::ResetTransform).view, ViewChange::ActualSize);
    assert_eq!(app.rotation(), 0);
    assert_eq!(app.flips(), (false, false));
}

#[test]
fn turning_reloads_the_neighbourhood() {
    let mut app = viewer(&["a.png", "b.png"]);
    drain(&mut app, (4, 3));
    app.update(Message::RotateCW);
    assert_eq!(drain(&mut app, (3, 4)), vec!["a.png".to_string(), "b.png".to_string()]);
    assert_eq!(app.image_size(), (3, 4));
    let turned = CacheKey { index: 0, rotation: 90, flip_h: false, flip_v: false };
    assert_eq!(app.current_key(), turned);
    assert!(app.cached(&turned).is_some());
    assert!(app.cached(&key(0)).is_some());
}

#[test]
fn view_lock_follows_zoom_and_fit() {
    let mut app = viewer(&["a.png", "b.png"]);
    assert!(!app.view_locked());
    assert_eq!(app.update(Message::ZoomIn).view, ViewChange::ZoomIn);
    assert!(app.view_locked());
    assert_eq!(app.update(Message::Next).view, ViewChange::Keep);
    assert_eq!(app.update(Message::WindowResized(1024, 768)).view, ViewChange::Clamp);
    assert_eq!(app.window_size(), (1024, 768));
    assert_eq!(app.update(Message::RotateCW).view, ViewChange::Clamp);
    assert_eq!(app.update(Message::FitWindow).view, ViewChange::Fit);
    assert!(!app.view_locked());
    assert_eq!(app.update(Message::Pan(10_000, -10_000)).view, ViewChange::Pan(10_000, -10_000));
    assert!(app.view_locked());
    app.update(Message::ResetView);
    assert!(!app.view_locked());
    assert_eq!(app.update(Message::WindowResized(640, 480)).view, ViewChange::Fit);
}

#[test]
fn fullscreen_toggles_the_window() {
    let mut app = viewer(&["a.png"]);
    assert_eq!(app.update(Message::ToggleFullscreen).task, Task::Maximize(true));
    assert_eq!(app.update(Message::ToggleFullscreen).task, Task::Maximize(false));
    assert_eq!(app.update(Message::Close).task, Task::Exit);
}

#[test]
fn a_failed_load_is_tried_again() {
    let mut app = viewer(&["missing-image"]);
    match app.advance() {
        Progress::Load(k, path) => {
            assert_eq!(k, key(0));
            assert_eq!(path, "missing-image");
        },
        other => panic!("expected a load, got {:?}", other),
    }
    app.finish_load(None);
    assert_eq!(app.advance(), Progress::Idle);
    assert_eq!(app.image_size(), (0, 0));
    app.update(Message::ZoomOut);
    assert!(matches!(app.advance(), Progress::Load(_, _)));
}

#[test]
fn a_preload_of_a_cached_current_image_gives_its_size() {
    let mut app = viewer(&["a.png", "b.png"]);
    drain(&mut app, (5, 6));
    app.update(Message::Next);
    app.finish_load(None);
    assert_eq!(app.advance(), Progress::Done); // the image shown before is cached
    assert_eq!(app.advance(), Progress::Done); // the new current image is cached
    assert_eq!(app.image_size(), (5, 6));
    assert_eq!(app.advance(), Progress::Done);
    assert_eq!(app.advance(), Progress::Idle);
}

#[test]
fn the_plan_of_a_flip_drops_and_reloads() {
    let steps = {
        let mut app = viewer(&["a.png", "b.png", "c.png"]);
        drain(&mut app, (1, 1));
        app.update(Message::Next);
        drain(&mut app, (1, 1));
        app.update(Message::FlipHorizontal);
        let mut kinds = Vec::new();
        loop {
            match app.advance() {
                Progress::Idle => break,
                Progress::Done => kinds.push("done".to_string()),
                Progress::Load(k, path) => {
                    assert!(k.flip_h);
                    kinds.push(path);
                    app.finish_load(None);
                },
            }
        }
        kinds
    };
    assert_eq!(steps, vec!["done", "done", "done", "done", "b.png", "a.png", "c.png"]);
}
