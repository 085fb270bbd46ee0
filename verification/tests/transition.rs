use led_matrix::engine::RenderEngine;
use led_matrix::fixed::{Fixed, ONE_BITS};
use led_matrix::render::{RenderType, Renderer};
use led_matrix::renderbuffer::RenderBuffer;
use led_matrix::transition::Transition;

fn fx(n: i32, d: i32) -> Fixed {
    Fixed::from_bits(((n as i64 * ONE_BITS as i64) / d as i64) as i32)
}

#[test]
fn new_transition_has_nothing_elapsed() {
    let t = Transition::new(Renderer::Basic(RenderType::Snow), fx(2, 1));
    assert_eq!(t.renderer, Renderer::Basic(RenderType::Snow));
    assert_eq!(t.duration, fx(2, 1));
    assert_eq!(t.current, Fixed::zero());
    assert!(!t.is_done());
    assert_eq!(t.progress(), Fixed::zero());
}

#[test]
fn progress_is_elapsed_over_duration() {
    let mut t = Transition::new(Renderer::Off, fx(2, 1));
    t.step(fx(1, 2));
    assert_eq!(t.progress().bits, 4194304);
    t.step(fx(1, 2));
    assert_eq!(t.progress().bits, ONE_BITS / 2);
    t.step(fx(1, 2));
    assert_eq!(t.progress().bits, 3 * (ONE_BITS / 4));
    assert!(!t.is_done());
}

#[test]
fn progress_is_zero_at_and_after_completion() {
    let mut t = Transition::new(Renderer::Off, fx(1, 1));
    t.step(fx(1, 1));
    assert!(t.is_done());
    assert_eq!(t.progress(), Fixed::zero());
    t.step(fx(1, 1));
    assert!(t.is_done());
    assert_eq!(t.progress(), Fixed::zero());
}

#[test]
fn zero_duration_is_done_at_once() {
    let t = Transition::new(Renderer::Off, Fixed::zero());
    assert!(t.is_done());
    assert_eq!(t.progress(), Fixed::zero());
    let n = Transition::new(Renderer::Off, fx(-1, 1));
    assert!(n.is_done());
    assert_eq!(n.progress(), Fixed::zero());
}

#[test]
fn progress_never_decreases_before_completion() {
    let mut t = Transition::new(Renderer::Off, fx(3, 1));
    let mut last = t.progress().bits;
    for _ in 0..1000 {
        t.step(Fixed::from_bits(40_000));
        if t.is_done() {
            assert_eq!(t.progress(), Fixed::zero());
            break;
        }
        let p = t.progress().bits;
        assert!(p >= last);
        assert!(p < ONE_BITS);
        last = p;
    }
}

#[test]
fn elapsed_time_saturates() {
    let mut t = Transition::new(Renderer::Off, Fixed::from_bits(i32::MAX));
    t.step(Fixed::from_bits(i32::MAX - 1));
    assert!(!t.is_done());
    t.step(Fixed::from_bits(i32::MAX));
    assert_eq!(t.current.bits, i32::MAX);
    assert!(t.is_done());
}

#[test]
fn scenario_transition_commits_after_its_duration() {
    let mut engine = RenderEngine::<16, 4, 4>::new();
    let mut buffer = RenderBuffer::<16, 4, 4>::new();
    assert_eq!(engine.get_renderer(), Renderer::Off);
    let d = fx(1, 1);
    engine.set_transition_to_renderer(Renderer::Basic(RenderType::Rainbow), d);
    assert!(engine.in_transition());
    assert_eq!(engine.get_renderer(), Renderer::Off);
    engine.render(Fixed::zero(), fx(1, 4), &mut buffer);
    assert!(engine.in_transition());
    assert_eq!(engine.get_renderer(), Renderer::Off);
    assert_eq!(engine.tx_progress().bits, ONE_BITS / 4);
    engine.render(Fixed::zero(), fx(1, 2), &mut buffer);
    assert_eq!(engine.tx_progress().bits, 3 * (ONE_BITS / 4));
    engine.render(Fixed::zero(), fx(1, 4), &mut buffer);
    assert_eq!(engine.get_renderer(), Renderer::Basic(RenderType::Rainbow));
    assert!(!engine.in_transition());
    assert_eq!(engine.tx_progress(), Fixed::zero());
}

#[test]
fn transition_stepped_once_by_its_whole_duration_commits() {
    let mut engine = RenderEngine::<16, 4, 4>::new();
    let mut buffer = RenderBuffer::<16, 4, 4>::new();
    let d = fx(5, 2);
    engine.set_transition_to_renderer(Renderer::Basic(RenderType::Rainbow), d);
    engine.render(Fixed::zero(), d, &mut buffer);
    assert_eq!(engine.get_renderer(), Renderer::Basic(RenderType::Rainbow));
    assert!(!engine.in_transition());
}

#[test]
fn set_renderer_cancels_a_transition() {
    let mut engine = RenderEngine::<16, 4, 4>::new();
    engine.set_transition_to_renderer(Renderer::Basic(RenderType::Rainbow), fx(1, 1));
    engine.set_renderer(Renderer::Basic(RenderType::Snow));
    assert!(!engine.in_transition());
    assert_eq!(engine.get_renderer(), Renderer::Basic(RenderType::Snow));
}
