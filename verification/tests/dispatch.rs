use led_matrix::codec::encode;
use led_matrix::command::{Animation, Command};
use led_matrix::dispatch::{get_renderer_for, ingest, process_command};
use led_matrix::engine::RenderEngine;
use led_matrix::fixed::{Fixed, ONE_BITS};
use led_matrix::fixedcolor::FixedColor;
use led_matrix::geometry::UVec2;
use led_matrix::render::{RenderType, Renderer};
use led_matrix::renderbuffer::RenderBuffer;
use led_matrix::stream::{StreamDecoder, StreamStatus};
use led_matrix::tasks::{frame_rgb8, Buffer50x24, RenderEvent, RenderTask, LEDS_PER_DROP, NUM_DROPS, NUM_LEDS};

const W: usize = 5;
const H: usize = 24;
const N: usize = 120;

#[test]
fn uvec2_new_keeps_both() {
    let v = UVec2::new(3, 9);
    assert_eq!((v.x, v.y), (3, 9));
}

#[test]
fn renderer_for_each_animation() {
    assert_eq!(get_renderer_for(Animation::Off), Renderer::Off);
    assert_eq!(get_renderer_for(Animation::Snow), Renderer::Basic(RenderType::Snow));
    assert_eq!(get_renderer_for(Animation::Sparkle), Renderer::Basic(RenderType::Sparkle));
    assert_eq!(get_renderer_for(Animation::Rainbow), Renderer::Basic(RenderType::Rainbow));
}

#[test]
fn scenario_clear_set_pixel_flush() {
    let mut engine = RenderEngine::<N, W, H>::new();
    let mut buffer = RenderBuffer::<N, W, H>::new();
    buffer.clear_to_color(FixedColor::white());
    assert!(!process_command(Command::Clear(0, 0, 0), &mut engine, &mut buffer));
    assert!(!process_command(Command::SetPixel(3, 4, 255, 0, 0), &mut engine, &mut buffer));
    assert!(process_command(Command::Flush, &mut engine, &mut buffer));
    for y in 0..H as u32 {
        for x in 0..W as u32 {
            let expected = if (x, y) == (3, 4) { (255, 0, 0) } else { (0, 0, 0) };
            assert_eq!(buffer.get_pixel(x, y).as_rgb8(), expected);
        }
    }
    let frame = frame_rgb8(&buffer);
    assert_eq!(frame.len(), N);
    for (i, px) in frame.iter().enumerate() {
        assert_eq!(*px, if i == 3 + 4 * W { (255, 0, 0) } else { (0, 0, 0) });
    }
}

#[test]
fn scenario_over_the_wire() {
    let mut engine = RenderEngine::<N, W, H>::new();
    let mut buffer = RenderBuffer::<N, W, H>::new();
    let mut decoder = StreamDecoder::new(64);
    let mut bytes = encode(Command::Clear(0, 0, 0));
    bytes.extend(encode(Command::SetPixel(3, 4, 255, 0, 0)));
    bytes.extend(encode(Command::Flush));
    let (a, b) = bytes.split_at(13);
    let first = ingest(&mut decoder, a, &mut engine, &mut buffer);
    assert_eq!((first.accepted, first.commands, first.flushes, first.status), (13, 1, 0, StreamStatus::Incomplete));
    let second = ingest(&mut decoder, b, &mut engine, &mut buffer);
    assert_eq!((second.accepted, second.commands, second.flushes, second.status), (b.len(), 2, 1, StreamStatus::Drained));
    assert_eq!(buffer.get_pixel(3, 4).as_rgb8(), (255, 0, 0));
    assert_eq!(buffer.buffer().iter().filter(|c| c.as_rgb8() != (0, 0, 0)).count(), 1);
}

#[test]
fn set_pixel_outside_the_grid_is_ignored() {
    let mut engine = RenderEngine::<N, W, H>::new();
    let mut buffer = RenderBuffer::<N, W, H>::new();
    let before = buffer.buffer().to_vec();
    for (x, y) in [(5, 0), (0, 24), (255, 255), (5, 24)] {
        assert!(!process_command(Command::SetPixel(x, y, 9, 9, 9), &mut engine, &mut buffer));
        assert_eq!(buffer.buffer().to_vec(), before);
    }
}

#[test]
fn animate_sets_the_renderer_and_cancels_a_transition() {
    let mut engine = RenderEngine::<N, W, H>::new();
    let mut buffer = RenderBuffer::<N, W, H>::new();
    engine.set_transition_to_renderer(Renderer::Basic(RenderType::Snow), Fixed::one());
    assert!(!process_command(Command::Animate(Animation::Rainbow), &mut engine, &mut buffer));
    assert_eq!(engine.get_renderer(), Renderer::Basic(RenderType::Rainbow));
    assert!(!engine.in_transition());
    process_command(Command::Animate(Animation::Off), &mut engine, &mut buffer);
    assert_eq!(engine.get_renderer(), Renderer::Off);
}

#[test]
fn ingest_reports_malformed_input_and_leaves_state_alone() {
    let mut engine = RenderEngine::<N, W, H>::new();
    let mut buffer = RenderBuffer::<N, W, H>::new();
    let mut decoder = StreamDecoder::new(64);
    let out = ingest(&mut decoder, &[0xff, 0xff], &mut engine, &mut buffer);
    assert_eq!((out.accepted, out.commands, out.flushes, out.status), (2, 0, 0, StreamStatus::Malformed));
    assert_eq!(engine.get_renderer(), Renderer::Off);
    assert!(buffer.buffer().iter().all(|c| *c == FixedColor::default()));
}

#[test]
fn idle_engine_leaves_the_grid_alone() {
    let mut engine = RenderEngine::<N, W, H>::new();
    let mut buffer = RenderBuffer::<N, W, H>::new();
    buffer.safe_set_pixel(1, 1, FixedColor::white());
    let before = buffer.buffer().to_vec();
    engine.render(Fixed::zero(), Fixed::from_bits(ONE_BITS / 25), &mut buffer);
    assert_eq!(buffer.buffer().to_vec(), before);
    assert_eq!(engine.tx_progress(), Fixed::zero());
}

#[test]
fn active_engine_clears_then_paints() {
    let mut engine = RenderEngine::<N, W, H>::new();
    let mut buffer = RenderBuffer::<N, W, H>::new();
    buffer.clear_to_color(FixedColor::from_rgb8(1, 2, 3));
    engine.set_renderer(Renderer::Basic(RenderType::Rainbow));
    engine.render(Fixed::zero(), Fixed::zero(), &mut buffer);
    let mut reference = led_matrix::render::Rainbow::<W, H>::new();
    reference.advance();
    let mut expected = RenderBuffer::<N, W, H>::new();
    reference.paint(Fixed::zero(), Fixed::zero(), &mut expected, led_matrix::renderbuffer::Blend::Dest);
    assert_eq!(buffer.buffer().to_vec(), expected.buffer().to_vec());
}

#[test]
fn cross_fade_mixes_both_frames() {
    let mut engine = RenderEngine::<N, W, H>::new();
    let mut buffer = RenderBuffer::<N, W, H>::new();
    buffer.clear_to_color(FixedColor::from_rgb8(200, 200, 200));
    engine.set_transition_to_renderer(Renderer::Basic(RenderType::Rainbow), Fixed::one());
    engine.render(Fixed::zero(), Fixed::from_bits(ONE_BITS / 2), &mut buffer);
    assert!(engine.in_transition());
    let mut reference = led_matrix::render::Rainbow::<W, H>::new();
    reference.advance();
    let mut target = RenderBuffer::<N, W, H>::new();
    reference.paint(Fixed::zero(), Fixed::zero(), &mut target, led_matrix::renderbuffer::Blend::Dest);
    for y in 0..H as u32 {
        for x in 0..W as u32 {
            let mixed = led_matrix::renderbuffer::blend_merge(
                FixedColor::from_rgb8(200, 200, 200),
                target.get_pixel(x, y),
                Fixed::from_bits(ONE_BITS / 2),
            );
            assert_eq!(buffer.get_pixel(x, y), mixed);
        }
    }
}

#[test]
fn render_task_pauses_while_off() {
    let mut engine = RenderEngine::<N, W, H>::new();
    let mut buffer = RenderBuffer::<N, W, H>::new();
    let mut task = RenderTask::start(&mut engine);
    assert_eq!(engine.get_renderer(), Renderer::Basic(RenderType::Snow));
    let tick = RenderEvent::Tick(Fixed::zero(), Fixed::from_bits(ONE_BITS / 25));
    assert!(task.handle(tick, &mut engine, &mut buffer));
    assert!(!task.handle(RenderEvent::Control(Renderer::Off), &mut engine, &mut buffer));
    assert_eq!(engine.get_renderer(), Renderer::Off);
    let before = buffer.buffer().to_vec();
    assert!(!task.handle(tick, &mut engine, &mut buffer));
    assert_eq!(buffer.buffer().to_vec(), before);
    assert!(!task.handle(RenderEvent::Control(Renderer::Basic(RenderType::Rainbow)), &mut engine, &mut buffer));
    assert!(task.handle(tick, &mut engine, &mut buffer));
    assert_eq!(engine.get_renderer(), Renderer::Basic(RenderType::Rainbow));
}

#[test]
fn installed_grid_and_its_walk() {
    assert_eq!(NUM_DROPS * LEDS_PER_DROP, NUM_LEDS);
    let mut b = Buffer50x24::new();
    b.get_mut_buffer().safe_set_pixel(2, 1, FixedColor::from_rgb8(10, 20, 30));
    b.get_mut_buffer().safe_set_pixel(0, 0, FixedColor::white());
    let mut it = b.iter();
    let mut seen = Vec::new();
    while let Some(px) = it.next() {
        seen.push(px);
    }
    assert_eq!(it.next(), None);
    assert_eq!(seen.len(), NUM_LEDS);
    assert_eq!(seen[0], (255, 255, 255));
    assert_eq!(seen[2 + NUM_DROPS], (10, 20, 30));
    assert_eq!(seen.iter().filter(|p| **p != (0, 0, 0)).count(), 2);
    assert_eq!(seen, frame_rgb8(&b.0));
    let d = Buffer50x24::default();
    assert!(d.0.buffer().iter().all(|c| *c == FixedColor::default()));
}
