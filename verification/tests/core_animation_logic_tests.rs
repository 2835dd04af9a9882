use thud_and_tile::config::{BLINK_ANIMATION_STEP_MS, BLINK_COUNT_MAX};
use thud_and_tile::core_logic::animation_logic::{
    create_erase_line_animation, create_line_blink_animation, create_push_down_animation,
    should_render_line_with_animation, update_all_animation_states, update_erase_line_state,
    update_line_blink_state, update_push_down_state, AnimationType,
};

#[test]
fn test_line_blink_update() {
    let lines = vec![5, 10, 15];
    let start_time = 0;

    let result = update_line_blink_state(lines.clone(), start_time, 0);
    assert!(!result.is_completed);
    assert_eq!(result.current_count, 0);
    assert!(result.is_visible);

    let blink_duration = BLINK_ANIMATION_STEP_MS;
    let result = update_line_blink_state(lines.clone(), start_time, blink_duration);
    assert!(!result.is_completed);
    assert_eq!(result.current_count, 1);
    assert!(!result.is_visible);

    let total_duration = (BLINK_COUNT_MAX as u64) * blink_duration;
    let result = update_line_blink_state(lines, start_time, total_duration);
    assert!(result.is_completed);
}

#[test]
fn test_animation_state_creation() {
    let lines = vec![1, 2, 3];
    let start_time = 1000;

    let animation = create_line_blink_animation(lines.clone(), start_time);
    assert_eq!(animation.animation_type, AnimationType::LineBlink);
    assert_eq!(animation.lines, lines);
    assert_eq!(animation.start_time_ms, start_time);
    assert!(!animation.is_completed);
}

#[test]
fn test_multiple_animations_update() {
    let animations = vec![
        create_line_blink_animation(vec![5], 0),
        create_push_down_animation(10, 100),
    ];

    let result = update_all_animation_states(animations, 1000);

    assert_eq!(result.completed_line_blinks.len(), 1);
    assert_eq!(result.completed_line_blinks[0], vec![5]);

    assert_eq!(result.completed_push_downs.len(), 1);
    assert_eq!(result.completed_push_downs[0], 10);
}

#[test]
fn line_blink_before_start_counts_zero() {
    let result = update_line_blink_state(vec![3], 500, 100);
    assert_eq!(result.current_count, 0);
    assert!(result.is_visible);
    assert!(!result.is_completed);
}

#[test]
fn push_down_moves_after_its_step() {
    assert!(!update_push_down_state(4, 1000, 1099).should_move);
    assert!(update_push_down_state(4, 1000, 1100).should_move);
    assert!(!update_push_down_state(4, 1000, 5000).is_completed);
}

#[test]
fn erase_line_state_steps_every_interval() {
    let r = update_erase_line_state(vec![19, 18], 0, 0, 119);
    assert!(!r.should_process_step);
    assert!(!r.is_completed);
    let r = update_erase_line_state(vec![19, 18], 0, 0, 120);
    assert!(r.should_process_step);
    let r = update_erase_line_state(vec![19, 18], 2, 0, 1000);
    assert!(r.is_completed);
    assert_eq!(r.lines_erased, 2);
}

#[test]
fn update_all_keeps_order_and_advances_erase_lines() {
    let animations = vec![
        create_erase_line_animation(vec![19, 18], 0),
        create_line_blink_animation(vec![7], 0),
        create_erase_line_animation(vec![], 0),
    ];
    let result = update_all_animation_states(animations, 130);
    assert_eq!(result.updated_animations.len(), 2);
    assert_eq!(result.updated_animations[0].animation_type, AnimationType::EraseLine);
    assert_eq!(result.updated_animations[0].current_step, 1);
    assert_eq!(result.updated_animations[1].animation_type, AnimationType::LineBlink);
    assert_eq!(result.updated_animations[1].current_step, 1);
    assert_eq!(result.completed_erase_lines.len(), 1);
    assert_eq!(result.completed_erase_lines[0].1, 0);
}

#[test]
fn render_line_follows_first_covering_blink() {
    let animations = vec![
        create_push_down_animation(3, 0),
        create_line_blink_animation(vec![3, 4], 0),
        create_line_blink_animation(vec![3], 120),
    ];
    assert!(!should_render_line_with_animation(3, &animations, 130));
    assert!(should_render_line_with_animation(3, &animations, 250));
    assert!(should_render_line_with_animation(9, &animations, 130));
}
