use thud_and_tile::animation::{update_animations, Animation};
use thud_and_tile::core_logic::erase_line_logic::determine_erase_line_count;

#[test]
fn test_erase_line_animation_creation() {
    let animation = Animation::EraseLine { lines_remaining: 3, last_update: 0 };
    if let Animation::EraseLine { lines_remaining, last_update } = animation {
        assert_eq!(lines_remaining, 3);
        assert_eq!(last_update, 0);
    } else {
        panic!("Expected EraseLine animation");
    }
}

#[test]
fn test_erase_line_animation_fields() {
    let animation = Animation::EraseLine { lines_remaining: 5, last_update: 100 };
    match animation {
        Animation::EraseLine { lines_remaining, last_update } => {
            assert_eq!(lines_remaining, 5);
            assert_eq!(last_update, 100);
        }
        _ => panic!("Expected EraseLine animation"),
    }
}

#[test]
fn test_erase_line_animation_updates() {
    let mut animations = vec![Animation::EraseLine { lines_remaining: 2, last_update: 0 }];
    let current_time = 120;
    let result = update_animations(&mut animations, current_time);
    assert_eq!(result.continuing_animations.len(), 1);
    if let Animation::EraseLine { lines_remaining, .. } = &result.continuing_animations[0] {
        assert_eq!(*lines_remaining, 1);
    } else {
        panic!("Expected EraseLine animation");
    }
}

#[test]
fn test_erase_line_animation_completion_through_update() {
    let mut animations = vec![Animation::EraseLine { lines_remaining: 1, last_update: 0 }];
    let current_time = 120;
    let result = update_animations(&mut animations, current_time);
    assert_eq!(result.continuing_animations.len(), 0);
}

#[test]
fn test_erase_line_animation_no_update_before_interval() {
    let mut animations = vec![Animation::EraseLine { lines_remaining: 3, last_update: 50 }];
    let current_time = 120;
    let result = update_animations(&mut animations, current_time);
    assert_eq!(result.continuing_animations.len(), 1);
    if let Animation::EraseLine { lines_remaining, .. } = &result.continuing_animations[0] {
        assert_eq!(*lines_remaining, 3);
    } else {
        panic!("Expected EraseLine animation");
    }
}

#[test]
fn test_chain_bonus_limits_erase_line_creation() {
    let chain_bonus = 2;
    let solid_lines = vec![19, 18, 17];
    let erase_line_count = determine_erase_line_count(chain_bonus, solid_lines.len());
    assert_eq!(erase_line_count, 2);
}

#[test]
fn test_insufficient_chain_bonus_limits_erase_lines() {
    let chain_bonus = 1;
    let solid_lines = vec![19, 18, 17, 16, 15];
    let erase_line_count = determine_erase_line_count(chain_bonus, solid_lines.len());
    assert_eq!(erase_line_count, 1);
}

#[test]
fn blink_and_push_down_finish_on_time() {
    let mut animations = vec![
        Animation::LineBlink { lines: vec![4], count: 0, start_time: 0 },
        Animation::PushDown { gray_line_y: 6, start_time: 0 },
        Animation::LineBlink { lines: vec![9], count: 0, start_time: 0 },
    ];
    let result = update_animations(&mut animations, 720);
    assert!(animations.is_empty());
    assert_eq!(result.completed_line_blinks, vec![vec![4], vec![9]]);
    assert_eq!(result.completed_push_downs, vec![6]);
    assert!(result.continuing_animations.is_empty());
}
