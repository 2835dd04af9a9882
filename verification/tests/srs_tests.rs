use thud_and_tile::tetromino::{get_srs_wall_kick_offsets_by_shape, SRS_I_OFFSETS, SRS_JLTSZ_OFFSETS};

#[test]
fn test_jlszt_wall_kicks_0_to_r() {
    let expected_kicks: [[i8; 2]; 5] = [[0, 0], [-1, 0], [-1, 1], [0, -2], [-1, -2]];
    assert_eq!(SRS_JLTSZ_OFFSETS[0], expected_kicks);
    assert_eq!(get_srs_wall_kick_offsets_by_shape(2, 0, 1), expected_kicks);
}

#[test]
fn test_jlszt_wall_kicks_r_to_0() {
    let expected_kicks: [[i8; 2]; 5] = [[0, 0], [1, 0], [1, -1], [0, 2], [1, 2]];
    assert_eq!(SRS_JLTSZ_OFFSETS[1], expected_kicks);
    assert_eq!(get_srs_wall_kick_offsets_by_shape(2, 1, 0), expected_kicks);
}

#[test]
fn test_jlszt_wall_kicks_r_to_2() {
    let expected_kicks: [[i8; 2]; 5] = [[0, 0], [1, 0], [1, 1], [0, -2], [1, -2]];
    assert_eq!(SRS_JLTSZ_OFFSETS[2], expected_kicks);
    assert_eq!(get_srs_wall_kick_offsets_by_shape(2, 1, 2), expected_kicks);
}

#[test]
fn test_jlszt_wall_kicks_2_to_r() {
    let expected_kicks: [[i8; 2]; 5] = [[0, 0], [-1, 0], [-1, -1], [0, 2], [-1, 2]];
    assert_eq!(SRS_JLTSZ_OFFSETS[3], expected_kicks);
    assert_eq!(get_srs_wall_kick_offsets_by_shape(2, 2, 1), expected_kicks);
}

#[test]
fn test_jlszt_wall_kicks_2_to_l() {
    let expected_kicks: [[i8; 2]; 5] = [[0, 0], [1, 0], [1, -1], [0, 2], [1, 2]];
    assert_eq!(SRS_JLTSZ_OFFSETS[4], expected_kicks);
    assert_eq!(get_srs_wall_kick_offsets_by_shape(2, 2, 3), expected_kicks);
}

#[test]
fn test_jlszt_wall_kicks_l_to_2() {
    let expected_kicks: [[i8; 2]; 5] = [[0, 0], [-1, 0], [-1, 1], [0, -2], [-1, -2]];
    assert_eq!(SRS_JLTSZ_OFFSETS[5], expected_kicks);
    assert_eq!(get_srs_wall_kick_offsets_by_shape(2, 3, 2), expected_kicks);
}

#[test]
fn test_jlszt_wall_kicks_l_to_0() {
    let expected_kicks: [[i8; 2]; 5] = [[0, 0], [-1, 0], [-1, -1], [0, 2], [-1, 2]];
    assert_eq!(SRS_JLTSZ_OFFSETS[6], expected_kicks);
    assert_eq!(get_srs_wall_kick_offsets_by_shape(2, 3, 0), expected_kicks);
}

#[test]
fn test_jlszt_wall_kicks_0_to_l() {
    let expected_kicks: [[i8; 2]; 5] = [[0, 0], [1, 0], [1, 1], [0, -2], [1, -2]];
    assert_eq!(SRS_JLTSZ_OFFSETS[7], expected_kicks);
    assert_eq!(get_srs_wall_kick_offsets_by_shape(2, 0, 3), expected_kicks);
}

#[test]
fn test_i_wall_kicks_0_to_r() {
    let expected_kicks: [[i8; 2]; 5] = [[0, 0], [-2, 0], [1, 0], [-2, -1], [1, 2]];
    assert_eq!(SRS_I_OFFSETS[0], expected_kicks);
    assert_eq!(get_srs_wall_kick_offsets_by_shape(0, 0, 1), expected_kicks);
}

#[test]
fn test_i_wall_kicks_r_to_0() {
    let expected_kicks: [[i8; 2]; 5] = [[0, 0], [2, 0], [-1, 0], [2, 1], [-1, -2]];
    assert_eq!(SRS_I_OFFSETS[1], expected_kicks);
    assert_eq!(get_srs_wall_kick_offsets_by_shape(0, 1, 0), expected_kicks);
}

#[test]
fn test_i_wall_kicks_r_to_2() {
    let expected_kicks: [[i8; 2]; 5] = [[0, 0], [-1, 0], [2, 0], [-1, -2], [2, 1]];
    assert_eq!(SRS_I_OFFSETS[2], expected_kicks);
    assert_eq!(get_srs_wall_kick_offsets_by_shape(0, 1, 2), expected_kicks);
}

#[test]
fn test_i_wall_kicks_2_to_r() {
    let expected_kicks: [[i8; 2]; 5] = [[0, 0], [1, 0], [-2, 0], [1, 2], [-2, -1]];
    assert_eq!(SRS_I_OFFSETS[3], expected_kicks);
    assert_eq!(get_srs_wall_kick_offsets_by_shape(0, 2, 1), expected_kicks);
}

#[test]
fn test_i_wall_kicks_2_to_l() {
    let expected_kicks: [[i8; 2]; 5] = [[0, 0], [2, 0], [-1, 0], [2, 1], [-1, -2]];
    assert_eq!(SRS_I_OFFSETS[4], expected_kicks);
    assert_eq!(get_srs_wall_kick_offsets_by_shape(0, 2, 3), expected_kicks);
}

#[test]
fn test_i_wall_kicks_l_to_2() {
    let expected_kicks: [[i8; 2]; 5] = [[0, 0], [-2, 0], [1, 0], [-2, -1], [1, 2]];
    assert_eq!(SRS_I_OFFSETS[5], expected_kicks);
    assert_eq!(get_srs_wall_kick_offsets_by_shape(0, 3, 2), expected_kicks);
}

#[test]
fn test_i_wall_kicks_l_to_0() {
    let expected_kicks: [[i8; 2]; 5] = [[0, 0], [1, 0], [-2, 0], [1, 2], [-2, -1]];
    assert_eq!(SRS_I_OFFSETS[6], expected_kicks);
    assert_eq!(get_srs_wall_kick_offsets_by_shape(0, 3, 0), expected_kicks);
}

#[test]
fn test_i_wall_kicks_0_to_l() {
    let expected_kicks: [[i8; 2]; 5] = [[0, 0], [-1, 0], [2, 0], [-1, -2], [2, 1]];
    assert_eq!(SRS_I_OFFSETS[7], expected_kicks);
    assert_eq!(get_srs_wall_kick_offsets_by_shape(0, 0, 3), expected_kicks);
}
