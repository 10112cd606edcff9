use voxel_world::lattice::{chunk_coord, delinearize, linearize, local_coord, LatticePos};

#[test]
fn linearize_uses_x_fastest_order() {
    assert_eq!(linearize([0, 0, 0], [3, 4, 5]), 0);
    assert_eq!(linearize([1, 0, 0], [3, 4, 5]), 1);
    assert_eq!(linearize([0, 1, 0], [3, 4, 5]), 3);
    assert_eq!(linearize([0, 0, 1], [3, 4, 5]), 12);
    assert_eq!(linearize([2, 3, 4], [3, 4, 5]), 59);
    assert_eq!(linearize([17, 17, 17], [18, 18, 18]), 5831);
}

#[test]
fn delinearize_inverts_linearize() {
    let e = [3, 4, 5];
    for z in 0..5 {
        for y in 0..4 {
            for x in 0..3 {
                assert_eq!(delinearize(linearize([x, y, z], e), e), [x, y, z]);
            }
        }
    }
    assert_eq!(delinearize(59, e), [2, 3, 4]);
    assert_eq!(delinearize(0, [1, 1, 1]), [0, 0, 0]);
}

#[test]
fn chunk_coord_floors_negative_coordinates() {
    assert_eq!(chunk_coord(0), 0);
    assert_eq!(chunk_coord(15), 0);
    assert_eq!(chunk_coord(16), 1);
    assert_eq!(chunk_coord(-1), -1);
    assert_eq!(chunk_coord(-16), -1);
    assert_eq!(chunk_coord(-17), -2);
    assert_eq!(chunk_coord(i32::MIN), -134217728);
    assert_eq!(chunk_coord(i32::MAX), 134217727);
}

#[test]
fn local_coord_is_the_euclidean_remainder() {
    assert_eq!(local_coord(0), 0);
    assert_eq!(local_coord(17), 1);
    assert_eq!(local_coord(-1), 15);
    assert_eq!(local_coord(-16), 0);
    assert_eq!(local_coord(-17), 15);
    assert_eq!(local_coord(i32::MIN), 0);
}

#[test]
fn lattice_pos_new_keeps_coordinates() {
    let p = LatticePos::new(1, -2, 3);
    assert_eq!(p, LatticePos { x: 1, y: -2, z: 3 });
}
