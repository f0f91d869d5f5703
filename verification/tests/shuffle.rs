use tiny_sdl2_gui::util::shuffle::shuffle;

#[test]
fn test_shuffle_empty_vector() {
    let mut v: Vec<usize> = vec![];
    shuffle(&mut v, 42);
    assert!(v.is_empty(), "Empty vector should remain empty after shuffle");
}

#[test]
fn test_shuffle_single_element_vector() {
    let mut v = vec![42];
    shuffle(&mut v, 42);
    assert_eq!(
        v,
        vec![42],
        "Single element vector should remain unchanged after shuffle"
    );
}

#[test]
fn test_shuffle_normal_case() {
    let mut v = vec![1, 2, 3, 4, 5];
    shuffle(&mut v, 42);
    assert_eq!(
        v,
        vec![2, 5, 4, 1, 3],
        "Deterministic shuffle result did not match"
    );
}

#[test]
fn shuffle_keeps_every_element() {
    let mut v: Vec<u32> = (0..100).collect();
    shuffle(&mut v, 1234);
    let mut sorted = v.clone();
    sorted.sort();
    assert_eq!(sorted, (0..100).collect::<Vec<u32>>());
    assert_ne!(v, (0..100).collect::<Vec<u32>>());
}

#[test]
fn shuffle_is_deterministic() {
    let mut a: Vec<u32> = (0..20).collect();
    let mut b: Vec<u32> = (0..20).collect();
    shuffle(&mut a, 5678);
    shuffle(&mut b, 5678);
    assert_eq!(a, b);
}

#[test]
fn shuffle_two_elements_first_step() {
    // seed 0: the generator gives 1, and 1 % 2 == 1, so nothing moves
    let mut v = vec![7, 9];
    shuffle(&mut v, 0);
    assert_eq!(v, vec![7, 9]);
    // seed 1: the generator gives 6364136223846793006, which is even
    let mut w = vec![7, 9];
    shuffle(&mut w, 1);
    assert_eq!(w, vec![9, 7]);
}

#[test]
fn shuffle_reorders_positions_not_values() {
    let original = vec!['a', 'b', 'c', 'd', 'e', 'f', 'g'];
    let mut values = original.clone();
    let mut positions: Vec<usize> = (0..original.len()).collect();
    shuffle(&mut values, 7);
    shuffle(&mut positions, 7);
    for k in 0..original.len() {
        assert_eq!(values[k], original[positions[k]]);
    }
}
