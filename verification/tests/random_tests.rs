use thud_and_tile::random::{
    create_default_random_provider, DeterministicRandomProvider, NativeRandomProvider, RandomProvider,
};

#[test]
fn test_deterministic_random_provider() {
    let mut provider = DeterministicRandomProvider::new(vec![0, 1, 2, 3]);

    assert_eq!(provider.gen_range(0, 10), 0);
    assert_eq!(provider.gen_range(5, 10), 6);
    assert_eq!(provider.gen_range(0, 3), 2);

    let items = [10, 20, 30, 40];
    assert_eq!(provider.choose_element(&items), Some(&40));

    assert_eq!(provider.gen_bool(), false);
    assert_eq!(provider.gen_bool(), true);
}

#[test]
fn test_deterministic_shuffle() {
    let mut provider = DeterministicRandomProvider::new(vec![0, 1, 0, 1]);
    let mut items = vec![1, 2, 3, 4];

    provider.shuffle(&mut items);
    assert_eq!(items.len(), 4);
    assert!(items.contains(&1));
    assert!(items.contains(&2));
    assert!(items.contains(&3));
    assert!(items.contains(&4));
}

#[test]
fn test_native_random_provider() {
    let mut provider = NativeRandomProvider::new();

    let val = provider.gen_range(0, 10);
    assert!(val < 10);

    let items = [1, 2, 3, 4, 5];
    let chosen = provider.choose_element(&items);
    assert!(chosen.is_some());
    assert!(items.contains(chosen.unwrap()));

    let bool_val = provider.gen_bool();
    assert!(bool_val == true || bool_val == false);
}

#[test]
fn test_native_random_provider_with_seed() {
    let mut provider1 = NativeRandomProvider::with_seed(42);
    let mut provider2 = NativeRandomProvider::with_seed(42);

    assert_eq!(provider1.gen_range(0, 100), provider2.gen_range(0, 100));
}

#[test]
fn test_create_default_random_provider() {
    let mut provider = create_default_random_provider();

    let val = provider.gen_range(0, 10);
    assert!(val < 10);

    let items = [1, 2, 3];
    let chosen = provider.choose_element(&items);
    assert!(chosen.is_some());
}

#[test]
fn deterministic_shuffle_is_a_permutation() {
    let mut provider = DeterministicRandomProvider::new(vec![0, 1, 0, 1]);
    let mut items = vec![1, 2, 3, 4];
    provider.shuffle(&mut items);
    let mut sorted = items.clone();
    sorted.sort();
    assert_eq!(sorted, vec![1, 2, 3, 4]);
}

#[test]
fn default_provider_stays_in_range() {
    let mut provider = create_default_random_provider();
    for _ in 0..100 {
        let v = provider.gen_range(3, 7);
        assert!((3..7).contains(&v));
    }
    let items = [1, 2, 3];
    let chosen = provider.choose_element(&items);
    assert!(items.contains(chosen.unwrap()));
    let empty: [u8; 0] = [];
    assert_eq!(provider.choose_element(&empty), None);
}

#[test]
fn deterministic_shuffle_follows_the_values() {
    let mut provider = DeterministicRandomProvider::new(vec![0, 1, 0, 1]);
    let mut items = vec![1, 2, 3, 4];
    provider.shuffle(&mut items);
    assert_eq!(items, vec![3, 4, 2, 1]);
    // three values were used, so the fourth comes next
    assert_eq!(provider.gen_range(0, 10), 1);
}

#[test]
fn choosing_from_an_empty_slice_uses_no_value() {
    let mut provider = DeterministicRandomProvider::new(vec![7, 2]);
    let empty: [u8; 0] = [];
    assert_eq!(provider.choose_element(&empty), None);
    assert_eq!(provider.gen_range(0, 100), 7);
    let mut nothing_to_draw = DeterministicRandomProvider::new(vec![]);
    let mut one = vec![5];
    nothing_to_draw.shuffle(&mut one);
    assert_eq!(one, vec![5]);
}
