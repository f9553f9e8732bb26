use binsearch::search::binary_search;

#[test]
fn test_binary_search_integers() {
    let arr = [1, 3, 4, 6, 8, 9, 11];
    assert_eq!(binary_search(&6, &arr), Some(3));
    assert_eq!(binary_search(&1, &arr), Some(0));
    assert_eq!(binary_search(&11, &arr), Some(6));
    assert_eq!(binary_search(&7, &arr), None);
    assert_eq!(binary_search(&0, &arr), None);
    assert_eq!(binary_search(&12, &arr), None);
}

#[test]
fn test_binary_search_strings() {
    let arr = ["apple", "banana", "cherry", "apple", "raspberry"];
    assert_eq!(binary_search(&"cherry", &arr), Some(2));
    assert_eq!(binary_search(&"apple", &arr), Some(0));
    assert_eq!(binary_search(&"raspberry", &arr), Some(4));
    assert_eq!(binary_search(&"blueberry", &arr), None);
    assert_eq!(binary_search(&"jacobfet", &arr), None);
    assert_eq!(binary_search(&"zebra", &arr), None);
}

#[test]
fn empty_slice_is_not_found() {
    let arr: [i32; 0] = [];
    assert_eq!(binary_search(&0, &arr), None);
    assert_eq!(binary_search(&i32::MIN, &arr), None);
    assert_eq!(binary_search(&i32::MAX, &arr), None);
    let words: Vec<String> = Vec::new();
    assert_eq!(binary_search(&String::from("apple"), &words), None);
}

#[test]
fn single_element() {
    let arr = [5u8];
    assert_eq!(binary_search(&5, &arr), Some(0));
    assert_eq!(binary_search(&4, &arr), None);
    assert_eq!(binary_search(&6, &arr), None);
}

#[test]
fn adjacent_duplicates_follow_the_midpoints() {
    let arr = ["apple", "apple", "banana", "cherry", "raspberry"];
    assert_eq!(binary_search(&"apple", &arr), Some(1));
    assert_eq!(binary_search(&"banana", &arr), Some(2));
    assert_eq!(binary_search(&"raspberry", &arr), Some(4));
    assert_eq!(binary_search(&"blueberry", &arr), None);
}

#[test]
fn all_equal_elements() {
    let arr = [7i64; 8];
    assert_eq!(binary_search(&7, &arr), Some(4));
    assert_eq!(binary_search(&6, &arr), None);
    assert_eq!(binary_search(&8, &arr), None);
}

#[test]
fn every_element_is_found_and_gaps_are_not() {
    let arr: Vec<u64> = (0..100u64).map(|k| 2 * k + 1).collect();
    for (i, x) in arr.iter().enumerate() {
        assert_eq!(binary_search(x, &arr), Some(i));
        assert_eq!(binary_search(&(x - 1), &arr), None);
    }
    assert_eq!(binary_search(&200, &arr), None);
}

#[test]
fn found_index_is_in_bounds_and_equal() {
    let arr = [-9i32, -3, -3, 0, 2, 2, 2, 15, 40];
    for t in -12i32..45 {
        match binary_search(&t, &arr) {
            Some(i) => {
                assert!(i < arr.len());
                assert_eq!(arr[i], t);
            }
            None => assert!(!arr.contains(&t)),
        }
    }
}

#[test]
fn extreme_values() {
    let arr = [u64::MIN, 1, u64::MAX - 1, u64::MAX];
    assert_eq!(binary_search(&u64::MIN, &arr), Some(0));
    assert_eq!(binary_search(&u64::MAX, &arr), Some(3));
    assert_eq!(binary_search(&2, &arr), None);
}

#[test]
fn slice_is_left_unchanged() {
    let arr = vec![1, 3, 4, 6, 8, 9, 11];
    let before = arr.clone();
    assert_eq!(binary_search(&8, &arr), Some(4));
    assert_eq!(binary_search(&5, &arr), None);
    assert_eq!(arr, before);
}

#[test]
fn repeated_searches_agree() {
    let arr = ["apple", "apple", "banana", "cherry", "raspberry"];
    for t in ["apple", "banana", "cherry", "fig", "raspberry", "zebra"] {
        assert_eq!(binary_search(&t, &arr), binary_search(&t, &arr));
    }
    let nums = [1, 3, 4, 6, 8, 9, 11];
    assert_eq!(binary_search(&9, &nums), binary_search(&9, &nums));
}
