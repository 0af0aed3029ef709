use wordnik_list::{str_binary_search, word_exists, word_iterator, word_iterator_by_len, word_range};

#[test]
fn test_words_exist() {
    assert!(word_exists("zebra"));
    assert!(word_exists("ab"));
    assert!(word_exists("an"));
    assert!(word_exists("the"));
}

#[test]
fn test_words_dont_exit() {
    assert!(!word_exists("asd"));
    assert!(!word_exists("zzzzzz"));
    assert!(!word_exists("1ab"));
}

#[test]
fn test_odd_inputs() {
    assert_eq!(word_range("z", "a").into_iter().next(), None);
    assert_eq!(word_range("~", "~").into_iter().next(), None);
    assert_eq!(word_range("aa", "aa").into_iter().next(), None);
    assert_eq!(word_iterator_by_len(0).into_iter().next(), None);
    assert_eq!(word_iterator_by_len(1).into_iter().next(), None);
    assert_eq!(word_iterator_by_len(29).into_iter().next(), None);
    assert_eq!(word_exists(""), false);
    assert_eq!(word_exists("a"), false);
    assert_eq!(word_exists("~"), false);
}

#[test]
fn randomized_reading() {
    let word_vec: Vec<&'static str> = word_iterator();
    let now = std::time::Instant::now();
    for i in 0..100000 {
        assert!(word_exists(word_vec[(i * 80) % word_vec.len()]));
    }
    println!("Random iteration lookup: {:?}", now.elapsed().div_f32(100000.0));
}

#[test]
fn test_str_binary_search() {
    let haystack = "bcef";
    assert_eq!(str_binary_search(haystack, "a", 1), Err(0));
    assert_eq!(str_binary_search(haystack, "b", 1), Ok(0));
    assert_eq!(str_binary_search(haystack, "c", 1), Ok(1));
    assert_eq!(str_binary_search(haystack, "d", 1), Err(2));
    assert_eq!(str_binary_search(haystack, "e", 1), Ok(2));
    assert_eq!(str_binary_search(haystack, "f", 1), Ok(3));
    assert_eq!(str_binary_search(haystack, "g", 1), Err(4));
    let haystack = "babbbccdef";
    assert_eq!(str_binary_search(haystack, "aa", 2), Err(0));
    // Testing with a string that's too short
    assert_eq!(str_binary_search(haystack, "b", 2), Err(0));
    assert_eq!(str_binary_search(haystack, "ba", 2), Ok(0));
    // Testing with a string that's too long
    assert_eq!(str_binary_search(haystack, "baa", 2), Err(2));
    assert_eq!(str_binary_search(haystack, "bb", 2), Ok(2));
    assert_eq!(str_binary_search(haystack, "bc", 2), Ok(4));
    assert_eq!(str_binary_search(haystack, "ca", 2), Err(6));
    assert_eq!(str_binary_search(haystack, "cd", 2), Ok(6));
    assert_eq!(str_binary_search(haystack, "ee", 2), Err(8));
    assert_eq!(str_binary_search(haystack, "ef", 2), Ok(8));
    assert_eq!(str_binary_search(haystack, "zz", 2), Err(10));
}
