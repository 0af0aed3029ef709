use wordnik_list::corpus::{bucket_is_well_formed, bucket_text_of, MAX_WORD_LEN, MIN_WORD_LEN};
use wordnik_list::{corpus_is_well_formed, str_binary_search, word_exists, word_iterator, word_iterator_by_len, word_range};

#[test]
fn embedded_buckets_have_the_bucket_layout() {
    assert!(corpus_is_well_formed());
    for len in MIN_WORD_LEN..=MAX_WORD_LEN {
        assert!(bucket_is_well_formed(bucket_text_of(len), len));
    }
}

#[test]
fn layout_check_rejects_broken_buckets() {
    assert!(bucket_is_well_formed("abcd", 2));
    assert!(bucket_is_well_formed("", 3));
    assert!(!bucket_is_well_formed("abc", 2));
    assert!(!bucket_is_well_formed("cdab", 2));
    assert!(!bucket_is_well_formed("abab", 2));
    assert!(!bucket_is_well_formed("aBcd", 2));
    assert!(!bucket_is_well_formed("ab", 0));
}

#[test]
fn unsupported_lengths_have_no_words() {
    assert!(word_iterator_by_len(0).is_empty());
    assert!(word_iterator_by_len(1).is_empty());
    assert!(word_iterator_by_len(29).is_empty());
    assert!(word_iterator_by_len(usize::MAX).is_empty());
    assert!(!word_exists("abcdefghijklmnopqrstuvwxyzabc"));
}

#[test]
fn every_listed_word_exists_once() {
    let all = word_iterator();
    assert!(!all.is_empty());
    for w in &all {
        assert!(word_exists(w));
    }
    let mut sorted = all.clone();
    sorted.sort();
    sorted.dedup();
    assert_eq!(sorted.len(), all.len());
    let by_len: usize = (0..=30).map(|l| word_iterator_by_len(l).len()).sum();
    assert_eq!(by_len, all.len());
}

#[test]
fn strings_outside_the_corpus_are_not_words() {
    assert!(!word_exists(""));
    assert!(!word_exists("z"));
    assert!(!word_exists("The"));
    assert!(!word_exists("th e"));
    assert!(!word_exists("thé"));
    assert!(!word_exists("zebras_"));
    assert!(!word_exists("zzzzzz"));
    assert!(word_exists("antidisestablishmentarianism"));
}

#[test]
fn words_of_one_length_come_in_ascending_order() {
    let threes = word_iterator_by_len(3);
    assert!(threes.contains(&"the"));
    for pair in threes.windows(2) {
        assert!(pair[0] < pair[1]);
        assert_eq!(pair[0].len(), 3);
    }
    assert_eq!(word_iterator_by_len(28), vec!["antidisestablishmentarianism"]);
}

#[test]
fn range_holds_exactly_the_words_in_range() {
    let got = word_range("ze", "zf");
    assert!(got.contains(&"zebra"));
    let expected: Vec<&str> = word_iterator()
        .into_iter()
        .filter(|w| "ze" <= *w && *w < "zf")
        .collect();
    assert_eq!(got, expected);
    let wide = word_range("a", "{");
    assert_eq!(wide, word_iterator());
    for w in word_range("m", "p") {
        assert!(word_exists(w));
        assert!("m" <= w && w < "p");
    }
}

#[test]
fn reversed_and_empty_ranges_hold_nothing() {
    assert!(word_range("b", "a").is_empty());
    assert!(word_range("the", "the").is_empty());
    assert!(word_range("zebra", "ab").is_empty());
    assert!(word_range("", "").is_empty());
}

#[test]
fn range_bounds_need_not_be_words() {
    assert_eq!(word_range("zeb", "zec"), vec!["zebra"]);
    assert_eq!(word_range("the", "thea"), vec!["the"]);
    assert_eq!(word_range("ze", "zebra"), Vec::<&str>::new());
    assert_eq!(word_range("than", "thank"), vec!["than"]);
}

#[test]
fn enumerations_repeat() {
    assert_eq!(word_iterator(), word_iterator());
    assert_eq!(word_iterator_by_len(5), word_iterator_by_len(5));
    assert_eq!(word_range("b", "d"), word_range("b", "d"));
}

#[test]
fn scenario_lookups() {
    assert!(word_exists("the"));
    assert!(!word_exists("zzzzzz"));
}

#[test]
fn search_offsets_stay_on_record_boundaries_when_unsorted() {
    let haystack = "zzaamm";
    for needle in ["aa", "mm", "zz", "bb", "a", "zzz", ""] {
        match str_binary_search(haystack, needle, 2) {
            Ok(p) => {
                assert_eq!(p % 2, 0);
                assert!(p < haystack.len());
                assert_eq!(&haystack[p..p + 2], needle);
            }
            Err(p) => {
                assert_eq!(p % 2, 0);
                assert!(p <= haystack.len());
            }
        }
    }
}

#[test]
fn search_past_every_record_ends_at_the_buffer_end() {
    assert_eq!(str_binary_search("cbca", "d", 1), Err(4));
    assert_eq!(str_binary_search("zyxw", "zz", 2), Err(4));
    assert_eq!(str_binary_search("", "a", 3), Err(0));
}
