use mg_settings::string::{words, Word};

#[test]
fn test_words() {
    let word1 = Word {
        index: 0,
        word: "hello",
    };
    let word2 = Word {
        index: 6,
        word: "world",
    };
    assert_eq!(Some(vec![word1, word2]), words("hello world", 2));

    assert_eq!(None, words("hello", 2));

    let word1 = Word {
        index: 0,
        word: "hello",
    };
    let word2 = Word {
        index: 6,
        word: "the",
    };
    assert_eq!(Some(vec![word1, word2]), words("hello the world", 2));

    let word1 = Word {
        index: 1,
        word: "hello",
    };
    let word2 = Word {
        index: 7,
        word: "world",
    };
    assert_eq!(Some(vec![word1, word2]), words(" hello world ", 2));

    let word1 = Word {
        index: 1,
        word: "hello",
    };
    let word2 = Word {
        index: 8,
        word: "world",
    };
    assert_eq!(Some(vec![word1, word2]), words(" hello  world ", 2));
}
