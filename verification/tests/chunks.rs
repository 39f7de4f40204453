use kokoro_reader::chatterbox::split_into_chunks;
use kokoro_reader::kokoro::KokoroTTS;
use kokoro_reader::text::{
    byte_length, char_width, chars_of, found_at, glue, glue3, is_blank, is_space_char, same_text,
    suffix_start, text_of, trim_bounds,
};

fn expected_chunks(text: &str, max_chars: usize) -> Vec<String> {
    let mut chunks = Vec::new();
    let sentences: Vec<&str> = text.split_inclusive(&['.', '!', '?'][..]).collect();
    let mut current_chunk = String::new();
    for sentence in sentences {
        if current_chunk.len() + sentence.len() > max_chars && !current_chunk.is_empty() {
            chunks.push(current_chunk.trim().to_string());
            current_chunk = sentence.to_string();
        } else {
            current_chunk.push_str(sentence);
        }
    }
    if !current_chunk.trim().is_empty() {
        chunks.push(current_chunk.trim().to_string());
    }
    chunks
}

#[test]
fn sentences_are_packed_up_to_the_limit() {
    assert_eq!(
        split_into_chunks("One. Two! Three? Four.", 10),
        vec!["One. Two!", "Three?", "Four."]
    );
    assert_eq!(split_into_chunks("One. Two! Three? Four.", 100), vec!["One. Two! Three? Four."]);
    assert_eq!(
        split_into_chunks("One. Two! Three? Four.", 0),
        vec!["One.", "Two!", "Three?", "Four."]
    );
}

#[test]
fn a_sentence_longer_than_the_limit_gets_its_own_chunk() {
    assert_eq!(
        split_into_chunks("Hi. This sentence is much too long for the limit. Ok.", 8),
        vec!["Hi.", "This sentence is much too long for the limit.", "Ok."]
    );
}

#[test]
fn text_without_end_of_sentence_is_one_chunk() {
    assert_eq!(split_into_chunks("  no full stop here  ", 5), vec!["no full stop here"]);
}

#[test]
fn blank_text_gives_no_chunk() {
    assert_eq!(split_into_chunks("", 10), Vec::<String>::new());
    assert_eq!(split_into_chunks("   \n\t ", 10), Vec::<String>::new());
}

#[test]
fn a_chunk_of_white_space_in_the_middle_is_kept_empty() {
    assert_eq!(split_into_chunks("   . A.", 3), expected_chunks("   . A.", 3));
    assert_eq!(split_into_chunks(" .!?", 1), vec![".", "!", "?"]);
    assert_eq!(split_into_chunks("  ", 1), Vec::<String>::new());
    assert_eq!(split_into_chunks("   a.", 2), expected_chunks("   a.", 2));
    assert_eq!(split_into_chunks("\u{a0}\u{a0}\u{a0}. b.", 4), vec![".", "b."]);
}

#[test]
fn the_limit_counts_bytes() {
    let text = "Ünïcödé tëxt. Zwei. Drei!";
    assert_eq!(split_into_chunks(text, 18), vec!["Ünïcödé tëxt.", "Zwei. Drei!"]);
    assert_eq!(split_into_chunks(text, 24), vec!["Ünïcödé tëxt. Zwei.", "Drei!"]);
    assert_eq!(split_into_chunks("日本語。これ. それ.", 12), expected_chunks("日本語。これ. それ.", 12));
}

#[test]
fn chunks_agree_with_the_plain_algorithm() {
    let texts = [
        "",
        ".",
        "...",
        "a",
        "a.b!c?d",
        "Hello world. How are you? I am fine! Thanks",
        "  Leading. Trailing.   ",
        "\u{2003}em space. \u{3000}ideographic.\u{85}",
        "No terminator at all but quite some text in here",
        "Mixed 😀 emoji. More 😀😀! End?",
        "One.\n\nTwo.\r\nThree.\tFour.",
    ];
    for text in texts {
        for max_chars in [0, 1, 2, 3, 5, 8, 13, 21, 34, 1000] {
            assert_eq!(
                split_into_chunks(text, max_chars),
                expected_chunks(text, max_chars),
                "text {:?} limit {}",
                text,
                max_chars
            );
        }
    }
}

#[test]
fn kokoro_cuts_text_in_the_same_way() {
    let text = "Hello world. How are you? I am fine! Thanks";
    assert_eq!(KokoroTTS::split_into_chunks(text, 20), split_into_chunks(text, 20));
    assert_eq!(
        KokoroTTS::split_into_chunks(text, 20),
        vec!["Hello world.", "How are you?", "I am fine! Thanks"]
    );
}

#[test]
fn white_space_is_what_unicode_says() {
    for code in 0..=0x3100u32 {
        if let Some(c) = char::from_u32(code) {
            assert_eq!(is_space_char(c), c.is_whitespace(), "code point {:x}", code);
        }
    }
    assert!(!is_space_char('\u{200b}'));
    assert!(!is_space_char('\u{feff}'));
    assert!(!is_space_char('\u{10ffff}'));
}

#[test]
fn widths_are_those_of_utf8() {
    for c in ['a', '\u{7f}', '\u{80}', 'é', '\u{7ff}', '\u{800}', '日', '\u{ffff}', '\u{10000}', '😀']
    {
        assert_eq!(char_width(c), c.len_utf8());
    }
}

#[test]
fn trimming_finds_the_bounds_of_the_text() {
    let chars: Vec<char> = "  \t hello world \n".chars().collect();
    assert_eq!(trim_bounds(&chars), (4, 15));
    let blank: Vec<char> = " \u{a0}\n".chars().collect();
    let (from, to) = trim_bounds(&blank);
    assert_eq!(from, to);
    assert_eq!(trim_bounds(&vec![]), (0, 0));
    assert_eq!(trim_bounds(&vec!['x']), (0, 1));
    assert_eq!(trim_bounds(&vec![' ', 'x']), (1, 2));
    assert_eq!(trim_bounds(&vec!['x', ' ']), (0, 1));
}

#[test]
fn blank_text_is_recognised() {
    assert!(is_blank(""));
    assert!(is_blank("  \n\t\u{3000}"));
    assert!(!is_blank("  x  "));
    assert!(!is_blank("\u{200b}"));
}

#[test]
fn text_helpers_join_and_compare() {
    assert_eq!(glue("ab", "cd"), "abcd");
    assert_eq!(glue("", ""), "");
    assert_eq!(glue3("a", "/", "b"), "a/b");
    assert!(same_text("abc", "abc"));
    assert!(!same_text("abc", "abd"));
    assert!(!same_text("abc", "ab"));
    assert_eq!(chars_of("héllo"), vec!['h', 'é', 'l', 'l', 'o']);
    assert_eq!(chars_of(""), Vec::<char>::new());
}

#[test]
fn a_part_of_the_characters_becomes_text() {
    let chars: Vec<char> = "héllo wörld".chars().collect();
    assert_eq!(text_of(&chars, 0, 5), "héllo");
    assert_eq!(text_of(&chars, 6, 11), "wörld");
    assert_eq!(text_of(&chars, 3, 3), "");
    assert_eq!(text_of(&chars, 0, chars.len()), "héllo wörld");
}

#[test]
fn lengths_are_counted_in_bytes() {
    let chars: Vec<char> = "aé日😀".chars().collect();
    assert_eq!(byte_length(&chars, 0, 4), 10);
    assert_eq!(byte_length(&chars, 1, 3), 5);
    assert_eq!(byte_length(&chars, 2, 2), 0);
}

#[test]
fn a_pattern_is_found_where_it_stands() {
    let chars: Vec<char> = "abcabc".chars().collect();
    let pattern: Vec<char> = "bc".chars().collect();
    assert!(found_at(&chars, 1, &pattern));
    assert!(found_at(&chars, 4, &pattern));
    assert!(!found_at(&chars, 0, &pattern));
    assert!(!found_at(&chars, 5, &pattern));
    assert!(!found_at(&chars, 6, &pattern));
    assert!(found_at(&chars, 6, &vec![]));
}

#[test]
fn a_suffix_is_taken_off_as_often_as_it_stands() {
    let suffix: Vec<char> = "ab".chars().collect();
    for (text, end) in [("xabab", 1), ("abab", 0), ("xaba", 4), ("", 0), ("b", 1), ("xab", 1)] {
        let chars: Vec<char> = text.chars().collect();
        assert_eq!(suffix_start(&chars, &suffix), end, "text {:?}", text);
    }
    let chars: Vec<char> = "abc".chars().collect();
    assert_eq!(suffix_start(&chars, &vec![]), 3);
}
