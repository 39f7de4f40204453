use kokoro_reader::epub::{
    decode_entities, format_of, title_from, BookFormat, EpubParser, ParseError,
};
use kokoro_reader::text::replace_all;

fn chars(text: &str) -> Vec<char> {
    text.chars().collect()
}

fn expected_sections(content: &str) -> Vec<String> {
    let paragraphs: Vec<&str> = content.split("\n\n").collect();
    if paragraphs.len() > 10 {
        let chunk_size = (paragraphs.len() / 10).max(1);
        paragraphs.chunks(chunk_size).map(|chunk| chunk.join("\n\n")).collect()
    } else {
        vec![content.to_string()]
    }
}

#[test]
fn the_ending_decides_the_format() {
    assert_eq!(EpubParser::parse("epub").unwrap(), BookFormat::Epub);
    assert_eq!(EpubParser::parse("EPUB").unwrap(), BookFormat::Epub);
    assert_eq!(EpubParser::parse("txt").unwrap(), BookFormat::Text);
    assert_eq!(EpubParser::parse("Text").unwrap(), BookFormat::Text);
    assert_eq!(format_of("text").unwrap(), BookFormat::Text);
    assert!(format_of("EPUB").is_err());
}

#[test]
fn an_unknown_ending_is_reported_in_lower_case() {
    match EpubParser::parse("PDF") {
        Err(ParseError::UnsupportedFormat(detail)) => {
            assert_eq!(detail, "Unsupported file format: .pdf")
        }
        other => panic!("unexpected outcome {:?}", other),
    }
    match EpubParser::parse("") {
        Err(ParseError::UnsupportedFormat(detail)) => {
            assert_eq!(detail, "Unsupported file format: .")
        }
        other => panic!("unexpected outcome {:?}", other),
    }
}

#[test]
fn parse_errors_say_what_failed() {
    assert_eq!(ParseError::FileError("a".to_string()).message(), "Failed to open file: a");
    assert_eq!(ParseError::EpubError("b".to_string()).message(), "Failed to parse EPUB: b");
    assert_eq!(ParseError::UnsupportedFormat("c".to_string()).message(), "Unsupported format: c");
}

#[test]
fn markup_becomes_plain_text() {
    assert_eq!(EpubParser::html_to_text("<p>Hello <b>world</b></p>"), "Hello world");
    assert_eq!(
        EpubParser::html_to_text("<h1>Title</h1><p>One</p><p>Two</p>"),
        "Title\nOne\nTwo"
    );
    assert_eq!(
        EpubParser::html_to_text("<script>var x = '<p>no</p>';</script><p>yes</p>"),
        "yes"
    );
    assert_eq!(EpubParser::html_to_text("<STYLE type=x>p { a: b }</STYLE>text"), "text");
    assert_eq!(EpubParser::html_to_text("<ul><li>one</li><li>two</li></ul>"), "• one\n• two");
    assert_eq!(EpubParser::html_to_text("a   \t  b"), "a b");
    assert_eq!(EpubParser::html_to_text("a</p></p></p></p>b"), "a\n\nb");
    assert_eq!(EpubParser::html_to_text("   "), "");
    assert_eq!(EpubParser::html_to_text(""), "");
}

#[test]
fn entities_are_written_out() {
    assert_eq!(
        EpubParser::html_to_text("a&nbsp;b &amp; c &lt;d&gt; &quot;e&quot; &#39;f&apos;"),
        "a b & c <d> \"e\" 'f'"
    );
    assert_eq!(EpubParser::html_to_text("&amp;lt;"), "<");
    assert_eq!(EpubParser::html_to_text("&amp;amp;"), "&amp;");
}

#[test]
fn text_is_replaced_from_left_to_right() {
    assert_eq!(replace_all(&chars("aaa"), &chars("aa"), &chars("b")), chars("ba"));
    assert_eq!(replace_all(&chars("abcabc"), &chars("bc"), &chars("")), chars("aa"));
    assert_eq!(replace_all(&chars("abc"), &chars("x"), &chars("y")), chars("abc"));
    assert_eq!(replace_all(&chars("abc"), &chars(""), &chars("y")), chars("abc"));
    assert_eq!(replace_all(&chars(""), &chars("a"), &chars("b")), chars(""));
    assert_eq!(replace_all(&chars("ab"), &chars("abc"), &chars("x")), chars("ab"));
    for (text, from, to) in [("a&amp;b&amp;", "&amp;", "&"), ("xxxx", "xx", "xxx"), ("héllo", "é", "e")]
    {
        assert_eq!(replace_all(&chars(text), &chars(from), &chars(to)), chars(&text.replace(from, to)));
    }
}

#[test]
fn words_carry_their_place_in_bytes() {
    let words = EpubParser::extract_words("Hello, wörld! 42");
    let found: Vec<(&str, usize, usize)> =
        words.iter().map(|w| (w.text.as_str(), w.start_offset, w.end_offset)).collect();
    assert_eq!(found, vec![("Hello", 0, 5), ("wörld", 7, 13), ("42", 15, 17)]);
    assert!(EpubParser::extract_words("... !!!").is_empty());
    assert!(EpubParser::extract_words("").is_empty());
}

#[test]
fn the_first_heading_is_the_title() {
    assert_eq!(
        EpubParser::extract_title("<h2 class=\"t\">  The Beginning </h2><h1>Other</h1>"),
        Some("The Beginning".to_string())
    );
    assert_eq!(EpubParser::extract_title("<H1>Loud</H1>"), Some("Loud".to_string()));
    assert_eq!(EpubParser::extract_title("<h4>Too deep</h4>"), None);
    assert_eq!(EpubParser::extract_title("<p>No heading</p>"), None);
    assert_eq!(EpubParser::extract_title("<h1>   </h1>"), None);
    assert_eq!(EpubParser::extract_title("<h1><b>Nested</b></h1>"), None);
}

#[test]
fn a_title_of_a_hundred_bytes_is_too_long() {
    let ninety_nine = "x".repeat(99);
    let hundred = "x".repeat(100);
    assert_eq!(
        EpubParser::extract_title(&format!("<h1>{}</h1>", ninety_nine)),
        Some(ninety_nine.clone())
    );
    assert_eq!(EpubParser::extract_title(&format!("<h1>{}</h1>", hundred)), None);
    let fifty_umlauts = "ü".repeat(50);
    assert_eq!(EpubParser::extract_title(&format!("<h1>{}</h1>", fifty_umlauts)), None);
    let forty_nine_umlauts = "ü".repeat(49);
    assert_eq!(
        EpubParser::extract_title(&format!("<h1> {} </h1>", forty_nine_umlauts)),
        Some(forty_nine_umlauts)
    );
}

#[test]
fn the_pages_of_a_container_become_chapters() {
    let pages = vec![
        "<h1>Prologue</h1><p>It was a dark night.</p>".to_string(),
        "<div>   </div>".to_string(),
        "<p>No heading here, only words.</p>".to_string(),
        "<script>nothing()</script>".to_string(),
        "<h2>Epilogue</h2><p>The end.</p>".to_string(),
    ];
    let book = EpubParser::parse_epub(
        Some("A Book".to_string()),
        None,
        Some("en".to_string()),
        None,
        &pages,
    );
    assert_eq!(book.metadata.title, "A Book");
    assert_eq!(book.metadata.author, "Unknown Author");
    assert_eq!(book.metadata.language, Some("en".to_string()));
    assert_eq!(book.metadata.description, None);
    assert_eq!(book.metadata.cover_path, None);
    assert_eq!(book.chapters.len(), 3);
    assert_eq!(book.chapters[0].index, 0);
    assert_eq!(book.chapters[0].title, "Prologue");
    assert_eq!(book.chapters[0].content, "Prologue\nIt was a dark night.");
    assert_eq!(book.chapters[0].words.len(), 6);
    assert_eq!(book.chapters[1].index, 1);
    assert_eq!(book.chapters[1].title, "Chapter 2");
    assert_eq!(book.chapters[1].content, "No heading here, only words.");
    assert_eq!(book.chapters[1].words.len(), 5);
    assert_eq!(book.chapters[2].index, 2);
    assert_eq!(book.chapters[2].title, "Epilogue");
    assert_eq!(book.chapters[2].words.len(), 3);
    assert_eq!(book.total_words, 14);
}

#[test]
fn a_container_without_pages_is_an_empty_book() {
    let book = EpubParser::parse_epub(None, Some("Someone".to_string()), None, None, &vec![]);
    assert_eq!(book.metadata.title, "Unknown Title");
    assert_eq!(book.metadata.author, "Someone");
    assert!(book.chapters.is_empty());
    assert_eq!(book.total_words, 0);
}

#[test]
fn chapters_without_title_are_numbered_in_decimal() {
    let pages: Vec<String> = (0..12).map(|i| format!("<p>page {}</p>", i)).collect();
    let book = EpubParser::parse_epub(None, None, None, None, &pages);
    let titles: Vec<&str> = book.chapters.iter().map(|c| c.title.as_str()).collect();
    assert_eq!(
        titles,
        vec![
            "Chapter 1", "Chapter 2", "Chapter 3", "Chapter 4", "Chapter 5", "Chapter 6",
            "Chapter 7", "Chapter 8", "Chapter 9", "Chapter 10", "Chapter 11", "Chapter 12"
        ]
    );
    assert_eq!(book.total_words, 24);
}

#[test]
fn a_short_text_is_one_chapter_named_after_its_file() {
    let book = EpubParser::parse_text("notes.txt", "One.\n\nTwo.\n\nThree words here.");
    assert_eq!(book.metadata.title, "notes.txt");
    assert_eq!(book.metadata.author, "Unknown");
    assert_eq!(book.metadata.language, None);
    assert_eq!(book.chapters.len(), 1);
    assert_eq!(book.chapters[0].index, 0);
    assert_eq!(book.chapters[0].title, "notes.txt");
    assert_eq!(book.chapters[0].content, "One.\n\nTwo.\n\nThree words here.");
    assert_eq!(book.chapters[0].words.len(), 5);
    assert_eq!(book.total_words, 5);
}

#[test]
fn a_long_text_is_cut_into_sections() {
    let paragraphs: Vec<String> = (0..25).map(|i| format!("Paragraph number {}.", i)).collect();
    let content = paragraphs.join("\n\n");
    let book = EpubParser::parse_text("long.txt", &content);
    assert_eq!(book.chapters.len(), 13);
    assert_eq!(book.chapters[0].title, "Section 1");
    assert_eq!(book.chapters[0].content, "Paragraph number 0.\n\nParagraph number 1.");
    assert_eq!(book.chapters[0].words.len(), 6);
    assert_eq!(book.chapters[11].title, "Section 12");
    assert_eq!(book.chapters[12].index, 12);
    assert_eq!(book.chapters[12].title, "Section 13");
    assert_eq!(book.chapters[12].content, "Paragraph number 24.");
    assert_eq!(book.total_words, 75);
}

#[test]
fn sections_agree_with_splitting_and_joining() {
    let mut texts = vec![
        String::new(),
        "\n\n".to_string(),
        "a\n\n\nb".to_string(),
        "\n\n\n\n\n\n\n\n\n\n\n\n\n\n\n\n\n\n\n\n\n\n\n".to_string(),
        "x\n\n".repeat(10),
        "x\n\n".repeat(11),
        "ü\n\ny\n".repeat(37),
    ];
    for count in [10, 11, 12, 19, 20, 21, 29, 30, 99, 100, 101] {
        texts.push((0..count).map(|i| format!("p{}", i)).collect::<Vec<_>>().join("\n\n"));
    }
    for text in texts {
        let book = EpubParser::parse_text("f", &text);
        let contents: Vec<String> = book.chapters.iter().map(|c| c.content.clone()).collect();
        assert_eq!(contents, expected_sections(&text), "text {:?}", text);
        for (i, chapter) in book.chapters.iter().enumerate() {
            assert_eq!(chapter.index, i);
        }
    }
}

#[test]
fn a_heading_makes_a_title_if_it_is_short_and_not_blank() {
    assert_eq!(title_from("  The Beginning \n"), Some("The Beginning".to_string()));
    assert_eq!(title_from("x"), Some("x".to_string()));
    assert_eq!(title_from(""), None);
    assert_eq!(title_from(" \t\u{a0} "), None);
    assert_eq!(title_from(&"x".repeat(99)), Some("x".repeat(99)));
    assert_eq!(title_from(&"x".repeat(100)), None);
    assert_eq!(title_from(&format!("  {}  ", "x".repeat(99))), Some("x".repeat(99)));
    assert_eq!(title_from(&"ü".repeat(49)), Some("ü".repeat(49)));
    assert_eq!(title_from(&"ü".repeat(50)), None);
    assert_eq!(title_from(&format!("{}日", "x".repeat(96))), Some(format!("{}日", "x".repeat(96))));
    assert_eq!(title_from(&format!("{}日", "x".repeat(97))), None);
}

#[test]
fn entities_are_decoded_one_kind_after_another() {
    assert_eq!(decode_entities("&lt;p&gt; &amp; &quot;x&quot;"), "<p> & \"x\"");
    assert_eq!(decode_entities("&amp;nbsp;"), "&nbsp;");
    assert_eq!(decode_entities("&amp;lt;&nbsp;"), "< ");
    assert_eq!(decode_entities("&#39;&apos;&#39"), "''&#39");
    assert_eq!(decode_entities("plain"), "plain");
    assert_eq!(decode_entities(""), "");
}
