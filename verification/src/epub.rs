//! Books: what a parsed book holds, which formats are read, and how the
//! markup of a page becomes plain text with its words and its title.
//!
//! Reading files and unpacking EPUB containers are outside this library.
//! The caller hands over the text of each page; the patterns that take the
//! markup apart are matched by the `regex` crate.

use crate::text::{
    blank, byte_len, byte_length, chars_of, found_at, glue, is_blank, replace_all, replaced,
    same_text, stands_at, text_of, trim, trim_bounds,
};
use vstd::prelude::*;
use vstd::string::*;

verus! {

/// What can go wrong when a book is read.
#[derive(Debug)]
pub enum ParseError {
    FileError(String),
    EpubError(String),
    UnsupportedFormat(String),
}

impl ParseError {
    /// The message of the error.
    pub open spec fn text(&self) -> Seq<char> {
        match self {
            ParseError::FileError(detail) => "Failed to open file: "@ + detail@,
            ParseError::EpubError(detail) => "Failed to parse EPUB: "@ + detail@,
            ParseError::UnsupportedFormat(detail) => "Unsupported format: "@ + detail@,
        }
    }

    /// The message of the error.
    pub fn message(&self) -> (message: String)
        ensures
            message@ == self.text(),
    {
        match self {
            ParseError::FileError(detail) => glue("Failed to open file: ", detail.as_str()),
            ParseError::EpubError(detail) => glue("Failed to parse EPUB: ", detail.as_str()),
            ParseError::UnsupportedFormat(detail) => glue("Unsupported format: ", detail.as_str()),
        }
    }
}

/// What is known about a book.
#[derive(Debug, Clone)]
pub struct BookMetadata {
    pub title: String,
    pub author: String,
    pub language: Option<String>,
    pub description: Option<String>,
    pub cover_path: Option<String>,
}

/// A word and where it stands in its chapter, in bytes.
#[derive(Debug, Clone)]
pub struct Word {
    pub text: String,
    pub start_offset: usize,
    pub end_offset: usize,
}

/// A word as plain values.
pub struct WordView {
    pub text: Seq<char>,
    pub start_offset: usize,
    pub end_offset: usize,
}

impl View for Word {
    type V = WordView;

    open spec fn view(&self) -> WordView {
        WordView { text: self.text@, start_offset: self.start_offset, end_offset: self.end_offset }
    }
}

impl DeepView for Word {
    type V = WordView;

    open spec fn deep_view(&self) -> WordView {
        self@
    }
}

/// A chapter: its place in the book, its title, its text, and the words of
/// the text.
#[derive(Debug, Clone)]
pub struct Chapter {
    pub index: usize,
    pub title: String,
    pub content: String,
    pub words: Vec<Word>,
}

/// A chapter as plain values.
pub struct ChapterView {
    pub index: usize,
    pub title: Seq<char>,
    pub content: Seq<char>,
    pub words: Seq<WordView>,
}

impl View for Chapter {
    type V = ChapterView;

    open spec fn view(&self) -> ChapterView {
        ChapterView {
            index: self.index,
            title: self.title@,
            content: self.content@,
            words: self.words.deep_view(),
        }
    }
}

impl DeepView for Chapter {
    type V = ChapterView;

    open spec fn deep_view(&self) -> ChapterView {
        self@
    }
}

/// A book.
#[derive(Debug, Clone)]
pub struct Book {
    pub metadata: BookMetadata,
    pub chapters: Vec<Chapter>,
    pub total_words: usize,
}

/// The formats that are read.
#[derive(Clone, Copy, Debug, PartialEq, Eq, Structural)]
pub enum BookFormat {
    Epub,
    Text,
}

/// `text` in lower case, as Unicode has it.
pub uninterp spec fn lowercase(text: Seq<char>) -> Seq<char>;

/// `str::to_lowercase`: `text` in lower case.
#[verifier::external_body]
fn to_lowercase(text: &str) -> (lower: String)
    ensures
        lower@ == lowercase(text@),
{
    text.to_lowercase()
}

/// The format that the ending `lower` of a file name stands for, once it
/// is in lower case.
pub open spec fn format_named(lower: Seq<char>) -> Option<BookFormat> {
    if lower == "epub"@ {
        Some(BookFormat::Epub)
    } else if lower == "txt"@ || lower == "text"@ {
        Some(BookFormat::Text)
    } else {
        None
    }
}

/// The format that `lower` stands for, or the complaint about it.
pub fn format_of(lower: &str) -> (format: Result<BookFormat, ParseError>)
    ensures
        format is Ok <==> format_named(lower@) is Some,
        format matches Ok(f) ==> format_named(lower@) == Some(f),
        format matches Err(error) ==> (error matches ParseError::UnsupportedFormat(detail)
            && detail@ == "Unsupported file format: ."@ + lower@),
{
    if same_text(lower, "epub") {
        Ok(BookFormat::Epub)
    } else if same_text(lower, "txt") || same_text(lower, "text") {
        Ok(BookFormat::Text)
    } else {
        Err(ParseError::UnsupportedFormat(glue("Unsupported file format: .", lower)))
    }
}

/// Reads books.
pub struct EpubParser;

impl EpubParser {
    /// The format in which a file with the ending `extension` is read:
    /// the ending decides, whatever its case. A file without ending has the
    /// empty one.
    pub fn parse(extension: &str) -> (format: Result<BookFormat, ParseError>)
        ensures
            format is Ok <==> format_named(lowercase(extension@)) is Some,
            format matches Ok(f) ==> format_named(lowercase(extension@)) == Some(f),
            format matches Err(error) ==> (error matches ParseError::UnsupportedFormat(detail)
                && detail@ == "Unsupported file format: ."@ + lowercase(extension@)),
    {
        let lower = to_lowercase(extension);
        format_of(lower.as_str())
    }
}

/// What the `regex` crate makes of `text` when every match of `pattern` is
/// replaced by `replacement`; nothing where `pattern` is no pattern.
pub uninterp spec fn regex_replaced(pattern: Seq<char>, text: Seq<char>, replacement: Seq<char>)
    -> Option<Seq<char>>;

/// The matches of `pattern` in `text` as the `regex` crate finds them, one
/// after another: where each begins and ends, in bytes, and what it holds;
/// nothing where `pattern` is no pattern.
pub uninterp spec fn regex_matches(pattern: Seq<char>, text: Seq<char>) -> Option<Seq<WordView>>;

/// What the first group of `pattern` holds in the first match in `text`,
/// as the `regex` crate finds it: nothing where `pattern` is no pattern,
/// and nothing inside where there is no match or the group took no part.
pub uninterp spec fn regex_group(pattern: Seq<char>, text: Seq<char>) -> Option<Option<Seq<char>>>;

/// `regex::Regex::new` and `Regex::replace_all`: `text` with every match of
/// `pattern` replaced by `replacement`.
#[verifier::external_body]
fn regex_replace_all(pattern: &str, text: &str, replacement: &str) -> (out: Option<String>)
    ensures
        plain_text(out) == regex_replaced(pattern@, text@, replacement@),
{
    match regex::Regex::new(pattern) {
        Ok(re) => Some(re.replace_all(text, replacement).into_owned()),
        Err(_) => None,
    }
}

/// `regex::Regex::new` and `Regex::find_iter`: the matches of `pattern` in
/// `text`, each with its bounds and its text.
#[verifier::external_body]
fn regex_find_all(pattern: &str, text: &str) -> (found: Option<Vec<Word>>)
    ensures
        plain_words(found) == regex_matches(pattern@, text@),
{
    match regex::Regex::new(pattern) {
        Ok(re) => Some(
            re.find_iter(text).map(
                |m| Word { text: m.as_str().to_string(), start_offset: m.start(), end_offset: m.end() },
            ).collect(),
        ),
        Err(_) => None,
    }
}

/// `regex::Regex::new`, `Regex::captures` and `Captures::get`: what the
/// first group of `pattern` holds in the first match in `text`.
#[verifier::external_body]
fn regex_first_group(pattern: &str, text: &str) -> (group: Option<Option<String>>)
    ensures
        plain_group(group) == regex_group(pattern@, text@),
{
    match regex::Regex::new(pattern) {
        Ok(re) => Some(re.captures(text).and_then(|c| c.get(1)).map(|m| m.as_str().to_string())),
        Err(_) => None,
    }
}

/// A text that may be missing, as plain values.
pub open spec fn plain_text(text: Option<String>) -> Option<Seq<char>> {
    match text {
        Some(t) => Some(t@),
        None => None,
    }
}

/// Words that may be missing, as plain values.
pub open spec fn plain_words(words: Option<Vec<Word>>) -> Option<Seq<WordView>> {
    match words {
        Some(list) => Some(list.deep_view()),
        None => None,
    }
}

/// A group that may be missing, as plain values.
pub open spec fn plain_group(group: Option<Option<String>>) -> Option<Option<Seq<char>>> {
    match group {
        Some(inner) => Some(plain_text(inner)),
        None => None,
    }
}

/// `text` after the matches of `pattern` were replaced; `text` itself
/// where `pattern` is no pattern.
pub open spec fn swept(pattern: Seq<char>, text: Seq<char>, replacement: Seq<char>) -> Seq<char> {
    match regex_replaced(pattern, text, replacement) {
        Some(out) => out,
        None => text,
    }
}

/// `text` with the seven entities of markup written out.
pub open spec fn entities_decoded(text: Seq<char>) -> Seq<char> {
    replaced(
        replaced(
            replaced(
                replaced(
                    replaced(
                        replaced(replaced(text, "&nbsp;"@, " "@), "&amp;"@, "&"@),
                        "&lt;"@,
                        "<"@,
                    ),
                    "&gt;"@,
                    ">"@,
                ),
                "&quot;"@,
                "\""@,
            ),
            "&#39;"@,
            "'"@,
        ),
        "&apos;"@,
        "'"@,
    )
}

/// The markup `html` without its scripts, styles and tags.
pub open spec fn stripped(html: Seq<char>) -> Seq<char> {
    swept(
        "<[^>]+>"@,
        swept(
            "(?i)<li[^>]*>"@,
            swept(
                "(?i)</(p|div|h[1-6]|li|br|tr)>"@,
                swept(
                    "(?is)<style[^>]*>.*?</style>"@,
                    swept("(?is)<script[^>]*>.*?</script>"@, html, ""@),
                    ""@,
                ),
                "\n"@,
            ),
            "• "@,
        ),
        ""@,
    )
}

/// The plain text of the markup `html`: scripts and styles go with what
/// they hold, the end of a block becomes a line break, a list item gets
/// its bullet, all other tags go, entities are written out, runs of blanks
/// and tabs become one blank, three or more line breaks become two, and
/// white space at the ends goes.
pub open spec fn text_of_html(html: Seq<char>) -> Seq<char> {
    trim(swept("\\n{3,}"@, swept("[ \\t]+"@, entities_decoded(stripped(html)), " "@), "\n\n"@))
}

fn sweep(pattern: &str, text: String, replacement: &str) -> (out: String)
    ensures
        out@ == swept(pattern@, text@, replacement@),
{
    match regex_replace_all(pattern, text.as_str(), replacement) {
        Some(out) => out,
        None => text,
    }
}

fn decode_entity(chars: Vec<char>, entity: &str, plain: &str) -> (out: Vec<char>)
    ensures
        out@ == replaced(chars@, entity@, plain@),
{
    replace_all(&chars, &chars_of(entity), &chars_of(plain))
}

/// `text` with the seven entities of markup written out, one kind after
/// another: the blank, the ampersand, the two angle brackets, the quotation
/// mark, and the apostrophe in both its forms.
pub fn decode_entities(text: &str) -> (decoded: String)
    ensures
        decoded@ == entities_decoded(text@),
{
    let chars = chars_of(text);
    let chars = decode_entity(chars, "&nbsp;", " ");
    let chars = decode_entity(chars, "&amp;", "&");
    let chars = decode_entity(chars, "&lt;", "<");
    let chars = decode_entity(chars, "&gt;", ">");
    let chars = decode_entity(chars, "&quot;", "\"");
    let chars = decode_entity(chars, "&#39;", "'");
    let chars = decode_entity(chars, "&apos;", "'");
    let decoded = text_of(&chars, 0, chars.len());
    assert(chars@.subrange(0, chars@.len() as int) =~= chars@);
    decoded
}

impl EpubParser {
    /// The plain text of the markup `html`.
    pub fn html_to_text(html: &str) -> (text: String)
        ensures
            text@ == text_of_html(html@),
    {
        let text = sweep("(?is)<script[^>]*>.*?</script>", String::from_str(html), "");
        let text = sweep("(?is)<style[^>]*>.*?</style>", text, "");
        let text = sweep("(?i)</(p|div|h[1-6]|li|br|tr)>", text, "\n");
        let text = sweep("(?i)<li[^>]*>", text, "• ");
        let text = sweep("<[^>]+>", text, "");
        let text = decode_entities(text.as_str());
        let text = sweep("[ \\t]+", text, " ");
        let text = sweep("\\n{3,}", text, "\n\n");
        let chars = chars_of(text.as_str());
        let (from, to) = trim_bounds(&chars);
        text_of(&chars, from, to)
    }

    /// The words of `text`, each with its place.
    pub fn extract_words(text: &str) -> (words: Vec<Word>)
        ensures
            words.deep_view() == words_of(text@),
    {
        match regex_find_all("\\b\\w+\\b", text) {
            Some(words) => words,
            None => {
                let none: Vec<Word> = Vec::new();
                assert(none.deep_view() =~= Seq::<WordView>::empty());
                none
            },
        }
    }

    /// The title of a page: what its first heading of the first three
    /// levels holds, if that makes a title.
    pub fn extract_title(html: &str) -> (title: Option<String>)
        ensures
            plain_text(title) == title_of(html@),
    {
        match regex_first_group("(?is)<h[1-3][^>]*>([^<]+)</h[1-3]>", html) {
            Some(Some(heading)) => title_from(heading.as_str()),
            _ => None,
        }
    }
}

/// The title that the heading `heading` makes: the heading without the
/// white space at its ends, if that is not empty and shorter than a
/// hundred bytes.
pub open spec fn title_in(heading: Seq<char>) -> Option<Seq<char>> {
    if !blank(heading) && byte_len(trim(heading)) < 100 {
        Some(trim(heading))
    } else {
        None
    }
}

/// The title that the heading `heading` makes, if it makes one.
pub fn title_from(heading: &str) -> (title: Option<String>)
    ensures
        plain_text(title) == (if !blank(heading@) && byte_len(trim(heading@)) < 100 {
            Some(trim(heading@))
        } else {
            None
        }),
{
    let chars = chars_of(heading);
    let (from, to) = trim_bounds(&chars);
    if from != to && byte_length(&chars, from, to) < 100 {
        Some(text_of(&chars, from, to))
    } else {
        None
    }
}

/// The words of `text`: the matches of a run of word characters between
/// word boundaries.
pub open spec fn words_of(text: Seq<char>) -> Seq<WordView> {
    match regex_matches("\\b\\w+\\b"@, text) {
        Some(words) => words,
        None => Seq::empty(),
    }
}

/// The title of the page `html`, if it has one that can be used.
pub open spec fn title_of(html: Seq<char>) -> Option<Seq<char>> {
    match regex_group("(?is)<h[1-3][^>]*>([^<]+)</h[1-3]>"@, html) {
        Some(Some(heading)) => title_in(heading),
        _ => None,
    }
}

/// The digit `d` as a character.
pub open spec fn digit(d: nat) -> char {
    if d == 0 {
        '0'
    } else if d == 1 {
        '1'
    } else if d == 2 {
        '2'
    } else if d == 3 {
        '3'
    } else if d == 4 {
        '4'
    } else if d == 5 {
        '5'
    } else if d == 6 {
        '6'
    } else if d == 7 {
        '7'
    } else if d == 8 {
        '8'
    } else {
        '9'
    }
}

/// The number `n` in decimal digits.
pub open spec fn decimal(n: nat) -> Seq<char>
    decreases n,
{
    if n < 10 {
        seq![digit(n)]
    } else {
        decimal(n / 10).push(digit(n % 10))
    }
}

fn digit_char(d: u8) -> (c: char)
    requires
        d < 10,
    ensures
        c == digit(d as nat),
{
    if d == 0 {
        '0'
    } else if d == 1 {
        '1'
    } else if d == 2 {
        '2'
    } else if d == 3 {
        '3'
    } else if d == 4 {
        '4'
    } else if d == 5 {
        '5'
    } else if d == 6 {
        '6'
    } else if d == 7 {
        '7'
    } else if d == 8 {
        '8'
    } else {
        '9'
    }
}

fn push_decimal(out: &mut Vec<char>, n: u128)
    ensures
        final(out)@ == old(out)@ + decimal(n as nat),
    decreases n,
{
    if n >= 10 {
        push_decimal(out, n / 10);
    }
    out.push(digit_char((n % 10) as u8));
    assert(out@ =~= old(out)@ + decimal(n as nat));
}

/// `label`, a blank, and the number `n`.
pub open spec fn numbered(label: Seq<char>, n: nat) -> Seq<char> {
    label + " "@ + decimal(n)
}

fn numbered_title(label: &str, n: u128) -> (title: String)
    ensures
        title@ == numbered(label@, n as nat),
{
    let mut chars = chars_of(label);
    let ghost head = chars@;
    chars.push(' ');
    proof {
        reveal_strlit(" ");
        assert(chars@ =~= head + " "@);
    }
    push_decimal(&mut chars, n);
    let title = text_of(&chars, 0, chars.len());
    assert(chars@.subrange(0, chars@.len() as int) =~= chars@);
    title
}

/// `total`, or the largest count where it is larger.
pub open spec fn capped(total: nat) -> usize {
    if total <= usize::MAX {
        total as usize
    } else {
        usize::MAX
    }
}

/// The chapters gathered so far from the pages of a book, and the number
/// of their words.
pub struct Gathered {
    pub chapters: Seq<ChapterView>,
    pub words: nat,
}

/// What is gathered after one more page. A page without text is passed
/// over. A page without a title of its own is called a chapter and
/// numbered by its place among the chapters.
pub open spec fn with_page(so_far: Gathered, html: Seq<char>) -> Gathered {
    let content = text_of_html(html);
    if blank(content) {
        so_far
    } else {
        Gathered {
            chapters: so_far.chapters.push(
                ChapterView {
                    index: so_far.chapters.len() as usize,
                    title: match title_of(html) {
                        Some(title) => title,
                        None => numbered("Chapter"@, so_far.chapters.len() + 1),
                    },
                    content,
                    words: words_of(content),
                },
            ),
            words: so_far.words + words_of(content).len(),
        }
    }
}

/// What is gathered from `pages`, first to last.
pub open spec fn gathered_from(pages: Seq<Seq<char>>) -> Gathered
    decreases pages.len(),
{
    if pages.len() == 0 {
        Gathered { chapters: Seq::empty(), words: 0 }
    } else {
        with_page(gathered_from(pages.drop_last()), pages.last())
    }
}

/// `text`, or `fallback` where there is none.
pub open spec fn or_else(text: Option<String>, fallback: Seq<char>) -> Seq<char> {
    match text {
        Some(t) => t@,
        None => fallback,
    }
}

fn text_or(text: Option<String>, fallback: &str) -> (chosen: String)
    ensures
        chosen@ == or_else(text, fallback@),
{
    match text {
        Some(t) => t,
        None => String::from_str(fallback),
    }
}

impl EpubParser {
    /// The book made of the pages of an EPUB container, in reading order,
    /// and of what the container says about the book. `pages` holds the
    /// markup of each page that could be read.
    pub fn parse_epub(
        title: Option<String>,
        creator: Option<String>,
        language: Option<String>,
        description: Option<String>,
        pages: &Vec<String>,
    ) -> (book: Book)
        ensures
            book.metadata.title@ == or_else(title, "Unknown Title"@),
            book.metadata.author@ == or_else(creator, "Unknown Author"@),
            book.metadata.language == language,
            book.metadata.description == description,
            book.metadata.cover_path is None,
            book.chapters.deep_view() == gathered_from(pages.deep_view()).chapters,
            book.total_words == capped(gathered_from(pages.deep_view()).words),
    {
        let mut chapters: Vec<Chapter> = Vec::new();
        let mut total_words: usize = 0;
        let mut i: usize = 0;
        assert(pages.deep_view().take(0) =~= Seq::<Seq<char>>::empty());
        assert(chapters.deep_view() =~= Seq::<ChapterView>::empty());
        while i < pages.len()
            invariant
                i <= pages.len(),
                chapters.deep_view() == gathered_from(pages.deep_view().take(i as int)).chapters,
                total_words == capped(gathered_from(pages.deep_view().take(i as int)).words),
            decreases pages.len() - i,
        {
            let html = pages[i].as_str();
            let ghost before = gathered_from(pages.deep_view().take(i as int));
            let ghost held = chapters.deep_view();
            proof {
                let next = pages.deep_view().take(i + 1);
                assert(next.drop_last() =~= pages.deep_view().take(i as int));
                assert(next.last() == html@);
            }
            let content = Self::html_to_text(html);
            if !is_blank(content.as_str()) {
                let words = Self::extract_words(content.as_str());
                let count = words.len();
                total_words = if count <= usize::MAX - total_words {
                    total_words + count
                } else {
                    usize::MAX
                };
                let place = chapters.len();
                let title = match Self::extract_title(html) {
                    Some(title) => title,
                    None => numbered_title("Chapter", place as u128 + 1),
                };
                chapters.push(Chapter { index: place, title, content, words });
                assert(chapters.deep_view() =~= with_page(before, html@).chapters);
            }
            i = i + 1;
        }
        assert(pages.deep_view().take(pages.len() as int) =~= pages.deep_view());
        Book {
            metadata: BookMetadata {
                title: text_or(title, "Unknown Title"),
                author: text_or(creator, "Unknown Author"),
                language,
                description,
                cover_path: None,
            },
            chapters,
            total_words,
        }
    }
}

/// What parts two paragraphs: two line breaks in a row.
pub open spec fn empty_line() -> Seq<char> {
    seq!['\n', '\n']
}

/// Where paragraphs are parted: the places at or after `at` where an empty
/// line stands, found from left to right, each two characters long.
pub open spec fn breaks(text: Seq<char>, at: int) -> Seq<int>
    decreases text.len() - at,
{
    if at < 0 || at >= text.len() {
        Seq::empty()
    } else if stands_at(text, at, empty_line()) {
        seq![at] + breaks(text, at + 2)
    } else {
        breaks(text, at + 1)
    }
}

/// Where paragraph `j` begins, given the breaks `cuts`.
pub open spec fn begins(cuts: Seq<int>, j: int) -> int {
    if j <= 0 {
        0
    } else {
        cuts[j - 1] + 2
    }
}

/// Where paragraph `j` ends, given the breaks `cuts` of `text`.
pub open spec fn ends(text: Seq<char>, cuts: Seq<int>, j: int) -> int {
    if j >= cuts.len() {
        text.len() as int
    } else {
        cuts[j]
    }
}

/// How many paragraphs make one section of a text with `paragraphs`
/// paragraphs: a tenth of them.
pub open spec fn section_size(paragraphs: int) -> int {
    if paragraphs / 10 >= 1 {
        paragraphs / 10
    } else {
        1
    }
}

/// How many sections a text of `paragraphs` paragraphs has.
pub open spec fn section_count(paragraphs: int) -> int {
    let size = section_size(paragraphs);
    (paragraphs + size - 1) / size
}

/// Section `i` of `text`: the paragraphs `i * size` up to the next
/// section or the end, with their breaks as they stand in the text.
pub open spec fn section(text: Seq<char>, i: int) -> Seq<char> {
    let cuts = breaks(text, 0);
    let paragraphs = cuts.len() as int + 1;
    let size = section_size(paragraphs);
    let last = if (i + 1) * size < paragraphs {
        (i + 1) * size - 1
    } else {
        paragraphs - 1
    };
    text.subrange(begins(cuts, i * size), ends(text, cuts, last))
}

/// The chapters of a plain text. A text of more than ten paragraphs is
/// cut into sections of a tenth of its paragraphs each; any other text is
/// one chapter, named after its file.
pub open spec fn text_chapters(file_name: Seq<char>, text: Seq<char>) -> Seq<ChapterView> {
    let paragraphs = breaks(text, 0).len() as int + 1;
    if paragraphs > 10 {
        Seq::new(
            section_count(paragraphs) as nat,
            |i: int|
                ChapterView {
                    index: i as usize,
                    title: numbered("Section"@, (i + 1) as nat),
                    content: section(text, i),
                    words: words_of(section(text, i)),
                },
        )
    } else {
        seq![ChapterView { index: 0, title: file_name, content: text, words: words_of(text) }]
    }
}

proof fn lemma_breaks_bounds(text: Seq<char>, at: int)
    requires
        0 <= at,
    ensures
        at <= text.len() ==> 2 * breaks(text, at).len() + at <= text.len() + 1,
        at > text.len() ==> breaks(text, at).len() == 0,
        forall|j: int|
            0 <= j < breaks(text, at).len() ==> at <= (#[trigger] breaks(text, at)[j]) && breaks(
                text,
                at,
            )[j] + 2 <= text.len(),
        forall|j: int, k: int|
            0 <= j < k < breaks(text, at).len() ==> (#[trigger] breaks(text, at)[j]) + 2 <= (
            #[trigger] breaks(text, at)[k]),
    decreases text.len() - at,
{
    if at < text.len() {
        if stands_at(text, at, empty_line()) {
            lemma_breaks_bounds(text, at + 2);
            let rest = breaks(text, at + 2);
            let all = breaks(text, at);
            assert forall|j: int| 0 <= j < all.len() implies at <= (#[trigger] all[j]) && all[j] + 2
                <= text.len() by {
                if j > 0 {
                    assert(all[j] == rest[j - 1]);
                }
            }
            assert forall|j: int, k: int| 0 <= j < k < all.len() implies (#[trigger] all[j]) + 2 <= (
            #[trigger] all[k]) by {
                assert(all[k] == rest[k - 1]);
                if j > 0 {
                    assert(all[j] == rest[j - 1]);
                }
            }
        } else {
            lemma_breaks_bounds(text, at + 1);
        }
    }
}

fn find_breaks(chars: &Vec<char>) -> (cuts: Vec<usize>)
    ensures
        cuts@.map_values(|c: usize| c as int) == breaks(chars@, 0),
{
    let n = chars.len();
    let mut separator: Vec<char> = Vec::new();
    separator.push('\n');
    separator.push('\n');
    assert(separator@ =~= empty_line());
    let mut cuts: Vec<usize> = Vec::new();
    let mut at: usize = 0;
    assert(cuts@.map_values(|c: usize| c as int) + breaks(chars@, 0) =~= breaks(chars@, 0));
    while at < n
        invariant
            n == chars@.len(),
            at <= n + 1,
            separator@ == empty_line(),
            cuts@.map_values(|c: usize| c as int) + breaks(chars@, at as int) == breaks(chars@, 0),
        decreases n + 1 - at,
    {
        let ghost held = cuts@.map_values(|c: usize| c as int);
        let ghost rest = breaks(chars@, at as int);
        if found_at(chars, at, &separator) {
            cuts.push(at);
            at = at + 2;
            assert(cuts@.map_values(|c: usize| c as int) + breaks(chars@, at as int) =~= held
                + rest);
        } else {
            at = at + 1;
        }
    }
    assert(cuts@.map_values(|c: usize| c as int) + breaks(chars@, at as int) =~= cuts@.map_values(
        |c: usize| c as int,
    ));
    cuts
}

impl EpubParser {
    /// The book made of the plain text `content` of the file `file_name`.
    pub fn parse_text(file_name: &str, content: &str) -> (book: Book)
        ensures
            book.metadata.title@ == file_name@,
            book.metadata.author@ == "Unknown"@,
            book.metadata.language is None,
            book.metadata.description is None,
            book.metadata.cover_path is None,
            book.chapters.deep_view() == text_chapters(file_name@, content@),
            book.total_words == words_of(content@).len(),
    {
        let words = Self::extract_words(content);
        let total_words = words.len();
        let chars = chars_of(content);
        let n = chars.len();
        let cuts = find_breaks(&chars);
        let ghost marks = breaks(chars@, 0);
        proof {
            lemma_breaks_bounds(chars@, 0);
            assert(cuts@.map_values(|c: usize| c as int).len() == cuts@.len());
            assert(cuts@.len() == marks.len());
            assert forall|j: int| 0 <= j < cuts@.len() implies cuts@[j] as int == marks[j] by {
                assert(cuts@.map_values(|c: usize| c as int)[j] == cuts@[j] as int);
            }
        }
        let mut chapters: Vec<Chapter> = Vec::new();
        let paragraphs = cuts.len() + 1;
        if paragraphs > 10 {
            let size = paragraphs / 10;
            let mut i: usize = 0;
            let mut first: usize = 0;
            while first < paragraphs
                invariant
                    chars@ == content@,
                    n == chars@.len(),
                    2 * paragraphs <= n + 3,
                    marks == breaks(chars@, 0),
                    cuts@.len() == marks.len(),
                    forall|j: int| 0 <= j < cuts@.len() ==> cuts@[j] as int == marks[j],
                    forall|j: int|
                        0 <= j < marks.len() ==> 0 <= (#[trigger] marks[j]) && marks[j] + 2
                            <= chars@.len(),
                    forall|j: int, k: int|
                        0 <= j < k < marks.len() ==> (#[trigger] marks[j]) + 2 <= (
                        #[trigger] marks[k]),
                    paragraphs == cuts@.len() + 1,
                    paragraphs > 10,
                    size == section_size(paragraphs as int),
                    size >= 1,
                    first == i * size,
                    first <= paragraphs + size,
                    i <= section_count(paragraphs as int),
                    first >= paragraphs ==> i == section_count(paragraphs as int),
                    chapters@.len() == i,
                    forall|k: int|
                        0 <= k < i ==> (#[trigger] chapters@[k])@ == text_chapters(
                            file_name@,
                            content@,
                        )[k],
                decreases paragraphs + size - first,
            {
                let last = if size < paragraphs - first {
                    first + size - 1
                } else {
                    paragraphs - 1
                };
                proof {
                    if first > 0 {
                        assert(marks[first - 1] + 2 <= chars@.len());
                    }
                }
                let from = if first == 0 {
                    0
                } else {
                    cuts[first - 1] + 2
                };
                let to = if last >= cuts.len() {
                    n
                } else {
                    cuts[last]
                };
                proof {
                    assert((i + 1) * size == first + size) by (nonlinear_arith)
                        requires
                            first == i * size,
                    ;
                    assert(from == begins(marks, i * size));
                    assert(to == ends(chars@, marks, last as int));
                    if first > 0 && last < cuts@.len() {
                        if first - 1 < last {
                            assert(marks[first - 1] + 2 <= marks[last as int]);
                        }
                    }
                    assert(from <= to);
                    lemma_section_count(paragraphs as int, size as int, i as int);
                }
                let text = text_of(&chars, from, to);
                let section_words = Self::extract_words(text.as_str());
                let title = numbered_title("Section", i as u128 + 1);
                chapters.push(Chapter { index: i, title, content: text, words: section_words });
                first = first + size;
                i = i + 1;
            }
            assert(chapters.deep_view() =~= text_chapters(file_name@, content@));
        } else {
            chapters.push(
                Chapter {
                    index: 0,
                    title: String::from_str(file_name),
                    content: String::from_str(content),
                    words,
                },
            );
            assert(chapters.deep_view() =~= text_chapters(file_name@, content@));
        }
        Book {
            metadata: BookMetadata {
                title: String::from_str(file_name),
                author: String::from_str("Unknown"),
                language: None,
                description: None,
                cover_path: None,
            },
            chapters,
            total_words,
        }
    }
}

/// Sections are counted by their first paragraphs: section `i` begins
/// before the end exactly if it is one of the sections, and the section
/// after the last begins at or past the end.
proof fn lemma_section_count(paragraphs: int, size: int, i: int)
    requires
        paragraphs > 10,
        size == section_size(paragraphs),
        0 <= i,
        i * size < paragraphs,
    ensures
        i < section_count(paragraphs),
        (i + 1) * size >= paragraphs ==> i + 1 == section_count(paragraphs),
        i + 1 <= section_count(paragraphs),
{
    let count = section_count(paragraphs);
    assert(size >= 1);
    assert(count * size >= paragraphs && (count - 1) * size < paragraphs) by (nonlinear_arith)
        requires
            count == (paragraphs + size - 1) / size,
            size >= 1,
            paragraphs > 0,
    ;
    assert(i < count) by (nonlinear_arith)
        requires
            i * size < paragraphs,
            count * size >= paragraphs,
            size >= 1,
    ;
    if (i + 1) * size >= paragraphs {
        assert(i + 1 > count - 1) by (nonlinear_arith)
            requires
                (i + 1) * size >= paragraphs,
                (count - 1) * size < paragraphs,
                size >= 1,
        ;
    }
}

} // verus!
