//! Helpers on text that the other modules share: joining, comparing,
//! trimming, and the length of text in bytes.

use vstd::prelude::*;
use vstd::string::*;

verus! {

/// `head` followed by `tail`.
pub fn glue(head: &str, tail: &str) -> (joined: String)
    ensures
        joined@ == head@ + tail@,
{
    let mut joined = String::from_str(head);
    joined.append(tail);
    joined
}

/// `first`, `second` and `third` in a row.
pub fn glue3(first: &str, second: &str, third: &str) -> (joined: String)
    ensures
        joined@ == first@ + second@ + third@,
{
    let mut joined = String::from_str(first);
    joined.append(second);
    joined.append(third);
    joined
}

/// Whether `left` and `right` hold the same characters.
pub fn same_text(left: &str, right: &str) -> (same: bool)
    ensures
        same == (left@ == right@),
{
    let left = String::from_str(left);
    let right = String::from_str(right);
    left == right
}

/// The characters of `text`.
pub fn chars_of(text: &str) -> (chars: Vec<char>)
    ensures
        chars@ == text@,
{
    let mut chars: Vec<char> = Vec::new();
    for c in it: text.chars()
        invariant
            it.seq() == text@,
            chars@ == it.seq().take(it.index() as int),
    {
        chars.push(c);
        assert(chars@ =~= it.seq().take(it.index() + 1));
    }
    assert(text@.take(text@.len() as int) =~= text@);
    chars
}

/// `String::from_iter`: the text made of the characters `chars`, in
/// order.
#[verifier::external_body]
fn string_of(chars: &Vec<char>) -> (text: String)
    ensures
        text@ == chars@,
{
    String::from_iter(chars)
}

/// The text made of the characters `chars[from..to]`, in order.
pub fn text_of(chars: &Vec<char>, from: usize, to: usize) -> (text: String)
    requires
        from <= to <= chars@.len(),
    ensures
        text@ == chars@.subrange(from as int, to as int),
{
    let mut part: Vec<char> = Vec::new();
    let mut i: usize = from;
    while i < to
        invariant
            from <= i <= to <= chars@.len(),
            part@ == chars@.subrange(from as int, i as int),
        decreases to - i,
    {
        part.push(chars[i]);
        i = i + 1;
        assert(part@ =~= chars@.subrange(from as int, i as int));
    }
    string_of(&part)
}

/// The path `rest` below the directory `base`, as the platform the library
/// is built for joins the two.
pub uninterp spec fn path_joined(base: Seq<char>, rest: Seq<char>) -> Seq<char>;

/// `std::path::Path::join`: the path `rest` below the directory `base`.
/// Both are text and so is their join.
#[verifier::external_body]
pub(crate) fn join_path(base: &str, rest: &str) -> (path: String)
    ensures
        path@ == path_joined(base@, rest@),
{
    std::path::Path::new(base).join(rest).to_string_lossy().into_owned()
}

/// Whether `c` is white space: one of the code points that carry the
/// Unicode property of that name.
pub open spec fn is_space(c: char) -> bool {
    let code = c as u32;
    ||| 0x09 <= code <= 0x0D
    ||| code == 0x20
    ||| code == 0x85
    ||| code == 0xA0
    ||| code == 0x1680
    ||| 0x2000 <= code <= 0x200A
    ||| code == 0x2028
    ||| code == 0x2029
    ||| code == 0x202F
    ||| code == 0x205F
    ||| code == 0x3000
}

/// Whether `c` is white space.
pub fn is_space_char(c: char) -> (yes: bool)
    ensures
        yes == is_space(c),
{
    let code = c as u32;
    (0x09 <= code && code <= 0x0D) || code == 0x20 || code == 0x85 || code == 0xA0 || code == 0x1680
        || (0x2000 <= code && code <= 0x200A) || code == 0x2028 || code == 0x2029 || code == 0x202F
        || code == 0x205F || code == 0x3000
}

/// How many characters of white space `text` begins with.
pub open spec fn lead(text: Seq<char>) -> nat
    decreases text.len(),
{
    if text.len() > 0 && is_space(text.first()) {
        1 + lead(text.drop_first())
    } else {
        0
    }
}

/// How many characters of white space `text` ends with.
pub open spec fn trail(text: Seq<char>) -> nat
    decreases text.len(),
{
    if text.len() > 0 && is_space(text.last()) {
        1 + trail(text.drop_last())
    } else {
        0
    }
}

/// `text` without the white space at its ends.
pub open spec fn trim(text: Seq<char>) -> Seq<char> {
    if lead(text) >= text.len() {
        Seq::empty()
    } else {
        text.subrange(lead(text) as int, text.len() - trail(text))
    }
}

/// Whether `text` holds nothing but white space.
pub open spec fn blank(text: Seq<char>) -> bool {
    lead(text) >= text.len()
}

/// Where a character that is no white space stands after nothing but white
/// space, the leading white space ends there.
proof fn lemma_lead_is(text: Seq<char>, at: nat)
    requires
        at <= text.len(),
        forall|i: int| 0 <= i < at ==> is_space(#[trigger] text[i]),
        at < text.len() ==> !is_space(text[at as int]),
    ensures
        lead(text) == at,
    decreases at,
{
    if at > 0 {
        let rest = text.drop_first();
        assert(is_space(text[0]));
        assert forall|i: int| 0 <= i < at - 1 implies is_space(#[trigger] rest[i]) by {
            assert(rest[i] == text[i + 1]);
        }
        lemma_lead_is(rest, (at - 1) as nat);
    }
}

proof fn lemma_trail_is(text: Seq<char>, n: nat)
    requires
        n <= text.len(),
        forall|i: int| text.len() - n <= i < text.len() ==> is_space(#[trigger] text[i]),
        n < text.len() ==> !is_space(text[text.len() - n - 1]),
    ensures
        trail(text) == n,
    decreases n,
{
    if n > 0 {
        let rest = text.drop_last();
        assert(is_space(text[text.len() - 1]));
        assert forall|i: int| rest.len() - (n - 1) <= i < rest.len() implies is_space(
            #[trigger] rest[i],
        ) by {
            assert(rest[i] == text[i]);
        }
        lemma_trail_is(rest, (n - 1) as nat);
    }
}

/// The bounds of `chars` without the white space at its ends: the trimmed
/// text is `chars[from..to]`.
pub fn trim_bounds(chars: &Vec<char>) -> (bounds: (usize, usize))
    ensures
        bounds.0 <= bounds.1 <= chars@.len(),
        chars@.subrange(bounds.0 as int, bounds.1 as int) == trim(chars@),
        bounds.0 == bounds.1 <==> blank(chars@),
{
    let n = chars.len();
    let mut from: usize = 0;
    while from < n && is_space_char(chars[from])
        invariant
            n == chars@.len(),
            from <= n,
            forall|i: int| 0 <= i < from ==> is_space(#[trigger] chars@[i]),
        decreases n - from,
    {
        from = from + 1;
    }
    proof {
        lemma_lead_is(chars@, from as nat);
    }
    if from == n {
        assert(chars@.subrange(from as int, from as int) =~= Seq::<char>::empty());
        return (from, from);
    }
    let mut to: usize = n;
    while to > from + 1 && is_space_char(chars[to - 1])
        invariant
            n == chars@.len(),
            from < to <= n,
            !is_space(chars@[from as int]),
            forall|i: int| to <= i < n ==> is_space(#[trigger] chars@[i]),
        decreases to,
    {
        to = to - 1;
    }
    proof {
        lemma_trail_is(chars@, (n - to) as nat);
    }
    (from, to)
}

/// Whether `text` holds nothing but white space.
pub fn is_blank(text: &str) -> (yes: bool)
    ensures
        yes == blank(text@),
{
    let chars = chars_of(text);
    let (from, to) = trim_bounds(&chars);
    from == to
}

/// How many bytes `c` takes in UTF-8.
pub open spec fn width(c: char) -> nat {
    let code = c as u32;
    if code < 0x80 {
        1
    } else if code < 0x800 {
        2
    } else if code < 0x10000 {
        3
    } else {
        4
    }
}

/// How many bytes `text` takes in UTF-8.
pub open spec fn byte_len(text: Seq<char>) -> nat
    decreases text.len(),
{
    if text.len() == 0 {
        0
    } else {
        byte_len(text.drop_last()) + width(text.last())
    }
}

/// How many bytes `c` takes in UTF-8.
pub fn char_width(c: char) -> (n: usize)
    ensures
        n == width(c),
{
    let code = c as u32;
    if code < 0x80 {
        1
    } else if code < 0x800 {
        2
    } else if code < 0x10000 {
        3
    } else {
        4
    }
}


/// Whether `pattern` stands in `text` at `at`.
pub open spec fn stands_at(text: Seq<char>, at: int, pattern: Seq<char>) -> bool {
    0 <= at && at + pattern.len() <= text.len() && text.subrange(at, at + pattern.len()) == pattern
}

/// `text` from `at` on, with `to` in place of each `from` that is met when
/// going from left to right. An empty `from` is met nowhere.
pub open spec fn replaced_from(text: Seq<char>, at: int, from: Seq<char>, to: Seq<char>) -> Seq<char>
    decreases text.len() - at,
{
    if at < 0 || at >= text.len() {
        Seq::empty()
    } else if from.len() > 0 && stands_at(text, at, from) {
        to + replaced_from(text, at + from.len(), from, to)
    } else {
        seq![text[at]] + replaced_from(text, at + 1, from, to)
    }
}

/// `text` with `to` in place of each `from`.
pub open spec fn replaced(text: Seq<char>, from: Seq<char>, to: Seq<char>) -> Seq<char> {
    replaced_from(text, 0, from, to)
}

/// Whether `pattern` stands in `chars` at `at`.
pub fn found_at(chars: &Vec<char>, at: usize, pattern: &Vec<char>) -> (found: bool)
    requires
        at <= chars@.len(),
    ensures
        found == stands_at(chars@, at as int, pattern@),
{
    let n = pattern.len();
    let len = chars.len();
    if n > len - at {
        return false;
    }
    let mut i: usize = 0;
    while i < n
        invariant
            n == pattern@.len(),
            len == chars@.len(),
            at + n <= len,
            i <= n,
            forall|k: int| 0 <= k < i ==> chars@[at + k] == pattern@[k],
        decreases n - i,
    {
        if chars[at + i] != pattern[i] {
            assert(chars@.subrange(at as int, at + n)[i as int] == chars@[at + i]);
            return false;
        }
        i = i + 1;
    }
    assert(chars@.subrange(at as int, at + n) =~= pattern@);
    true
}

/// `chars` with `to` in place of each `from`.
pub fn replace_all(chars: &Vec<char>, from: &Vec<char>, to: &Vec<char>) -> (out: Vec<char>)
    ensures
        out@ == replaced(chars@, from@, to@),
{
    let n = chars.len();
    let mut out: Vec<char> = Vec::new();
    let mut at: usize = 0;
    assert(out@ + replaced_from(chars@, 0, from@, to@) =~= replaced(chars@, from@, to@));
    while at < n
        invariant
            n == chars@.len(),
            at <= n,
            out@ + replaced_from(chars@, at as int, from@, to@) == replaced(chars@, from@, to@),
        decreases n - at,
    {
        let ghost rest = replaced_from(chars@, at as int, from@, to@);
        let ghost before = out@;
        if from.len() > 0 && found_at(chars, at, from) {
            let mut i: usize = 0;
            while i < to.len()
                invariant
                    i <= to@.len(),
                    out@ == before + to@.subrange(0, i as int),
                decreases to@.len() - i,
            {
                out.push(to[i]);
                i = i + 1;
                assert(out@ =~= before + to@.subrange(0, i as int));
            }
            assert(to@.subrange(0, to@.len() as int) =~= to@);
            at = at + from.len();
            assert(out@ + replaced_from(chars@, at as int, from@, to@) =~= before + rest);
        } else {
            out.push(chars[at]);
            at = at + 1;
            assert(out@ + replaced_from(chars@, at as int, from@, to@) =~= before + rest);
        }
    }
    assert(out@ + replaced_from(chars@, n as int, from@, to@) =~= out@);
    out
}

/// A text takes at most four bytes for each of its characters.
pub proof fn lemma_byte_len_bound(text: Seq<char>)
    ensures
        byte_len(text) <= 4 * text.len(),
    decreases text.len(),
{
    if text.len() > 0 {
        lemma_byte_len_bound(text.drop_last());
    }
}

/// How many bytes `chars[from..to]` takes in UTF-8.
pub fn byte_length(chars: &Vec<char>, from: usize, to: usize) -> (n: u128)
    requires
        from <= to <= chars@.len(),
    ensures
        n == byte_len(chars@.subrange(from as int, to as int)),
{
    let mut n: u128 = 0;
    let mut i: usize = from;
    assert(chars@.subrange(from as int, from as int) =~= Seq::<char>::empty());
    while i < to
        invariant
            from <= i <= to <= chars@.len(),
            n == byte_len(chars@.subrange(from as int, i as int)),
            n <= 4 * (i - from),
        decreases to - i,
    {
        proof {
            assert(chars@.subrange(from as int, i + 1).drop_last() =~= chars@.subrange(
                from as int,
                i as int,
            ));
        }
        n = n + char_width(chars[i]) as u128;
        i = i + 1;
    }
    n
}


/// `text` without the `suffix` at its end, however often it stands there.
/// An empty `suffix` stands nowhere.
pub open spec fn without_suffix(text: Seq<char>, suffix: Seq<char>) -> Seq<char>
    decreases text.len(),
{
    if suffix.len() > 0 && stands_at(text, text.len() - suffix.len(), suffix) {
        without_suffix(text.take(text.len() - suffix.len()), suffix)
    } else {
        text
    }
}

/// How much of `chars` is left when the `suffix` at its end is taken off,
/// however often it stands there: the rest is `chars[0..end]`.
pub fn suffix_start(chars: &Vec<char>, suffix: &Vec<char>) -> (end: usize)
    ensures
        end <= chars@.len(),
        chars@.take(end as int) == without_suffix(chars@, suffix@),
{
    let k = suffix.len();
    let mut end: usize = chars.len();
    assert(chars@.take(end as int) =~= chars@);
    if k == 0 {
        return end;
    }
    while end >= k && found_at(chars, end - k, suffix)
        invariant
            k == suffix@.len(),
            k > 0,
            end <= chars@.len(),
            without_suffix(chars@.take(end as int), suffix@) == without_suffix(chars@, suffix@),
        decreases end,
    {
        proof {
            let part = chars@.take(end as int);
            assert(part.subrange(end - k, end as int) =~= chars@.subrange(end - k, end as int));
            assert(part.take(end - k) =~= chars@.take(end - k));
        }
        end = end - k;
    }
    proof {
        let part = chars@.take(end as int);
        if end >= k {
            assert(part.subrange(end - k, end as int) =~= chars@.subrange(end - k, end as int));
        }
    }
    end
}

} // verus!
